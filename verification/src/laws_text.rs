//! What the functions on texts are for, stated over characters and positions.
use crate::taint;
use crate::text;
use vstd::prelude::*;

verus! {

/// A text holds another exactly where it can be cut into what stands before, the other text and
/// what stands after.
pub proof fn law_contains_is_a_cut(s: Seq<char>, pat: Seq<char>, a: Seq<char>, b: Seq<char>)
    ensures
        text::contains(a + pat + b, pat),
        text::contains(s, pat) ==> exists|x: Seq<char>, y: Seq<char>| s == #[trigger] (x + pat + y),
        s.len() < pat.len() ==> !text::contains(s, pat),
{
    let all = a + pat + b;
    assert(all.subrange(a.len() as int, a.len() as int + pat.len()) =~= pat);
    assert(text::occurs_at(all, pat, a.len() as int));
    if text::contains(s, pat) {
        let i = choose|i: int| text::occurs_at(s, pat, i);
        let x = s.take(i);
        let y = s.skip(i + pat.len());
        assert(s =~= x + pat + y);
    }
}

/// A text begins with another exactly where the rest follows it, and ends with another exactly where
/// the rest stands before it.
pub proof fn law_starts_and_ends(s: Seq<char>, pat: Seq<char>)
    ensures
        text::starts_with(s, pat) <==> pat.len() <= s.len() && s == pat + s.skip(pat.len() as int),
        text::ends_with(s, pat) <==> pat.len() <= s.len() && s == s.take(s.len() - pat.len()) + pat,
{
    if pat.len() <= s.len() {
        let n = pat.len() as int;
        if text::starts_with(s, pat) {
            assert forall|k: int| 0 <= k < n implies s[k] == pat[k] by {
                assert(s.subrange(0, n)[k] == s[k]);
            }
            assert(s =~= pat + s.skip(n));
        }
        if s == pat + s.skip(n) {
            assert(s.subrange(0, n) =~= pat);
        }
        let e = s.len() - n;
        if text::ends_with(s, pat) {
            assert forall|k: int| 0 <= k < n implies s[e + k] == pat[k] by {
                assert(s.subrange(e, e + n)[k] == s[e + k]);
            }
            assert(s =~= s.take(e) + pat);
        }
        if s == s.take(e) + pat {
            assert(s.subrange(e, e + n) =~= pat);
        }
    }
}

/// A word stands in a line where it stands between characters that belong to no identifier: no
/// letter or digit of ASCII, no underscore, and no dollar sign where identifiers may hold one.
pub proof fn law_words_stand_between_other_characters(line: Seq<char>, word: Seq<char>, dollar: bool)
    ensures
        text::has_word(line, word, dollar) <==> word.len() > 0 && exists|a: Seq<char>, b: Seq<char>|
            line == #[trigger] (a + word + b) && (a.len() == 0 || !(('0' <= a.last() <= '9') || ('a' <= a.last() <= 'z') || ('A' <= a.last() <= 'Z') || a.last() == '_' || (dollar && a.last() == '$'))) && (b.len() == 0 || !(('0' <= b[0] <= '9') || ('a' <= b[0] <= 'z') || ('A' <= b[0] <= 'Z') || b[0] == '_' || (dollar && b[0] == '$'))),
{
    if text::has_word(line, word, dollar) {
        let i = choose|i: int| text::whole_word_at(line, word, i, dollar);
        let a = line.take(i);
        let b = line.skip(i + word.len());
        assert(line =~= a + word + b);
        if i > 0 {
            assert(a.last() == line[i - 1]);
        }
        if b.len() > 0 {
            assert(b[0] == line[i + word.len()]);
        }
    }
    if word.len() > 0 && exists|a: Seq<char>, b: Seq<char>|
        line == #[trigger] (a + word + b) && (a.len() == 0 || !(('0' <= a.last() <= '9') || ('a' <= a.last() <= 'z') || ('A' <= a.last() <= 'Z') || a.last() == '_' || (dollar && a.last() == '$'))) && (b.len() == 0 || !(('0' <= b[0] <= '9') || ('a' <= b[0] <= 'z') || ('A' <= b[0] <= 'Z') || b[0] == '_' || (dollar && b[0] == '$'))) {
        let (a, b) = choose|a: Seq<char>, b: Seq<char>|
            line == #[trigger] (a + word + b) && (a.len() == 0 || !(('0' <= a.last() <= '9') || ('a' <= a.last() <= 'z') || ('A' <= a.last() <= 'Z') || a.last() == '_' || (dollar && a.last() == '$'))) && (b.len() == 0 || !(('0' <= b[0] <= '9') || ('a' <= b[0] <= 'z') || ('A' <= b[0] <= 'Z') || b[0] == '_' || (dollar && b[0] == '$')));
        let i = a.len() as int;
        assert(line.subrange(i, i + word.len()) =~= word);
        if i > 0 {
            assert(a.last() == line[i - 1]);
        }
        if b.len() > 0 {
            assert(b[0] == line[i + word.len()]);
        }
        assert(text::whole_word_at(line, word, i, dollar));
    }
}

/// A line ends with its line feed: the lines of a text are its first line and then the lines of
/// what follows, and a text without a line feed is one line. A carriage return before the line feed
/// belongs to neither line.
pub proof fn law_lines_end_at_line_feeds(line: Seq<char>, rest: Seq<char>)
    requires
        forall|i: int| 0 <= i < line.len() ==> #[trigger] line[i] != '\n',
    ensures
        text::lines(Seq::empty()) == Seq::<Seq<char>>::empty(),
        line.len() > 0 ==> text::lines(line) == seq![line],
        line.len() == 0 || line.last() != '\r' ==> text::lines(line + seq!['\n'] + rest) == seq![line] + text::lines(rest),
        text::lines(line + seq!['\r', '\n'] + rest) == seq![line] + text::lines(rest),
{
    assert(text::lines(Seq::<char>::empty()) =~= Seq::<Seq<char>>::empty());
    text::lemma_find_char(line, '\n', 0);
    if line.len() > 0 {
        if text::find_char(line, '\n', 0) < line.len() {
            assert(line[text::find_char(line, '\n', 0)] != '\n');
        }
        assert(line.skip(0) =~= line);
        assert(text::lines(line) =~= seq![line]);
    }
    let n = line.len() as int;
    let s = line + seq!['\n'] + rest;
    text::lemma_find_char(s, '\n', 0);
    assert(s[n] == '\n');
    assert forall|i: int| 0 <= i < n implies s[i] != '\n' by {
        assert(s[i] == line[i]);
    }
    assert(text::find_char(s, '\n', 0) == n);
    assert(s.subrange(0, n) =~= line);
    lemma_lines_shift(line + seq!['\n'], rest, 0);
    if line.len() == 0 || line.last() != '\r' {
        assert(n > 0 ==> s[n - 1] == line.last());
        assert(text::lines(s) =~= seq![line] + text::lines(rest));
    }
    let t = line + seq!['\r', '\n'] + rest;
    text::lemma_find_char(t, '\n', 0);
    assert(t[n] == '\r' && t[n + 1] == '\n');
    assert forall|i: int| 0 <= i < n implies t[i] != '\n' by {
        assert(t[i] == line[i]);
    }
    assert(text::find_char(t, '\n', 0) == n + 1);
    assert(t.subrange(0, n) =~= line);
    lemma_lines_shift(line + seq!['\r', '\n'], rest, 0);
    assert(text::lines(t) =~= seq![line] + text::lines(rest));
}

pub proof fn lemma_find_char_shift(a: Seq<char>, b: Seq<char>, c: char, i: int)
    requires
        0 <= i <= b.len(),
    ensures
        text::find_char(a + b, c, a.len() + i) == a.len() + text::find_char(b, c, i),
    decreases b.len() - i,
{
    if i < b.len() {
        assert((a + b)[a.len() + i] == b[i]);
        if b[i] != c {
            lemma_find_char_shift(a, b, c, i + 1);
        }
    }
}

pub proof fn lemma_lines_shift(a: Seq<char>, b: Seq<char>, i: int)
    requires
        0 <= i <= b.len(),
    ensures
        text::lines_from(a + b, a.len() + i) == text::lines_from(b, i),
    decreases b.len() - i,
{
    if i < b.len() {
        let s = a + b;
        let n = a.len() as int;
        text::lemma_find_char(b, '\n', i);
        lemma_find_char_shift(a, b, '\n', i);
        let end = text::find_char(b, '\n', i);
        if end >= b.len() {
            assert(s.skip(n + i) =~= b.skip(i));
        } else {
            lemma_lines_shift(a, b, end + 1);
            assert(s.subrange(n + i, n + end) =~= b.subrange(i, end));
            assert(s[n + end - 1] == b[end - 1] || end == i);
            if end > i {
                assert(s.subrange(n + i, n + end - 1) =~= b.subrange(i, end - 1));
                assert(s[n + end - 1] == b[end - 1]);
            }
        }
    }
}

/// Lines are counted from 1.
pub proof fn law_lines_count_from_one(i: int)
    requires
        0 <= i < 0xffff_ffff,
    ensures
        text::line_number(i) == i + 1,
{
}

/// What is trimmed away is white space, and no more of it is left at either end. A blank, a tab, a
/// line feed and a carriage return are white space; letters, digits and punctuation are none.
pub proof fn law_trimming_takes_the_outer_space(s: Seq<char>)
    ensures
        exists|a: Seq<char>, b: Seq<char>|
            s == #[trigger] (a + text::trim(s) + b) && (forall|i: int| 0 <= i < a.len() ==> text::is_space(#[trigger] a[i])) && (
            forall|i: int| 0 <= i < b.len() ==> text::is_space(#[trigger] b[i])),
        text::trim(s).len() > 0 ==> !text::is_space(text::trim(s)[0]) && !text::is_space(text::trim(s).last()),
        text::trim_start(s).len() > 0 ==> !text::is_space(text::trim_start(s)[0]),
        text::trim_end(s).len() > 0 ==> !text::is_space(text::trim_end(s).last()),
        text::is_space(' ') && text::is_space('\t') && text::is_space('\n') && text::is_space('\r'),
        forall|c: char| '!' <= c <= '~' ==> !(#[trigger] text::is_space(c)),
{
    let k = text::skip_space(s, 0);
    text::lemma_skip_space(s, 0);
    let t = text::trim_start(s);
    let e = text::skip_space_back(t, t.len() as int);
    text::lemma_skip_space_back(t, t.len() as int);
    let a = s.take(k);
    let b = t.skip(e);
    assert(s =~= a + text::trim(s) + b);
    if text::trim(s).len() > 0 {
        assert(text::trim(s)[0] == s[k]);
    }
    text::lemma_skip_space_back(s, s.len() as int);
}

/// Cutting at separators: what stands before the first one, and then the parts of the rest.
pub proof fn law_splitting_cuts_at_each_separator(a: Seq<char>, c: char, rest: Seq<char>, set: Seq<char>)
    requires
        forall|i: int| 0 <= i < a.len() ==> !set.contains(#[trigger] a[i]),
        set.contains(c),
    ensures
        text::split(a, set) == seq![a],
        text::split(a + seq![c] + rest, set) == seq![a] + text::split(rest, set),
{
    let s = a + seq![c] + rest;
    let n = a.len() as int;
    text::lemma_find_one_of(a, set, 0);
    text::lemma_find_one_of(s, set, 0);
    if text::find_one_of(a, set, 0) < n {
        assert(!set.contains(a[text::find_one_of(a, set, 0)]));
    }
    assert(a.skip(0) =~= a);
    assert(s[n] == c);
    assert forall|i: int| 0 <= i < n implies !set.contains(#[trigger] s[i]) by {
        assert(s[i] == a[i]);
    }
    if text::find_one_of(s, set, 0) < n {
        assert(!set.contains(s[text::find_one_of(s, set, 0)]));
    }
    assert(text::find_one_of(s, set, 0) == n);
    assert(s.subrange(0, n) =~= a);
    lemma_split_shift(a + seq![c], rest, set, 0);
}

proof fn lemma_find_one_of_shift(a: Seq<char>, b: Seq<char>, set: Seq<char>, i: int)
    requires
        0 <= i <= b.len(),
    ensures
        text::find_one_of(a + b, set, a.len() + i) == a.len() + text::find_one_of(b, set, i),
    decreases b.len() - i,
{
    if i < b.len() {
        assert((a + b)[a.len() + i] == b[i]);
        if !set.contains(b[i]) {
            lemma_find_one_of_shift(a, b, set, i + 1);
        }
    }
}

proof fn lemma_split_shift(a: Seq<char>, b: Seq<char>, set: Seq<char>, i: int)
    requires
        0 <= i <= b.len(),
    ensures
        text::split_from(a + b, set, a.len() + i) == text::split_from(b, set, i),
    decreases b.len() - i,
{
    let s = a + b;
    let n = a.len() as int;
    text::lemma_find_one_of(b, set, i);
    lemma_find_one_of_shift(a, b, set, i);
    let end = text::find_one_of(b, set, i);
    if end >= b.len() {
        assert(s.skip(n + i) =~= b.skip(i));
    } else {
        lemma_split_shift(a, b, set, end + 1);
        assert(s.subrange(n + i, n + end) =~= b.subrange(i, end));
    }
}

/// A list is cut at its commas: what stands before the first comma outside brackets, and then the
/// parts of the rest.
pub proof fn law_lists_are_cut_at_commas(a: Seq<char>, rest: Seq<char>)
    requires
        forall|i: int|
            0 <= i < a.len() ==> (#[trigger] a[i]) != ',' && a[i] != '(' && a[i] != ')' && a[i] != '[' && a[i] != ']'
                && a[i] != '{' && a[i] != '}',
    ensures
        !text::is_blank(a) ==> taint::top_level_parts(a) == seq![a],
        taint::top_level_parts(a + seq![','] + rest) == seq![a] + taint::top_level_parts(rest),
{
    let s = a + seq![','] + rest;
    let n = a.len() as int;
    taint::lemma_next_comma(a, 0);
    if taint::next_comma(a, 0) < n {
        assert(a[taint::next_comma(a, 0)] == ',');
    }
    assert(a.skip(0) =~= a);
    assert(s[n] == ',');
    lemma_flat(s, a, n);
    taint::lemma_next_comma(s, 0);
    assert(taint::top_comma(s, n));
    if taint::next_comma(s, 0) < n {
        assert(s[taint::next_comma(s, 0)] == a[taint::next_comma(s, 0)]);
    }
    assert(taint::next_comma(s, 0) == n);
    assert(s.subrange(0, n) =~= a);
    assert(taint::depth_at(s, n + 1) == 0);
    lemma_top_level_shift(a + seq![','], rest, 0);
}

proof fn lemma_flat(s: Seq<char>, a: Seq<char>, i: int)
    requires
        0 <= i <= a.len() <= s.len(),
        forall|k: int| 0 <= k < a.len() ==> #[trigger] s[k] == a[k],
        forall|k: int|
            0 <= k < a.len() ==> (#[trigger] a[k]) != '(' && a[k] != ')' && a[k] != '[' && a[k] != ']' && a[k] != '{'
                && a[k] != '}',
    ensures
        taint::depth_at(s, i) == 0,
    decreases i,
{
    if i > 0 {
        lemma_flat(s, a, i - 1);
        assert(s[i - 1] == a[i - 1]);
    }
}

proof fn lemma_depth_shift(a: Seq<char>, b: Seq<char>, i: int)
    requires
        0 <= i <= b.len(),
        taint::depth_at(a + b, a.len() as int) == 0,
    ensures
        taint::depth_at(a + b, a.len() + i) == taint::depth_at(b, i),
    decreases i,
{
    if i > 0 {
        lemma_depth_shift(a, b, i - 1);
        assert((a + b)[a.len() + i - 1] == b[i - 1]);
    }
}

proof fn lemma_next_comma_shift(a: Seq<char>, b: Seq<char>, i: int)
    requires
        0 <= i <= b.len(),
        taint::depth_at(a + b, a.len() as int) == 0,
    ensures
        taint::next_comma(a + b, a.len() + i) == a.len() + taint::next_comma(b, i),
    decreases b.len() - i,
{
    if i < b.len() {
        lemma_depth_shift(a, b, i);
        assert((a + b)[a.len() + i] == b[i]);
        if !taint::top_comma(b, i) {
            lemma_next_comma_shift(a, b, i + 1);
        }
    }
}

proof fn lemma_top_level_shift(a: Seq<char>, b: Seq<char>, i: int)
    requires
        0 <= i <= b.len(),
        taint::depth_at(a + b, a.len() as int) == 0,
    ensures
        taint::top_level_from(a + b, a.len() + i) == taint::top_level_from(b, i),
    decreases b.len() - i,
{
    let s = a + b;
    let n = a.len() as int;
    taint::lemma_next_comma(b, i);
    lemma_next_comma_shift(a, b, i);
    let end = taint::next_comma(b, i);
    if end < b.len() {
        lemma_top_level_shift(a, b, end + 1);
        assert(s.subrange(n + i, n + end) =~= b.subrange(i, end));
    } else {
        assert(s.skip(n + i) =~= b.skip(i));
    }
}

/// A letter changes its case, and nothing else does.
pub proof fn law_case_is_that_of_ascii_letters(s: Seq<char>, i: int)
    requires
        0 <= i < s.len(),
    ensures
        text::lower(s).len() == s.len() && text::upper(s).len() == s.len(),
        'A' <= s[i] <= 'Z' ==> text::lower(s)[i] as u32 == s[i] as u32 + 32,
        'a' <= s[i] <= 'z' ==> text::upper(s)[i] as u32 == s[i] as u32 - 32,
        !('A' <= s[i] <= 'Z') ==> text::lower(s)[i] == s[i],
        !('a' <= s[i] <= 'z') ==> text::upper(s)[i] == s[i],
{
}

/// The identifier at the start of a text: it is all of the letters, digits and underscores that
/// stand there, and the dollar signs where identifiers may hold them.
pub proof fn law_identifiers_are_read_whole(id: Seq<char>, rest: Seq<char>, dollar: bool)
    requires
        forall|i: int|
            0 <= i < id.len() ==> ('0' <= #[trigger] id[i] <= '9') || ('a' <= id[i] <= 'z') || ('A' <= id[i] <= 'Z')
                || id[i] == '_' || (dollar && id[i] == '$'),
        rest.len() == 0 || !(('0' <= rest[0] <= '9') || ('a' <= rest[0] <= 'z') || ('A' <= rest[0] <= 'Z') || rest[0]
            == '_' || (dollar && rest[0] == '$')),
    ensures
        text::ident_prefix(id + rest, dollar) == id,
{
    let s = id + rest;
    text::lemma_ident_end(s, 0, dollar);
    let e = text::ident_end(s, 0, dollar);
    if e < id.len() {
        assert(s[e] == id[e]);
    }
    if e > id.len() {
        assert(s[id.len() as int] == rest[0]);
    }
    assert(s.take(id.len() as int) =~= id);
}

} // verus!
