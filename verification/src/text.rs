//! Text as sequences of characters: searching, line splitting, trimming.
//!
//! The specification functions speak of `Seq<char>`, the view of a `str`; the executable functions
//! work on `&[char]`, so that a position is an index and a part of a text is a subslice.
use vstd::prelude::*;
use vstd::utf8::encode_scalar;
use vstd::utf8::encode_utf8;

verus! {

/// `String::push` appends the given character to the end of the string.
pub assume_specification[ String::push ](s: &mut String, c: char)
    ensures
        final(s)@ == old(s)@.push(c),
;

// --- conversions -----------------------------------------------------------

/// The characters of `s`.
pub fn chars_of(s: &str) -> (r: Vec<char>)
    ensures
        r@ == s@,
{
    let mut out: Vec<char> = Vec::new();
    for c in it: s.chars()
        invariant
            out@ == s@.take(it.index() as int),
            it.seq() == s@,
    {
        out.push(c);
    }
    out
}

/// The string made of the characters of `t`.
pub fn string_of(t: &[char]) -> (r: String)
    ensures
        r@ == t@,
{
    let mut out = String::new();
    for i in 0..t.len()
        invariant
            out@ == t@.take(i as int),
    {
        out.push(t[i]);
    }
    out
}

/// The texts of a list of slices.
pub open spec fn views(v: Seq<&[char]>) -> Seq<Seq<char>> {
    Seq::new(v.len(), |i: int| v[i]@)
}

/// The texts of a list of strings.
pub open spec fn strings(v: Seq<String>) -> Seq<Seq<char>> {
    Seq::new(v.len(), |i: int| v[i]@)
}

/// The texts of a list of string slices.
pub open spec fn strs(v: Seq<&str>) -> Seq<Seq<char>> {
    Seq::new(v.len(), |i: int| v[i]@)
}

/// A copy of a list of strings.
pub fn clone_strings(v: &Vec<String>) -> (r: Vec<String>)
    ensures
        strings(r@) == strings(v@),
{
    let mut out: Vec<String> = Vec::new();
    for i in 0..v.len()
        invariant
            out@.len() == i,
            forall|j: int| 0 <= j < i ==> (#[trigger] out@[j])@ == v@[j]@,
    {
        out.push(v[i].clone());
    }
    assert(strings(out@) =~= strings(v@));
    out
}

/// Add the characters of `more` to the end of `t`.
pub fn append(t: &mut Vec<char>, more: &[char])
    ensures
        final(t)@ == old(t)@ + more@,
{
    let ghost before = t@;
    for i in 0..more.len()
        invariant
            t@ == before + more@.take(i as int),
    {
        t.push(more[i]);
    }
    assert(more@.take(more@.len() as int) =~= more@);
}

/// Add the text `more` to the end of `t`.
pub fn append_str(t: &mut Vec<char>, more: &str)
    ensures
        final(t)@ == old(t)@ + more@,
{
    let p = chars_of(more);
    append(t, &p);
}

/// `a` followed by the text `b`.
pub fn concat(a: &[char], b: &str) -> (r: Vec<char>)
    ensures
        r@ == a@ + b@,
{
    let mut out: Vec<char> = Vec::new();
    append(&mut out, a);
    append_str(&mut out, b);
    assert(out@ =~= a@ + b@);
    out
}

// --- comparing and searching -----------------------------------------------

/// `pat` stands in `s` at position `i`.
pub open spec fn occurs_at(s: Seq<char>, pat: Seq<char>, i: int) -> bool {
    0 <= i && i + pat.len() <= s.len() && s.subrange(i, i + pat.len()) == pat
}

/// `pat` stands somewhere in `s`.
pub open spec fn contains(s: Seq<char>, pat: Seq<char>) -> bool {
    exists|i: int| occurs_at(s, pat, i)
}

pub open spec fn starts_with(s: Seq<char>, pat: Seq<char>) -> bool {
    occurs_at(s, pat, 0)
}

pub open spec fn ends_with(s: Seq<char>, pat: Seq<char>) -> bool {
    occurs_at(s, pat, s.len() - pat.len())
}

/// Some marker of the list stands in `s`.
pub open spec fn has_marker(s: Seq<char>, markers: Seq<&str>) -> bool {
    exists|k: int| 0 <= k < markers.len() && contains(s, (#[trigger] markers[k])@)
}

/// `s` is one of the listed texts.
pub open spec fn is_listed(s: Seq<char>, list: Seq<&str>) -> bool {
    exists|k: int| 0 <= k < list.len() && s == (#[trigger] list[k])@
}

/// `s` begins with one of the listed texts.
pub open spec fn starts_with_any(s: Seq<char>, list: Seq<&str>) -> bool {
    exists|k: int| 0 <= k < list.len() && starts_with(s, (#[trigger] list[k])@)
}

/// `s` ends with one of the listed texts.
pub open spec fn ends_with_any(s: Seq<char>, list: Seq<&str>) -> bool {
    exists|k: int| 0 <= k < list.len() && ends_with(s, (#[trigger] list[k])@)
}

/// The first position at or after `from` where `pat` stands in `s`.
pub open spec fn find(s: Seq<char>, pat: Seq<char>, from: int) -> Option<int>
    decreases s.len() - from,
{
    if from < 0 || from + pat.len() > s.len() {
        None
    } else if occurs_at(s, pat, from) {
        Some(from)
    } else if from >= s.len() {
        None
    } else {
        find(s, pat, from + 1)
    }
}

/// The first position at or after `from` that holds a character of `set`, or the length of `s`.
pub open spec fn find_one_of(s: Seq<char>, set: Seq<char>, from: int) -> int
    decreases s.len() - from,
{
    if from < 0 || from >= s.len() {
        s.len() as int
    } else if set.contains(s[from]) {
        from
    } else {
        find_one_of(s, set, from + 1)
    }
}

/// The first position at or after `from` that holds `c`, or the length of `s`.
pub open spec fn find_char(s: Seq<char>, c: char, from: int) -> int
    decreases s.len() - from,
{
    if from < 0 || from >= s.len() {
        s.len() as int
    } else if s[from] == c {
        from
    } else {
        find_char(s, c, from + 1)
    }
}

/// The last position before `to` that holds `c`, or -1.
pub open spec fn rfind_char(s: Seq<char>, c: char, to: int) -> int
    decreases to,
{
    if to <= 0 || to > s.len() {
        -1
    } else if s[to - 1] == c {
        to - 1
    } else {
        rfind_char(s, c, to - 1)
    }
}

pub proof fn lemma_find(s: Seq<char>, pat: Seq<char>, from: int)
    requires
        0 <= from,
    ensures
        find(s, pat, from) matches Some(i) ==> from <= i && occurs_at(s, pat, i) && i + pat.len() <= s.len()
            && forall|j: int| from <= j < i ==> !occurs_at(s, pat, j),
        find(s, pat, from) is None ==> forall|j: int| from <= j ==> !occurs_at(s, pat, j),
    decreases s.len() - from,
{
    if from + pat.len() <= s.len() && !occurs_at(s, pat, from) && from < s.len() {
        lemma_find(s, pat, from + 1);
    }
}

pub proof fn lemma_find_one_of(s: Seq<char>, set: Seq<char>, from: int)
    requires
        0 <= from <= s.len(),
    ensures
        from <= find_one_of(s, set, from) <= s.len(),
        find_one_of(s, set, from) < s.len() ==> set.contains(s[find_one_of(s, set, from)]),
        forall|j: int| from <= j < find_one_of(s, set, from) ==> !set.contains(#[trigger] s[j]),
    decreases s.len() - from,
{
    if from < s.len() && !set.contains(s[from]) {
        lemma_find_one_of(s, set, from + 1);
    }
}

pub proof fn lemma_find_char(s: Seq<char>, c: char, from: int)
    requires
        0 <= from <= s.len(),
    ensures
        from <= find_char(s, c, from) <= s.len(),
        find_char(s, c, from) < s.len() ==> s[find_char(s, c, from)] == c,
        forall|j: int| from <= j < find_char(s, c, from) ==> #[trigger] s[j] != c,
    decreases s.len() - from,
{
    if from < s.len() && s[from] != c {
        lemma_find_char(s, c, from + 1);
    }
}

pub proof fn lemma_rfind_char(s: Seq<char>, c: char, to: int)
    requires
        0 <= to <= s.len(),
    ensures
        -1 <= rfind_char(s, c, to) < to || (to == 0 && rfind_char(s, c, to) == -1),
        rfind_char(s, c, to) >= 0 ==> s[rfind_char(s, c, to)] == c,
        forall|j: int| rfind_char(s, c, to) < j < to ==> #[trigger] s[j] != c,
    decreases to,
{
    if to > 0 && s[to - 1] != c {
        lemma_rfind_char(s, c, to - 1);
    }
}

/// The two texts are equal.
pub fn same(a: &[char], b: &[char]) -> (r: bool)
    ensures
        r == (a@ == b@),
{
    if a.len() != b.len() {
        return false;
    }
    for i in 0..a.len()
        invariant
            a@.len() == b@.len(),
            forall|j: int| 0 <= j < i ==> a@[j] == b@[j],
    {
        if a[i] != b[i] {
            return false;
        }
    }
    assert(a@ =~= b@);
    true
}

/// `a` holds the text `b`.
pub fn is_text(a: &[char], b: &str) -> (r: bool)
    ensures
        r == (a@ == b@),
{
    let p = chars_of(b);
    same(a, &p)
}

/// The two strings hold the same text.
pub fn same_str(a: &str, b: &str) -> (r: bool)
    ensures
        r == (a@ == b@),
{
    let p = chars_of(a);
    let q = chars_of(b);
    same(&p, &q)
}

pub fn occurs(t: &[char], pat: &[char], at: usize) -> (r: bool)
    ensures
        r == occurs_at(t@, pat@, at as int),
{
    let n: usize = t.len();
    if at > n || pat.len() > n - at {
        return false;
    }
    for k in 0..pat.len()
        invariant
            n == t@.len(),
            at + pat@.len() <= n,
            forall|j: int| 0 <= j < k ==> t@[at + j] == pat@[j],
    {
        if t[at + k] != pat[k] {
            assert(t@.subrange(at as int, at + pat@.len())[k as int] != pat@[k as int]);
            return false;
        }
    }
    assert(t@.subrange(at as int, at + pat@.len()) =~= pat@);
    true
}

pub fn find_in(t: &[char], pat: &[char], from: usize) -> (r: Option<usize>)
    ensures
        match r {
            Some(i) => find(t@, pat@, from as int) == Some(i as int),
            None => find(t@, pat@, from as int) is None,
        },
        r matches Some(i) ==> from <= i && i + pat@.len() <= t@.len(),
{
    let mut i: usize = from;
    while i < t.len() && pat.len() <= t.len() - i
        invariant
            from <= i,
            find(t@, pat@, from as int) == find(t@, pat@, i as int),
        decreases t.len() - i,
    {
        if occurs(t, pat, i) {
            return Some(i);
        }
        i = i + 1;
    }
    if i == t.len() && pat.len() == 0 {
        assert(t@.subrange(i as int, i as int) =~= pat@);
        return Some(i);
    }
    None
}

pub fn find_str(t: &[char], pat: &str, from: usize) -> (r: Option<usize>)
    ensures
        match r {
            Some(i) => find(t@, pat@, from as int) == Some(i as int),
            None => find(t@, pat@, from as int) is None,
        },
        r matches Some(i) ==> from <= i && i + pat@.len() <= t@.len(),
{
    let p = chars_of(pat);
    find_in(t, &p, from)
}

pub fn contains_in(t: &[char], pat: &[char]) -> (r: bool)
    ensures
        r == contains(t@, pat@),
{
    proof {
        lemma_find(t@, pat@, 0);
    }
    match find_in(t, pat, 0) {
        Some(i) => true,
        None => {
            assert forall|i: int| !occurs_at(t@, pat@, i) by {
                if i >= 0 {
                }
            }
            false
        },
    }
}

pub fn contains_str(t: &[char], pat: &str) -> (r: bool)
    ensures
        r == contains(t@, pat@),
{
    let p = chars_of(pat);
    contains_in(t, &p)
}

/// `c` stands in `t`.
pub fn contains_char(t: &[char], c: char) -> (r: bool)
    ensures
        r == t@.contains(c),
{
    for i in 0..t.len()
        invariant
            forall|j: int| 0 <= j < i ==> t@[j] != c,
    {
        if t[i] == c {
            return true;
        }
    }
    false
}

pub fn starts_with_str(t: &[char], pat: &str) -> (r: bool)
    ensures
        r == starts_with(t@, pat@),
{
    let p = chars_of(pat);
    occurs(t, &p, 0)
}

pub fn ends_with_str(t: &[char], pat: &str) -> (r: bool)
    ensures
        r == ends_with(t@, pat@),
{
    let p = chars_of(pat);
    if p.len() > t.len() {
        return false;
    }
    occurs(t, &p, t.len() - p.len())
}

pub fn has_marker_in(t: &[char], markers: &[&str]) -> (r: bool)
    ensures
        r == has_marker(t@, markers@),
{
    for k in 0..markers.len()
        invariant
            forall|j: int| 0 <= j < k ==> !contains(t@, (#[trigger] markers@[j])@),
    {
        if contains_str(t, markers[k]) {
            return true;
        }
    }
    false
}

pub fn is_listed_in(t: &[char], list: &[&str]) -> (r: bool)
    ensures
        r == is_listed(t@, list@),
{
    for k in 0..list.len()
        invariant
            forall|j: int| 0 <= j < k ==> t@ != (#[trigger] list@[j])@,
    {
        if is_text(t, list[k]) {
            return true;
        }
    }
    false
}

pub fn starts_with_any_of(t: &[char], list: &[&str]) -> (r: bool)
    ensures
        r == starts_with_any(t@, list@),
{
    for k in 0..list.len()
        invariant
            forall|j: int| 0 <= j < k ==> !starts_with(t@, (#[trigger] list@[j])@),
    {
        if starts_with_str(t, list[k]) {
            return true;
        }
    }
    false
}

pub fn ends_with_any_of(t: &[char], list: &[&str]) -> (r: bool)
    ensures
        r == ends_with_any(t@, list@),
{
    for k in 0..list.len()
        invariant
            forall|j: int| 0 <= j < k ==> !ends_with(t@, (#[trigger] list@[j])@),
    {
        if ends_with_str(t, list[k]) {
            return true;
        }
    }
    false
}

pub fn index_of_char(t: &[char], c: char, from: usize) -> (r: usize)
    requires
        from <= t@.len(),
    ensures
        r == find_char(t@, c, from as int),
        from <= r <= t@.len(),
        r < t@.len() ==> t@[r as int] == c,
{
    let mut i: usize = from;
    while i < t.len() && t[i] != c
        invariant
            from <= i <= t@.len(),
            find_char(t@, c, from as int) == find_char(t@, c, i as int),
        decreases t.len() - i,
    {
        i = i + 1;
    }
    i
}

pub fn index_of_any(t: &[char], set: &[char], from: usize) -> (r: usize)
    requires
        from <= t@.len(),
    ensures
        r == find_one_of(t@, set@, from as int),
        from <= r <= t@.len(),
{
    let mut i: usize = from;
    while i < t.len() && !contains_char(set, t[i])
        invariant
            from <= i <= t@.len(),
            find_one_of(t@, set@, from as int) == find_one_of(t@, set@, i as int),
        decreases t.len() - i,
    {
        i = i + 1;
    }
    i
}

/// The last position of `c` in `t`.
pub fn last_index_of_char(t: &[char], c: char) -> (r: Option<usize>)
    ensures
        match r {
            Some(i) => i == rfind_char(t@, c, t@.len() as int) && i < t@.len() && t@[i as int] == c,
            None => rfind_char(t@, c, t@.len() as int) == -1,
        },
{
    let mut i: usize = t.len();
    while i > 0
        invariant
            i <= t@.len(),
            rfind_char(t@, c, t@.len() as int) == rfind_char(t@, c, i as int),
        decreases i,
    {
        if t[i - 1] == c {
            return Some(i - 1);
        }
        i = i - 1;
    }
    None
}

// --- character classes -----------------------------------------------------

/// The characters with the Unicode property `White_Space`.
pub open spec fn is_space(c: char) -> bool {
    ||| '\u{9}' <= c <= '\u{d}'
    ||| c == ' '
    ||| c == '\u{85}'
    ||| c == '\u{a0}'
    ||| c == '\u{1680}'
    ||| '\u{2000}' <= c <= '\u{200a}'
    ||| c == '\u{2028}'
    ||| c == '\u{2029}'
    ||| c == '\u{202f}'
    ||| c == '\u{205f}'
    ||| c == '\u{3000}'
}

pub fn space(c: char) -> (r: bool)
    ensures
        r == is_space(c),
{
    ('\u{9}' <= c && c <= '\u{d}') || c == ' ' || c == '\u{85}' || c == '\u{a0}' || c == '\u{1680}' || (
    '\u{2000}' <= c && c <= '\u{200a}') || c == '\u{2028}' || c == '\u{2029}' || c == '\u{202f}' || c
        == '\u{205f}' || c == '\u{3000}'
}

pub open spec fn is_digit(c: char) -> bool {
    '0' <= c <= '9'
}

pub fn digit(c: char) -> (r: bool)
    ensures
        r == is_digit(c),
{
    '0' <= c && c <= '9'
}

/// ASCII letters and digits.
pub open spec fn is_alnum(c: char) -> bool {
    is_digit(c) || 'a' <= c <= 'z' || 'A' <= c <= 'Z'
}

pub fn alnum(c: char) -> (r: bool)
    ensures
        r == is_alnum(c),
{
    digit(c) || ('a' <= c && c <= 'z') || ('A' <= c && c <= 'Z')
}

/// A character of an identifier; JavaScript and TypeScript also allow `$`.
pub open spec fn is_ident_char(c: char, dollar: bool) -> bool {
    is_alnum(c) || c == '_' || (dollar && c == '$')
}

pub fn ident_char(c: char, dollar: bool) -> (r: bool)
    ensures
        r == is_ident_char(c, dollar),
{
    alnum(c) || c == '_' || (dollar && c == '$')
}

// --- trimming --------------------------------------------------------------

/// The first position at or after `i` that holds no white space, or the length of `s`.
pub open spec fn skip_space(s: Seq<char>, i: int) -> int
    decreases s.len() - i,
{
    if 0 <= i < s.len() && is_space(s[i]) {
        skip_space(s, i + 1)
    } else {
        i
    }
}

/// The position after the last character before `i` that is no white space, or 0.
pub open spec fn skip_space_back(s: Seq<char>, i: int) -> int
    decreases i,
{
    if 0 < i <= s.len() && is_space(s[i - 1]) {
        skip_space_back(s, i - 1)
    } else {
        i
    }
}

pub proof fn lemma_skip_space(s: Seq<char>, i: int)
    requires
        0 <= i <= s.len(),
    ensures
        i <= skip_space(s, i) <= s.len(),
        skip_space(s, i) < s.len() ==> !is_space(s[skip_space(s, i)]),
        forall|j: int| i <= j < skip_space(s, i) ==> is_space(#[trigger] s[j]),
    decreases s.len() - i,
{
    if i < s.len() && is_space(s[i]) {
        lemma_skip_space(s, i + 1);
    }
}

pub proof fn lemma_skip_space_back(s: Seq<char>, i: int)
    requires
        0 <= i <= s.len(),
    ensures
        0 <= skip_space_back(s, i) <= i,
        skip_space_back(s, i) > 0 ==> !is_space(s[skip_space_back(s, i) - 1]),
        forall|j: int| skip_space_back(s, i) <= j < i ==> is_space(#[trigger] s[j]),
    decreases i,
{
    if 0 < i && is_space(s[i - 1]) {
        lemma_skip_space_back(s, i - 1);
    }
}

/// `s` without its leading white space.
pub open spec fn trim_start(s: Seq<char>) -> Seq<char> {
    s.skip(skip_space(s, 0))
}

/// `s` without its trailing white space.
pub open spec fn trim_end(s: Seq<char>) -> Seq<char> {
    s.take(skip_space_back(s, s.len() as int))
}

/// `s` without the white space at both ends.
pub open spec fn trim(s: Seq<char>) -> Seq<char> {
    trim_end(trim_start(s))
}

/// `s` holds nothing but white space.
pub open spec fn is_blank(s: Seq<char>) -> bool {
    forall|i: int| 0 <= i < s.len() ==> is_space(#[trigger] s[i])
}

pub fn trimmed_start<'a>(t: &'a [char]) -> (r: &'a [char])
    ensures
        r@ == trim_start(t@),
{
    let n: usize = t.len();
    let mut i: usize = 0;
    while i < n && space(t[i])
        invariant
            n == t@.len(),
            i <= n,
            skip_space(t@, 0) == skip_space(t@, i as int),
        decreases n - i,
    {
        i = i + 1;
    }
    &t[i..n]
}

pub fn trimmed_end<'a>(t: &'a [char]) -> (r: &'a [char])
    ensures
        r@ == trim_end(t@),
{
    let mut i: usize = t.len();
    while i > 0 && space(t[i - 1])
        invariant
            i <= t@.len(),
            skip_space_back(t@, t@.len() as int) == skip_space_back(t@, i as int),
        decreases i,
    {
        i = i - 1;
    }
    &t[0..i]
}

pub fn trimmed<'a>(t: &'a [char]) -> (r: &'a [char])
    ensures
        r@ == trim(t@),
{
    trimmed_end(trimmed_start(t))
}

pub fn blank(t: &[char]) -> (r: bool)
    ensures
        r == is_blank(t@),
{
    for i in 0..t.len()
        invariant
            forall|j: int| 0 <= j < i ==> is_space(#[trigger] t@[j]),
    {
        if !space(t[i]) {
            return false;
        }
    }
    true
}

/// The rest of `s` after `pat` where `s` begins with it, and `s` where it does not.
pub open spec fn strip_prefix(s: Seq<char>, pat: Seq<char>) -> Seq<char> {
    if starts_with(s, pat) {
        s.skip(pat.len() as int)
    } else {
        s
    }
}

pub fn stripped_prefix<'a>(t: &'a [char], pat: &str) -> (r: &'a [char])
    ensures
        r@ == strip_prefix(t@, pat@),
{
    let p = chars_of(pat);
    let n: usize = t.len();
    if occurs(t, &p, 0) {
        &t[p.len()..n]
    } else {
        t
    }
}

// --- lines -----------------------------------------------------------------

/// The lines of `s` from position `from` on. A line ends at a line feed, which is not part of it,
/// nor is a carriage return right before it. Nothing stands after a final line feed.
pub open spec fn lines_from(s: Seq<char>, from: int) -> Seq<Seq<char>>
    decreases s.len() - from,
{
    if from < 0 || from >= s.len() {
        Seq::empty()
    } else {
        let end = find_char(s, '\n', from);
        proof {
            lemma_find_char(s, '\n', from);
        }
        if end >= s.len() {
            seq![s.skip(from)]
        } else if end > from && s[end - 1] == '\r' {
            seq![s.subrange(from, end - 1)] + lines_from(s, end + 1)
        } else {
            seq![s.subrange(from, end)] + lines_from(s, end + 1)
        }
    }
}

pub open spec fn lines(s: Seq<char>) -> Seq<Seq<char>> {
    lines_from(s, 0)
}

pub proof fn lemma_line_count(s: Seq<char>, from: int)
    ensures
        lines_from(s, from).len() <= (if from <= s.len() {
            s.len() - from
        } else {
            0
        }),
    decreases s.len() - from,
{
    if 0 <= from < s.len() {
        lemma_find_char(s, '\n', from);
        let end = find_char(s, '\n', from);
        if end < s.len() {
            lemma_line_count(s, end + 1);
        }
    }
}

pub fn lines_of<'a>(t: &'a [char]) -> (r: Vec<&'a [char]>)
    ensures
        views(r@) == lines(t@),
{
    let n: usize = t.len();
    let mut out: Vec<&'a [char]> = Vec::new();
    let mut from: usize = 0;
    while from < n
        invariant
            n == t@.len(),
            from <= n,
            views(out@) + lines_from(t@, from as int) == lines(t@),
        decreases n - from,
    {
        let ghost before = out@;
        let end: usize = index_of_char(t, '\n', from);
        if end >= n {
            out.push(&t[from..n]);
            assert(t@.subrange(from as int, n as int) =~= t@.skip(from as int));
            assert(views(out@) =~= views(before).push(t@.skip(from as int)));
            assert(views(out@) =~= lines(t@));
            return out;
        }
        let stop: usize = if end > from && t[end - 1] == '\r' {
            end - 1
        } else {
            end
        };
        out.push(&t[from..stop]);
        assert(views(out@) =~= views(before).push(t@.subrange(from as int, stop as int)));
        from = end + 1;
        assert(views(out@) + lines_from(t@, from as int) =~= lines(t@));
    }
    assert(views(out@) =~= lines(t@));
    out
}

/// The number that line index `i` is cited by: lines count from 1.
pub open spec fn line_number(i: int) -> u32 {
    ((i + 1) % 0x1_0000_0000) as u32
}

pub fn number_of_line(i: usize) -> (r: u32)
    ensures
        r == line_number(i as int),
{
    let wide: u128 = (i as u128 + 1) % 0x1_0000_0000;
    wide as u32
}

// --- identifiers -----------------------------------------------------------

/// The position after the identifier characters that stand at `i` and on.
pub open spec fn ident_end(s: Seq<char>, i: int, dollar: bool) -> int
    decreases s.len() - i,
{
    if 0 <= i < s.len() && is_ident_char(s[i], dollar) {
        ident_end(s, i + 1, dollar)
    } else {
        i
    }
}

/// The position of the first of the identifier characters that stand right before `i`.
pub open spec fn ident_start(s: Seq<char>, i: int, dollar: bool) -> int
    decreases i,
{
    if 0 < i <= s.len() && is_ident_char(s[i - 1], dollar) {
        ident_start(s, i - 1, dollar)
    } else {
        i
    }
}

pub proof fn lemma_ident_end(s: Seq<char>, i: int, dollar: bool)
    requires
        0 <= i <= s.len(),
    ensures
        i <= ident_end(s, i, dollar) <= s.len(),
        ident_end(s, i, dollar) < s.len() ==> !is_ident_char(s[ident_end(s, i, dollar)], dollar),
        forall|j: int| i <= j < ident_end(s, i, dollar) ==> is_ident_char(#[trigger] s[j], dollar),
    decreases s.len() - i,
{
    if i < s.len() && is_ident_char(s[i], dollar) {
        lemma_ident_end(s, i + 1, dollar);
    }
}

pub proof fn lemma_ident_start(s: Seq<char>, i: int, dollar: bool)
    requires
        0 <= i <= s.len(),
    ensures
        0 <= ident_start(s, i, dollar) <= i,
    decreases i,
{
    if 0 < i && is_ident_char(s[i - 1], dollar) {
        lemma_ident_start(s, i - 1, dollar);
    }
}

/// The identifier that `s` begins with; empty where it begins with none.
pub open spec fn ident_prefix(s: Seq<char>, dollar: bool) -> Seq<char> {
    s.take(ident_end(s, 0, dollar))
}

/// The identifier that `s` ends with; empty where it ends with none.
pub open spec fn ident_suffix(s: Seq<char>, dollar: bool) -> Seq<char> {
    s.skip(ident_start(s, s.len() as int, dollar))
}

pub fn leading_ident<'a>(t: &'a [char], dollar: bool) -> (r: &'a [char])
    ensures
        r@ == ident_prefix(t@, dollar),
{
    let n: usize = t.len();
    let mut i: usize = 0;
    while i < n && ident_char(t[i], dollar)
        invariant
            n == t@.len(),
            i <= n,
            ident_end(t@, 0, dollar) == ident_end(t@, i as int, dollar),
        decreases n - i,
    {
        i = i + 1;
    }
    &t[0..i]
}

pub fn trailing_ident<'a>(t: &'a [char], dollar: bool) -> (r: &'a [char])
    ensures
        r@ == ident_suffix(t@, dollar),
{
    let n: usize = t.len();
    let mut i: usize = n;
    while i > 0 && ident_char(t[i - 1], dollar)
        invariant
            n == t@.len(),
            i <= n,
            ident_start(t@, n as int, dollar) == ident_start(t@, i as int, dollar),
        decreases i,
    {
        i = i - 1;
    }
    &t[i..n]
}

/// `word` stands in `line` at `i`, with no identifier character right before or right after it.
pub open spec fn whole_word_at(line: Seq<char>, word: Seq<char>, i: int, dollar: bool) -> bool {
    &&& occurs_at(line, word, i)
    &&& i == 0 || !is_ident_char(line[i - 1], dollar)
    &&& i + word.len() == line.len() || !is_ident_char(line[i + word.len()], dollar)
}

/// `word` is not empty and stands in `line` as a whole word.
pub open spec fn has_word(line: Seq<char>, word: Seq<char>, dollar: bool) -> bool {
    word.len() > 0 && exists|i: int| whole_word_at(line, word, i, dollar)
}

/// Words are whole: a longer identifier does not hold the shorter one.
pub proof fn law_words_are_whole(line: Seq<char>, word: Seq<char>, dollar: bool)
    requires
        forall|i: int| 0 <= i < line.len() ==> is_ident_char(#[trigger] line[i], dollar),
        line != word,
    ensures
        !has_word(line, word, dollar),
{
    assert forall|i: int| !whole_word_at(line, word, i, dollar) by {
        if whole_word_at(line, word, i, dollar) {
            assert(i == 0 && word.len() == line.len());
            assert(line.subrange(0, line.len() as int) =~= line);
        }
    }
}

pub fn has_word_in(line: &[char], word: &[char], dollar: bool) -> (r: bool)
    ensures
        r == has_word(line@, word@, dollar),
{
    let n: usize = line.len();
    let w: usize = word.len();
    if w == 0 || w > n {
        return false;
    }
    let mut i: usize = 0;
    while i <= n - w
        invariant
            n == line@.len(),
            w == word@.len(),
            0 < w <= n,
            i <= n - w + 1,
            forall|j: int| 0 <= j < i ==> !whole_word_at(line@, word@, j, dollar),
        decreases n - i,
    {
        if occurs(line, word, i) && (i == 0 || !ident_char(line[i - 1], dollar)) && (i + w == n || !ident_char(
            line[i + w],
            dollar,
        )) {
            assert(whole_word_at(line@, word@, i as int, dollar));
            return true;
        }
        i = i + 1;
    }
    assert forall|j: int| !whole_word_at(line@, word@, j, dollar) by {}
    false
}

// --- splitting -------------------------------------------------------------

/// The parts of `s` from `from` on, cut at each character of `set`.
pub open spec fn split_from(s: Seq<char>, set: Seq<char>, from: int) -> Seq<Seq<char>>
    decreases s.len() - from,
{
    if from < 0 || from > s.len() {
        Seq::empty()
    } else {
        let end = find_one_of(s, set, from);
        proof {
            lemma_find_one_of(s, set, from);
        }
        if end >= s.len() {
            seq![s.skip(from)]
        } else {
            seq![s.subrange(from, end)] + split_from(s, set, end + 1)
        }
    }
}

/// The parts of `s`, cut at each character of `set`.
pub open spec fn split(s: Seq<char>, set: Seq<char>) -> Seq<Seq<char>> {
    split_from(s, set, 0)
}

pub fn split_at_any<'a>(t: &'a [char], set: &[char]) -> (r: Vec<&'a [char]>)
    ensures
        views(r@) == split(t@, set@),
{
    let n: usize = t.len();
    let mut out: Vec<&'a [char]> = Vec::new();
    let mut from: usize = 0;
    loop
        invariant
            n == t@.len(),
            from <= n,
            views(out@) + split_from(t@, set@, from as int) == split(t@, set@),
        decreases n - from,
    {
        let ghost before = out@;
        let end: usize = index_of_any(t, set, from);
        if end >= n {
            out.push(&t[from..n]);
            assert(t@.subrange(from as int, n as int) =~= t@.skip(from as int));
            assert(views(out@) =~= views(before).push(t@.skip(from as int)));
            assert(views(out@) =~= split(t@, set@));
            return out;
        }
        out.push(&t[from..end]);
        assert(views(out@) =~= views(before).push(t@.subrange(from as int, end as int)));
        from = end + 1;
        assert(views(out@) + split_from(t@, set@, from as int) =~= split(t@, set@));
    }
}

// --- ASCII case ------------------------------------------------------------

pub open spec fn upper_char(c: char) -> char {
    if 'a' <= c <= 'z' {
        (c as u32 - 32) as char
    } else {
        c
    }
}

pub open spec fn lower_char(c: char) -> char {
    if 'A' <= c <= 'Z' {
        (c as u32 + 32) as char
    } else {
        c
    }
}

/// `s` with its ASCII letters in upper case.
pub open spec fn upper(s: Seq<char>) -> Seq<char> {
    Seq::new(s.len(), |i: int| upper_char(s[i]))
}

/// `s` with its ASCII letters in lower case.
pub open spec fn lower(s: Seq<char>) -> Seq<char> {
    Seq::new(s.len(), |i: int| lower_char(s[i]))
}

pub fn to_upper(t: &[char]) -> (r: Vec<char>)
    ensures
        r@ == upper(t@),
{
    let mut out: Vec<char> = Vec::new();
    for i in 0..t.len()
        invariant
            out@.len() == i,
            forall|j: int| 0 <= j < i ==> out@[j] == upper_char(t@[j]),
    {
        let c: char = t[i];
        if 'a' <= c && c <= 'z' {
            out.push((c as u8 - 32) as char);
        } else {
            out.push(c);
        }
    }
    assert(out@ =~= upper(t@));
    out
}

pub fn to_lower(t: &[char]) -> (r: Vec<char>)
    ensures
        r@ == lower(t@),
{
    let mut out: Vec<char> = Vec::new();
    for i in 0..t.len()
        invariant
            out@.len() == i,
            forall|j: int| 0 <= j < i ==> out@[j] == lower_char(t@[j]),
    {
        let c: char = t[i];
        if 'A' <= c && c <= 'Z' {
            out.push((c as u8 + 32) as char);
        } else {
            out.push(c);
        }
    }
    assert(out@ =~= lower(t@));
    out
}

// --- lengths in bytes ------------------------------------------------------

/// The number of bytes that `c` takes in UTF-8.
pub open spec fn width(c: char) -> nat {
    if (c as u32) < 0x80 {
        1
    } else if (c as u32) < 0x800 {
        2
    } else if (c as u32) < 0x1_0000 {
        3
    } else {
        4
    }
}

pub fn width_of(c: char) -> (r: usize)
    ensures
        r == width(c),
        1 <= r <= 4,
{
    let v: u32 = c as u32;
    if v < 0x80 {
        1
    } else if v < 0x800 {
        2
    } else if v < 0x1_0000 {
        3
    } else {
        4
    }
}

/// The number of bytes that `s` takes in UTF-8.
pub open spec fn byte_len(s: Seq<char>) -> nat {
    encode_utf8(s).len()
}

pub proof fn lemma_byte_len_step(s: Seq<char>, i: int)
    requires
        0 <= i < s.len(),
    ensures
        byte_len(s.skip(i)) == width(s[i]) + byte_len(s.skip(i + 1)),
{
    assert(s.skip(i).drop_first() =~= s.skip(i + 1));
    assert(encode_scalar(s[i] as u32).len() == width(s[i])) by {
        vstd::utf8::char_is_scalar(s[i]);
    }
}

/// The UTF-8 form of `t` is at most `limit` bytes long.
pub fn fits_in_bytes(t: &[char], limit: usize) -> (r: bool)
    ensures
        r == (byte_len(t@) <= limit),
{
    let n: usize = t.len();
    let mut left: usize = limit;
    assert(t@.skip(0) =~= t@);
    for i in 0..n
        invariant
            n == t@.len(),
            byte_len(t@) - byte_len(t@.skip(i as int)) == limit - left,
            left <= limit,
    {
        proof {
            lemma_byte_len_step(t@, i as int);
        }
        let w: usize = width_of(t[i]);
        if w > left {
            return false;
        }
        left = left - w;
    }
    assert(t@.skip(n as int) =~= Seq::<char>::empty());
    true
}

/// The position that is reached from `i` by reading `bytes` bytes, or by reading up to the end of
/// `s` where fewer are left; none where that point lies inside a character.
pub open spec fn forward(s: Seq<char>, i: int, bytes: int) -> Option<int>
    decreases s.len() - i,
{
    if i < 0 || i >= s.len() || bytes <= 0 {
        Some(i)
    } else if width(s[i]) > bytes {
        None
    } else {
        forward(s, i + 1, bytes - width(s[i]))
    }
}

/// The position that is reached from `i` by reading `bytes` bytes backwards, or by reading to the
/// start of `s` where fewer stand there; none where that point lies inside a character.
pub open spec fn backward(s: Seq<char>, i: int, bytes: int) -> Option<int>
    decreases i,
{
    if i <= 0 || i > s.len() || bytes <= 0 {
        Some(i)
    } else if width(s[i - 1]) > bytes {
        None
    } else {
        backward(s, i - 1, bytes - width(s[i - 1]))
    }
}

pub fn step_forward(t: &[char], from: usize, bytes: usize) -> (r: Option<usize>)
    requires
        from <= t@.len(),
    ensures
        match r {
            Some(e) => forward(t@, from as int, bytes as int) == Some(e as int) && from <= e <= t@.len(),
            None => forward(t@, from as int, bytes as int) is None,
        },
{
    let n: usize = t.len();
    let mut i: usize = from;
    let mut left: usize = bytes;
    while i < n && left > 0
        invariant
            n == t@.len(),
            from <= i <= n,
            forward(t@, from as int, bytes as int) == forward(t@, i as int, left as int),
        decreases n - i,
    {
        let w: usize = width_of(t[i]);
        if w > left {
            return None;
        }
        left = left - w;
        i = i + 1;
    }
    Some(i)
}

pub fn step_backward(t: &[char], from: usize, bytes: usize) -> (r: Option<usize>)
    requires
        from <= t@.len(),
    ensures
        match r {
            Some(e) => backward(t@, from as int, bytes as int) == Some(e as int) && e <= from,
            None => backward(t@, from as int, bytes as int) is None,
        },
{
    let mut i: usize = from;
    let mut left: usize = bytes;
    while i > 0 && left > 0
        invariant
            i <= from <= t@.len(),
            backward(t@, from as int, bytes as int) == backward(t@, i as int, left as int),
        decreases i,
    {
        let w: usize = width_of(t[i - 1]);
        if w > left {
            return None;
        }
        left = left - w;
        i = i - 1;
    }
    Some(i)
}

} // verus!
