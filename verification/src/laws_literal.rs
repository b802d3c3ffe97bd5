//! What blanking literals and comments is for, and what the windows of a text hold, stated over the
//! characters of the text.
use crate::literal;
use crate::literal::{Language, REGEX_OPENERS, REGEX_WORDS};
use crate::text;
use vstd::prelude::*;

verus! {

/// A character opens a literal of the language.
pub open spec fn opens_literal(lang: Language, c: char) -> bool {
    match lang {
        Language::Go => c == '"' || c == '`' || c == '\'',
        Language::Python => c == '"' || c == '\'',
        Language::Script => c == '"' || c == '`' || c == '\'',
    }
}

proof fn lemma_quotes(lang: Language, c: char)
    ensures
        literal::quotes(lang).contains(c) == opens_literal(lang, c),
{
    reveal_strlit("\"`'");
    reveal_strlit("\"'");
    reveal_strlit("\"'`");
    assert("\"`'"@ =~= seq!['"', '`', '\'']);
    assert("\"'"@ =~= seq!['"', '\'']);
    assert("\"'`"@ =~= seq!['"', '\'', '`']);
    let q = literal::quotes(lang);
    match lang {
        Language::Go => {
            assert(q[0] == '"' && q[1] == '`' && q[2] == '\'');
        },
        Language::Python => {
            assert(q[0] == '"' && q[1] == '\'');
        },
        Language::Script => {
            assert(q[0] == '"' && q[1] == '\'' && q[2] == '`');
        },
    }
}

proof fn lemma_no_comment(s: Seq<char>, lang: Language, i: int)
    requires
        0 <= i < s.len(),
        lang is Python ==> s[i] != '#',
        !(lang is Python) ==> s[i] != '/',
    ensures
        literal::comment_end(s, lang, i) is None,
{
    reveal_strlit("//");
    reveal_strlit("#");
    reveal_strlit("/*");
    if text::occurs_at(s, literal::comment_sign(lang), i) {
        assert(s.subrange(i, i + literal::comment_sign(lang).len())[0] == s[i]);
    }
    if text::occurs_at(s, "/*"@, i) {
        assert(s.subrange(i, i + 2)[0] == s[i]);
    }
}

/// What stands between the quotes of a literal is blanked, and the quotes stay.
pub proof fn law_literals_are_blanked(s: Seq<char>, lang: Language, i: int, e: int)
    requires
        0 <= i < e < s.len(),
        opens_literal(lang, s[i]),
        s[e] == s[i],
        forall|k: int| i < k < e ==> (#[trigger] s[k]) != s[i] && s[k] != '\\' && s[k] != '\n',
    ensures
        literal::masked_from(s, lang, i) == seq![s[i]] + Seq::new((e - i - 1) as nat, |k: int| ' ') + seq![s[i]] + literal::masked_from(
            s,
            lang,
            e + 1,
        ),
{
    lemma_quotes(lang, s[i]);
    lemma_no_comment(s, lang, i);
    lemma_closes(s, s[i], literal::is_raw(lang, s[i]), i + 1, e);
    assert(literal::blanks(e - i - 1) =~= Seq::new((e - i - 1) as nat, |k: int| ' '));
}

proof fn lemma_closes(s: Seq<char>, q: char, raw: bool, i: int, e: int)
    requires
        0 <= i <= e < s.len(),
        s[e] == q,
        forall|k: int| i <= k < e ==> (#[trigger] s[k]) != q && s[k] != '\\' && s[k] != '\n',
    ensures
        literal::closing_quote(s, q, raw, i) == Some(e),
    decreases e - i,
{
    if i < e {
        lemma_closes(s, q, raw, i + 1, e);
    }
}

/// A quote after a backslash closes no literal, but for the raw ones of Go in backquotes. A literal that
/// is not in backquotes ends with its line.
pub proof fn law_escaped_quotes_close_nothing(s: Seq<char>, q: char, i: int)
    requires
        0 <= i < s.len(),
        q == '"' || q == '\'' || q == '`',
    ensures
        s[i] == '\\' ==> literal::closing_quote(s, q, false, i) == literal::closing_quote(s, q, false, i + 2),
        s[i] == '\\' ==> literal::closing_quote(s, q, true, i) == literal::closing_quote(s, q, true, i + 1),
        s[i] == '\n' && q != '`' ==> literal::closing_quote(s, q, false, i) is None,
        s[i] == '\n' && q == '`' ==> literal::closing_quote(s, q, false, i) == literal::closing_quote(s, q, false, i + 1),
        s[i] == q ==> literal::closing_quote(s, q, false, i) == Some(i),
{
}

/// A comment is blanked to the end of its line, and the line feed stays.
pub proof fn law_comments_are_blanked(s: Seq<char>, lang: Language, i: int, e: int)
    requires
        0 <= i < e <= s.len(),
        lang is Python ==> s[i] == '#',
        !(lang is Python) ==> i + 1 < s.len() && s[i] == '/' && s[i + 1] == '/',
        e == s.len() || s[e] == '\n',
        forall|k: int| i < k < e ==> #[trigger] s[k] != '\n',
    ensures
        literal::masked_from(s, lang, i) == Seq::new((e - i) as nat, |k: int| ' ') + literal::masked_from(s, lang, e),
{
    reveal_strlit("//");
    reveal_strlit("#");
    if lang is Python {
        assert(s.subrange(i, i + 1) =~= "#"@);
    } else {
        assert(s.subrange(i, i + 2) =~= "//"@);
    }
    assert(text::occurs_at(s, literal::comment_sign(lang), i));
    text::lemma_find_char(s, '\n', i + 1);
    let f = text::find_char(s, '\n', i + 1);
    assert(f == e);
    assert(literal::blanks(e - i) =~= Seq::new((e - i) as nat, |k: int| ' '));
}

/// A block comment is blanked up to and with the sign that closes it.
pub proof fn law_block_comments_are_blanked(s: Seq<char>, lang: Language, i: int, e: int)
    requires
        !(lang is Python),
        0 <= i,
        i + 4 <= e <= s.len(),
        s[i] == '/' && s[i + 1] == '*',
        s[e - 2] == '*' && s[e - 1] == '/',
        forall|k: int| i + 2 <= k < e - 2 ==> (#[trigger] s[k]) != '*',
    ensures
        literal::masked_from(s, lang, i) == Seq::new((e - i) as nat, |k: int| ' ') + literal::masked_from(s, lang, e),
{
    reveal_strlit("//");
    reveal_strlit("/*");
    reveal_strlit("*/");
    assert(s.subrange(i, i + 2) =~= "/*"@);
    assert(text::occurs_at(s, "/*"@, i));
    assert(!text::occurs_at(s, "//"@, i)) by {
        if text::occurs_at(s, "//"@, i) {
            assert(s.subrange(i, i + 2)[1] == s[i + 1]);
        }
    }
    assert(s.subrange(e - 2, e) =~= "*/"@);
    assert(text::occurs_at(s, "*/"@, e - 2));
    text::lemma_find(s, "*/"@, i + 2);
    let f = text::find(s, "*/"@, i + 2)->0;
    if f < e - 2 {
        assert(s.subrange(f, f + 2)[0] == s[f]);
    }
    assert(f == e - 2);
    assert(literal::blanks(e - i) =~= Seq::new((e - i) as nat, |k: int| ' '));
}

/// Every other character stays.
pub proof fn law_other_characters_stay(s: Seq<char>, lang: Language, i: int)
    requires
        0 <= i < s.len(),
        !opens_literal(lang, s[i]),
        lang is Python ==> s[i] != '#',
        !(lang is Python) ==> s[i] != '/',
    ensures
        literal::masked_from(s, lang, i) == seq![s[i]] + literal::masked_from(s, lang, i + 1),
{
    lemma_quotes(lang, s[i]);
    lemma_no_comment(s, lang, i);
}

/// A window reaches over as many bytes as it is wide, or to the end of the text, or to its start.
pub proof fn law_windows_are_measured_in_bytes(s: Seq<char>, i: int, bytes: int)
    requires
        0 <= i <= s.len(),
        0 <= bytes,
    ensures
        text::forward(s, i, bytes) matches Some(e) ==> i <= e <= s.len() && (width_between(s, i, e) == bytes || (e == s.len()
            && width_between(s, i, e) <= bytes)),
        text::backward(s, i, bytes) matches Some(a) ==> 0 <= a <= i && (width_between(s, a, i) == bytes || (a == 0 && width_between(
            s,
            a,
            i,
        ) <= bytes)),
{
    lemma_forward(s, i, bytes);
    lemma_backward(s, i, bytes);
}

/// How many bytes the characters from `a` to before `b` take in UTF-8.
pub open spec fn width_between(s: Seq<char>, a: int, b: int) -> int
    decreases b - a,
{
    if a >= b {
        0
    } else {
        let c = s[b - 1] as u32;
        width_between(s, a, b - 1) + (if c < 0x80 {
            1int
        } else if c < 0x800 {
            2
        } else if c < 0x10000 {
            3
        } else {
            4
        })
    }
}

proof fn lemma_width(c: char)
    ensures
        text::width(c) == (if (c as u32) < 0x80 {
            1int
        } else if (c as u32) < 0x800 {
            2
        } else if (c as u32) < 0x10000 {
            3
        } else {
            4
        }),
{
}

proof fn lemma_width_front(s: Seq<char>, a: int, b: int)
    requires
        0 <= a < b <= s.len(),
    ensures
        width_between(s, a, b) == text::width(s[a]) + width_between(s, a + 1, b),
    decreases b - a,
{
    lemma_width(s[b - 1]);
    if a + 1 < b {
        lemma_width_front(s, a, b - 1);
    } else {
        assert(width_between(s, a, a) == 0);
    }
}

proof fn lemma_forward(s: Seq<char>, i: int, bytes: int)
    requires
        0 <= i <= s.len(),
        0 <= bytes,
    ensures
        text::forward(s, i, bytes) matches Some(e) ==> i <= e <= s.len() && (width_between(s, i, e) == bytes || (e == s.len()
            && width_between(s, i, e) <= bytes)),
    decreases s.len() - i,
{
    if i < s.len() && bytes > 0 && text::width(s[i]) <= bytes {
        lemma_width(s[i]);
        lemma_forward(s, i + 1, bytes - text::width(s[i]));
        if text::forward(s, i, bytes) is Some {
            lemma_width_front(s, i, text::forward(s, i, bytes)->0);
        }
    }
}

proof fn lemma_backward(s: Seq<char>, i: int, bytes: int)
    requires
        0 <= i <= s.len(),
        0 <= bytes,
    ensures
        text::backward(s, i, bytes) matches Some(a) ==> 0 <= a <= i && (width_between(s, a, i) == bytes || (a == 0 && width_between(
            s,
            a,
            i,
        ) <= bytes)),
    decreases i,
{
    if i > 0 && bytes > 0 && text::width(s[i - 1]) <= bytes {
        lemma_width(s[i - 1]);
        lemma_backward(s, i - 1, bytes - text::width(s[i - 1]));
    }
}

/// Only a literal of Go in backquotes is raw: there a backslash hides nothing, and elsewhere it hides the
/// character after it.
pub proof fn law_backslashes_hide_in_literals(s: Seq<char>, lang: Language, i: int)
    requires
        0 <= i,
        i + 2 < s.len(),
        opens_literal(lang, s[i]),
        s[i + 1] == '\\',
        s[i + 2] == s[i],
    ensures
        lang is Go && s[i] == '`' ==> literal::literal_end(s, lang, i) == Some(i + 2),
        !(lang is Go && s[i] == '`') ==> literal::literal_end(s, lang, i) == literal::closing_quote(s, s[i], false, i + 3),
{
    lemma_quotes(lang, s[i]);
    reveal_with_fuel(literal::closing_quote, 3);
}

/// A slash of a script begins a regular expression at the start of the text, after an operator or an
/// opening bracket, after an arrow, and after a word such as `return`. What it holds is blanked.
pub proof fn law_regular_expressions_are_blanked(s: Seq<char>, i: int, e: int, head: Seq<char>, gap: Seq<char>)
    requires
        0 <= i,
        i + 1 < e < s.len(),
        s[i] == '/',
        s[e] == '/',
        s[i + 1] != '/' && s[i + 1] != '*',
        forall|k: int| i < k < e ==> (#[trigger] s[k]) != '/' && s[k] != '\\' && s[k] != '\n' && s[k] != '[',
        s.take(i) == head + gap,
        text::is_blank(gap),
        head.len() > 0 ==> !text::is_space(head.last()),
        head.len() == 0 || head.last() == '(' || head.last() == ',' || head.last() == '=' || head.last() == ':' || head.last()
            == '[' || head.last() == '!' || head.last() == '&' || head.last() == '|' || head.last() == '?' || head.last() == '{'
            || head.last() == ';' || text::ends_with(head, "=>"@) || (text::ident_suffix(head, true) == "return"@ || text::ident_suffix(
            head,
            true,
        ) == "typeof"@ || text::ident_suffix(head, true) == "case"@ || text::ident_suffix(head, true) == "in"@ || text::ident_suffix(head, true)
            == "of"@ || text::ident_suffix(head, true) == "await"@),
    ensures
        literal::masked_from(s, Language::Script, i) == seq!['/'] + Seq::new((e - i - 1) as nat, |k: int| ' ') + seq!['/']
            + literal::masked_from(s, Language::Script, e + 1),
{
    reveal_strlit("//");
    reveal_strlit("/*");
    reveal_strlit("(,=:[!&|?{;");
    assert(literal::comment_end(s, Language::Script, i) is None) by {
        if text::occurs_at(s, "//"@, i) {
            assert(s.subrange(i, i + 2)[1] == s[i + 1]);
        }
        if text::occurs_at(s, "/*"@, i) {
            assert(s.subrange(i, i + 2)[1] == s[i + 1]);
        }
    }
    lemma_quotes(Language::Script, '/');
    lemma_head(head, gap);
    let o = REGEX_OPENERS@;
    assert(o =~= seq!['(', ',', '=', ':', '[', '!', '&', '|', '?', '{', ';']);
    assert(o[0] == '(' && o[1] == ',' && o[2] == '=' && o[3] == ':' && o[4] == '[' && o[5] == '!' && o[6] == '&' && o[7]
        == '|' && o[8] == '?' && o[9] == '{' && o[10] == ';');
    let w = text::ident_suffix(head, true);
    assert(REGEX_WORDS@[0]@ == "return"@ && REGEX_WORDS@[1]@ == "typeof"@ && REGEX_WORDS@[2]@ == "case"@ && REGEX_WORDS@[3]@
        == "in"@ && REGEX_WORDS@[4]@ == "of"@ && REGEX_WORDS@[5]@ == "await"@);
    assert(literal::opens_regex(s, i));
    lemma_slash_closes(s, i + 1, e);
    assert(literal::blanks(e - i - 1) =~= Seq::new((e - i - 1) as nat, |k: int| ' '));
}

/// A slash after a value is a division: after a name, a number or a closing bracket.
pub proof fn law_divisions_stay(s: Seq<char>, i: int, head: Seq<char>, gap: Seq<char>)
    requires
        0 <= i,
        i + 1 < s.len(),
        s[i] == '/',
        s[i + 1] != '/' && s[i + 1] != '*',
        s.take(i) == head + gap,
        text::is_blank(gap),
        head.len() > 0,
        head.last() == ')' || head.last() == ']',
    ensures
        literal::masked_from(s, Language::Script, i) == seq!['/'] + literal::masked_from(s, Language::Script, i + 1),
{
    reveal_strlit("//");
    reveal_strlit("/*");
    reveal_strlit("(,=:[!&|?{;");
    reveal_strlit("=>");
    assert(literal::comment_end(s, Language::Script, i) is None) by {
        if text::occurs_at(s, "//"@, i) {
            assert(s.subrange(i, i + 2)[1] == s[i + 1]);
        }
        if text::occurs_at(s, "/*"@, i) {
            assert(s.subrange(i, i + 2)[1] == s[i + 1]);
        }
    }
    lemma_quotes(Language::Script, '/');
    lemma_head(head, gap);
    assert(REGEX_OPENERS@ =~= seq!['(', ',', '=', ':', '[', '!', '&', '|', '?', '{', ';']);
    assert(!text::ends_with(head, "=>"@)) by {
        if text::ends_with(head, "=>"@) {
            assert(head.subrange(head.len() - 2, head.len() as int)[1] == head.last());
        }
    }
    assert(text::ident_start(head, head.len() as int, true) == head.len());
    let w = text::ident_suffix(head, true);
    assert(w.len() == 0);
    reveal_strlit("return");
    reveal_strlit("typeof");
    reveal_strlit("case");
    reveal_strlit("in");
    reveal_strlit("of");
    reveal_strlit("await");
    assert(REGEX_WORDS@[0]@ == "return"@ && REGEX_WORDS@[1]@ == "typeof"@ && REGEX_WORDS@[2]@ == "case"@ && REGEX_WORDS@[3]@
        == "in"@ && REGEX_WORDS@[4]@ == "of"@ && REGEX_WORDS@[5]@ == "await"@);
    assert(!text::is_listed(w, REGEX_WORDS@)) by {
        if text::is_listed(w, REGEX_WORDS@) {
            let k = choose|k: int| 0 <= k < REGEX_WORDS@.len() && w == (#[trigger] REGEX_WORDS@[k])@;
            assert(k == 0 || k == 1 || k == 2 || k == 3 || k == 4 || k == 5);
        }
    }
    assert(!literal::opens_regex(s, i));
}

proof fn lemma_head(head: Seq<char>, gap: Seq<char>)
    requires
        text::is_blank(gap),
        head.len() > 0 ==> !text::is_space(head.last()),
    ensures
        text::trim_end(head + gap) == head,
{
    let t = head + gap;
    text::lemma_skip_space_back(t, t.len() as int);
    let e = text::skip_space_back(t, t.len() as int);
    if head.len() > 0 {
        assert(t[head.len() - 1] == head.last());
    }
    if e > head.len() {
        assert(t[e - 1] == gap[e - 1 - head.len()]);
    }
    assert(t.take(head.len() as int) =~= head);
}

proof fn lemma_slash_closes(s: Seq<char>, i: int, e: int)
    requires
        0 <= i <= e < s.len(),
        s[e] == '/',
        forall|k: int| i <= k < e ==> (#[trigger] s[k]) != '/' && s[k] != '\\' && s[k] != '\n' && s[k] != '[',
    ensures
        literal::closing_slash(s, false, i) == Some(e),
    decreases e - i,
{
    if i < e {
        lemma_slash_closes(s, i + 1, e);
    }
}

} // verus!
