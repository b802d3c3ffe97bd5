//! String literals, regular expressions and comments in source text, and text with their contents
//! blanked.
//!
//! Brackets and commas inside a literal or a comment mean nothing to the code around it. What looks
//! for them reads the blanked text, which has the same length.
use crate::text;
use crate::text::{
    chars_of, contains_char, ends_with_str, find_str, index_of_char, is_listed_in, trailing_ident,
    trimmed_end,
};
use vstd::prelude::*;

verus! {

/// How a source writes its literals and comments.
#[derive(Clone, Copy, Debug, PartialEq, Eq)]
pub enum Language {
    Go,
    Python,
    /// JavaScript and TypeScript.
    Script,
}

/// After one of these characters a slash of a script begins a regular expression.
pub const REGEX_OPENERS: &'static str = "(,=:[!&|?{;";

/// After one of these words a slash of a script begins a regular expression.
pub const REGEX_WORDS: [&'static str; 6] = ["return", "typeof", "case", "in", "of", "await"];

/// The quotes of string, rune and template literals.
pub open spec fn quotes(lang: Language) -> Seq<char> {
    match lang {
        Language::Go => "\"`'"@,
        Language::Python => "\"'"@,
        Language::Script => "\"'`"@,
    }
}

/// A literal in these quotes has no escapes.
pub open spec fn is_raw(lang: Language, q: char) -> bool {
    lang is Go && q == '`'
}

/// What begins a comment that runs to the end of its line.
pub open spec fn comment_sign(lang: Language) -> Seq<char> {
    match lang {
        Language::Go => "//"@,
        Language::Python => "#"@,
        Language::Script => "//"@,
    }
}

/// The quote `q` at `i` or later that closes a literal. In one that is not raw, a backslash hides
/// the character after it. Only a backquoted literal spans lines.
pub open spec fn closing_quote(s: Seq<char>, q: char, raw: bool, i: int) -> Option<int>
    decreases s.len() + 2 - i,
{
    if i < 0 || i >= s.len() {
        None
    } else if s[i] == q {
        Some(i)
    } else if !raw && s[i] == '\\' {
        closing_quote(s, q, raw, i + 2)
    } else if s[i] == '\n' && q != '`' {
        None
    } else {
        closing_quote(s, q, raw, i + 1)
    }
}

/// The slash at `i` or later that closes a regular expression. One inside a class in square brackets
/// does not, nor one after a backslash; a regular expression stands on one line.
pub open spec fn closing_slash(s: Seq<char>, class: bool, i: int) -> Option<int>
    decreases s.len() + 2 - i,
{
    if i < 0 || i >= s.len() || s[i] == '\n' {
        None
    } else if s[i] == '\\' {
        closing_slash(s, class, i + 2)
    } else if s[i] == '/' && !class {
        Some(i)
    } else {
        closing_slash(s, s[i] == '[' || (class && s[i] != ']'), i + 1)
    }
}

/// A slash at `i` begins a regular expression, not a division: a value is due there.
pub open spec fn opens_regex(s: Seq<char>, i: int) -> bool {
    let h = text::trim_end(s.take(i));
    ||| h.len() == 0
    ||| REGEX_OPENERS@.contains(h.last())
    ||| text::ends_with(h, "=>"@)
    ||| text::is_listed(text::ident_suffix(h, true), REGEX_WORDS@)
}

/// Where the literal that is opened at `i` is closed; none where no literal is opened there, or
/// none is closed.
pub open spec fn literal_end(s: Seq<char>, lang: Language, i: int) -> Option<int> {
    if quotes(lang).contains(s[i]) {
        closing_quote(s, s[i], is_raw(lang, s[i]), i + 1)
    } else if lang is Script && s[i] == '/' && opens_regex(s, i) {
        closing_slash(s, false, i + 1)
    } else {
        None
    }
}

/// Where the comment that is opened at `i` has ended: before the end of its line, or after the sign
/// that closes a block; none where no comment is opened there, or a block is not closed.
pub open spec fn comment_end(s: Seq<char>, lang: Language, i: int) -> Option<int> {
    if text::occurs_at(s, comment_sign(lang), i) {
        Some(text::find_char(s, '\n', i + 1))
    } else if !(lang is Python) && text::occurs_at(s, "/*"@, i) {
        match text::find(s, "*/"@, i + 2) {
            Some(e) => Some(e + 2),
            None => None,
        }
    } else {
        None
    }
}

pub proof fn lemma_closing_quote(s: Seq<char>, q: char, raw: bool, i: int)
    ensures
        closing_quote(s, q, raw, i) matches Some(e) ==> i <= e < s.len() && s[e] == q,
    decreases s.len() + 2 - i,
{
    if 0 <= i < s.len() && s[i] != q {
        if !raw && s[i] == '\\' {
            lemma_closing_quote(s, q, raw, i + 2);
        } else if !(s[i] == '\n' && q != '`') {
            lemma_closing_quote(s, q, raw, i + 1);
        }
    }
}

pub proof fn lemma_closing_slash(s: Seq<char>, class: bool, i: int)
    ensures
        closing_slash(s, class, i) matches Some(e) ==> i <= e < s.len(),
    decreases s.len() + 2 - i,
{
    if 0 <= i < s.len() && s[i] != '\n' {
        if s[i] == '\\' {
            lemma_closing_slash(s, class, i + 2);
        } else if !(s[i] == '/' && !class) {
            lemma_closing_slash(s, s[i] == '[' || (class && s[i] != ']'), i + 1);
        }
    }
}

pub proof fn lemma_ends(s: Seq<char>, lang: Language, i: int)
    requires
        0 <= i < s.len(),
    ensures
        literal_end(s, lang, i) matches Some(e) ==> i < e < s.len(),
        comment_end(s, lang, i) matches Some(e) ==> i < e <= s.len(),
{
    lemma_closing_quote(s, s[i], is_raw(lang, s[i]), i + 1);
    lemma_closing_slash(s, false, i + 1);
    text::lemma_find_char(s, '\n', i + 1);
    reveal_strlit("/*");
    reveal_strlit("*/");
    if i + 2 <= s.len() {
        text::lemma_find(s, "*/"@, i + 2);
    }
}

/// `n` blanks.
pub open spec fn blanks(n: int) -> Seq<char> {
    Seq::new(n as nat, |i: int| ' ')
}

/// The text from `i` on, with a blank for each character inside a literal or a comment.
pub open spec fn masked_from(s: Seq<char>, lang: Language, i: int) -> Seq<char>
    decreases s.len() - i,
{
    if i < 0 || i >= s.len() {
        Seq::empty()
    } else {
        proof {
            lemma_ends(s, lang, i);
        }
        match comment_end(s, lang, i) {
            Some(e) => blanks(e - i) + masked_from(s, lang, e),
            None => match literal_end(s, lang, i) {
                Some(e) => seq![s[i]] + blanks(e - i - 1) + seq![s[e]] + masked_from(s, lang, e + 1),
                None => seq![s[i]] + masked_from(s, lang, i + 1),
            },
        }
    }
}

/// A text with a blank for each character inside a literal or a comment.
pub open spec fn masked(s: Seq<char>, lang: Language) -> Seq<char> {
    masked_from(s, lang, 0)
}

pub proof fn lemma_masked_len(s: Seq<char>, lang: Language, i: int)
    requires
        0 <= i <= s.len(),
    ensures
        masked_from(s, lang, i).len() == s.len() - i,
    decreases s.len() - i,
{
    if i < s.len() {
        lemma_ends(s, lang, i);
        match comment_end(s, lang, i) {
            Some(e) => {
                lemma_masked_len(s, lang, e);
            },
            None => match literal_end(s, lang, i) {
                Some(e) => {
                    lemma_masked_len(s, lang, e + 1);
                },
                None => {
                    lemma_masked_len(s, lang, i + 1);
                },
            },
        }
    }
}

/// Blanking changes no length: positions in the blanked text are positions in the text.
pub proof fn law_masking_keeps_positions(s: Seq<char>, lang: Language)
    ensures
        masked(s, lang).len() == s.len(),
{
    lemma_masked_len(s, lang, 0);
}

proof fn lemma_masked_plain(s: Seq<char>, lang: Language, i: int)
    requires
        0 <= i <= s.len(),
        forall|k: int|
            0 <= k < s.len() ==> (#[trigger] literal_end(s, lang, k)) is None && comment_end(s, lang, k) is None,
    ensures
        masked_from(s, lang, i) == s.skip(i),
    decreases s.len() - i,
{
    if i < s.len() {
        lemma_masked_plain(s, lang, i + 1);
        assert(literal_end(s, lang, i) is None);
        assert(seq![s[i]] + s.skip(i + 1) =~= s.skip(i));
    } else {
        assert(masked_from(s, lang, i) =~= s.skip(i));
    }
}

/// A text without literals and comments stays as it is.
pub proof fn law_masking_leaves_plain_text(s: Seq<char>, lang: Language)
    requires
        forall|k: int|
            0 <= k < s.len() ==> (#[trigger] literal_end(s, lang, k)) is None && comment_end(s, lang, k) is None,
    ensures
        masked(s, lang) == s,
{
    lemma_masked_plain(s, lang, 0);
    assert(s.skip(0) =~= s);
}

fn find_closing(t: &[char], q: char, raw: bool, from: usize) -> (r: Option<usize>)
    requires
        from <= t@.len(),
    ensures
        match r {
            Some(e) => closing_quote(t@, q, raw, from as int) == Some(e as int) && from <= e < t@.len(),
            None => closing_quote(t@, q, raw, from as int) is None,
        },
{
    let n: usize = t.len();
    let mut i: usize = from;
    while i < n
        invariant
            n == t@.len(),
            from <= i <= n,
            closing_quote(t@, q, raw, from as int) == closing_quote(t@, q, raw, i as int),
        decreases n - i,
    {
        if t[i] == q {
            return Some(i);
        }
        if !raw && t[i] == '\\' {
            if n - i < 2 {
                assert(closing_quote(t@, q, raw, i + 2) is None);
                return None;
            }
            i = i + 2;
        } else if t[i] == '\n' && q != '`' {
            return None;
        } else {
            i = i + 1;
        }
    }
    None
}

fn add_blanks(out: &mut Vec<char>, n: usize)
    ensures
        final(out)@ == old(out)@ + blanks(n as int),
{
    let ghost before = out@;
    assert(before + blanks(0) =~= before);
    for k in 0..n
        invariant
            out@ == before + blanks(k as int),
    {
        out.push(' ');
        assert(out@ =~= before + blanks(k + 1));
    }
}

fn find_slash(t: &[char], from: usize) -> (r: Option<usize>)
    requires
        from <= t@.len(),
    ensures
        match r {
            Some(e) => closing_slash(t@, false, from as int) == Some(e as int),
            None => closing_slash(t@, false, from as int) is None,
        },
{
    let n: usize = t.len();
    let mut class: bool = false;
    let mut i: usize = from;
    while i < n
        invariant
            n == t@.len(),
            from <= i <= n,
            closing_slash(t@, false, from as int) == closing_slash(t@, class, i as int),
        decreases n - i,
    {
        let c: char = t[i];
        if c == '\n' {
            return None;
        }
        if c == '\\' {
            if n - i < 2 {
                assert(closing_slash(t@, class, i + 2) is None);
                return None;
            }
            i = i + 2;
        } else if c == '/' && !class {
            return Some(i);
        } else {
            class = c == '[' || (class && c != ']');
            i = i + 1;
        }
    }
    None
}

fn starts_regex(t: &[char], i: usize) -> (r: bool)
    requires
        i <= t@.len(),
    ensures
        r == opens_regex(t@, i as int),
{
    let left = &t[0..i];
    assert(left@ =~= t@.take(i as int));
    let h = trimmed_end(left);
    let n: usize = h.len();
    if n == 0 {
        return true;
    }
    let openers = chars_of(REGEX_OPENERS);
    contains_char(&openers, h[n - 1]) || ends_with_str(h, "=>") || is_listed_in(trailing_ident(h, true), &REGEX_WORDS)
}

fn is_quote(lang: Language, c: char) -> (r: bool)
    ensures
        r == quotes(lang).contains(c),
{
    proof {
        reveal_strlit("\"`'");
        reveal_strlit("\"'");
        reveal_strlit("\"'`");
    }
    let ghost q = quotes(lang);
    let r: bool = c == '"' || c == '\'' || (c == '`' && match lang {
        Language::Python => false,
        _ => true,
    });
    assert(q[0] == '"');
    assert(q[1] == '\'' || q[2] == '\'');
    assert(!(lang is Python) ==> q[1] == '`' || q[2] == '`');
    r
}

/// Find where the literal that is opened at `i` is closed.
pub fn end_of_literal(t: &[char], lang: Language, i: usize) -> (r: Option<usize>)
    requires
        i < t@.len(),
    ensures
        match r {
            Some(e) => literal_end(t@, lang, i as int) == Some(e as int) && i < e < t@.len(),
            None => literal_end(t@, lang, i as int) is None,
        },
{
    proof {
        lemma_ends(t@, lang, i as int);
    }
    let c: char = t[i];
    if is_quote(lang, c) {
        let raw: bool = match lang {
            Language::Go => c == '`',
            _ => false,
        };
        find_closing(t, c, raw, i + 1)
    } else {
        let script: bool = match lang {
            Language::Script => true,
            _ => false,
        };
        if script && c == '/' && starts_regex(t, i) {
            find_slash(t, i + 1)
        } else {
            None
        }
    }
}

proof fn lemma_occurs_chars(s: Seq<char>, pat: Seq<char>, i: int)
    ensures
        text::occurs_at(s, pat, i) ==> forall|k: int| 0 <= k < pat.len() ==> #[trigger] pat[k] == s[i + k],
{
    if text::occurs_at(s, pat, i) {
        assert forall|k: int| 0 <= k < pat.len() implies #[trigger] pat[k] == s[i + k] by {
            assert(s.subrange(i, i + pat.len())[k] == s[i + k]);
        }
    }
}

/// Find where the comment that is opened at `i` has ended.
pub fn end_of_comment(t: &[char], lang: Language, i: usize) -> (r: Option<usize>)
    requires
        i < t@.len(),
    ensures
        match r {
            Some(e) => comment_end(t@, lang, i as int) == Some(e as int) && i < e <= t@.len(),
            None => comment_end(t@, lang, i as int) is None,
        },
{
    proof {
        lemma_ends(t@, lang, i as int);
        reveal_strlit("#");
        reveal_strlit("//");
        reveal_strlit("/*");
        reveal_strlit("*/");
    }
    let n: usize = t.len();
    let sign: bool = match lang {
        Language::Python => t[i] == '#',
        _ => n - i >= 2 && t[i] == '/' && t[i + 1] == '/',
    };
    proof {
        lemma_occurs_chars(t@, comment_sign(lang), i as int);
        lemma_occurs_chars(t@, "/*"@, i as int);
        if text::occurs_at(t@, comment_sign(lang), i as int) {
            assert(comment_sign(lang)[0] == t@[i as int]);
            assert(!(lang is Python) ==> comment_sign(lang)[1] == t@[i + 1]);
        }
        if text::occurs_at(t@, "/*"@, i as int) {
            assert("/*"@[0] == t@[i as int]);
            assert("/*"@[1] == t@[i + 1]);
        }
    }
    if sign {
        assert(t@.subrange(i as int, i + comment_sign(lang).len()) =~= comment_sign(lang));
        return Some(index_of_char(t, '\n', i + 1));
    }
    let blocks: bool = match lang {
        Language::Python => false,
        _ => true,
    };
    if blocks && n - i >= 2 && t[i] == '/' && t[i + 1] == '*' {
        assert(t@.subrange(i as int, i + 2) =~= "/*"@);
        match find_str(t, "*/", i + 2) {
            Some(e) => {
                assert(e + 2 <= n);
                Some(e + 2)
            },
            None => None,
        }
    } else {
        None
    }
}

/// A text with a blank for each character inside a literal or a comment.
pub fn mask(t: &[char], lang: Language) -> (r: Vec<char>)
    ensures
        r@ == masked(t@, lang),
        r@.len() == t@.len(),
{
    let n: usize = t.len();
    let ghost whole = masked(t@, lang);
    let mut out: Vec<char> = Vec::new();
    let mut i: usize = 0;
    assert(out@ + masked_from(t@, lang, 0) =~= whole);
    while i < n
        invariant
            n == t@.len(),
            i <= n,
            out@ + masked_from(t@, lang, i as int) == whole,
        decreases n - i,
    {
        let ghost before = out@;
        let ghost at = i as int;
        match end_of_comment(t, lang, i) {
            Some(e) => {
                add_blanks(&mut out, e - i);
                i = e;
            },
            None => match end_of_literal(t, lang, i) {
                Some(e) => {
                    out.push(t[i]);
                    add_blanks(&mut out, e - i - 1);
                    out.push(t[e]);
                    i = e + 1;
                    assert(out@ =~= before + (seq![t@[at]] + blanks(e - at - 1) + seq![t@[e as int]]));
                },
                None => {
                    out.push(t[i]);
                    i = i + 1;
                    assert(out@ =~= before + seq![t@[at]]);
                },
            },
        }
        assert(out@ + masked_from(t@, lang, i as int) =~= before + masked_from(t@, lang, at));
    }
    assert(out@ =~= whole);
    proof {
        lemma_masked_len(t@, lang, 0);
    }
    out
}

} // verus!
