//! Source-flow facts about tools, and the helpers that the language analyzers share.
//!
//! The taint model links a sink call to a tool's parameter names: a line that holds a sink and a
//! parameter name taints the tool. It is no full dataflow; it is tuned for precision.
use crate::text;
use crate::text::{
    blank, chars_of, contains_str, has_marker_in, has_word_in, ident_char, occurs, same_str,
    string_of, to_upper,
};
use vstd::prelude::*;

verus! {

/// Facts about one tool. The flags start false and are set when a sink line names a tool input.
#[derive(Debug, PartialEq, Eq)]
pub struct ToolTaint {
    pub name: String,
    pub params: Vec<String>,
    pub ssrf: bool,
    pub fs: bool,
    pub shell: bool,
    pub sql: bool,
    pub deser: bool,
    pub unbounded_limit: bool,
    pub redos: bool,
    pub desc_hidden_unicode: bool,
    /// The source file that defines the tool; empty where one file was analyzed on its own.
    pub file: String,
    /// The line that registers the tool, counted from 1; 0 where it is not known.
    pub line: u32,
}

/// What a [`ToolTaint`] says.
pub struct ToolFacts {
    pub name: Seq<char>,
    pub params: Seq<Seq<char>>,
    pub ssrf: bool,
    pub fs: bool,
    pub shell: bool,
    pub sql: bool,
    pub deser: bool,
    pub unbounded_limit: bool,
    pub redos: bool,
    pub desc_hidden_unicode: bool,
    pub file: Seq<char>,
    pub line: u32,
}

impl View for ToolTaint {
    type V = ToolFacts;

    open spec fn view(&self) -> ToolFacts {
        ToolFacts {
            name: self.name@,
            params: text::strings(self.params@),
            ssrf: self.ssrf,
            fs: self.fs,
            shell: self.shell,
            sql: self.sql,
            deser: self.deser,
            unbounded_limit: self.unbounded_limit,
            redos: self.redos,
            desc_hidden_unicode: self.desc_hidden_unicode,
            file: self.file@,
            line: self.line,
        }
    }
}

/// The facts of a tool of which nothing but the name and the parameters is known.
pub open spec fn clean_tool(name: Seq<char>, params: Seq<Seq<char>>) -> ToolFacts {
    ToolFacts {
        name,
        params,
        ssrf: false,
        fs: false,
        shell: false,
        sql: false,
        deser: false,
        unbounded_limit: false,
        redos: false,
        desc_hidden_unicode: false,
        file: Seq::empty(),
        line: 0,
    }
}

impl ToolTaint {
    pub fn new(name: String, params: Vec<String>) -> (r: Self)
        ensures
            r@ == clean_tool(name@, text::strings(params@)),
    {
        ToolTaint {
            name,
            params,
            ssrf: false,
            fs: false,
            shell: false,
            sql: false,
            deser: false,
            unbounded_limit: false,
            redos: false,
            desc_hidden_unicode: false,
            file: String::new(),
            line: 0,
        }
    }
}

/// The outcome of analyzing source code.
#[derive(Debug, PartialEq, Eq)]
pub struct Analysis {
    pub tools: Vec<ToolTaint>,
    /// A secret reaches a known exfiltration host.
    pub secret_source_to_egress: bool,
    /// File and line of the first such flow.
    pub secret_egress: Option<(String, u32)>,
}

/// What an [`Analysis`] says.
pub struct AnalysisFacts {
    pub tools: Seq<ToolFacts>,
    pub secret_source_to_egress: bool,
    pub secret_egress: Option<(Seq<char>, u32)>,
}

/// The facts of a list of tools.
pub open spec fn tool_facts(v: Seq<ToolTaint>) -> Seq<ToolFacts> {
    Seq::new(v.len(), |i: int| v[i]@)
}

/// A place in a file, as texts.
pub open spec fn place(p: Option<(String, u32)>) -> Option<(Seq<char>, u32)> {
    match p {
        Some(q) => Some((q.0@, q.1)),
        None => None,
    }
}

impl View for Analysis {
    type V = AnalysisFacts;

    open spec fn view(&self) -> AnalysisFacts {
        AnalysisFacts {
            tools: tool_facts(self.tools@),
            secret_source_to_egress: self.secret_source_to_egress,
            secret_egress: place(self.secret_egress),
        }
    }
}

/// Known credential-exfiltration destinations. A secret counts as leaked only where it is sent to
/// one of these: a token sent to its own declared service is no leak.
pub const EXFIL_HOSTS: [&'static str; 10] = [
    "discord.com/api/webhooks",
    "api.telegram.org",
    "pastebin.com",
    "requestbin",
    "ngrok",
    "oast.",
    "interact.sh",
    "hookbin",
    "webhook.site",
    "burpcollaborator",
];

/// Words that mark a value as a secret, in upper case.
pub const SECRET_WORDS: [&'static str; 8] = [
    "TOKEN",
    "SECRET",
    "PASSWORD",
    "API_KEY",
    "APIKEY",
    "CREDENTIAL",
    "PRIVATE_KEY",
    "ACCESS_KEY",
];

/// `line` names something secret, in whatever case.
pub open spec fn secretish(line: Seq<char>) -> bool {
    text::has_marker(text::upper(line), SECRET_WORDS@) || text::contains(text::upper(line), "KEY"@)
}

pub fn is_secretish(line: &[char]) -> (r: bool)
    ensures
        r == secretish(line@),
{
    let u = to_upper(line);
    has_marker_in(&u, &SECRET_WORDS) || contains_str(&u, "KEY")
}

/// Identifier character of JavaScript and TypeScript, which allow `$`, and of Go.
pub fn is_ident(c: char) -> (r: bool)
    ensures
        r == text::is_ident_char(c, true),
{
    ident_char(c, true)
}

/// `word` stands in `line` bounded by non-identifier characters: a whole identifier, no substring.
pub fn word_present(line: &str, word: &str) -> (r: bool)
    ensures
        r == text::has_word(line@, word@, true),
{
    let l = chars_of(line);
    let w = chars_of(word);
    has_word_in(&l, &w, true)
}

/// Zero-width and direction-changing characters, which a reader does not see.
pub open spec fn zero_width(c: char) -> bool {
    ||| '\u{200b}' <= c <= '\u{200f}'
    ||| '\u{202a}' <= c <= '\u{202e}'
    ||| c == '\u{2060}'
    ||| '\u{2066}' <= c <= '\u{2069}'
    ||| c == '\u{feff}'
}

pub fn is_zero_width(c: char) -> (r: bool)
    ensures
        r == zero_width(c),
{
    ('\u{200b}' <= c && c <= '\u{200f}') || ('\u{202a}' <= c && c <= '\u{202e}') || c == '\u{2060}' || (
    '\u{2066}' <= c && c <= '\u{2069}') || c == '\u{feff}'
}

/// A zero-width character stands in `s`.
pub open spec fn has_zero_width(s: Seq<char>) -> bool {
    exists|i: int| 0 <= i < s.len() && zero_width(#[trigger] s[i])
}

pub fn has_zero_width_in(t: &[char]) -> (r: bool)
    ensures
        r == has_zero_width(t@),
{
    for i in 0..t.len()
        invariant
            forall|j: int| 0 <= j < i ==> !zero_width(#[trigger] t@[j]),
    {
        if is_zero_width(t[i]) {
            return true;
        }
    }
    false
}

/// Some marker stands in `line`.
pub fn any_marker(line: &str, markers: &[&str]) -> (r: bool)
    ensures
        r == text::has_marker(line@, markers@),
{
    let l = chars_of(line);
    has_marker_in(&l, markers)
}

/// Some word of the list stands in `line` as a whole word.
pub open spec fn has_any_word(line: Seq<char>, words: Seq<Seq<char>>, dollar: bool) -> bool {
    exists|k: int| 0 <= k < words.len() && text::has_word(line, #[trigger] words[k], dollar)
}

pub fn has_any_word_in(line: &[char], words: &Vec<String>, dollar: bool) -> (r: bool)
    ensures
        r == has_any_word(line@, text::strings(words@), dollar),
{
    for k in 0..words.len()
        invariant
            forall|j: int| 0 <= j < k ==> !text::has_word(line@, #[trigger] text::strings(words@)[j], dollar),
    {
        let w = chars_of(words[k].as_str());
        if has_word_in(line, &w, dollar) {
            assert(text::has_word(line@, text::strings(words@)[k as int], dollar));
            return true;
        }
    }
    false
}

// --- parameter lists -------------------------------------------------------

/// How a character changes the bracket depth.
pub open spec fn bracket(c: char) -> int {
    if c == '(' || c == '[' || c == '{' {
        1
    } else if c == ')' || c == ']' || c == '}' {
        -1
    } else {
        0
    }
}

/// The bracket depth of `s` before position `i`.
pub open spec fn depth_at(s: Seq<char>, i: int) -> int
    decreases i,
{
    if i <= 0 || i > s.len() {
        0
    } else {
        depth_at(s, i - 1) + bracket(s[i - 1])
    }
}

/// A comma outside all brackets stands at `i`.
pub open spec fn top_comma(s: Seq<char>, i: int) -> bool {
    s[i] == ',' && depth_at(s, i) == 0
}

/// The first position at or after `from` with a comma outside all brackets, or the length of `s`.
pub open spec fn next_comma(s: Seq<char>, from: int) -> int
    decreases s.len() - from,
{
    if from < 0 || from >= s.len() {
        s.len() as int
    } else if top_comma(s, from) {
        from
    } else {
        next_comma(s, from + 1)
    }
}

pub proof fn lemma_next_comma(s: Seq<char>, from: int)
    requires
        0 <= from <= s.len(),
    ensures
        from <= next_comma(s, from) <= s.len(),
        next_comma(s, from) < s.len() ==> top_comma(s, next_comma(s, from)),
        forall|j: int| from <= j < next_comma(s, from) ==> !top_comma(s, j),
    decreases s.len() - from,
{
    if from < s.len() && !top_comma(s, from) {
        lemma_next_comma(s, from + 1);
    }
}

/// The parts of `s` from `from` on, cut at the commas outside all brackets. A blank part at the
/// end is no part.
pub open spec fn top_level_from(s: Seq<char>, from: int) -> Seq<Seq<char>>
    decreases s.len() - from,
{
    if from < 0 || from > s.len() {
        Seq::empty()
    } else {
        let end = next_comma(s, from);
        proof {
            lemma_next_comma(s, from);
        }
        if end < s.len() {
            seq![s.subrange(from, end)] + top_level_from(s, end + 1)
        } else if text::is_blank(s.skip(from)) {
            Seq::empty()
        } else {
            seq![s.skip(from)]
        }
    }
}

pub open spec fn top_level_parts(s: Seq<char>) -> Seq<Seq<char>> {
    top_level_from(s, 0)
}

pub fn top_level<'a>(t: &'a [char]) -> (r: Vec<&'a [char]>)
    ensures
        text::views(r@) == top_level_parts(t@),
{
    let n: usize = t.len();
    let mut out: Vec<&'a [char]> = Vec::new();
    let mut depth: i128 = 0;
    let mut from: usize = 0;
    let mut i: usize = 0;
    while i < n
        invariant
            n == t@.len(),
            from <= i <= n,
            depth == depth_at(t@, i as int),
            -(i as int) <= depth <= i,
            next_comma(t@, from as int) == next_comma(t@, i as int),
            text::views(out@) + top_level_from(t@, from as int) == top_level_parts(t@),
        decreases n - i,
    {
        let c: char = t[i];
        if c == ',' && depth == 0 {
            let ghost before = out@;
            out.push(&t[from..i]);
            assert(text::views(out@) =~= text::views(before).push(t@.subrange(from as int, i as int)));
            from = i + 1;
            assert(text::views(out@) + top_level_from(t@, from as int) =~= top_level_parts(t@));
        } else if c == '(' || c == '[' || c == '{' {
            depth = depth + 1;
        } else if c == ')' || c == ']' || c == '}' {
            depth = depth - 1;
        }
        i = i + 1;
    }
    let rest: &'a [char] = &t[from..n];
    assert(rest@ =~= t@.skip(from as int));
    let ghost before = out@;
    if !blank(rest) {
        out.push(rest);
        assert(text::views(out@) =~= text::views(before).push(t@.skip(from as int)));
    }
    assert(text::views(out@) =~= top_level_parts(t@));
    out
}

/// Cut a parameter list at the commas outside `()`, `[]` and `{}`.
pub fn split_top_level(inner: &str) -> (r: Vec<String>)
    ensures
        text::strings(r@) == top_level_parts(inner@),
{
    let t = chars_of(inner);
    let parts = top_level(&t);
    let mut out: Vec<String> = Vec::new();
    for k in 0..parts.len()
        invariant
            text::strings(out@) == text::views(parts@).take(k as int),
    {
        let ghost before = out@;
        out.push(string_of(parts[k]));
        assert(text::strings(out@) =~= text::strings(before).push(parts@[k as int]@));
        assert(text::strings(out@) =~= text::views(parts@).take(k + 1));
    }
    assert(text::strings(out@) =~= text::views(parts@));
    out
}

/// The position of the parenthesis that closes `depth` open ones, searched from `k` on.
pub open spec fn close_paren(s: Seq<char>, k: int, depth: int) -> Option<int>
    decreases s.len() - k,
{
    if k < 0 || k >= s.len() {
        None
    } else if s[k] == '(' {
        close_paren(s, k + 1, depth + 1)
    } else if s[k] == ')' {
        if depth == 1 {
            Some(k)
        } else {
            close_paren(s, k + 1, depth - 1)
        }
    } else {
        close_paren(s, k + 1, depth)
    }
}

pub fn closing_paren(t: &[char], from: usize) -> (r: Option<usize>)
    requires
        from <= t@.len(),
    ensures
        match r {
            Some(k) => close_paren(t@, from as int, 1) == Some(k as int) && from <= k < t@.len(),
            None => close_paren(t@, from as int, 1) is None,
        },
{
    let n: usize = t.len();
    let mut depth: i128 = 1;
    let mut k: usize = from;
    while k < n
        invariant
            n == t@.len(),
            from <= k <= n,
            1 <= depth <= 1 + k - from,
            close_paren(t@, from as int, 1) == close_paren(t@, k as int, depth as int),
        decreases n - k,
    {
        if t[k] == '(' {
            depth = depth + 1;
        } else if t[k] == ')' {
            if depth == 1 {
                return Some(k);
            }
            depth = depth - 1;
        }
        k = k + 1;
    }
    None
}

// --- registrations ---------------------------------------------------------

/// A marker stands in `s` at `i`.
pub open spec fn marker_at(s: Seq<char>, markers: Seq<&str>, i: int) -> bool {
    exists|k: int| 0 <= k < markers.len() && text::occurs_at(s, (#[trigger] markers[k])@, i)
}

/// The positions at `i` or later where a marker stands, in order.
pub open spec fn positions(s: Seq<char>, markers: Seq<&str>, i: int) -> Seq<int>
    decreases s.len() - i,
{
    if i < 0 || i >= s.len() {
        Seq::empty()
    } else if marker_at(s, markers, i) {
        seq![i] + positions(s, markers, i + 1)
    } else {
        positions(s, markers, i + 1)
    }
}

pub proof fn lemma_positions(s: Seq<char>, markers: Seq<&str>, i: int)
    requires
        0 <= i,
    ensures
        forall|k: int|
            0 <= k < positions(s, markers, i).len() ==> i <= #[trigger] positions(s, markers, i)[k] < s.len(),
        forall|j: int, k: int|
            0 <= j < k < positions(s, markers, i).len() ==> #[trigger] positions(s, markers, i)[j]
                < #[trigger] positions(s, markers, i)[k],
    decreases s.len() - i,
{
    if i < s.len() {
        lemma_positions(s, markers, i + 1);
        let rest = positions(s, markers, i + 1);
        if marker_at(s, markers, i) {
            let all = positions(s, markers, i);
            assert(all == seq![i] + rest);
            assert forall|k: int| 0 <= k < all.len() implies i <= #[trigger] all[k] < s.len() by {
                if k > 0 {
                    assert(all[k] == rest[k - 1]);
                }
            }
            assert forall|j: int, k: int| 0 <= j < k < all.len() implies #[trigger] all[j] < #[trigger] all[k] by {
                assert(all[k] == rest[k - 1]);
                if j > 0 {
                    assert(all[j] == rest[j - 1]);
                }
            }
        } else {
            assert(positions(s, markers, i) == rest);
        }
    }
}

/// Positions as integers.
pub open spec fn ints(v: Seq<usize>) -> Seq<int> {
    Seq::new(v.len(), |i: int| v[i] as int)
}

/// The positions of the markers in `t`, in order.
pub fn marker_positions(t: &[char], markers: &[&str]) -> (r: Vec<usize>)
    ensures
        ints(r@) == positions(t@, markers@, 0),
{
    let mut pats: Vec<Vec<char>> = Vec::new();
    for k in 0..markers.len()
        invariant
            pats@.len() == k,
            forall|j: int| 0 <= j < k ==> (#[trigger] pats@[j])@ == markers@[j]@,
    {
        pats.push(chars_of(markers[k]));
    }
    let n: usize = t.len();
    let mut out: Vec<usize> = Vec::new();
    let mut i: usize = 0;
    assert(ints(out@) + positions(t@, markers@, 0) =~= positions(t@, markers@, 0));
    while i < n
        invariant
            n == t@.len(),
            i <= n,
            pats@.len() == markers@.len(),
            forall|j: int| 0 <= j < pats@.len() ==> (#[trigger] pats@[j])@ == markers@[j]@,
            ints(out@) + positions(t@, markers@, i as int) == positions(t@, markers@, 0),
        decreases n - i,
    {
        let ghost before = ints(out@);
        let mut hit: bool = false;
        for k in 0..pats.len()
            invariant
                pats@.len() == markers@.len(),
                forall|j: int| 0 <= j < pats@.len() ==> (#[trigger] pats@[j])@ == markers@[j]@,
                hit == exists|j: int| 0 <= j < k && text::occurs_at(t@, (#[trigger] markers@[j])@, i as int),
        {
            assert(pats@[k as int]@ == markers@[k as int]@);
            if occurs(t, &pats[k], i) {
                hit = true;
            }
        }
        assert(hit == marker_at(t@, markers@, i as int));
        if hit {
            out.push(i);
            assert(ints(out@) =~= before.push(i as int));
        }
        i = i + 1;
        assert(ints(out@) + positions(t@, markers@, i as int) =~= positions(t@, markers@, 0));
    }
    assert(ints(out@) =~= positions(t@, markers@, 0));
    out
}

/// Where the region of the registration `k` ends: at the next one, or at the end of the text.
pub open spec fn region_end(s: Seq<char>, ps: Seq<int>, k: int) -> int {
    if k + 1 < ps.len() {
        ps[k + 1]
    } else {
        s.len() as int
    }
}

/// Line feeds before position `i`.
pub open spec fn newlines(s: Seq<char>, i: int) -> int
    decreases i,
{
    if i <= 0 || i > s.len() {
        0
    } else if s[i - 1] == '\n' {
        newlines(s, i - 1) + 1
    } else {
        newlines(s, i - 1)
    }
}

pub proof fn lemma_newlines(s: Seq<char>, i: int)
    ensures
        0 <= newlines(s, i) <= s.len(),
        0 <= i ==> newlines(s, i) <= i,
    decreases i,
{
    if 0 < i <= s.len() {
        lemma_newlines(s, i - 1);
    }
}

/// Where the analyzers set a fact about the tool, they know its line.
pub open spec fn is_located(t: ToolFacts) -> bool {
    t.line > 0 || !(t.ssrf || t.fs || t.shell || t.sql || t.deser || t.unbounded_limit || t.redos
        || t.desc_hidden_unicode)
}

pub fn count_newlines(t: &[char], to: usize) -> (r: usize)
    requires
        to <= t@.len(),
    ensures
        r == newlines(t@, to as int),
{
    let mut n: usize = 0;
    for i in 0..to
        invariant
            to <= t@.len(),
            n <= i,
            n == newlines(t@, i as int),
    {
        if t[i] == '\n' {
            n = n + 1;
        }
    }
    n
}

/// A tool of that name is in the list.
pub open spec fn has_tool(tools: Seq<ToolFacts>, name: Seq<char>) -> bool {
    exists|i: int| 0 <= i < tools.len() && (#[trigger] tools[i]).name == name
}

pub fn knows_tool(tools: &Vec<ToolTaint>, name: &str) -> (r: bool)
    ensures
        r == has_tool(tool_facts(tools@), name@),
{
    for i in 0..tools.len()
        invariant
            forall|j: int| 0 <= j < i ==> (#[trigger] tool_facts(tools@)[j]).name != name@,
    {
        if same_str(tools[i].name.as_str(), name) {
            assert(tool_facts(tools@)[i as int].name == name@);
            return true;
        }
    }
    false
}

/// Some line of `ls` holds one of the markers.
pub open spec fn some_line_has(ls: Seq<Seq<char>>, markers: Seq<&str>) -> bool {
    exists|j: int| 0 <= j < ls.len() && text::has_marker(#[trigger] ls[j], markers)
}

pub fn any_line_has(lines: &Vec<&[char]>, markers: &[&str]) -> (r: bool)
    ensures
        r == some_line_has(text::views(lines@), markers@),
{
    for j in 0..lines.len()
        invariant
            forall|i: int| 0 <= i < j ==> !text::has_marker(#[trigger] text::views(lines@)[i], markers@),
    {
        assert(text::views(lines@)[j as int] == lines@[j as int]@);
        if has_marker_in(lines[j], markers) {
            return true;
        }
    }
    false
}

} // verus!
