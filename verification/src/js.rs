//! Source-flow analysis of JavaScript and TypeScript tools.
//!
//! A tool is registered as `server.tool("name", schema, async ({ arg }) => { ... })`: the taint
//! sources are the parameters of the handler, and the region of a tool runs up to the next
//! registration. Tools that are declared as data, by a `name` beside a schema or a handler, are
//! listed by name alone.
use crate::literal;
use crate::literal::{Language, mask};
use crate::taint;
use crate::taint::{
    Analysis, AnalysisFacts, EXFIL_HOSTS, ToolFacts, ToolTaint, any_line_has, closing_paren,
    count_newlines, has_any_word_in, has_zero_width_in, is_secretish, knows_tool, marker_positions,
    top_level,
};
use crate::text;
use crate::text::{
    append, chars_of, contains_char, contains_str, ends_with_str, find_str, fits_in_bytes,
    has_marker_in, ident_char, index_of_any, index_of_char, is_listed_in, is_text,
    last_index_of_char, leading_ident, lines_of, number_of_line, occurs, split_at_any,
    starts_with_any_of, starts_with_str, step_backward, step_forward, string_of, stripped_prefix,
    trailing_ident, trimmed, trimmed_end, trimmed_start,
};
use vstd::prelude::*;

verus! {

pub const TOOL_MARKERS: [&'static str; 4] = [".tool(", ".registerTool(", ".addTool(", "server.tool("];

/// Calls that run a process or evaluate code. A bare `exec(` is left out: `.exec(` of a regular
/// expression would match it.
pub const SHELL: [&'static str; 8] = [
    "child_process",
    "execSync(",
    "execFileSync(",
    "execFile(",
    "spawnSync(",
    "spawn(",
    "eval(",
    "new Function(",
];

pub const SSRF: [&'static str; 12] = [
    "fetch(",
    "axios.get(",
    "axios.post(",
    "axios.put(",
    "axios.request(",
    "axios(",
    "got(",
    "needle(",
    "http.get(",
    "https.get(",
    "http.request(",
    "https.request(",
];

pub const FS: [&'static str; 9] = [
    "fs.readFile",
    "fs.writeFile",
    "fs.readdir",
    "fs.unlink",
    "fs.createReadStream",
    "readFileSync(",
    "writeFileSync(",
    "path.join(",
    "path.resolve(",
];

pub const SQL: [&'static str; 3] = [".query(", ".execute(", ".raw("];

pub const REDOS: [&'static str; 1] = ["new RegExp("];

pub const EGRESS: [&'static str; 8] = [
    "fetch(",
    "axios.post(",
    "axios.get(",
    "axios(",
    "got(",
    "http.request(",
    "https.request(",
    ".send(",
];

/// Spellings of a string that is built from parts; a template literal is one.
pub const STRING_BUILDERS: [&'static str; 6] = ["`", "\" +", "' +", "+ \"", "+ '", ".concat("];

pub const CREDENTIAL_FILES: [&'static str; 4] = [".aws/credentials", ".ssh/", ".npmrc", "id_rsa"];

/// Signs that a tool checks where a URL leads: an allowlist, a private-address block, a validator.
pub const URL_GUARD: [&'static str; 8] = [
    "allowlist",
    "allow_list",
    "allowedHosts",
    "ALLOWED_HOSTS",
    "isPrivate",
    "validateUrl",
    "validateURL",
    "isAllowedHost",
];

/// Signs that a tool keeps paths under a root.
pub const PATH_GUARD: [&'static str; 5] = [
    "validateRelativePath",
    "validate_relative_path",
    "path.relative(",
    "\"..\"",
    "'..'",
];

/// Words before a parenthesis that begins no parameter list.
pub const CONTROL_WORDS: [&'static str; 5] = ["if", "for", "while", "switch", "catch"];

/// What stands before the name of a tool that is declared as data.
pub const NAME_KEYS: [&'static str; 3] = ["name:", "name =", "name="];

/// What stands near the name of a tool that is declared as data.
pub const INDICATORS: [&'static str; 8] = [
    "inputSchema",
    "input_schema",
    "outputSchema",
    "description",
    "handler",
    "execute",
    "parameters",
    "annotations",
];

// --- names and parameters --------------------------------------------------

/// The first quoted string of `s`; the quote may be any of the three kinds.
pub open spec fn quoted_first(s: Seq<char>) -> Option<Seq<char>> {
    let q = text::find_one_of(s, "\"'`"@, 0);
    let end = text::find_char(s, s[q], q + 1);
    if q >= s.len() || end >= s.len() {
        None
    } else {
        Some(s.subrange(q + 1, end))
    }
}

pub fn first_quoted(t: &[char]) -> (r: Option<String>)
    ensures
        match r {
            Some(v) => quoted_first(t@) == Some(v@),
            None => quoted_first(t@) is None,
        },
{
    let n: usize = t.len();
    let quotes = chars_of("\"'`");
    let q: usize = index_of_any(t, &quotes, 0);
    if q >= n {
        return None;
    }
    let end: usize = index_of_char(t, t[q], q + 1);
    if end >= n {
        return None;
    }
    Some(string_of(&t[q + 1..end]))
}

/// The string that `after` begins with, after white space; none where it begins with something else.
pub open spec fn quoted_start(after: Seq<char>) -> Option<Seq<char>> {
    let a = text::trim_start(after);
    let end = text::find_char(a, a[0], 1);
    if a.len() == 0 || !(a[0] == '"' || a[0] == '\'' || a[0] == '`') || end >= a.len() {
        None
    } else {
        Some(a.subrange(1, end))
    }
}

pub fn quoted_value<'a>(after: &'a [char]) -> (r: Option<&'a [char]>)
    ensures
        match r {
            Some(v) => quoted_start(after@) == Some(v@),
            None => quoted_start(after@) is None,
        },
{
    let a = trimmed_start(after);
    let n: usize = a.len();
    if n == 0 {
        return None;
    }
    let qc: char = a[0];
    if qc != '"' && qc != '\'' && qc != '`' {
        return None;
    }
    let end: usize = index_of_char(a, qc, 1);
    if end >= n {
        return None;
    }
    Some(&a[1..end])
}

/// The position of the parenthesis that opens `depth` closed ones, searched from `k` downwards.
pub open spec fn open_paren(s: Seq<char>, k: int, depth: int) -> Option<int>
    decreases k + 1,
{
    if k < 0 || k >= s.len() {
        None
    } else if s[k] == ')' {
        open_paren(s, k - 1, depth + 1)
    } else if s[k] == '(' {
        if depth == 1 {
            Some(k)
        } else {
            open_paren(s, k - 1, depth - 1)
        }
    } else {
        open_paren(s, k - 1, depth)
    }
}

fn opening_paren(t: &[char], close: usize) -> (r: Option<usize>)
    requires
        close < t@.len(),
        t@[close as int] == ')',
    ensures
        match r {
            Some(k) => open_paren(t@, close as int, 0) == Some(k as int) && k < close,
            None => open_paren(t@, close as int, 0) is None,
        },
{
    let mut depth: i128 = 1;
    let mut k: usize = close;
    while k > 0
        invariant
            k <= close < t@.len(),
            1 <= depth <= 1 + close - k,
            open_paren(t@, close as int, 0) == open_paren(t@, k - 1, depth as int),
        decreases k,
    {
        let c: char = t[k - 1];
        if c == ')' {
            depth = depth + 1;
        } else if c == '(' {
            if depth == 1 {
                return Some(k - 1);
            }
            depth = depth - 1;
        }
        k = k - 1;
    }
    None
}

/// `id` as a list, which is empty where `id` is.
pub open spec fn if_any(id: Seq<char>) -> Seq<Seq<char>> {
    if id.len() == 0 {
        Seq::empty()
    } else {
        seq![id]
    }
}

/// The identifiers that the parts from index `k` on begin with.
pub open spec fn token_idents(parts: Seq<Seq<char>>, k: int) -> Seq<Seq<char>>
    decreases parts.len() - k,
{
    if k < 0 || k >= parts.len() {
        Seq::empty()
    } else {
        if_any(text::ident_prefix(text::trim(parts[k]), true)) + token_idents(parts, k + 1)
    }
}

/// The identifiers of the destructured fields from index `k` on: of `key: alias`, both.
pub open spec fn field_idents(fields: Seq<Seq<char>>, k: int) -> Seq<Seq<char>>
    decreases fields.len() - k,
{
    if k < 0 || k >= fields.len() {
        Seq::empty()
    } else {
        token_idents(text::split(fields[k], ":"@), 0) + field_idents(fields, k + 1)
    }
}

/// The identifiers of one parameter: its own, or those of the fields that it destructures.
pub open spec fn part_idents(part: Seq<char>) -> Seq<Seq<char>> {
    let p = text::trim(part);
    let b = text::find_char(p, '{', 0);
    let e = text::rfind_char(p, '}', p.len() as int);
    if b < p.len() && e >= 0 {
        if e > b {
            field_idents(taint::top_level_parts(p.subrange(b + 1, e)), 0)
        } else {
            Seq::empty()
        }
    } else {
        if_any(text::ident_prefix(p, true))
    }
}

/// The identifiers of the parameters from index `k` on.
pub open spec fn list_idents(parts: Seq<Seq<char>>, k: int) -> Seq<Seq<char>>
    decreases parts.len() - k,
{
    if k < 0 || k >= parts.len() {
        Seq::empty()
    } else {
        part_idents(parts[k]) + list_idents(parts, k + 1)
    }
}

/// Source with the contents of its literals and comments blanked.
pub open spec fn code(s: Seq<char>) -> Seq<char> {
    literal::masked(s, Language::Script)
}

/// The angle brackets that are open before position `i` of a return type; negative where `i` is in
/// none. A return type follows the parenthesis that closes a parameter list, and ends with the arrow
/// or with a comma outside its angle brackets.
pub open spec fn type_depth(s: Seq<char>, i: int) -> int
    decreases i,
{
    if i <= 0 || i > s.len() {
        -1
    } else {
        let open = type_depth(s, i - 1);
        let c = s[i - 1];
        if c == ')' && taint::depth_at(s, i - 1) == 1 && text::starts_with(text::trim_start(s.skip(i)), ":"@) {
            0
        } else if open < 0 || taint::depth_at(s, i - 1) != 0 {
            open
        } else if c == '<' {
            open + 1
        } else if c == '>' && i >= 2 && s[i - 2] == '=' {
            -1
        } else if c == '>' && open > 0 {
            open - 1
        } else if c == ',' && open == 0 {
            -1
        } else {
            open
        }
    }
}

/// A text with a blank for each comma between the angle brackets of a return type.
pub open spec fn joined_types(s: Seq<char>) -> Seq<char> {
    Seq::new(
        s.len(),
        |i: int|
            if s[i] == ',' && type_depth(s, i) > 0 {
                ' '
            } else {
                s[i]
            },
    )
}

/// Where the arguments of a call whose text begins with a registration end.
pub open spec fn args_end(m: Seq<char>) -> int {
    match taint::close_paren(m, text::find_char(m, '(', 0) + 1, 1) {
        Some(e) => e,
        None => m.len() as int,
    }
}

/// The arguments of a call whose text begins with a registration.
pub open spec fn call_args(m: Seq<char>) -> Seq<Seq<char>> {
    taint::top_level_parts(joined_types(m.subrange(text::find_char(m, '(', 0) + 1, args_end(m))))
}

/// What stands before an identifier shows that it is a parameter, not a part of a return type: it
/// is the start of an argument, of an assigned value or of the value of a key.
pub open spec fn opens_value(head: Seq<char>) -> bool {
    ||| head.len() == 0
    ||| head.last() == '('
    ||| head.last() == ','
    ||| head.last() == '='
    ||| head.last() == ':' && !text::ends_with(text::trim_end(head.drop_last()), ")"@)
}

/// `head` without a trailing `async`.
pub open spec fn without_async(head: Seq<char>) -> Seq<char> {
    if text::ends_with(head, "async"@) {
        text::trim_end(head.take(head.len() - "async"@.len()))
    } else {
        head
    }
}

/// The identifier that `before` ends with.
pub open spec fn bare_ident(before: Seq<char>) -> Seq<char> {
    text::ident_suffix(text::trim_end(before), true)
}

/// What stands before the identifier that `before` ends with, without a trailing `async`.
pub open spec fn bare_head(before: Seq<char>) -> Seq<char> {
    let b = text::trim_end(before);
    without_async(text::trim_end(b.take(b.len() - bare_ident(before).len())))
}

/// The parameters before an arrow: a list in parentheses, or one identifier where there is none.
pub open spec fn listed_idents(before: Seq<char>) -> Seq<Seq<char>> {
    let close = text::rfind_char(before, ')', before.len() as int);
    if close < 0 {
        if_any(bare_ident(before))
    } else {
        match open_paren(before, close, 0) {
            None => Seq::empty(),
            Some(open) => list_idents(taint::top_level_parts(before.subrange(open + 1, close)), 0),
        }
    }
}

/// The parameters of the arrow function whose arrow follows `before`: one identifier without
/// parentheses, or a list in parentheses.
pub open spec fn arrow_idents(before: Seq<char>) -> Seq<Seq<char>> {
    if bare_ident(before).len() > 0 && opens_value(bare_head(before)) {
        if_any(bare_ident(before))
    } else {
        listed_idents(before)
    }
}

/// `before` ends with `function`, or with `function` and a name.
pub open spec fn ends_with_function(before: Seq<char>) -> bool {
    bare_ident(before) == "function"@ || text::ident_suffix(bare_head(before), true) == "function"@
}

/// `before` ends with the name of a member of an object.
pub open spec fn ends_with_member(before: Seq<char>) -> bool {
    bare_ident(before).len() > 0 && (text::ends_with(bare_head(before), "{"@) || text::ends_with(bare_head(before), ","@))
}

/// A parameter list stands between `before` and `after`: that of a `function`, one that a body
/// follows, or one of a method that a return type follows.
pub open spec fn is_list_between(before: Seq<char>, after: Seq<char>) -> bool {
    let rest = text::trim_start(after);
    ||| ends_with_function(before)
    ||| text::starts_with(rest, "{"@) && !text::is_listed(bare_ident(before), CONTROL_WORDS@)
    ||| text::starts_with(rest, ":"@) && ends_with_member(before)
}

/// The parameter list of a function without an arrow opens at `i`.
pub open spec fn opens_list(s: Seq<char>, i: int) -> bool {
    &&& s[i] == '('
    &&& taint::close_paren(s, i + 1, 1) matches Some(c) && is_list_between(s.take(i), s.skip(c + 1))
}

/// A function shows at `i`: by its arrow, or by its parameter list.
pub open spec fn shows_function(s: Seq<char>, i: int) -> bool {
    text::occurs_at(s, "=>"@, i) || opens_list(s, i)
}

/// Where the first of the least nested functions shows before `n`.
pub open spec fn function_before(s: Seq<char>, n: int) -> Option<int>
    decreases n,
{
    if n <= 0 {
        None
    } else {
        let before = function_before(s, n - 1);
        if shows_function(s, n - 1) && (before is None || taint::depth_at(s, n - 1) < taint::depth_at(s, before->0)) {
            Some(n - 1)
        } else {
            before
        }
    }
}

/// Where the first of the least nested functions of a text shows.
pub open spec fn function_at(s: Seq<char>) -> Option<int> {
    function_before(s, s.len() as int)
}

/// The parameters of the function that shows at `i`.
pub open spec fn function_idents(s: Seq<char>, i: int) -> Seq<Seq<char>> {
    if s[i] == '(' {
        match taint::close_paren(s, i + 1, 1) {
            Some(c) => list_idents(taint::top_level_parts(s.subrange(i + 1, c)), 0),
            None => Seq::empty(),
        }
    } else {
        arrow_idents(s.take(i))
    }
}

/// An argument is a function itself: it shows outside all brackets.
pub open spec fn is_function(part: Seq<char>) -> bool {
    function_at(part) matches Some(i) && taint::depth_at(part, i) == 0
}

/// The last of the first `n` arguments that is a function.
pub open spec fn last_function(parts: Seq<Seq<char>>, n: int) -> Option<int>
    decreases n,
{
    if n <= 0 || n > parts.len() {
        None
    } else if is_function(parts[n - 1]) {
        Some(n - 1)
    } else {
        last_function(parts, n - 1)
    }
}

/// The text that holds the handler. Of a registration this is the last argument that is a function,
/// else the last argument where it holds one; a text that begins with no registration is taken whole.
pub open spec fn handler_text(m: Seq<char>) -> Option<Seq<char>> {
    if text::starts_with_any(m, TOOL_MARKERS@) {
        let parts = call_args(m);
        match last_function(parts, parts.len() as int) {
            Some(k) => Some(parts[k]),
            None => if parts.len() > 0 && function_at(parts.last()) is Some {
                Some(parts.last())
            } else {
                None
            },
        }
    } else {
        Some(m)
    }
}

/// The parameters of the handler in a region. Where the call holds no handler, the first arrow
/// function of the region stands for it.
pub open spec fn handler_idents(region: Seq<char>) -> Seq<Seq<char>> {
    let m = code(region);
    match handler_text(m) {
        Some(text) => match function_at(text) {
            Some(i) => function_idents(text, i),
            None => Seq::empty(),
        },
        None => match text::find(m, "=>"@, 0) {
            Some(i) => listed_idents(m.take(i)),
            None => Seq::empty(),
        },
    }
}

fn add_ident(out: &mut Vec<String>, id: &[char])
    ensures
        text::strings(final(out)@) == text::strings(old(out)@) + if_any(id@),
{
    let ghost before = text::strings(out@);
    if id.len() > 0 {
        out.push(string_of(id));
        assert(text::strings(out@) =~= before.push(id@));
    }
    assert(text::strings(out@) =~= before + if_any(id@));
}

fn add_field(out: &mut Vec<String>, field: &[char])
    ensures
        text::strings(final(out)@) == text::strings(old(out)@) + token_idents(text::split(field@, ":"@), 0),
{
    let colon = chars_of(":");
    let tokens = split_at_any(field, &colon);
    let ghost before = text::strings(out@);
    let ghost all = text::views(tokens@);
    for k in 0..tokens.len()
        invariant
            all == text::views(tokens@),
            text::strings(out@) + token_idents(all, k as int) == before + token_idents(all, 0),
    {
        let ghost mid = text::strings(out@);
        assert(all[k as int] == tokens@[k as int]@);
        add_ident(out, leading_ident(trimmed(tokens[k]), true));
        assert(text::strings(out@) + token_idents(all, k + 1) =~= mid + token_idents(all, k as int));
    }
    assert(text::strings(out@) =~= before + token_idents(all, 0));
}

fn add_part(out: &mut Vec<String>, part: &[char])
    ensures
        text::strings(final(out)@) == text::strings(old(out)@) + part_idents(part@),
{
    let ghost before = text::strings(out@);
    let p = trimmed(part);
    let n: usize = p.len();
    let b: usize = index_of_char(p, '{', 0);
    let last = last_index_of_char(p, '}');
    if b < n && last.is_some() {
        let e: usize = last.unwrap();
        if e > b {
            let fields = top_level(&p[b + 1..e]);
            let ghost all = text::views(fields@);
            for k in 0..fields.len()
                invariant
                    all == text::views(fields@),
                    text::strings(out@) + field_idents(all, k as int) == before + field_idents(all, 0),
            {
                let ghost mid = text::strings(out@);
                assert(all[k as int] == fields@[k as int]@);
                add_field(out, fields[k]);
                assert(text::strings(out@) + field_idents(all, k + 1) =~= mid + field_idents(all, k as int));
            }
            assert(text::strings(out@) =~= before + field_idents(all, 0));
        } else {
            assert(text::strings(out@) =~= before + Seq::<Seq<char>>::empty());
        }
    } else {
        add_ident(out, leading_ident(p, true));
    }
}

/// The identifiers of a parameter list.
pub fn js_idents(inner: &[char]) -> (r: Vec<String>)
    ensures
        text::strings(r@) == list_idents(taint::top_level_parts(inner@), 0),
{
    let parts = top_level(inner);
    let ghost all = text::views(parts@);
    let mut out: Vec<String> = Vec::new();
    assert(text::strings(out@) + list_idents(all, 0) =~= list_idents(all, 0));
    for k in 0..parts.len()
        invariant
            all == text::views(parts@),
            text::strings(out@) + list_idents(all, k as int) == list_idents(all, 0),
    {
        let ghost mid = text::strings(out@);
        assert(all[k as int] == parts@[k as int]@);
        add_part(&mut out, parts[k]);
        assert(text::strings(out@) + list_idents(all, k + 1) =~= mid + list_idents(all, k as int));
    }
    assert(text::strings(out@) =~= list_idents(all, 0));
    out
}

fn code_of(t: &[char]) -> (r: Vec<char>)
    ensures
        r@ == code(t@),
        r@.len() == t@.len(),
{
    mask(t, Language::Script)
}

/// The least nested function of a text: where it shows, and whether that is outside all brackets.
fn find_function(t: &[char]) -> (r: Option<(usize, bool)>)
    ensures
        match r {
            Some(p) => function_at(t@) == Some(p.0 as int) && p.0 < t@.len() && p.1 == is_function(t@)
                && shows_function(t@, p.0 as int),
            None => function_at(t@) is None,
        },
{
    let n: usize = t.len();
    let sign = chars_of("=>");
    let mut depth: i128 = 0;
    let mut best: Option<usize> = None;
    let mut least: i128 = 0;
    for i in 0..n
        invariant
            n == t@.len(),
            sign@ == "=>"@,
            depth == taint::depth_at(t@, i as int),
            -(i as int) <= depth <= i,
            match best {
                Some(b) => function_before(t@, i as int) == Some(b as int) && b < n && shows_function(t@, b as int)
                    && least == taint::depth_at(t@, b as int),
                None => function_before(t@, i as int) is None,
            },
    {
        if (best.is_none() || depth < least) && (occurs(t, &sign, i) || list_opens(t, i)) {
            best = Some(i);
            least = depth;
        }
        let c: char = t[i];
        if c == '(' || c == '[' || c == '{' {
            depth = depth + 1;
        } else if c == ')' || c == ']' || c == '}' {
            depth = depth - 1;
        }
    }
    match best {
        Some(b) => Some((b, least == 0)),
        None => None,
    }
}

fn list_opens(t: &[char], i: usize) -> (r: bool)
    requires
        i < t@.len(),
    ensures
        r == opens_list(t@, i as int),
{
    let n: usize = t.len();
    if t[i] != '(' {
        return false;
    }
    let before = &t[0..i];
    assert(before@ =~= t@.take(i as int));
    let word = trailing_ident(trimmed_end(before), true);
    let close: usize = match closing_paren(t, i + 1) {
        Some(c) => c,
        None => {
            return false;
        },
    };
    let after = &t[close + 1..n];
    assert(after@ =~= t@.skip(close + 1));
    let rest = trimmed_start(after);
    let head = before_ident(before, word.len());
    if is_text(word, "function") || is_text(trailing_ident(head, true), "function") {
        return true;
    }
    if starts_with_str(rest, "{") && !is_listed_in(word, &CONTROL_WORDS) {
        return true;
    }
    starts_with_str(rest, ":") && word.len() > 0 && (ends_with_str(head, "{") || ends_with_str(head, ","))
}

fn join_types(t: &[char]) -> (r: Vec<char>)
    ensures
        r@ == joined_types(t@),
{
    let n: usize = t.len();
    let mut out: Vec<char> = Vec::new();
    let mut depth: i128 = 0;
    let mut open: i128 = -1;
    for i in 0..n
        invariant
            n == t@.len(),
            out@.len() == i,
            depth == taint::depth_at(t@, i as int),
            -(i as int) <= depth <= i,
            open == type_depth(t@, i as int),
            -1 <= open <= i,
            forall|j: int| 0 <= j < i ==> #[trigger] out@[j] == joined_types(t@)[j],
    {
        let c: char = t[i];
        if c == ',' && open > 0 {
            out.push(' ');
        } else {
            out.push(c);
        }
        let rest = &t[i + 1..n];
        assert(rest@ =~= t@.skip(i + 1));
        if c == ')' && depth == 1 && starts_with_str(trimmed_start(rest), ":") {
            open = 0;
        } else if open >= 0 && depth == 0 {
            if c == '<' {
                open = open + 1;
            } else if c == '>' && i >= 1 && t[i - 1] == '=' {
                open = -1;
            } else if c == '>' && open > 0 {
                open = open - 1;
            } else if c == ',' && open == 0 {
                open = -1;
            }
        }
        if c == '(' || c == '[' || c == '{' {
            depth = depth + 1;
        } else if c == ')' || c == ']' || c == '}' {
            depth = depth - 1;
        }
    }
    assert(out@ =~= joined_types(t@));
    out
}

fn handler_part(m: &[char]) -> (r: Option<Vec<char>>)
    ensures
        match r {
            Some(t) => handler_text(m@) == Some(t@),
            None => handler_text(m@) is None,
        },
{
    let n: usize = m.len();
    if !starts_with_any_of(m, &TOOL_MARKERS) {
        return Some(copied(m));
    }
    proof {
        text::lemma_find_char(m@, '(', 0);
        lemma_marker_has_paren(m@);
    }
    let open: usize = index_of_char(m, '(', 0);
    let close: usize = match closing_paren(m, open + 1) {
        Some(e) => e,
        None => n,
    };
    let args = join_types(&m[open + 1..close]);
    let parts = top_level(&args);
    let ghost all = text::views(parts@);
    assert(all == call_args(m@));
    let count: usize = parts.len();
    let mut k: usize = count;
    while k > 0
        invariant
            all == text::views(parts@),
            count == parts@.len(),
            k <= count,
            text::starts_with_any(m@, TOOL_MARKERS@),
            all == call_args(m@),
            last_function(all, all.len() as int) == last_function(all, k as int),
        decreases k,
    {
        let part = parts[k - 1];
        assert(all[k - 1] == part@);
        match find_function(part) {
            Some(p) => {
                if p.1 {
                    return Some(copied(part));
                }
            },
            None => {},
        }
        k = k - 1;
    }
    if count == 0 {
        return None;
    }
    let last = parts[count - 1];
    assert(all.last() == last@);
    if find_function(last).is_some() {
        Some(copied(last))
    } else {
        None
    }
}

fn copied(t: &[char]) -> (r: Vec<char>)
    ensures
        r@ == t@,
{
    let mut out: Vec<char> = Vec::new();
    append(&mut out, t);
    assert(out@ =~= t@);
    out
}

proof fn lemma_marker_has_paren(m: Seq<char>)
    requires
        text::starts_with_any(m, TOOL_MARKERS@),
    ensures
        text::find_char(m, '(', 0) < m.len(),
{
    let k = choose|k: int| 0 <= k < TOOL_MARKERS@.len() && text::starts_with(m, (#[trigger] TOOL_MARKERS@[k])@);
    reveal_strlit(".tool(");
    reveal_strlit(".registerTool(");
    reveal_strlit(".addTool(");
    reveal_strlit("server.tool(");
    let marker = TOOL_MARKERS@[k]@;
    assert(k == 0 || k == 1 || k == 2 || k == 3);
    let at = marker.len() - 1;
    assert(marker[at] == '(');
    assert(m.subrange(0, marker.len() as int)[at] == '(');
    assert(m[at] == '(');
    text::lemma_find_char(m, '(', 0);
}

fn value_opens(head: &[char]) -> (r: bool)
    ensures
        r == opens_value(head@),
{
    let n: usize = head.len();
    if n == 0 {
        return true;
    }
    let last: char = head[n - 1];
    if last == ':' {
        let key = &head[0..n - 1];
        assert(key@ =~= head@.drop_last());
        !ends_with_str(trimmed_end(key), ")")
    } else {
        last == '(' || last == ',' || last == '='
    }
}

fn before_ident<'a>(before: &'a [char], len: usize) -> (r: &'a [char])
    requires
        len == bare_ident(before@).len(),
    ensures
        r@ == bare_head(before@),
{
    let b = trimmed_end(before);
    let n: usize = b.len();
    proof {
        text::lemma_ident_start(b@, b@.len() as int, true);
    }
    let left = &b[0..n - len];
    assert(left@ =~= b@.take(n - len));
    let head = trimmed_end(left);
    let word = chars_of("async");
    if ends_with_str(head, "async") {
        let rest = &head[0..head.len() - word.len()];
        assert(rest@ =~= head@.take(head@.len() - word@.len()));
        trimmed_end(rest)
    } else {
        head
    }
}

fn listed_params(before: &[char]) -> (r: Vec<String>)
    ensures
        text::strings(r@) == listed_idents(before@),
{
    let mut out: Vec<String> = Vec::new();
    assert(text::strings(out@) =~= Seq::<Seq<char>>::empty());
    match last_index_of_char(before, ')') {
        None => {
            let id = trailing_ident(trimmed_end(before), true);
            add_ident(&mut out, id);
            assert(text::strings(out@) =~= if_any(id@));
            out
        },
        Some(close) => match opening_paren(before, close) {
            Some(open) => js_idents(&before[open + 1..close]),
            None => out,
        },
    }
}

fn arrow_params(before: &[char]) -> (r: Vec<String>)
    ensures
        text::strings(r@) == arrow_idents(before@),
{
    let id = trailing_ident(trimmed_end(before), true);
    if id.len() > 0 && value_opens(before_ident(before, id.len())) {
        let mut out: Vec<String> = Vec::new();
        assert(text::strings(out@) =~= Seq::<Seq<char>>::empty());
        add_ident(&mut out, id);
        assert(text::strings(out@) =~= if_any(id@));
        out
    } else {
        listed_params(before)
    }
}

/// The parameters of the handler in a region: `({ a, b })`, `(args)` or `x`.
pub fn handler_params(region: &[char]) -> (r: Vec<String>)
    ensures
        text::strings(r@) == handler_idents(region@),
{
    let none: Vec<String> = Vec::new();
    assert(text::strings(none@) =~= Seq::<Seq<char>>::empty());
    let m = code_of(region);
    match handler_part(&m) {
        Some(text) => match find_function(&text) {
            Some(p) => {
                let at: usize = p.0;
                if text[at] == '(' {
                    match closing_paren(&text, at + 1) {
                        Some(close) => js_idents(&text[at + 1..close]),
                        None => none,
                    }
                } else {
                    let before = &text[0..at];
                    assert(before@ =~= text@.take(at as int));
                    arrow_params(before)
                }
            },
            None => none,
        },
        None => match find_str(&m, "=>", 0) {
            Some(at) => {
                let before = &m[0..at];
                assert(before@ =~= m@.take(at as int));
                listed_params(before)
            },
            None => none,
        },
    }
}

// --- leaked credentials ----------------------------------------------------

/// `line` builds a string from parts.
pub open spec fn builds_string(line: Seq<char>) -> bool {
    text::has_marker(line, STRING_BUILDERS@)
}

pub fn sql_builds_string(line: &[char]) -> (r: bool)
    ensures
        r == builds_string(line@),
{
    has_marker_in(line, &STRING_BUILDERS)
}

/// What an assignment writes to, without the declaring keyword.
pub open spec fn target(lhs: Seq<char>) -> Seq<char> {
    text::trim(text::strip_prefix(text::strip_prefix(text::strip_prefix(text::trim(lhs), "const "@), "let "@), "var "@))
}

/// The variable that `line` assigns: the identifier before the first `=`, which must not be `==`
/// nor `=>`, where what stands before it is no property and no element.
pub open spec fn assigned(line: Seq<char>) -> Option<Seq<char>> {
    let eq = text::find_char(line, '=', 0);
    let lhs = target(line.take(eq));
    if eq >= line.len() || (eq + 1 < line.len() && (line[eq + 1] == '=' || line[eq + 1] == '>')) || lhs.contains('.')
        || lhs.contains('[') || text::ident_prefix(lhs, true).len() == 0 {
        None
    } else {
        Some(text::ident_prefix(lhs, true))
    }
}

pub fn js_assigned_var(line: &[char]) -> (r: Option<String>)
    ensures
        match r {
            Some(v) => assigned(line@) == Some(v@),
            None => assigned(line@) is None,
        },
{
    let n: usize = line.len();
    let eq: usize = index_of_char(line, '=', 0);
    if eq >= n {
        return None;
    }
    if eq + 1 < n && (line[eq + 1] == '=' || line[eq + 1] == '>') {
        return None;
    }
    let head = &line[0..eq];
    assert(head@ =~= line@.take(eq as int));
    let lhs = trimmed(
        stripped_prefix(stripped_prefix(stripped_prefix(trimmed(head), "const "), "let "), "var "),
    );
    if contains_char(lhs, '.') || contains_char(lhs, '[') {
        return None;
    }
    let name = leading_ident(lhs, true);
    if name.len() == 0 {
        None
    } else {
        Some(string_of(name))
    }
}

/// `line` reads a secret: a secret environment variable, or a credential file.
pub open spec fn reads_secret(line: Seq<char>) -> bool {
    text::contains(line, "process.env"@) && taint::secretish(line) || text::has_marker(line, CREDENTIAL_FILES@)
}

/// Line `k` assigns a secret to the variable `v`.
pub open spec fn binds_secret(ls: Seq<Seq<char>>, k: int, v: Seq<char>) -> bool {
    0 <= k < ls.len() && reads_secret(ls[k]) && assigned(ls[k]) == Some(v)
}

/// The variable `v` is assigned a secret somewhere in the file.
pub open spec fn holds_secret(ls: Seq<Seq<char>>, v: Seq<char>) -> bool {
    exists|k: int| binds_secret(ls, k, v)
}

/// Line `i` sends a variable that holds a secret to a known exfiltration host.
pub open spec fn leaks(ls: Seq<Seq<char>>, i: int) -> bool {
    &&& text::has_marker(ls[i], EGRESS@)
    &&& text::has_marker(ls[i], EXFIL_HOSTS@)
    &&& exists|v: Seq<char>| #[trigger] holds_secret(ls, v) && text::has_word(ls[i], v, true)
}

/// The first line at `i` or later that leaks a secret.
pub open spec fn first_leak(ls: Seq<Seq<char>>, i: int) -> Option<int>
    decreases ls.len() - i,
{
    if i < 0 || i >= ls.len() {
        None
    } else if leaks(ls, i) {
        Some(i)
    } else {
        first_leak(ls, i + 1)
    }
}

/// The line, counted from 1, of the first flow of a secret to a known exfiltration host.
pub open spec fn leak_line(content: Seq<char>) -> Option<u32> {
    match first_leak(text::lines(content), 0) {
        Some(i) => Some(text::line_number(i)),
        None => None,
    }
}

/// The variables of a file that hold secrets.
fn secret_vars(lines: &Vec<&[char]>) -> (r: Vec<String>)
    ensures
        forall|v: Seq<char>| holds_secret(text::views(lines@), v) <==> #[trigger] text::strings(r@).contains(v),
{
    let ghost ls = text::views(lines@);
    let mut vars: Vec<String> = Vec::new();
    for k in 0..lines.len()
        invariant
            ls == text::views(lines@),
            forall|i: int, v: Seq<char>|
                i < k && #[trigger] binds_secret(ls, i, v) ==> text::strings(vars@).contains(v),
            forall|q: int| 0 <= q < vars@.len() ==> holds_secret(ls, #[trigger] text::strings(vars@)[q]),
    {
        let line = lines[k];
        assert(ls[k as int] == line@);
        if (contains_str(line, "process.env") && is_secretish(line)) || has_marker_in(line, &CREDENTIAL_FILES) {
            match js_assigned_var(line) {
                Some(v) => {
                    let ghost before = text::strings(vars@);
                    vars.push(v);
                    assert(text::strings(vars@) =~= before.push(v@));
                    assert(text::strings(vars@)[before.len() as int] == v@);
                    assert(binds_secret(ls, k as int, v@));
                    assert forall|i: int, w: Seq<char>|
                        i < k + 1 && #[trigger] binds_secret(ls, i, w) implies text::strings(vars@).contains(w) by {
                        if i < k {
                            let q = choose|q: int| 0 <= q < before.len() && before[q] == w;
                            assert(text::strings(vars@)[q] == w);
                        }
                    }
                    assert forall|q: int| 0 <= q < vars@.len() implies holds_secret(
                        ls,
                        #[trigger] text::strings(vars@)[q],
                    ) by {
                        if q < before.len() {
                            assert(text::strings(vars@)[q] == before[q]);
                        }
                    }
                },
                None => {},
            }
        }
    }
    assert forall|v: Seq<char>| holds_secret(ls, v) <==> #[trigger] text::strings(vars@).contains(v) by {
        if text::strings(vars@).contains(v) {
            let q = choose|q: int| 0 <= q < text::strings(vars@).len() && text::strings(vars@)[q] == v;
            assert(holds_secret(ls, text::strings(vars@)[q]));
        }
    }
    vars
}

/// Find the first flow of a secret to a known exfiltration host in a file.
pub fn secret_exfil(lines: &Vec<&[char]>) -> (r: Option<u32>)
    ensures
        match first_leak(text::views(lines@), 0) {
            Some(i) => r == Some(text::line_number(i)),
            None => r is None,
        },
{
    let ghost ls = text::views(lines@);
    let n: usize = lines.len();
    let vars = secret_vars(lines);
    let mut i: usize = 0;
    while i < n
        invariant
            ls == text::views(lines@),
            n == lines@.len(),
            i <= n,
            first_leak(ls, 0) == first_leak(ls, i as int),
            forall|v: Seq<char>| holds_secret(ls, v) <==> #[trigger] text::strings(vars@).contains(v),
        decreases n - i,
    {
        let line = lines[i];
        assert(ls[i as int] == line@);
        let hit: bool = has_any_word_in(line, &vars, true);
        proof {
            let vs = text::strings(vars@);
            if hit {
                let q = choose|q: int| 0 <= q < vs.len() && text::has_word(line@, #[trigger] vs[q], true);
                assert(vs.contains(vs[q]));
                assert(holds_secret(ls, vs[q]));
            } else {
                assert forall|v: Seq<char>| #[trigger] holds_secret(ls, v) implies !text::has_word(line@, v, true) by {
                    assert(vs.contains(v));
                }
            }
        }
        if hit && has_marker_in(line, &EGRESS) && has_marker_in(line, &EXFIL_HOSTS) {
            return Some(number_of_line(i));
        }
        i = i + 1;
    }
    None
}

// --- tools declared as data ------------------------------------------------

/// How far after a key its value is looked for, in bytes.
pub const VALUE_WINDOW: usize = 96;

/// How far around a name an indicator is looked for, in bytes.
pub const NEIGHBORHOOD: usize = 400;

/// How long a name may be, in bytes.
pub const NAME_LIMIT: usize = 64;

/// The key at `pos` is no part of a longer identifier.
pub open spec fn is_fresh(s: Seq<char>, pos: int) -> bool {
    pos == 0 || !text::is_ident_char(s[pos - 1], true)
}

/// The string value of a key that ends at `start`: not empty and not too long.
pub open spec fn value_at(s: Seq<char>, start: int) -> Option<Seq<char>> {
    match text::forward(s, start, VALUE_WINDOW as int) {
        None => None,
        Some(e) => match quoted_start(s.subrange(start, e)) {
            Some(v) => if v.len() > 0 && text::byte_len(v) <= NAME_LIMIT {
                Some(v)
            } else {
                None
            },
            None => None,
        },
    }
}

/// An indicator stands in the neighborhood of `pos`.
pub open spec fn has_indicator(s: Seq<char>, pos: int) -> bool {
    match (text::backward(s, pos, NEIGHBORHOOD as int), text::forward(s, pos, NEIGHBORHOOD as int)) {
        (Some(a), Some(b)) => text::has_marker(s.subrange(a, b), INDICATORS@),
        _ => false,
    }
}

/// The name that a key of length `len` at `pos` gives to a tool.
pub open spec fn name_at(s: Seq<char>, pos: int, len: int) -> Option<Seq<char>> {
    if is_fresh(s, pos) && has_indicator(s, pos) {
        value_at(s, pos + len)
    } else {
        None
    }
}

/// No window that is read around a key of length `len` at `pos` ends inside a character.
pub open spec fn windows_fit(s: Seq<char>, pos: int, len: int) -> bool {
    is_fresh(s, pos) ==> {
        &&& text::forward(s, pos + len, VALUE_WINDOW as int) is Some
        &&& value_at(s, pos + len) is Some ==> text::backward(s, pos, NEIGHBORHOOD as int) is Some && text::forward(
            s,
            pos,
            NEIGHBORHOOD as int,
        ) is Some
    }
}

/// No window that is read around a key at `i` or later ends inside a character.
pub open spec fn windows_fit_from(s: Seq<char>, key: Seq<char>, i: int) -> bool {
    forall|j: int| i <= j && #[trigger] text::occurs_at(s, key, j) ==> windows_fit(s, j, key.len() as int)
}

/// The windows that are read around the keys of a file end between characters. [`analyze`] can
/// read such a file.
pub open spec fn readable(s: Seq<char>) -> bool {
    forall|k: int| 0 <= k < NAME_KEYS@.len() ==> windows_fit_from(s, (#[trigger] NAME_KEYS@[k])@, 0)
}

/// The names that the keys at `i` or later give.
pub open spec fn names_from(s: Seq<char>, key: Seq<char>, i: int) -> Seq<Seq<char>>
    decreases s.len() - i,
{
    if i < 0 || i >= s.len() {
        Seq::empty()
    } else {
        match name_at(s, i, key.len() as int) {
            Some(v) => if text::occurs_at(s, key, i) {
                seq![v] + names_from(s, key, i + 1)
            } else {
                names_from(s, key, i + 1)
            },
            None => names_from(s, key, i + 1),
        }
    }
}

/// The names of the tools that a file declares as data, key by key.
pub open spec fn data_names(s: Seq<char>) -> Seq<Seq<char>> {
    names_from(s, NAME_KEYS@[0]@, 0) + names_from(s, NAME_KEYS@[1]@, 0) + names_from(s, NAME_KEYS@[2]@, 0)
}

fn fits_at(t: &[char], pos: usize, len: usize) -> (r: bool)
    requires
        pos + len <= t@.len(),
    ensures
        r == windows_fit(t@, pos as int, len as int),
{
    if pos > 0 && ident_char(t[pos - 1], true) {
        return true;
    }
    let start: usize = pos + len;
    let end: usize = match step_forward(t, start, VALUE_WINDOW) {
        Some(e) => e,
        None => {
            return false;
        },
    };
    match quoted_value(&t[start..end]) {
        Some(v) => {
            if v.len() == 0 || !fits_in_bytes(v, NAME_LIMIT) {
                return true;
            }
            step_backward(t, pos, NEIGHBORHOOD).is_some() && step_forward(t, pos, NEIGHBORHOOD).is_some()
        },
        None => true,
    }
}

/// Whether [`analyze`] can read a file.
pub fn is_readable(content: &str) -> (r: bool)
    ensures
        r == readable(content@),
{
    let t = chars_of(content);
    let n: usize = t.len();
    for k in 0..NAME_KEYS.len()
        invariant
            t@ == content@,
            n == t@.len(),
            forall|j: int| 0 <= j < k ==> windows_fit_from(t@, (#[trigger] NAME_KEYS@[j])@, 0),
    {
        let key = chars_of(NAME_KEYS[k]);
        let mut i: usize = 0;
        while i < n
            invariant
                t@ == content@,
                n == t@.len(),
                i <= n,
                key@ == NAME_KEYS@[k as int]@,
                0 <= k < NAME_KEYS@.len(),
                forall|j: int|
                    0 <= j < i && #[trigger] text::occurs_at(t@, key@, j) ==> windows_fit(t@, j, key@.len() as int),
            decreases n - i,
        {
            if occurs(&t, &key, i) && !fits_at(&t, i, key.len()) {
                assert(!windows_fit_from(t@, NAME_KEYS@[k as int]@, 0));
                return false;
            }
            i = i + 1;
        }
        assert(key@.len() > 0) by {
            reveal_strlit("name:");
            reveal_strlit("name =");
            reveal_strlit("name=");
        }
        assert(windows_fit_from(t@, NAME_KEYS@[k as int]@, 0));
    }
    true
}

fn name_for_key(t: &[char], pos: usize, len: usize) -> (r: Option<String>)
    requires
        pos + len <= t@.len(),
        windows_fit(t@, pos as int, len as int),
    ensures
        match r {
            Some(v) => name_at(t@, pos as int, len as int) == Some(v@),
            None => name_at(t@, pos as int, len as int) is None,
        },
{
    if pos > 0 && ident_char(t[pos - 1], true) {
        return None;
    }
    let start: usize = pos + len;
    let end: usize = match step_forward(t, start, VALUE_WINDOW) {
        Some(e) => e,
        None => {
            return None;
        },
    };
    let name = match quoted_value(&t[start..end]) {
        Some(v) => v,
        None => {
            return None;
        },
    };
    if name.len() == 0 || !fits_in_bytes(name, NAME_LIMIT) {
        return None;
    }
    match (step_backward(t, pos, NEIGHBORHOOD), step_forward(t, pos, NEIGHBORHOOD)) {
        (Some(a), Some(b)) => {
            if has_marker_in(&t[a..b], &INDICATORS) {
                Some(string_of(name))
            } else {
                None
            }
        },
        _ => None,
    }
}

fn add_names(out: &mut Vec<String>, t: &[char], key: &[char])
    requires
        windows_fit_from(t@, key@, 0),
    ensures
        text::strings(final(out)@) == text::strings(old(out)@) + names_from(t@, key@, 0),
{
    let n: usize = t.len();
    let ghost before = text::strings(out@);
    let mut i: usize = 0;
    while i < n
        invariant
            n == t@.len(),
            i <= n,
            windows_fit_from(t@, key@, 0),
            text::strings(out@) + names_from(t@, key@, i as int) == before + names_from(t@, key@, 0),
        decreases n - i,
    {
        let ghost mid = text::strings(out@);
        if occurs(t, key, i) {
            match name_for_key(t, i, key.len()) {
                Some(v) => {
                    out.push(v);
                    assert(text::strings(out@) =~= mid.push(v@));
                },
                None => {},
            }
        }
        assert(text::strings(out@) + names_from(t@, key@, i + 1) =~= mid + names_from(t@, key@, i as int));
        i = i + 1;
    }
    assert(text::strings(out@) =~= before + names_from(t@, key@, 0));
}

/// The names of the tools that a file declares as data: `{ name: "x", inputSchema, handler }`, or
/// `name = "x"` in a class. The value is a string literal, `name` is a whole word, and an indicator
/// of a tool stands nearby.
pub fn extra_tool_names(t: &[char]) -> (r: Vec<String>)
    requires
        readable(t@),
    ensures
        text::strings(r@) == data_names(t@),
{
    let mut out: Vec<String> = Vec::new();
    assert(text::strings(out@) =~= Seq::<Seq<char>>::empty());
    let k0 = chars_of(NAME_KEYS[0]);
    let k1 = chars_of(NAME_KEYS[1]);
    let k2 = chars_of(NAME_KEYS[2]);
    assert(windows_fit_from(t@, NAME_KEYS@[0]@, 0) && windows_fit_from(t@, NAME_KEYS@[1]@, 0)
        && windows_fit_from(t@, NAME_KEYS@[2]@, 0));
    add_names(&mut out, t, &k0);
    add_names(&mut out, t, &k1);
    add_names(&mut out, t, &k2);
    assert(text::strings(out@) =~= data_names(t@));
    out
}

// --- entry point -----------------------------------------------------------

/// Line `j` of a region names one of the parameters.
pub open spec fn is_tainted(ls: Seq<Seq<char>>, params: Seq<Seq<char>>, j: int) -> bool {
    taint::has_any_word(ls[j], params, true)
}

/// `line` runs a query that is built from parts.
pub open spec fn is_sql_line(line: Seq<char>) -> bool {
    text::has_marker(line, SQL@) && builds_string(line)
}

/// The facts of the tool that is registered in a region.
pub open spec fn region_tool(region: Seq<char>, name: Seq<char>, line: u32) -> ToolFacts {
    let ls = text::lines(region);
    let params = handler_idents(region);
    ToolFacts {
        name,
        params,
        shell: exists|j: int| 0 <= j < ls.len() && #[trigger] is_tainted(ls, params, j) && text::has_marker(ls[j], SHELL@),
        ssrf: !taint::some_line_has(ls, URL_GUARD@) && exists|j: int|
            0 <= j < ls.len() && #[trigger] is_tainted(ls, params, j) && text::has_marker(ls[j], SSRF@),
        fs: !taint::some_line_has(ls, PATH_GUARD@) && exists|j: int|
            0 <= j < ls.len() && #[trigger] is_tainted(ls, params, j) && text::has_marker(ls[j], FS@),
        sql: exists|j: int| 0 <= j < ls.len() && #[trigger] is_tainted(ls, params, j) && is_sql_line(ls[j]),
        redos: exists|j: int| 0 <= j < ls.len() && #[trigger] is_tainted(ls, params, j) && text::has_marker(ls[j], REDOS@),
        desc_hidden_unicode: taint::has_zero_width(region),
        line,
        ..taint::clean_tool(name, params)
    }
}

/// The tool of the registration `k`; none where its region holds no name.
pub open spec fn registered(s: Seq<char>, ps: Seq<int>, k: int) -> Option<ToolFacts> {
    let region = s.subrange(ps[k], taint::region_end(s, ps, k));
    match quoted_first(region) {
        Some(name) => if name.len() > 0 {
            Some(region_tool(region, name, text::line_number(taint::newlines(s, ps[k]))))
        } else {
            None
        },
        None => None,
    }
}

/// The tools of the first `n` registrations.
pub open spec fn registered_tools(s: Seq<char>, ps: Seq<int>, n: int) -> Seq<ToolFacts>
    decreases n,
{
    if n <= 0 || n > ps.len() {
        Seq::empty()
    } else {
        match registered(s, ps, n - 1) {
            Some(t) => registered_tools(s, ps, n - 1).push(t),
            None => registered_tools(s, ps, n - 1),
        }
    }
}

/// `tools`, and after them a tool without facts for each of the first `n` names that is new.
pub open spec fn with_names(tools: Seq<ToolFacts>, names: Seq<Seq<char>>, n: int) -> Seq<ToolFacts>
    decreases n,
{
    if n <= 0 || n > names.len() {
        tools
    } else {
        let before = with_names(tools, names, n - 1);
        if taint::has_tool(before, names[n - 1]) {
            before
        } else {
            before.push(taint::clean_tool(names[n - 1], Seq::empty()))
        }
    }
}

/// The tools of a file: the registered ones, then those that are declared as data.
pub open spec fn file_tools(s: Seq<char>) -> Seq<ToolFacts> {
    let ps = taint::positions(s, TOOL_MARKERS@, 0);
    let names = data_names(s);
    with_names(registered_tools(s, ps, ps.len() as int), names, names.len() as int)
}

/// What a file says. The place of a leak names no file.
pub open spec fn file_analysis(s: Seq<char>) -> AnalysisFacts {
    AnalysisFacts {
        tools: file_tools(s),
        secret_source_to_egress: leak_line(s) is Some,
        secret_egress: match leak_line(s) {
            Some(l) => Some((Seq::empty(), l)),
            None => None,
        },
    }
}

fn scan_region(region: &[char], name: String, line: u32) -> (r: ToolTaint)
    ensures
        r@ == region_tool(region@, name@, line),
{
    let ls = lines_of(region);
    let ghost all = text::views(ls@);
    let params = handler_params(region);
    let ghost ps = text::strings(params@);
    let mut shell: bool = false;
    let mut ssrf: bool = false;
    let mut fs: bool = false;
    let mut sql: bool = false;
    let mut redos: bool = false;
    for j in 0..ls.len()
        invariant
            all == text::views(ls@),
            ps == text::strings(params@),
            shell == exists|i: int| 0 <= i < j && #[trigger] is_tainted(all, ps, i) && text::has_marker(all[i], SHELL@),
            ssrf == exists|i: int| 0 <= i < j && #[trigger] is_tainted(all, ps, i) && text::has_marker(all[i], SSRF@),
            fs == exists|i: int| 0 <= i < j && #[trigger] is_tainted(all, ps, i) && text::has_marker(all[i], FS@),
            sql == exists|i: int| 0 <= i < j && #[trigger] is_tainted(all, ps, i) && is_sql_line(all[i]),
            redos == exists|i: int| 0 <= i < j && #[trigger] is_tainted(all, ps, i) && text::has_marker(all[i], REDOS@),
    {
        let line = ls[j];
        assert(all[j as int] == line@);
        let tainted: bool = has_any_word_in(line, &params, true);
        assert(tainted == is_tainted(all, ps, j as int));
        if tainted {
            if has_marker_in(line, &SHELL) {
                shell = true;
            }
            if has_marker_in(line, &SSRF) {
                ssrf = true;
            }
            if has_marker_in(line, &FS) {
                fs = true;
            }
            if has_marker_in(line, &SQL) && sql_builds_string(line) {
                sql = true;
            }
            if has_marker_in(line, &REDOS) {
                redos = true;
            }
        }
    }
    let mut t = ToolTaint::new(name, params);
    t.shell = shell;
    t.ssrf = ssrf && !any_line_has(&ls, &URL_GUARD);
    t.fs = fs && !any_line_has(&ls, &PATH_GUARD);
    t.sql = sql;
    t.redos = redos;
    t.desc_hidden_unicode = has_zero_width_in(region);
    t.line = line;
    t
}

fn scan_registrations(t: &[char]) -> (r: Vec<ToolTaint>)
    ensures
        ({
            let ps = taint::positions(t@, TOOL_MARKERS@, 0);
            taint::tool_facts(r@) == registered_tools(t@, ps, ps.len() as int)
        }),
{
    let n: usize = t.len();
    let at = marker_positions(t, &TOOL_MARKERS);
    let ghost ps = taint::ints(at@);
    proof {
        taint::lemma_positions(t@, TOOL_MARKERS@, 0);
    }
    let mut tools: Vec<ToolTaint> = Vec::new();
    assert(taint::tool_facts(tools@) =~= registered_tools(t@, ps, 0));
    for k in 0..at.len()
        invariant
            n == t@.len(),
            ps == taint::ints(at@),
            forall|i: int| 0 <= i < ps.len() ==> 0 <= #[trigger] ps[i] < n,
            forall|i: int, j: int| 0 <= i < j < ps.len() ==> #[trigger] ps[i] < #[trigger] ps[j],
            taint::tool_facts(tools@) == registered_tools(t@, ps, k as int),
    {
        let ghost before = taint::tool_facts(tools@);
        let start: usize = at[k];
        assert(ps[k as int] == start);
        let end: usize = if k + 1 < at.len() {
            assert(ps[k + 1] == at@[k + 1]);
            at[k + 1]
        } else {
            n
        };
        let region = &t[start..end];
        assert(region@ == t@.subrange(ps[k as int], taint::region_end(t@, ps, k as int)));
        match first_quoted(region) {
            Some(name) => {
                let nc = chars_of(name.as_str());
                if nc.len() > 0 {
                    let tool = scan_region(region, name, number_of_line(count_newlines(t, start)));
                    tools.push(tool);
                    assert(taint::tool_facts(tools@) =~= before.push(tool@));
                }
            },
            None => {},
        }
        assert(taint::tool_facts(tools@) =~= registered_tools(t@, ps, k + 1));
    }
    tools
}

/// Analyze one file.
pub fn analyze(content: &str) -> (r: Analysis)
    requires
        readable(content@),
    ensures
        r@ == file_analysis(content@),
{
    let text = chars_of(content);
    let mut tools = scan_registrations(&text);
    let ghost base = taint::tool_facts(tools@);
    let mut extra = extra_tool_names(&text);
    let ghost names = text::strings(extra@);
    for k in 0..extra.len()
        invariant
            names == text::strings(extra@),
            taint::tool_facts(tools@) == with_names(base, names, k as int),
    {
        let ghost before = taint::tool_facts(tools@);
        assert(names[k as int] == extra@[k as int]@);
        if !knows_tool(&tools, extra[k].as_str()) {
            let tool = ToolTaint::new(extra[k].clone(), Vec::new());
            assert(tool@.params =~= Seq::<Seq<char>>::empty());
            tools.push(tool);
            assert(taint::tool_facts(tools@) =~= before.push(taint::clean_tool(names[k as int], Seq::empty())));
        }
    }
    let ls = lines_of(&text);
    let leak = secret_exfil(&ls);
    let place = match leak {
        Some(l) => Some((String::new(), l)),
        None => None,
    };
    let r = Analysis { tools, secret_source_to_egress: leak.is_some(), secret_egress: place };
    assert(r@.tools =~= file_analysis(content@).tools);
    assert(r@ == file_analysis(content@));
    r
}

// --- laws ------------------------------------------------------------------

proof fn lemma_registered_located(s: Seq<char>, ps: Seq<int>, n: int)
    requires
        s.len() < 0xffff_ffff,
    ensures
        forall|k: int| 0 <= k < registered_tools(s, ps, n).len() ==> (#[trigger] registered_tools(s, ps, n)[k]).line > 0,
    decreases n,
{
    if 0 < n <= ps.len() {
        lemma_registered_located(s, ps, n - 1);
        taint::lemma_newlines(s, ps[n - 1]);
        let before = registered_tools(s, ps, n - 1);
        let now = registered_tools(s, ps, n);
        assert forall|k: int| 0 <= k < now.len() implies (#[trigger] now[k]).line > 0 by {
            if k < before.len() {
                assert(now[k] == before[k]);
            }
        }
    }
}

proof fn lemma_names_located(tools: Seq<ToolFacts>, names: Seq<Seq<char>>, n: int)
    requires
        forall|k: int| 0 <= k < tools.len() ==> taint::is_located(#[trigger] tools[k]),
    ensures
        forall|k: int| 0 <= k < with_names(tools, names, n).len() ==> taint::is_located(#[trigger] with_names(tools, names, n)[k]),
    decreases n,
{
    if 0 < n <= names.len() {
        lemma_names_located(tools, names, n - 1);
        let before = with_names(tools, names, n - 1);
        let now = with_names(tools, names, n);
        assert forall|k: int| 0 <= k < now.len() implies taint::is_located(#[trigger] now[k]) by {
            if k < before.len() {
                assert(now[k] == before[k]);
            }
        }
    }
}

/// The tools of a file that carry facts have lines.
pub proof fn lemma_tools_located(s: Seq<char>)
    requires
        s.len() < 0xffff_ffff,
    ensures
        forall|k: int| 0 <= k < file_tools(s).len() ==> taint::is_located(#[trigger] file_tools(s)[k]),
{
    let ps = taint::positions(s, TOOL_MARKERS@, 0);
    let names = data_names(s);
    lemma_registered_located(s, ps, ps.len() as int);
    lemma_names_located(registered_tools(s, ps, ps.len() as int), names, names.len() as int);
}

/// A tool whose own region checks where a URL leads is not reported for requests, and one whose own
/// region keeps paths under a root is not reported for files.
pub proof fn law_guards_suppress(region: Seq<char>, name: Seq<char>, line: u32)
    ensures
        taint::some_line_has(text::lines(region), URL_GUARD@) ==> !region_tool(region, name, line).ssrf,
        taint::some_line_has(text::lines(region), PATH_GUARD@) ==> !region_tool(region, name, line).fs,
{
}

proof fn lemma_no_host(ls: Seq<Seq<char>>, i: int)
    requires
        0 <= i,
        !taint::some_line_has(ls, EXFIL_HOSTS@),
    ensures
        first_leak(ls, i) is None,
    decreases ls.len() - i,
{
    if i < ls.len() {
        assert(!text::has_marker(ls[i], EXFIL_HOSTS@));
        lemma_no_host(ls, i + 1);
    }
}

/// A secret that goes anywhere but to a known exfiltration host is no leak.
pub proof fn law_secrets_leak_to_known_hosts_only(content: Seq<char>)
    requires
        !taint::some_line_has(text::lines(content), EXFIL_HOSTS@),
    ensures
        leak_line(content) is None,
{
    lemma_no_host(text::lines(content), 0);
}

/// A tool that is known by its name alone carries no fact that a rule could report.
pub proof fn law_named_tools_carry_no_facts(name: Seq<char>)
    ensures
        ({
            let t = taint::clean_tool(name, Seq::empty());
            !t.ssrf && !t.fs && !t.shell && !t.sql && !t.deser && !t.unbounded_limit && !t.redos
                && !t.desc_hidden_unicode
        }),
{
}

} // verus!
