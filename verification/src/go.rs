//! Source-flow analysis of Go tools, in the two ways that they are registered.
//!
//! - `mcp.Tool{ Name: "x", InputSchema: ... }` with a handler beside it that reads its arguments
//!   by `owner, err := RequiredParam[string](args, "owner")`: the taint sources are the locals that
//!   are assigned from such a getter.
//! - `MustTool("name", "desc", handler, ...)`, where `handler` takes a typed struct: the taint
//!   sources are the fields `args.Field`.
//!
//! A sink line must name a taint source, and a validation in the body suppresses the report. The
//! calls of an API client, and requests to a fixed base, are not reported.
use crate::literal;
use crate::literal::{Language, mask};
use crate::taint;
use crate::taint::{
    Analysis, AnalysisFacts, ToolFacts, ToolTaint, any_line_has, count_newlines, has_any_word_in,
    has_zero_width_in, knows_tool, marker_positions,
};
use crate::text;
use crate::text::{
    append, append_str, chars_of, contains_str, find_in, find_str, fits_in_bytes, has_marker_in,
    index_of_any, index_of_char, is_listed_in, is_text, leading_ident, lines_of, number_of_line,
    starts_with_str, string_of, trailing_ident, trimmed, trimmed_end, trimmed_start,
};
use vstd::prelude::*;

verus! {

/// The two ways to register a tool.
pub const TOOL_MARKERS: [&'static str; 2] = ["mcp.Tool{", "MustTool("];

/// Functions that read an argument of the request into a local.
pub const ARG_GETTERS: [&'static str; 11] = [
    "RequiredParam",
    "OptionalParam",
    "RequiredInt",
    "OptionalInt",
    "RequiredBigInt",
    "OptionalBigInt",
    "OptionalStringArrayParam",
    "OptionalNumberParam",
    "RequiredStringArrayParam",
    "OptionalBooleanParam",
    "OptionalPaginationParams",
];

/// What a getter reads from: the arguments or the request.
pub const ARG_SOURCES: [&'static str; 4] = ["args", "(request", "(req,", "Arguments"];

/// Raw outbound requests. The calls of an API client are left out.
pub const SSRF: [&'static str; 4] = ["http.Get(", "http.Post(", "http.Head(", "http.NewRequest("];

pub const SHELL: [&'static str; 2] = ["exec.Command(", "exec.CommandContext("];

pub const FS: [&'static str; 6] = [
    "os.ReadFile(",
    "os.Open(",
    "os.OpenFile(",
    "os.WriteFile(",
    "os.Create(",
    "ioutil.ReadFile(",
];

pub const SQL: [&'static str; 5] = [".Query(", ".QueryContext(", ".Exec(", ".ExecContext(", ".QueryRow("];

/// Spellings of a string that is built from parts.
pub const STRING_BUILDERS: [&'static str; 2] = [" + ", "fmt.Sprintf"];

/// Signs that a body checks where a URL leads.
pub const URL_GUARD: [&'static str; 11] = [
    "ValidateGrafanaURL",
    "validateURL",
    "validate_url",
    "allowlist",
    "allow_list",
    "IsPrivate",
    "ParseIP",
    "isAllowedHost",
    "checkURL",
    "url.Parse",
    "net.ParseIP",
];

/// Signs that a URL is built on a trusted base, so that its destination is fixed.
pub const BASE_JOIN: [&'static str; 6] = ["baseURL", "baseUrl", "base_url", ".base", "BaseURL", "c.url"];

/// Signs that a body keeps paths under a root.
pub const PATH_GUARD: [&'static str; 6] = [
    "filepath.Clean",
    "filepath.Rel(",
    "filepath.IsLocal",
    "SecureJoin",
    "strings.Contains",
    "\"..\"",
];

/// Type words that a brace of their own follows.
pub const BRACED_TYPES: [&'static str; 2] = ["interface", "struct"];

/// How long a tool name may be, in bytes.
pub const NAME_LIMIT: usize = 80;

/// How long a parameter name may be, in bytes.
pub const PROP_LIMIT: usize = 64;

// --- names and parameters --------------------------------------------------

/// The first string literal at or after `from`, where it is neither empty nor too long.
pub open spec fn literal_from(s: Seq<char>, from: int) -> Option<Seq<char>> {
    let q = text::find_one_of(s, "\"`"@, from);
    let end = text::find_char(s, s[q], q + 1);
    let v = s.subrange(q + 1, end);
    if q >= s.len() || end >= s.len() || v.len() == 0 || text::byte_len(v) > NAME_LIMIT {
        None
    } else {
        Some(v)
    }
}

pub fn quoted_after(t: &[char], from: usize) -> (r: Option<String>)
    requires
        from <= t@.len(),
    ensures
        match r {
            Some(v) => literal_from(t@, from as int) == Some(v@),
            None => literal_from(t@, from as int) is None,
        },
{
    let n: usize = t.len();
    let quotes = chars_of("\"`");
    let q: usize = index_of_any(t, &quotes, from);
    if q >= n {
        return None;
    }
    let end: usize = index_of_char(t, t[q], q + 1);
    if end >= n {
        return None;
    }
    let v = &t[q + 1..end];
    if v.len() == 0 || !fits_in_bytes(v, NAME_LIMIT) {
        None
    } else {
        Some(string_of(v))
    }
}

/// Go source with the contents of its literals and comments blanked.
pub open spec fn code(s: Seq<char>) -> Seq<char> {
    literal::masked(s, Language::Go)
}

fn code_of(t: &[char]) -> (r: Vec<char>)
    ensures
        r@ == code(t@),
        r@.len() == t@.len(),
{
    mask(t, Language::Go)
}

/// The first literal after `Name:`.
pub open spec fn name_field(region: Seq<char>) -> Option<Seq<char>> {
    match text::find(region, "Name:"@, 0) {
        Some(i) => literal_from(region, i + "Name:"@.len()),
        None => None,
    }
}

pub fn struct_name(region: &[char]) -> (r: Option<String>)
    ensures
        match r {
            Some(v) => name_field(region@) == Some(v@),
            None => name_field(region@) is None,
        },
{
    let n: usize = region.len();
    let key = chars_of("Name:");
    match find_in(region, &key, 0) {
        Some(i) => quoted_after(region, i + key.len()),
        None => None,
    }
}

/// The position of the brace that closes `depth` open ones, searched from `i` on; the length of `s`
/// where it is not closed.
pub open spec fn brace_end(s: Seq<char>, i: int, depth: int) -> int
    decreases s.len() - i,
{
    if i < 0 || i >= s.len() {
        s.len() as int
    } else if s[i] == '{' {
        brace_end(s, i + 1, depth + 1)
    } else if s[i] == '}' {
        if depth == 1 {
            i
        } else {
            brace_end(s, i + 1, depth - 1)
        }
    } else {
        brace_end(s, i + 1, depth)
    }
}

fn closing_brace(t: &[char], open: usize) -> (r: usize)
    requires
        open < t@.len(),
        t@[open as int] == '{',
    ensures
        r == brace_end(t@, open as int, 0),
        open < r <= t@.len(),
{
    let n: usize = t.len();
    let mut depth: i128 = 1;
    let mut i: usize = open + 1;
    while i < n
        invariant
            n == t@.len(),
            open < i <= n,
            1 <= depth <= i - open,
            brace_end(t@, open as int, 0) == brace_end(t@, i as int, depth as int),
        decreases n - i,
    {
        if t[i] == '{' {
            depth = depth + 1;
        } else if t[i] == '}' {
            if depth == 1 {
                return i;
            }
            depth = depth - 1;
        }
        i = i + 1;
    }
    n
}

/// The identifier before position `i` is a type word that a brace of its own follows.
pub open spec fn after_type_word(m: Seq<char>, i: int) -> bool {
    text::is_listed(text::ident_suffix(text::trim_end(m.take(i)), true), BRACED_TYPES@)
}

/// The brace at `i` or later that opens a body or a composite value. The braces of types such as
/// `interface{}` do not count.
pub open spec fn value_brace(m: Seq<char>, i: int) -> Option<int>
    decreases m.len() - i,
{
    if i < 0 || i >= m.len() {
        None
    } else if m[i] != '{' {
        value_brace(m, i + 1)
    } else if !after_type_word(m, i) {
        Some(i)
    } else if i < brace_end(m, i, 0) < m.len() {
        value_brace(m, brace_end(m, i, 0) + 1)
    } else {
        None
    }
}

fn opening_brace(m: &[char], from: usize) -> (r: Option<usize>)
    requires
        from <= m@.len(),
    ensures
        match r {
            Some(i) => value_brace(m@, from as int) == Some(i as int) && i < m@.len() && m@[i as int] == '{',
            None => value_brace(m@, from as int) is None,
        },
{
    let n: usize = m.len();
    let mut i: usize = from;
    while i < n
        invariant
            n == m@.len(),
            from <= i <= n,
            value_brace(m@, from as int) == value_brace(m@, i as int),
        decreases n - i,
    {
        if m[i] != '{' {
            i = i + 1;
        } else {
            let head = &m[0..i];
            assert(head@ =~= m@.take(i as int));
            if !is_listed_in(trailing_ident(trimmed_end(head), true), &BRACED_TYPES) {
                return Some(i);
            }
            let e: usize = closing_brace(m, i);
            if e >= n {
                return None;
            }
            i = e + 1;
        }
    }
    None
}

/// The quoted string from `i` to `end` is a key: a colon follows it, and it is neither empty nor
/// too long.
pub open spec fn is_key(s: Seq<char>, i: int, end: int) -> bool {
    let key = s.subrange(i + 1, end);
    &&& text::starts_with(text::trim_start(s.skip(end + 1)), ":"@)
    &&& key.len() > 0
    &&& text::byte_len(key) <= PROP_LIMIT
}

/// The quoted keys of `s` from `i` to before `to` that stand directly in the block, where `depth`
/// brackets are open. `m` is the text with its literals blanked.
pub open spec fn keys_from(s: Seq<char>, m: Seq<char>, i: int, to: int, depth: int) -> Seq<Seq<char>>
    decreases to - i,
{
    if i < 0 || i >= to || to > m.len() {
        Seq::empty()
    } else if m[i] == '"' && text::find_char(m, '"', i + 1) < to {
        proof {
            text::lemma_find_char(m, '"', i + 1);
        }
        let end = text::find_char(m, '"', i + 1);
        if depth == 0 && is_key(s, i, end) {
            seq![s.subrange(i + 1, end)] + keys_from(s, m, end + 1, to, depth)
        } else {
            keys_from(s, m, end + 1, to, depth)
        }
    } else {
        keys_from(s, m, i + 1, to, depth + taint::bracket(m[i]))
    }
}

/// The declared parameter names: the keys that stand directly in the block after `Properties:`. The
/// braces of the type of that block, such as `interface{}`, do not count.
pub open spec fn declared_props(region: Seq<char>) -> Seq<Seq<char>> {
    let m = code(region);
    match text::find(m, "Properties:"@, 0) {
        Some(p) => match value_brace(m, p) {
            Some(open) => keys_from(region, m, open + 1, brace_end(m, open, 0), 0),
            None => Seq::empty(),
        },
        None => Seq::empty(),
    }
}

pub fn schema_props(region: &[char]) -> (r: Vec<String>)
    ensures
        text::strings(r@) == declared_props(region@),
{
    let n: usize = region.len();
    let m = code_of(region);
    let mut out: Vec<String> = Vec::new();
    assert(text::strings(out@) =~= Seq::<Seq<char>>::empty());
    let p: usize = match find_str(&m, "Properties:", 0) {
        Some(p) => p,
        None => {
            return out;
        },
    };
    let open: usize = match opening_brace(&m, p) {
        Some(i) => i,
        None => {
            return out;
        },
    };
    let to: usize = closing_brace(&m, open);
    let mut i: usize = open + 1;
    let mut depth: i128 = 0;
    let ghost whole = declared_props(region@);
    assert(text::strings(out@) + keys_from(region@, m@, i as int, to as int, 0) =~= whole);
    while i < to
        invariant
            n == region@.len(),
            m@.len() == n,
            open < i <= to <= n,
            -(i - open) <= depth <= i - open,
            text::strings(out@) + keys_from(region@, m@, i as int, to as int, depth as int) == whole,
        decreases to - i,
    {
        let ghost before = text::strings(out@);
        let ghost at = i as int;
        let ghost d = depth as int;
        let end: usize = index_of_char(&m, '"', i + 1);
        if m[i] == '"' && end < to {
            let key = &region[i + 1..end];
            let rest = &region[end + 1..n];
            assert(rest@ =~= region@.skip(end + 1));
            if depth == 0 && starts_with_str(trimmed_start(rest), ":") && key.len() > 0 && fits_in_bytes(
                key,
                PROP_LIMIT,
            ) {
                out.push(string_of(key));
                assert(text::strings(out@) =~= before.push(key@));
            }
            i = end + 1;
        } else {
            let c: char = m[i];
            if c == '(' || c == '[' || c == '{' {
                depth = depth + 1;
            } else if c == ')' || c == ']' || c == '}' {
                depth = depth - 1;
            }
            i = i + 1;
        }
        assert(text::strings(out@) + keys_from(region@, m@, i as int, to as int, depth as int) =~= before + keys_from(
            region@,
            m@,
            at,
            to as int,
            d,
        ));
    }
    assert(text::strings(out@) =~= whole);
    out
}

/// The local that `line` assigns from a getter of an argument.
pub open spec fn getter_local(line: Seq<char>) -> Option<Seq<char>> {
    let l = text::trim(line);
    match text::find(l, ":="@, 0) {
        None => None,
        Some(i) => {
            let id = text::ident_prefix(text::trim_start(l.take(i)), true);
            if text::has_marker(l, ARG_GETTERS@) && text::has_marker(l, ARG_SOURCES@) && id.len() > 0 && id != "_"@ && id
                != "err"@ {
                Some(id)
            } else {
                None
            }
        },
    }
}

/// The locals that the first `n` lines assign from getters.
pub open spec fn getter_locals(ls: Seq<Seq<char>>, n: int) -> Seq<Seq<char>>
    decreases n,
{
    if n <= 0 || n > ls.len() {
        Seq::empty()
    } else {
        match getter_local(ls[n - 1]) {
            Some(id) => getter_locals(ls, n - 1).push(id),
            None => getter_locals(ls, n - 1),
        }
    }
}

fn local_of(line: &[char]) -> (r: Option<String>)
    ensures
        match r {
            Some(v) => getter_local(line@) == Some(v@),
            None => getter_local(line@) is None,
        },
{
    let l = trimmed(line);
    let i: usize = match find_str(l, ":=", 0) {
        Some(i) => i,
        None => {
            return None;
        },
    };
    if !has_marker_in(l, &ARG_GETTERS) || !has_marker_in(l, &ARG_SOURCES) {
        return None;
    }
    let lhs = &l[0..i];
    assert(lhs@ =~= l@.take(i as int));
    let id = leading_ident(trimmed_start(lhs), true);
    if id.len() > 0 && !is_text(id, "_") && !is_text(id, "err") {
        Some(string_of(id))
    } else {
        None
    }
}

/// The locals of a region that are assigned from getters of arguments.
pub fn tainted_locals(region: &[char]) -> (r: Vec<String>)
    ensures
        text::strings(r@) == getter_locals(text::lines(region@), text::lines(region@).len() as int),
{
    let ls = lines_of(region);
    let ghost all = text::views(ls@);
    let mut out: Vec<String> = Vec::new();
    assert(text::strings(out@) =~= getter_locals(all, 0));
    for k in 0..ls.len()
        invariant
            all == text::views(ls@),
            text::strings(out@) == getter_locals(all, k as int),
    {
        let ghost before = text::strings(out@);
        assert(all[k as int] == ls@[k as int]@);
        match local_of(ls[k]) {
            Some(v) => {
                out.push(v);
                assert(text::strings(out@) =~= before.push(v@));
            },
            None => {},
        }
    }
    out
}

// --- handlers --------------------------------------------------------------

/// Where the argument of a call that begins at `i`, with `depth` brackets open, ends: at a comma
/// or at the parenthesis that closes the call; none where the text ends first.
pub open spec fn arg_end(s: Seq<char>, i: int, depth: int) -> Option<int>
    decreases s.len() - i,
{
    if i < 0 || i >= s.len() {
        None
    } else if s[i] == '(' || s[i] == '[' || s[i] == '{' {
        arg_end(s, i + 1, depth + 1)
    } else if depth > 0 && (s[i] == ')' || s[i] == ']' || s[i] == '}') {
        arg_end(s, i + 1, depth - 1)
    } else if depth == 0 && (s[i] == ')' || s[i] == ',') {
        Some(i)
    } else {
        arg_end(s, i + 1, depth)
    }
}

/// The argument that stands `skip` arguments after the one that begins at `i`.
pub open spec fn call_arg(s: Seq<char>, i: int, skip: int) -> Option<Seq<char>>
    decreases skip,
{
    match arg_end(s, i, 0) {
        None => None,
        Some(e) => if skip <= 0 {
            Some(s.subrange(i, e))
        } else if s[e] == ',' {
            call_arg(s, e + 1, skip - 1)
        } else {
            None
        },
    }
}

/// The handler of `MustTool("name", "desc", handler, ...)`: the identifier of its third argument.
/// What stands in a literal or a comment does not count.
pub open spec fn third_arg(region: Seq<char>) -> Option<Seq<char>> {
    let m = code(region);
    let open = text::find_char(m, '(', 0);
    if open >= m.len() {
        None
    } else {
        match call_arg(m, open + 1, 2) {
            None => None,
            Some(arg) => if text::ident_prefix(text::trim(arg), true).len() == 0 {
                None
            } else {
                Some(text::ident_prefix(text::trim(arg), true))
            },
        }
    }
}

fn end_of_arg(t: &[char], from: usize) -> (r: Option<usize>)
    requires
        from <= t@.len(),
    ensures
        match r {
            Some(e) => arg_end(t@, from as int, 0) == Some(e as int) && from <= e < t@.len(),
            None => arg_end(t@, from as int, 0) is None,
        },
{
    let n: usize = t.len();
    let mut depth: u128 = 0;
    let mut i: usize = from;
    while i < n
        invariant
            n == t@.len(),
            from <= i <= n,
            depth <= i - from,
            arg_end(t@, from as int, 0) == arg_end(t@, i as int, depth as int),
        decreases n - i,
    {
        let c: char = t[i];
        if c == '(' || c == '[' || c == '{' {
            depth = depth + 1;
        } else if depth > 0 && (c == ')' || c == ']' || c == '}') {
            depth = depth - 1;
        } else if depth == 0 && (c == ')' || c == ',') {
            return Some(i);
        }
        i = i + 1;
    }
    None
}

pub fn must_tool_handler(region: &[char]) -> (r: Option<String>)
    ensures
        match r {
            Some(v) => third_arg(region@) == Some(v@),
            None => third_arg(region@) is None,
        },
{
    reveal_with_fuel(call_arg, 4);
    let n: usize = region.len();
    let m = code_of(region);
    let open: usize = index_of_char(&m, '(', 0);
    if open >= n {
        return None;
    }
    let mut start: usize = open + 1;
    let mut skip: usize = 2;
    while skip > 0
        invariant
            n == m@.len(),
            m@ == code(region@),
            start <= n,
            skip <= 2,
            call_arg(m@, open + 1, 2) == call_arg(m@, start as int, skip as int),
            open == text::find_char(m@, '(', 0),
            open < n,
        decreases skip,
    {
        match end_of_arg(&m, start) {
            Some(e) => {
                if m[e] != ',' {
                    return None;
                }
                start = e + 1;
                skip = skip - 1;
            },
            None => {
                return None;
            },
        }
    }
    match end_of_arg(&m, start) {
        Some(e) => {
            let sym = leading_ident(trimmed(&m[start..e]), true);
            if sym.len() == 0 {
                None
            } else {
                Some(string_of(sym))
            }
        },
        None => None,
    }
}

/// The body of `func name(...) {...}`, with its braces, up to the brace that balances the first.
pub open spec fn body_of(content: Seq<char>, name: Seq<char>) -> Option<Seq<char>> {
    let m = code(content);
    let sig = "func "@ + name;
    match text::find(m, sig + "("@, 0) {
        None => None,
        Some(start) => match value_brace(m, start + sig.len()) {
            None => None,
            Some(open) => {
                let close = brace_end(m, open, 0);
                Some(
                    content.subrange(
                        open,
                        if close < m.len() {
                            close + 1
                        } else {
                            close
                        },
                    ),
                )
            },
        },
    }
}

pub fn func_body<'a>(content: &'a [char], name: &[char]) -> (r: Option<&'a [char]>)
    ensures
        match r {
            Some(b) => body_of(content@, name@) == Some(b@),
            None => body_of(content@, name@) is None,
        },
{
    let n: usize = content.len();
    let m = code_of(content);
    let mut pat = chars_of("func ");
    append(&mut pat, name);
    let k: usize = pat.len();
    append_str(&mut pat, "(");
    match find_in(&m, &pat, 0) {
        Some(start) => match opening_brace(&m, start + k) {
            Some(open) => {
                let close: usize = closing_brace(&m, open);
                if close < n {
                    Some(&content[open..close + 1])
                } else {
                    Some(&content[open..n])
                }
            },
            None => None,
        },
        None => None,
    }
}

// --- sinks -----------------------------------------------------------------

/// `line` names a taint source: one of the locals, or a field of the arguments.
pub open spec fn is_tainted(line: Seq<char>, locals: Seq<Seq<char>>, fields: bool) -> bool {
    fields && text::contains(line, "args."@) || taint::has_any_word(line, locals, true)
}

/// `line` sends a raw request to a destination that is not fixed.
pub open spec fn is_request(line: Seq<char>) -> bool {
    text::has_marker(line, SSRF@) && !text::has_marker(line, BASE_JOIN@)
}

/// `line` runs a query that is built from parts.
pub open spec fn is_sql_line(line: Seq<char>) -> bool {
    text::has_marker(line, SQL@) && text::has_marker(line, STRING_BUILDERS@)
}

/// `t` with the flags set that the sinks of a body call for.
pub open spec fn with_sinks(t: ToolFacts, body: Seq<char>, locals: Seq<Seq<char>>, fields: bool) -> ToolFacts {
    let ls = text::lines(body);
    ToolFacts {
        ssrf: t.ssrf || (!taint::some_line_has(ls, URL_GUARD@) && exists|j: int|
            0 <= j < ls.len() && #[trigger] is_tainted(ls[j], locals, fields) && is_request(ls[j])),
        shell: t.shell || exists|j: int|
            0 <= j < ls.len() && #[trigger] is_tainted(ls[j], locals, fields) && text::has_marker(ls[j], SHELL@),
        fs: t.fs || (!taint::some_line_has(ls, PATH_GUARD@) && exists|j: int|
            0 <= j < ls.len() && #[trigger] is_tainted(ls[j], locals, fields) && text::has_marker(ls[j], FS@)),
        sql: t.sql || exists|j: int|
            0 <= j < ls.len() && #[trigger] is_tainted(ls[j], locals, fields) && is_sql_line(ls[j]),
        ..t
    }
}

/// Set the flags of a tool that the sinks of a body call for.
pub fn scan_sinks(t: &mut ToolTaint, body: &[char], locals: &Vec<String>, fields: bool)
    ensures
        final(t)@ == with_sinks(old(t)@, body@, text::strings(locals@), fields),
{
    let ls = lines_of(body);
    let ghost all = text::views(ls@);
    let ghost names = text::strings(locals@);
    let mut ssrf: bool = false;
    let mut shell: bool = false;
    let mut fs: bool = false;
    let mut sql: bool = false;
    for j in 0..ls.len()
        invariant
            all == text::views(ls@),
            names == text::strings(locals@),
            ssrf == exists|i: int| 0 <= i < j && #[trigger] is_tainted(all[i], names, fields) && is_request(all[i]),
            shell == exists|i: int|
                0 <= i < j && #[trigger] is_tainted(all[i], names, fields) && text::has_marker(all[i], SHELL@),
            fs == exists|i: int|
                0 <= i < j && #[trigger] is_tainted(all[i], names, fields) && text::has_marker(all[i], FS@),
            sql == exists|i: int| 0 <= i < j && #[trigger] is_tainted(all[i], names, fields) && is_sql_line(all[i]),
    {
        let line = ls[j];
        assert(all[j as int] == line@);
        let tainted: bool = (fields && contains_str(line, "args.")) || has_any_word_in(line, locals, true);
        assert(tainted == is_tainted(all[j as int], names, fields));
        if tainted {
            if has_marker_in(line, &SSRF) && !has_marker_in(line, &BASE_JOIN) {
                ssrf = true;
            }
            if has_marker_in(line, &SHELL) {
                shell = true;
            }
            if has_marker_in(line, &FS) {
                fs = true;
            }
            if has_marker_in(line, &SQL) && has_marker_in(line, &STRING_BUILDERS) {
                sql = true;
            }
        }
    }
    t.ssrf = t.ssrf || (ssrf && !any_line_has(&ls, &URL_GUARD));
    t.shell = t.shell || shell;
    t.fs = t.fs || (fs && !any_line_has(&ls, &PATH_GUARD));
    t.sql = t.sql || sql;
}

// --- entry point -----------------------------------------------------------

/// The region holds a call of `MustTool`.
pub open spec fn is_must(region: Seq<char>) -> bool {
    text::starts_with(region, "MustTool("@)
}

/// The name of the tool that is registered in the region from `start` to `end`.
pub open spec fn name_of(s: Seq<char>, start: int, end: int) -> Option<Seq<char>> {
    let region = s.subrange(start, end);
    if is_must(region) {
        literal_from(region, "MustTool("@.len() as int)
    } else {
        name_field(region)
    }
}

/// The facts of the tool that is registered in the region from `start` to `end`.
pub open spec fn tool_of(s: Seq<char>, start: int, end: int, name: Seq<char>) -> ToolFacts {
    let region = s.subrange(start, end);
    let t = ToolFacts {
        line: text::line_number(taint::newlines(s, start)),
        desc_hidden_unicode: taint::has_zero_width(region),
        ..taint::clean_tool(name, Seq::empty())
    };
    if is_must(region) {
        match third_arg(region) {
            None => t,
            Some(h) => match body_of(s, h) {
                None => t,
                Some(body) => with_sinks(t, body, Seq::empty(), true),
            },
        }
    } else {
        let ls = text::lines(region);
        with_sinks(
            ToolFacts { params: declared_props(region), ..t },
            region,
            getter_locals(ls, ls.len() as int),
            false,
        )
    }
}

/// The tools of the first `n` registrations; of those with the same name, the first.
pub open spec fn registered_tools(s: Seq<char>, ps: Seq<int>, n: int) -> Seq<ToolFacts>
    decreases n,
{
    if n <= 0 || n > ps.len() {
        Seq::empty()
    } else {
        let before = registered_tools(s, ps, n - 1);
        let end = taint::region_end(s, ps, n - 1);
        match name_of(s, ps[n - 1], end) {
            Some(name) => if taint::has_tool(before, name) {
                before
            } else {
                before.push(tool_of(s, ps[n - 1], end, name))
            },
            None => before,
        }
    }
}

/// What a file says. Leaks are not looked for.
pub open spec fn file_analysis(s: Seq<char>) -> AnalysisFacts {
    let ps = taint::positions(s, TOOL_MARKERS@, 0);
    AnalysisFacts {
        tools: registered_tools(s, ps, ps.len() as int),
        secret_source_to_egress: false,
        secret_egress: None,
    }
}

fn scan_registration(t: &[char], start: usize, end: usize, name: String) -> (r: ToolTaint)
    requires
        start <= end <= t@.len(),
    ensures
        r@ == tool_of(t@, start as int, end as int, name@),
{
    let region = &t[start..end];
    let none: Vec<String> = Vec::new();
    assert(text::strings(none@) =~= Seq::<Seq<char>>::empty());
    let mut tool = ToolTaint::new(name, Vec::new());
    assert(tool@.params =~= Seq::<Seq<char>>::empty());
    tool.line = number_of_line(count_newlines(t, start));
    tool.desc_hidden_unicode = has_zero_width_in(region);
    if starts_with_str(region, "MustTool(") {
        match must_tool_handler(region) {
            Some(sym) => {
                let h = chars_of(sym.as_str());
                match func_body(t, &h) {
                    Some(body) => {
                        scan_sinks(&mut tool, body, &none, true);
                    },
                    None => {},
                }
            },
            None => {},
        }
    } else {
        tool.params = schema_props(region);
        let locals = tainted_locals(region);
        scan_sinks(&mut tool, region, &locals, false);
    }
    tool
}

/// Analyze one file.
pub fn analyze(content: &str) -> (r: Analysis)
    ensures
        r@ == file_analysis(content@),
{
    let t = chars_of(content);
    let n: usize = t.len();
    let at = marker_positions(&t, &TOOL_MARKERS);
    let ghost ps = taint::ints(at@);
    proof {
        taint::lemma_positions(t@, TOOL_MARKERS@, 0);
    }
    let must = chars_of("MustTool(");
    let mut tools: Vec<ToolTaint> = Vec::new();
    assert(taint::tool_facts(tools@) =~= registered_tools(t@, ps, 0));
    for k in 0..at.len()
        invariant
            n == t@.len(),
            ps == taint::ints(at@),
            must@ == "MustTool("@,
            forall|i: int| 0 <= i < ps.len() ==> 0 <= #[trigger] ps[i] < n,
            forall|i: int, j: int| 0 <= i < j < ps.len() ==> #[trigger] ps[i] < #[trigger] ps[j],
            taint::tool_facts(tools@) == registered_tools(t@, ps, k as int),
    {
        let ghost before = taint::tool_facts(tools@);
        let start: usize = at[k];
        assert(ps[k as int] == start);
        let end: usize = if k + 1 < at.len() {
            assert(ps[k + 1] == at@[k + 1]);
            at[k + 1]
        } else {
            n
        };
        let region = &t[start..end];
        let found: Option<String> = if starts_with_str(region, "MustTool(") {
            quoted_after(region, must.len())
        } else {
            struct_name(region)
        };
        match found {
            Some(name) => {
                if !knows_tool(&tools, name.as_str()) {
                    let tool = scan_registration(&t, start, end, name);
                    tools.push(tool);
                    assert(taint::tool_facts(tools@) =~= before.push(tool@));
                }
            },
            None => {},
        }
        assert(taint::tool_facts(tools@) =~= registered_tools(t@, ps, k + 1));
    }
    let r = Analysis { tools, secret_source_to_egress: false, secret_egress: None };
    assert(r@.tools =~= file_analysis(content@).tools);
    r
}

// --- laws ------------------------------------------------------------------

/// A body that checks where a URL leads adds no report for requests, and one that keeps paths under
/// a root adds none for files.
pub proof fn law_guards_suppress(t: ToolFacts, body: Seq<char>, locals: Seq<Seq<char>>, fields: bool)
    ensures
        taint::some_line_has(text::lines(body), URL_GUARD@) ==> with_sinks(t, body, locals, fields).ssrf == t.ssrf,
        taint::some_line_has(text::lines(body), PATH_GUARD@) ==> with_sinks(t, body, locals, fields).fs == t.fs,
{
}

} // verus!
