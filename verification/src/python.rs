//! Source-flow analysis of Python tools.
//!
//! A tool is a function under a tool decorator, and its taint sources are its parameter names. A
//! line that holds a sink and one of those names taints the tool, be it in the tool's own body or
//! in a helper of the same file that reuses the name; a line in the body of another tool does not.
//! A tool whose own body validates URLs or jails paths is not reported for requests or file access.
//!
//! A leaked credential is reported only where a variable that was read from a secret source goes
//! to a known exfiltration host. A token that is sent to its own service is no leak.
use crate::literal;
use crate::literal::{Language, end_of_comment, end_of_literal, mask};
use crate::taint;
use crate::taint::{
    Analysis, AnalysisFacts, EXFIL_HOSTS, ToolFacts, ToolTaint, closing_paren, has_any_word_in,
    has_zero_width_in, is_secretish, top_level,
};
use crate::text;
use crate::text::{
    append, chars_of, clone_strings, concat, contains_char, contains_in, contains_str,
    has_marker_in, has_word_in, ident_char, index_of_char, is_listed_in, is_text, leading_ident,
    lines_of, number_of_line, space, starts_with_any_of, starts_with_str, string_of,
    stripped_prefix, trimmed, trimmed_start,
};
use vstd::prelude::*;

verus! {

pub const TOOL_DECORATORS: [&'static str; 5] = [
    "@mcp.tool",
    "@app.tool",
    "@server.tool",
    "@tool",
    "@mcp.resource",
];

pub const LIMIT_NAMES: [&'static str; 10] = [
    "limit",
    "max",
    "top",
    "count",
    "size",
    "rows",
    "page_size",
    "offset",
    "length",
    "n",
];

pub const SHELL: [&'static str; 11] = [
    "subprocess.run(",
    "subprocess.call(",
    "subprocess.Popen(",
    "subprocess.check_output(",
    "subprocess.check_call(",
    "os.system(",
    "os.popen(",
    "Popen(",
    "commands.getoutput(",
    "eval(",
    "exec(",
];

pub const SSRF: [&'static str; 15] = [
    "requests.get(",
    "requests.post(",
    "requests.put(",
    "requests.delete(",
    "requests.request(",
    "requests.head(",
    "httpx.get(",
    "httpx.post(",
    "httpx.request(",
    "httpx.stream(",
    "urlopen(",
    "session.get(",
    "session.post(",
    "client.get(",
    "client.post(",
];

pub const FS: [&'static str; 11] = [
    "open(",
    "Path(",
    "os.path.join(",
    ".read_text(",
    ".write_text(",
    "shutil.copy",
    "shutil.move",
    "os.remove(",
    "os.listdir(",
    "glob.glob(",
    "send_file(",
];

pub const SQL: [&'static str; 4] = [".execute(", ".executemany(", ".executescript(", ".raw("];

pub const REDOS: [&'static str; 6] = [
    ".str.contains(",
    "re.search(",
    "re.match(",
    "re.compile(",
    "re.findall(",
    "re.fullmatch(",
];

pub const DESER: [&'static str; 4] = ["pickle.loads(", "pickle.load(", "marshal.loads(", "yaml.load("];

pub const EGRESS: [&'static str; 10] = [
    "requests.post(",
    "requests.get(",
    "requests.put(",
    "httpx.post(",
    "httpx.get(",
    "urlopen(",
    "session.post(",
    ".send(",
    "socket.send",
    "aiohttp",
];

/// Spellings of a string that is built from parts.
pub const STRING_BUILDERS: [&'static str; 8] = [
    "f\"",
    "f'",
    ".format(",
    "% ",
    "\" +",
    "' +",
    "+ \"",
    "+ '",
];

pub const CREDENTIAL_FILES: [&'static str; 5] = [
    ".aws/credentials",
    ".ssh/",
    ".npmrc",
    "id_rsa",
    ".docker/config.json",
];

/// Signs that a tool checks where a URL leads: an allowlist, a private-address block, a validator.
pub const URL_GUARD: [&'static str; 8] = [
    "allowlist",
    "allow_list",
    "allowed_hosts",
    "ALLOWED_HOSTS",
    "is_private",
    "validate_url",
    "is_allowed_host",
    "check_url",
];

/// Signs that a tool keeps paths under a root.
pub const PATH_GUARD: [&'static str; 6] = [
    "validate_relative_path",
    "is_relative_to",
    "relative_to(",
    "commonpath(",
    "\"..\"",
    "'..'",
];

/// Facts about one tool of a module.
#[derive(Debug, PartialEq, Eq)]
pub struct PyTool {
    pub name: String,
    pub params: Vec<String>,
    pub ssrf: bool,
    pub fs: bool,
    pub shell: bool,
    pub sql: bool,
    pub deser: bool,
    pub unbounded_limit: bool,
    pub redos: bool,
    pub desc_hidden_unicode: bool,
}

impl View for PyTool {
    type V = ToolFacts;

    open spec fn view(&self) -> ToolFacts {
        ToolFacts {
            name: self.name@,
            params: text::strings(self.params@),
            ssrf: self.ssrf,
            fs: self.fs,
            shell: self.shell,
            sql: self.sql,
            deser: self.deser,
            unbounded_limit: self.unbounded_limit,
            redos: self.redos,
            desc_hidden_unicode: self.desc_hidden_unicode,
            file: Seq::empty(),
            line: 0,
        }
    }
}

/// The outcome of analyzing one module.
#[derive(Debug, PartialEq, Eq)]
pub struct PyAnalysis {
    pub tools: Vec<PyTool>,
    pub secret_source_to_egress: bool,
}

/// The facts of a list of tools.
pub open spec fn py_tool_facts(v: Seq<PyTool>) -> Seq<ToolFacts> {
    Seq::new(v.len(), |i: int| v[i]@)
}

/// Identifier character of Python.
pub fn is_ident(c: char) -> (r: bool)
    ensures
        r == text::is_ident_char(c, false),
{
    ident_char(c, false)
}

/// `word` stands in `line` as a whole Python identifier.
pub fn word_present(line: &str, word: &str) -> (r: bool)
    ensures
        r == text::has_word(line@, word@, false),
{
    let l = chars_of(line);
    let w = chars_of(word);
    has_word_in(&l, &w, false)
}

// --- signatures ------------------------------------------------------------

/// A line of code with its strings and its comment blanked.
pub open spec fn code(line: Seq<char>) -> Seq<char> {
    literal::masked(line, Language::Python)
}

fn code_of(line: &[char]) -> (r: Vec<char>)
    ensures
        r@ == code(line@),
        r@.len() == line@.len(),
{
    mask(line, Language::Python)
}

/// The name in a `def` signature.
pub open spec fn name_in_sig(sig: Seq<char>) -> Seq<char> {
    text::ident_prefix(text::trim_start(text::strip_prefix(text::strip_prefix(text::trim_start(sig), "async "@), "def "@)), false)
}

pub fn def_name(sig: &[char]) -> (r: String)
    ensures
        r@ == name_in_sig(sig@),
{
    let s = stripped_prefix(stripped_prefix(trimmed_start(sig), "async "), "def ");
    string_of(leading_ident(trimmed_start(s), false))
}

/// The position after the asterisks that stand at `i` and on.
pub open spec fn star_end(s: Seq<char>, i: int) -> int
    decreases s.len() - i,
{
    if 0 <= i < s.len() && s[i] == '*' {
        star_end(s, i + 1)
    } else {
        i
    }
}

/// The identifier of one parameter, without asterisks, annotation and default.
pub open spec fn param_name(part: Seq<char>) -> Seq<char> {
    let p = text::trim(part);
    text::ident_prefix(p.skip(star_end(p, 0)), false)
}

/// A name that is a tool input: not empty and not the receiver of a method.
pub open spec fn is_input_name(name: Seq<char>) -> bool {
    name.len() > 0 && name != "self"@ && name != "cls"@
}

/// The tool inputs among the parameters from index `k` on.
pub open spec fn input_names(parts: Seq<Seq<char>>, k: int) -> Seq<Seq<char>>
    decreases parts.len() - k,
{
    if k < 0 || k >= parts.len() {
        Seq::empty()
    } else if is_input_name(param_name(parts[k])) {
        seq![param_name(parts[k])] + input_names(parts, k + 1)
    } else {
        input_names(parts, k + 1)
    }
}

/// The parameter identifiers of a `def` signature, which may span several lines. What stands in a
/// string or a comment does not count.
pub open spec fn params_in_sig(sig: Seq<char>) -> Seq<Seq<char>> {
    let m = code(sig);
    let open = text::find_char(m, '(', 0);
    match taint::close_paren(m, open + 1, 1) {
        Some(close) => input_names(taint::top_level_parts(m.subrange(open + 1, close)), 0),
        None => Seq::empty(),
    }
}

pub fn name_of_param(part: &[char]) -> (r: String)
    ensures
        r@ == param_name(part@),
{
    let p = trimmed(part);
    let n: usize = p.len();
    let mut i: usize = 0;
    while i < n && p[i] == '*'
        invariant
            n == p@.len(),
            i <= n,
            star_end(p@, 0) == star_end(p@, i as int),
        decreases n - i,
    {
        i = i + 1;
    }
    let rest = &p[i..n];
    assert(rest@ =~= p@.skip(i as int));
    string_of(leading_ident(rest, false))
}

pub fn def_params(sig: &[char]) -> (r: Vec<String>)
    ensures
        text::strings(r@) == params_in_sig(sig@),
{
    let n: usize = sig.len();
    let m = code_of(sig);
    let open: usize = index_of_char(&m, '(', 0);
    let mut out: Vec<String> = Vec::new();
    if open >= n {
        assert(text::strings(out@) =~= Seq::<Seq<char>>::empty());
        return out;
    }
    let close: usize = match closing_paren(&m, open + 1) {
        Some(k) => k,
        None => {
            assert(text::strings(out@) =~= Seq::<Seq<char>>::empty());
            return out;
        },
    };
    let parts = top_level(&m[open + 1..close]);
    let ghost all = text::views(parts@);
    assert(text::strings(out@) + input_names(all, 0) =~= input_names(all, 0));
    for k in 0..parts.len()
        invariant
            all == text::views(parts@),
            text::strings(out@) + input_names(all, k as int) == input_names(all, 0),
    {
        let ghost before = out@;
        let name = name_of_param(parts[k]);
        let nc = chars_of(name.as_str());
        assert(all[k as int] == parts@[k as int]@);
        if nc.len() > 0 && !is_text(&nc, "self") && !is_text(&nc, "cls") {
            out.push(name);
            assert(text::strings(out@) =~= text::strings(before).push(name@));
        }
        assert(text::strings(out@) + input_names(all, k + 1) =~= input_names(all, 0));
    }
    assert(text::strings(out@) =~= input_names(all, 0));
    out
}

// --- tool functions --------------------------------------------------------

/// `line` carries a tool decorator.
pub open spec fn is_decorator(line: Seq<char>) -> bool {
    text::starts_with_any(text::trim_start(line), TOOL_DECORATORS@)
}

/// `line` begins a function.
pub open spec fn is_def_line(line: Seq<char>) -> bool {
    text::starts_with(text::trim_start(line), "def "@) || text::starts_with(text::trim_start(line), "async def "@)
}

/// The first line at `j` or later, before `hi`, that begins a function.
pub open spec fn next_def(ls: Seq<Seq<char>>, j: int, hi: int) -> Option<int>
    decreases hi - j,
{
    if j >= hi {
        None
    } else if is_def_line(ls[j]) {
        Some(j)
    } else {
        next_def(ls, j + 1, hi)
    }
}

pub proof fn lemma_next_def(ls: Seq<Seq<char>>, j: int, hi: int)
    ensures
        next_def(ls, j, hi) matches Some(d) ==> j <= d < hi,
    decreases hi - j,
{
    if j < hi && !is_def_line(ls[j]) {
        lemma_next_def(ls, j + 1, hi);
    }
}

/// Opening less closing parentheses before position `i`.
pub open spec fn paren_depth(s: Seq<char>, i: int) -> int
    decreases i,
{
    if i <= 0 || i > s.len() {
        0
    } else if s[i - 1] == '(' {
        paren_depth(s, i - 1) + 1
    } else if s[i - 1] == ')' {
        paren_depth(s, i - 1) - 1
    } else {
        paren_depth(s, i - 1)
    }
}

/// The line after the signature that begins at `def`, where the lines before `j` have been read:
/// it ends with the line whose code balances its parentheses, and is at most 41 lines long.
pub open spec fn sig_end(ls: Seq<Seq<char>>, def: int, j: int, depth: int, started: bool) -> int
    decreases ls.len() - j,
{
    if j >= ls.len() || j > def + 40 {
        j
    } else {
        let d = depth + paren_depth(code(ls[j]), code(ls[j]).len() as int);
        let s = started || code(ls[j]).contains('(');
        if s && d <= 0 {
            j + 1
        } else {
            sig_end(ls, def, j + 1, d, s)
        }
    }
}

pub proof fn lemma_sig_end(ls: Seq<Seq<char>>, def: int, j: int, depth: int, started: bool)
    requires
        0 <= j <= ls.len(),
    ensures
        j <= sig_end(ls, def, j, depth, started) <= ls.len(),
        j < ls.len() && j <= def + 40 ==> j < sig_end(ls, def, j, depth, started),
    decreases ls.len() - j,
{
    if j < ls.len() && j <= def + 40 {
        let d = depth + paren_depth(code(ls[j]), code(ls[j]).len() as int);
        let s = started || code(ls[j]).contains('(');
        if !(s && d <= 0) {
            lemma_sig_end(ls, def, j + 1, d, s);
        }
    }
}

/// The code of the lines from `a` to before `b`, each followed by a space.
pub open spec fn joined(ls: Seq<Seq<char>>, a: int, b: int) -> Seq<char>
    decreases b - a,
{
    if a >= b {
        Seq::empty()
    } else {
        joined(ls, a, b - 1) + code(ls[b - 1]) + seq![' ']
    }
}

/// A tool function: the lines of its `def` and after its signature, its name and its inputs.
pub struct DefFacts {
    pub at: int,
    pub end: int,
    pub name: Seq<char>,
    pub params: Seq<Seq<char>>,
}

/// The tool function whose `def` stands at line `d`.
pub open spec fn def_at(ls: Seq<Seq<char>>, d: int) -> DefFacts {
    let end = sig_end(ls, d, d, 0, false);
    let sig = joined(ls, d, end);
    DefFacts { at: d, end, name: name_in_sig(sig), params: params_in_sig(sig) }
}

/// The line before which the `def` of a decorator at line `i` must begin.
pub open spec fn window_end(ls: Seq<Seq<char>>, i: int) -> int {
    if i + 6 < ls.len() {
        i + 6
    } else {
        ls.len() as int
    }
}

/// The `def` line that belongs to a decorator at line `i`: one of the five lines after it.
pub open spec fn decorated(ls: Seq<Seq<char>>, i: int) -> Option<int> {
    if is_decorator(ls[i]) {
        next_def(ls, i + 1, window_end(ls, i))
    } else {
        None
    }
}

/// The tool functions whose decorators stand at line `i` or later.
pub open spec fn tool_defs(ls: Seq<Seq<char>>, i: int) -> Seq<DefFacts>
    decreases ls.len() - i,
{
    if i < 0 || i >= ls.len() {
        Seq::empty()
    } else {
        proof {
            lemma_next_def(ls, i + 1, window_end(ls, i));
        }
        match decorated(ls, i) {
            Some(d) => {
                proof {
                    lemma_sig_end(ls, d, d, 0, false);
                }
                seq![def_at(ls, d)] + tool_defs(ls, def_at(ls, d).end)
            },
            None => tool_defs(ls, i + 1),
        }
    }
}

pub struct ToolDef {
    pub at: usize,
    pub end: usize,
    pub name: String,
    pub params: Vec<String>,
}

impl View for ToolDef {
    type V = DefFacts;

    open spec fn view(&self) -> DefFacts {
        DefFacts {
            at: self.at as int,
            end: self.end as int,
            name: self.name@,
            params: text::strings(self.params@),
        }
    }
}

pub open spec fn defs_of(v: Seq<ToolDef>) -> Seq<DefFacts> {
    Seq::new(v.len(), |i: int| v[i]@)
}

fn def_line(line: &[char]) -> (r: bool)
    ensures
        r == is_def_line(line@),
{
    let t = trimmed_start(line);
    starts_with_str(t, "def ") || starts_with_str(t, "async def ")
}

fn find_def(lines: &Vec<&[char]>, from: usize, hi: usize) -> (r: Option<usize>)
    requires
        hi <= lines@.len(),
    ensures
        match r {
            Some(d) => next_def(text::views(lines@), from as int, hi as int) == Some(d as int) && from <= d < hi,
            None => next_def(text::views(lines@), from as int, hi as int) is None,
        },
{
    let mut j: usize = from;
    while j < hi
        invariant
            hi <= lines@.len(),
            from <= j,
            next_def(text::views(lines@), from as int, hi as int) == next_def(text::views(lines@), j as int, hi as int),
        decreases hi - j,
    {
        assert(text::views(lines@)[j as int] == lines@[j as int]@);
        if def_line(lines[j]) {
            return Some(j);
        }
        j = j + 1;
    }
    None
}

fn paren_change(line: &[char]) -> (r: i128)
    ensures
        r == paren_depth(line@, line@.len() as int),
        -(line@.len() as int) <= r <= line@.len(),
{
    let mut depth: i128 = 0;
    for i in 0..line.len()
        invariant
            depth == paren_depth(line@, i as int),
            -(i as int) <= depth <= i,
    {
        if line[i] == '(' {
            depth = depth + 1;
        } else if line[i] == ')' {
            depth = depth - 1;
        }
    }
    depth
}

/// Read the tool function whose `def` stands at line `d`.
fn read_def(lines: &Vec<&[char]>, d: usize) -> (r: ToolDef)
    requires
        d < lines@.len(),
    ensures
        r@ == def_at(text::views(lines@), d as int),
        d < r.end <= lines@.len(),
{
    let ghost ls = text::views(lines@);
    let n: usize = lines.len();
    let mut sig: Vec<char> = Vec::new();
    let mut depth: i128 = 0;
    let mut started: bool = false;
    let mut j: usize = d;
    let mut done: bool = false;
    while !done && j < n && j - d <= 40
        invariant
            ls == text::views(lines@),
            n == lines@.len(),
            d <= j <= n,
            d < n,
            j > d || !done,
            sig@ == joined(ls, d as int, j as int),
            -(j - d) * 0xffff_ffff_ffff_ffff <= depth <= (j - d) * 0xffff_ffff_ffff_ffff,
            !done ==> sig_end(ls, d as int, d as int, 0, false) == sig_end(
                ls,
                d as int,
                j as int,
                depth as int,
                started,
            ),
            done ==> sig_end(ls, d as int, d as int, 0, false) == j,
        decreases n - j + (if done { 0int } else { 1int }),
    {
        assert(ls[j as int] == lines@[j as int]@);
        let line = code_of(lines[j]);
        let len: usize = line.len();
        let change: i128 = paren_change(&line);
        depth = depth + change;
        if contains_char(&line, '(') {
            started = true;
        }
        for c in 0..line.len()
            invariant
                sig@ == joined(ls, d as int, j as int) + line@.take(c as int),
        {
            sig.push(line[c]);
        }
        sig.push(' ');
        assert(sig@ =~= joined(ls, d as int, j + 1));
        j = j + 1;
        if started && depth <= 0 {
            done = true;
        }
    }
    ToolDef { at: d, end: j, name: def_name(&sig), params: def_params(&sig) }
}

/// Find the tool functions of a module.
pub fn tool_functions(lines: &Vec<&[char]>) -> (r: Vec<ToolDef>)
    ensures
        defs_of(r@) == tool_defs(text::views(lines@), 0),
{
    let ghost ls = text::views(lines@);
    let n: usize = lines.len();
    let mut out: Vec<ToolDef> = Vec::new();
    let mut i: usize = 0;
    assert(defs_of(out@) + tool_defs(ls, 0) =~= tool_defs(ls, 0));
    while i < n
        invariant
            ls == text::views(lines@),
            n == lines@.len(),
            i <= n,
            defs_of(out@) + tool_defs(ls, i as int) == tool_defs(ls, 0),
        decreases n - i,
    {
        let ghost before = out@;
        let hi: usize = if n - i > 6 {
            i + 6
        } else {
            n
        };
        assert(ls[i as int] == lines@[i as int]@);
        let mut found: Option<usize> = None;
        if starts_with_any_of(trimmed_start(lines[i]), &TOOL_DECORATORS) {
            found = find_def(lines, i + 1, hi);
        }
        match found {
            Some(d) => {
                let def = read_def(lines, d);
                i = def.end;
                out.push(def);
                assert(defs_of(out@) =~= defs_of(before).push(def@));
            },
            None => {
                i = i + 1;
            },
        }
        assert(defs_of(out@) + tool_defs(ls, i as int) =~= tool_defs(ls, 0));
    }
    assert(defs_of(out@) =~= tool_defs(ls, 0));
    out
}

// --- scopes ----------------------------------------------------------------

/// The white space that `line` begins with.
pub open spec fn indent(line: Seq<char>) -> int {
    text::skip_space(line, 0)
}

/// Three quotes `q` stand at `i`.
pub open spec fn triple_at(s: Seq<char>, q: char, i: int) -> bool {
    0 <= i && i + 3 <= s.len() && s[i] == q && s[i + 1] == q && s[i + 2] == q
}

/// The quote of the triple-quoted string that is open after `line`, read from `i` on, where `open`
/// is the quote of the one that is open there.
pub open spec fn open_after(line: Seq<char>, i: int, open: Option<char>) -> Option<char>
    decreases line.len() + 3 - i,
{
    if i < 0 || i >= line.len() {
        open
    } else {
        match open {
            Some(q) => if line[i] == '\\' {
                open_after(line, i + 2, open)
            } else if triple_at(line, q, i) {
                open_after(line, i + 3, None)
            } else {
                open_after(line, i + 1, open)
            },
            None => {
                proof {
                    literal::lemma_ends(line, Language::Python, i);
                }
                if triple_at(line, '"', i) || triple_at(line, '\'', i) {
                    open_after(line, i + 3, Some(line[i]))
                } else {
                    match literal::comment_end(line, Language::Python, i) {
                        Some(e) => open_after(line, e, None),
                        None => match literal::literal_end(line, Language::Python, i) {
                            Some(e) => open_after(line, e + 1, None),
                            None => open_after(line, i + 1, None),
                        },
                    }
                }
            },
        }
    }
}

/// `line` begins a statement: it is not blank, no comment, and no bracket closes there.
pub open spec fn begins_statement(line: Seq<char>) -> bool {
    let t = text::trim_start(line);
    t.len() > 0 && t[0] != '#' && taint::bracket(t[0]) >= 0
}

/// `line` is blank, or a comment that stands no deeper than `level`.
pub open spec fn is_aside(line: Seq<char>, level: int) -> bool {
    let t = text::trim_start(line);
    t.len() == 0 || (t[0] == '#' && indent(line) <= level)
}

/// The line after a body at level `level`, read from line `j` on: it ends before the first
/// statement at line `from` or later that stands no deeper. `open` is the quote of the string that
/// is open before line `j`; what stands in a string begins no statement. `last` is the line after
/// what is known to belong to the body: comments and blank lines before that statement do not.
pub open spec fn block_end(ls: Seq<Seq<char>>, j: int, from: int, level: int, open: Option<char>, last: int) -> int
    decreases ls.len() - j,
{
    if j < 0 || j >= ls.len() {
        last
    } else if j < from {
        block_end(ls, j + 1, from, level, open_after(ls[j], 0, open), last)
    } else if open is None && begins_statement(ls[j]) && indent(ls[j]) <= level {
        last
    } else if open is None && is_aside(ls[j], level) {
        block_end(ls, j + 1, from, level, open_after(ls[j], 0, open), last)
    } else {
        block_end(ls, j + 1, from, level, open_after(ls[j], 0, open), j + 1)
    }
}

/// The line after the body of the tool function `d`.
pub open spec fn body_end(ls: Seq<Seq<char>>, d: DefFacts) -> int {
    block_end(ls, d.at, d.end, indent(ls[d.at]), None, d.end)
}

/// Line `j` belongs to the tool function `d`.
pub open spec fn in_body(ls: Seq<Seq<char>>, d: DefFacts, j: int) -> bool {
    d.at <= j < body_end(ls, d)
}

/// Line `j` belongs to some tool function.
pub open spec fn in_some_body(ls: Seq<Seq<char>>, defs: Seq<DefFacts>, j: int) -> bool {
    exists|m: int| 0 <= m < defs.len() && in_body(ls, #[trigger] defs[m], j)
}

/// Line `j` is looked at for the tool `k`: it belongs to that tool, or to no tool.
pub open spec fn in_scope(ls: Seq<Seq<char>>, defs: Seq<DefFacts>, k: int, j: int) -> bool {
    in_body(ls, defs[k], j) || !in_some_body(ls, defs, j)
}

/// Line `j` is looked at for the tool `k` and names one of its inputs.
pub open spec fn is_tainted(ls: Seq<Seq<char>>, defs: Seq<DefFacts>, k: int, j: int) -> bool {
    in_scope(ls, defs, k, j) && taint::has_any_word(ls[j], defs[k].params, false)
}

/// The body of the tool function `d` holds one of the markers.
pub open spec fn body_has(ls: Seq<Seq<char>>, d: DefFacts, markers: Seq<&str>) -> bool {
    exists|j: int| in_body(ls, d, j) && text::has_marker(#[trigger] ls[j], markers)
}

fn indent_of(line: &[char]) -> (r: usize)
    ensures
        r == indent(line@),
        r <= line@.len(),
{
    let n: usize = line.len();
    let mut i: usize = 0;
    while i < n && space(line[i])
        invariant
            n == line@.len(),
            i <= n,
            text::skip_space(line@, 0) == text::skip_space(line@, i as int),
        decreases n - i,
    {
        i = i + 1;
    }
    i
}

fn triple(t: &[char], q: char, i: usize) -> (r: bool)
    requires
        i < t@.len(),
    ensures
        r == triple_at(t@, q, i as int),
{
    t.len() - i >= 3 && t[i] == q && t[i + 1] == q && t[i + 2] == q
}

fn open_quote_after(line: &[char], open: Option<char>) -> (r: Option<char>)
    ensures
        r == open_after(line@, 0, open),
{
    let n: usize = line.len();
    let mut state: Option<char> = open;
    let mut i: usize = 0;
    while i < n
        invariant
            n == line@.len(),
            i <= n,
            open_after(line@, 0, open) == open_after(line@, i as int, state),
        decreases n - i,
    {
        match state {
            Some(q) => {
                if line[i] == '\\' {
                    if n - i < 2 {
                        assert(open_after(line@, i + 2, state) == state);
                        return state;
                    }
                    i = i + 2;
                } else if triple(line, q, i) {
                    state = None;
                    i = i + 3;
                } else {
                    i = i + 1;
                }
            },
            None => {
                if triple(line, '"', i) || triple(line, '\'', i) {
                    state = Some(line[i]);
                    i = i + 3;
                } else {
                    match end_of_comment(line, Language::Python, i) {
                        Some(e) => {
                            i = e;
                        },
                        None => match end_of_literal(line, Language::Python, i) {
                            Some(e) => {
                                i = e + 1;
                            },
                            None => {
                                i = i + 1;
                            },
                        },
                    }
                }
            },
        }
    }
    state
}

fn end_of_body(lines: &Vec<&[char]>, d: &ToolDef) -> (r: usize)
    requires
        d.at < lines@.len(),
        d.end <= lines@.len(),
    ensures
        r == body_end(text::views(lines@), d@),
        d.end <= r <= lines@.len(),
{
    let ghost ls = text::views(lines@);
    let n: usize = lines.len();
    assert(ls[d.at as int] == lines@[d.at as int]@);
    let level: usize = indent_of(lines[d.at]);
    let mut open: Option<char> = None;
    let mut last: usize = d.end;
    let mut j: usize = d.at;
    while j < n
        invariant
            ls == text::views(lines@),
            n == lines@.len(),
            d.at <= j <= n,
            d.end <= last <= n,
            body_end(ls, d@) == block_end(ls, j as int, d.end as int, level as int, open, last as int),
        decreases n - j,
    {
        assert(ls[j as int] == lines@[j as int]@);
        if j >= d.end {
            let t = trimmed_start(lines[j]);
            let deep: bool = indent_of(lines[j]) > level;
            let aside: bool = t.len() == 0 || (t[0] == '#' && !deep);
            let closes: bool = t.len() > 0 && (t[0] == ')' || t[0] == ']' || t[0] == '}');
            if open.is_none() && !deep && !aside && !closes {
                return last;
            }
            if open.is_some() || !aside {
                last = j + 1;
            }
        }
        open = open_quote_after(lines[j], open);
        j = j + 1;
    }
    last
}

// --- sinks -----------------------------------------------------------------

/// `line` builds a string from parts.
pub open spec fn builds_string(line: Seq<char>) -> bool {
    text::has_marker(line, STRING_BUILDERS@)
}

pub fn sql_builds_string(line: &[char]) -> (r: bool)
    ensures
        r == builds_string(line@),
{
    has_marker_in(line, &STRING_BUILDERS)
}

/// `line` deserializes with an unsafe loader.
pub open spec fn is_deser_line(line: Seq<char>) -> bool {
    text::has_marker(line, DESER@) && !text::contains(line, "safe_load"@) && !text::contains(line, "SafeLoader"@)
}

/// `line` runs a query that is built from parts.
pub open spec fn is_sql_line(line: Seq<char>) -> bool {
    text::has_marker(line, SQL@) && builds_string(line)
}

/// `line` uses a value as a regular expression.
pub open spec fn is_redos_line(line: Seq<char>) -> bool {
    text::has_marker(line, REDOS@) && !text::contains(line, "regex=False"@) && !text::contains(line, "regex = False"@)
}

/// Some parameter is a numeric limit by its name.
pub open spec fn has_limit(params: Seq<Seq<char>>) -> bool {
    exists|k: int| 0 <= k < params.len() && text::is_listed(#[trigger] params[k], LIMIT_NAMES@)
}

/// The module compares `p` with something.
pub open spec fn is_compared(content: Seq<char>, p: Seq<char>) -> bool {
    ||| text::contains(content, p + " >"@)
    ||| text::contains(content, p + " <"@)
    ||| text::contains(content, "> "@ + p)
    ||| text::contains(content, p + ">"@)
}

/// The module bounds a value: by a maximum, by `min`, or by comparing a parameter.
pub open spec fn is_guarded(content: Seq<char>, params: Seq<Seq<char>>) -> bool {
    ||| text::contains(content, "MAX_"@)
    ||| text::contains(content, "min("@)
    ||| exists|k: int| 0 <= k < params.len() && is_compared(content, #[trigger] params[k])
}

/// A zero-width character stands in the `def` line or one of the fourteen lines after it.
pub open spec fn has_hidden_text(ls: Seq<Seq<char>>, at: int) -> bool {
    exists|j: int| at <= j < at + 15 && j < ls.len() && taint::has_zero_width(#[trigger] ls[j])
}

/// The facts of the tool `k` of a module.
pub open spec fn tool_at(
    content: Seq<char>,
    ls: Seq<Seq<char>>,
    defs: Seq<DefFacts>,
    k: int,
) -> ToolFacts {
    let d = defs[k];
    ToolFacts {
        name: d.name,
        params: d.params,
        shell: exists|j: int|
            0 <= j < ls.len() && #[trigger] is_tainted(ls, defs, k, j) && text::has_marker(ls[j], SHELL@),
        ssrf: !body_has(ls, d, URL_GUARD@) && exists|j: int|
            0 <= j < ls.len() && #[trigger] is_tainted(ls, defs, k, j) && text::has_marker(ls[j], SSRF@),
        fs: !body_has(ls, d, PATH_GUARD@) && exists|j: int|
            0 <= j < ls.len() && #[trigger] is_tainted(ls, defs, k, j) && text::has_marker(ls[j], FS@),
        deser: exists|j: int|
            0 <= j < ls.len() && #[trigger] is_tainted(ls, defs, k, j) && is_deser_line(ls[j]),
        sql: exists|j: int|
            0 <= j < ls.len() && #[trigger] is_tainted(ls, defs, k, j) && is_sql_line(ls[j]),
        redos: exists|j: int|
            0 <= j < ls.len() && #[trigger] is_tainted(ls, defs, k, j) && is_redos_line(ls[j]),
        unbounded_limit: has_limit(d.params) && !is_guarded(content, d.params),
        desc_hidden_unicode: has_hidden_text(ls, d.at),
        file: Seq::empty(),
        line: text::line_number(d.at),
    }
}

/// The tools of a module.
pub open spec fn module_tools(content: Seq<char>) -> Seq<ToolFacts> {
    let ls = text::lines(content);
    let defs = tool_defs(ls, 0);
    Seq::new(defs.len(), |k: int| tool_at(content, ls, defs, k))
}

fn limit_param(params: &Vec<String>) -> (r: bool)
    ensures
        r == has_limit(text::strings(params@)),
{
    for k in 0..params.len()
        invariant
            forall|j: int| 0 <= j < k ==> !text::is_listed(#[trigger] text::strings(params@)[j], LIMIT_NAMES@),
    {
        let p = chars_of(params[k].as_str());
        if is_listed_in(&p, &LIMIT_NAMES) {
            assert(text::is_listed(text::strings(params@)[k as int], LIMIT_NAMES@));
            return true;
        }
    }
    false
}

fn compared(content: &[char], p: &[char]) -> (r: bool)
    ensures
        r == is_compared(content@, p@),
{
    let gt = concat(p, " >");
    let lt = concat(p, " <");
    let mut rgt: Vec<char> = chars_of("> ");
    append(&mut rgt, p);
    let tight = concat(p, ">");
    contains_in(content, &gt) || contains_in(content, &lt) || contains_in(content, &rgt) || contains_in(
        content,
        &tight,
    )
}

fn guarded(content: &[char], params: &Vec<String>) -> (r: bool)
    ensures
        r == is_guarded(content@, text::strings(params@)),
{
    if contains_str(content, "MAX_") || contains_str(content, "min(") {
        return true;
    }
    for k in 0..params.len()
        invariant
            forall|j: int| 0 <= j < k ==> !is_compared(content@, #[trigger] text::strings(params@)[j]),
    {
        let p = chars_of(params[k].as_str());
        if compared(content, &p) {
            assert(is_compared(content@, text::strings(params@)[k as int]));
            return true;
        }
    }
    false
}

fn hidden_text(lines: &Vec<&[char]>, at: usize) -> (r: bool)
    requires
        at < lines@.len(),
    ensures
        r == has_hidden_text(text::views(lines@), at as int),
{
    let n: usize = lines.len();
    let hi: usize = if n - at > 15 {
        at + 15
    } else {
        n
    };
    let mut j: usize = at;
    while j < hi
        invariant
            n == lines@.len(),
            hi <= n,
            hi <= at + 15,
            hi == n || hi == at + 15,
            at <= j <= hi,
            forall|i: int| at <= i < j ==> !taint::has_zero_width(#[trigger] text::views(lines@)[i]),
        decreases hi - j,
    {
        assert(text::views(lines@)[j as int] == lines@[j as int]@);
        if has_zero_width_in(lines[j]) {
            return true;
        }
        j = j + 1;
    }
    false
}

fn body_shows(lines: &Vec<&[char]>, d: &ToolDef, end: usize, markers: &[&str]) -> (r: bool)
    requires
        end <= lines@.len(),
        end == body_end(text::views(lines@), d@),
    ensures
        r == body_has(text::views(lines@), d@, markers@),
{
    let mut j: usize = d.at;
    while j < end
        invariant
            end <= lines@.len(),
            end == body_end(text::views(lines@), d@),
            d.at <= j,
            forall|i: int| d.at <= i < j ==> !text::has_marker(#[trigger] text::views(lines@)[i], markers@),
        decreases end - j,
    {
        assert(text::views(lines@)[j as int] == lines@[j as int]@);
        if has_marker_in(lines[j], markers) {
            assert(in_body(text::views(lines@), d@, j as int));
            return true;
        }
        j = j + 1;
    }
    false
}

/// Line `j` is looked at for the tool `k`; `ends` holds where each body ends.
fn scoped(lines: &Vec<&[char]>, defs: &Vec<ToolDef>, ends: &Vec<usize>, k: usize, j: usize) -> (r: bool)
    requires
        k < defs@.len(),
        ends@.len() == defs@.len(),
        forall|m: int| 0 <= m < ends@.len() ==> #[trigger] ends@[m] == body_end(text::views(lines@), defs@[m]@),
    ensures
        r == in_scope(text::views(lines@), defs_of(defs@), k as int, j as int),
{
    let ghost ls = text::views(lines@);
    let ghost all = defs_of(defs@);
    assert(all[k as int] == defs@[k as int]@);
    if defs[k].at <= j && j < ends[k] {
        return true;
    }
    for m in 0..defs.len()
        invariant
            ls == text::views(lines@),
            all == defs_of(defs@),
            !in_body(ls, all[k as int], j as int),
            ends@.len() == defs@.len(),
            forall|m: int| 0 <= m < ends@.len() ==> #[trigger] ends@[m] == body_end(ls, defs@[m]@),
            forall|i: int| 0 <= i < m ==> !in_body(ls, #[trigger] all[i], j as int),
    {
        assert(all[m as int] == defs@[m as int]@);
        if defs[m].at <= j && j < ends[m] {
            assert(in_body(ls, all[m as int], j as int));
            return false;
        }
    }
    true
}

/// Collect the facts of the tool `k` of a module.
fn scan_tool(
    content: &[char],
    lines: &Vec<&[char]>,
    defs: &Vec<ToolDef>,
    ends: &Vec<usize>,
    k: usize,
) -> (r: ToolTaint)
    requires
        k < defs@.len(),
        ends@.len() == defs@.len(),
        forall|m: int|
            0 <= m < ends@.len() ==> #[trigger] ends@[m] == body_end(text::views(lines@), defs@[m]@) && ends@[m]
                <= lines@.len() && defs@[m].at < lines@.len(),
    ensures
        r@ == tool_at(content@, text::views(lines@), defs_of(defs@), k as int),
{
    let ghost ls = text::views(lines@);
    let ghost all = defs_of(defs@);
    let d = &defs[k];
    assert(all[k as int] == d@);
    assert(ends@[k as int] == body_end(ls, d@));
    let mut shell: bool = false;
    let mut ssrf: bool = false;
    let mut fs: bool = false;
    let mut deser: bool = false;
    let mut sql: bool = false;
    let mut redos: bool = false;
    for j in 0..lines.len()
        invariant
            ls == text::views(lines@),
            all == defs_of(defs@),
            k < defs@.len(),
            d == defs@[k as int],
            all[k as int] == d@,
            ends@.len() == defs@.len(),
            forall|m: int| 0 <= m < ends@.len() ==> #[trigger] ends@[m] == body_end(ls, defs@[m]@),
            shell == exists|i: int|
                0 <= i < j && #[trigger] is_tainted(ls, all, k as int, i) && text::has_marker(ls[i], SHELL@),
            ssrf == exists|i: int|
                0 <= i < j && #[trigger] is_tainted(ls, all, k as int, i) && text::has_marker(ls[i], SSRF@),
            fs == exists|i: int|
                0 <= i < j && #[trigger] is_tainted(ls, all, k as int, i) && text::has_marker(ls[i], FS@),
            deser == exists|i: int|
                0 <= i < j && #[trigger] is_tainted(ls, all, k as int, i) && is_deser_line(ls[i]),
            sql == exists|i: int|
                0 <= i < j && #[trigger] is_tainted(ls, all, k as int, i) && is_sql_line(ls[i]),
            redos == exists|i: int|
                0 <= i < j && #[trigger] is_tainted(ls, all, k as int, i) && is_redos_line(ls[i]),
    {
        let line = lines[j];
        assert(ls[j as int] == line@);
        let tainted: bool = scoped(lines, defs, ends, k, j) && has_any_word_in(line, &d.params, false);
        assert(tainted == is_tainted(ls, all, k as int, j as int));
        if tainted {
            if has_marker_in(line, &SHELL) {
                shell = true;
            }
            if has_marker_in(line, &SSRF) {
                ssrf = true;
            }
            if has_marker_in(line, &FS) {
                fs = true;
            }
            if has_marker_in(line, &DESER) && !contains_str(line, "safe_load") && !contains_str(
                line,
                "SafeLoader",
            ) {
                deser = true;
            }
            if has_marker_in(line, &SQL) && sql_builds_string(line) {
                sql = true;
            }
            if has_marker_in(line, &REDOS) && !contains_str(line, "regex=False") && !contains_str(
                line,
                "regex = False",
            ) {
                redos = true;
            }
        }
    }
    let mut t = ToolTaint::new(d.name.clone(), clone_strings(&d.params));
    t.shell = shell;
    t.ssrf = ssrf && !body_shows(lines, d, ends[k], &URL_GUARD);
    t.fs = fs && !body_shows(lines, d, ends[k], &PATH_GUARD);
    t.deser = deser;
    t.sql = sql;
    t.redos = redos;
    t.unbounded_limit = limit_param(&d.params) && !guarded(content, &d.params);
    t.desc_hidden_unicode = hidden_text(lines, d.at);
    t.line = number_of_line(d.at);
    t
}

/// The tools of a module.
fn scan_module(content: &[char], lines: &Vec<&[char]>) -> (r: Vec<ToolTaint>)
    requires
        text::views(lines@) == text::lines(content@),
    ensures
        taint::tool_facts(r@) == module_tools(content@),
{
    let ghost ls = text::views(lines@);
    let defs = tool_functions(lines);
    let ghost all = defs_of(defs@);
    proof {
        lemma_tool_defs(ls, 0);
    }
    let mut ends: Vec<usize> = Vec::new();
    for m in 0..defs.len()
        invariant
            ls == text::views(lines@),
            all == defs_of(defs@),
            forall|i: int| 0 <= i < all.len() ==> 0 <= (#[trigger] all[i]).at < ls.len() && all[i].end <= ls.len(),
            ends@.len() == m,
            forall|i: int|
                0 <= i < m ==> #[trigger] ends@[i] == body_end(ls, defs@[i]@) && ends@[i] <= lines@.len()
                    && defs@[i].at < lines@.len(),
    {
        assert(all[m as int] == defs@[m as int]@);
        let ghost before = ends@;
        let end: usize = end_of_body(lines, &defs[m]);
        ends.push(end);
        assert forall|i: int| 0 <= i < m + 1 implies #[trigger] ends@[i] == body_end(ls, defs@[i]@) && ends@[i]
            <= lines@.len() && defs@[i].at < lines@.len() by {
            if i < m {
                assert(ends@[i] == before[i]);
            }
        }
    }
    let mut out: Vec<ToolTaint> = Vec::new();
    for k in 0..defs.len()
        invariant
            ls == text::views(lines@),
            all == defs_of(defs@),
            ends@.len() == defs@.len(),
            forall|i: int|
                0 <= i < ends@.len() ==> #[trigger] ends@[i] == body_end(ls, defs@[i]@) && ends@[i]
                    <= lines@.len() && defs@[i].at < lines@.len(),
            out@.len() == k,
            forall|i: int| 0 <= i < k ==> (#[trigger] out@[i])@ == tool_at(content@, ls, all, i),
    {
        out.push(scan_tool(content, lines, &defs, &ends, k));
    }
    assert(taint::tool_facts(out@) =~= module_tools(content@));
    out
}

pub proof fn lemma_tool_defs(ls: Seq<Seq<char>>, i: int)
    requires
        0 <= i <= ls.len(),
    ensures
        forall|k: int|
            0 <= k < tool_defs(ls, i).len() ==> 0 <= (#[trigger] tool_defs(ls, i)[k]).at < ls.len() && tool_defs(
                ls,
                i,
            )[k].end <= ls.len(),
    decreases ls.len() - i,
{
    if i < ls.len() {
        lemma_next_def(ls, i + 1, window_end(ls, i));
        match decorated(ls, i) {
            Some(d) => {
                lemma_sig_end(ls, d, d, 0, false);
                let rest = tool_defs(ls, def_at(ls, d).end);
                lemma_tool_defs(ls, def_at(ls, d).end);
                assert(tool_defs(ls, i) == seq![def_at(ls, d)] + rest);
                assert forall|k: int| 0 <= k < tool_defs(ls, i).len() implies 0 <= (#[trigger] tool_defs(
                    ls,
                    i,
                )[k]).at < ls.len() && tool_defs(ls, i)[k].end <= ls.len() by {
                    if k > 0 {
                        assert(tool_defs(ls, i)[k] == rest[k - 1]);
                    }
                }
            },
            None => {
                lemma_tool_defs(ls, i + 1);
                assert(tool_defs(ls, i) == tool_defs(ls, i + 1));
            },
        }
    }
}

// --- leaked credentials ----------------------------------------------------

/// The variable that `line` assigns: the identifier before the first `=`, which must not be `==`,
/// where what stands before it is no attribute and no subscript.
pub open spec fn assigned(line: Seq<char>) -> Option<Seq<char>> {
    let eq = text::find_char(line, '=', 0);
    let lhs = text::trim(line.take(eq));
    if eq >= line.len() || (eq + 1 < line.len() && line[eq + 1] == '=') || lhs.contains('.') || lhs.contains(
        '[',
    ) || text::ident_prefix(lhs, false).len() == 0 {
        None
    } else {
        Some(text::ident_prefix(lhs, false))
    }
}

pub fn assigned_var(line: &[char]) -> (r: Option<String>)
    ensures
        match r {
            Some(v) => assigned(line@) == Some(v@),
            None => assigned(line@) is None,
        },
{
    let n: usize = line.len();
    let eq: usize = index_of_char(line, '=', 0);
    if eq >= n {
        return None;
    }
    if eq + 1 < n && line[eq + 1] == '=' {
        return None;
    }
    let head = &line[0..eq];
    assert(head@ =~= line@.take(eq as int));
    let lhs = trimmed(head);
    if contains_char(lhs, '.') || contains_char(lhs, '[') {
        return None;
    }
    let name = leading_ident(lhs, false);
    if name.len() == 0 {
        None
    } else {
        Some(string_of(name))
    }
}

/// `line` reads a secret: a secret environment variable, or a credential file.
pub open spec fn reads_secret(line: Seq<char>) -> bool {
    ||| (text::contains(line, "os.environ"@) || text::contains(line, "getenv("@)) && taint::secretish(line)
    ||| text::has_marker(line, CREDENTIAL_FILES@)
}

/// Line `k` assigns a secret to the variable `v`.
pub open spec fn binds_secret(ls: Seq<Seq<char>>, k: int, v: Seq<char>) -> bool {
    0 <= k < ls.len() && reads_secret(ls[k]) && assigned(ls[k]) == Some(v)
}

/// The variable `v` is assigned a secret somewhere in the module.
pub open spec fn holds_secret(ls: Seq<Seq<char>>, v: Seq<char>) -> bool {
    exists|k: int| binds_secret(ls, k, v)
}

/// Line `i` sends a variable that holds a secret to a known exfiltration host.
pub open spec fn leaks(ls: Seq<Seq<char>>, i: int) -> bool {
    &&& text::has_marker(ls[i], EGRESS@)
    &&& text::has_marker(ls[i], EXFIL_HOSTS@)
    &&& exists|v: Seq<char>| #[trigger] holds_secret(ls, v) && text::has_word(ls[i], v, false)
}

/// The first line at `i` or later that leaks a secret.
pub open spec fn first_leak(ls: Seq<Seq<char>>, i: int) -> Option<int>
    decreases ls.len() - i,
{
    if i < 0 || i >= ls.len() {
        None
    } else if leaks(ls, i) {
        Some(i)
    } else {
        first_leak(ls, i + 1)
    }
}

/// The line, counted from 1, of the first flow of a secret to a known exfiltration host.
pub open spec fn leak_line(content: Seq<char>) -> Option<u32> {
    match first_leak(text::lines(content), 0) {
        Some(i) => Some(text::line_number(i)),
        None => None,
    }
}

/// The variables of a module that hold secrets.
fn secret_vars(lines: &Vec<&[char]>) -> (r: Vec<String>)
    ensures
        forall|v: Seq<char>| holds_secret(text::views(lines@), v) <==> #[trigger] text::strings(r@).contains(v),
{
    let ghost ls = text::views(lines@);
    let mut vars: Vec<String> = Vec::new();
    for k in 0..lines.len()
        invariant
            ls == text::views(lines@),
            forall|i: int, v: Seq<char>|
                i < k && #[trigger] binds_secret(ls, i, v) ==> text::strings(vars@).contains(v),
            forall|q: int| 0 <= q < vars@.len() ==> holds_secret(ls, #[trigger] text::strings(vars@)[q]),
    {
        let line = lines[k];
        assert(ls[k as int] == line@);
        if ((contains_str(line, "os.environ") || contains_str(line, "getenv(")) && is_secretish(line))
            || has_marker_in(line, &CREDENTIAL_FILES) {
            match assigned_var(line) {
                Some(v) => {
                    let ghost before = text::strings(vars@);
                    vars.push(v);
                    assert(text::strings(vars@) =~= before.push(v@));
                    assert(text::strings(vars@)[before.len() as int] == v@);
                    assert(binds_secret(ls, k as int, v@));
                    assert forall|i: int, w: Seq<char>|
                        i < k + 1 && #[trigger] binds_secret(ls, i, w) implies text::strings(vars@).contains(w) by {
                        if i < k {
                            let q = choose|q: int| 0 <= q < before.len() && before[q] == w;
                            assert(text::strings(vars@)[q] == w);
                        }
                    }
                    assert forall|q: int| 0 <= q < vars@.len() implies holds_secret(
                        ls,
                        #[trigger] text::strings(vars@)[q],
                    ) by {
                        if q < before.len() {
                            assert(text::strings(vars@)[q] == before[q]);
                        }
                    }
                },
                None => {},
            }
        }
    }
    assert forall|v: Seq<char>| holds_secret(ls, v) <==> #[trigger] text::strings(vars@).contains(v) by {
        if text::strings(vars@).contains(v) {
            let q = choose|q: int| 0 <= q < text::strings(vars@).len() && text::strings(vars@)[q] == v;
            assert(holds_secret(ls, text::strings(vars@)[q]));
        }
    }
    vars
}

/// Find the first flow of a secret to a known exfiltration host in a module.
pub fn secret_exfil(lines: &Vec<&[char]>) -> (r: Option<u32>)
    ensures
        match first_leak(text::views(lines@), 0) {
            Some(i) => r == Some(text::line_number(i)),
            None => r is None,
        },
{
    let ghost ls = text::views(lines@);
    let n: usize = lines.len();
    let vars = secret_vars(lines);
    let mut i: usize = 0;
    while i < n
        invariant
            ls == text::views(lines@),
            n == lines@.len(),
            i <= n,
            first_leak(ls, 0) == first_leak(ls, i as int),
            forall|v: Seq<char>| holds_secret(ls, v) <==> #[trigger] text::strings(vars@).contains(v),
        decreases n - i,
    {
        let line = lines[i];
        assert(ls[i as int] == line@);
        let hit: bool = has_any_word_in(line, &vars, false);
        proof {
            let vs = text::strings(vars@);
            if hit {
                let q = choose|q: int| 0 <= q < vs.len() && text::has_word(line@, #[trigger] vs[q], false);
                assert(vs.contains(vs[q]));
                assert(holds_secret(ls, vs[q]));
            } else {
                assert forall|v: Seq<char>| #[trigger] holds_secret(ls, v) implies !text::has_word(line@, v, false) by {
                    assert(vs.contains(v));
                }
            }
        }
        if hit && has_marker_in(line, &EGRESS) && has_marker_in(line, &EXFIL_HOSTS) {
            return Some(number_of_line(i));
        }
        i = i + 1;
    }
    None
}

// --- entry points ----------------------------------------------------------

/// `t` without the place that it is cited by.
pub open spec fn unplaced(t: ToolFacts) -> ToolFacts {
    ToolFacts { file: Seq::empty(), line: 0, ..t }
}

/// Analyze one module.
pub fn analyze(content: &str) -> (r: PyAnalysis)
    ensures
        py_tool_facts(r.tools@) == module_tools(content@).map_values(|t: ToolFacts| unplaced(t)),
        r.secret_source_to_egress == (leak_line(content@) is Some),
{
    let text = chars_of(content);
    let ls = lines_of(&text);
    let found = scan_module(&text, &ls);
    let mut tools: Vec<PyTool> = Vec::new();
    for k in 0..found.len()
        invariant
            tools@.len() == k,
            forall|i: int| 0 <= i < k ==> (#[trigger] tools@[i])@ == unplaced(found@[i]@),
    {
        let t = &found[k];
        tools.push(
            PyTool {
                name: t.name.clone(),
                params: clone_strings(&t.params),
                ssrf: t.ssrf,
                fs: t.fs,
                shell: t.shell,
                sql: t.sql,
                deser: t.deser,
                unbounded_limit: t.unbounded_limit,
                redos: t.redos,
                desc_hidden_unicode: t.desc_hidden_unicode,
            },
        );
    }
    assert(py_tool_facts(tools@) =~= module_tools(content@).map_values(|t: ToolFacts| unplaced(t))) by {
        assert forall|i: int| 0 <= i < tools@.len() implies py_tool_facts(tools@)[i] == unplaced(
            module_tools(content@)[i],
        ) by {
            assert(taint::tool_facts(found@)[i] == found@[i]@);
        }
    }
    PyAnalysis { tools, secret_source_to_egress: secret_exfil(&ls).is_some() }
}

/// Paths and contents of a list of modules.
pub open spec fn modules(v: Seq<(&str, &str)>) -> Seq<(Seq<char>, Seq<char>)> {
    Seq::new(v.len(), |i: int| (v[i].0@, v[i].1@))
}

/// The tools of a module, cited by its path.
pub open spec fn placed_tools(path: Seq<char>, content: Seq<char>) -> Seq<ToolFacts> {
    let tools = module_tools(content);
    Seq::new(tools.len(), |k: int| ToolFacts { file: path, ..tools[k] })
}

/// The tools of the first `n` modules.
pub open spec fn repo_tools(files: Seq<(Seq<char>, Seq<char>)>, n: int) -> Seq<ToolFacts>
    decreases n,
{
    if n <= 0 || n > files.len() {
        Seq::empty()
    } else {
        repo_tools(files, n - 1) + placed_tools(files[n - 1].0, files[n - 1].1)
    }
}

/// The place of the first leak in the modules from index `k` on.
pub open spec fn repo_leak(files: Seq<(Seq<char>, Seq<char>)>, k: int) -> Option<(Seq<char>, u32)>
    decreases files.len() - k,
{
    if k < 0 || k >= files.len() {
        None
    } else {
        match leak_line(files[k].1) {
            Some(l) => Some((files[k].0, l)),
            None => repo_leak(files, k + 1),
        }
    }
}

/// What the modules of a repository say together: the tools of each, and the first leak.
pub open spec fn repo_analysis(files: Seq<(Seq<char>, Seq<char>)>) -> AnalysisFacts {
    AnalysisFacts {
        tools: repo_tools(files, files.len() as int),
        secret_source_to_egress: repo_leak(files, 0) is Some,
        secret_egress: repo_leak(files, 0),
    }
}

/// Analyze the modules of a repository, given as paths and contents.
pub fn analyze_repo(files: &[(&str, &str)]) -> (r: Analysis)
    ensures
        r@ == repo_analysis(modules(files@)),
{
    let ghost all = modules(files@);
    let mut tools: Vec<ToolTaint> = Vec::new();
    let mut leak: Option<(String, u32)> = None;
    assert(taint::tool_facts(tools@) =~= repo_tools(all, 0));
    for k in 0..files.len()
        invariant
            all == modules(files@),
            taint::tool_facts(tools@) == repo_tools(all, k as int),
            leak is None ==> repo_leak(all, 0) == repo_leak(all, k as int),
            leak is Some ==> taint::place(leak) == repo_leak(all, 0),
    {
        let path: &str = files[k].0;
        let text = chars_of(files[k].1);
        let ls = lines_of(&text);
        assert(all[k as int] == (path@, text@));
        if leak.is_none() {
            match secret_exfil(&ls) {
                Some(l) => {
                    leak = Some((path.to_owned(), l));
                },
                None => {},
            }
        }
        let mut found = scan_module(&text, &ls);
        let ghost facts = taint::tool_facts(found@);
        let ghost before = taint::tool_facts(tools@);
        let ghost want = placed_tools(path@, text@);
        let n: usize = found.len();
        let mut i: usize = 0;
        while i < n
            invariant
                i <= n,
                n == facts.len(),
                found@.len() == n - i,
                facts == module_tools(text@),
                want == placed_tools(path@, text@),
                forall|q: int| 0 <= q < found@.len() ==> (#[trigger] found@[q])@ == facts[i + q],
                taint::tool_facts(tools@) == before + want.take(i as int),
            decreases n - i,
        {
            let mut t = found.remove(0);
            t.file = path.to_owned();
            let ghost done = taint::tool_facts(tools@);
            assert(t@ == want[i as int]);
            tools.push(t);
            assert(taint::tool_facts(tools@) =~= done.push(t@));
            assert(taint::tool_facts(tools@) =~= before + want.take(i + 1));
            i = i + 1;
        }
        assert(want.take(n as int) =~= want);
    }
    let flows: bool = leak.is_some();
    let r = Analysis { tools, secret_source_to_egress: flows, secret_egress: leak };
    assert(r@.tools =~= repo_analysis(all).tools);
    r
}

// --- laws ------------------------------------------------------------------

proof fn lemma_defs_in(ls: Seq<Seq<char>>, i: int)
    requires
        0 <= i,
    ensures
        forall|k: int| 0 <= k < tool_defs(ls, i).len() ==> 0 <= (#[trigger] tool_defs(ls, i)[k]).at < ls.len(),
    decreases ls.len() - i,
{
    if i < ls.len() {
        lemma_next_def(ls, i + 1, window_end(ls, i));
        match decorated(ls, i) {
            Some(d) => {
                lemma_sig_end(ls, d, d, 0, false);
                let rest = tool_defs(ls, def_at(ls, d).end);
                lemma_defs_in(ls, def_at(ls, d).end);
                assert(window_end(ls, i) <= ls.len());
                let now = tool_defs(ls, i);
                assert(now == seq![def_at(ls, d)] + rest);
                assert forall|k: int| 0 <= k < now.len() implies 0 <= (#[trigger] now[k]).at < ls.len() by {
                    if k > 0 {
                        assert(now[k] == rest[k - 1]);
                    }
                }
            },
            None => {
                lemma_defs_in(ls, i + 1);
                assert(tool_defs(ls, i) == tool_defs(ls, i + 1));
            },
        }
    }
}

/// The tools of a module have lines.
pub proof fn lemma_tools_located(content: Seq<char>)
    requires
        content.len() < 0xffff_ffff,
    ensures
        forall|k: int| 0 <= k < module_tools(content).len() ==> (#[trigger] module_tools(content)[k]).line > 0,
{
    let ls = text::lines(content);
    text::lemma_line_count(content, 0);
    lemma_defs_in(ls, 0);
    assert forall|k: int| 0 <= k < module_tools(content).len() implies (#[trigger] module_tools(content)[k]).line
        > 0 by {
        assert(0 <= tool_defs(ls, 0)[k].at < ls.len());
    }
}

/// The tools of the first `n` modules have lines.
pub proof fn lemma_repo_tools_located(files: Seq<(Seq<char>, Seq<char>)>, n: int)
    requires
        forall|k: int| 0 <= k < files.len() ==> (#[trigger] files[k]).1.len() < 0xffff_ffff,
    ensures
        forall|k: int| 0 <= k < repo_tools(files, n).len() ==> (#[trigger] repo_tools(files, n)[k]).line > 0,
    decreases n,
{
    if 0 < n <= files.len() {
        lemma_repo_tools_located(files, n - 1);
        let before = repo_tools(files, n - 1);
        let content = files[n - 1].1;
        lemma_tools_located(content);
        assert forall|k: int| 0 <= k < repo_tools(files, n).len() implies (#[trigger] repo_tools(files, n)[k]).line
            > 0 by {
            if k < before.len() {
                assert(repo_tools(files, n)[k] == before[k]);
            } else {
                assert(module_tools(content)[k - before.len()].line > 0);
            }
        }
    }
}

/// Taint stays in the tool that it is about: a line of another tool's function never taints a tool,
/// even where both have a parameter of the same name.
pub proof fn law_taint_does_not_cross_tools(ls: Seq<Seq<char>>, defs: Seq<DefFacts>, k: int, other: int, j: int)
    requires
        0 <= other < defs.len(),
        in_body(ls, defs[other], j),
        !in_body(ls, defs[k], j),
    ensures
        !is_tainted(ls, defs, k, j),
{
}

/// A tool whose own body checks where a URL leads is not reported for requests, and one whose own
/// body keeps paths under a root is not reported for files.
pub proof fn law_guards_suppress(content: Seq<char>, ls: Seq<Seq<char>>, defs: Seq<DefFacts>, k: int)
    ensures
        body_has(ls, defs[k], URL_GUARD@) ==> !tool_at(content, ls, defs, k).ssrf,
        body_has(ls, defs[k], PATH_GUARD@) ==> !tool_at(content, ls, defs, k).fs,
{
}

proof fn lemma_no_host(ls: Seq<Seq<char>>, i: int)
    requires
        0 <= i,
        !taint::some_line_has(ls, EXFIL_HOSTS@),
    ensures
        first_leak(ls, i) is None,
    decreases ls.len() - i,
{
    if i < ls.len() {
        assert(!text::has_marker(ls[i], EXFIL_HOSTS@));
        lemma_no_host(ls, i + 1);
    }
}

/// A secret that goes anywhere but to a known exfiltration host is no leak: a token in the header
/// of a call of its own service is not reported.
pub proof fn law_secrets_leak_to_known_hosts_only(content: Seq<char>)
    requires
        !taint::some_line_has(text::lines(content), EXFIL_HOSTS@),
    ensures
        leak_line(content) is None,
{
    lemma_no_host(text::lines(content), 0);
}

} // verus!
