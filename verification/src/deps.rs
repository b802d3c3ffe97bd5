//! Declared dependencies, and whether each is pinned to one version.
use crate::json;
use crate::json::{JsonTree, member, members, read_json};
use crate::text;
use crate::text::{
    alnum, append, append_str, chars_of, contains_str, digit, ident_char, index_of_char, is_text,
    leading_ident, lines_of, starts_with_str, string_of, trimmed, trimmed_start,
};
use vstd::prelude::*;

verus! {

#[derive(Debug, Clone, PartialEq, Eq)]
pub struct Dep {
    pub name: String,
    /// The version or range that is asked for, as it is written.
    pub spec: String,
    pub pinned: bool,
    /// The manifest that declares it.
    pub source_path: String,
}

pub struct DepFacts {
    pub name: Seq<char>,
    pub spec: Seq<char>,
    pub pinned: bool,
    pub source_path: Seq<char>,
}

impl View for Dep {
    type V = DepFacts;

    open spec fn view(&self) -> DepFacts {
        DepFacts { name: self.name@, spec: self.spec@, pinned: self.pinned, source_path: self.source_path@ }
    }
}

pub open spec fn dep_facts(v: Seq<Dep>) -> Seq<DepFacts> {
    Seq::new(v.len(), |i: int| v[i]@)
}

// --- npm -------------------------------------------------------------------

/// An exact version: digits and dots, from a digit on. Ranges, tags and URLs are not exact.
pub open spec fn is_exact_version(spec: Seq<char>) -> bool {
    let s = text::trim(spec);
    &&& s.len() > 0
    &&& text::is_digit(s[0])
    &&& forall|i: int| 0 <= i < s.len() ==> text::is_digit(#[trigger] s[i]) || s[i] == '.'
}

pub fn npm_pinned(spec: &str) -> (r: bool)
    ensures
        r == is_exact_version(spec@),
{
    let t = chars_of(spec);
    let s = trimmed(&t);
    if s.len() == 0 || !digit(s[0]) {
        return false;
    }
    for i in 0..s.len()
        invariant
            s@ == text::trim(spec@),
            forall|j: int| 0 <= j < i ==> text::is_digit(#[trigger] s@[j]) || s@[j] == '.',
    {
        if !digit(s[i]) && s[i] != '.' {
            return false;
        }
    }
    true
}

/// The dependency that an entry of a `package.json` declares. A version that is no string counts
/// as empty.
pub open spec fn npm_dep(entry: (Seq<char>, Option<Seq<char>>), path: Seq<char>) -> DepFacts {
    let spec = match entry.1 {
        Some(s) => s,
        None => Seq::empty(),
    };
    DepFacts { name: entry.0, spec, pinned: is_exact_version(spec), source_path: path }
}

pub open spec fn npm_deps(entries: Seq<(Seq<char>, Option<Seq<char>>)>, path: Seq<char>) -> Seq<DepFacts> {
    Seq::new(entries.len(), |i: int| npm_dep(entries[i], path))
}

/// The text of an optional string.
pub open spec fn text_opt(s: Option<String>) -> Option<Seq<char>> {
    match s {
        Some(s) => Some(s@),
        None => None,
    }
}

pub open spec fn entry_texts(v: Seq<(String, Option<String>)>) -> Seq<(Seq<char>, Option<Seq<char>>)> {
    Seq::new(v.len(), |i: int| (v[i].0@, text_opt(v[i].1)))
}

/// The dependencies that the entries of a `package.json` declare.
pub fn npm_dependencies(entries: &Vec<(String, Option<String>)>, path: &str) -> (r: Vec<Dep>)
    ensures
        dep_facts(r@) == npm_deps(entry_texts(entries@), path@),
{
    let ghost all = entry_texts(entries@);
    let mut out: Vec<Dep> = Vec::new();
    for i in 0..entries.len()
        invariant
            all == entry_texts(entries@),
            out@.len() == i,
            forall|j: int| 0 <= j < i ==> (#[trigger] out@[j])@ == npm_dep(all[j], path@),
    {
        let spec: String = match &entries[i].1 {
            Some(s) => s.clone(),
            None => String::new(),
        };
        assert(entries@[i as int].1 is None ==> spec@ =~= Seq::<char>::empty());
        let pinned: bool = npm_pinned(spec.as_str());
        out.push(Dep { name: entries[i].0.clone(), spec, pinned, source_path: path.to_owned() });
    }
    assert(dep_facts(out@) =~= npm_deps(all, path@));
    out
}

/// The text of a JSON string.
pub open spec fn json_str(t: JsonTree) -> Option<Seq<char>> {
    match t {
        JsonTree::Text(s) => Some(s),
        _ => None,
    }
}

/// The entries under `dependencies` in a JSON text.
pub open spec fn npm_entries(content: Seq<char>) -> Seq<(Seq<char>, Option<Seq<char>>)> {
    match json::json_text(content) {
        None => Seq::empty(),
        Some(t) => match json::member_of(t, "dependencies"@) {
            Some(JsonTree::Table(ms)) => Seq::new(ms.len(), |i: int| (ms[i].0, json_str(ms[i].1))),
            _ => Seq::empty(),
        },
    }
}

/// The entries under `dependencies` in a JSON text, in the order of their keys; none where the text
/// is not read or has no such object.
pub fn dependency_entries(content: &str) -> (r: Vec<(String, Option<String>)>)
    ensures
        entry_texts(r@) == npm_entries(content@),
{
    let mut out: Vec<(String, Option<String>)> = Vec::new();
    assert(entry_texts(out@) =~= Seq::empty());
    let v = match read_json(content) {
        Ok(v) => v,
        Err(_) => {
            return out;
        },
    };
    let d = match member(&v, "dependencies") {
        Some(d) => d,
        None => {
            return out;
        },
    };
    let ms = match members(d) {
        Some(ms) => ms,
        None => {
            return out;
        },
    };
    let ghost all = npm_entries(content@);
    assert(json::json_tree(*d) is Table);
    assert(all.len() == ms@.len());
    for i in 0..ms.len()
        invariant
            all == npm_entries(content@),
            all.len() == ms@.len(),
            forall|j: int|
                0 <= j < ms@.len() ==> all[j] == ((#[trigger] ms@[j]).0@, json_str(json::json_tree(*ms@[j].1))),
            out@.len() == i,
            forall|j: int| 0 <= j < i ==> ((#[trigger] out@[j]).0@, text_opt(out@[j].1)) == all[j],
    {
        let value: Option<String> = match ms[i].1.as_str() {
            Some(s) => Some(s.to_owned()),
            None => None,
        };
        assert(text_opt(value) == json_str(json::json_tree(*ms@[i as int].1)));
        out.push((ms[i].0.clone(), value));
    }
    assert(entry_texts(out@) =~= all);
    out
}

/// The dependencies that a `package.json` declares.
pub fn parse_npm(content: &str, path: &str) -> (r: Vec<Dep>)
    ensures
        dep_facts(r@) == npm_deps(npm_entries(content@), path@),
{
    let entries = dependency_entries(content);
    npm_dependencies(&entries, path)
}

// --- Python ----------------------------------------------------------------

/// A character of a package name.
pub open spec fn is_name_char(c: char) -> bool {
    text::is_alnum(c) || c == '-' || c == '_' || c == '.'
}

/// Where the name characters of `s` end.
pub open spec fn name_end(s: Seq<char>, i: int) -> int
    decreases s.len() - i,
{
    if 0 <= i < s.len() && is_name_char(s[i]) {
        name_end(s, i + 1)
    } else {
        i
    }
}

/// The package that a requirement names.
pub open spec fn py_name(req: Seq<char>) -> Seq<char> {
    req.take(name_end(req, 0))
}

/// A requirement is pinned where it asks for one version.
pub open spec fn is_py_pinned(req: Seq<char>) -> bool {
    text::contains(req, "=="@)
}

/// The name of a requirement, and whether it is pinned.
pub fn py_dep(spec: &str) -> (r: (String, bool))
    ensures
        r.0@ == py_name(spec@),
        r.1 == is_py_pinned(spec@),
        r.1 == text::contains(spec@, "=="@),
{
    let t = chars_of(spec);
    let n: usize = t.len();
    let mut i: usize = 0;
    while i < n && (alnum(t[i]) || t[i] == '-' || t[i] == '_' || t[i] == '.')
        invariant
            n == t@.len(),
            i <= n,
            name_end(t@, 0) == name_end(t@, i as int),
        decreases n - i,
    {
        i = i + 1;
    }
    let name = &t[0..i];
    assert(name@ =~= py_name(t@));
    (string_of(name), contains_str(&t, "=="))
}

/// The dependencies that the first `n` requirements declare; one without a name declares none.
pub open spec fn py_deps(items: Seq<Seq<char>>, path: Seq<char>, n: int) -> Seq<DepFacts>
    decreases n,
{
    if n <= 0 || n > items.len() {
        Seq::empty()
    } else if py_name(items[n - 1]).len() == 0 {
        py_deps(items, path, n - 1)
    } else {
        py_deps(items, path, n - 1).push(
            DepFacts {
                name: py_name(items[n - 1]),
                spec: items[n - 1],
                pinned: is_py_pinned(items[n - 1]),
                source_path: path,
            },
        )
    }
}

/// The dependencies that requirements declare.
pub fn py_dependencies(items: &Vec<String>, path: &str) -> (r: Vec<Dep>)
    ensures
        dep_facts(r@) == py_deps(text::strings(items@), path@, items@.len() as int),
{
    let ghost all = text::strings(items@);
    let mut out: Vec<Dep> = Vec::new();
    assert(dep_facts(out@) =~= py_deps(all, path@, 0));
    for i in 0..items.len()
        invariant
            all == text::strings(items@),
            dep_facts(out@) == py_deps(all, path@, i as int),
    {
        let ghost before = dep_facts(out@);
        let (name, pinned) = py_dep(items[i].as_str());
        assert(all[i as int] == items@[i as int]@);
        let named: bool = chars_of(name.as_str()).len() > 0;
        if named {
            let d = Dep { name, spec: items[i].clone(), pinned, source_path: path.to_owned() };
            out.push(d);
            assert(dep_facts(out@) =~= before.push(d@));
        }
    }
    out
}

/// The quoted strings at `i` or later. One that is not closed reaches to the end.
pub open spec fn quoted_items(s: Seq<char>, i: int) -> Seq<Seq<char>>
    decreases s.len() + 1 - i,
{
    if i < 0 || i >= s.len() {
        Seq::empty()
    } else if s[i] == '"' || s[i] == '\'' {
        proof {
            text::lemma_find_char(s, s[i], i + 1);
        }
        let end = text::find_char(s, s[i], i + 1);
        seq![s.subrange(i + 1, end)] + quoted_items(s, end + 1)
    } else {
        quoted_items(s, i + 1)
    }
}

/// The quoted strings of a text.
pub fn extract_quoted(s: &str) -> (r: Vec<String>)
    ensures
        text::strings(r@) == quoted_items(s@, 0),
{
    let t = chars_of(s);
    let n: usize = t.len();
    let mut out: Vec<String> = Vec::new();
    let mut i: usize = 0;
    assert(text::strings(out@) + quoted_items(t@, 0) =~= quoted_items(t@, 0));
    while i < n
        invariant
            t@ == s@,
            n == t@.len(),
            text::strings(out@) + quoted_items(t@, i as int) == quoted_items(t@, 0),
        decreases n - i,
    {
        let ghost before = text::strings(out@);
        let ghost at = i as int;
        if t[i] == '"' || t[i] == '\'' {
            let end: usize = index_of_char(&t, t[i], i + 1);
            let item = &t[i + 1..end];
            out.push(string_of(item));
            assert(text::strings(out@) =~= before.push(item@));
            if end == n {
                assert(quoted_items(t@, end + 1) =~= Seq::empty());
                assert(text::strings(out@) =~= before + quoted_items(t@, at));
                assert(before + quoted_items(t@, at) == quoted_items(t@, 0));
                return out;
            }
            i = end + 1;
        } else {
            i = i + 1;
        }
        assert(text::strings(out@) + quoted_items(t@, i as int) =~= before + quoted_items(t@, at));
    }
    assert(text::strings(out@) =~= quoted_items(t@, 0));
    out
}

/// A character of the name of a table: of a bare or quoted key, a dot or a blank.
pub open spec fn is_table_char(c: char) -> bool {
    text::is_ident_char(c, false) || c == '-' || c == '.' || c == ' ' || c == '"' || c == '\''
}

/// The name of a table: it begins with a bare key.
pub open spec fn is_table_name(name: Seq<char>) -> bool {
    &&& text::ident_prefix(name, false).len() > 0
    &&& forall|k: int| 0 <= k < name.len() ==> is_table_char(#[trigger] name[k])
}

/// The name in a line that is the header of a table: the name in single or double brackets, with
/// nothing but a comment after it.
pub open spec fn table_name(t: Seq<char>) -> Option<Seq<char>> {
    let brackets: int = if text::starts_with(t, "[["@) {
        2
    } else {
        1
    };
    let close = text::find_char(t, ']', brackets);
    let name = text::trim(t.subrange(brackets, close));
    let rest = text::trim_start(t.skip(close + brackets));
    if text::starts_with(t, "["@) && close + brackets <= t.len() && is_table_name(name) && (rest.len() == 0 || rest[0] == '#')
        && (brackets == 1 || t[close + 1] == ']') {
        Some(name)
    } else {
        None
    }
}

/// A list goes on after line `t`.
pub open spec fn goes_on(t: Seq<char>) -> bool {
    t.len() > 0 && (t.last() == ',' || t.last() == '[')
}

/// The name of the table that line `i` begins. A row of a list begins none.
pub open spec fn table_at(ls: Seq<Seq<char>>, i: int) -> Option<Seq<char>> {
    if i > 0 && goes_on(text::trim(ls[i - 1])) {
        None
    } else {
        table_name(text::trim(ls[i]))
    }
}

/// Line `t` assigns a list to the key `dependencies`.
pub open spec fn opens_deps(t: Seq<char>) -> bool {
    let eq = text::find_char(t, '=', 0);
    &&& eq < t.len()
    &&& text::trim(t.take(eq)) == "dependencies"@
    &&& text::starts_with(text::trim_start(t.skip(eq + 1)), "["@)
}

/// The first line at `i` or later that opens the dependency list of the project. `ours` says whether
/// the lines before belong to the table `project`, or to none.
pub open spec fn deps_start(ls: Seq<Seq<char>>, i: int, ours: bool) -> Option<int>
    decreases ls.len() - i,
{
    if i < 0 || i >= ls.len() {
        None
    } else {
        match table_at(ls, i) {
            Some(name) => deps_start(ls, i + 1, name == "project"@),
            None => if ours && opens_deps(text::trim(ls[i])) {
                Some(i)
            } else {
                deps_start(ls, i + 1, ours)
            },
        }
    }
}

/// The lines from `i` on, each after a line feed.
pub open spec fn lines_after(ls: Seq<Seq<char>>, i: int) -> Seq<char>
    decreases ls.len() - i,
{
    if i < 0 || i >= ls.len() {
        Seq::empty()
    } else {
        "\n"@ + ls[i] + lines_after(ls, i + 1)
    }
}

/// What follows the bracket that opens the list on line `i`.
pub open spec fn list_rest(ls: Seq<Seq<char>>, i: int) -> Seq<char> {
    let t = text::trim(ls[i]);
    t.skip(text::find_char(t, '[', 0) + 1) + lines_after(ls, i + 1)
}

/// What belongs to a list from `i` on: up to the first closing bracket that is not quoted, without
/// comments.
pub open spec fn list_text(s: Seq<char>, i: int) -> Seq<char>
    decreases s.len() + 1 - i,
{
    if i < 0 || i >= s.len() || s[i] == ']' {
        Seq::empty()
    } else if s[i] == '#' {
        proof {
            text::lemma_find_char(s, '\n', i + 1);
        }
        list_text(s, text::find_char(s, '\n', i + 1))
    } else if s[i] == '"' || s[i] == '\'' {
        proof {
            text::lemma_find_char(s, s[i], i + 1);
        }
        let end = text::find_char(s, s[i], i + 1);
        if end < s.len() {
            s.subrange(i, end + 1) + list_text(s, end + 1)
        } else {
            s.skip(i)
        }
    } else {
        seq![s[i]] + list_text(s, i + 1)
    }
}

/// The requirements of a `pyproject.toml`: what is quoted in the list under `dependencies` in the
/// table `project`. The table form of Poetry is not read.
pub open spec fn pyproject_items(content: Seq<char>) -> Seq<Seq<char>> {
    let ls = text::lines(content);
    match deps_start(ls, 0, true) {
        Some(i) => quoted_items(list_text(list_rest(ls, i), 0), 0),
        None => Seq::empty(),
    }
}

fn is_deps_line(t: &[char]) -> (r: bool)
    ensures
        r == opens_deps(t@),
{
    let n: usize = t.len();
    let eq: usize = index_of_char(t, '=', 0);
    if eq >= n {
        return false;
    }
    let key = &t[0..eq];
    assert(key@ =~= t@.take(eq as int));
    let rest = &t[eq + 1..n];
    assert(rest@ =~= t@.skip(eq + 1));
    is_text(trimmed(key), "dependencies") && starts_with_str(trimmed_start(rest), "[")
}

fn named_table<'a>(t: &'a [char]) -> (r: Option<&'a [char]>)
    ensures
        match r {
            Some(name) => table_name(t@) == Some(name@),
            None => table_name(t@) is None,
        },
{
    proof {
        reveal_strlit("[");
        reveal_strlit("[[");
    }
    let n: usize = t.len();
    if !starts_with_str(t, "[") {
        return None;
    }
    let brackets: usize = if starts_with_str(t, "[[") {
        2
    } else {
        1
    };
    proof {
        text::lemma_find_char(t@, ']', brackets as int);
    }
    let close: usize = index_of_char(t, ']', brackets);
    if n - close < brackets {
        return None;
    }
    let name = trimmed(&t[brackets..close]);
    let after = &t[close + brackets..n];
    assert(after@ =~= t@.skip(close + brackets));
    let rest = trimmed_start(after);
    if (rest.len() > 0 && rest[0] != '#') || (brackets == 2 && t[close + 1] != ']') || leading_ident(name, false).len()
        == 0 {
        return None;
    }
    for k in 0..name.len()
        invariant
            forall|j: int| 0 <= j < k ==> is_table_char(#[trigger] name@[j]),
            name@ == text::trim(t@.subrange(brackets as int, close as int)),
            (text::starts_with(t@, "[["@) && brackets == 2) || (!text::starts_with(t@, "[["@) && brackets == 1),
            close == text::find_char(t@, ']', brackets as int),
    {
        let c: char = name[k];
        if !(ident_char(c, false) || c == '-' || c == '.' || c == ' ' || c == '"' || c == '\'') {
            assert(!is_table_char(name@[k as int]));
            return None;
        }
    }
    Some(name)
}

fn table_begun<'a>(ls: &Vec<&'a [char]>, i: usize) -> (r: Option<&'a [char]>)
    requires
        i < ls@.len(),
    ensures
        match r {
            Some(name) => table_at(text::views(ls@), i as int) == Some(name@),
            None => table_at(text::views(ls@), i as int) is None,
        },
{
    let ghost all = text::views(ls@);
    assert(all[i as int] == ls@[i as int]@);
    if i > 0 {
        assert(all[i - 1] == ls@[i - 1]@);
        let before = trimmed(ls[i - 1]);
        let n: usize = before.len();
        if n > 0 && (before[n - 1] == ',' || before[n - 1] == '[') {
            return None;
        }
    }
    named_table(trimmed(ls[i]))
}

fn find_deps_start(ls: &Vec<&[char]>) -> (r: Option<usize>)
    ensures
        match r {
            Some(i) => deps_start(text::views(ls@), 0, true) == Some(i as int) && i < ls@.len() && opens_deps(
                text::trim(ls@[i as int]@),
            ),
            None => deps_start(text::views(ls@), 0, true) is None,
        },
{
    let ghost all = text::views(ls@);
    let n: usize = ls.len();
    let mut ours: bool = true;
    let mut i: usize = 0;
    while i < n
        invariant
            all == text::views(ls@),
            n == ls@.len(),
            i <= n,
            deps_start(all, 0, true) == deps_start(all, i as int, ours),
        decreases n - i,
    {
        let t = trimmed(ls[i]);
        assert(t@ == text::trim(all[i as int]));
        match table_begun(ls, i) {
            Some(name) => {
                ours = is_text(name, "project");
            },
            None => {
                if ours && is_deps_line(t) {
                    return Some(i);
                }
            },
        }
        i = i + 1;
    }
    None
}

fn rest_of_list(ls: &Vec<&[char]>, at: usize) -> (r: Vec<char>)
    requires
        at < ls@.len(),
        opens_deps(text::trim(ls@[at as int]@)),
    ensures
        r@ == list_rest(text::views(ls@), at as int),
{
    let ghost all = text::views(ls@);
    let n: usize = ls.len();
    let t = trimmed(ls[at]);
    assert(t@ == text::trim(all[at as int]));
    let len: usize = t.len();
    let open: usize = index_of_char(t, '[', 0);
    proof {
        text::lemma_find_char(t@, '[', 0);
        lemma_opens_with_bracket(t@);
    }
    let head = &t[open + 1..len];
    assert(head@ =~= t@.skip(open + 1));
    let mut out: Vec<char> = Vec::new();
    append(&mut out, head);
    let ghost whole = list_rest(all, at as int);
    assert(out@ + lines_after(all, at + 1) =~= whole);
    let mut i: usize = at + 1;
    while i < n
        invariant
            all == text::views(ls@),
            n == ls@.len(),
            i <= n,
            out@ + lines_after(all, i as int) == whole,
        decreases n - i,
    {
        let ghost before = out@;
        assert(all[i as int] == ls@[i as int]@);
        append_str(&mut out, "\n");
        append(&mut out, ls[i]);
        assert(out@ + lines_after(all, i + 1) =~= before + lines_after(all, i as int));
        i = i + 1;
    }
    assert(out@ =~= whole);
    out
}

/// A line that opens the list holds a bracket.
proof fn lemma_opens_with_bracket(t: Seq<char>)
    requires
        opens_deps(t),
    ensures
        text::find_char(t, '[', 0) < t.len(),
{
    reveal_strlit("[");
    let eq = text::find_char(t, '=', 0);
    let rest = t.skip(eq + 1);
    let k = text::skip_space(rest, 0);
    text::lemma_find_char(t, '=', 0);
    text::lemma_skip_space(rest, 0);
    let v = text::trim_start(rest);
    assert(v.subrange(0, 1)[0] == '[');
    assert(v[0] == rest[k]);
    assert(t[eq + 1 + k] == '[');
    text::lemma_find_char(t, '[', 0);
}

fn cut_list(t: &[char]) -> (r: Vec<char>)
    ensures
        r@ == list_text(t@, 0),
{
    let n: usize = t.len();
    let ghost whole = list_text(t@, 0);
    let mut out: Vec<char> = Vec::new();
    let mut i: usize = 0;
    assert(out@ + list_text(t@, 0) =~= whole);
    while i < n && t[i] != ']'
        invariant
            n == t@.len(),
            i <= n,
            out@ + list_text(t@, i as int) == whole,
        decreases n - i,
    {
        let ghost before = out@;
        let ghost at = i as int;
        let c: char = t[i];
        if c == '#' {
            i = index_of_char(t, '\n', i + 1);
        } else if c == '"' || c == '\'' {
            let end: usize = index_of_char(t, c, i + 1);
            if end >= n {
                append(&mut out, &t[i..n]);
                assert(t@.subrange(i as int, n as int) =~= t@.skip(i as int));
                i = n;
            } else {
                append(&mut out, &t[i..end + 1]);
                i = end + 1;
            }
        } else {
            out.push(c);
            i = i + 1;
        }
        assert(out@ + list_text(t@, i as int) =~= before + list_text(t@, at));
    }
    assert(out@ =~= whole);
    out
}

/// The dependencies that a `pyproject.toml` declares.
pub fn parse_pyproject(content: &str, path: &str) -> (r: Vec<Dep>)
    ensures
        dep_facts(r@) == py_deps(pyproject_items(content@), path@, pyproject_items(content@).len() as int),
{
    let t = chars_of(content);
    let ls = lines_of(&t);
    match find_deps_start(&ls) {
        Some(at) => {
            let rest = rest_of_list(&ls, at);
            let text = cut_list(&rest);
            let buf = string_of(&text);
            let items = extract_quoted(buf.as_str());
            py_dependencies(&items, path)
        },
        None => {
            let none: Vec<Dep> = Vec::new();
            assert(dep_facts(none@) =~= Seq::empty());
            none
        },
    }
}

/// A line of a `requirements.txt` that names a package: not blank, no comment and no option.
pub open spec fn is_requirement(t: Seq<char>) -> bool {
    t.len() > 0 && t[0] != '#' && t[0] != '-'
}

/// The requirements in the first `n` lines.
pub open spec fn requirement_items(ls: Seq<Seq<char>>, n: int) -> Seq<Seq<char>>
    decreases n,
{
    if n <= 0 || n > ls.len() {
        Seq::empty()
    } else if is_requirement(text::trim(ls[n - 1])) {
        requirement_items(ls, n - 1).push(text::trim(ls[n - 1]))
    } else {
        requirement_items(ls, n - 1)
    }
}

/// The requirements of a `requirements.txt`.
pub open spec fn requirements_of(content: Seq<char>) -> Seq<Seq<char>> {
    requirement_items(text::lines(content), text::lines(content).len() as int)
}

/// The dependencies that a `requirements.txt` declares.
pub fn parse_requirements(content: &str, path: &str) -> (r: Vec<Dep>)
    ensures
        dep_facts(r@) == py_deps(requirements_of(content@), path@, requirements_of(content@).len() as int),
{
    let t = chars_of(content);
    let ls = lines_of(&t);
    let ghost all = text::views(ls@);
    let mut items: Vec<String> = Vec::new();
    assert(text::strings(items@) =~= requirement_items(all, 0));
    for i in 0..ls.len()
        invariant
            all == text::views(ls@),
            text::strings(items@) == requirement_items(all, i as int),
    {
        let ghost before = text::strings(items@);
        let line = trimmed(ls[i]);
        assert(line@ == text::trim(all[i as int]));
        if line.len() > 0 && line[0] != '#' && line[0] != '-' {
            items.push(string_of(line));
            assert(text::strings(items@) =~= before.push(line@));
        }
    }
    py_dependencies(&items, path)
}

} // verus!
