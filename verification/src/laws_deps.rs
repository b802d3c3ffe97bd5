//! What reading dependencies is for, stated over the requirements and the texts that declare them.
use crate::deps;
use crate::deps::DepFacts;
use crate::json;
use crate::json::JsonTree;
use crate::laws_python;
use crate::laws_text;
use crate::text;
use vstd::prelude::*;

verus! {

// --- pinned versions -------------------------------------------------------

/// A Python requirement is pinned exactly where it holds `==`, whatever else it asks for. Each
/// requirement that names a package is listed, as it was written, with the file that holds it.
pub proof fn law_requirements_are_pinned_by_two_equals(items: Seq<Seq<char>>, path: Seq<char>, i: int, name: Seq<char>)
    requires
        0 <= i < items.len(),
        name == deps::py_name(items[i]),
        name.len() > 0,
    ensures
        deps::py_deps(items, path, items.len() as int).contains(
            DepFacts { name, spec: items[i], pinned: text::contains(items[i], "=="@), source_path: path },
        ),
        !text::contains(items[i], "=="@) ==> deps::py_deps(items, path, items.len() as int).contains(
            DepFacts { name, spec: items[i], pinned: false, source_path: path },
        ),
{
    lemma_item_is_listed(items, path, i, items.len() as int);
}

proof fn lemma_item_is_listed(items: Seq<Seq<char>>, path: Seq<char>, i: int, n: int)
    requires
        0 <= i < n <= items.len(),
        deps::py_name(items[i]).len() > 0,
    ensures
        deps::py_deps(items, path, n).contains(
            DepFacts {
                name: deps::py_name(items[i]),
                spec: items[i],
                pinned: text::contains(items[i], "=="@),
                source_path: path,
            },
        ),
    decreases n,
{
    let before = deps::py_deps(items, path, n - 1);
    let now = deps::py_deps(items, path, n);
    let d = DepFacts {
        name: deps::py_name(items[i]),
        spec: items[i],
        pinned: text::contains(items[i], "=="@),
        source_path: path,
    };
    if i == n - 1 {
        assert(now[before.len() as int] == d);
    } else {
        lemma_item_is_listed(items, path, i, n - 1);
        let k = choose|k: int| 0 <= k < before.len() && before[k] == d;
        assert(now[k] == d);
    }
}

/// No dependency comes from anywhere else: each one that is listed stands for a requirement of the
/// text, and is pinned exactly where that holds `==`.
pub proof fn law_listed_dependencies_are_requirements(items: Seq<Seq<char>>, path: Seq<char>, k: int)
    requires
        0 <= k < deps::py_deps(items, path, items.len() as int).len(),
    ensures
        ({
            let d = deps::py_deps(items, path, items.len() as int)[k];
            &&& items.contains(d.spec)
            &&& d.name == deps::py_name(d.spec) && d.name.len() > 0
            &&& d.pinned <==> text::contains(d.spec, "=="@)
            &&& d.source_path == path
        }),
{
    lemma_listed_from(items, path, items.len() as int, k);
}

proof fn lemma_listed_from(items: Seq<Seq<char>>, path: Seq<char>, n: int, k: int)
    requires
        0 <= n <= items.len(),
        0 <= k < deps::py_deps(items, path, n).len(),
    ensures
        ({
            let d = deps::py_deps(items, path, n)[k];
            &&& items.contains(d.spec)
            &&& d.name == deps::py_name(d.spec) && d.name.len() > 0
            &&& d.pinned <==> text::contains(d.spec, "=="@)
            &&& d.source_path == path
        }),
    decreases n,
{
    let before = deps::py_deps(items, path, n - 1);
    if k < before.len() {
        lemma_listed_from(items, path, n - 1, k);
        assert(deps::py_deps(items, path, n)[k] == before[k]);
    }
}

/// A requirement names the package before the first character that is no letter, digit, hyphen,
/// underscore or dot.
pub proof fn law_requirements_begin_with_their_package(name: Seq<char>, rest: Seq<char>)
    requires
        forall|i: int|
            0 <= i < name.len() ==> ('0' <= #[trigger] name[i] <= '9') || ('a' <= name[i] <= 'z') || ('A' <= name[i] <= 'Z')
                || name[i] == '-' || name[i] == '_' || name[i] == '.',
        rest.len() == 0 || !(('0' <= rest[0] <= '9') || ('a' <= rest[0] <= 'z') || ('A' <= rest[0] <= 'Z') || rest[0] == '-'
            || rest[0] == '_' || rest[0] == '.'),
    ensures
        deps::py_name(name + rest) == name,
{
    lemma_name_end_is(name, rest, 0);
    assert((name + rest).take(name.len() as int) =~= name);
}

proof fn lemma_name_end_is(name: Seq<char>, rest: Seq<char>, i: int)
    requires
        0 <= i <= name.len(),
        forall|k: int| 0 <= k < name.len() ==> deps::is_name_char(#[trigger] name[k]),
        rest.len() == 0 || !deps::is_name_char(rest[0]),
    ensures
        deps::name_end(name + rest, i) == name.len(),
    decreases name.len() - i,
{
    let s = name + rest;
    if i < name.len() {
        assert(s[i] == name[i]);
        lemma_name_end_is(name, rest, i + 1);
    } else if rest.len() > 0 {
        assert(s[i] == rest[0]);
    }
}

/// Every entry of a `package.json` is a dependency, under its name. It is pinned exactly where its
/// version is made of digits and dots and begins with a digit, white space at the ends aside; a range, a
/// tag or a missing version is not.
pub proof fn law_entries_are_pinned_to_plain_versions(
    entries: Seq<(Seq<char>, Option<Seq<char>>)>,
    path: Seq<char>,
    i: int,
)
    requires
        0 <= i < entries.len(),
    ensures
        ({
            let d = deps::npm_deps(entries, path)[i];
            let v = text::trim(d.spec);
            &&& deps::npm_deps(entries, path).len() == entries.len()
            &&& d.name == entries[i].0
            &&& d.source_path == path
            &&& entries[i].1 matches Some(s) ==> d.spec == s
            &&& entries[i].1 is None ==> d.spec.len() == 0 && !d.pinned
            &&& d.pinned <==> v.len() > 0 && ('0' <= v[0] <= '9') && forall|k: int|
                0 <= k < v.len() ==> ('0' <= #[trigger] v[k] <= '9') || v[k] == '.'
        }),
{
    let d = deps::npm_deps(entries, path)[i];
    if entries[i].1 is None {
        text::lemma_skip_space(d.spec, 0);
        assert(text::trim_start(d.spec).len() == 0);
        text::lemma_skip_space_back(text::trim_start(d.spec), 0);
        assert(text::trim(d.spec).len() == 0);
    }
}

/// The entries of a `package.json` are the members of its object `dependencies`, each one with its
/// version where that is a string.
pub proof fn law_entries_are_the_members(content: Seq<char>, ms: Seq<(Seq<char>, JsonTree)>, i: int)
    requires
        json::json_text(content) matches Some(t) && json::member_of(t, "dependencies"@) == Some(JsonTree::Table(ms)),
        0 <= i < ms.len(),
    ensures
        deps::npm_entries(content).len() == ms.len(),
        deps::npm_entries(content)[i].0 == ms[i].0,
        forall|s: Seq<char>| #[trigger] deps::npm_entries(content)[i].1 == Some(s) <==> ms[i].1 == JsonTree::Text(s),
{
}

// --- requirements.txt ------------------------------------------------------

/// Every line of a `requirements.txt` is a requirement, without the white space at its ends, but for
/// blank lines, comments and options.
pub proof fn law_lines_are_requirements(content: Seq<char>, i: int)
    requires
        0 <= i < text::lines(content).len(),
    ensures
        ({
            let t = text::trim(text::lines(content)[i]);
            t.len() > 0 && t[0] != '#' && t[0] != '-' ==> deps::requirements_of(content).contains(t)
        }),
{
    let ls = text::lines(content);
    if deps::is_requirement(text::trim(ls[i])) {
        lemma_line_is_listed(ls, i, ls.len() as int);
    }
}

proof fn lemma_line_is_listed(ls: Seq<Seq<char>>, i: int, n: int)
    requires
        0 <= i < n <= ls.len(),
        deps::is_requirement(text::trim(ls[i])),
    ensures
        deps::requirement_items(ls, n).contains(text::trim(ls[i])),
    decreases n,
{
    let before = deps::requirement_items(ls, n - 1);
    let now = deps::requirement_items(ls, n);
    if i == n - 1 {
        assert(now[before.len() as int] == text::trim(ls[i]));
    } else {
        lemma_line_is_listed(ls, i, n - 1);
        let k = choose|k: int| 0 <= k < before.len() && before[k] == text::trim(ls[i]);
        assert(now[k] == text::trim(ls[i]));
    }
}

/// A requirement of a `requirements.txt` is one of its lines: not a blank one, a comment or an option.
pub proof fn law_requirements_are_lines(content: Seq<char>, k: int)
    requires
        0 <= k < deps::requirements_of(content).len(),
    ensures
        ({
            let t = deps::requirements_of(content)[k];
            &&& t.len() > 0 && t[0] != '#' && t[0] != '-'
            &&& exists|i: int| 0 <= i < text::lines(content).len() && t == text::trim(#[trigger] text::lines(content)[i])
        }),
{
    lemma_requirement_from(text::lines(content), text::lines(content).len() as int, k);
}

proof fn lemma_requirement_from(ls: Seq<Seq<char>>, n: int, k: int)
    requires
        0 <= n <= ls.len(),
        0 <= k < deps::requirement_items(ls, n).len(),
    ensures
        ({
            let t = deps::requirement_items(ls, n)[k];
            &&& t.len() > 0 && t[0] != '#' && t[0] != '-'
            &&& exists|i: int| 0 <= i < ls.len() && t == text::trim(#[trigger] ls[i])
        }),
    decreases n,
{
    let before = deps::requirement_items(ls, n - 1);
    if k < before.len() {
        lemma_requirement_from(ls, n - 1, k);
        assert(deps::requirement_items(ls, n)[k] == before[k]);
    } else {
        assert(deps::requirement_items(ls, n)[k] == text::trim(ls[n - 1]));
    }
}

// --- pyproject.toml --------------------------------------------------------

/// The strings of a list are what its quotes hold, one after the other.
pub proof fn law_quoted_strings_are_read_one_by_one(a: Seq<char>, q: char, body: Seq<char>, rest: Seq<char>)
    requires
        q == '"' || q == '\'',
        forall|i: int| 0 <= i < a.len() ==> (#[trigger] a[i]) != '"' && a[i] != '\'',
        forall|i: int| 0 <= i < body.len() ==> #[trigger] body[i] != q,
    ensures
        deps::quoted_items(a, 0) == Seq::<Seq<char>>::empty(),
        deps::quoted_items(a + seq![q] + body + seq![q] + rest, 0) == seq![body] + deps::quoted_items(rest, 0),
{
    lemma_no_quotes(a, Seq::empty(), 0);
    assert(a + Seq::<char>::empty() =~= a);
    let s = a + seq![q] + body + seq![q] + rest;
    let tail = seq![q] + body + seq![q] + rest;
    assert(s =~= a + tail);
    lemma_no_quotes(a, tail, 0);
    let n = a.len() as int;
    let e = n + 1 + body.len();
    assert(s[n] == q && s[e] == q);
    text::lemma_find_char(s, q, n + 1);
    assert forall|i: int| n + 1 <= i < e implies s[i] != q by {
        assert(s[i] == body[i - n - 1]);
    }
    assert(text::find_char(s, q, n + 1) == e);
    assert(s.subrange(n + 1, e) =~= body);
    let head = a + seq![q] + body + seq![q];
    assert(s =~= head + rest);
    lemma_quoted_shift(head, rest, 0);
}

proof fn lemma_no_quotes(a: Seq<char>, tail: Seq<char>, i: int)
    requires
        0 <= i <= a.len(),
        forall|k: int| 0 <= k < a.len() ==> (#[trigger] a[k]) != '"' && a[k] != '\'',
    ensures
        deps::quoted_items(a + tail, i) == deps::quoted_items(a + tail, a.len() as int),
    decreases a.len() - i,
{
    let s = a + tail;
    if i < a.len() {
        assert(s[i] == a[i]);
        lemma_no_quotes(a, tail, i + 1);
    }
}

proof fn lemma_quoted_shift(head: Seq<char>, rest: Seq<char>, i: int)
    requires
        0 <= i <= rest.len() + 1,
    ensures
        deps::quoted_items(head + rest, head.len() + i) == deps::quoted_items(rest, i),
    decreases rest.len() + 1 - i,
{
    let s = head + rest;
    let n = head.len() as int;
    if i < rest.len() {
        let c = rest[i];
        assert(s[n + i] == c);
        if c == '"' || c == '\'' {
            text::lemma_find_char(rest, c, i + 1);
            laws_text::lemma_find_char_shift(head, rest, c, i + 1);
            let e = text::find_char(rest, c, i + 1);
            assert(s.subrange(n + i + 1, n + e) =~= rest.subrange(i + 1, e));
            lemma_quoted_shift(head, rest, e + 1);
        } else {
            lemma_quoted_shift(head, rest, i + 1);
        }
    }
}

/// A list reaches to its closing bracket. What is quoted belongs to it, a bracket too, and what stands
/// in a comment does not.
pub proof fn law_lists_end_at_their_bracket(a: Seq<char>, q: char, body: Seq<char>, note: Seq<char>, rest: Seq<char>)
    requires
        q == '"' || q == '\'',
        forall|i: int| 0 <= i < a.len() ==> (#[trigger] a[i]) != '"' && a[i] != '\'' && a[i] != ']' && a[i] != '#',
        forall|i: int| 0 <= i < body.len() ==> #[trigger] body[i] != q,
        forall|i: int| 0 <= i < note.len() ==> #[trigger] note[i] != '\n',
    ensures
        deps::list_text(a + seq![']'] + rest, 0) == a,
        deps::list_text(a + seq![q] + body + seq![q] + rest, 0) == a + seq![q] + body + seq![q] + deps::list_text(rest, 0),
        deps::list_text(a + seq!['#'] + note + seq!['\n'] + rest, 0) == a + seq!['\n'] + deps::list_text(rest, 0),
{
    let n = a.len() as int;
    let none = Seq::<char>::empty();

    let s1 = a + seq![']'] + rest;
    assert(s1 =~= a + (seq![']'] + rest));
    lemma_plain_list(a, seq![']'] + rest, 0);
    assert(s1[n] == ']');
    assert(a.skip(0) =~= a);
    assert(deps::list_text(s1, n) =~= none);

    let s2 = a + seq![q] + body + seq![q] + rest;
    let t2 = seq![q] + body + seq![q] + rest;
    assert(s2 =~= a + t2);
    lemma_plain_list(a, t2, 0);
    let e = n + 1 + body.len();
    assert(s2[n] == q && s2[e] == q);
    text::lemma_find_char(s2, q, n + 1);
    assert forall|i: int| n + 1 <= i < e implies s2[i] != q by {
        assert(s2[i] == body[i - n - 1]);
    }
    assert(text::find_char(s2, q, n + 1) == e);
    let h2 = a + seq![q] + body + seq![q];
    assert(s2 =~= h2 + rest);
    lemma_list_shift(h2, rest, 0);
    assert(s2.subrange(n, e + 1) =~= seq![q] + body + seq![q]);
    assert(deps::list_text(s2, 0) =~= a + seq![q] + body + seq![q] + deps::list_text(rest, 0));

    let s3 = a + seq!['#'] + note + seq!['\n'] + rest;
    let t3 = seq!['#'] + note + seq!['\n'] + rest;
    assert(s3 =~= a + t3);
    lemma_plain_list(a, t3, 0);
    let f = n + 1 + note.len();
    assert(s3[n] == '#' && s3[f] == '\n');
    text::lemma_find_char(s3, '\n', n + 1);
    assert forall|i: int| n + 1 <= i < f implies s3[i] != '\n' by {
        assert(s3[i] == note[i - n - 1]);
    }
    assert(text::find_char(s3, '\n', n + 1) == f);
    let h3 = a + seq!['#'] + note + seq!['\n'];
    assert(s3 =~= h3 + rest);
    lemma_list_shift(h3, rest, 0);
    assert(deps::list_text(s3, f) =~= seq!['\n'] + deps::list_text(rest, 0));
    assert(deps::list_text(s3, 0) =~= a + seq!['\n'] + deps::list_text(rest, 0));
}

proof fn lemma_plain_list(a: Seq<char>, tail: Seq<char>, i: int)
    requires
        0 <= i <= a.len(),
        forall|k: int| 0 <= k < a.len() ==> (#[trigger] a[k]) != '"' && a[k] != '\'' && a[k] != ']' && a[k] != '#',
    ensures
        deps::list_text(a + tail, i) == a.skip(i) + deps::list_text(a + tail, a.len() as int),
    decreases a.len() - i,
{
    let s = a + tail;
    if i < a.len() {
        assert(s[i] == a[i]);
        lemma_plain_list(a, tail, i + 1);
        assert(seq![a[i]] + a.skip(i + 1) =~= a.skip(i));
        assert(deps::list_text(s, i) =~= a.skip(i) + deps::list_text(s, a.len() as int));
    } else {
        assert(a.skip(i) + deps::list_text(s, i) =~= deps::list_text(s, i));
    }
}

proof fn lemma_list_shift(head: Seq<char>, rest: Seq<char>, i: int)
    requires
        0 <= i <= rest.len() + 1,
    ensures
        deps::list_text(head + rest, head.len() + i) == deps::list_text(rest, i),
    decreases rest.len() + 1 - i,
{
    let s = head + rest;
    let n = head.len() as int;
    if i < rest.len() {
        let c = rest[i];
        assert(s[n + i] == c);
        if c == ']' {
        } else if c == '#' {
            text::lemma_find_char(rest, '\n', i + 1);
            laws_text::lemma_find_char_shift(head, rest, '\n', i + 1);
            lemma_list_shift(head, rest, text::find_char(rest, '\n', i + 1));
        } else if c == '"' || c == '\'' {
            text::lemma_find_char(rest, c, i + 1);
            laws_text::lemma_find_char_shift(head, rest, c, i + 1);
            let e = text::find_char(rest, c, i + 1);
            if e < rest.len() {
                assert(s.subrange(n + i, n + e + 1) =~= rest.subrange(i, e + 1));
                lemma_list_shift(head, rest, e + 1);
            } else {
                assert(s.skip(n + i) =~= rest.skip(i));
            }
        } else {
            lemma_list_shift(head, rest, i + 1);
        }
    }
}

/// The dependency list of a project is the first one that is assigned to `dependencies` in the table
/// `project`, or before any table; a list in another table is not read.
pub proof fn law_the_list_of_the_project_is_read(ls: Seq<Seq<char>>, i: int)
    requires
        0 <= i < ls.len(),
    ensures
        deps::deps_start(ls, 0, true) == Some(i) ==> deps::table_at(ls, i) is None && deps::opens_deps(text::trim(ls[i])) && in_project(ls, i),
        deps::deps_start(ls, 0, true) == Some(i) ==> forall|j: int|
            0 <= j < i && deps::table_at(ls, j) is None && in_project(ls, j) ==> !deps::opens_deps(text::trim(#[trigger] ls[j])),
        deps::table_at(ls, i) is None && deps::opens_deps(text::trim(ls[i])) && in_project(ls, i) ==> (deps::deps_start(ls, 0, true) matches Some(k)
            && k <= i),
{
    lemma_deps_start(ls, 0);
}

/// The last table that begins before line `i` is `project`, or none does.
pub open spec fn in_project(ls: Seq<Seq<char>>, i: int) -> bool {
    ||| forall|j: int| 0 <= j < i ==> deps::table_at(ls, j) is None
    ||| exists|j: int|
        0 <= j < i && #[trigger] deps::table_at(ls, j) == Some("project"@) && forall|k: int| j < k < i ==> deps::table_at(ls, k) is None
}

proof fn lemma_in_project_next(ls: Seq<Seq<char>>, i: int)
    requires
        0 <= i < ls.len(),
    ensures
        in_project(ls, i + 1) == (match deps::table_at(ls, i) {
            Some(name) => name == "project"@,
            None => in_project(ls, i),
        }),
{
    if deps::table_at(ls, i) is Some {
        if deps::table_at(ls, i) == Some("project"@) {
            assert(forall|k: int| i < k < i + 1 ==> deps::table_at(ls, k) is None);
        }
    } else {
        if in_project(ls, i) && !(forall|j: int| 0 <= j < i ==> deps::table_at(ls, j) is None) {
            let j = choose|j: int|
                0 <= j < i && #[trigger] deps::table_at(ls, j) == Some("project"@) && forall|k: int|
                    j < k < i ==> deps::table_at(ls, k) is None;
            assert(forall|k: int| j < k < i + 1 ==> deps::table_at(ls, k) is None);
        }
        if in_project(ls, i + 1) && !(forall|j: int| 0 <= j < i + 1 ==> deps::table_at(ls, j) is None) {
            let j = choose|j: int|
                0 <= j < i + 1 && #[trigger] deps::table_at(ls, j) == Some("project"@) && forall|k: int|
                    j < k < i + 1 ==> deps::table_at(ls, k) is None;
            assert(j < i);
        }
    }
}

proof fn lemma_deps_start(ls: Seq<Seq<char>>, i: int)
    requires
        0 <= i <= ls.len(),
    ensures
        match deps::deps_start(ls, i, in_project(ls, i)) {
            Some(k) => i <= k < ls.len() && deps::table_at(ls, k) is None && deps::opens_deps(text::trim(ls[k])) && in_project(ls, k)
                && forall|j: int|
                i <= j < k && deps::table_at(ls, j) is None && in_project(ls, j) ==> !deps::opens_deps(text::trim(#[trigger] ls[j])),
            None => forall|j: int|
                i <= j < ls.len() && deps::table_at(ls, j) is None && in_project(ls, j) ==> !deps::opens_deps(text::trim(#[trigger] ls[j])),
        },
        in_project(ls, 0),
    decreases ls.len() - i,
{
    if i < ls.len() {
        lemma_in_project_next(ls, i);
        lemma_deps_start(ls, i + 1);
    }
}

/// A line assigns a list to `dependencies` where that key stands before the first `=`, and a bracket
/// opens after it, with or without white space around the sign.
pub proof fn law_the_list_is_assigned_to_its_key(a: Seq<char>, b: Seq<char>, rest: Seq<char>, key: Seq<char>)
    requires
        text::is_blank(a),
        text::is_blank(b),
        key.len() > 0,
        !text::is_space(key[0]),
        !text::is_space(key.last()),
        forall|i: int| 0 <= i < key.len() ==> #[trigger] key[i] != '=',
    ensures
        deps::opens_deps(key + a + seq!['='] + b + seq!['['] + rest) <==> key == "dependencies"@,
        rest.len() > 0 && rest[0] != '[' && !text::is_space(rest[0]) ==> !deps::opens_deps(key + a + seq!['='] + b + rest),
{
    let none = Seq::<char>::empty();
    let lhs = key + a;
    let s = key + a + seq!['='] + b + seq!['['] + rest;
    let t = key + a + seq!['='] + b + rest;
    lemma_left_of_equals(key, a, b + seq!['['] + rest);
    assert(s =~= key + a + seq!['='] + (b + seq!['['] + rest));
    assert(s.skip(lhs.len() as int + 1) =~= b + (seq!['['] + rest));
    lemma_trim_start_around(b, seq!['['] + rest);
    reveal_strlit("[");
    assert((seq!['['] + rest).subrange(0, 1) =~= "["@);
    laws_python::lemma_trim_around(none, key, a);
    assert(none + key + a =~= lhs);
    if rest.len() > 0 && rest[0] != '[' && !text::is_space(rest[0]) {
        lemma_left_of_equals(key, a, b + rest);
        assert(t =~= key + a + seq!['='] + (b + rest));
        assert(t.skip(lhs.len() as int + 1) =~= b + rest);
        lemma_trim_start_around(b, rest);
        assert(!text::starts_with(rest, "["@)) by {
            if text::starts_with(rest, "["@) {
                assert(rest.subrange(0, 1)[0] == rest[0]);
            }
        }
    }
}

proof fn lemma_left_of_equals(key: Seq<char>, a: Seq<char>, rest: Seq<char>)
    requires
        text::is_blank(a),
        forall|i: int| 0 <= i < key.len() ==> #[trigger] key[i] != '=',
    ensures
        ({
            let s = key + a + seq!['='] + rest;
            &&& text::find_char(s, '=', 0) == (key + a).len() < s.len()
            &&& s.take((key + a).len() as int) == key + a
        }),
{
    let s = key + a + seq!['='] + rest;
    let n = (key + a).len() as int;
    assert(s[n] == '=');
    text::lemma_find_char(s, '=', 0);
    assert forall|i: int| 0 <= i < n implies s[i] != '=' by {
        if i < key.len() {
            assert(s[i] == key[i]);
        } else {
            assert(s[i] == a[i - key.len()]);
        }
    }
    assert(s.take(n) =~= key + a);
}

proof fn lemma_trim_start_around(b: Seq<char>, v: Seq<char>)
    requires
        text::is_blank(b),
        v.len() > 0,
        !text::is_space(v[0]),
    ensures
        text::trim_start(b + v) == v,
{
    let s = b + v;
    let n = b.len() as int;
    text::lemma_skip_space(s, 0);
    let k = text::skip_space(s, 0);
    assert(s[n] == v[0]);
    if k < n {
        assert(s[k] == b[k]);
    }
    assert(s.skip(n) =~= v);
}

/// A table begins with a line that holds its name in brackets, single or double.
pub proof fn law_tables_begin_with_their_name(name: Seq<char>)
    requires
        name.len() > 0,
        forall|i: int|
            0 <= i < name.len() ==> ('0' <= #[trigger] name[i] <= '9') || ('a' <= name[i] <= 'z') || ('A' <= name[i] <= 'Z')
                || name[i] == '_',
    ensures
        deps::table_name(seq!['['] + name + seq![']']) == Some(name),
        deps::table_name(seq!['[', '['] + name + seq![']', ']']) == Some(name),
        deps::table_name(name) is None,
{
    let n = name.len() as int;
    let none = Seq::<char>::empty();
    reveal_strlit("[");
    reveal_strlit("[[");
    laws_text::law_identifiers_are_read_whole(name, none, false);
    assert(name + none =~= name);
    laws_python::lemma_trim_around(none, name, none);
    assert(none + name + none =~= name);

    let t = seq!['['] + name + seq![']'];
    assert(t[0] == '[' && t[n + 1] == ']');
    assert(t.subrange(0, 1) =~= "["@);
    assert(!text::starts_with(t, "[["@)) by {
        if text::starts_with(t, "[["@) {
            assert(t.subrange(0, 2)[1] == t[1]);
            assert(t[1] == name[0]);
        }
    }
    text::lemma_find_char(t, ']', 1);
    assert forall|i: int| 1 <= i < n + 1 implies t[i] != ']' by {
        assert(t[i] == name[i - 1]);
    }
    assert(text::find_char(t, ']', 1) == n + 1);
    assert(t.subrange(1, n + 1) =~= name);
    assert(t.skip(n + 2) =~= none);
    text::lemma_skip_space(none, 0);
    assert(text::trim_start(none) =~= none);

    let u = seq!['[', '['] + name + seq![']', ']'];
    assert(u[0] == '[' && u[1] == '[' && u[n + 2] == ']' && u[n + 3] == ']');
    assert(u.subrange(0, 2) =~= "[["@);
    assert(u.subrange(0, 1) =~= "["@);
    text::lemma_find_char(u, ']', 2);
    assert forall|i: int| 2 <= i < n + 2 implies u[i] != ']' by {
        assert(u[i] == name[i - 2]);
    }
    assert(text::find_char(u, ']', 2) == n + 2);
    assert(u.subrange(2, n + 2) =~= name);
    assert(u.skip(n + 4) =~= none);

    assert(!text::starts_with(name, "["@)) by {
        if text::starts_with(name, "["@) {
            assert(name.subrange(0, 1)[0] == name[0]);
        }
    }
}

/// The requirements of a project are what is quoted in its list, and a file without that list has none.
pub proof fn law_projects_list_their_requirements(content: Seq<char>, i: int)
    requires
        0 <= i < text::lines(content).len(),
        deps::table_at(text::lines(content), i) is None,
        deps::opens_deps(text::trim(text::lines(content)[i])),
        in_project(text::lines(content), i),
        forall|j: int|
            0 <= j < i && deps::table_at(text::lines(content), j) is None && in_project(text::lines(content), j) ==> !deps::opens_deps(
                text::trim(#[trigger] text::lines(content)[j]),
            ),
    ensures
        deps::pyproject_items(content) == deps::quoted_items(deps::list_text(deps::list_rest(text::lines(content), i), 0), 0),
{
    let ls = text::lines(content);
    lemma_deps_start(ls, 0);
    let k = deps::deps_start(ls, 0, true)->0;
    if k < i {
        assert(!deps::opens_deps(text::trim(ls[k])));
    }
}

/// A project without a dependency list has no requirements.
pub proof fn law_projects_without_a_list_have_no_requirements(content: Seq<char>)
    requires
        forall|j: int| 0 <= j < text::lines(content).len() ==> !deps::opens_deps(text::trim(#[trigger] text::lines(content)[j])),
    ensures
        deps::pyproject_items(content).len() == 0,
{
    lemma_deps_start(text::lines(content), 0);
}

/// A list goes on from its bracket over the lines that follow, each one after a line feed.
pub proof fn law_lists_go_on_over_lines(ls: Seq<Seq<char>>, i: int, head: Seq<char>, rest: Seq<char>)
    requires
        0 <= i < ls.len(),
        text::trim(ls[i]) == head + seq!['['] + rest,
        forall|k: int| 0 <= k < head.len() ==> #[trigger] head[k] != '[',
    ensures
        deps::list_rest(ls, i) == rest + deps::lines_after(ls.skip(i + 1), 0),
{
    let t = text::trim(ls[i]);
    let n = head.len() as int;
    text::lemma_find_char(t, '[', 0);
    assert(t[n] == '[');
    assert forall|k: int| 0 <= k < n implies t[k] != '[' by {
        assert(t[k] == head[k]);
    }
    assert(text::find_char(t, '[', 0) == n);
    assert(t.skip(n + 1) =~= rest);
    lemma_lines_after_skip(ls, i + 1, 0);
}

proof fn lemma_lines_after_skip(ls: Seq<Seq<char>>, k: int, i: int)
    requires
        0 <= k <= ls.len(),
        0 <= i,
    ensures
        deps::lines_after(ls.skip(k), i) == deps::lines_after(ls, k + i),
    decreases ls.len() - k - i,
{
    if k + i < ls.len() {
        assert(ls.skip(k)[i] == ls[k + i]);
        lemma_lines_after_skip(ls, k, i + 1);
    }
}

/// Lines are put together again with the line feeds between them.
pub proof fn law_lines_are_put_together(a: Seq<char>, ls: Seq<Seq<char>>)
    ensures
        deps::lines_after(seq![a] + ls, 0) == seq!['\n'] + a + deps::lines_after(ls, 0),
        deps::lines_after(Seq::empty(), 0) == Seq::<char>::empty(),
{
    let all = seq![a] + ls;
    reveal_strlit("\n");
    assert("\n"@ =~= seq!['\n']);
    assert(all.skip(1) =~= ls);
    lemma_lines_after_skip(all, 1, 0);
    assert(all[0] == a);
}

/// A comment may follow the name of a table, and nothing else may.
pub proof fn law_comments_may_follow_a_table(name: Seq<char>, gap: Seq<char>, rest: Seq<char>)
    requires
        name.len() > 0,
        forall|i: int|
            0 <= i < name.len() ==> ('0' <= #[trigger] name[i] <= '9') || ('a' <= name[i] <= 'z') || ('A' <= name[i] <= 'Z')
                || name[i] == '_',
        text::is_blank(gap),
        rest.len() > 0,
        !text::is_space(rest[0]),
    ensures
        deps::table_name(seq!['['] + name + seq![']'] + (gap + rest)) == (if rest[0] == '#' {
            Some(name)
        } else {
            None
        }),
{
    let n = name.len() as int;
    let none = Seq::<char>::empty();
    reveal_strlit("[");
    reveal_strlit("[[");
    laws_text::law_identifiers_are_read_whole(name, none, false);
    assert(name + none =~= name);
    laws_python::lemma_trim_around(none, name, none);
    assert(none + name + none =~= name);
    let t = seq!['['] + name + seq![']'] + (gap + rest);
    assert(t[0] == '[' && t[n + 1] == ']');
    assert(t.subrange(0, 1) =~= "["@);
    assert(!text::starts_with(t, "[["@)) by {
        if text::starts_with(t, "[["@) {
            assert(t.subrange(0, 2)[1] == t[1]);
            assert(t[1] == name[0]);
        }
    }
    text::lemma_find_char(t, ']', 1);
    assert forall|i: int| 1 <= i < n + 1 implies t[i] != ']' by {
        assert(t[i] == name[i - 1]);
    }
    assert(text::find_char(t, ']', 1) == n + 1);
    assert(t.subrange(1, n + 1) =~= name);
    assert(t.skip(n + 2) =~= gap + rest);
    lemma_trim_start_around(gap, rest);
}

} // verus!
