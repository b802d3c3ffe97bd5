//! What the manifests of a repository declare: dependencies, the transport and the server's name.
use crate::deps;
use crate::deps::{Dep, DepFacts, parse_npm, parse_pyproject, parse_requirements};
use crate::files;
use crate::files::{FileText, RepoFile, basename, is_named};
use crate::json;
use crate::json::{JsonTree, member, read_json};
use crate::text;
use crate::text::{chars_of, contains_str, has_marker_in, same_str};
use vstd::prelude::*;

verus! {

// --- dependencies ----------------------------------------------------------

/// Some dependency has this name.
pub open spec fn has_dep(deps: Seq<DepFacts>, name: Seq<char>) -> bool {
    exists|i: int| 0 <= i < deps.len() && (#[trigger] deps[i]).name == name
}

/// `known`, and those of the first `n` found dependencies whose names are new.
pub open spec fn with_deps(known: Seq<DepFacts>, found: Seq<DepFacts>, n: int) -> Seq<DepFacts>
    decreases n,
{
    if n <= 0 || n > found.len() {
        known
    } else {
        let before = with_deps(known, found, n - 1);
        if has_dep(before, found[n - 1].name) {
            before
        } else {
            before.push(found[n - 1])
        }
    }
}

/// The dependencies that a file declares, where it is a manifest that is read.
pub open spec fn declared(f: FileText) -> Seq<DepFacts> {
    if files::base(f.path) == "package.json"@ {
        deps::npm_deps(deps::npm_entries(f.content), f.path)
    } else if files::base(f.path) == "pyproject.toml"@ {
        deps::py_deps(deps::pyproject_items(f.content), f.path, deps::pyproject_items(f.content).len() as int)
    } else if files::base(f.path) == "requirements.txt"@ {
        deps::py_deps(deps::requirements_of(f.content), f.path, deps::requirements_of(f.content).len() as int)
    } else {
        Seq::empty()
    }
}

/// The dependencies that the first `n` files declare; of those with the same name, the first.
pub open spec fn deps_of(files: Seq<FileText>, n: int) -> Seq<DepFacts>
    decreases n,
{
    if n <= 0 || n > files.len() {
        Seq::empty()
    } else {
        let found = declared(files[n - 1]);
        with_deps(deps_of(files, n - 1), found, found.len() as int)
    }
}

/// The dependencies of a repository.
pub open spec fn all_deps(files: Seq<FileText>) -> Seq<DepFacts> {
    deps_of(files, files.len() as int)
}

fn knows_dep(deps: &Vec<Dep>, name: &str) -> (r: bool)
    ensures
        r == has_dep(deps::dep_facts(deps@), name@),
{
    let ghost all = deps::dep_facts(deps@);
    for i in 0..deps.len()
        invariant
            all == deps::dep_facts(deps@),
            forall|j: int| 0 <= j < i ==> (#[trigger] all[j]).name != name@,
    {
        assert(all[i as int] == deps@[i as int]@);
        if same_str(deps[i].name.as_str(), name) {
            return true;
        }
    }
    false
}

/// Add the dependencies whose names are new.
pub fn add_deps(deps: &mut Vec<Dep>, found: &Vec<Dep>)
    ensures
        deps::dep_facts(final(deps)@) == with_deps(deps::dep_facts(old(deps)@), deps::dep_facts(found@), found@.len() as int),
{
    let ghost known = deps::dep_facts(deps@);
    let ghost new = deps::dep_facts(found@);
    for i in 0..found.len()
        invariant
            new == deps::dep_facts(found@),
            deps::dep_facts(deps@) == with_deps(known, new, i as int),
    {
        let ghost before = deps::dep_facts(deps@);
        assert(new[i as int] == found@[i as int]@);
        if !knows_dep(deps, found[i].name.as_str()) {
            let f = &found[i];
            let d = Dep {
                name: f.name.clone(),
                spec: f.spec.clone(),
                pinned: f.pinned,
                source_path: f.source_path.clone(),
            };
            deps.push(d);
            assert(deps::dep_facts(deps@) =~= before.push(d@));
        }
    }
}

/// The dependencies that a file declares.
pub fn declared_deps(f: &RepoFile) -> (r: Vec<Dep>)
    ensures
        deps::dep_facts(r@) == declared(f@),
{
    let b = basename(f.path.as_str());
    if same_str(b.as_str(), "package.json") {
        parse_npm(f.content.as_str(), f.path.as_str())
    } else if same_str(b.as_str(), "pyproject.toml") {
        parse_pyproject(f.content.as_str(), f.path.as_str())
    } else if same_str(b.as_str(), "requirements.txt") {
        parse_requirements(f.content.as_str(), f.path.as_str())
    } else {
        let none: Vec<Dep> = Vec::new();
        assert(deps::dep_facts(none@) =~= Seq::empty());
        none
    }
}

/// The dependencies of a repository; of those with the same name, the first.
pub fn collect_deps(files: &Vec<&RepoFile>) -> (r: Vec<Dep>)
    ensures
        deps::dep_facts(r@) == all_deps(files::texts_at(files@)),
{
    let ghost all = files::texts_at(files@);
    let mut out: Vec<Dep> = Vec::new();
    assert(deps::dep_facts(out@) =~= deps_of(all, 0));
    for k in 0..files.len()
        invariant
            all == files::texts_at(files@),
            deps::dep_facts(out@) == deps_of(all, k as int),
    {
        assert(all[k as int] == files@[k as int]@);
        let found = declared_deps(files[k]);
        assert(deps::dep_facts(found@).len() == found@.len());
        add_deps(&mut out, &found);
    }
    out
}

/// No two dependencies have the same name.
pub open spec fn named_once(deps: Seq<DepFacts>) -> bool {
    forall|i: int, j: int|
        0 <= i < j < deps.len() ==> (#[trigger] deps[i]).name != (#[trigger] deps[j]).name
}

proof fn lemma_with_deps(known: Seq<DepFacts>, found: Seq<DepFacts>, n: int)
    requires
        named_once(known),
    ensures
        named_once(with_deps(known, found, n)),
    decreases n,
{
    if 0 < n <= found.len() {
        lemma_with_deps(known, found, n - 1);
    }
}

proof fn lemma_deps_of(files: Seq<FileText>, n: int)
    ensures
        named_once(deps_of(files, n)),
    decreases n,
{
    if 0 < n <= files.len() {
        lemma_deps_of(files, n - 1);
        let found = declared(files[n - 1]);
        lemma_with_deps(deps_of(files, n - 1), found, found.len() as int);
    }
}

/// The first manifest wins: what is known already stays as it is, whatever is found later.
pub proof fn law_known_deps_stay(known: Seq<DepFacts>, found: Seq<DepFacts>, n: int)
    ensures
        known.len() <= with_deps(known, found, n).len(),
        with_deps(known, found, n).take(known.len() as int) == known,
    decreases n,
{
    if 0 < n <= found.len() {
        law_known_deps_stay(known, found, n - 1);
        let before = with_deps(known, found, n - 1);
        let now = with_deps(known, found, n);
        assert(now.take(known.len() as int) =~= before.take(known.len() as int));
    } else {
        assert(known.take(known.len() as int) =~= known);
    }
}

/// A dependency is listed once, however many manifests declare it.
pub proof fn law_deps_are_named_once(files: Seq<FileText>)
    ensures
        named_once(all_deps(files)),
{
    lemma_deps_of(files, files.len() as int);
}

// --- the transport ---------------------------------------------------------

pub const HTTP_MARKS: [&'static str; 2] = ["streamable-http", "\"sse\""];

pub const STDIO_MARK: &'static str = "\"stdio\"";

/// The transport of a `server.json`: HTTP where it lists remotes or names an HTTP transport, else
/// stdio where it names that, else unknown.
pub open spec fn transport_by(has_remotes: bool, content: Seq<char>) -> Option<Seq<char>> {
    if has_remotes || text::has_marker(content, HTTP_MARKS@) {
        Some("http"@)
    } else if text::contains(content, STDIO_MARK@) {
        Some("stdio"@)
    } else {
        None
    }
}

/// The transport of a `server.json`, where it is known whether it lists remotes.
pub fn transport_from(has_remotes: bool, content: &str) -> (r: Option<&'static str>)
    ensures
        match r {
            Some(t) => transport_by(has_remotes, content@) == Some(t@),
            None => transport_by(has_remotes, content@) is None,
        },
{
    let t = chars_of(content);
    if has_remotes || has_marker_in(&t, &HTTP_MARKS) {
        Some("http")
    } else if contains_str(&t, STDIO_MARK) {
        Some("stdio")
    } else {
        None
    }
}

/// A JSON text lists at least one remote.
pub open spec fn lists_remotes(content: Seq<char>) -> bool {
    match json::json_text(content) {
        Some(t) => match json::member_of(t, "remotes"@) {
            Some(JsonTree::List(items)) => items.len() > 0,
            _ => false,
        },
        None => false,
    }
}

/// A JSON text lists at least one remote.
pub fn has_remotes(content: &str) -> (r: bool)
    ensures
        r == lists_remotes(content@),
{
    match read_json(content) {
        Ok(v) => match member(&v, "remotes") {
            Some(m) => match m.as_array() {
                Some(items) => items.len() > 0,
                None => false,
            },
            None => false,
        },
        Err(_) => false,
    }
}

/// The transport that a `server.json` declares.
pub open spec fn transport_in(content: Seq<char>) -> Option<Seq<char>> {
    transport_by(lists_remotes(content), content)
}

/// The transport that a `server.json` declares.
pub fn transport_of(content: &str) -> (r: Option<&'static str>)
    ensures
        match r {
            Some(t) => transport_in(content@) == Some(t@),
            None => transport_in(content@) is None,
        },
{
    transport_from(has_remotes(content), content)
}

/// The first file at `k` or later of this name.
pub open spec fn first_file(files: Seq<FileText>, name: Seq<char>, k: int) -> Option<FileText>
    decreases files.len() - k,
{
    if k < 0 || k >= files.len() {
        None
    } else if files::base(files[k].path) == name {
        Some(files[k])
    } else {
        first_file(files, name, k + 1)
    }
}

/// The first file of this name.
pub fn file_named<'a>(files: &Vec<&'a RepoFile>, name: &str) -> (r: Option<&'a RepoFile>)
    ensures
        match r {
            Some(f) => first_file(files::texts_at(files@), name@, 0) == Some(f@),
            None => first_file(files::texts_at(files@), name@, 0) is None,
        },
{
    let ghost all = files::texts_at(files@);
    let n: usize = files.len();
    let mut k: usize = 0;
    while k < n
        invariant
            all == files::texts_at(files@),
            n == files@.len(),
            k <= n,
            first_file(all, name@, 0) == first_file(all, name@, k as int),
        decreases n - k,
    {
        assert(all[k as int] == files@[k as int]@);
        if is_named(files[k].path.as_str(), name) {
            return Some(files[k]);
        }
        k = k + 1;
    }
    None
}

/// The transport of a repository: that of its first `server.json`.
pub open spec fn repo_transport(files: Seq<FileText>) -> Seq<char> {
    match first_file(files, "server.json"@, 0) {
        Some(f) => match transport_in(f.content) {
            Some(t) => t,
            None => "unknown"@,
        },
        None => "unknown"@,
    }
}

pub fn transport(files: &Vec<&RepoFile>) -> (r: &'static str)
    ensures
        r@ == repo_transport(files::texts_at(files@)),
{
    match file_named(files, "server.json") {
        Some(f) => match transport_of(f.content.as_str()) {
            Some(t) => t,
            None => "unknown",
        },
        None => "unknown",
    }
}

// --- the server's name -----------------------------------------------------

/// The text under `name` in a JSON text.
pub open spec fn name_in(content: Seq<char>) -> Option<Seq<char>> {
    match json::json_text(content) {
        Some(t) => match json::member_of(t, "name"@) {
            Some(v) => deps::json_str(v),
            None => None,
        },
        None => None,
    }
}

/// The text under `name` in a JSON text.
pub fn json_name(content: &str) -> (r: Option<String>)
    ensures
        deps::text_opt(r) == name_in(content@),
{
    match read_json(content) {
        Ok(v) => match member(&v, "name") {
            Some(m) => match m.as_str() {
                Some(s) => Some(s.to_owned()),
                None => None,
            },
            None => None,
        },
        Err(_) => None,
    }
}

/// The names under which the first `n` files of one kind of manifest declare the server.
pub open spec fn names_in(files: Seq<FileText>, manifest: Seq<char>, n: int) -> Seq<Option<Seq<char>>>
    decreases n,
{
    if n <= 0 || n > files.len() {
        Seq::empty()
    } else if files::base(files[n - 1].path) == manifest {
        names_in(files, manifest, n - 1).push(name_in(files[n - 1].content))
    } else {
        names_in(files, manifest, n - 1)
    }
}

/// The first name at `i` or later.
pub open spec fn first_name(names: Seq<Option<Seq<char>>>, i: int) -> Option<Seq<char>>
    decreases names.len() - i,
{
    if i < 0 || i >= names.len() {
        None
    } else if names[i] is Some {
        names[i]
    } else {
        first_name(names, i + 1)
    }
}

pub open spec fn name_texts(v: Seq<Option<String>>) -> Seq<Option<Seq<char>>> {
    Seq::new(v.len(), |i: int| deps::text_opt(v[i]))
}

fn names_of(files: &Vec<&RepoFile>, manifest: &str) -> (r: Vec<Option<String>>)
    ensures
        name_texts(r@) == names_in(files::texts_at(files@), manifest@, files@.len() as int),
{
    let ghost all = files::texts_at(files@);
    let mut out: Vec<Option<String>> = Vec::new();
    assert(name_texts(out@) =~= names_in(all, manifest@, 0));
    for k in 0..files.len()
        invariant
            all == files::texts_at(files@),
            name_texts(out@) == names_in(all, manifest@, k as int),
    {
        let ghost before = name_texts(out@);
        assert(all[k as int] == files@[k as int]@);
        if is_named(files[k].path.as_str(), manifest) {
            let name = json_name(files[k].content.as_str());
            out.push(name);
            assert(name_texts(out@) =~= before.push(deps::text_opt(name)));
        }
    }
    out
}

fn pick_name(names: &Vec<Option<String>>) -> (r: Option<String>)
    ensures
        deps::text_opt(r) == first_name(name_texts(names@), 0),
{
    let ghost all = name_texts(names@);
    let n: usize = names.len();
    let mut i: usize = 0;
    while i < n
        invariant
            all == name_texts(names@),
            n == names@.len(),
            i <= n,
            first_name(all, 0) == first_name(all, i as int),
        decreases n - i,
    {
        assert(all[i as int] == deps::text_opt(names@[i as int]));
        match &names[i] {
            Some(s) => {
                return Some(s.clone());
            },
            None => {},
        }
        i = i + 1;
    }
    None
}

/// The first name that a `package.json` gives, else the first that a `server.json` gives.
pub open spec fn chosen_name(
    package_names: Seq<Option<Seq<char>>>,
    server_names: Seq<Option<Seq<char>>>,
) -> Option<Seq<char>> {
    match first_name(package_names, 0) {
        Some(n) => Some(n),
        None => first_name(server_names, 0),
    }
}

/// The server's name, from what each `package.json` and each `server.json` gives.
pub fn choose_name(package_names: &Vec<Option<String>>, server_names: &Vec<Option<String>>) -> (r: Option<String>)
    ensures
        deps::text_opt(r) == chosen_name(name_texts(package_names@), name_texts(server_names@)),
{
    match pick_name(package_names) {
        Some(n) => Some(n),
        None => pick_name(server_names),
    }
}

/// The name that the manifests of a repository give the server.
pub open spec fn repo_name(files: Seq<FileText>) -> Option<Seq<char>> {
    chosen_name(
        names_in(files, "package.json"@, files.len() as int),
        names_in(files, "server.json"@, files.len() as int),
    )
}

pub fn server_name(files: &Vec<&RepoFile>) -> (r: Option<String>)
    ensures
        deps::text_opt(r) == repo_name(files::texts_at(files@)),
{
    let packages = names_of(files, "package.json");
    let servers = names_of(files, "server.json");
    choose_name(&packages, &servers)
}

} // verus!
