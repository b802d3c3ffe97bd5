//! The files of a repository, and which of them are looked at.
use crate::order;
use crate::order::sort_order;
use crate::taint;
use crate::text;
use crate::text::{
    chars_of, ends_with_any_of, ends_with_str, is_listed_in, same_str, split_at_any, string_of,
};
use vstd::prelude::*;

verus! {

/// A file: its path in the repository, and its text.
#[derive(Debug, Clone, PartialEq, Eq)]
pub struct RepoFile {
    pub path: String,
    pub content: String,
}

pub struct FileText {
    pub path: Seq<char>,
    pub content: Seq<char>,
}

impl View for RepoFile {
    type V = FileText;

    open spec fn view(&self) -> FileText {
        FileText { path: self.path@, content: self.content@ }
    }
}

/// The texts of a list of files.
pub open spec fn file_texts(v: Seq<RepoFile>) -> Seq<FileText> {
    Seq::new(v.len(), |i: int| v[i]@)
}

/// The texts of a list of references to files.
pub open spec fn texts_at(v: Seq<&RepoFile>) -> Seq<FileText> {
    Seq::new(v.len(), |i: int| v[i]@)
}

pub const LOCKFILES: [&'static str; 10] = [
    "package-lock.json",
    "npm-shrinkwrap.json",
    "pnpm-lock.yaml",
    "yarn.lock",
    "poetry.lock",
    "uv.lock",
    "Pipfile.lock",
    "pdm.lock",
    "go.sum",
    "Cargo.lock",
];

/// Manifests that are read besides sources and lockfiles.
pub const MANIFESTS: [&'static str; 5] = [
    "package.json",
    "pyproject.toml",
    "requirements.txt",
    "go.mod",
    "server.json",
];

/// Directories that are not entered.
pub const SKIP_DIRS: [&'static str; 13] = [
    ".git",
    "node_modules",
    "target",
    "dist",
    "build",
    ".venv",
    "venv",
    "__pycache__",
    ".mypy_cache",
    ".pytest_cache",
    "vendor",
    ".next",
    "out",
];

/// Directories that hold no part of the shipped server: examples, tests, documentation.
pub const NON_SHIPPED_DIRS: [&'static str; 15] = [
    "examples",
    "example",
    "samples",
    "sample",
    "demo",
    "demos",
    "test",
    "tests",
    "__tests__",
    "testing",
    "testdata",
    "fixtures",
    "e2e",
    "docs",
    "doc",
];

pub const SOURCE_SUFFIXES: [&'static str; 10] = [
    ".py",
    ".js",
    ".ts",
    ".mjs",
    ".cjs",
    ".tsx",
    ".go",
    ".java",
    ".kt",
    ".rs",
];

pub const SCRIPT_SUFFIXES: [&'static str; 6] = [".js", ".jsx", ".ts", ".tsx", ".mjs", ".cjs"];

/// Suffixes by which a language is told, in the order in which they are tried.
pub const LANGUAGE_SUFFIXES: [&'static str; 10] = [
    ".py",
    ".ts",
    ".tsx",
    ".js",
    ".mjs",
    ".cjs",
    ".go",
    ".java",
    ".kt",
    ".rs",
];

/// The language of each of `LANGUAGE_SUFFIXES`.
pub const LANGUAGES: [&'static str; 10] = [
    "Python",
    "TypeScript",
    "TypeScript",
    "JavaScript",
    "JavaScript",
    "JavaScript",
    "Go",
    "Java",
    "Kotlin",
    "Rust",
];

/// The largest file that is read, in bytes.
pub const SIZE_LIMIT: u64 = 524288;

/// What separates the segments of a path.
pub const SEPARATORS: &'static str = "/\\";

/// The segments of a path.
pub open spec fn segments(path: Seq<char>) -> Seq<Seq<char>> {
    text::split(path, SEPARATORS@)
}

/// The last segment of a path.
pub open spec fn base(path: Seq<char>) -> Seq<char> {
    segments(path).last()
}

/// A segment of the path marks a file as not shipped.
pub open spec fn non_shipped(path: Seq<char>) -> bool {
    exists|i: int| 0 <= i < segments(path).len() && text::is_listed(#[trigger] segments(path)[i], NON_SHIPPED_DIRS@)
}

pub fn is_non_shipped(path: &str) -> (r: bool)
    ensures
        r == non_shipped(path@),
{
    let t = chars_of(path);
    let set = chars_of(SEPARATORS);
    let parts = split_at_any(&t, &set);
    let ghost all = text::views(parts@);
    for i in 0..parts.len()
        invariant
            all == text::views(parts@),
            all == segments(path@),
            forall|j: int| 0 <= j < i ==> !text::is_listed(#[trigger] all[j], NON_SHIPPED_DIRS@),
    {
        assert(all[i as int] == parts@[i as int]@);
        if is_listed_in(parts[i], &NON_SHIPPED_DIRS) {
            return true;
        }
    }
    false
}

/// The last segment of a path.
pub fn basename(p: &str) -> (r: String)
    ensures
        r@ == base(p@),
{
    let t = chars_of(p);
    let set = chars_of(SEPARATORS);
    let parts = split_at_any(&t, &set);
    let ghost all = text::views(parts@);
    assert(all.len() > 0) by {
        reveal_with_fuel(text::split_from, 2);
        text::lemma_find_one_of(t@, set@, 0);
    }
    assert(parts@.len() == all.len());
    let last: usize = parts.len() - 1;
    assert(all[last as int] == parts@[last as int]@);
    string_of(parts[last])
}

/// The last segment of the path is `name`.
pub fn is_named(p: &str, name: &str) -> (r: bool)
    ensures
        r == (base(p@) == name@),
{
    let b = basename(p);
    same_str(b.as_str(), name)
}

/// The file is a source file.
pub open spec fn source(path: Seq<char>) -> bool {
    text::ends_with_any(base(path), SOURCE_SUFFIXES@)
}

pub fn is_source(p: &str) -> (r: bool)
    ensures
        r == source(p@),
{
    let b = basename(p);
    let t = chars_of(b.as_str());
    ends_with_any_of(&t, &SOURCE_SUFFIXES)
}

/// The file is a JavaScript or TypeScript file.
pub open spec fn script(path: Seq<char>) -> bool {
    text::ends_with_any(base(path), SCRIPT_SUFFIXES@)
}

pub fn is_js_ts(p: &str) -> (r: bool)
    ensures
        r == script(p@),
{
    let b = basename(p);
    let t = chars_of(b.as_str());
    ends_with_any_of(&t, &SCRIPT_SUFFIXES)
}

/// The file is a Python file.
pub open spec fn python_file(path: Seq<char>) -> bool {
    text::ends_with(path, ".py"@)
}

/// The file is a lockfile.
pub open spec fn lockfile(path: Seq<char>) -> bool {
    text::is_listed(base(path), LOCKFILES@)
}

pub fn is_lockfile(p: &str) -> (r: bool)
    ensures
        r == lockfile(p@),
{
    let b = basename(p);
    let t = chars_of(b.as_str());
    is_listed_in(&t, &LOCKFILES)
}

/// The language of the first suffix at `i` or later that `name` ends with.
pub open spec fn language_from(name: Seq<char>, i: int) -> Option<Seq<char>>
    decreases LANGUAGE_SUFFIXES@.len() - i,
{
    if i < 0 || i >= LANGUAGE_SUFFIXES@.len() {
        None
    } else if text::ends_with(name, LANGUAGE_SUFFIXES@[i]@) {
        Some(LANGUAGES@[i]@)
    } else {
        language_from(name, i + 1)
    }
}

/// The language of a file, by the suffix of its name.
pub open spec fn language(path: Seq<char>) -> Option<Seq<char>> {
    language_from(base(path), 0)
}

pub fn lang_of(p: &str) -> (r: Option<&'static str>)
    ensures
        match r {
            Some(l) => language(p@) == Some(l@),
            None => language(p@) is None,
        },
{
    let b = basename(p);
    let t = chars_of(b.as_str());
    let mut i: usize = 0;
    while i < 10
        invariant
            i <= 10,
            t@ == base(p@),
            language(p@) == language_from(t@, i as int),
        decreases 10 - i,
    {
        if ends_with_str(&t, LANGUAGE_SUFFIXES[i]) {
            return Some(LANGUAGES[i]);
        }
        i = i + 1;
    }
    None
}

// --- which files are read ----------------------------------------------------

/// A file of this name is read.
pub open spec fn is_read(name: Seq<char>) -> bool {
    text::is_listed(name, MANIFESTS@) || text::is_listed(name, LOCKFILES@) || source(name)
}

/// A file of this name is read: a manifest, a lockfile or a source file.
pub fn interesting(name: &str) -> (r: bool)
    ensures
        r == is_read(name@),
{
    let t = chars_of(name);
    is_listed_in(&t, &MANIFESTS) || is_listed_in(&t, &LOCKFILES) || is_source(name)
}

/// A directory of this name is entered.
pub fn enters_dir(name: &str) -> (r: bool)
    ensures
        r == !text::is_listed(name@, SKIP_DIRS@),
{
    let t = chars_of(name);
    !is_listed_in(&t, &SKIP_DIRS)
}

/// A file is read where its size is known and within the limit.
pub fn size_fits(bytes: Option<u64>) -> (r: bool)
    ensures
        r == (bytes is Some && bytes->0 <= SIZE_LIMIT),
        r == (bytes matches Some(n) && n <= 524288),
{
    match bytes {
        Some(n) => n <= SIZE_LIMIT,
        None => false,
    }
}

/// `\` in a path is written `/`.
pub open spec fn with_slashes(path: Seq<char>) -> Seq<char> {
    Seq::new(path.len(), |i: int| if path[i] == '\\' { '/' } else { path[i] })
}

/// A path with `/` in place of `\`.
pub fn normal_path(path: &str) -> (r: String)
    ensures
        r@ == with_slashes(path@),
{
    let t = chars_of(path);
    let mut out: Vec<char> = Vec::new();
    for i in 0..t.len()
        invariant
            t@ == path@,
            out@.len() == i,
            forall|j: int| 0 <= j < i ==> #[trigger] out@[j] == with_slashes(path@)[j],
    {
        if t[i] == '\\' {
            out.push('/');
        } else {
            out.push(t[i]);
        }
    }
    assert(out@ =~= with_slashes(path@));
    string_of(&out)
}

/// The paths of files.
pub open spec fn paths(files: Seq<FileText>) -> Seq<Seq<char>> {
    Seq::new(files.len(), |i: int| files[i].path)
}

/// Files in the order of their paths; files with the same path stay as they are.
pub open spec fn by_path(files: Seq<FileText>) -> Seq<FileText> {
    order::picked(files, order::stable_order(paths(files)))
}

/// Files in the order of their paths.
pub fn sort_files(files: &Vec<RepoFile>) -> (r: Vec<RepoFile>)
    ensures
        file_texts(r@) == by_path(file_texts(files@)),
{
    let ghost all = file_texts(files@);
    let mut keys: Vec<Vec<char>> = Vec::new();
    for i in 0..files.len()
        invariant
            keys@.len() == i,
            forall|j: int| 0 <= j < i ==> (#[trigger] keys@[j])@ == files@[j].path@,
    {
        keys.push(chars_of(files[i].path.as_str()));
    }
    assert(order::char_lists(keys@) =~= paths(all));
    let order = sort_order(&keys);
    let mut out: Vec<RepoFile> = Vec::new();
    for i in 0..order.len()
        invariant
            all == file_texts(files@),
            order::is_stable_order(paths(all), taint::ints(order@), files@.len() as int),
            out@.len() == i,
            forall|j: int| 0 <= j < i ==> (#[trigger] out@[j])@ == all[taint::ints(order@)[j]],
    {
        assert(taint::ints(order@)[i as int] == order@[i as int]);
        let f = &files[order[i]];
        out.push(RepoFile { path: f.path.clone(), content: f.content.clone() });
    }
    assert(file_texts(out@) =~= by_path(all));
    out
}

// --- the shipped files -------------------------------------------------------

/// The shipped ones of the first `n` files.
pub open spec fn shipped_first(files: Seq<FileText>, n: int) -> Seq<FileText>
    decreases n,
{
    if n <= 0 || n > files.len() {
        Seq::empty()
    } else if non_shipped(files[n - 1].path) {
        shipped_first(files, n - 1)
    } else {
        shipped_first(files, n - 1).push(files[n - 1])
    }
}

/// The files of the shipped server.
pub open spec fn shipped(files: Seq<FileText>) -> Seq<FileText> {
    shipped_first(files, files.len() as int)
}

/// The files of the shipped server.
pub fn shipped_files<'a>(files: &'a [RepoFile]) -> (r: Vec<&'a RepoFile>)
    ensures
        texts_at(r@) == shipped(file_texts(files@)),
{
    let ghost all = file_texts(files@);
    let mut out: Vec<&'a RepoFile> = Vec::new();
    assert(texts_at(out@) =~= shipped_first(all, 0));
    for i in 0..files.len()
        invariant
            all == file_texts(files@),
            texts_at(out@) == shipped_first(all, i as int),
    {
        let ghost before = texts_at(out@);
        assert(all[i as int] == files@[i as int]@);
        if !is_non_shipped(files[i].path.as_str()) {
            out.push(&files[i]);
            assert(texts_at(out@) =~= before.push(files@[i as int]@));
        }
    }
    out
}

/// No file of the shipped server has a path that marks it as not shipped.
pub proof fn law_shipped_files_are_shipped(files: Seq<FileText>)
    ensures
        forall|i: int| 0 <= i < shipped(files).len() ==> !non_shipped((#[trigger] shipped(files)[i]).path),
{
    lemma_shipped_first(files, files.len() as int);
}

proof fn lemma_shipped_first(files: Seq<FileText>, n: int)
    ensures
        forall|i: int|
            0 <= i < shipped_first(files, n).len() ==> !non_shipped((#[trigger] shipped_first(files, n)[i]).path),
    decreases n,
{
    if 0 < n <= files.len() {
        lemma_shipped_first(files, n - 1);
        let before = shipped_first(files, n - 1);
        let now = shipped_first(files, n);
        assert forall|i: int| 0 <= i < now.len() implies !non_shipped((#[trigger] now[i]).path) by {
            if i < before.len() {
                assert(now[i] == before[i]);
            }
        }
    }
}

} // verus!
