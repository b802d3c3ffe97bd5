//! The tools of a repository, over all its files.
use crate::files;
use crate::files::{FileText, RepoFile, is_js_ts};
use crate::js;
use crate::js::is_readable;
use crate::python;
use crate::python::analyze_repo;
use crate::taint;
use crate::taint::{Analysis, AnalysisFacts, ToolFacts, ToolTaint, knows_tool};
use crate::text::{chars_of, clone_strings, ends_with_str};
use vstd::prelude::*;

verus! {

/// The Python files among the first `n` files.
pub open spec fn python_first(files: Seq<FileText>, n: int) -> Seq<(Seq<char>, Seq<char>)>
    decreases n,
{
    if n <= 0 || n > files.len() {
        Seq::empty()
    } else if files::python_file(files[n - 1].path) {
        python_first(files, n - 1).push((files[n - 1].path, files[n - 1].content))
    } else {
        python_first(files, n - 1)
    }
}

/// What the Python files say together.
pub open spec fn python_analysis(files: Seq<FileText>) -> AnalysisFacts {
    python::repo_analysis(python_first(files, files.len() as int))
}

/// A tool without a file is placed at the root.
pub open spec fn rooted(t: ToolFacts) -> ToolFacts {
    if t.file.len() == 0 {
        ToolFacts { file: "."@, ..t }
    } else {
        t
    }
}

/// `known`, and those of the first `n` found tools that have a new, non-empty name.
pub open spec fn with_tools(known: Seq<ToolFacts>, found: Seq<ToolFacts>, n: int) -> Seq<ToolFacts>
    decreases n,
{
    if n <= 0 || n > found.len() {
        known
    } else {
        let before = with_tools(known, found, n - 1);
        if found[n - 1].name.len() == 0 || taint::has_tool(before, found[n - 1].name) {
            before
        } else {
            before.push(found[n - 1])
        }
    }
}

/// The tools of the Python files.
pub open spec fn python_tools(files: Seq<FileText>) -> Seq<ToolFacts> {
    let found = python_analysis(files).tools;
    with_tools(Seq::empty(), found.map_values(|t: ToolFacts| rooted(t)), found.len() as int)
}

/// The tools of a script file, placed in that file.
pub open spec fn script_tools(f: FileText) -> Seq<ToolFacts> {
    js::file_analysis(f.content).tools.map_values(|t: ToolFacts| ToolFacts { file: f.path, ..t })
}

/// The tools of the Python files and of the script files among the first `n` files.
pub open spec fn tools_first(files: Seq<FileText>, n: int) -> Seq<ToolFacts>
    decreases n,
{
    if n <= 0 || n > files.len() {
        python_tools(files)
    } else if files::script(files[n - 1].path) {
        let found = script_tools(files[n - 1]);
        with_tools(tools_first(files, n - 1), found, found.len() as int)
    } else {
        tools_first(files, n - 1)
    }
}

/// The tools of a repository; of those with the same name, the first.
pub open spec fn all_tools(files: Seq<FileText>) -> Seq<ToolFacts> {
    tools_first(files, files.len() as int)
}

/// Where a secret first leaks in the script files at `k` or later.
pub open spec fn script_leak(files: Seq<FileText>, k: int) -> Option<(Seq<char>, u32)>
    decreases files.len() - k,
{
    if k < 0 || k >= files.len() {
        None
    } else if files::script(files[k].path) {
        match js::file_analysis(files[k].content).secret_egress {
            Some(l) => Some((files[k].path, l.1)),
            None => script_leak(files, k + 1),
        }
    } else {
        script_leak(files, k + 1)
    }
}

/// Where a secret first leaks: in the Python files, else in the script files.
pub open spec fn leak(files: Seq<FileText>) -> Option<(Seq<char>, u32)> {
    match python_analysis(files).secret_egress {
        Some(l) => Some(l),
        None => script_leak(files, 0),
    }
}

/// The script files can be analyzed.
pub open spec fn all_readable(files: Seq<FileText>) -> bool {
    forall|k: int| 0 <= k < files.len() && files::script((#[trigger] files[k]).path) ==> js::readable(files[k].content)
}

/// The script files can be analyzed.
pub fn scripts_are_readable(files: &Vec<&RepoFile>) -> (r: bool)
    ensures
        r == all_readable(files::texts_at(files@)),
{
    let ghost all = files::texts_at(files@);
    for k in 0..files.len()
        invariant
            all == files::texts_at(files@),
            forall|j: int|
                0 <= j < k && files::script((#[trigger] all[j]).path) ==> js::readable(all[j].content),
    {
        assert(all[k as int] == files@[k as int]@);
        if is_js_ts(files[k].path.as_str()) && !is_readable(files[k].content.as_str()) {
            return false;
        }
    }
    true
}

fn moved(t: &ToolTaint, file: String) -> (r: ToolTaint)
    ensures
        r@ == (ToolFacts { file: file@, ..t@ }),
{
    ToolTaint {
        name: t.name.clone(),
        params: clone_strings(&t.params),
        ssrf: t.ssrf,
        fs: t.fs,
        shell: t.shell,
        sql: t.sql,
        deser: t.deser,
        unbounded_limit: t.unbounded_limit,
        redos: t.redos,
        desc_hidden_unicode: t.desc_hidden_unicode,
        file,
        line: t.line,
    }
}

/// Add the tools that have a new, non-empty name.
pub fn add_tools(tools: &mut Vec<ToolTaint>, found: &Vec<ToolTaint>)
    ensures
        taint::tool_facts(final(tools)@) == with_tools(taint::tool_facts(old(tools)@), taint::tool_facts(found@), found@.len() as int),
{
    let ghost known = taint::tool_facts(tools@);
    let ghost new = taint::tool_facts(found@);
    for i in 0..found.len()
        invariant
            new == taint::tool_facts(found@),
            taint::tool_facts(tools@) == with_tools(known, new, i as int),
    {
        let ghost before = taint::tool_facts(tools@);
        let f = &found[i];
        assert(new[i as int] == f@);
        let named: bool = chars_of(f.name.as_str()).len() > 0;
        if named && !knows_tool(tools, f.name.as_str()) {
            let t = moved(f, f.file.clone());
            assert(t@ == f@);
            tools.push(t);
            assert(taint::tool_facts(tools@) =~= before.push(f@));
        }
    }
}

fn analyze_python(files: &Vec<&RepoFile>) -> (r: Analysis)
    ensures
        r@ == python_analysis(files::texts_at(files@)),
{
    let ghost all = files::texts_at(files@);
    let mut py: Vec<(&str, &str)> = Vec::new();
    assert(python::modules(py@) =~= python_first(all, 0));
    for k in 0..files.len()
        invariant
            all == files::texts_at(files@),
            python::modules(py@) == python_first(all, k as int),
    {
        let ghost before = python::modules(py@);
        assert(all[k as int] == files@[k as int]@);
        let p = chars_of(files[k].path.as_str());
        if ends_with_str(&p, ".py") {
            py.push((files[k].path.as_str(), files[k].content.as_str()));
            assert(python::modules(py@) =~= before.push((files@[k as int].path@, files@[k as int].content@)));
        }
    }
    analyze_repo(&py)
}

/// The tools of a repository, and where a secret first leaks.
pub fn collect_tools(files: &Vec<&RepoFile>) -> (r: (Vec<ToolTaint>, Option<(String, u32)>))
    requires
        all_readable(files::texts_at(files@)),
    ensures
        taint::tool_facts(r.0@) == all_tools(files::texts_at(files@)),
        taint::place(r.1) == leak(files::texts_at(files@)),
{
    let ghost all = files::texts_at(files@);
    let py = analyze_python(files);
    let ghost found = python_analysis(all).tools;
    let mut placed: Vec<ToolTaint> = Vec::new();
    for i in 0..py.tools.len()
        invariant
            found == taint::tool_facts(py.tools@),
            placed@.len() == i,
            forall|j: int| 0 <= j < i ==> (#[trigger] placed@[j])@ == rooted(found[j]),
    {
        let t = &py.tools[i];
        assert(found[i as int] == t@);
        let rootless: bool = chars_of(t.file.as_str()).len() == 0;
        let file: String = if rootless {
            ".".to_owned()
        } else {
            t.file.clone()
        };
        placed.push(moved(t, file));
    }
    assert(taint::tool_facts(placed@) =~= found.map_values(|t: ToolFacts| rooted(t)));
    let mut tools: Vec<ToolTaint> = Vec::new();
    assert(taint::tool_facts(tools@) =~= Seq::empty());
    add_tools(&mut tools, &placed);
    assert(taint::tool_facts(tools@) == tools_first(all, 0));

    let mut secret: Option<(String, u32)> = py.secret_egress;
    for k in 0..files.len()
        invariant
            all == files::texts_at(files@),
            all_readable(all),
            taint::tool_facts(tools@) == tools_first(all, k as int),
            taint::place(secret) is Some ==> leak(all) == taint::place(secret),
            taint::place(secret) is None ==> leak(all) == script_leak(all, k as int),
    {
        assert(all[k as int] == files@[k as int]@);
        if is_js_ts(files[k].path.as_str()) {
            let a = js::analyze(files[k].content.as_str());
            let ghost seen = js::file_analysis(all[k as int].content);
            if secret.is_none() {
                secret = match &a.secret_egress {
                    Some(l) => Some((files[k].path.clone(), l.1)),
                    None => None,
                };
            }
            let mut here: Vec<ToolTaint> = Vec::new();
            for i in 0..a.tools.len()
                invariant
                    k < files@.len(),
                    all == files::texts_at(files@),
                    all[k as int] == files@[k as int]@,
                    seen.tools == taint::tool_facts(a.tools@),
                    here@.len() == i,
                    forall|j: int|
                        0 <= j < i ==> (#[trigger] here@[j])@ == (ToolFacts {
                            file: all[k as int].path,
                            ..seen.tools[j]
                        }),
            {
                assert(seen.tools[i as int] == a.tools@[i as int]@);
                here.push(moved(&a.tools[i], files[k].path.clone()));
            }
            assert(taint::tool_facts(here@) =~= script_tools(all[k as int]));
            add_tools(&mut tools, &here);
        }
    }
    (tools, secret)
}

// --- laws ------------------------------------------------------------------

/// Each tool has a name, and no two have the same.
pub open spec fn tools_named_once(tools: Seq<ToolFacts>) -> bool {
    &&& forall|i: int| 0 <= i < tools.len() ==> (#[trigger] tools[i]).name.len() > 0
    &&& forall|i: int, j: int|
        0 <= i < j < tools.len() ==> (#[trigger] tools[i]).name != (#[trigger] tools[j]).name
}

proof fn lemma_with_tools(known: Seq<ToolFacts>, found: Seq<ToolFacts>, n: int)
    requires
        tools_named_once(known),
    ensures
        tools_named_once(with_tools(known, found, n)),
    decreases n,
{
    if 0 < n <= found.len() {
        lemma_with_tools(known, found, n - 1);
    }
}

proof fn lemma_tools_first(files: Seq<FileText>, n: int)
    ensures
        tools_named_once(tools_first(files, n)),
    decreases n,
{
    if 0 < n <= files.len() {
        lemma_tools_first(files, n - 1);
        let found = script_tools(files[n - 1]);
        lemma_with_tools(tools_first(files, n - 1), found, found.len() as int);
    } else {
        let found = python_analysis(files).tools;
        let placed = found.map_values(|t: ToolFacts| rooted(t));
        lemma_with_tools(Seq::empty(), placed, found.len() as int);
    }
}

proof fn lemma_with_tools_located(known: Seq<ToolFacts>, found: Seq<ToolFacts>, n: int)
    requires
        forall|k: int| 0 <= k < known.len() ==> taint::is_located(#[trigger] known[k]),
        forall|k: int| 0 <= k < found.len() ==> taint::is_located(#[trigger] found[k]),
    ensures
        forall|k: int| 0 <= k < with_tools(known, found, n).len() ==> taint::is_located(#[trigger] with_tools(known, found, n)[k]),
    decreases n,
{
    if 0 < n <= found.len() {
        lemma_with_tools_located(known, found, n - 1);
        let before = with_tools(known, found, n - 1);
        let now = with_tools(known, found, n);
        assert forall|k: int| 0 <= k < now.len() implies taint::is_located(#[trigger] now[k]) by {
            if k < before.len() {
                assert(now[k] == before[k]);
            }
        }
    }
}

/// The lines of the files can be counted in 32 bits.
pub open spec fn lines_fit(files: Seq<FileText>) -> bool {
    forall|k: int| 0 <= k < files.len() ==> (#[trigger] files[k]).content.len() < 0xffff_ffff
}

proof fn lemma_python_first_fits(files: Seq<FileText>, n: int)
    requires
        lines_fit(files),
    ensures
        forall|k: int| 0 <= k < python_first(files, n).len() ==> (#[trigger] python_first(files, n)[k]).1.len() < 0xffff_ffff,
    decreases n,
{
    if 0 < n <= files.len() {
        lemma_python_first_fits(files, n - 1);
        let before = python_first(files, n - 1);
        let now = python_first(files, n);
        assert forall|k: int| 0 <= k < now.len() implies (#[trigger] now[k]).1.len() < 0xffff_ffff by {
            if k < before.len() {
                assert(now[k] == before[k]);
            }
        }
    }
}

proof fn lemma_tools_first_located(files: Seq<FileText>, n: int)
    requires
        lines_fit(files),
    ensures
        forall|k: int| 0 <= k < tools_first(files, n).len() ==> taint::is_located(#[trigger] tools_first(files, n)[k]),
    decreases n,
{
    if 0 < n <= files.len() {
        lemma_tools_first_located(files, n - 1);
        let f = files[n - 1];
        js::lemma_tools_located(f.content);
        let found = script_tools(f);
        assert forall|k: int| 0 <= k < found.len() implies taint::is_located(#[trigger] found[k]) by {
            assert(taint::is_located(js::file_tools(f.content)[k]));
        }
        lemma_with_tools_located(tools_first(files, n - 1), found, found.len() as int);
    } else {
        let modules = python_first(files, files.len() as int);
        lemma_python_first_fits(files, files.len() as int);
        python::lemma_repo_tools_located(modules, modules.len() as int);
        let found = python_analysis(files).tools;
        let placed = found.map_values(|t: ToolFacts| rooted(t));
        assert forall|k: int| 0 <= k < placed.len() implies taint::is_located(#[trigger] placed[k]) by {
            assert(found[k].line > 0);
        }
        lemma_with_tools_located(Seq::empty(), placed, found.len() as int);
    }
}

/// A tool of a repository that carries a fact has a line, where the lines of its files can be
/// counted in 32 bits.
pub proof fn law_tools_with_facts_have_lines(files: Seq<FileText>)
    requires
        lines_fit(files),
    ensures
        forall|k: int| 0 <= k < all_tools(files).len() ==> taint::is_located(#[trigger] all_tools(files)[k]),
{
    lemma_tools_first_located(files, files.len() as int);
}

/// The first registration wins: what is known already stays as it is, whatever is found later.
pub proof fn law_known_tools_stay(known: Seq<ToolFacts>, found: Seq<ToolFacts>, n: int)
    ensures
        known.len() <= with_tools(known, found, n).len(),
        with_tools(known, found, n).take(known.len() as int) == known,
    decreases n,
{
    if 0 < n <= found.len() {
        law_known_tools_stay(known, found, n - 1);
        let before = with_tools(known, found, n - 1);
        let now = with_tools(known, found, n);
        assert(now.take(known.len() as int) =~= before.take(known.len() as int));
    } else {
        assert(known.take(known.len() as int) =~= known);
    }
}

/// A tool is listed once, under a name, however many files register it.
pub proof fn law_tools_are_named_once(files: Seq<FileText>)
    ensures
        tools_named_once(all_tools(files)),
{
    lemma_tools_first(files, files.len() as int);
}

} // verus!
