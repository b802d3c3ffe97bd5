//! What the model of a repository is for, stated over its files, the tools and dependencies that were
//! found, and the entities that stand for them.
use crate::deps::DepFacts;
use crate::files;
use crate::files::FileText;
use crate::grading;
use crate::inventory;
use crate::js;
use crate::laws_score;
use crate::laws_text;
use crate::manifest;
use crate::model;
use crate::model::{AttrFact, EntityFacts, ModelFacts};
use crate::order;
use crate::python;
use crate::repo;
use crate::repo::{BIND_SITE, CORS_SITE, DIGITS, SECRET_SITE, TLS_SITE};
use crate::scan;
use crate::scan::Signal;
use crate::score;
use crate::score::{ALL_DIMS, Dim, ScoreStatus};
use crate::taint;
use crate::taint::ToolFacts;
use crate::text;
use vstd::prelude::*;

verus! {

// --- tools -----------------------------------------------------------------

/// Every tool of a Python file is listed, under its name.
pub proof fn law_python_tools_are_listed(files: Seq<FileText>, k: int, i: int)
    requires
        0 <= k < files.len(),
        text::ends_with(files[k].path, ".py"@),
        0 <= i < python::module_tools(files[k].content).len(),
        python::module_tools(files[k].content)[i].name.len() > 0,
    ensures
        taint::has_tool(inventory::all_tools(files), python::module_tools(files[k].content)[i].name),
{
    let n = files.len() as int;
    let ps = inventory::python_first(files, n);
    let name = python::module_tools(files[k].content)[i].name;
    lemma_python_is_read(files, k, n);
    let q = choose|q: int| 0 <= q < ps.len() && ps[q] == (files[k].path, files[k].content);
    lemma_module_tool(ps, q, i, ps.len() as int);
    let found = inventory::python_analysis(files).tools;
    let p = choose|p: int| 0 <= p < found.len() && (#[trigger] found[p]).name == name;
    let rooted_tools = found.map_values(|t: ToolFacts| inventory::rooted(t));
    assert(rooted_tools[p].name == name);
    lemma_found_tool(Seq::empty(), rooted_tools, p, found.len() as int);
    assert(taint::has_tool(inventory::python_tools(files), name));
    lemma_tools_stay(files, 0, n, name);
}

proof fn lemma_python_is_read(files: Seq<FileText>, k: int, n: int)
    requires
        0 <= k < n <= files.len(),
        files::python_file(files[k].path),
    ensures
        inventory::python_first(files, n).contains((files[k].path, files[k].content)),
    decreases n,
{
    let before = inventory::python_first(files, n - 1);
    let now = inventory::python_first(files, n);
    let m = (files[k].path, files[k].content);
    if k == n - 1 {
        assert(now[before.len() as int] == m);
    } else {
        lemma_python_is_read(files, k, n - 1);
        let q = choose|q: int| 0 <= q < before.len() && before[q] == m;
        assert(now[q] == m);
    }
}

proof fn lemma_module_tool(ps: Seq<(Seq<char>, Seq<char>)>, q: int, i: int, n: int)
    requires
        0 <= q < n <= ps.len(),
        0 <= i < python::module_tools(ps[q].1).len(),
    ensures
        taint::has_tool(python::repo_tools(ps, n), python::module_tools(ps[q].1)[i].name),
    decreases n,
{
    let before = python::repo_tools(ps, n - 1);
    let own = python::placed_tools(ps[n - 1].0, ps[n - 1].1);
    let now = python::repo_tools(ps, n);
    let name = python::module_tools(ps[q].1)[i].name;
    assert(now == before + own);
    if q == n - 1 {
        assert(own[i].name == name);
        assert(now[before.len() + i].name == name);
    } else {
        lemma_module_tool(ps, q, i, n - 1);
        let p = choose|p: int| 0 <= p < before.len() && (#[trigger] before[p]).name == name;
        assert(now[p].name == name);
    }
}

proof fn lemma_found_tool(known: Seq<ToolFacts>, found: Seq<ToolFacts>, i: int, n: int)
    requires
        0 <= i < n <= found.len(),
        found[i].name.len() > 0,
    ensures
        taint::has_tool(inventory::with_tools(known, found, n), found[i].name),
    decreases n,
{
    let before = inventory::with_tools(known, found, n - 1);
    let now = inventory::with_tools(known, found, n);
    if i == n - 1 {
        if !taint::has_tool(before, found[i].name) {
            assert(now[before.len() as int].name == found[i].name);
        }
    } else {
        lemma_found_tool(known, found, i, n - 1);
        let q = choose|q: int| 0 <= q < before.len() && (#[trigger] before[q]).name == found[i].name;
        assert(now[q].name == found[i].name);
    }
}

proof fn lemma_tools_stay(files: Seq<FileText>, k: int, n: int, name: Seq<char>)
    requires
        0 <= k <= n <= files.len(),
        taint::has_tool(inventory::tools_first(files, k), name),
    ensures
        taint::has_tool(inventory::tools_first(files, n), name),
    decreases n - k,
{
    if k < n {
        lemma_tools_stay(files, k, n - 1, name);
        let before = inventory::tools_first(files, n - 1);
        let now = inventory::tools_first(files, n);
        if files::script(files[n - 1].path) {
            let found = inventory::script_tools(files[n - 1]);
            inventory::law_known_tools_stay(before, found, found.len() as int);
            let q = choose|q: int| 0 <= q < before.len() && (#[trigger] before[q]).name == name;
            assert(now.take(before.len() as int)[q] == now[q]);
            assert(now[q].name == name);
        }
    }
}

/// Every tool of a script file is listed, under its name.
pub proof fn law_script_tools_are_listed(files: Seq<FileText>, k: int, i: int)
    requires
        0 <= k < files.len(),
        files::script(files[k].path),
        0 <= i < js::file_tools(files[k].content).len(),
        js::file_tools(files[k].content)[i].name.len() > 0,
    ensures
        taint::has_tool(inventory::all_tools(files), js::file_tools(files[k].content)[i].name),
{
    let found = inventory::script_tools(files[k]);
    let name = js::file_tools(files[k].content)[i].name;
    assert(found[i].name == name);
    lemma_found_tool(inventory::tools_first(files, k), found, i, found.len() as int);
    assert(taint::has_tool(inventory::tools_first(files, k + 1), name));
    lemma_tools_stay(files, k + 1, files.len() as int, name);
}

/// A tool that is listed was found: by a Python file or by a script file, with the facts that are
/// listed, and it is placed in that file.
pub proof fn law_listed_tools_were_found(files: Seq<FileText>, q: int)
    requires
        0 <= q < inventory::all_tools(files).len(),
    ensures
        ({
            let t = inventory::all_tools(files)[q];
            ||| exists|k: int, i: int|
                0 <= k < files.len() && files::script((#[trigger] files[k]).path) && 0 <= i < js::file_tools(files[k].content).len() && t
                    == (ToolFacts { file: files[k].path, ..#[trigger] js::file_tools(files[k].content)[i] })
            ||| exists|p: int|
                0 <= p < inventory::python_analysis(files).tools.len() && t == inventory::rooted(#[trigger] inventory::python_analysis(files).tools[p])
        }),
{
    lemma_listed_tool(files, files.len() as int, q);
}

proof fn lemma_listed_tool(files: Seq<FileText>, n: int, q: int)
    requires
        0 <= n <= files.len(),
        0 <= q < inventory::tools_first(files, n).len(),
    ensures
        ({
            let t = inventory::tools_first(files, n)[q];
            ||| exists|k: int, i: int|
                0 <= k < files.len() && files::script((#[trigger] files[k]).path) && 0 <= i < js::file_tools(files[k].content).len() && t
                    == (ToolFacts { file: files[k].path, ..#[trigger] js::file_tools(files[k].content)[i] })
            ||| exists|p: int|
                0 <= p < inventory::python_analysis(files).tools.len() && t == inventory::rooted(#[trigger] inventory::python_analysis(files).tools[p])
        }),
    decreases n,
{
    if n <= 0 {
        let found = inventory::python_analysis(files).tools;
        let placed = found.map_values(|t: ToolFacts| inventory::rooted(t));
        lemma_new_tool(Seq::empty(), placed, found.len() as int, q);
        let p = choose|p: int| 0 <= p < placed.len() && inventory::tools_first(files, n)[q] == #[trigger] placed[p];
        assert(inventory::tools_first(files, n)[q] == inventory::rooted(inventory::python_analysis(files).tools[p]));
    } else if files::script(files[n - 1].path) {
        let before = inventory::tools_first(files, n - 1);
        let found = inventory::script_tools(files[n - 1]);
        let now = inventory::tools_first(files, n);
        inventory::law_known_tools_stay(before, found, found.len() as int);
        if q < before.len() {
            lemma_listed_tool(files, n - 1, q);
            assert(now.take(before.len() as int)[q] == now[q]);
        } else {
            lemma_new_tool(before, found, found.len() as int, q);
            let i = choose|i: int| 0 <= i < found.len() && now[q] == #[trigger] found[i];
            let own = js::file_tools(files[n - 1].content);
            assert(found[i] == (ToolFacts { file: files[n - 1].path, ..own[i] }));
            assert(now[q] == (ToolFacts { file: files[n - 1].path, ..js::file_tools(files[n - 1].content)[i] }));
        }
    } else {
        lemma_listed_tool(files, n - 1, q);
    }
}

proof fn lemma_new_tool(known: Seq<ToolFacts>, found: Seq<ToolFacts>, n: int, q: int)
    requires
        0 <= n <= found.len(),
        known.len() <= q < inventory::with_tools(known, found, n).len(),
    ensures
        exists|i: int| 0 <= i < found.len() && inventory::with_tools(known, found, n)[q] == #[trigger] found[i],
    decreases n,
{
    if n > 0 {
        let before = inventory::with_tools(known, found, n - 1);
        if q < before.len() {
            lemma_new_tool(known, found, n - 1, q);
            assert(inventory::with_tools(known, found, n)[q] == before[q]);
        } else {
            assert(inventory::with_tools(known, found, n)[q] == found[n - 1]);
        }
    }
}

/// A leak in any Python or script file is a leak of the repository, and there is no other.
pub proof fn law_leaks_of_files_are_leaks(files: Seq<FileText>)
    ensures
        inventory::leak(files) is Some <==> exists|k: int|
            0 <= k < files.len() && ((text::ends_with((#[trigger] files[k]).path, ".py"@) && python::leak_line(files[k].content) is Some)
                || (files::script(files[k].path) && js::leak_line(files[k].content) is Some)),
{
    let n = files.len() as int;
    let ps = inventory::python_first(files, n);
    lemma_python_leak(ps, 0);
    lemma_script_leak(files, 0);
    if exists|k: int|
        0 <= k < files.len() && ((text::ends_with((#[trigger] files[k]).path, ".py"@) && python::leak_line(files[k].content) is Some)
            || (files::script(files[k].path) && js::leak_line(files[k].content) is Some)) {
        let k = choose|k: int|
            0 <= k < files.len() && ((text::ends_with((#[trigger] files[k]).path, ".py"@) && python::leak_line(
                files[k].content,
            ) is Some) || (files::script(files[k].path) && js::leak_line(files[k].content) is Some));
        if text::ends_with(files[k].path, ".py"@) && python::leak_line(files[k].content) is Some {
            lemma_python_is_read(files, k, n);
            let q = choose|q: int| 0 <= q < ps.len() && ps[q] == (files[k].path, files[k].content);
            assert(python::leak_line(ps[q].1) is Some);
        }
    }
    if inventory::python_analysis(files).secret_egress is Some {
        let q = choose|q: int| 0 <= q < ps.len() && python::leak_line((#[trigger] ps[q]).1) is Some;
        lemma_python_from(files, n, q);
        let k = choose|k: int|
            0 <= k < files.len() && files::python_file((#[trigger] files[k]).path) && ps[q] == (files[k].path, files[k].content);
        assert(text::ends_with(files[k].path, ".py"@));
    }
}

proof fn lemma_python_from(files: Seq<FileText>, n: int, q: int)
    requires
        0 <= n <= files.len(),
        0 <= q < inventory::python_first(files, n).len(),
    ensures
        exists|k: int|
            0 <= k < files.len() && files::python_file((#[trigger] files[k]).path) && inventory::python_first(files, n)[q] == (
                files[k].path,
                files[k].content,
            ),
    decreases n,
{
    let before = inventory::python_first(files, n - 1);
    if q < before.len() {
        lemma_python_from(files, n - 1, q);
        assert(inventory::python_first(files, n)[q] == before[q]);
    } else {
        assert(inventory::python_first(files, n)[q] == (files[n - 1].path, files[n - 1].content));
    }
}

proof fn lemma_python_leak(ps: Seq<(Seq<char>, Seq<char>)>, k: int)
    requires
        0 <= k <= ps.len(),
    ensures
        python::repo_leak(ps, k) is Some <==> exists|q: int| k <= q < ps.len() && python::leak_line((#[trigger] ps[q]).1) is Some,
    decreases ps.len() - k,
{
    if k < ps.len() {
        lemma_python_leak(ps, k + 1);
        assert(ps[k].1 == ps[k].1);
    }
}

proof fn lemma_script_leak(files: Seq<FileText>, k: int)
    requires
        0 <= k <= files.len(),
    ensures
        inventory::script_leak(files, k) is Some <==> exists|q: int|
            k <= q < files.len() && files::script((#[trigger] files[q]).path) && js::leak_line(files[q].content) is Some,
    decreases files.len() - k,
{
    if k < files.len() {
        lemma_script_leak(files, k + 1);
        assert(js::file_analysis(files[k].content).secret_egress is Some == js::leak_line(files[k].content) is Some);
        assert(files[k].path == files[k].path);
    }
}

// --- entities --------------------------------------------------------------

/// Every tool has an entity: under its name, at the place of its registration, and with the line where
/// that is known.
pub proof fn law_tools_have_entities(
    files: Seq<FileText>,
    deps: Seq<DepFacts>,
    transport: Seq<char>,
    name: Seq<char>,
    i: int,
)
    requires
        0 <= i < inventory::all_tools(files).len(),
    ensures
        ({
            let t = inventory::all_tools(files)[i];
            let e = repo::tool_entity(t);
            &&& repo::model_of(files, deps, transport, name).entities.contains(e)
            &&& e.id == "tool:"@ + t.name
            &&& e.path == t.file
            &&& e.line == (if t.line > 0 {
                Some(t.line)
            } else {
                None
            })
            &&& model::text_value(e, "mcp_kind"@) == Some("tool"@)
            &&& model::text_value(e, "name"@) == Some(t.name)
        }),
{
    let t = inventory::all_tools(files)[i];
    let e = repo::tool_entity(t);
    lemma_parts(files, deps, transport, name);
    let es = repo::model_of(files, deps, transport, name).entities;
    let head = server_and_sites(files, deps, transport, name);
    assert(repo::tool_entities(inventory::all_tools(files))[i] == e);
    assert(es[head.len() + i] == e);
    reveal_strlit("mcp_kind");
    reveal_strlit("name");
    assert("mcp_kind"@.len() != "name"@.len());
    lemma_second_value(e, "tool"@, t.name);
}

/// The entities before those of the tools.
pub open spec fn server_and_sites(
    files: Seq<FileText>,
    deps: Seq<DepFacts>,
    transport: Seq<char>,
    name: Seq<char>,
) -> Seq<EntityFacts> {
    seq![repo::server_facts(files, deps, transport, name)] + repo::sites(BIND_SITE@, scan::first_site(files, Signal::BindsAll, 0)) + repo::sites(
        CORS_SITE@,
        scan::first_site(files, Signal::CorsWildcard, 0),
    ) + repo::sites(TLS_SITE@, scan::first_site(files, Signal::TlsDisabled, 0)) + repo::sites(SECRET_SITE@, inventory::leak(files))
}

proof fn lemma_parts(files: Seq<FileText>, deps: Seq<DepFacts>, transport: Seq<char>, name: Seq<char>)
    ensures
        repo::model_of(files, deps, transport, name).entities == server_and_sites(files, deps, transport, name) + repo::tool_entities(
            inventory::all_tools(files),
        ) + repo::dep_entities(deps) + repo::lock_sites(files, deps),
{
}

proof fn lemma_second_value(e: EntityFacts, kind: Seq<char>, name: Seq<char>)
    requires
        e.attributes.len() >= 2,
        e.attributes[0] == ("mcp_kind"@, AttrFact::Str(kind)),
        e.attributes[1] == ("name"@, AttrFact::Str(name)),
        "mcp_kind"@ != "name"@,
    ensures
        model::text_value(e, "mcp_kind"@) == Some(kind),
        model::text_value(e, "name"@) == Some(name),
{
    reveal_with_fuel(model::value_from, 3);
}

/// Every dependency has an entity: under its name, in the manifest that declares it, with its version
/// and whether it is pinned.
pub proof fn law_dependencies_have_entities(
    files: Seq<FileText>,
    deps: Seq<DepFacts>,
    transport: Seq<char>,
    name: Seq<char>,
    i: int,
)
    requires
        0 <= i < deps.len(),
    ensures
        ({
            let d = deps[i];
            let e = repo::dep_entity(d);
            &&& repo::model_of(files, deps, transport, name).entities.contains(e)
            &&& e.id == "dep:"@ + d.name
            &&& e.path == d.source_path
            &&& e.line is None
            &&& model::text_value(e, "mcp_kind"@) == Some("dependency"@)
            &&& model::text_value(e, "name"@) == Some(d.name)
            &&& model::value(e, "pinned"@) == Some(AttrFact::Bool(d.pinned))
            &&& model::text_value(e, "range"@) == Some(d.spec)
        }),
{
    let d = deps[i];
    let e = repo::dep_entity(d);
    lemma_parts(files, deps, transport, name);
    let es = repo::model_of(files, deps, transport, name).entities;
    let head = server_and_sites(files, deps, transport, name) + repo::tool_entities(inventory::all_tools(files));
    assert(repo::dep_entities(deps)[i] == e);
    assert(es[head.len() + i] == e);
    reveal_strlit("mcp_kind");
    reveal_strlit("name");
    reveal_strlit("pinned");
    reveal_strlit("range");
    assert("mcp_kind"@.len() == 8 && "name"@.len() == 4 && "pinned"@.len() == 6 && "range"@.len() == 5);
    lemma_second_value(e, "dependency"@, d.name);
    reveal_with_fuel(model::value_from, 5);
}

/// What was seen somewhere has a site of its own, under the id that the rules cite, at the file and line
/// where it was first seen.
pub proof fn law_signals_have_sites(files: Seq<FileText>, deps: Seq<DepFacts>, transport: Seq<char>, name: Seq<char>)
    ensures
        ({
            let es = repo::model_of(files, deps, transport, name).entities;
            &&& scan::first_site(files, Signal::BindsAll, 0) matches Some(at) ==> es.contains(
                repo::site_entity("site:bind-all-interfaces"@, at.0, Some(at.1)),
            )
            &&& scan::first_site(files, Signal::CorsWildcard, 0) matches Some(at) ==> es.contains(
                repo::site_entity("site:cors-wildcard"@, at.0, Some(at.1)),
            )
            &&& scan::first_site(files, Signal::TlsDisabled, 0) matches Some(at) ==> es.contains(
                repo::site_entity("site:tls-verify-disabled"@, at.0, Some(at.1)),
            )
            &&& inventory::leak(files) matches Some(at) ==> es.contains(repo::site_entity("site:secret-egress"@, at.0, Some(at.1)))
            &&& deps.len() > 0 && (forall|k: int| 0 <= k < files.len() ==> !files::lockfile((#[trigger] files[k]).path)) ==> exists|
                line: Option<u32>,
            | es.contains(#[trigger] repo::site_entity("site:no-lockfile"@, deps[0].source_path, line))
        }),
        forall|id: Seq<char>, path: Seq<char>, line: Option<u32>|
            (#[trigger] repo::site_entity(id, path, line)).id == id && repo::site_entity(id, path, line).path == path && repo::site_entity(
                id,
                path,
                line,
            ).line == line,
{
    let es = repo::model_of(files, deps, transport, name).entities;
    let s0 = seq![repo::server_facts(files, deps, transport, name)];
    let s1 = repo::sites(BIND_SITE@, scan::first_site(files, Signal::BindsAll, 0));
    let s2 = repo::sites(CORS_SITE@, scan::first_site(files, Signal::CorsWildcard, 0));
    let s3 = repo::sites(TLS_SITE@, scan::first_site(files, Signal::TlsDisabled, 0));
    let s4 = repo::sites(SECRET_SITE@, inventory::leak(files));
    let s5 = repo::tool_entities(inventory::all_tools(files));
    let s6 = repo::dep_entities(deps);
    let s7 = repo::lock_sites(files, deps);
    assert(es == s0 + s1 + s2 + s3 + s4 + s5 + s6 + s7);
    if s1.len() > 0 {
        assert(es[1] == s1[0]);
    }
    if s2.len() > 0 {
        assert(es[(s0 + s1).len() as int] == s2[0]);
    }
    if s3.len() > 0 {
        assert(es[(s0 + s1 + s2).len() as int] == s3[0]);
    }
    if s4.len() > 0 {
        assert(es[(s0 + s1 + s2 + s3).len() as int] == s4[0]);
    }
    if s7.len() > 0 {
        assert(es[(s0 + s1 + s2 + s3 + s4 + s5 + s6).len() as int] == s7[0]);
        assert(s7[0] == repo::site_entity(
            "site:no-lockfile"@,
            deps[0].source_path,
            repo::deps_line_at(files, deps[0].source_path, 0),
        ));
    }
}

/// What the entity of the server says, under each key.
pub proof fn law_the_server_carries_what_was_seen(
    files: Seq<FileText>,
    deps: Seq<DepFacts>,
    transport: Seq<char>,
    name: Seq<char>,
)
    ensures
        ({
            let s = repo::server_facts(files, deps, transport, name);
            &&& model::server_of(repo::model_of(files, deps, transport, name)) == Some(s)
            &&& s.id == "mcp_server:"@ + name
            &&& model::text_value(s, "transport"@) == Some(transport)
            &&& model::value(s, "has_lockfile"@) == Some(
                AttrFact::Bool(exists|k: int| 0 <= k < files.len() && files::lockfile((#[trigger] files[k]).path)),
            )
            &&& model::is_set(s, "is_mcp"@) <==> scan::is_mcp(files, deps)
            &&& model::is_set(s, "binds_all_interfaces"@) <==> scan::first_site(files, Signal::BindsAll, 0) is Some
            &&& model::is_set(s, "has_auth"@) <==> scan::checks_callers(files)
            &&& model::is_set(s, "cors_wildcard"@) <==> scan::first_site(files, Signal::CorsWildcard, 0) is Some
            &&& model::is_set(s, "tls_verify_disabled"@) <==> scan::first_site(files, Signal::TlsDisabled, 0) is Some
            &&& model::is_set(s, "all_tools_read_only"@) <==> scan::read_only(files) == Some(true)
            &&& model::is_set(s, "secret_source_to_egress"@) <==> inventory::leak(files) is Some
            &&& !model::is_set(s, "keyless_public_only"@)
        }),
{
    repo::law_model_counts_what_was_found(files, deps, transport, name);
    lemma_keys();
    repo::lemma_server_attr(files, deps, transport, "transport"@);
    repo::lemma_server_attr(files, deps, transport, "has_lockfile"@);
    repo::lemma_server_attr(files, deps, transport, "is_mcp"@);
    repo::lemma_server_attr(files, deps, transport, "binds_all_interfaces"@);
    repo::lemma_server_attr(files, deps, transport, "has_auth"@);
    repo::lemma_server_attr(files, deps, transport, "cors_wildcard"@);
    repo::lemma_server_attr(files, deps, transport, "tls_verify_disabled"@);
    repo::lemma_server_attr(files, deps, transport, "all_tools_read_only"@);
    repo::lemma_server_attr(files, deps, transport, "secret_source_to_egress"@);
    repo::lemma_server_attr(files, deps, transport, "keyless_public_only"@);
}

proof fn lemma_keys()
    ensures
        "mcp_kind"@.len() == 8 && "mcp_kind"@[0] == 'm',
        "transport"@.len() == 9 && "transport"@[0] == 't',
        "tool_count"@.len() == 10,
        "languages"@.len() == 9 && "languages"@[0] == 'l',
        "has_lockfile"@.len() == 12,
        "is_mcp"@.len() == 6,
        "binds_all_interfaces"@.len() == 20,
        "has_auth"@.len() == 8 && "has_auth"@[0] == 'h',
        "cors_wildcard"@.len() == 13,
        "tls_verify_disabled"@.len() == 19 && "tls_verify_disabled"@[0] == 't',
        "all_tools_read_only"@.len() == 19 && "all_tools_read_only"@[0] == 'a',
        "secret_source_to_egress"@.len() == 23,
        "keyless_public_only"@.len() == 19 && "keyless_public_only"@[0] == 'k',
{
    reveal_strlit("mcp_kind");
    reveal_strlit("transport");
    reveal_strlit("tool_count");
    reveal_strlit("languages");
    reveal_strlit("has_lockfile");
    reveal_strlit("is_mcp");
    reveal_strlit("binds_all_interfaces");
    reveal_strlit("has_auth");
    reveal_strlit("cors_wildcard");
    reveal_strlit("tls_verify_disabled");
    reveal_strlit("all_tools_read_only");
    reveal_strlit("secret_source_to_egress");
    reveal_strlit("keyless_public_only");
}

/// The model of a repository is that of its shipped files, with the dependencies and the transport that
/// they declare, under the name that they give or else as `server`.
pub proof fn law_the_model_is_that_of_the_shipped_files(files: Seq<FileText>)
    ensures
        ({
            let kept = files::shipped(files);
            let m = repo::repo_model(files);
            &&& manifest::repo_name(kept) matches Some(n) ==> m == repo::model_of(kept, manifest::all_deps(kept), manifest::repo_transport(kept), n)
            &&& manifest::repo_name(kept) is None ==> m == repo::model_of(kept, manifest::all_deps(kept), manifest::repo_transport(kept), "server"@)
            &&& m.schema_version == "0"@
            &&& m.source_kind == "mcp_server"@
            &&& m.parser_version == "0.1.0"@
            &&& m.digest_input == repo::digest_input(kept)
        }),
{
}

/// The languages of a repository are those of its files.
pub proof fn law_languages_are_those_of_the_files(files: Seq<FileText>, l: Seq<char>)
    ensures
        repo::languages(files).contains(l) <==> exists|k: int| 0 <= k < files.len() && files::language((#[trigger] files[k]).path) == Some(l),
{
    let n = files.len() as int;
    let all = repo::languages_first(files, n);
    lemma_language_is_seen(files, l, n);
    order::law_sorting_keeps_items(all, all);
    all.to_multiset_ensures();
    repo::languages(files).to_multiset_ensures();
    assert(all.contains(l) <==> all.to_multiset().count(l) > 0);
    assert(repo::languages(files).contains(l) <==> repo::languages(files).to_multiset().count(l) > 0);
}

proof fn lemma_language_is_seen(files: Seq<FileText>, l: Seq<char>, n: int)
    requires
        0 <= n <= files.len(),
    ensures
        repo::languages_first(files, n).contains(l) <==> exists|k: int|
            0 <= k < n && files::language((#[trigger] files[k]).path) == Some(l),
    decreases n,
{
    if n > 0 {
        lemma_language_is_seen(files, l, n - 1);
        let before = repo::languages_first(files, n - 1);
        let now = repo::languages_first(files, n);
        match files::language(files[n - 1].path) {
            Some(x) => {
                if !before.contains(x) {
                    assert(now[before.len() as int] == x);
                    if before.contains(l) {
                        let q = choose|q: int| 0 <= q < before.len() && before[q] == l;
                        assert(now[q] == l);
                    }
                    if now.contains(l) && l != x {
                        let q = choose|q: int| 0 <= q < now.len() && now[q] == l;
                        assert(before[q] == l);
                    }
                }
            },
            None => {},
        }
    }
}

/// The server stands in its first `server.json`, else in its first `package.json`, else at the root.
pub proof fn law_the_server_stands_in_its_manifest(files: Seq<FileText>, k: int)
    requires
        0 <= k < files.len(),
        files::base(files[k].path) == "server.json"@ || (files::base(files[k].path) == "package.json"@ && forall|j: int|
            0 <= j < files.len() ==> files::base((#[trigger] files[j]).path) != "server.json"@),
        forall|j: int| 0 <= j < k ==> files::base((#[trigger] files[j]).path) != files::base(files[k].path),
    ensures
        repo::server_path(files) == files[k].path,
{
    lemma_first_file_is(files, files::base(files[k].path), 0, k);
    if files::base(files[k].path) != "server.json"@ {
        lemma_no_file(files, "server.json"@, 0);
    }
}

proof fn lemma_first_file_is(files: Seq<FileText>, name: Seq<char>, i: int, k: int)
    requires
        0 <= i <= k < files.len(),
        files::base(files[k].path) == name,
        forall|j: int| i <= j < k ==> files::base((#[trigger] files[j]).path) != name,
    ensures
        manifest::first_file(files, name, i) == Some(files[k]),
    decreases k - i,
{
    if i < k {
        assert(files::base(files[i].path) != name);
        lemma_first_file_is(files, name, i + 1, k);
    }
}

proof fn lemma_no_file(files: Seq<FileText>, name: Seq<char>, i: int)
    requires
        0 <= i <= files.len(),
        forall|j: int| i <= j < files.len() ==> files::base((#[trigger] files[j]).path) != name,
    ensures
        manifest::first_file(files, name, i) is None,
    decreases files.len() - i,
{
    if i < files.len() {
        assert(files::base(files[i].path) != name);
        lemma_no_file(files, name, i + 1);
    }
}

/// Parts are joined with the separator between them, and nowhere else.
pub proof fn law_parts_are_joined(parts: Seq<Seq<char>>, p: Seq<char>, sep: Seq<char>)
    ensures
        repo::join(parts.push(p), sep) == (if parts.len() == 0 {
            p
        } else {
            repo::join(parts, sep) + sep + p
        }),
        repo::join(Seq::empty(), sep) == Seq::<char>::empty(),
{
    lemma_join_prefix(parts, p, sep, parts.len() as int);
    assert(parts.push(p)[parts.len() as int] == p);
}

proof fn lemma_join_prefix(parts: Seq<Seq<char>>, p: Seq<char>, sep: Seq<char>, n: int)
    requires
        0 <= n <= parts.len(),
    ensures
        repo::join_first(parts.push(p), sep, n) == repo::join_first(parts, sep, n),
    decreases n,
{
    if n > 0 {
        lemma_join_prefix(parts, p, sep, n - 1);
        assert(parts.push(p)[n - 1] == parts[n - 1]);
        assert(parts.push(p)[0] == parts[0]);
    }
}

/// A number is written with the digits of its value.
pub proof fn law_numbers_are_written_in_decimal(n: nat, d: nat)
    requires
        d < 10,
    ensures
        repo::decimal(d) == seq!['0', '1', '2', '3', '4', '5', '6', '7', '8', '9'].subrange(d as int, d as int + 1),
        n > 0 ==> repo::decimal(10 * n + d) == repo::decimal(n) + repo::decimal(d),
{
    let all = seq!['0', '1', '2', '3', '4', '5', '6', '7', '8', '9'];
    assert(DIGITS@ =~= all);
    assert(repo::decimal(d) =~= all.subrange(d as int, d as int + 1));
    if n > 0 {
        let m = 10 * n + d;
        assert(m / 10 == n && m % 10 == d);
        assert(repo::decimal(m) =~= repo::decimal(n) + repo::decimal(d));
    }
}

/// One line about a model: the transport, the tools and dependencies that were counted, the languages.
pub proof fn law_summaries_tell_the_counts(m: ModelFacts)
    ensures
        ({
            let n = m.entities.len() as int;
            let transport = match model::server_of(m) {
                Some(s) => match model::text_value(s, "transport"@) {
                    Some(t) => t,
                    None => "unknown"@,
                },
                None => "unknown"@,
            };
            repo::summary(m) == "transport="@ + transport + " · tools="@ + repo::decimal(model::count_of(m.entities, "tool"@, n))
                + " · deps="@ + repo::decimal(model::count_of(m.entities, "dependency"@, n)) + " · langs=["@ + repo::listed_languages(m)
                + "]"@
        }),
{
}

/// A missing lockfile is shown in the manifest of the first dependency, on the first of its lines that
/// speaks of dependencies.
pub proof fn law_missing_lockfiles_are_shown_in_the_manifest(
    files: Seq<FileText>,
    deps: Seq<DepFacts>,
    k: int,
    i: int,
)
    requires
        deps.len() > 0,
        0 <= k < files.len(),
        files[k].path == deps[0].source_path,
        forall|j: int| 0 <= j < k ==> (#[trigger] files[j]).path != deps[0].source_path,
        forall|j: int| 0 <= j < files.len() ==> !files::lockfile((#[trigger] files[j]).path),
        0 <= i < text::lines(files[k].content).len() < 0xffff_ffff,
        text::contains(text::lines(files[k].content)[i], "dependencies"@),
        forall|j: int| 0 <= j < i ==> !text::contains(#[trigger] text::lines(files[k].content)[j], "dependencies"@),
    ensures
        repo::lock_sites(files, deps) == seq![repo::site_entity("site:no-lockfile"@, files[k].path, Some((i + 1) as u32))],
{
    let ls = text::lines(files[k].content);
    lemma_deps_line(ls, 0, i);
    lemma_deps_file(files, deps[0].source_path, 0, k);
    laws_text::law_lines_count_from_one(i);
    assert(repo::lock_sites(files, deps) =~= seq![repo::site_entity("site:no-lockfile"@, files[k].path, Some((i + 1) as u32))]);
}

proof fn lemma_deps_line(ls: Seq<Seq<char>>, from: int, i: int)
    requires
        0 <= from <= i < ls.len(),
        text::contains(ls[i], "dependencies"@),
        forall|j: int| from <= j < i ==> !text::contains(#[trigger] ls[j], "dependencies"@),
    ensures
        repo::deps_line(ls, from) == Some(text::line_number(i)),
    decreases i - from,
{
    if from < i {
        assert(!text::contains(ls[from], "dependencies"@));
        lemma_deps_line(ls, from + 1, i);
    }
}

proof fn lemma_deps_file(files: Seq<FileText>, path: Seq<char>, from: int, k: int)
    requires
        0 <= from <= k < files.len(),
        files[k].path == path,
        forall|j: int| from <= j < k ==> (#[trigger] files[j]).path != path,
    ensures
        repo::deps_line_at(files, path, from) == repo::deps_line(text::lines(files[k].content), 0),
    decreases k - from,
{
    if from < k {
        assert(files[from].path != path);
        lemma_deps_file(files, path, from + 1, k);
    }
}

/// A report on a model scores every dimension, and its grade is withheld exactly where the tools of the
/// server were not found.
pub proof fn law_reports_score_every_dimension(m: ModelFacts, d: Dim)
    ensures
        score::dim_score(grading::model_findings(m), ALL_DIMS@, d).status == "scored"@,
        grading::model_report(m).dims.contains(score::dim_score(grading::model_findings(m), ALL_DIMS@, d)),
        grading::model_report(m).status == ScoreStatus::InsufficientCoverage <==> (model::server_of(m) matches Some(s) && model::is_set(
            s,
            "is_mcp"@,
        ) && forall|k: int| 0 <= k < m.entities.len() ==> model::text_value(#[trigger] m.entities[k], "mcp_kind"@) != Some("tool"@)),
{
    laws_score::law_dimensions_are_reported(grading::model_findings(m), ALL_DIMS@, d);
    let k: int = match d {
        Dim::D1ToolInjection => 0,
        Dim::D2Credential => 1,
        Dim::D3Egress => 2,
        Dim::D4Permission => 3,
        Dim::D5Provenance => 4,
    };
    assert(ALL_DIMS@[k] == d);
    lemma_none_of_kind(m.entities, "tool"@, m.entities.len() as int);
}

proof fn lemma_none_of_kind(es: Seq<EntityFacts>, kind: Seq<char>, n: int)
    requires
        0 <= n <= es.len(),
    ensures
        model::count_of(es, kind, n) == 0 <==> forall|k: int|
            0 <= k < n ==> model::text_value(#[trigger] es[k], "mcp_kind"@) != Some(kind),
    decreases n,
{
    if n > 0 {
        lemma_none_of_kind(es, kind, n - 1);
        assert(model::of_kind(es[n - 1], kind) == (model::text_value(es[n - 1], "mcp_kind"@) == Some(kind)));
    }
}

/// There is no site without its signal, and none for a lockfile where there is one, or where there are no
/// dependencies.
pub proof fn law_sites_need_their_signals(files: Seq<FileText>, deps: Seq<DepFacts>, id: Seq<char>)
    ensures
        repo::sites(id, None).len() == 0,
        deps.len() == 0 ==> repo::lock_sites(files, deps).len() == 0,
        (exists|k: int| 0 <= k < files.len() && files::lockfile((#[trigger] files[k]).path)) ==> repo::lock_sites(files, deps).len() == 0,
{
}

/// What the digest is taken of: the files as texts, sorted, with a mark between them. Each one is its
/// path, a null character and its content.
pub proof fn law_digests_cover_every_file(files: Seq<FileText>, i: int)
    requires
        0 <= i < files.len(),
    ensures
        repo::file_parts(files).len() == files.len(),
        repo::file_parts(files)[i] == files[i].path + seq!['\u{0}'] + files[i].content,
        repo::digest_input(files) == repo::join(order::sorted(repo::file_parts(files)), seq!['\u{1}']),
        order::sorted(repo::file_parts(files)).to_multiset() == repo::file_parts(files).to_multiset(),
{
    reveal_strlit("\u{0}");
    reveal_strlit("\u{1}");
    assert("\u{0}"@ =~= seq!['\u{0}']);
    assert("\u{1}"@ =~= seq!['\u{1}']);
    order::law_sorting_keeps_items(repo::file_parts(files), repo::file_parts(files));
}

/// The languages that a summary lists are those of the server, with commas between them.
pub proof fn law_summaries_list_the_languages(m: ModelFacts, s: EntityFacts, ls: Seq<Seq<char>>)
    requires
        model::server_of(m) == Some(s),
        model::value(s, "languages"@) == Some(AttrFact::List(ls)),
    ensures
        repo::listed_languages(m) == repo::join(ls, seq![',']),
{
    reveal_strlit(",");
    assert(","@ =~= seq![',']);
}

} // verus!
