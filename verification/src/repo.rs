//! From the files of a repository to the facts of the server it holds.
//!
//! The model is a function of the shipped files alone: examples, tests and documentation never
//! count towards it.
use crate::deps;
use crate::deps::{Dep, DepFacts};
use crate::files;
use crate::files::{FileText, RepoFile, is_lockfile, lang_of, shipped_files};
use crate::inventory;
use crate::inventory::{collect_tools, scripts_are_readable};
use crate::manifest;
use crate::manifest::{collect_deps, file_named, server_name, transport};
use crate::model;
use crate::model::{
    AttrFact, AttrValue, Entity, EntityFacts, FactModel, ModelFacts, SourceDescriptor,
    first_of_kind, kind_count,
};
use crate::order;
use crate::order::sort_order;
use crate::scan;
use crate::scan::{SDK_IMPORTS, Signal, all_read_only, detect_mcp, http_exposure, tls_disabled_loc};
use crate::taint;
use crate::taint::{ToolFacts, ToolTaint};
use crate::text;
use crate::text::{
    append, append_str, chars_of, concat, contains_str, is_text, lines_of, number_of_line, same_str,
    string_of,
};
use vstd::prelude::*;

verus! {

pub const PARSER_VERSION: &'static str = "0.1.0";

pub const SCHEMA_VERSION: &'static str = "0";

// --- attributes and entities -----------------------------------------------

/// `attrs`, with one more value.
pub open spec fn with_value(
    attrs: Seq<(Seq<char>, AttrFact)>,
    key: Seq<char>,
    value: AttrFact,
) -> Seq<(Seq<char>, AttrFact)> {
    attrs.push((key, value))
}

/// `attrs`, with a true flag under `key` where `on` holds.
pub open spec fn with_flag(attrs: Seq<(Seq<char>, AttrFact)>, key: Seq<char>, on: bool) -> Seq<
    (Seq<char>, AttrFact),
> {
    if on {
        with_value(attrs, key, AttrFact::Bool(true))
    } else {
        attrs
    }
}

fn put(attrs: &mut Vec<(String, AttrValue)>, key: &str, value: AttrValue)
    ensures
        model::attr_facts(final(attrs)@) == with_value(model::attr_facts(old(attrs)@), key@, value@),
{
    let ghost before = model::attr_facts(attrs@);
    attrs.push((key.to_owned(), value));
    assert(model::attr_facts(attrs@) =~= before.push((key@, value@)));
}

fn put_flag(attrs: &mut Vec<(String, AttrValue)>, key: &str, on: bool)
    ensures
        model::attr_facts(final(attrs)@) == with_flag(model::attr_facts(old(attrs)@), key@, on),
{
    if on {
        put(attrs, key, AttrValue::Bool(true));
    }
}

/// The attributes of an entity of the given kind, to start with.
pub open spec fn kind_attrs(kind: Seq<char>) -> Seq<(Seq<char>, AttrFact)> {
    with_value(Seq::empty(), "mcp_kind"@, AttrFact::Str(kind))
}

fn start_attrs(kind: &str) -> (r: Vec<(String, AttrValue)>)
    ensures
        model::attr_facts(r@) == kind_attrs(kind@),
{
    let mut out: Vec<(String, AttrValue)> = Vec::new();
    assert(model::attr_facts(out@) =~= Seq::empty());
    put(&mut out, "mcp_kind", AttrValue::Str(kind.to_owned()));
    out
}

/// `prefix` followed by `name`.
fn prefixed(prefix: &str, name: &str) -> (r: String)
    ensures
        r@ == prefix@ + name@,
{
    let t = chars_of(prefix);
    let all = concat(&t, name);
    string_of(&all)
}

// --- sites -----------------------------------------------------------------

pub const BIND_SITE: &'static str = "site:bind-all-interfaces";

pub const CORS_SITE: &'static str = "site:cors-wildcard";

pub const TLS_SITE: &'static str = "site:tls-verify-disabled";

pub const SECRET_SITE: &'static str = "site:secret-egress";

pub const LOCK_SITE: &'static str = "site:no-lockfile";

/// A place that a finding about the whole server points at.
pub open spec fn site_entity(id: Seq<char>, path: Seq<char>, line: Option<u32>) -> EntityFacts {
    EntityFacts { id, attributes: kind_attrs("site"@), path, line }
}

/// The site of a signal, where it was seen.
pub open spec fn sites(id: Seq<char>, seen: Option<(Seq<char>, u32)>) -> Seq<EntityFacts> {
    match seen {
        Some(l) => seq![site_entity(id, l.0, Some(l.1))],
        None => Seq::empty(),
    }
}

fn add_site(out: &mut Vec<Entity>, id: &str, seen: &Option<(String, u32)>)
    ensures
        model::entity_facts(final(out)@) == model::entity_facts(old(out)@) + sites(id@, taint::place(*seen)),
{
    let ghost before = model::entity_facts(out@);
    match seen {
        Some(l) => {
            let e = Entity {
                id: id.to_owned(),
                attributes: start_attrs("site"),
                path: l.0.clone(),
                line: Some(l.1),
            };
            out.push(e);
            assert(model::entity_facts(out@) =~= before.push(e@));
        },
        None => {},
    }
    assert(model::entity_facts(out@) =~= before + sites(id@, taint::place(*seen)));
}

// --- the server ------------------------------------------------------------

/// The languages of the first `n` files, each once.
pub open spec fn languages_first(files: Seq<FileText>, n: int) -> Seq<Seq<char>>
    decreases n,
{
    if n <= 0 || n > files.len() {
        Seq::empty()
    } else {
        let before = languages_first(files, n - 1);
        match files::language(files[n - 1].path) {
            Some(l) => if before.contains(l) {
                before
            } else {
                before.push(l)
            },
            None => before,
        }
    }
}

/// The languages of a repository, in order.
pub open spec fn languages(files: Seq<FileText>) -> Seq<Seq<char>> {
    let all = languages_first(files, files.len() as int);
    order::picked(all, order::stable_order(all))
}

fn languages_of(files: &Vec<&RepoFile>) -> (r: Vec<String>)
    ensures
        text::strings(r@) == languages(files::texts_at(files@)),
{
    let ghost all = files::texts_at(files@);
    let mut found: Vec<Vec<char>> = Vec::new();
    assert(order::char_lists(found@) =~= languages_first(all, 0));
    for k in 0..files.len()
        invariant
            all == files::texts_at(files@),
            order::char_lists(found@) == languages_first(all, k as int),
    {
        let ghost before = order::char_lists(found@);
        assert(all[k as int] == files@[k as int]@);
        match lang_of(files[k].path.as_str()) {
            Some(l) => {
                let mut known: bool = false;
                for i in 0..found.len()
                    invariant
                        before == order::char_lists(found@),
                        known == exists|j: int| 0 <= j < i && #[trigger] before[j] == l@,
                {
                    assert(before[i as int] == found@[i as int]@);
                    if is_text(&found[i], l) {
                        known = true;
                    }
                }
                assert(known == before.contains(l@));
                if !known {
                    found.push(chars_of(l));
                    assert(order::char_lists(found@) =~= before.push(l@));
                }
            },
            None => {},
        }
    }
    let order = sort_order(&found);
    let ghost ls = order::char_lists(found@);
    let mut out: Vec<String> = Vec::new();
    for i in 0..order.len()
        invariant
            ls == order::char_lists(found@),
            order::is_stable_order(ls, taint::ints(order@), found@.len() as int),
            out@.len() == i,
            forall|j: int| 0 <= j < i ==> (#[trigger] out@[j])@ == ls[taint::ints(order@)[j]],
    {
        assert(taint::ints(order@)[i as int] == order@[i as int]);
        out.push(string_of(&found[order[i]]));
    }
    assert(text::strings(out@) =~= languages(all));
    out
}

/// The repository holds a lockfile.
pub open spec fn has_lockfile(files: Seq<FileText>) -> bool {
    exists|k: int| 0 <= k < files.len() && files::lockfile((#[trigger] files[k]).path)
}

fn any_lockfile(files: &Vec<&RepoFile>) -> (r: bool)
    ensures
        r == has_lockfile(files::texts_at(files@)),
{
    let ghost all = files::texts_at(files@);
    for k in 0..files.len()
        invariant
            all == files::texts_at(files@),
            forall|j: int| 0 <= j < k ==> !files::lockfile((#[trigger] all[j]).path),
    {
        assert(all[k as int] == files@[k as int]@);
        if is_lockfile(files[k].path.as_str()) {
            return true;
        }
    }
    false
}

/// The file that stands for the server: the first `server.json`, else the first `package.json`.
pub open spec fn server_path(files: Seq<FileText>) -> Seq<char> {
    match manifest::first_file(files, "server.json"@, 0) {
        Some(f) => f.path,
        None => match manifest::first_file(files, "package.json"@, 0) {
            Some(f) => f.path,
            None => "."@,
        },
    }
}

fn path_of_server(files: &Vec<&RepoFile>) -> (r: String)
    ensures
        r@ == server_path(files::texts_at(files@)),
{
    match file_named(files, "server.json") {
        Some(f) => f.path.clone(),
        None => match file_named(files, "package.json") {
            Some(f) => f.path.clone(),
            None => ".".to_owned(),
        },
    }
}

/// The attributes of the server.
pub open spec fn server_attrs(files: Seq<FileText>, deps: Seq<DepFacts>, transport: Seq<char>) -> Seq<
    (Seq<char>, AttrFact),
> {
    let a = kind_attrs("server"@);
    let a = with_value(a, "transport"@, AttrFact::Enum(transport));
    let a = with_value(a, "has_lockfile"@, AttrFact::Bool(has_lockfile(files)));
    let a = with_value(a, "tool_count"@, AttrFact::Int((inventory::all_tools(files).len() as i64) as int));
    let a = with_value(a, "is_mcp"@, AttrFact::Bool(scan::is_mcp(files, deps)));
    let a = with_value(
        a,
        "binds_all_interfaces"@,
        AttrFact::Bool(scan::first_site(files, Signal::BindsAll, 0) is Some),
    );
    let a = with_value(a, "has_auth"@, AttrFact::Bool(scan::checks_callers(files)));
    let a = with_value(
        a,
        "cors_wildcard"@,
        AttrFact::Bool(scan::first_site(files, Signal::CorsWildcard, 0) is Some),
    );
    let a = if languages(files).len() > 0 {
        with_value(a, "languages"@, AttrFact::List(languages(files)))
    } else {
        a
    };
    let a = with_flag(a, "tls_verify_disabled"@, scan::first_site(files, Signal::TlsDisabled, 0) is Some);
    let a = match scan::read_only(files) {
        Some(ro) => with_value(a, "all_tools_read_only"@, AttrFact::Bool(ro)),
        None => a,
    };
    with_flag(a, "secret_source_to_egress"@, inventory::leak(files) is Some)
}

/// The entity of the server.
pub open spec fn server_facts(
    files: Seq<FileText>,
    deps: Seq<DepFacts>,
    transport: Seq<char>,
    name: Seq<char>,
) -> EntityFacts {
    EntityFacts {
        id: "mcp_server:"@ + name,
        attributes: server_attrs(files, deps, transport),
        path: server_path(files),
        line: None,
    }
}

// --- tools and dependencies ------------------------------------------------

/// The entity of a tool.
pub open spec fn tool_entity(t: ToolFacts) -> EntityFacts {
    let a = with_value(kind_attrs("tool"@), "name"@, AttrFact::Str(t.name));
    let a = with_flag(a, "ssrf_url_from_input"@, t.ssrf);
    let a = with_flag(a, "fs_path_from_input"@, t.fs);
    let a = with_flag(a, "shell_exec_from_input"@, t.shell);
    let a = with_flag(a, "sql_from_input"@, t.sql);
    let a = with_flag(a, "insecure_deser"@, t.deser);
    let a = with_flag(a, "unbounded_limit"@, t.unbounded_limit);
    let a = with_flag(a, "redos_regex"@, t.redos);
    let a = with_flag(a, "desc_hidden_unicode"@, t.desc_hidden_unicode);
    EntityFacts {
        id: "tool:"@ + t.name,
        attributes: a,
        path: t.file,
        line: if t.line > 0 {
            Some(t.line)
        } else {
            None
        },
    }
}

fn entity_of_tool(t: &ToolTaint) -> (r: Entity)
    ensures
        r@ == tool_entity(t@),
{
    let mut a = start_attrs("tool");
    put(&mut a, "name", AttrValue::Str(t.name.clone()));
    put_flag(&mut a, "ssrf_url_from_input", t.ssrf);
    put_flag(&mut a, "fs_path_from_input", t.fs);
    put_flag(&mut a, "shell_exec_from_input", t.shell);
    put_flag(&mut a, "sql_from_input", t.sql);
    put_flag(&mut a, "insecure_deser", t.deser);
    put_flag(&mut a, "unbounded_limit", t.unbounded_limit);
    put_flag(&mut a, "redos_regex", t.redos);
    put_flag(&mut a, "desc_hidden_unicode", t.desc_hidden_unicode);
    Entity {
        id: prefixed("tool:", t.name.as_str()),
        attributes: a,
        path: t.file.clone(),
        line: if t.line > 0 {
            Some(t.line)
        } else {
            None
        },
    }
}

pub open spec fn tool_entities(tools: Seq<ToolFacts>) -> Seq<EntityFacts> {
    Seq::new(tools.len(), |i: int| tool_entity(tools[i]))
}

/// The entity of a dependency.
pub open spec fn dep_entity(d: DepFacts) -> EntityFacts {
    let a = with_value(kind_attrs("dependency"@), "name"@, AttrFact::Str(d.name));
    let a = with_value(a, "pinned"@, AttrFact::Bool(d.pinned));
    let a = with_value(a, "range"@, AttrFact::Str(d.spec));
    EntityFacts { id: "dep:"@ + d.name, attributes: a, path: d.source_path, line: None }
}

fn entity_of_dep(d: &Dep) -> (r: Entity)
    ensures
        r@ == dep_entity(d@),
{
    let mut a = start_attrs("dependency");
    put(&mut a, "name", AttrValue::Str(d.name.clone()));
    put(&mut a, "pinned", AttrValue::Bool(d.pinned));
    put(&mut a, "range", AttrValue::Str(d.spec.clone()));
    Entity {
        id: prefixed("dep:", d.name.as_str()),
        attributes: a,
        path: d.source_path.clone(),
        line: None,
    }
}

pub open spec fn dep_entities(deps: Seq<DepFacts>) -> Seq<EntityFacts> {
    Seq::new(deps.len(), |i: int| dep_entity(deps[i]))
}

// --- the missing lockfile --------------------------------------------------

/// The first line at `i` or later that speaks of dependencies.
pub open spec fn deps_line(ls: Seq<Seq<char>>, i: int) -> Option<u32>
    decreases ls.len() - i,
{
    if i < 0 || i >= ls.len() {
        None
    } else if text::contains(ls[i], "dependencies"@) {
        Some(text::line_number(i))
    } else {
        deps_line(ls, i + 1)
    }
}

/// The line that speaks of dependencies in the first file at `k` or later with this path.
pub open spec fn deps_line_at(files: Seq<FileText>, path: Seq<char>, k: int) -> Option<u32>
    decreases files.len() - k,
{
    if k < 0 || k >= files.len() {
        None
    } else if files[k].path == path {
        deps_line(text::lines(files[k].content), 0)
    } else {
        deps_line_at(files, path, k + 1)
    }
}

/// Where a lockfile is missing: in the manifest of the first dependency.
pub open spec fn lock_sites(files: Seq<FileText>, deps: Seq<DepFacts>) -> Seq<EntityFacts> {
    if !has_lockfile(files) && deps.len() > 0 {
        seq![site_entity(LOCK_SITE@, deps[0].source_path, deps_line_at(files, deps[0].source_path, 0))]
    } else {
        Seq::empty()
    }
}

fn line_of_deps(content: &str) -> (r: Option<u32>)
    ensures
        r == deps_line(text::lines(content@), 0),
{
    let t = chars_of(content);
    let ls = lines_of(&t);
    let ghost all = text::views(ls@);
    let n: usize = ls.len();
    let mut i: usize = 0;
    while i < n
        invariant
            all == text::views(ls@),
            all == text::lines(content@),
            n == ls@.len(),
            i <= n,
            deps_line(all, 0) == deps_line(all, i as int),
        decreases n - i,
    {
        assert(all[i as int] == ls@[i as int]@);
        if contains_str(ls[i], "dependencies") {
            return Some(number_of_line(i));
        }
        i = i + 1;
    }
    None
}

fn line_of_deps_at(files: &Vec<&RepoFile>, path: &str) -> (r: Option<u32>)
    ensures
        r == deps_line_at(files::texts_at(files@), path@, 0),
{
    let ghost all = files::texts_at(files@);
    let n: usize = files.len();
    let mut k: usize = 0;
    while k < n
        invariant
            all == files::texts_at(files@),
            n == files@.len(),
            k <= n,
            deps_line_at(all, path@, 0) == deps_line_at(all, path@, k as int),
        decreases n - k,
    {
        assert(all[k as int] == files@[k as int]@);
        if same_str(files[k].path.as_str(), path) {
            return line_of_deps(files[k].content.as_str());
        }
        k = k + 1;
    }
    None
}

fn add_lock_site(out: &mut Vec<Entity>, files: &Vec<&RepoFile>, deps: &Vec<Dep>, locked: bool)
    requires
        locked == has_lockfile(files::texts_at(files@)),
    ensures
        model::entity_facts(final(out)@) == model::entity_facts(old(out)@) + lock_sites(files::texts_at(files@), deps::dep_facts(deps@)),
{
    let ghost before = model::entity_facts(out@);
    if !locked && deps.len() > 0 {
        assert(deps::dep_facts(deps@)[0] == deps@[0]@);
        let e = Entity {
            id: LOCK_SITE.to_owned(),
            attributes: start_attrs("site"),
            path: deps[0].source_path.clone(),
            line: line_of_deps_at(files, deps[0].source_path.as_str()),
        };
        out.push(e);
        assert(model::entity_facts(out@) =~= before.push(e@));
    }
    assert(model::entity_facts(out@) =~= before + lock_sites(files::texts_at(files@), deps::dep_facts(deps@)));
}

// --- the digest input ------------------------------------------------------

/// A file as one text: the path, a null character, the content.
pub open spec fn file_part(f: FileText) -> Seq<char> {
    f.path + "\u{0}"@ + f.content
}

pub open spec fn file_parts(files: Seq<FileText>) -> Seq<Seq<char>> {
    Seq::new(files.len(), |i: int| file_part(files[i]))
}

/// The first `n` parts, with `sep` between them.
pub open spec fn join_first(parts: Seq<Seq<char>>, sep: Seq<char>, n: int) -> Seq<char>
    decreases n,
{
    if n <= 0 || n > parts.len() {
        Seq::empty()
    } else if n == 1 {
        parts[0]
    } else {
        join_first(parts, sep, n - 1) + sep + parts[n - 1]
    }
}

/// The parts, with `sep` between them.
pub open spec fn join(parts: Seq<Seq<char>>, sep: Seq<char>) -> Seq<char> {
    join_first(parts, sep, parts.len() as int)
}

/// What a digest of the files is taken of: the files as texts, in the order of these texts.
pub open spec fn digest_input(files: Seq<FileText>) -> Seq<char> {
    join(order::sorted(file_parts(files)), "\u{1}"@)
}

fn digest_text(files: &Vec<&RepoFile>) -> (r: String)
    ensures
        r@ == digest_input(files::texts_at(files@)),
{
    let ghost all = files::texts_at(files@);
    let mut parts: Vec<Vec<char>> = Vec::new();
    for k in 0..files.len()
        invariant
            all == files::texts_at(files@),
            parts@.len() == k,
            forall|j: int| 0 <= j < k ==> (#[trigger] parts@[j])@ == file_part(all[j]),
    {
        let mut part = chars_of(files[k].path.as_str());
        append_str(&mut part, "\u{0}");
        append_str(&mut part, files[k].content.as_str());
        assert(all[k as int] == files@[k as int]@);
        parts.push(part);
    }
    let ghost ps = order::char_lists(parts@);
    assert(ps =~= file_parts(all));
    let order = sort_order(&parts);
    let ghost ss = order::sorted(ps);
    let mut text: Vec<char> = Vec::new();
    assert(text@ =~= join_first(ss, "\u{1}"@, 0));
    for i in 0..order.len()
        invariant
            ps == order::char_lists(parts@),
            ss == order::sorted(ps),
            taint::ints(order@) == order::stable_order(ps),
            order::is_stable_order(ps, taint::ints(order@), parts@.len() as int),
            text@ == join_first(ss, "\u{1}"@, i as int),
    {
        assert(taint::ints(order@)[i as int] == order@[i as int]);
        assert(ss[i as int] == parts@[order@[i as int] as int]@);
        let ghost before = text@;
        if i > 0 {
            append_str(&mut text, "\u{1}");
        }
        append(&mut text, &parts[order[i]]);
        assert(text@ =~= join_first(ss, "\u{1}"@, i + 1));
    }
    string_of(&text)
}

// --- the model -------------------------------------------------------------

/// The model of a server, from its files and what its manifests declare.
pub open spec fn model_of(
    files: Seq<FileText>,
    deps: Seq<DepFacts>,
    transport: Seq<char>,
    name: Seq<char>,
) -> ModelFacts {
    ModelFacts {
        schema_version: SCHEMA_VERSION@,
        source_kind: "mcp_server"@,
        digest_input: digest_input(files),
        parser_version: PARSER_VERSION@,
        entities: seq![server_facts(files, deps, transport, name)]
            + sites(BIND_SITE@, scan::first_site(files, Signal::BindsAll, 0))
            + sites(CORS_SITE@, scan::first_site(files, Signal::CorsWildcard, 0))
            + sites(TLS_SITE@, scan::first_site(files, Signal::TlsDisabled, 0))
            + sites(SECRET_SITE@, inventory::leak(files))
            + tool_entities(inventory::all_tools(files))
            + dep_entities(deps)
            + lock_sites(files, deps),
    }
}

/// The model of a server, from its files and what its manifests declare.
#[verifier::rlimit(60)]
pub fn assemble(files: &Vec<&RepoFile>, deps: &Vec<Dep>, transport: &str, name: &str) -> (r: FactModel)
    requires
        inventory::all_readable(files::texts_at(files@)),
    ensures
        r@ == model_of(files::texts_at(files@), deps::dep_facts(deps@), transport@, name@),
{
    let ghost all = files::texts_at(files@);
    let ghost ds = deps::dep_facts(deps@);
    let (tools, secret) = collect_tools(files);
    let tls = tls_disabled_loc(files);
    let exposure = http_exposure(files);
    let langs = languages_of(files);
    let locked: bool = any_lockfile(files);
    assert(inventory::all_tools(all).len() == tools@.len());
    assert(languages(all).len() == langs@.len());

    let mut a = start_attrs("server");
    put(&mut a, "transport", AttrValue::Enum(transport.to_owned()));
    put(&mut a, "has_lockfile", AttrValue::Bool(locked));
    put(&mut a, "tool_count", AttrValue::Int(tools.len() as i64));
    put(&mut a, "is_mcp", AttrValue::Bool(detect_mcp(files, deps)));
    put(&mut a, "binds_all_interfaces", AttrValue::Bool(exposure.bind.is_some()));
    put(&mut a, "has_auth", AttrValue::Bool(exposure.has_auth));
    put(&mut a, "cors_wildcard", AttrValue::Bool(exposure.cors.is_some()));
    if langs.len() > 0 {
        put(&mut a, "languages", AttrValue::List(langs));
    }
    put_flag(&mut a, "tls_verify_disabled", tls.is_some());
    match all_read_only(files) {
        Some(ro) => {
            put(&mut a, "all_tools_read_only", AttrValue::Bool(ro));
        },
        None => {},
    }
    put_flag(&mut a, "secret_source_to_egress", secret.is_some());
    let server = Entity {
        id: prefixed("mcp_server:", name),
        attributes: a,
        path: path_of_server(files),
        line: None,
    };
    assert(server@ == server_facts(all, ds, transport@, name@));

    let mut out: Vec<Entity> = Vec::new();
    out.push(server);
    assert(model::entity_facts(out@) =~= seq![server@]);
    add_site(&mut out, BIND_SITE, &exposure.bind);
    add_site(&mut out, CORS_SITE, &exposure.cors);
    add_site(&mut out, TLS_SITE, &tls);
    add_site(&mut out, SECRET_SITE, &secret);
    let ghost head = model::entity_facts(out@);
    for i in 0..tools.len()
        invariant
            inventory::all_tools(all) == taint::tool_facts(tools@),
            model::entity_facts(out@) == head + tool_entities(inventory::all_tools(all)).take(i as int),
    {
        let ghost before = model::entity_facts(out@);
        assert(inventory::all_tools(all)[i as int] == tools@[i as int]@);
        let e = entity_of_tool(&tools[i]);
        out.push(e);
        assert(model::entity_facts(out@) =~= before.push(e@));
        assert(model::entity_facts(out@) =~= head + tool_entities(inventory::all_tools(all)).take(i + 1));
    }
    let ghost middle = model::entity_facts(out@);
    assert(middle =~= head + tool_entities(inventory::all_tools(all)));
    for i in 0..deps.len()
        invariant
            ds == deps::dep_facts(deps@),
            model::entity_facts(out@) == middle + dep_entities(ds).take(i as int),
    {
        let ghost before = model::entity_facts(out@);
        assert(ds[i as int] == deps@[i as int]@);
        let e = entity_of_dep(&deps[i]);
        out.push(e);
        assert(model::entity_facts(out@) =~= before.push(e@));
        assert(model::entity_facts(out@) =~= middle + dep_entities(ds).take(i + 1));
    }
    assert(model::entity_facts(out@) =~= middle + dep_entities(ds));
    add_lock_site(&mut out, files, deps, locked);
    FactModel {
        schema_version: SCHEMA_VERSION.to_owned(),
        source: SourceDescriptor {
            kind: "mcp_server".to_owned(),
            digest_input: digest_text(files),
            parser_version: PARSER_VERSION.to_owned(),
        },
        entities: out,
    }
}

/// The model of the server whose shipped files are given.
pub open spec fn shipped_model(files: Seq<FileText>) -> ModelFacts {
    let name = match manifest::repo_name(files) {
        Some(n) => n,
        None => "server"@,
    };
    model_of(files, manifest::all_deps(files), manifest::repo_transport(files), name)
}

/// The model of a repository.
pub open spec fn repo_model(files: Seq<FileText>) -> ModelFacts {
    shipped_model(files::shipped(files))
}

/// The model of a repository.
pub fn parse_repo(files: &[RepoFile]) -> (r: FactModel)
    requires
        inventory::all_readable(files::shipped(files::file_texts(files@))),
    ensures
        r@ == repo_model(files::file_texts(files@)),
{
    let kept = shipped_files(files);
    let deps = collect_deps(&kept);
    let name: String = match server_name(&kept) {
        Some(n) => n,
        None => "server".to_owned(),
    };
    assemble(&kept, &deps, transport(&kept), name.as_str())
}

/// The shipped files can be analyzed.
pub fn can_parse(files: &[RepoFile]) -> (r: bool)
    ensures
        r == inventory::all_readable(files::shipped(files::file_texts(files@))),
{
    let kept = shipped_files(files);
    scripts_are_readable(&kept)
}

// --- reading a model -------------------------------------------------------

/// The tool surface of the model's server was analyzed: it is no MCP server, or has a tool.
pub open spec fn covers_tools(m: ModelFacts) -> bool {
    !(model::server_of(m) matches Some(s) && model::is_set(s, "is_mcp"@) && model::count_of(m.entities, "tool"@, m.entities.len() as int)
        == 0)
}

pub fn analyzable(m: &FactModel) -> (r: bool)
    ensures
        r == covers_tools(m@),
{
    let mcp: bool = match first_of_kind(m, "server") {
        Some(s) => s.flag("is_mcp"),
        None => false,
    };
    !(mcp && kind_count(m, "tool") == 0)
}

pub const DIGITS: [char; 10] = ['0', '1', '2', '3', '4', '5', '6', '7', '8', '9'];

/// A number in decimal.
pub open spec fn decimal(n: nat) -> Seq<char>
    decreases n,
{
    if n < 10 {
        seq![DIGITS@[n as int]]
    } else {
        decimal(n / 10).push(DIGITS@[(n % 10) as int])
    }
}

/// A number in decimal.
pub fn decimal_text(n: usize) -> (r: Vec<char>)
    ensures
        r@ == decimal(n as nat),
    decreases n,
{
    if n < 10 {
        let mut out: Vec<char> = Vec::new();
        out.push(DIGITS[n]);
        assert(out@ =~= decimal(n as nat));
        out
    } else {
        let mut out = decimal_text(n / 10);
        out.push(DIGITS[n % 10]);
        out
    }
}

/// The languages that a model lists for its server, with commas between them.
pub open spec fn listed_languages(m: ModelFacts) -> Seq<char> {
    match model::server_of(m) {
        Some(s) => match model::value(s, "languages"@) {
            Some(AttrFact::List(v)) => join(v, ","@),
            _ => Seq::empty(),
        },
        None => Seq::empty(),
    }
}

/// The transport of a model's server.
pub open spec fn model_transport(m: ModelFacts) -> Seq<char> {
    match model::server_of(m) {
        Some(s) => match model::text_value(s, "transport"@) {
            Some(t) => t,
            None => "unknown"@,
        },
        None => "unknown"@,
    }
}

/// One line about a model: transport, number of tools and dependencies, languages.
pub open spec fn summary(m: ModelFacts) -> Seq<char> {
    "transport="@ + model_transport(m) + " · tools="@ + decimal(
        model::count_of(m.entities, "tool"@, m.entities.len() as int),
    ) + " · deps="@ + decimal(model::count_of(m.entities, "dependency"@, m.entities.len() as int)) + " · langs=["@
        + listed_languages(m) + "]"@
}

/// The parts, with `sep` between them.
pub fn join_text(parts: &Vec<String>, sep: &str) -> (r: Vec<char>)
    ensures
        r@ == join(text::strings(parts@), sep@),
{
    let ghost all = text::strings(parts@);
    let mut out: Vec<char> = Vec::new();
    assert(out@ =~= join_first(all, sep@, 0));
    for i in 0..parts.len()
        invariant
            all == text::strings(parts@),
            out@ == join_first(all, sep@, i as int),
    {
        let ghost before = out@;
        assert(all[i as int] == parts@[i as int]@);
        if i > 0 {
            append_str(&mut out, sep);
        }
        append_str(&mut out, parts[i].as_str());
        assert(out@ =~= join_first(all, sep@, i + 1));
    }
    out
}

pub fn model_summary(m: &FactModel) -> (r: String)
    ensures
        r@ == summary(m@),
{
    let server = first_of_kind(m, "server");
    let transport: &str = match server {
        Some(s) => match s.text("transport") {
            Some(t) => t,
            None => "unknown",
        },
        None => "unknown",
    };
    let none: Vec<char> = Vec::new();
    assert(none@ =~= Seq::empty());
    let langs: Vec<char> = match server {
        Some(s) => match s.attr("languages") {
            Some(AttrValue::List(v)) => join_text(v, ","),
            _ => none,
        },
        None => none,
    };
    let tools = decimal_text(kind_count(m, "tool"));
    let deps = decimal_text(kind_count(m, "dependency"));
    let mut out = chars_of("transport=");
    append_str(&mut out, transport);
    append_str(&mut out, " · tools=");
    append(&mut out, &tools);
    append_str(&mut out, " · deps=");
    append(&mut out, &deps);
    append_str(&mut out, " · langs=[");
    append(&mut out, &langs);
    append_str(&mut out, "]");
    string_of(&out)
}

// --- reading attributes back -----------------------------------------------

/// The value under `q` after one more value was added.
pub proof fn lemma_value_push(attrs: Seq<(Seq<char>, AttrFact)>, key: Seq<char>, v: AttrFact, q: Seq<char>, i: int)
    requires
        0 <= i <= attrs.len(),
    ensures
        model::value_from(with_value(attrs, key, v), q, i) == (if model::value_from(attrs, q, i) is Some {
            model::value_from(attrs, q, i)
        } else if key == q {
            Some(v)
        } else {
            None
        }),
    decreases attrs.len() - i,
{
    let all = with_value(attrs, key, v);
    if i < attrs.len() {
        assert(all[i] == attrs[i]);
        lemma_value_push(attrs, key, v, q, i + 1);
    } else {
        assert(all[i] == (key, v));
        reveal_with_fuel(model::value_from, 2);
    }
}

/// The value under `q` after a flag was added.
pub proof fn lemma_value_flag(attrs: Seq<(Seq<char>, AttrFact)>, key: Seq<char>, on: bool, q: Seq<char>)
    ensures
        model::value_from(with_flag(attrs, key, on), q, 0) == (if model::value_from(attrs, q, 0) is Some {
            model::value_from(attrs, q, 0)
        } else if on && key == q {
            Some(AttrFact::Bool(true))
        } else {
            None
        }),
{
    lemma_value_push(attrs, key, AttrFact::Bool(true), q, 0);
}

/// The value of the server under each key.
pub proof fn lemma_server_attr(files: Seq<FileText>, deps: Seq<DepFacts>, transport: Seq<char>, q: Seq<char>)
    ensures
        model::value_from(server_attrs(files, deps, transport), q, 0) == (if q == "mcp_kind"@ {
            Some(AttrFact::Str("server"@))
        } else if q == "transport"@ {
            Some(AttrFact::Enum(transport))
        } else if q == "has_lockfile"@ {
            Some(AttrFact::Bool(has_lockfile(files)))
        } else if q == "tool_count"@ {
            Some(AttrFact::Int((inventory::all_tools(files).len() as i64) as int))
        } else if q == "is_mcp"@ {
            Some(AttrFact::Bool(scan::is_mcp(files, deps)))
        } else if q == "binds_all_interfaces"@ {
            Some(AttrFact::Bool(scan::first_site(files, Signal::BindsAll, 0) is Some))
        } else if q == "has_auth"@ {
            Some(AttrFact::Bool(scan::checks_callers(files)))
        } else if q == "cors_wildcard"@ {
            Some(AttrFact::Bool(scan::first_site(files, Signal::CorsWildcard, 0) is Some))
        } else if q == "languages"@ && languages(files).len() > 0 {
            Some(AttrFact::List(languages(files)))
        } else if q == "tls_verify_disabled"@ && scan::first_site(files, Signal::TlsDisabled, 0) is Some {
            Some(AttrFact::Bool(true))
        } else if q == "all_tools_read_only"@ && scan::read_only(files) is Some {
            Some(AttrFact::Bool(scan::read_only(files)->0))
        } else if q == "secret_source_to_egress"@ && inventory::leak(files) is Some {
            Some(AttrFact::Bool(true))
        } else {
            None
        }),
{
    let none = Seq::<(Seq<char>, AttrFact)>::empty();
    assert(model::value_from(none, q, 0) is None);
    lemma_value_push(none, "mcp_kind"@, AttrFact::Str("server"@), q, 0);
    let a = kind_attrs("server"@);
    lemma_value_push(a, "transport"@, AttrFact::Enum(transport), q, 0);
    let a = with_value(a, "transport"@, AttrFact::Enum(transport));
    let v = AttrFact::Bool(has_lockfile(files));
    lemma_value_push(a, "has_lockfile"@, v, q, 0);
    let a = with_value(a, "has_lockfile"@, v);
    let v = AttrFact::Int((inventory::all_tools(files).len() as i64) as int);
    lemma_value_push(a, "tool_count"@, v, q, 0);
    let a = with_value(a, "tool_count"@, v);
    let v = AttrFact::Bool(scan::is_mcp(files, deps));
    lemma_value_push(a, "is_mcp"@, v, q, 0);
    let a = with_value(a, "is_mcp"@, v);
    let v = AttrFact::Bool(scan::first_site(files, Signal::BindsAll, 0) is Some);
    lemma_value_push(a, "binds_all_interfaces"@, v, q, 0);
    let a = with_value(a, "binds_all_interfaces"@, v);
    let v = AttrFact::Bool(scan::checks_callers(files));
    lemma_value_push(a, "has_auth"@, v, q, 0);
    let a = with_value(a, "has_auth"@, v);
    let v = AttrFact::Bool(scan::first_site(files, Signal::CorsWildcard, 0) is Some);
    lemma_value_push(a, "cors_wildcard"@, v, q, 0);
    let a = with_value(a, "cors_wildcard"@, v);
    let v = AttrFact::List(languages(files));
    lemma_value_push(a, "languages"@, v, q, 0);
    let a = if languages(files).len() > 0 {
        with_value(a, "languages"@, v)
    } else {
        a
    };
    let tls = scan::first_site(files, Signal::TlsDisabled, 0) is Some;
    lemma_value_flag(a, "tls_verify_disabled"@, tls, q);
    let a = with_flag(a, "tls_verify_disabled"@, tls);
    let v = AttrFact::Bool(scan::read_only(files) == Some(true));
    lemma_value_push(a, "all_tools_read_only"@, v, q, 0);
    let a = match scan::read_only(files) {
        Some(ro) => with_value(a, "all_tools_read_only"@, AttrFact::Bool(ro)),
        None => a,
    };
    lemma_value_flag(a, "secret_source_to_egress"@, inventory::leak(files) is Some, q);
    assert(server_attrs(files, deps, transport) == with_flag(a, "secret_source_to_egress"@, inventory::leak(files) is Some));
}

// --- laws ------------------------------------------------------------------

proof fn lemma_same_members(a: Seq<FileText>, b: Seq<FileText>, k: int)
    requires
        a.to_multiset() == b.to_multiset(),
        0 <= k < a.len(),
    ensures
        exists|j: int| 0 <= j < b.len() && #[trigger] b[j] == a[k],
{
    broadcast use vstd::seq_lib::group_to_multiset_ensures;

    assert(a.contains(a[k]));
    assert(a.to_multiset().count(a[k]) > 0);
    assert(b.to_multiset().count(a[k]) > 0);
    assert(b.contains(a[k]));
}

proof fn lemma_with_deps_names(known: Seq<DepFacts>, found: Seq<DepFacts>, n: int, name: Seq<char>)
    requires
        0 <= n <= found.len(),
    ensures
        manifest::has_dep(manifest::with_deps(known, found, n), name) <==> manifest::has_dep(known, name) || exists|i: int|
            0 <= i < n && (#[trigger] found[i]).name == name,
    decreases n,
{
    if n > 0 {
        lemma_with_deps_names(known, found, n - 1, name);
        let before = manifest::with_deps(known, found, n - 1);
        let now = manifest::with_deps(known, found, n);
        if manifest::has_dep(before, name) {
            let j = choose|j: int| 0 <= j < before.len() && (#[trigger] before[j]).name == name;
            assert(now[j] == before[j]);
        }
        if found[n - 1].name == name && !manifest::has_dep(before, name) {
            assert(now[before.len() as int].name == name);
        }
        if manifest::has_dep(now, name) && !manifest::has_dep(before, name) {
            let j = choose|j: int| 0 <= j < now.len() && (#[trigger] now[j]).name == name;
            if j < before.len() {
                assert(now[j] == before[j]);
            }
        }
    }
}

proof fn lemma_dep_names(files: Seq<FileText>, n: int, name: Seq<char>)
    requires
        0 <= n <= files.len(),
    ensures
        manifest::has_dep(manifest::deps_of(files, n), name) <==> exists|k: int|
            0 <= k < n && manifest::has_dep(manifest::declared(#[trigger] files[k]), name),
    decreases n,
{
    if n > 0 {
        lemma_dep_names(files, n - 1, name);
        let found = manifest::declared(files[n - 1]);
        lemma_with_deps_names(manifest::deps_of(files, n - 1), found, found.len() as int, name);
        if manifest::has_dep(manifest::deps_of(files, n - 1), name) {
            let k = choose|k: int| 0 <= k < n - 1 && manifest::has_dep(manifest::declared(#[trigger] files[k]), name);
            assert(0 <= k < n && manifest::has_dep(manifest::declared(files[k]), name));
        }
    } else {
        assert(!manifest::has_dep(manifest::deps_of(files, n), name));
    }
}

/// What the order of files leaves alone, in one direction.
proof fn lemma_order_leaves(a: Seq<FileText>, b: Seq<FileText>)
    requires
        a.to_multiset() == b.to_multiset(),
    ensures
        has_lockfile(a) ==> has_lockfile(b),
        scan::is_mcp(a, manifest::all_deps(a)) ==> scan::is_mcp(b, manifest::all_deps(b)),
{
    if has_lockfile(a) {
        let k = choose|k: int| 0 <= k < a.len() && files::lockfile((#[trigger] a[k]).path);
        lemma_same_members(a, b, k);
    }
    if scan::has_file(a, "server.json"@) {
        let k = choose|k: int| 0 <= k < a.len() && files::base((#[trigger] a[k]).path) == "server.json"@;
        lemma_same_members(a, b, k);
        assert(scan::has_file(b, "server.json"@));
    }
    if scan::some_source_has(a, SDK_IMPORTS@) {
        let k = choose|k: int|
            0 <= k < a.len() && files::source((#[trigger] a[k]).path) && text::has_marker(a[k].content, SDK_IMPORTS@);
        lemma_same_members(a, b, k);
        assert(scan::some_source_has(b, SDK_IMPORTS@));
    }
    let da = manifest::all_deps(a);
    let db = manifest::all_deps(b);
    if exists|i: int| 0 <= i < da.len() && scan::is_sdk((#[trigger] da[i]).name) {
        let i = choose|i: int| 0 <= i < da.len() && scan::is_sdk((#[trigger] da[i]).name);
        let name = da[i].name;
        assert(manifest::has_dep(da, name));
        lemma_dep_names(a, a.len() as int, name);
        let k = choose|k: int| 0 <= k < a.len() && manifest::has_dep(manifest::declared(#[trigger] a[k]), name);
        lemma_same_members(a, b, k);
        lemma_dep_names(b, b.len() as int, name);
        assert(manifest::has_dep(db, name));
        let j = choose|j: int| 0 <= j < db.len() && (#[trigger] db[j]).name == name;
        assert(scan::is_sdk(db[j].name));
    }
}

proof fn lemma_languages_first(files: Seq<FileText>, n: int)
    requires
        0 <= n <= files.len(),
    ensures
        languages_first(files, n).no_duplicates(),
        forall|l: Seq<char>|
            #[trigger] languages_first(files, n).contains(l) <==> exists|k: int|
                0 <= k < n && files::language((#[trigger] files[k]).path) == Some(l),
    decreases n,
{
    if n > 0 {
        lemma_languages_first(files, n - 1);
        let before = languages_first(files, n - 1);
        let now = languages_first(files, n);
        assert forall|l: Seq<char>| #[trigger] now.contains(l) <==> exists|k: int|
            0 <= k < n && files::language((#[trigger] files[k]).path) == Some(l) by {
            if now.contains(l) {
                let j = choose|j: int| 0 <= j < now.len() && now[j] == l;
                if j < before.len() {
                    assert(before[j] == l);
                    assert(before.contains(l));
                    let k = choose|k: int| 0 <= k < n - 1 && files::language((#[trigger] files[k]).path) == Some(l);
                    assert(0 <= k < n && files::language(files[k].path) == Some(l));
                } else {
                    assert(files::language(files[n - 1].path) == Some(l));
                }
            }
            if exists|k: int| 0 <= k < n && files::language((#[trigger] files[k]).path) == Some(l) {
                let k = choose|k: int| 0 <= k < n && files::language((#[trigger] files[k]).path) == Some(l);
                if k < n - 1 {
                    assert(before.contains(l));
                    let j = choose|j: int| 0 <= j < before.len() && before[j] == l;
                    assert(now[j] == l);
                } else if before.contains(l) {
                    let j = choose|j: int| 0 <= j < before.len() && before[j] == l;
                    assert(now[j] == l);
                } else {
                    assert(now[before.len() as int] == l);
                }
            }
        }
    }
}

proof fn lemma_languages_ignore_order(a: Seq<FileText>, b: Seq<FileText>)
    requires
        a.to_multiset() == b.to_multiset(),
    ensures
        languages(a) == languages(b),
{
    broadcast use vstd::seq_lib::group_to_multiset_ensures;

    let x = languages_first(a, a.len() as int);
    let y = languages_first(b, b.len() as int);
    lemma_languages_first(a, a.len() as int);
    lemma_languages_first(b, b.len() as int);
    assert forall|l: Seq<char>| x.contains(l) <==> y.contains(l) by {
        if x.contains(l) {
            let k = choose|k: int| 0 <= k < a.len() && files::language((#[trigger] a[k]).path) == Some(l);
            lemma_same_members(a, b, k);
        }
        if y.contains(l) {
            let k = choose|k: int| 0 <= k < b.len() && files::language((#[trigger] b[k]).path) == Some(l);
            lemma_same_members(b, a, k);
        }
    }
    x.lemma_multiset_has_no_duplicates();
    y.lemma_multiset_has_no_duplicates();
    assert forall|l: Seq<char>| x.to_multiset().count(l) == y.to_multiset().count(l) by {
        assert(x.contains(l) <==> x.to_multiset().count(l) > 0);
        assert(y.contains(l) <==> y.to_multiset().count(l) > 0);
        assert(x.to_multiset().contains(l) ==> x.to_multiset().count(l) == 1);
        assert(y.to_multiset().contains(l) ==> y.to_multiset().count(l) == 1);
    }
    assert(x.to_multiset() =~= y.to_multiset());
    order::law_sorting_ignores_order(x, y);
}

/// The languages of a repository are listed in order, each once.
pub proof fn law_languages_are_in_order(files: Seq<FileText>)
    ensures
        forall|i: int, j: int|
            0 <= i < j < languages(files).len() ==> order::less(#[trigger] languages(files)[i], #[trigger] languages(files)[j]),
{
    let all = languages_first(files, files.len() as int);
    let o = order::stable_order(all);
    lemma_languages_first(files, files.len() as int);
    order::law_sorting_is_stable(all);
    assert forall|i: int, j: int| 0 <= i < j < languages(files).len() implies order::less(
        #[trigger] languages(files)[i],
        #[trigger] languages(files)[j],
    ) by {
        assert(order::precedes(all, o[i], o[j]));
        assert(o[i] != o[j] ==> all[o[i]] != all[o[j]]);
    }
}

/// The order of the files does not matter to what the server's entity says of lockfiles, of being an
/// MCP server and of languages.
pub proof fn law_server_facts_ignore_file_order(a: Seq<FileText>, b: Seq<FileText>)
    requires
        a.to_multiset() == b.to_multiset(),
    ensures
        has_lockfile(files::shipped(a)) == has_lockfile(files::shipped(b)),
        scan::is_mcp(files::shipped(a), manifest::all_deps(files::shipped(a))) == scan::is_mcp(files::shipped(b), manifest::all_deps(files::shipped(b))),
        languages(files::shipped(a)) == languages(files::shipped(b)),
        model::server_of(repo_model(a)) matches Some(s) && model::server_of(repo_model(b)) matches Some(t) && model::value(
            s,
            "has_lockfile"@,
        ) == model::value(t, "has_lockfile"@) && model::value(s, "is_mcp"@) == model::value(t, "is_mcp"@) && model::value(s, "languages"@) == model::value(
            t,
            "languages"@,
        ),
{
    let x = files::shipped(a);
    let y = files::shipped(b);
    lemma_shipped_multiset(a, a.len() as int);
    lemma_shipped_multiset(b, b.len() as int);
    assert(a.take(a.len() as int) =~= a);
    assert(b.take(b.len() as int) =~= b);
    lemma_order_leaves(x, y);
    lemma_order_leaves(y, x);
    lemma_languages_ignore_order(x, y);
    lemma_server_of_repo(a);
    lemma_server_of_repo(b);
    lemma_read_back(x, manifest::all_deps(x), manifest::repo_transport(x));
    lemma_read_back(y, manifest::all_deps(y), manifest::repo_transport(y));
}

/// What reading three of the server's values gives.
proof fn lemma_read_back(files: Seq<FileText>, deps: Seq<DepFacts>, transport: Seq<char>)
    ensures
        model::value_from(server_attrs(files, deps, transport), "has_lockfile"@, 0) == Some(AttrFact::Bool(has_lockfile(files))),
        model::value_from(server_attrs(files, deps, transport), "is_mcp"@, 0) == Some(AttrFact::Bool(scan::is_mcp(files, deps))),
        model::value_from(server_attrs(files, deps, transport), "languages"@, 0) == (if languages(files).len() > 0 {
            Some(AttrFact::List(languages(files)))
        } else {
            None
        }),
{
    lemma_key_lengths();
    assert("transport"@ != "languages"@) by {
        reveal_strlit("transport");
        reveal_strlit("languages");
        assert("transport"@[0] != "languages"@[0]);
    }
    lemma_server_attr(files, deps, transport, "has_lockfile"@);
    lemma_server_attr(files, deps, transport, "is_mcp"@);
    lemma_server_attr(files, deps, transport, "languages"@);
}

proof fn lemma_key_lengths()
    ensures
        "mcp_kind"@.len() == 8,
        "transport"@.len() == 9,
        "has_lockfile"@.len() == 12,
        "tool_count"@.len() == 10,
        "is_mcp"@.len() == 6,
        "binds_all_interfaces"@.len() == 20,
        "has_auth"@.len() == 8,
        "cors_wildcard"@.len() == 13,
        "languages"@.len() == 9,
        "tls_verify_disabled"@.len() == 19,
        "all_tools_read_only"@.len() == 19,
        "secret_source_to_egress"@.len() == 23,
{
    reveal_strlit("mcp_kind");
    reveal_strlit("transport");
    reveal_strlit("has_lockfile");
    reveal_strlit("tool_count");
    reveal_strlit("is_mcp");
    reveal_strlit("binds_all_interfaces");
    reveal_strlit("has_auth");
    reveal_strlit("cors_wildcard");
    reveal_strlit("languages");
    reveal_strlit("tls_verify_disabled");
    reveal_strlit("all_tools_read_only");
    reveal_strlit("secret_source_to_egress");
}

/// The server of a repository's model is the one that its shipped files give.
proof fn lemma_server_of_repo(files: Seq<FileText>)
    ensures
        model::server_of(repo_model(files)) matches Some(s) && s.attributes == server_attrs(
            files::shipped(files),
            manifest::all_deps(files::shipped(files)),
            manifest::repo_transport(files::shipped(files)),
        ),
{
    let kept = files::shipped(files);
    let name = match manifest::repo_name(kept) {
        Some(n) => n,
        None => "server"@,
    };
    law_model_counts_what_was_found(kept, manifest::all_deps(kept), manifest::repo_transport(kept), name);
}

proof fn lemma_shipped_insert(files: Seq<FileText>, i: int, f: FileText, n: int)
    requires
        0 <= i <= files.len(),
        0 <= n <= files.len() + 1,
        files::non_shipped(f.path),
    ensures
        files::shipped_first(files.insert(i, f), n) == files::shipped_first(
            files,
            if n <= i {
                n
            } else {
                n - 1
            },
        ),
    decreases n,
{
    if n > 0 {
        lemma_shipped_insert(files, i, f, n - 1);
    }
}

/// A file that is not shipped does not change the model, wherever it stands among the files.
pub proof fn law_non_shipped_files_do_not_count(files: Seq<FileText>, i: int, f: FileText)
    requires
        0 <= i <= files.len(),
        files::non_shipped(f.path),
    ensures
        repo_model(files.insert(i, f)) == repo_model(files),
{
    lemma_shipped_insert(files, i, f, files.len() as int + 1);
    assert(files::shipped(files.insert(i, f)) == files::shipped(files));
}

proof fn lemma_shipped_multiset(files: Seq<FileText>, n: int)
    requires
        0 <= n <= files.len(),
    ensures
        files::shipped_first(files, n).to_multiset() == files.take(n).to_multiset().filter(
            |f: FileText| !files::non_shipped(f.path),
        ),
    decreases n,
{
    broadcast use vstd::seq_lib::group_to_multiset_ensures;

    let kept = |f: FileText| !files::non_shipped(f.path);
    if n > 0 {
        lemma_shipped_multiset(files, n - 1);
        let f = files[n - 1];
        assert(files.take(n) =~= files.take(n - 1).push(f));
        let before = files.take(n - 1).to_multiset();
        if kept(f) {
            assert(before.insert(f).filter(kept) =~= before.filter(kept).insert(f));
        } else {
            assert(before.insert(f).filter(kept) =~= before.filter(kept));
        }
    } else {
        assert(files::shipped_first(files, n) =~= files.take(n));
        assert(files.take(n).to_multiset().filter(kept) =~= files.take(n).to_multiset());
    }
}

proof fn lemma_parts_multiset(a: Seq<FileText>, b: Seq<FileText>)
    requires
        a.to_multiset() == b.to_multiset(),
    ensures
        file_parts(a).to_multiset() == file_parts(b).to_multiset(),
    decreases a.len(),
{
    broadcast use vstd::seq_lib::group_to_multiset_ensures;

    assert(a.to_multiset().len() == a.len() && b.to_multiset().len() == b.len());
    if a.len() > 0 {
        let f = a.last();
        assert(a.contains(f));
        assert(a.to_multiset().count(f) > 0);
        assert(b.contains(f));
        let i = choose|i: int| 0 <= i < b.len() && b[i] == f;
        let rest = b.remove(i);
        assert(a.drop_last() =~= a.remove(a.len() - 1));
        lemma_parts_multiset(a.drop_last(), rest);
        assert(file_parts(a) =~= file_parts(a.drop_last()).push(file_part(f)));
        assert(file_parts(b) =~= file_parts(rest).insert(i, file_part(f)));
    } else {
        assert(file_parts(a) =~= file_parts(b));
    }
}

/// What the digest of a repository is taken of does not depend on the order of the files.
pub proof fn law_digest_ignores_file_order(a: Seq<FileText>, b: Seq<FileText>)
    requires
        a.to_multiset() == b.to_multiset(),
    ensures
        repo_model(a).digest_input == repo_model(b).digest_input,
{
    lemma_shipped_multiset(a, a.len() as int);
    lemma_shipped_multiset(b, b.len() as int);
    assert(a.take(a.len() as int) =~= a);
    assert(b.take(b.len() as int) =~= b);
    lemma_parts_multiset(files::shipped(a), files::shipped(b));
    order::law_sorting_ignores_order(file_parts(files::shipped(a)), file_parts(files::shipped(b)));
}

proof fn lemma_count_concat(a: Seq<EntityFacts>, b: Seq<EntityFacts>, kind: Seq<char>, n: int)
    requires
        0 <= n <= b.len(),
    ensures
        model::count_of(a + b, kind, a.len() + n) == model::count_of(a, kind, a.len() as int) + model::count_of(b, kind, n),
    decreases n,
{
    if n > 0 {
        lemma_count_concat(a, b, kind, n - 1);
        assert((a + b)[a.len() + n - 1] == b[n - 1]);
    } else {
        lemma_count_prefix(a, b, kind, a.len() as int);
    }
}

proof fn lemma_count_prefix(a: Seq<EntityFacts>, b: Seq<EntityFacts>, kind: Seq<char>, n: int)
    requires
        0 <= n <= a.len(),
    ensures
        model::count_of(a + b, kind, n) == model::count_of(a, kind, n),
    decreases n,
{
    if n > 0 {
        lemma_count_prefix(a, b, kind, n - 1);
        assert((a + b)[n - 1] == a[n - 1]);
    }
}

/// All entities are of one kind.
pub open spec fn all_of_kind(es: Seq<EntityFacts>, kind: Seq<char>) -> bool {
    forall|i: int| 0 <= i < es.len() ==> model::text_value(#[trigger] es[i], "mcp_kind"@) == Some(kind)
}

proof fn lemma_count_same(es: Seq<EntityFacts>, own: Seq<char>, kind: Seq<char>, n: int)
    requires
        0 <= n <= es.len(),
        all_of_kind(es, own),
    ensures
        model::count_of(es, kind, n) == if own == kind {
            n
        } else {
            0
        },
    decreases n,
{
    if n > 0 {
        lemma_count_same(es, own, kind, n - 1);
        assert(model::text_value(es[n - 1], "mcp_kind"@) == Some(own));
    }
}

/// The first value of an entity that starts with its kind is that kind.
pub proof fn lemma_kind(e: EntityFacts, kind: Seq<char>)
    requires
        e.attributes.len() > 0,
        e.attributes[0] == ("mcp_kind"@, AttrFact::Str(kind)),
    ensures
        model::text_value(e, "mcp_kind"@) == Some(kind),
{
    reveal_with_fuel(model::value_from, 2);
}

/// The entities of a model are counted by what was found: one server, each tool and each
/// dependency once.
pub proof fn law_model_counts_what_was_found(
    files: Seq<FileText>,
    deps: Seq<DepFacts>,
    transport: Seq<char>,
    name: Seq<char>,
)
    ensures
        ({
            let m = model_of(files, deps, transport, name);
            let n = m.entities.len() as int;
            &&& model::server_of(m) == Some(server_facts(files, deps, transport, name))
            &&& model::count_of(m.entities, "server"@, n) == 1
            &&& model::count_of(m.entities, "tool"@, n) == inventory::all_tools(files).len()
            &&& model::count_of(m.entities, "dependency"@, n) == deps.len()
        }),
{
    let m = model_of(files, deps, transport, name);
    let server = seq![server_facts(files, deps, transport, name)];
    let bind = sites(BIND_SITE@, scan::first_site(files, Signal::BindsAll, 0));
    let cors = sites(CORS_SITE@, scan::first_site(files, Signal::CorsWildcard, 0));
    let tls = sites(TLS_SITE@, scan::first_site(files, Signal::TlsDisabled, 0));
    let secret = sites(SECRET_SITE@, inventory::leak(files));
    let tools = tool_entities(inventory::all_tools(files));
    let ds = dep_entities(deps);
    let lock = lock_sites(files, deps);
    reveal_strlit("server");
    reveal_strlit("site");
    reveal_strlit("tool");
    reveal_strlit("dependency");
    lemma_kind(server[0], "server"@);
    assert(all_of_kind(server, "server"@));
    lemma_kind(site_entity(LOCK_SITE@, deps[0].source_path, deps_line_at(files, deps[0].source_path, 0)), "site"@);
    assert forall|id: Seq<char>, seen: Option<(Seq<char>, u32)>| all_of_kind(#[trigger] sites(id, seen), "site"@) by {
        if seen is Some {
            lemma_kind(sites(id, seen)[0], "site"@);
        }
    }
    assert forall|i: int| 0 <= i < tools.len() implies model::text_value(#[trigger] tools[i], "mcp_kind"@) == Some(
        "tool"@,
    ) by {
        lemma_kind(tools[i], "tool"@);
    }
    assert forall|i: int| 0 <= i < ds.len() implies model::text_value(#[trigger] ds[i], "mcp_kind"@) == Some(
        "dependency"@,
    ) by {
        lemma_kind(ds[i], "dependency"@);
    }
    assert("server"@.len() != "site"@.len() && "server"@.len() != "tool"@.len() && "server"@.len()
        != "dependency"@.len());
    assert("site"@[0] != "tool"@[0]);
    assert("dependency"@.len() != "site"@.len());
    lemma_kinds_add_up(server, bind, cors, tls, secret, tools, ds, lock, "server"@);
    lemma_kinds_add_up(server, bind, cors, tls, secret, tools, ds, lock, "tool"@);
    lemma_kinds_add_up(server, bind, cors, tls, secret, tools, ds, lock, "dependency"@);
    assert(m.entities[0] == server[0]);
    assert(model::first_of(m.entities, "server"@, 0) == Some(server[0]));
}

proof fn lemma_kinds_add_up(
    server: Seq<EntityFacts>,
    bind: Seq<EntityFacts>,
    cors: Seq<EntityFacts>,
    tls: Seq<EntityFacts>,
    secret: Seq<EntityFacts>,
    tools: Seq<EntityFacts>,
    deps: Seq<EntityFacts>,
    lock: Seq<EntityFacts>,
    kind: Seq<char>,
)
    requires
        all_of_kind(server, "server"@),
        all_of_kind(bind, "site"@),
        all_of_kind(cors, "site"@),
        all_of_kind(tls, "site"@),
        all_of_kind(secret, "site"@),
        all_of_kind(tools, "tool"@),
        all_of_kind(deps, "dependency"@),
        all_of_kind(lock, "site"@),
        kind != "site"@,
    ensures
        ({
            let all = server + bind + cors + tls + secret + tools + deps + lock;
            model::count_of(all, kind, all.len() as int) == (if kind == "server"@ {
                server.len()
            } else {
                0
            }) + (if kind == "tool"@ {
                tools.len()
            } else {
                0
            }) + (if kind == "dependency"@ {
                deps.len()
            } else {
                0
            })
        }),
{
    lemma_count_same(server, "server"@, kind, server.len() as int);
    lemma_count_same(bind, "site"@, kind, bind.len() as int);
    lemma_count_same(cors, "site"@, kind, cors.len() as int);
    lemma_count_same(tls, "site"@, kind, tls.len() as int);
    lemma_count_same(secret, "site"@, kind, secret.len() as int);
    lemma_count_same(tools, "tool"@, kind, tools.len() as int);
    lemma_count_same(deps, "dependency"@, kind, deps.len() as int);
    lemma_count_same(lock, "site"@, kind, lock.len() as int);
    let s1 = server + bind;
    let s2 = s1 + cors;
    let s3 = s2 + tls;
    let s4 = s3 + secret;
    let s5 = s4 + tools;
    let s6 = s5 + deps;
    lemma_count_concat(server, bind, kind, bind.len() as int);
    lemma_count_concat(s1, cors, kind, cors.len() as int);
    lemma_count_concat(s2, tls, kind, tls.len() as int);
    lemma_count_concat(s3, secret, kind, secret.len() as int);
    lemma_count_concat(s4, tools, kind, tools.len() as int);
    lemma_count_concat(s5, deps, kind, deps.len() as int);
    lemma_count_concat(s6, lock, kind, lock.len() as int);
}

/// An MCP server in whose shipped files no tool was found is not analyzable; every other model of
/// a repository is.
pub proof fn law_server_without_tools_is_not_analyzable(files: Seq<FileText>)
    ensures
        covers_tools(repo_model(files)) == !(scan::is_mcp(files::shipped(files), manifest::all_deps(files::shipped(files))) && inventory::all_tools(
            files::shipped(files),
        ).len() == 0),
{
    let kept = files::shipped(files);
    let name = match manifest::repo_name(kept) {
        Some(n) => n,
        None => "server"@,
    };
    law_model_counts_what_was_found(kept, manifest::all_deps(kept), manifest::repo_transport(kept), name);
    let s = server_facts(kept, manifest::all_deps(kept), manifest::repo_transport(kept), name);
    lemma_is_mcp_attr(kept, manifest::all_deps(kept), manifest::repo_transport(kept));
}

proof fn lemma_is_mcp_attr(files: Seq<FileText>, deps: Seq<DepFacts>, transport: Seq<char>)
    ensures
        model::value_from(server_attrs(files, deps, transport), "is_mcp"@, 0) == Some(
            AttrFact::Bool(scan::is_mcp(files, deps)),
        ),
{
    reveal_strlit("mcp_kind");
    reveal_strlit("transport");
    reveal_strlit("has_lockfile");
    reveal_strlit("tool_count");
    reveal_strlit("is_mcp");
    let a = server_attrs(files, deps, transport);
    assert(a.len() >= 8);
    assert(a[0].0 == "mcp_kind"@);
    assert(a[1].0 == "transport"@);
    assert(a[2].0 == "has_lockfile"@);
    assert(a[3].0 == "tool_count"@);
    assert(a[4] == ("is_mcp"@, AttrFact::Bool(scan::is_mcp(files, deps))));
    assert("is_mcp"@.len() == 6);
    reveal_with_fuel(model::value_from, 6);
}

} // verus!
