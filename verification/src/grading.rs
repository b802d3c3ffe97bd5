//! From the model of a server to its grade: rules, places, context, score.
//!
//! The laws here join the parts: what the analyzers see in the files is what the rules report, and
//! what the rules report is what the grade answers for.
use crate::catalog;
use crate::catalog::{ALL_RULES, Rule, Severity};
use crate::context;
use crate::context::{FILESYSTEM_RULE, ModifierFacts, apply};
use crate::deps::DepFacts;
use crate::files;
use crate::files::FileText;
use crate::inventory;
use crate::manifest;
use crate::model;
use crate::model::{AttrFact, EntityFacts, FactModel, ModelFacts};
use crate::repo;
use crate::repo::{BIND_SITE, CORS_SITE, LOCK_SITE, SECRET_SITE, TLS_SITE, analyzable};
use crate::rules;
use crate::rules::{Finding, FindingFacts, MCP_NETWORK_RULES, McpCorePack, attach_lines, run_pack};
use crate::scan;
use crate::scan::Signal;
use crate::score;
use crate::score::{ALL_DIMS, Dim, ReportFacts, SHELL_RULE, ScoreReport, ScoreStatus, score};
use crate::taint;
use crate::taint::ToolFacts;
use crate::text;
use vstd::prelude::*;

verus! {

/// What the rules find in a model, with places, before the context is looked at.
pub open spec fn raw_findings(m: ModelFacts) -> Seq<FindingFacts> {
    rules::all_placed(rules::pack_findings(ALL_RULES@, m, ALL_RULES@.len() as int), m)
}

/// The findings on a model.
pub open spec fn model_findings(m: ModelFacts) -> Seq<FindingFacts> {
    context::all_modified(raw_findings(m), m)
}

/// The modifiers that are applied on a model.
pub open spec fn model_modifiers(m: ModelFacts) -> Seq<ModifierFacts> {
    context::applied_first(raw_findings(m), m, raw_findings(m).len() as int)
}

/// The report on a model.
pub open spec fn model_report(m: ModelFacts) -> ReportFacts {
    score::report_of(model_findings(m), model_modifiers(m), ALL_DIMS@, repo::covers_tools(m))
}

/// The findings and the report on a model.
pub fn grade_model(m: &FactModel) -> (r: (Vec<Finding>, ScoreReport))
    ensures
        rules::finding_facts(r.0@) == model_findings(m@),
        r.1@ == model_report(m@),
{
    let pack = McpCorePack::new();
    let mut found = run_pack(&pack, m);
    attach_lines(&mut found, m);
    assert(rules::finding_facts(found@) == raw_findings(m@));
    let (findings, mods) = apply(found, m);
    let dims = Dim::all();
    let report = score(&findings, &mods, &dims, analyzable(m));
    (findings, report)
}

// --- reading attributes back -----------------------------------------------

/// The value that a tool's entity has under a key that names no kind and no name.
proof fn lemma_tool_value(t: ToolFacts, q: Seq<char>)
    requires
        q != "mcp_kind"@,
        q != "name"@,
    ensures
        model::is_set(repo::tool_entity(t), q) == ((t.ssrf && q == "ssrf_url_from_input"@) || (t.fs && q
            == "fs_path_from_input"@) || (t.shell && q == "shell_exec_from_input"@) || (t.sql && q
            == "sql_from_input"@) || (t.deser && q == "insecure_deser"@) || (t.unbounded_limit && q
            == "unbounded_limit"@) || (t.redos && q == "redos_regex"@) || (t.desc_hidden_unicode && q
            == "desc_hidden_unicode"@)),
{
    let none = Seq::<(Seq<char>, AttrFact)>::empty();
    assert(model::value_from(none, q, 0) is None);
    repo::lemma_value_push(none, "mcp_kind"@, AttrFact::Str("tool"@), q, 0);
    let a = repo::kind_attrs("tool"@);
    repo::lemma_value_push(a, "name"@, AttrFact::Str(t.name), q, 0);
    let a = repo::with_value(a, "name"@, AttrFact::Str(t.name));
    repo::lemma_value_flag(a, "ssrf_url_from_input"@, t.ssrf, q);
    let a = repo::with_flag(a, "ssrf_url_from_input"@, t.ssrf);
    repo::lemma_value_flag(a, "fs_path_from_input"@, t.fs, q);
    let a = repo::with_flag(a, "fs_path_from_input"@, t.fs);
    repo::lemma_value_flag(a, "shell_exec_from_input"@, t.shell, q);
    let a = repo::with_flag(a, "shell_exec_from_input"@, t.shell);
    repo::lemma_value_flag(a, "sql_from_input"@, t.sql, q);
    let a = repo::with_flag(a, "sql_from_input"@, t.sql);
    repo::lemma_value_flag(a, "insecure_deser"@, t.deser, q);
    let a = repo::with_flag(a, "insecure_deser"@, t.deser);
    repo::lemma_value_flag(a, "unbounded_limit"@, t.unbounded_limit, q);
    let a = repo::with_flag(a, "unbounded_limit"@, t.unbounded_limit);
    repo::lemma_value_flag(a, "redos_regex"@, t.redos, q);
    let a = repo::with_flag(a, "redos_regex"@, t.redos);
    repo::lemma_value_flag(a, "desc_hidden_unicode"@, t.desc_hidden_unicode, q);
}

proof fn lemma_tool_keys()
    ensures
        "mcp_kind"@.len() == 8,
        "name"@.len() == 4,
        "ssrf_url_from_input"@.len() == 19 && "ssrf_url_from_input"@[0] == 's' && "ssrf_url_from_input"@[2] == 'r',
        "fs_path_from_input"@.len() == 18,
        "shell_exec_from_input"@.len() == 21,
        "sql_from_input"@.len() == 14 && "sql_from_input"@[0] == 's' && "sql_from_input"@[2] == 'l',
        "insecure_deser"@.len() == 14 && "insecure_deser"@[0] == 'i' && "insecure_deser"@[2] == 's',
        "unbounded_limit"@.len() == 15,
        "redos_regex"@.len() == 11,
        "desc_hidden_unicode"@.len() == 19 && "desc_hidden_unicode"@[0] == 'd' && "desc_hidden_unicode"@[2] == 's',
        "desc_injection"@.len() == 14 && "desc_injection"@[0] == 'd' && "desc_injection"@[2] == 's',
        "name_collision"@.len() == 14 && "name_collision"@[0] == 'n' && "name_collision"@[2] == 'm',
        "no_timeout_bound"@.len() == 16,
{
    reveal_strlit("mcp_kind");
    reveal_strlit("name");
    reveal_strlit("ssrf_url_from_input");
    reveal_strlit("fs_path_from_input");
    reveal_strlit("shell_exec_from_input");
    reveal_strlit("sql_from_input");
    reveal_strlit("insecure_deser");
    reveal_strlit("unbounded_limit");
    reveal_strlit("redos_regex");
    reveal_strlit("desc_hidden_unicode");
    reveal_strlit("desc_injection");
    reveal_strlit("name_collision");
    reveal_strlit("no_timeout_bound");
}

/// A rule about tools reports the entity of a tool exactly where the analyzers set the fact that
/// the rule is about. Two facts are never set: colliding names and missing timeouts.
pub proof fn law_rules_report_what_analyzers_see(r: Rule, t: ToolFacts)
    requires
        rules::is_tool_rule(r),
    ensures
        rules::hits_tool(r, repo::tool_entity(t)) == match r {
            Rule::ToolDescriptionInjection => t.desc_hidden_unicode,
            Rule::SsrfUserControlledUrl => t.ssrf,
            Rule::FilesystemUnscoped => t.fs,
            Rule::ShellExecSurface => t.shell,
            Rule::SqlInjection => t.sql,
            Rule::InsecureDeserialization => t.deser,
            Rule::InputUnvalidated => t.unbounded_limit || t.redos,
            _ => false,
        },
{
    lemma_tool_keys();
    lemma_tool_value(t, "desc_injection"@);
    lemma_tool_value(t, "desc_hidden_unicode"@);
    lemma_tool_value(t, "name_collision"@);
    lemma_tool_value(t, "ssrf_url_from_input"@);
    lemma_tool_value(t, "fs_path_from_input"@);
    lemma_tool_value(t, "shell_exec_from_input"@);
    lemma_tool_value(t, "sql_from_input"@);
    lemma_tool_value(t, "insecure_deser"@);
    lemma_tool_value(t, "unbounded_limit"@);
    lemma_tool_value(t, "redos_regex"@);
    lemma_tool_value(t, "no_timeout_bound"@);
}

/// The truth values of the server's attributes that the rules and the context read.
proof fn lemma_server_value(files: Seq<FileText>, deps: Seq<DepFacts>, transport: Seq<char>, q: Seq<char>)
    requires
        q != "mcp_kind"@,
        q != "transport"@,
        q != "tool_count"@,
        q != "languages"@,
    ensures
        (model::value_from(repo::server_attrs(files, deps, transport), q, 0) matches Some(v) && model::flag_of(v) == Some(true)) == (
        if q == "has_lockfile"@ {
            repo::has_lockfile(files)
        } else if q == "is_mcp"@ {
            scan::is_mcp(files, deps)
        } else if q == "binds_all_interfaces"@ {
            scan::first_site(files, Signal::BindsAll, 0) is Some
        } else if q == "has_auth"@ {
            scan::checks_callers(files)
        } else if q == "cors_wildcard"@ {
            scan::first_site(files, Signal::CorsWildcard, 0) is Some
        } else if q == "tls_verify_disabled"@ && scan::first_site(files, Signal::TlsDisabled, 0) is Some {
            true
        } else if q == "all_tools_read_only"@ && scan::read_only(files) is Some {
            scan::read_only(files) == Some(true)
        } else {
            q == "secret_source_to_egress"@ && inventory::leak(files) is Some
        }),
{
    repo::lemma_server_attr(files, deps, transport, q);
}

proof fn lemma_server_keys()
    ensures
        "mcp_kind"@.len() == 8 && "mcp_kind"@[0] == 'm',
        "transport"@.len() == 9,
        "tool_count"@.len() == 10,
        "languages"@.len() == 9,
        "has_lockfile"@.len() == 12,
        "is_mcp"@.len() == 6,
        "binds_all_interfaces"@.len() == 20,
        "has_auth"@.len() == 8 && "has_auth"@[0] == 'h',
        "cors_wildcard"@.len() == 13,
        "tls_verify_disabled"@.len() == 19 && "tls_verify_disabled"@[0] == 't',
        "all_tools_read_only"@.len() == 19 && "all_tools_read_only"@[0] == 'a',
        "secret_source_to_egress"@.len() == 23,
        "secret_in_config"@.len() == 16,
        "keyless_public_only"@.len() == 19 && "keyless_public_only"@[0] == 'k',
{
    reveal_strlit("mcp_kind");
    reveal_strlit("transport");
    reveal_strlit("tool_count");
    reveal_strlit("languages");
    reveal_strlit("has_lockfile");
    reveal_strlit("is_mcp");
    reveal_strlit("binds_all_interfaces");
    reveal_strlit("has_auth");
    reveal_strlit("cors_wildcard");
    reveal_strlit("tls_verify_disabled");
    reveal_strlit("all_tools_read_only");
    reveal_strlit("secret_source_to_egress");
    reveal_strlit("secret_in_config");
    reveal_strlit("keyless_public_only");
}

/// A rule about the server as a whole reports it exactly where the scan saw the signal that the
/// rule is about. Secrets in configuration are not looked for.
pub proof fn law_rules_report_what_the_scan_sees(
    r: Rule,
    files: Seq<FileText>,
    deps: Seq<DepFacts>,
    transport: Seq<char>,
    name: Seq<char>,
)
    ensures
        rules::hits_server(r, repo::server_facts(files, deps, transport, name)) == match r {
            Rule::CredentialExfiltration => inventory::leak(files) is Some,
            Rule::TlsVerificationDisabled => scan::first_site(files, Signal::TlsDisabled, 0) is Some,
            Rule::BindNoAuth => scan::first_site(files, Signal::BindsAll, 0) is Some && !scan::checks_callers(files),
            Rule::BindAllInterfaces => scan::first_site(files, Signal::BindsAll, 0) is Some && scan::checks_callers(files),
            Rule::CorsWildcard => scan::first_site(files, Signal::CorsWildcard, 0) is Some,
            _ => false,
        },
{
    lemma_server_keys();
    lemma_server_value(files, deps, transport, "secret_source_to_egress"@);
    lemma_server_value(files, deps, transport, "secret_in_config"@);
    lemma_server_value(files, deps, transport, "tls_verify_disabled"@);
    lemma_server_value(files, deps, transport, "binds_all_interfaces"@);
    lemma_server_value(files, deps, transport, "has_auth"@);
    lemma_server_value(files, deps, transport, "cors_wildcard"@);
}

// --- from a finding to the report ------------------------------------------

proof fn lemma_pack_holds(rules: Seq<Rule>, m: ModelFacts, n: int, k: int, i: int)
    requires
        0 <= k < n <= rules.len(),
        0 <= i < rules::findings_of(rules[k], m).len(),
    ensures
        exists|j: int|
            0 <= j < rules::pack_findings(rules, m, n).len() && #[trigger] rules::pack_findings(rules, m, n)[j] == rules::findings_of(
                rules[k],
                m,
            )[i],
    decreases n,
{
    let f = rules::findings_of(rules[k], m)[i];
    let before = rules::pack_findings(rules, m, n - 1);
    let now = rules::pack_findings(rules, m, n);
    if k == n - 1 {
        assert(now[before.len() + i] == f);
    } else {
        lemma_pack_holds(rules, m, n - 1, k, i);
        let j = choose|j: int| 0 <= j < before.len() && #[trigger] before[j] == f;
        assert(now[j] == f);
    }
}

/// What one rule finds is among the findings on the model, with the severity that the context
/// leaves it.
proof fn lemma_reported(m: ModelFacts, r: Rule, i: int)
    requires
        0 <= i < rules::findings_of(r, m).len(),
    ensures
        exists|j: int|
            0 <= j < model_findings(m).len() && (#[trigger] model_findings(m)[j]).rule_id == rules::findings_of(
                r,
                m,
            )[i].rule_id && model_findings(m)[j].severity == context::lowered_by(
                rules::findings_of(r, m)[i].severity,
                context::modifiers_for(rules::findings_of(r, m)[i].rule_id, m).len() as int,
            ),
{
    catalog::law_every_rule_is_in_the_catalog(r);
    let n = ALL_RULES@.len() as int;
    lemma_pack_holds(ALL_RULES@, m, n, catalog::number(r), i);
    let all = rules::pack_findings(ALL_RULES@, m, n);
    let j = choose|j: int| 0 <= j < all.len() && #[trigger] all[j] == rules::findings_of(r, m)[i];
    assert(raw_findings(m)[j] == rules::placed(all[j], m));
    assert(model_findings(m)[j] == context::modified(raw_findings(m)[j], m));
}

proof fn lemma_tool_is_found(r: Rule, es: Seq<EntityFacts>, n: int, k: int)
    requires
        0 <= k < n <= es.len(),
        model::of_kind(es[k], "tool"@),
        rules::hits_tool(r, es[k]),
    ensures
        exists|i: int|
            0 <= i < rules::tool_findings(r, es, n).len() && #[trigger] rules::tool_findings(r, es, n)[i] == rules::tool_finding(r, es[k]),
    decreases n,
{
    let before = rules::tool_findings(r, es, n - 1);
    let now = rules::tool_findings(r, es, n);
    if k == n - 1 {
        assert(now[before.len() as int] == rules::tool_finding(r, es[k]));
    } else {
        lemma_tool_is_found(r, es, n - 1, k);
        let i = choose|i: int| 0 <= i < before.len() && #[trigger] before[i] == rules::tool_finding(r, es[k]);
        assert(now[i] == before[i]);
    }
}

/// A rule about tools that is hit by a tool of the repository stands in the report.
proof fn lemma_tool_rule_is_reported(files: Seq<FileText>, k: int, r: Rule)
    requires
        0 <= k < inventory::all_tools(files::shipped(files)).len(),
        rules::is_tool_rule(r),
        rules::hits_tool(r, repo::tool_entity(inventory::all_tools(files::shipped(files))[k])),
    ensures
        ({
            let m = repo::repo_model(files);
            exists|j: int|
                0 <= j < model_findings(m).len() && (#[trigger] model_findings(m)[j]).rule_id == catalog::rule_id(r)
                    && model_findings(m)[j].severity == context::lowered_by(
                    catalog::severity_of(r),
                    context::modifiers_for(catalog::rule_id(r), m).len() as int,
                )
        }),
{
    let kept = files::shipped(files);
    let m = repo::repo_model(files);
    let tools = repo::tool_entities(inventory::all_tools(kept));
    let name = match manifest::repo_name(kept) {
        Some(n) => n,
        None => "server"@,
    };
    let deps = manifest::all_deps(kept);
    let head = seq![repo::server_facts(kept, deps, manifest::repo_transport(kept), name)]
        + repo::sites(BIND_SITE@, scan::first_site(kept, Signal::BindsAll, 0))
        + repo::sites(CORS_SITE@, scan::first_site(kept, Signal::CorsWildcard, 0))
        + repo::sites(TLS_SITE@, scan::first_site(kept, Signal::TlsDisabled, 0))
        + repo::sites(SECRET_SITE@, inventory::leak(kept));
    let at = head.len() + k;
    assert(m.entities =~= head + tools + repo::dep_entities(deps) + repo::lock_sites(kept, deps));
    assert(m.entities[at] == tools[k]);
    let t = inventory::all_tools(kept)[k];
    assert(tools[k] == repo::tool_entity(t));
    lemma_tool_kind(t);
    let n = m.entities.len() as int;
    lemma_tool_is_found(r, m.entities, n, at);
    let found = rules::tool_findings(r, m.entities, n);
    let i = choose|i: int| 0 <= i < found.len() && #[trigger] found[i] == rules::tool_finding(r, m.entities[at]);
    assert(rules::findings_of(r, m) == found);
    lemma_reported(m, r, i);
}

proof fn lemma_tool_kind(t: ToolFacts)
    ensures
        model::of_kind(repo::tool_entity(t), "tool"@),
{
    let e = repo::tool_entity(t);
    assert(e.attributes[0] == ("mcp_kind"@, AttrFact::Str("tool"@)));
    reveal_with_fuel(model::value_from, 2);
}

/// A server one of whose shipped tools feeds a shell with its input is graded D at best.
pub proof fn law_shell_tool_is_graded_d_at_best(files: Seq<FileText>, k: int)
    requires
        0 <= k < inventory::all_tools(files::shipped(files)).len(),
        inventory::all_tools(files::shipped(files))[k].shell,
    ensures
        score::has_rule(model_findings(repo::repo_model(files)), SHELL_RULE@),
        model_report(repo::repo_model(files)).grade >= 'D',
{
    let m = repo::repo_model(files);
    let t = inventory::all_tools(files::shipped(files))[k];
    law_rules_report_what_analyzers_see(Rule::ShellExecSurface, t);
    lemma_tool_rule_is_reported(files, k, Rule::ShellExecSurface);
    assert(catalog::rule_id(Rule::ShellExecSurface) == SHELL_RULE@);
    score::law_grade_is_capped(model_findings(m), model_report(m).composite);
}

/// The context that a repository gives: no server is ever taken to be without keys.
proof fn lemma_repo_context(files: Seq<FileText>)
    ensures
        model::server_of(repo::repo_model(files)) is Some,
        !context::server_flag(repo::repo_model(files), "keyless_public_only"@),
{
    let kept = files::shipped(files);
    let name = match manifest::repo_name(kept) {
        Some(n) => n,
        None => "server"@,
    };
    repo::law_model_counts_what_was_found(kept, manifest::all_deps(kept), manifest::repo_transport(kept), name);
    lemma_server_keys();
    lemma_server_value(kept, manifest::all_deps(kept), manifest::repo_transport(kept), "keyless_public_only"@);
}

/// A server in whose shipped files a secret is sent to a known exfiltration host is graded F,
/// whatever its transport.
pub proof fn law_leaked_secret_is_graded_f(files: Seq<FileText>)
    requires
        inventory::leak(files::shipped(files)) is Some,
    ensures
        rules::has_severity(model_findings(repo::repo_model(files)), Severity::Critical),
        model_report(repo::repo_model(files)).grade == 'F',
{
    let kept = files::shipped(files);
    let m = repo::repo_model(files);
    let name = match manifest::repo_name(kept) {
        Some(n) => n,
        None => "server"@,
    };
    let r = Rule::CredentialExfiltration;
    repo::law_model_counts_what_was_found(kept, manifest::all_deps(kept), manifest::repo_transport(kept), name);
    law_rules_report_what_the_scan_sees(r, kept, manifest::all_deps(kept), manifest::repo_transport(kept), name);
    assert(rules::findings_of(r, m).len() == 1);
    lemma_reported(m, r, 0);
    lemma_repo_context(files);
    lemma_not_network(r);
    assert(context::modifiers_for(catalog::rule_id(r), m) =~= Seq::empty());
    score::law_grade_is_capped(model_findings(m), model_report(m).composite);
}

/// The rule about leaks is neither about the network nor about the filesystem.
proof fn lemma_not_network(r: Rule)
    requires
        r == Rule::CredentialExfiltration,
    ensures
        !text::is_listed(catalog::rule_id(r), MCP_NETWORK_RULES@),
        catalog::rule_id(r) != FILESYSTEM_RULE@,
{
    catalog::lemma_rule_mark(r);
    reveal_strlit("MCP-SSRF-USER-CONTROLLED-URL");
    reveal_strlit("MCP-UNRESTRICTED-EGRESS");
    reveal_strlit("MCP-TLS-VERIFICATION-DISABLED");
    reveal_strlit("MCP-BIND-NO-AUTH");
    reveal_strlit("MCP-BIND-ALL-INTERFACES");
    reveal_strlit("MCP-CORS-WILDCARD");
    reveal_strlit("MCP-FILESYSTEM-UNSCOPED");
    assert forall|k: int| 0 <= k < 6 implies catalog::rule_id(r) != (#[trigger] MCP_NETWORK_RULES@[k])@ by {
        assert(k == 0 || k == 1 || k == 2 || k == 3 || k == 4 || k == 5);
        assert(MCP_NETWORK_RULES@[k]@.len() != 27);
    }
}

/// Where no context lowers it, a high finding of any tool keeps the grade at B or below.
pub proof fn law_high_tool_finding_is_graded_b_at_best(files: Seq<FileText>, k: int, r: Rule)
    requires
        0 <= k < inventory::all_tools(files::shipped(files)).len(),
        rules::is_tool_rule(r),
        rules::hits_tool(r, repo::tool_entity(inventory::all_tools(files::shipped(files))[k])),
        catalog::severity_of(r) == Severity::High,
        !context::is_stdio(repo::repo_model(files)),
        !context::server_flag(repo::repo_model(files), "all_tools_read_only"@),
    ensures
        model_report(repo::repo_model(files)).grade >= 'B',
{
    let m = repo::repo_model(files);
    lemma_tool_rule_is_reported(files, k, r);
    lemma_repo_context(files);
    assert(context::modifiers_for(catalog::rule_id(r), m) =~= Seq::empty());
    score::law_grade_is_capped(model_findings(m), model_report(m).composite);
}

/// The grade of an MCP server in whose shipped files no tool was found is withheld, and that of no
/// other repository.
pub proof fn law_grade_is_withheld_without_tools(files: Seq<FileText>)
    ensures
        model_report(repo::repo_model(files)).status == (if scan::is_mcp(files::shipped(files), manifest::all_deps(files::shipped(files)))
            && inventory::all_tools(files::shipped(files)).len() == 0 {
            ScoreStatus::InsufficientCoverage
        } else {
            ScoreStatus::Scored
        }),
{
    repo::law_server_without_tools_is_not_analyzable(files);
}

// --- one severity per rule -------------------------------------------------

/// A finding is of a known rule, with the severity of that rule.
pub open spec fn is_of_rule(f: FindingFacts) -> bool {
    exists|r: Rule| f.rule_id == #[trigger] catalog::rule_id(r) && f.severity == catalog::severity_of(r)
}

proof fn lemma_tool_findings_of_rule(r: Rule, es: Seq<EntityFacts>, n: int)
    ensures
        forall|i: int| 0 <= i < rules::tool_findings(r, es, n).len() ==> is_of_rule(#[trigger] rules::tool_findings(r, es, n)[i]),
    decreases n,
{
    if 0 < n <= es.len() {
        lemma_tool_findings_of_rule(r, es, n - 1);
        let before = rules::tool_findings(r, es, n - 1);
        let now = rules::tool_findings(r, es, n);
        assert forall|i: int| 0 <= i < now.len() implies is_of_rule(#[trigger] now[i]) by {
            if i < before.len() {
                assert(now[i] == before[i]);
            } else {
                assert(now[i].rule_id == catalog::rule_id(r));
            }
        }
    }
}

proof fn lemma_pack_of_rule(rules: Seq<Rule>, m: ModelFacts, n: int)
    requires
        0 <= n <= rules.len(),
    ensures
        forall|i: int|
            0 <= i < rules::pack_findings(rules, m, n).len() ==> is_of_rule(#[trigger] rules::pack_findings(rules, m, n)[i]),
    decreases n,
{
    if n > 0 {
        lemma_pack_of_rule(rules, m, n - 1);
        let r = rules[n - 1];
        let before = rules::pack_findings(rules, m, n - 1);
        let new = rules::findings_of(r, m);
        let now = rules::pack_findings(rules, m, n);
        lemma_tool_findings_of_rule(r, m.entities, m.entities.len() as int);
        assert forall|i: int| 0 <= i < now.len() implies is_of_rule(#[trigger] now[i]) by {
            if i < before.len() {
                assert(now[i] == before[i]);
            } else {
                assert(now[i] == new[i - before.len()]);
                if !rules::is_tool_rule(r) {
                    assert(now[i].rule_id == catalog::rule_id(r));
                }
            }
        }
    }
}

/// The findings of each rule on a model are equally grave, so that what a rule costs is its penalty
/// once or twice.
pub proof fn law_findings_of_a_rule_are_equally_grave(m: ModelFacts)
    ensures
        score::severity_by_rule(model_findings(m)),
{
    let n = ALL_RULES@.len() as int;
    let all = rules::pack_findings(ALL_RULES@, m, n);
    lemma_pack_of_rule(ALL_RULES@, m, n);
    let fs = model_findings(m);
    assert forall|i: int, j: int|
        0 <= i < fs.len() && 0 <= j < fs.len() && (#[trigger] fs[i]).rule_id == (#[trigger]
        fs[j]).rule_id implies fs[i].severity == fs[j].severity by {
        assert(fs[i] == context::modified(rules::placed(all[i], m), m));
        assert(fs[j] == context::modified(rules::placed(all[j], m), m));
        assert(is_of_rule(all[i]) && is_of_rule(all[j]));
        let a = choose|r: Rule| all[i].rule_id == #[trigger] catalog::rule_id(r) && all[i].severity == catalog::severity_of(r);
        let b = choose|r: Rule| all[j].rule_id == #[trigger] catalog::rule_id(r) && all[j].severity == catalog::severity_of(r);
        if a != b {
            catalog::law_rule_ids_are_distinct(a, b);
        }
    }
}

// --- where the findings of a repository point ------------------------------

/// What an entity of a repository's model can be: the server, a site, a tool or a dependency. The
/// sites of signals have lines.
#[verifier::rlimit(60)]
proof fn lemma_origin(files: Seq<FileText>, k: int)
    requires
        0 <= k < repo::repo_model(files).entities.len(),
    ensures
        ({
            let kept = files::shipped(files);
            let deps = manifest::all_deps(kept);
            let tools = inventory::all_tools(kept);
            let e = repo::repo_model(files).entities[k];
            ||| e == repo::server_facts(kept, deps, manifest::repo_transport(kept), model_name(kept))
            ||| e.attributes == repo::kind_attrs("site"@) && e.line is Some && (e.id == BIND_SITE@ || e.id == CORS_SITE@ || e.id
                == TLS_SITE@ || e.id == SECRET_SITE@)
            ||| e.attributes == repo::kind_attrs("site"@) && e.id == LOCK_SITE@
            ||| exists|i: int| 0 <= i < tools.len() && e == repo::tool_entity(#[trigger] tools[i])
            ||| exists|i: int| 0 <= i < deps.len() && e == repo::dep_entity(#[trigger] deps[i])
        }),
{
    let kept = files::shipped(files);
    let deps = manifest::all_deps(kept);
    let tools = inventory::all_tools(kept);
    let es = repo::repo_model(files).entities;
    let s1 = seq![repo::server_facts(kept, deps, manifest::repo_transport(kept), model_name(kept))];
    let s2 = s1 + repo::sites(BIND_SITE@, scan::first_site(kept, Signal::BindsAll, 0));
    let s3 = s2 + repo::sites(CORS_SITE@, scan::first_site(kept, Signal::CorsWildcard, 0));
    let s4 = s3 + repo::sites(TLS_SITE@, scan::first_site(kept, Signal::TlsDisabled, 0));
    let s5 = s4 + repo::sites(SECRET_SITE@, inventory::leak(kept));
    let s6 = s5 + repo::tool_entities(tools);
    let s7 = s6 + repo::dep_entities(deps);
    assert(es == s7 + repo::lock_sites(kept, deps));
    if k >= s7.len() {
        assert(es[k] == repo::lock_sites(kept, deps)[k - s7.len()]);
    } else if k >= s6.len() {
        assert(es[k] == repo::dep_entity(deps[k - s6.len()]));
    } else if k >= s5.len() {
        assert(es[k] == repo::tool_entity(tools[k - s5.len()]));
    } else if k >= s4.len() {
        assert(es[k] == repo::sites(SECRET_SITE@, inventory::leak(kept))[k - s4.len()]);
    } else if k >= s3.len() {
        assert(es[k] == repo::sites(TLS_SITE@, scan::first_site(kept, Signal::TlsDisabled, 0))[k - s3.len()]);
    } else if k >= s2.len() {
        assert(es[k] == repo::sites(CORS_SITE@, scan::first_site(kept, Signal::CorsWildcard, 0))[k - s2.len()]);
    } else if k >= s1.len() {
        assert(es[k] == repo::sites(BIND_SITE@, scan::first_site(kept, Signal::BindsAll, 0))[k - s1.len()]);
    } else {
        assert(es[k] == s1[0]);
    }
}

/// The name of the server of the shipped files.
spec fn model_name(kept: Seq<FileText>) -> Seq<char> {
    match manifest::repo_name(kept) {
        Some(n) => n,
        None => "server"@,
    }
}

/// The entity of each signal that was seen is in the model.
proof fn lemma_site_is_there(files: Seq<FileText>, id: Seq<char>, seen: Option<(Seq<char>, u32)>)
    requires
        seen is Some,
        ({
            let kept = files::shipped(files);
            ||| id == BIND_SITE@ && seen == scan::first_site(kept, Signal::BindsAll, 0)
            ||| id == CORS_SITE@ && seen == scan::first_site(kept, Signal::CorsWildcard, 0)
            ||| id == TLS_SITE@ && seen == scan::first_site(kept, Signal::TlsDisabled, 0)
            ||| id == SECRET_SITE@ && seen == inventory::leak(kept)
        }),
    ensures
        rules::has_line(repo::repo_model(files), id),
{
    let kept = files::shipped(files);
    let deps = manifest::all_deps(kept);
    let m = repo::repo_model(files);
    let s1 = seq![repo::server_facts(kept, deps, manifest::repo_transport(kept), model_name(kept))];
    let s2 = s1 + repo::sites(BIND_SITE@, scan::first_site(kept, Signal::BindsAll, 0));
    let s3 = s2 + repo::sites(CORS_SITE@, scan::first_site(kept, Signal::CorsWildcard, 0));
    let s4 = s3 + repo::sites(TLS_SITE@, scan::first_site(kept, Signal::TlsDisabled, 0));
    let s5 = s4 + repo::sites(SECRET_SITE@, inventory::leak(kept));
    assert(m.entities == s5 + repo::tool_entities(inventory::all_tools(kept)) + repo::dep_entities(deps) + repo::lock_sites(kept, deps));
    lemma_ids();
    let at: int = if id == BIND_SITE@ {
        s1.len() as int
    } else if id == CORS_SITE@ {
        s2.len() as int
    } else if id == TLS_SITE@ {
        s3.len() as int
    } else {
        s4.len() as int
    };
    assert(m.entities[at].id == id);
    assert forall|k: int| 0 <= k < m.entities.len() && (#[trigger] m.entities[k]).id == id implies m.entities[k].line
        is Some by {
        lemma_origin(files, k);
        lemma_id_heads(files, k);
    }
    lemma_has_line(m, id, at, 0);
}

proof fn lemma_has_line(m: ModelFacts, id: Seq<char>, at: int, i: int)
    requires
        0 <= i <= at < m.entities.len(),
        m.entities[at].id == id,
        forall|k: int| 0 <= k < m.entities.len() && (#[trigger] m.entities[k]).id == id ==> m.entities[k].line is Some,
    ensures
        rules::entity_at(m.entities, id, i) matches Some(e) && e.line is Some,
    decreases at - i,
{
    if m.entities[i].id != id {
        lemma_has_line(m, id, at, i + 1);
    }
}

/// Sites have ids of their own.
proof fn lemma_ids()
    ensures
        BIND_SITE@.len() == 24 && BIND_SITE@[0] == 's',
        CORS_SITE@.len() == 18 && CORS_SITE@[0] == 's' && CORS_SITE@[5] == 'c',
        TLS_SITE@.len() == 24 && TLS_SITE@[0] == 's' && TLS_SITE@[5] == 't',
        SECRET_SITE@.len() == 18 && SECRET_SITE@[0] == 's' && SECRET_SITE@[5] == 's',
        LOCK_SITE@.len() == 16 && LOCK_SITE@[0] == 's',
        BIND_SITE@[5] == 'b',
        "mcp_server:"@.len() == 11 && "mcp_server:"@[0] == 'm',
        "tool:"@.len() == 5 && "tool:"@[0] == 't',
        "dep:"@.len() == 4 && "dep:"@[0] == 'd',
{
    reveal_strlit("site:bind-all-interfaces");
    reveal_strlit("site:cors-wildcard");
    reveal_strlit("site:tls-verify-disabled");
    reveal_strlit("site:secret-egress");
    reveal_strlit("site:no-lockfile");
    reveal_strlit("mcp_server:");
    reveal_strlit("tool:");
    reveal_strlit("dep:");
}

/// The ids of servers, tools and dependencies begin in their own ways.
proof fn lemma_id_heads(files: Seq<FileText>, k: int)
    requires
        0 <= k < repo::repo_model(files).entities.len(),
    ensures
        ({
            let kept = files::shipped(files);
            let deps = manifest::all_deps(kept);
            let tools = inventory::all_tools(kept);
            let e = repo::repo_model(files).entities[k];
            &&& e == repo::server_facts(kept, deps, manifest::repo_transport(kept), model_name(kept)) ==> e.id.len() > 0 && e.id[0] == 'm'
            &&& forall|i: int| 0 <= i < tools.len() && e == repo::tool_entity(#[trigger] tools[i]) ==> e.id.len() > 0 && e.id[0] == 't'
            &&& forall|i: int| 0 <= i < deps.len() && e == repo::dep_entity(#[trigger] deps[i]) ==> e.id.len() > 0 && e.id[0] == 'd'
        }),
{
    lemma_ids();
}

/// The tools of a repository that a rule reports have lines.
#[verifier::rlimit(60)]
proof fn lemma_hit_tools_have_lines(files: Seq<FileText>, r: Rule)
    requires
        inventory::lines_fit(files::shipped(files)),
        rules::is_tool_rule(r),
    ensures
        rules::hit_tools_have_lines(r, repo::repo_model(files)),
{
    let m = repo::repo_model(files);
    let kept = files::shipped(files);
    let tools = inventory::all_tools(kept);
    let deps = manifest::all_deps(kept);
    inventory::law_tools_with_facts_have_lines(kept);
    inventory::law_tools_are_named_once(kept);
    reveal_strlit("server");
    reveal_strlit("site");
    reveal_strlit("tool");
    reveal_strlit("dependency");
    assert("site"@[0] != "tool"@[0]);
    assert forall|k: int|
        0 <= k < m.entities.len() && model::of_kind(#[trigger] m.entities[k], "tool"@) && rules::hits_tool(r, m.entities[k]) implies
        rules::has_line(m, m.entities[k].id) by {
        let e = m.entities[k];
        lemma_origin(files, k);
        if e == repo::server_facts(kept, deps, manifest::repo_transport(kept), model_name(kept)) {
            repo::lemma_kind(e, "server"@);
        }
        if e.attributes == repo::kind_attrs("site"@) {
            repo::lemma_kind(e, "site"@);
        }
        if exists|i: int| 0 <= i < deps.len() && e == repo::dep_entity(#[trigger] deps[i]) {
            repo::lemma_kind(e, "dependency"@);
        }
        let i = choose|i: int| 0 <= i < tools.len() && e == repo::tool_entity(#[trigger] tools[i]);
        law_rules_report_what_analyzers_see(r, tools[i]);
        assert(taint::is_located(tools[i]));
        assert(e.line is Some);
        assert forall|q: int| 0 <= q < m.entities.len() && (#[trigger] m.entities[q]).id == e.id implies
            m.entities[q].line is Some by {
            lemma_origin(files, q);
            lemma_id_heads(files, q);
            lemma_id_heads(files, k);
            lemma_ids();
            if exists|p: int| 0 <= p < tools.len() && m.entities[q] == repo::tool_entity(#[trigger] tools[p]) {
                let p = choose|p: int| 0 <= p < tools.len() && m.entities[q] == repo::tool_entity(#[trigger] tools[p]);
                assert(("tool:"@ + tools[p].name).skip(5) =~= tools[p].name);
                assert(("tool:"@ + tools[i].name).skip(5) =~= tools[i].name);
                assert(p == i);
            }
        }
        lemma_has_line(m, e.id, k, 0);
    }
}

/// Each finding of a pack comes from one of its rules, and carries its id.
proof fn lemma_pack_origin(rules: Seq<Rule>, m: ModelFacts, n: int, j: int)
    requires
        0 <= n <= rules.len(),
        0 <= j < rules::pack_findings(rules, m, n).len(),
    ensures
        exists|k: int, i: int|
            0 <= k < n && 0 <= i < rules::findings_of(rules[k], m).len() && rules::pack_findings(rules, m, n)[j]
                == #[trigger] rules::findings_of(rules[k], m)[i] && rules::pack_findings(rules, m, n)[j].rule_id == catalog::rule_id(rules[k]),
    decreases n,
{
    if n > 0 {
        let before = rules::pack_findings(rules, m, n - 1);
        let new = rules::findings_of(rules[n - 1], m);
        let now = rules::pack_findings(rules, m, n);
        if j < before.len() {
            lemma_pack_origin(rules, m, n - 1, j);
            let (k, i) = choose|k: int, i: int|
                0 <= k < n - 1 && 0 <= i < rules::findings_of(rules[k], m).len() && before[j] == #[trigger] rules::findings_of(
                    rules[k],
                    m,
                )[i] && before[j].rule_id == catalog::rule_id(rules[k]);
            assert(now[j] == rules::findings_of(rules[k], m)[i]);
        } else {
            let i = j - before.len();
            assert(now[j] == rules::findings_of(rules[n - 1], m)[i]);
            lemma_tool_rule_ids(rules[n - 1], m.entities, m.entities.len() as int);
            assert(new[i].rule_id == catalog::rule_id(rules[n - 1]));
        }
    }
}

proof fn lemma_tool_rule_ids(r: Rule, es: Seq<EntityFacts>, n: int)
    ensures
        forall|i: int|
            0 <= i < rules::tool_findings(r, es, n).len() ==> (#[trigger] rules::tool_findings(r, es, n)[i]).rule_id == catalog::rule_id(r),
    decreases n,
{
    if 0 < n <= es.len() {
        lemma_tool_rule_ids(r, es, n - 1);
        let before = rules::tool_findings(r, es, n - 1);
        let now = rules::tool_findings(r, es, n);
        assert forall|i: int| 0 <= i < now.len() implies (#[trigger] now[i]).rule_id == catalog::rule_id(r) by {
            if i < before.len() {
                assert(now[i] == before[i]);
            }
        }
    }
}

/// Every finding on the files of a server cites a file and a line; a missing lockfile alone can be
/// cited by its manifest. The lines of each file must be countable in 32 bits.
pub proof fn law_findings_on_files_cite_lines(files: Seq<FileText>, j: int)
    requires
        inventory::lines_fit(files::shipped(files)),
        0 <= j < model_findings(repo::repo_model(files)).len(),
    ensures
        model_findings(repo::repo_model(files))[j].file is Some,
        model_findings(repo::repo_model(files))[j].rule_id != catalog::rule_id(Rule::DepsUnpinned) ==> model_findings(
            repo::repo_model(files),
        )[j].line is Some,
{
    let m = repo::repo_model(files);
    let kept = files::shipped(files);
    let n = ALL_RULES@.len() as int;
    let all = rules::pack_findings(ALL_RULES@, m, n);
    rules::law_every_finding_has_evidence(ALL_RULES@, m);
    assert(raw_findings(m)[j] == rules::placed(all[j], m));
    assert(model_findings(m)[j] == context::modified(raw_findings(m)[j], m));
    lemma_pack_origin(ALL_RULES@, m, n, j);
    let (k, i) = choose|k: int, i: int|
        0 <= k < n && 0 <= i < rules::findings_of(ALL_RULES@[k], m).len() && all[j] == #[trigger] rules::findings_of(
            ALL_RULES@[k],
            m,
        )[i] && all[j].rule_id == catalog::rule_id(ALL_RULES@[k]);
    let r = ALL_RULES@[k];
    if r != Rule::DepsUnpinned {
        if rules::is_tool_rule(r) {
            lemma_hit_tools_have_lines(files, r);
        } else {
            lemma_rule_site_has_line(files, r);
        }
        rules::law_findings_cite_lines(r, m);
    }
}

/// The site of a rule about the server that finds something has a line.
proof fn lemma_rule_site_has_line(files: Seq<FileText>, r: Rule)
    requires
        !rules::is_tool_rule(r),
        r != Rule::DepsUnpinned,
        rules::findings_of(r, repo::repo_model(files)).len() > 0,
    ensures
        rules::site_of_rule(r) matches Some(s) && rules::has_line(repo::repo_model(files), s),
{
    let kept = files::shipped(files);
    let deps = manifest::all_deps(kept);
    let name = model_name(kept);
    repo::law_model_counts_what_was_found(kept, deps, manifest::repo_transport(kept), name);
    law_rules_report_what_the_scan_sees(r, kept, deps, manifest::repo_transport(kept), name);
    match r {
        Rule::CredentialExfiltration => {
            lemma_site_is_there(files, SECRET_SITE@, inventory::leak(kept));
        },
        Rule::TlsVerificationDisabled => {
            lemma_site_is_there(files, TLS_SITE@, scan::first_site(kept, Signal::TlsDisabled, 0));
        },
        Rule::CorsWildcard => {
            lemma_site_is_there(files, CORS_SITE@, scan::first_site(kept, Signal::CorsWildcard, 0));
        },
        _ => {
            lemma_site_is_there(files, BIND_SITE@, scan::first_site(kept, Signal::BindsAll, 0));
        },
    }
}

} // verus!
