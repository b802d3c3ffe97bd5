//! What the rules are for, stated over the entities of a model, the ids of the rules and the findings.
use crate::catalog;
use crate::catalog::{
    ALL_RULES, BIND_ALL_INTERFACES_CONTROLS, BIND_NO_AUTH_CONTROLS, CORS_WILDCARD_CONTROLS,
    CREDENTIAL_EXFILTRATION_CONTROLS, DEPS_UNPINNED_CONTROLS, DOS_UNBOUNDED_CONTROLS,
    FILESYSTEM_UNSCOPED_CONTROLS, INPUT_UNVALIDATED_CONTROLS, INSECURE_DESERIALIZATION_CONTROLS,
    MESSAGES, RULE_IDS, Rule, SECRET_IN_CONFIG_CONTROLS, SHELL_EXEC_SURFACE_CONTROLS,
    SQL_INJECTION_CONTROLS, SSRF_USER_CONTROLLED_URL_CONTROLS, Severity,
    TLS_VERIFICATION_DISABLED_CONTROLS, TOOL_DESCRIPTION_INJECTION_CONTROLS,
    TOOL_SHADOWING_CONTROLS,
};
use crate::laws_text;
use crate::model;
use crate::model::{AttrFact, EntityFacts, ModelFacts};
use crate::rules;
use crate::rules::{FLOATING, FindingFacts, NO_LOCKFILE};
use crate::text;
use vstd::prelude::*;

verus! {

/// The id of each rule, how grave its findings are, and the controls that it maps to.
#[verifier::rlimit(60)]
pub proof fn law_rules_are_catalogued(r: Rule)
    ensures
        r == Rule::ToolDescriptionInjection ==> catalog::rule_id(r) == "MCP-TOOL-DESCRIPTION-INJECTION"@ && catalog::severity_of(r) == Severity::High && text::strs(catalog::controls_of(r)) == seq!["CWE-74"@, "CWE-116"@, "OWASP-MCP-A2"@, "MAESTRO-L3"@, "ETDI-tool-descriptions"@],
        r == Rule::ToolShadowing ==> catalog::rule_id(r) == "MCP-TOOL-SHADOWING"@ && catalog::severity_of(r) == Severity::Medium && text::strs(catalog::controls_of(r)) == seq!["CWE-290"@, "CWE-345"@, "OWASP-MCP-A1"@, "ETDI-versioning"@, "MAESTRO-L3"@],
        r == Rule::CredentialExfiltration ==> catalog::rule_id(r) == "MCP-CREDENTIAL-EXFILTRATION"@ && catalog::severity_of(r) == Severity::Critical && text::strs(catalog::controls_of(r)) == seq!["CWE-200"@, "CWE-522"@, "CWE-312"@, "OWASP-MCP-A7"@, "MAESTRO-L4"@],
        r == Rule::SecretInConfig ==> catalog::rule_id(r) == "MCP-SECRET-IN-CONFIG"@ && catalog::severity_of(r) == Severity::High && text::strs(catalog::controls_of(r)) == seq!["CWE-798"@, "CWE-312"@, "OWASP-MCP-A7"@, "MAESTRO-L4"@],
        r == Rule::SsrfUserControlledUrl ==> catalog::rule_id(r) == "MCP-SSRF-USER-CONTROLLED-URL"@ && catalog::severity_of(r) == Severity::High && text::strs(catalog::controls_of(r)) == seq!["CWE-918"@, "OWASP-MCP-A3"@, "MAESTRO-L6"@],
        r == Rule::TlsVerificationDisabled ==> catalog::rule_id(r) == "MCP-TLS-VERIFICATION-DISABLED"@ && catalog::severity_of(r) == Severity::Medium && text::strs(catalog::controls_of(r)) == seq!["CWE-295"@, "CWE-319"@, "OWASP-MCP-A5"@, "MAESTRO-L6"@],
        r == Rule::FilesystemUnscoped ==> catalog::rule_id(r) == "MCP-FILESYSTEM-UNSCOPED"@ && catalog::severity_of(r) == Severity::High && text::strs(catalog::controls_of(r)) == seq!["CWE-22"@, "CWE-59"@, "OWASP-MCP-A3"@, "MAESTRO-L3"@],
        r == Rule::ShellExecSurface ==> catalog::rule_id(r) == "MCP-SHELL-EXEC-SURFACE"@ && catalog::severity_of(r) == Severity::High && text::strs(catalog::controls_of(r)) == seq!["CWE-78"@, "CWE-77"@, "CWE-94"@, "OWASP-MCP-A1"@, "MAESTRO-L3"@],
        r == Rule::SqlInjection ==> catalog::rule_id(r) == "MCP-SQL-INJECTION"@ && catalog::severity_of(r) == Severity::High && text::strs(catalog::controls_of(r)) == seq!["CWE-89"@, "OWASP-MCP-A1"@, "MAESTRO-L3"@],
        r == Rule::InsecureDeserialization ==> catalog::rule_id(r) == "MCP-INSECURE-DESERIALIZATION"@ && catalog::severity_of(r) == Severity::High && text::strs(catalog::controls_of(r)) == seq!["CWE-502"@, "OWASP-MCP-A1"@, "MAESTRO-L3"@],
        r == Rule::InputUnvalidated ==> catalog::rule_id(r) == "MCP-INPUT-UNVALIDATED"@ && catalog::severity_of(r) == Severity::Medium && text::strs(catalog::controls_of(r)) == seq!["CWE-20"@, "CWE-1284"@, "OWASP-MCP-A5"@, "MAESTRO-L3"@],
        r == Rule::DosUnbounded ==> catalog::rule_id(r) == "MCP-DOS-UNBOUNDED"@ && catalog::severity_of(r) == Severity::Low && text::strs(catalog::controls_of(r)) == seq!["CWE-400"@, "CWE-770"@, "OWASP-MCP-A5"@, "MAESTRO-L6"@],
        r == Rule::DepsUnpinned ==> catalog::rule_id(r) == "MCP-DEPS-UNPINNED"@ && catalog::severity_of(r) == Severity::Medium && text::strs(catalog::controls_of(r)) == seq!["CWE-1104"@, "CWE-829"@, "OWASP-MCP-A6"@, "MAESTRO-L3"@, "MCP-Spec-supply-chain"@],
        r == Rule::BindNoAuth ==> catalog::rule_id(r) == "MCP-BIND-NO-AUTH"@ && catalog::severity_of(r) == Severity::High && text::strs(catalog::controls_of(r)) == seq!["CWE-668"@, "CWE-306"@, "OWASP-MCP-A6"@, "MAESTRO-L4"@],
        r == Rule::BindAllInterfaces ==> catalog::rule_id(r) == "MCP-BIND-ALL-INTERFACES"@ && catalog::severity_of(r) == Severity::Medium && text::strs(catalog::controls_of(r)) == seq!["CWE-668"@, "OWASP-MCP-A6"@, "MAESTRO-L4"@],
        r == Rule::CorsWildcard ==> catalog::rule_id(r) == "MCP-CORS-WILDCARD"@ && catalog::severity_of(r) == Severity::Medium && text::strs(catalog::controls_of(r)) == seq!["CWE-942"@, "CWE-346"@, "OWASP-MCP-A4"@, "MAESTRO-L6"@],
        catalog::meta(r).id == catalog::rule_id(r) && catalog::meta(r).severity == catalog::severity_of(r) && catalog::meta(r).controls == text::strs(catalog::controls_of(r)),
        catalog::catalog_facts().contains(catalog::meta(r)),
        catalog::catalog_facts().len() == 16,
        catalog::meta(r).target == "MCP"@ && !catalog::meta(r).strict,
{
    assert(ALL_RULES@[catalog::number(r)] == r);
    assert(catalog::catalog_facts()[catalog::number(r)] == catalog::meta(r));
    match r {
        Rule::ToolDescriptionInjection => {
            assert(RULE_IDS@[0]@ == "MCP-TOOL-DESCRIPTION-INJECTION"@);
            assert(text::strs(TOOL_DESCRIPTION_INJECTION_CONTROLS@) =~= seq!["CWE-74"@, "CWE-116"@, "OWASP-MCP-A2"@, "MAESTRO-L3"@, "ETDI-tool-descriptions"@]);
        },
        Rule::ToolShadowing => {
            assert(RULE_IDS@[1]@ == "MCP-TOOL-SHADOWING"@);
            assert(text::strs(TOOL_SHADOWING_CONTROLS@) =~= seq!["CWE-290"@, "CWE-345"@, "OWASP-MCP-A1"@, "ETDI-versioning"@, "MAESTRO-L3"@]);
        },
        Rule::CredentialExfiltration => {
            assert(RULE_IDS@[2]@ == "MCP-CREDENTIAL-EXFILTRATION"@);
            assert(text::strs(CREDENTIAL_EXFILTRATION_CONTROLS@) =~= seq!["CWE-200"@, "CWE-522"@, "CWE-312"@, "OWASP-MCP-A7"@, "MAESTRO-L4"@]);
        },
        Rule::SecretInConfig => {
            assert(RULE_IDS@[3]@ == "MCP-SECRET-IN-CONFIG"@);
            assert(text::strs(SECRET_IN_CONFIG_CONTROLS@) =~= seq!["CWE-798"@, "CWE-312"@, "OWASP-MCP-A7"@, "MAESTRO-L4"@]);
        },
        Rule::SsrfUserControlledUrl => {
            assert(RULE_IDS@[4]@ == "MCP-SSRF-USER-CONTROLLED-URL"@);
            assert(text::strs(SSRF_USER_CONTROLLED_URL_CONTROLS@) =~= seq!["CWE-918"@, "OWASP-MCP-A3"@, "MAESTRO-L6"@]);
        },
        Rule::TlsVerificationDisabled => {
            assert(RULE_IDS@[5]@ == "MCP-TLS-VERIFICATION-DISABLED"@);
            assert(text::strs(TLS_VERIFICATION_DISABLED_CONTROLS@) =~= seq!["CWE-295"@, "CWE-319"@, "OWASP-MCP-A5"@, "MAESTRO-L6"@]);
        },
        Rule::FilesystemUnscoped => {
            assert(RULE_IDS@[6]@ == "MCP-FILESYSTEM-UNSCOPED"@);
            assert(text::strs(FILESYSTEM_UNSCOPED_CONTROLS@) =~= seq!["CWE-22"@, "CWE-59"@, "OWASP-MCP-A3"@, "MAESTRO-L3"@]);
        },
        Rule::ShellExecSurface => {
            assert(RULE_IDS@[7]@ == "MCP-SHELL-EXEC-SURFACE"@);
            assert(text::strs(SHELL_EXEC_SURFACE_CONTROLS@) =~= seq!["CWE-78"@, "CWE-77"@, "CWE-94"@, "OWASP-MCP-A1"@, "MAESTRO-L3"@]);
        },
        Rule::SqlInjection => {
            assert(RULE_IDS@[8]@ == "MCP-SQL-INJECTION"@);
            assert(text::strs(SQL_INJECTION_CONTROLS@) =~= seq!["CWE-89"@, "OWASP-MCP-A1"@, "MAESTRO-L3"@]);
        },
        Rule::InsecureDeserialization => {
            assert(RULE_IDS@[9]@ == "MCP-INSECURE-DESERIALIZATION"@);
            assert(text::strs(INSECURE_DESERIALIZATION_CONTROLS@) =~= seq!["CWE-502"@, "OWASP-MCP-A1"@, "MAESTRO-L3"@]);
        },
        Rule::InputUnvalidated => {
            assert(RULE_IDS@[10]@ == "MCP-INPUT-UNVALIDATED"@);
            assert(text::strs(INPUT_UNVALIDATED_CONTROLS@) =~= seq!["CWE-20"@, "CWE-1284"@, "OWASP-MCP-A5"@, "MAESTRO-L3"@]);
        },
        Rule::DosUnbounded => {
            assert(RULE_IDS@[11]@ == "MCP-DOS-UNBOUNDED"@);
            assert(text::strs(DOS_UNBOUNDED_CONTROLS@) =~= seq!["CWE-400"@, "CWE-770"@, "OWASP-MCP-A5"@, "MAESTRO-L6"@]);
        },
        Rule::DepsUnpinned => {
            assert(RULE_IDS@[12]@ == "MCP-DEPS-UNPINNED"@);
            assert(text::strs(DEPS_UNPINNED_CONTROLS@) =~= seq!["CWE-1104"@, "CWE-829"@, "OWASP-MCP-A6"@, "MAESTRO-L3"@, "MCP-Spec-supply-chain"@]);
        },
        Rule::BindNoAuth => {
            assert(RULE_IDS@[13]@ == "MCP-BIND-NO-AUTH"@);
            assert(text::strs(BIND_NO_AUTH_CONTROLS@) =~= seq!["CWE-668"@, "CWE-306"@, "OWASP-MCP-A6"@, "MAESTRO-L4"@]);
        },
        Rule::BindAllInterfaces => {
            assert(RULE_IDS@[14]@ == "MCP-BIND-ALL-INTERFACES"@);
            assert(text::strs(BIND_ALL_INTERFACES_CONTROLS@) =~= seq!["CWE-668"@, "OWASP-MCP-A6"@, "MAESTRO-L4"@]);
        },
        Rule::CorsWildcard => {
            assert(RULE_IDS@[15]@ == "MCP-CORS-WILDCARD"@);
            assert(text::strs(CORS_WILDCARD_CONTROLS@) =~= seq!["CWE-942"@, "CWE-346"@, "OWASP-MCP-A4"@, "MAESTRO-L6"@]);
        },
    }
}

proof fn lemma_rule_runs(r: Rule)
    ensures
        0 <= catalog::number(r) < 16,
        ALL_RULES@.len() == 16,
        ALL_RULES@[catalog::number(r)] == r,
{
}

proof fn lemma_finding_is_reported(r: Rule, m: ModelFacts, n: int, f: FindingFacts)
    requires
        catalog::number(r) < n <= 16,
        rules::findings_of(r, m).contains(f),
    ensures
        rules::pack_findings(ALL_RULES@, m, n).contains(f),
    decreases n,
{
    lemma_rule_runs(r);
    let before = rules::pack_findings(ALL_RULES@, m, n - 1);
    let own = rules::findings_of(ALL_RULES@[n - 1], m);
    let now = rules::pack_findings(ALL_RULES@, m, n);
    assert(now == before + own);
    if catalog::number(r) == n - 1 {
        let q = choose|q: int| 0 <= q < own.len() && own[q] == f;
        assert(now[before.len() + q] == f);
    } else {
        lemma_finding_is_reported(r, m, n - 1, f);
        let q = choose|q: int| 0 <= q < before.len() && before[q] == f;
        assert(now[q] == f);
    }
}

proof fn lemma_report_is_found(m: ModelFacts, n: int, i: int)
    requires
        0 <= n <= 16,
        0 <= i < rules::pack_findings(ALL_RULES@, m, n).len(),
    ensures
        exists|r: Rule| #[trigger] rules::findings_of(r, m).contains(rules::pack_findings(ALL_RULES@, m, n)[i]),
    decreases n,
{
    assert(ALL_RULES@.len() == 16);
    if n > 0 {
        let before = rules::pack_findings(ALL_RULES@, m, n - 1);
        let own = rules::findings_of(ALL_RULES@[n - 1], m);
        let now = rules::pack_findings(ALL_RULES@, m, n);
        assert(now == before + own);
        if i < before.len() {
            lemma_report_is_found(m, n - 1, i);
            assert(now[i] == before[i]);
        } else {
            assert(own[i - before.len()] == now[i]);
            assert(rules::findings_of(ALL_RULES@[n - 1], m).contains(now[i]));
        }
    }
}

proof fn lemma_tool_is_reported(r: Rule, es: Seq<EntityFacts>, k: int, n: int)
    requires
        0 <= k < n <= es.len(),
        model::of_kind(es[k], "tool"@),
        rules::hits_tool(r, es[k]),
    ensures
        rules::tool_findings(r, es, n).contains(rules::tool_finding(r, es[k])),
    decreases n,
{
    let before = rules::tool_findings(r, es, n - 1);
    let now = rules::tool_findings(r, es, n);
    let f = rules::tool_finding(r, es[k]);
    if k == n - 1 {
        assert(now[before.len() as int] == f);
    } else {
        lemma_tool_is_reported(r, es, k, n - 1);
        let q = choose|q: int| 0 <= q < before.len() && before[q] == f;
        assert(now[q] == f);
    }
}

proof fn lemma_reported_tool(r: Rule, es: Seq<EntityFacts>, n: int, i: int)
    requires
        0 <= n <= es.len(),
        0 <= i < rules::tool_findings(r, es, n).len(),
    ensures
        exists|k: int|
            0 <= k < es.len() && model::of_kind(#[trigger] es[k], "tool"@) && rules::hits_tool(r, es[k]) && rules::tool_findings(r, es, n)[i]
                == rules::tool_finding(r, es[k]),
    decreases n,
{
    if n > 0 {
        let before = rules::tool_findings(r, es, n - 1);
        if i < before.len() {
            lemma_reported_tool(r, es, n - 1, i);
            assert(rules::tool_findings(r, es, n)[i] == before[i]);
        } else {
            assert(rules::tool_findings(r, es, n)[i] == rules::tool_finding(r, es[n - 1]));
        }
    }
}

/// Every tool that carries a fact is reported, by the rule that is about this fact and with the
/// severity of that rule. The tool is the evidence.
#[verifier::rlimit(60)]
pub proof fn law_tools_with_facts_are_reported(m: ModelFacts, k: int)
    requires
        0 <= k < m.entities.len(),
        model::text_value(m.entities[k], "mcp_kind"@) == Some("tool"@),
    ensures
        ({
            let t = m.entities[k];
            let fs = rules::pack_findings(ALL_RULES@, m, 16);
            &&& model::is_set(t, "desc_injection"@) ==> (exists|i: int| 0 <= i < fs.len() && (#[trigger] fs[i]).rule_id == "MCP-TOOL-DESCRIPTION-INJECTION"@ && fs[i].severity == Severity::High && fs[i].evidence == seq![t.id])
            &&& model::is_set(t, "desc_hidden_unicode"@) ==> (exists|i: int| 0 <= i < fs.len() && (#[trigger] fs[i]).rule_id == "MCP-TOOL-DESCRIPTION-INJECTION"@ && fs[i].severity == Severity::High && fs[i].evidence == seq![t.id])
            &&& model::is_set(t, "name_collision"@) ==> (exists|i: int| 0 <= i < fs.len() && (#[trigger] fs[i]).rule_id == "MCP-TOOL-SHADOWING"@ && fs[i].severity == Severity::Medium && fs[i].evidence == seq![t.id])
            &&& model::is_set(t, "ssrf_url_from_input"@) ==> (exists|i: int| 0 <= i < fs.len() && (#[trigger] fs[i]).rule_id == "MCP-SSRF-USER-CONTROLLED-URL"@ && fs[i].severity == Severity::High && fs[i].evidence == seq![t.id])
            &&& model::is_set(t, "fs_path_from_input"@) ==> (exists|i: int| 0 <= i < fs.len() && (#[trigger] fs[i]).rule_id == "MCP-FILESYSTEM-UNSCOPED"@ && fs[i].severity == Severity::High && fs[i].evidence == seq![t.id])
            &&& model::is_set(t, "shell_exec_from_input"@) ==> (exists|i: int| 0 <= i < fs.len() && (#[trigger] fs[i]).rule_id == "MCP-SHELL-EXEC-SURFACE"@ && fs[i].severity == Severity::High && fs[i].evidence == seq![t.id])
            &&& model::is_set(t, "sql_from_input"@) ==> (exists|i: int| 0 <= i < fs.len() && (#[trigger] fs[i]).rule_id == "MCP-SQL-INJECTION"@ && fs[i].severity == Severity::High && fs[i].evidence == seq![t.id])
            &&& model::is_set(t, "insecure_deser"@) ==> (exists|i: int| 0 <= i < fs.len() && (#[trigger] fs[i]).rule_id == "MCP-INSECURE-DESERIALIZATION"@ && fs[i].severity == Severity::High && fs[i].evidence == seq![t.id])
            &&& model::is_set(t, "unbounded_limit"@) ==> (exists|i: int| 0 <= i < fs.len() && (#[trigger] fs[i]).rule_id == "MCP-INPUT-UNVALIDATED"@ && fs[i].severity == Severity::Medium && fs[i].evidence == seq![t.id])
            &&& model::is_set(t, "redos_regex"@) ==> (exists|i: int| 0 <= i < fs.len() && (#[trigger] fs[i]).rule_id == "MCP-INPUT-UNVALIDATED"@ && fs[i].severity == Severity::Medium && fs[i].evidence == seq![t.id])
            &&& model::is_set(t, "no_timeout_bound"@) ==> (exists|i: int| 0 <= i < fs.len() && (#[trigger] fs[i]).rule_id == "MCP-DOS-UNBOUNDED"@ && fs[i].severity == Severity::Low && fs[i].evidence == seq![t.id])
        }),
{
    let t = m.entities[k];
    let fs = rules::pack_findings(ALL_RULES@, m, 16);
    if model::is_set(t, "desc_injection"@) || model::is_set(t, "desc_hidden_unicode"@) {
        lemma_rule_runs(Rule::ToolDescriptionInjection);
        law_rules_are_catalogued(Rule::ToolDescriptionInjection);
        lemma_tool_is_reported(Rule::ToolDescriptionInjection, m.entities, k, m.entities.len() as int);
        lemma_finding_is_reported(Rule::ToolDescriptionInjection, m, 16, rules::tool_finding(Rule::ToolDescriptionInjection, t));
        let i = choose|i: int| 0 <= i < fs.len() && fs[i] == rules::tool_finding(Rule::ToolDescriptionInjection, t);
        assert(fs[i].rule_id == "MCP-TOOL-DESCRIPTION-INJECTION"@ && fs[i].evidence == seq![t.id]);
    }
    if model::is_set(t, "name_collision"@) {
        lemma_rule_runs(Rule::ToolShadowing);
        law_rules_are_catalogued(Rule::ToolShadowing);
        lemma_tool_is_reported(Rule::ToolShadowing, m.entities, k, m.entities.len() as int);
        lemma_finding_is_reported(Rule::ToolShadowing, m, 16, rules::tool_finding(Rule::ToolShadowing, t));
        let i = choose|i: int| 0 <= i < fs.len() && fs[i] == rules::tool_finding(Rule::ToolShadowing, t);
        assert(fs[i].rule_id == "MCP-TOOL-SHADOWING"@ && fs[i].evidence == seq![t.id]);
    }
    if model::is_set(t, "ssrf_url_from_input"@) {
        lemma_rule_runs(Rule::SsrfUserControlledUrl);
        law_rules_are_catalogued(Rule::SsrfUserControlledUrl);
        lemma_tool_is_reported(Rule::SsrfUserControlledUrl, m.entities, k, m.entities.len() as int);
        lemma_finding_is_reported(Rule::SsrfUserControlledUrl, m, 16, rules::tool_finding(Rule::SsrfUserControlledUrl, t));
        let i = choose|i: int| 0 <= i < fs.len() && fs[i] == rules::tool_finding(Rule::SsrfUserControlledUrl, t);
        assert(fs[i].rule_id == "MCP-SSRF-USER-CONTROLLED-URL"@ && fs[i].evidence == seq![t.id]);
    }
    if model::is_set(t, "fs_path_from_input"@) {
        lemma_rule_runs(Rule::FilesystemUnscoped);
        law_rules_are_catalogued(Rule::FilesystemUnscoped);
        lemma_tool_is_reported(Rule::FilesystemUnscoped, m.entities, k, m.entities.len() as int);
        lemma_finding_is_reported(Rule::FilesystemUnscoped, m, 16, rules::tool_finding(Rule::FilesystemUnscoped, t));
        let i = choose|i: int| 0 <= i < fs.len() && fs[i] == rules::tool_finding(Rule::FilesystemUnscoped, t);
        assert(fs[i].rule_id == "MCP-FILESYSTEM-UNSCOPED"@ && fs[i].evidence == seq![t.id]);
    }
    if model::is_set(t, "shell_exec_from_input"@) {
        lemma_rule_runs(Rule::ShellExecSurface);
        law_rules_are_catalogued(Rule::ShellExecSurface);
        lemma_tool_is_reported(Rule::ShellExecSurface, m.entities, k, m.entities.len() as int);
        lemma_finding_is_reported(Rule::ShellExecSurface, m, 16, rules::tool_finding(Rule::ShellExecSurface, t));
        let i = choose|i: int| 0 <= i < fs.len() && fs[i] == rules::tool_finding(Rule::ShellExecSurface, t);
        assert(fs[i].rule_id == "MCP-SHELL-EXEC-SURFACE"@ && fs[i].evidence == seq![t.id]);
    }
    if model::is_set(t, "sql_from_input"@) {
        lemma_rule_runs(Rule::SqlInjection);
        law_rules_are_catalogued(Rule::SqlInjection);
        lemma_tool_is_reported(Rule::SqlInjection, m.entities, k, m.entities.len() as int);
        lemma_finding_is_reported(Rule::SqlInjection, m, 16, rules::tool_finding(Rule::SqlInjection, t));
        let i = choose|i: int| 0 <= i < fs.len() && fs[i] == rules::tool_finding(Rule::SqlInjection, t);
        assert(fs[i].rule_id == "MCP-SQL-INJECTION"@ && fs[i].evidence == seq![t.id]);
    }
    if model::is_set(t, "insecure_deser"@) {
        lemma_rule_runs(Rule::InsecureDeserialization);
        law_rules_are_catalogued(Rule::InsecureDeserialization);
        lemma_tool_is_reported(Rule::InsecureDeserialization, m.entities, k, m.entities.len() as int);
        lemma_finding_is_reported(Rule::InsecureDeserialization, m, 16, rules::tool_finding(Rule::InsecureDeserialization, t));
        let i = choose|i: int| 0 <= i < fs.len() && fs[i] == rules::tool_finding(Rule::InsecureDeserialization, t);
        assert(fs[i].rule_id == "MCP-INSECURE-DESERIALIZATION"@ && fs[i].evidence == seq![t.id]);
    }
    if model::is_set(t, "unbounded_limit"@) || model::is_set(t, "redos_regex"@) {
        lemma_rule_runs(Rule::InputUnvalidated);
        law_rules_are_catalogued(Rule::InputUnvalidated);
        lemma_tool_is_reported(Rule::InputUnvalidated, m.entities, k, m.entities.len() as int);
        lemma_finding_is_reported(Rule::InputUnvalidated, m, 16, rules::tool_finding(Rule::InputUnvalidated, t));
        let i = choose|i: int| 0 <= i < fs.len() && fs[i] == rules::tool_finding(Rule::InputUnvalidated, t);
        assert(fs[i].rule_id == "MCP-INPUT-UNVALIDATED"@ && fs[i].evidence == seq![t.id]);
    }
    if model::is_set(t, "no_timeout_bound"@) {
        lemma_rule_runs(Rule::DosUnbounded);
        law_rules_are_catalogued(Rule::DosUnbounded);
        lemma_tool_is_reported(Rule::DosUnbounded, m.entities, k, m.entities.len() as int);
        lemma_finding_is_reported(Rule::DosUnbounded, m, 16, rules::tool_finding(Rule::DosUnbounded, t));
        let i = choose|i: int| 0 <= i < fs.len() && fs[i] == rules::tool_finding(Rule::DosUnbounded, t);
        assert(fs[i].rule_id == "MCP-DOS-UNBOUNDED"@ && fs[i].evidence == seq![t.id]);
    }
}

/// Every signal that the server carries is reported, by the rule that is about it. An open interface is
/// graver where callers are not checked, and it is one finding or the other.
#[verifier::rlimit(60)]
pub proof fn law_signals_of_the_server_are_reported(m: ModelFacts, s: EntityFacts)
    requires
        model::server_of(m) == Some(s),
    ensures
        ({
            let fs = rules::pack_findings(ALL_RULES@, m, 16);
            &&& model::is_set(s, "secret_source_to_egress"@) ==> (exists|i: int| 0 <= i < fs.len() && (#[trigger] fs[i]).rule_id == "MCP-CREDENTIAL-EXFILTRATION"@ && fs[i].severity == Severity::Critical && fs[i].evidence.len() > 0 && fs[i].evidence[0] == s.id)
            &&& model::is_set(s, "secret_in_config"@) ==> (exists|i: int| 0 <= i < fs.len() && (#[trigger] fs[i]).rule_id == "MCP-SECRET-IN-CONFIG"@ && fs[i].severity == Severity::High && fs[i].evidence.len() > 0 && fs[i].evidence[0] == s.id)
            &&& model::is_set(s, "tls_verify_disabled"@) ==> (exists|i: int| 0 <= i < fs.len() && (#[trigger] fs[i]).rule_id == "MCP-TLS-VERIFICATION-DISABLED"@ && fs[i].severity == Severity::Medium && fs[i].evidence.len() > 0 && fs[i].evidence[0] == s.id)
            &&& model::is_set(s, "binds_all_interfaces"@) && !model::is_set(s, "has_auth"@) ==> (exists|i: int| 0 <= i < fs.len() && (#[trigger] fs[i]).rule_id == "MCP-BIND-NO-AUTH"@ && fs[i].severity == Severity::High && fs[i].evidence.len() > 0 && fs[i].evidence[0] == s.id)
            &&& model::is_set(s, "binds_all_interfaces"@) && model::is_set(s, "has_auth"@) ==> (exists|i: int| 0 <= i < fs.len() && (#[trigger] fs[i]).rule_id == "MCP-BIND-ALL-INTERFACES"@ && fs[i].severity == Severity::Medium && fs[i].evidence.len() > 0 && fs[i].evidence[0] == s.id)
            &&& model::is_set(s, "cors_wildcard"@) ==> (exists|i: int| 0 <= i < fs.len() && (#[trigger] fs[i]).rule_id == "MCP-CORS-WILDCARD"@ && fs[i].severity == Severity::Medium && fs[i].evidence.len() > 0 && fs[i].evidence[0] == s.id)
        }),
{
    let fs = rules::pack_findings(ALL_RULES@, m, 16);
    if model::is_set(s, "secret_source_to_egress"@) {
        lemma_rule_runs(Rule::CredentialExfiltration);
        law_rules_are_catalogued(Rule::CredentialExfiltration);
        let f = rules::findings_of(Rule::CredentialExfiltration, m)[0];
        assert(rules::findings_of(Rule::CredentialExfiltration, m).contains(f));
        lemma_finding_is_reported(Rule::CredentialExfiltration, m, 16, f);
        let i = choose|i: int| 0 <= i < fs.len() && fs[i] == f;
        assert(fs[i].rule_id == "MCP-CREDENTIAL-EXFILTRATION"@ && fs[i].evidence[0] == s.id);
    }
    if model::is_set(s, "secret_in_config"@) {
        lemma_rule_runs(Rule::SecretInConfig);
        law_rules_are_catalogued(Rule::SecretInConfig);
        let f = rules::findings_of(Rule::SecretInConfig, m)[0];
        assert(rules::findings_of(Rule::SecretInConfig, m).contains(f));
        lemma_finding_is_reported(Rule::SecretInConfig, m, 16, f);
        let i = choose|i: int| 0 <= i < fs.len() && fs[i] == f;
        assert(fs[i].rule_id == "MCP-SECRET-IN-CONFIG"@ && fs[i].evidence[0] == s.id);
    }
    if model::is_set(s, "tls_verify_disabled"@) {
        lemma_rule_runs(Rule::TlsVerificationDisabled);
        law_rules_are_catalogued(Rule::TlsVerificationDisabled);
        let f = rules::findings_of(Rule::TlsVerificationDisabled, m)[0];
        assert(rules::findings_of(Rule::TlsVerificationDisabled, m).contains(f));
        lemma_finding_is_reported(Rule::TlsVerificationDisabled, m, 16, f);
        let i = choose|i: int| 0 <= i < fs.len() && fs[i] == f;
        assert(fs[i].rule_id == "MCP-TLS-VERIFICATION-DISABLED"@ && fs[i].evidence[0] == s.id);
    }
    if model::is_set(s, "binds_all_interfaces"@) && !model::is_set(s, "has_auth"@) {
        lemma_rule_runs(Rule::BindNoAuth);
        law_rules_are_catalogued(Rule::BindNoAuth);
        let f = rules::findings_of(Rule::BindNoAuth, m)[0];
        assert(rules::findings_of(Rule::BindNoAuth, m).contains(f));
        lemma_finding_is_reported(Rule::BindNoAuth, m, 16, f);
        let i = choose|i: int| 0 <= i < fs.len() && fs[i] == f;
        assert(fs[i].rule_id == "MCP-BIND-NO-AUTH"@ && fs[i].evidence[0] == s.id);
    }
    if model::is_set(s, "binds_all_interfaces"@) && model::is_set(s, "has_auth"@) {
        lemma_rule_runs(Rule::BindAllInterfaces);
        law_rules_are_catalogued(Rule::BindAllInterfaces);
        let f = rules::findings_of(Rule::BindAllInterfaces, m)[0];
        assert(rules::findings_of(Rule::BindAllInterfaces, m).contains(f));
        lemma_finding_is_reported(Rule::BindAllInterfaces, m, 16, f);
        let i = choose|i: int| 0 <= i < fs.len() && fs[i] == f;
        assert(fs[i].rule_id == "MCP-BIND-ALL-INTERFACES"@ && fs[i].evidence[0] == s.id);
    }
    if model::is_set(s, "cors_wildcard"@) {
        lemma_rule_runs(Rule::CorsWildcard);
        law_rules_are_catalogued(Rule::CorsWildcard);
        let f = rules::findings_of(Rule::CorsWildcard, m)[0];
        assert(rules::findings_of(Rule::CorsWildcard, m).contains(f));
        lemma_finding_is_reported(Rule::CorsWildcard, m, 16, f);
        let i = choose|i: int| 0 <= i < fs.len() && fs[i] == f;
        assert(fs[i].rule_id == "MCP-CORS-WILDCARD"@ && fs[i].evidence[0] == s.id);
    }
}

/// A finding is about what it cites: one of a rule about tools cites one tool that carries the fact of
/// the rule, and one of another rule about the server comes with the signal of that rule.
#[verifier::rlimit(60)]
pub proof fn law_findings_are_about_facts(m: ModelFacts, i: int)
    requires
        0 <= i < rules::pack_findings(ALL_RULES@, m, 16).len(),
    ensures
        ({
            let f = rules::pack_findings(ALL_RULES@, m, 16)[i];
            &&& f.rule_id == "MCP-TOOL-DESCRIPTION-INJECTION"@ ==> exists|k: int|
                0 <= k < m.entities.len() && model::text_value(#[trigger] m.entities[k], "mcp_kind"@) == Some("tool"@) && (model::is_set(m.entities[k], "desc_injection"@) || model::is_set(m.entities[k], "desc_hidden_unicode"@))
                    && f.evidence == seq![m.entities[k].id]
            &&& f.rule_id == "MCP-TOOL-SHADOWING"@ ==> exists|k: int|
                0 <= k < m.entities.len() && model::text_value(#[trigger] m.entities[k], "mcp_kind"@) == Some("tool"@) && (model::is_set(m.entities[k], "name_collision"@))
                    && f.evidence == seq![m.entities[k].id]
            &&& f.rule_id == "MCP-SSRF-USER-CONTROLLED-URL"@ ==> exists|k: int|
                0 <= k < m.entities.len() && model::text_value(#[trigger] m.entities[k], "mcp_kind"@) == Some("tool"@) && (model::is_set(m.entities[k], "ssrf_url_from_input"@))
                    && f.evidence == seq![m.entities[k].id]
            &&& f.rule_id == "MCP-FILESYSTEM-UNSCOPED"@ ==> exists|k: int|
                0 <= k < m.entities.len() && model::text_value(#[trigger] m.entities[k], "mcp_kind"@) == Some("tool"@) && (model::is_set(m.entities[k], "fs_path_from_input"@))
                    && f.evidence == seq![m.entities[k].id]
            &&& f.rule_id == "MCP-SHELL-EXEC-SURFACE"@ ==> exists|k: int|
                0 <= k < m.entities.len() && model::text_value(#[trigger] m.entities[k], "mcp_kind"@) == Some("tool"@) && (model::is_set(m.entities[k], "shell_exec_from_input"@))
                    && f.evidence == seq![m.entities[k].id]
            &&& f.rule_id == "MCP-SQL-INJECTION"@ ==> exists|k: int|
                0 <= k < m.entities.len() && model::text_value(#[trigger] m.entities[k], "mcp_kind"@) == Some("tool"@) && (model::is_set(m.entities[k], "sql_from_input"@))
                    && f.evidence == seq![m.entities[k].id]
            &&& f.rule_id == "MCP-INSECURE-DESERIALIZATION"@ ==> exists|k: int|
                0 <= k < m.entities.len() && model::text_value(#[trigger] m.entities[k], "mcp_kind"@) == Some("tool"@) && (model::is_set(m.entities[k], "insecure_deser"@))
                    && f.evidence == seq![m.entities[k].id]
            &&& f.rule_id == "MCP-INPUT-UNVALIDATED"@ ==> exists|k: int|
                0 <= k < m.entities.len() && model::text_value(#[trigger] m.entities[k], "mcp_kind"@) == Some("tool"@) && (model::is_set(m.entities[k], "unbounded_limit"@) || model::is_set(m.entities[k], "redos_regex"@))
                    && f.evidence == seq![m.entities[k].id]
            &&& f.rule_id == "MCP-DOS-UNBOUNDED"@ ==> exists|k: int|
                0 <= k < m.entities.len() && model::text_value(#[trigger] m.entities[k], "mcp_kind"@) == Some("tool"@) && (model::is_set(m.entities[k], "no_timeout_bound"@))
                    && f.evidence == seq![m.entities[k].id]
            &&& f.rule_id == "MCP-CREDENTIAL-EXFILTRATION"@ ==> (model::server_of(m) matches Some(s) && model::is_set(s, "secret_source_to_egress"@))
            &&& f.rule_id == "MCP-SECRET-IN-CONFIG"@ ==> (model::server_of(m) matches Some(s) && model::is_set(s, "secret_in_config"@))
            &&& f.rule_id == "MCP-TLS-VERIFICATION-DISABLED"@ ==> (model::server_of(m) matches Some(s) && model::is_set(s, "tls_verify_disabled"@))
            &&& f.rule_id == "MCP-BIND-NO-AUTH"@ ==> (model::server_of(m) matches Some(s) && model::is_set(s, "binds_all_interfaces"@) && !model::is_set(s, "has_auth"@))
            &&& f.rule_id == "MCP-BIND-ALL-INTERFACES"@ ==> (model::server_of(m) matches Some(s) && model::is_set(s, "binds_all_interfaces"@) && model::is_set(s, "has_auth"@))
            &&& f.rule_id == "MCP-CORS-WILDCARD"@ ==> (model::server_of(m) matches Some(s) && model::is_set(s, "cors_wildcard"@))
            &&& f.rule_id == "MCP-DEPS-UNPINNED"@ ==> rules::dep_findings(m).contains(f)
            &&& f.rule_id == "MCP-TOOL-DESCRIPTION-INJECTION"@ || f.rule_id == "MCP-TOOL-SHADOWING"@ || f.rule_id == "MCP-CREDENTIAL-EXFILTRATION"@ || f.rule_id == "MCP-SECRET-IN-CONFIG"@ || f.rule_id == "MCP-SSRF-USER-CONTROLLED-URL"@ || f.rule_id == "MCP-TLS-VERIFICATION-DISABLED"@ || f.rule_id == "MCP-FILESYSTEM-UNSCOPED"@ || f.rule_id == "MCP-SHELL-EXEC-SURFACE"@ || f.rule_id == "MCP-SQL-INJECTION"@ || f.rule_id == "MCP-INSECURE-DESERIALIZATION"@ || f.rule_id == "MCP-INPUT-UNVALIDATED"@ || f.rule_id == "MCP-DOS-UNBOUNDED"@ || f.rule_id == "MCP-DEPS-UNPINNED"@ || f.rule_id == "MCP-BIND-NO-AUTH"@ || f.rule_id == "MCP-BIND-ALL-INTERFACES"@ || f.rule_id == "MCP-CORS-WILDCARD"@
        }),
{
    let f = rules::pack_findings(ALL_RULES@, m, 16)[i];
    assert(f.rule_id == "MCP-TOOL-DESCRIPTION-INJECTION"@ ==> exists|k: int|
        0 <= k < m.entities.len() && model::text_value(#[trigger] m.entities[k], "mcp_kind"@) == Some("tool"@) && (model::is_set(m.entities[k], "desc_injection"@) || model::is_set(m.entities[k], "desc_hidden_unicode"@)) && f.evidence
            == seq![m.entities[k].id]) by {
        if f.rule_id == "MCP-TOOL-DESCRIPTION-INJECTION"@ {
            lemma_ids();
            lemma_about(m, i, Rule::ToolDescriptionInjection);
        }
    }
    assert(f.rule_id == "MCP-TOOL-SHADOWING"@ ==> exists|k: int|
        0 <= k < m.entities.len() && model::text_value(#[trigger] m.entities[k], "mcp_kind"@) == Some("tool"@) && (model::is_set(m.entities[k], "name_collision"@)) && f.evidence
            == seq![m.entities[k].id]) by {
        if f.rule_id == "MCP-TOOL-SHADOWING"@ {
            lemma_ids();
            lemma_about(m, i, Rule::ToolShadowing);
        }
    }
    assert(f.rule_id == "MCP-SSRF-USER-CONTROLLED-URL"@ ==> exists|k: int|
        0 <= k < m.entities.len() && model::text_value(#[trigger] m.entities[k], "mcp_kind"@) == Some("tool"@) && (model::is_set(m.entities[k], "ssrf_url_from_input"@)) && f.evidence
            == seq![m.entities[k].id]) by {
        if f.rule_id == "MCP-SSRF-USER-CONTROLLED-URL"@ {
            lemma_ids();
            lemma_about(m, i, Rule::SsrfUserControlledUrl);
        }
    }
    assert(f.rule_id == "MCP-FILESYSTEM-UNSCOPED"@ ==> exists|k: int|
        0 <= k < m.entities.len() && model::text_value(#[trigger] m.entities[k], "mcp_kind"@) == Some("tool"@) && (model::is_set(m.entities[k], "fs_path_from_input"@)) && f.evidence
            == seq![m.entities[k].id]) by {
        if f.rule_id == "MCP-FILESYSTEM-UNSCOPED"@ {
            lemma_ids();
            lemma_about(m, i, Rule::FilesystemUnscoped);
        }
    }
    assert(f.rule_id == "MCP-SHELL-EXEC-SURFACE"@ ==> exists|k: int|
        0 <= k < m.entities.len() && model::text_value(#[trigger] m.entities[k], "mcp_kind"@) == Some("tool"@) && (model::is_set(m.entities[k], "shell_exec_from_input"@)) && f.evidence
            == seq![m.entities[k].id]) by {
        if f.rule_id == "MCP-SHELL-EXEC-SURFACE"@ {
            lemma_ids();
            lemma_about(m, i, Rule::ShellExecSurface);
        }
    }
    assert(f.rule_id == "MCP-SQL-INJECTION"@ ==> exists|k: int|
        0 <= k < m.entities.len() && model::text_value(#[trigger] m.entities[k], "mcp_kind"@) == Some("tool"@) && (model::is_set(m.entities[k], "sql_from_input"@)) && f.evidence
            == seq![m.entities[k].id]) by {
        if f.rule_id == "MCP-SQL-INJECTION"@ {
            lemma_ids();
            lemma_about(m, i, Rule::SqlInjection);
        }
    }
    assert(f.rule_id == "MCP-INSECURE-DESERIALIZATION"@ ==> exists|k: int|
        0 <= k < m.entities.len() && model::text_value(#[trigger] m.entities[k], "mcp_kind"@) == Some("tool"@) && (model::is_set(m.entities[k], "insecure_deser"@)) && f.evidence
            == seq![m.entities[k].id]) by {
        if f.rule_id == "MCP-INSECURE-DESERIALIZATION"@ {
            lemma_ids();
            lemma_about(m, i, Rule::InsecureDeserialization);
        }
    }
    assert(f.rule_id == "MCP-INPUT-UNVALIDATED"@ ==> exists|k: int|
        0 <= k < m.entities.len() && model::text_value(#[trigger] m.entities[k], "mcp_kind"@) == Some("tool"@) && (model::is_set(m.entities[k], "unbounded_limit"@) || model::is_set(m.entities[k], "redos_regex"@)) && f.evidence
            == seq![m.entities[k].id]) by {
        if f.rule_id == "MCP-INPUT-UNVALIDATED"@ {
            lemma_ids();
            lemma_about(m, i, Rule::InputUnvalidated);
        }
    }
    assert(f.rule_id == "MCP-DOS-UNBOUNDED"@ ==> exists|k: int|
        0 <= k < m.entities.len() && model::text_value(#[trigger] m.entities[k], "mcp_kind"@) == Some("tool"@) && (model::is_set(m.entities[k], "no_timeout_bound"@)) && f.evidence
            == seq![m.entities[k].id]) by {
        if f.rule_id == "MCP-DOS-UNBOUNDED"@ {
            lemma_ids();
            lemma_about(m, i, Rule::DosUnbounded);
        }
    }
    assert(f.rule_id == "MCP-CREDENTIAL-EXFILTRATION"@ ==> (model::server_of(m) matches Some(s) && model::is_set(s, "secret_source_to_egress"@))) by {
        if f.rule_id == "MCP-CREDENTIAL-EXFILTRATION"@ {
            lemma_ids();
            lemma_about(m, i, Rule::CredentialExfiltration);
        }
    }
    assert(f.rule_id == "MCP-SECRET-IN-CONFIG"@ ==> (model::server_of(m) matches Some(s) && model::is_set(s, "secret_in_config"@))) by {
        if f.rule_id == "MCP-SECRET-IN-CONFIG"@ {
            lemma_ids();
            lemma_about(m, i, Rule::SecretInConfig);
        }
    }
    assert(f.rule_id == "MCP-TLS-VERIFICATION-DISABLED"@ ==> (model::server_of(m) matches Some(s) && model::is_set(s, "tls_verify_disabled"@))) by {
        if f.rule_id == "MCP-TLS-VERIFICATION-DISABLED"@ {
            lemma_ids();
            lemma_about(m, i, Rule::TlsVerificationDisabled);
        }
    }
    assert(f.rule_id == "MCP-BIND-NO-AUTH"@ ==> (model::server_of(m) matches Some(s) && model::is_set(s, "binds_all_interfaces"@) && !model::is_set(s, "has_auth"@))) by {
        if f.rule_id == "MCP-BIND-NO-AUTH"@ {
            lemma_ids();
            lemma_about(m, i, Rule::BindNoAuth);
        }
    }
    assert(f.rule_id == "MCP-BIND-ALL-INTERFACES"@ ==> (model::server_of(m) matches Some(s) && model::is_set(s, "binds_all_interfaces"@) && model::is_set(s, "has_auth"@))) by {
        if f.rule_id == "MCP-BIND-ALL-INTERFACES"@ {
            lemma_ids();
            lemma_about(m, i, Rule::BindAllInterfaces);
        }
    }
    assert(f.rule_id == "MCP-CORS-WILDCARD"@ ==> (model::server_of(m) matches Some(s) && model::is_set(s, "cors_wildcard"@))) by {
        if f.rule_id == "MCP-CORS-WILDCARD"@ {
            lemma_ids();
            lemma_about(m, i, Rule::CorsWildcard);
        }
    }
    assert(f.rule_id == "MCP-DEPS-UNPINNED"@ ==> rules::dep_findings(m).contains(f)) by {
        if f.rule_id == "MCP-DEPS-UNPINNED"@ {
            lemma_ids();
            lemma_about(m, i, Rule::DepsUnpinned);
        }
    }
    assert(f.rule_id == "MCP-TOOL-DESCRIPTION-INJECTION"@ || f.rule_id == "MCP-TOOL-SHADOWING"@ || f.rule_id == "MCP-CREDENTIAL-EXFILTRATION"@ || f.rule_id == "MCP-SECRET-IN-CONFIG"@ || f.rule_id == "MCP-SSRF-USER-CONTROLLED-URL"@ || f.rule_id == "MCP-TLS-VERIFICATION-DISABLED"@ || f.rule_id == "MCP-FILESYSTEM-UNSCOPED"@ || f.rule_id == "MCP-SHELL-EXEC-SURFACE"@ || f.rule_id == "MCP-SQL-INJECTION"@ || f.rule_id == "MCP-INSECURE-DESERIALIZATION"@ || f.rule_id == "MCP-INPUT-UNVALIDATED"@ || f.rule_id == "MCP-DOS-UNBOUNDED"@ || f.rule_id == "MCP-DEPS-UNPINNED"@ || f.rule_id == "MCP-BIND-NO-AUTH"@ || f.rule_id == "MCP-BIND-ALL-INTERFACES"@ || f.rule_id == "MCP-CORS-WILDCARD"@) by {
        lemma_finding_rule(m, i);
        lemma_ids();
        let r = choose|r: Rule| f.rule_id == #[trigger] catalog::rule_id(r);
        match r {
            Rule::ToolDescriptionInjection => {},
            Rule::ToolShadowing => {},
            Rule::CredentialExfiltration => {},
            Rule::SecretInConfig => {},
            Rule::SsrfUserControlledUrl => {},
            Rule::TlsVerificationDisabled => {},
            Rule::FilesystemUnscoped => {},
            Rule::ShellExecSurface => {},
            Rule::SqlInjection => {},
            Rule::InsecureDeserialization => {},
            Rule::InputUnvalidated => {},
            Rule::DosUnbounded => {},
            Rule::DepsUnpinned => {},
            Rule::BindNoAuth => {},
            Rule::BindAllInterfaces => {},
            Rule::CorsWildcard => {},
        }
    }
}

proof fn lemma_ids()
    ensures
        catalog::rule_id(Rule::ToolDescriptionInjection) == "MCP-TOOL-DESCRIPTION-INJECTION"@,
        catalog::rule_id(Rule::ToolShadowing) == "MCP-TOOL-SHADOWING"@,
        catalog::rule_id(Rule::CredentialExfiltration) == "MCP-CREDENTIAL-EXFILTRATION"@,
        catalog::rule_id(Rule::SecretInConfig) == "MCP-SECRET-IN-CONFIG"@,
        catalog::rule_id(Rule::SsrfUserControlledUrl) == "MCP-SSRF-USER-CONTROLLED-URL"@,
        catalog::rule_id(Rule::TlsVerificationDisabled) == "MCP-TLS-VERIFICATION-DISABLED"@,
        catalog::rule_id(Rule::FilesystemUnscoped) == "MCP-FILESYSTEM-UNSCOPED"@,
        catalog::rule_id(Rule::ShellExecSurface) == "MCP-SHELL-EXEC-SURFACE"@,
        catalog::rule_id(Rule::SqlInjection) == "MCP-SQL-INJECTION"@,
        catalog::rule_id(Rule::InsecureDeserialization) == "MCP-INSECURE-DESERIALIZATION"@,
        catalog::rule_id(Rule::InputUnvalidated) == "MCP-INPUT-UNVALIDATED"@,
        catalog::rule_id(Rule::DosUnbounded) == "MCP-DOS-UNBOUNDED"@,
        catalog::rule_id(Rule::DepsUnpinned) == "MCP-DEPS-UNPINNED"@,
        catalog::rule_id(Rule::BindNoAuth) == "MCP-BIND-NO-AUTH"@,
        catalog::rule_id(Rule::BindAllInterfaces) == "MCP-BIND-ALL-INTERFACES"@,
        catalog::rule_id(Rule::CorsWildcard) == "MCP-CORS-WILDCARD"@,
{
}

proof fn lemma_finding_rule(m: ModelFacts, i: int)
    requires
        0 <= i < rules::pack_findings(ALL_RULES@, m, 16).len(),
    ensures
        exists|r: Rule| rules::pack_findings(ALL_RULES@, m, 16)[i].rule_id == #[trigger] catalog::rule_id(r),
{
    let f = rules::pack_findings(ALL_RULES@, m, 16)[i];
    lemma_report_is_found(m, 16, i);
    let r = choose|r: Rule| #[trigger] rules::findings_of(r, m).contains(f);
    lemma_own_rule(r, m, f);
    assert(f.rule_id == catalog::rule_id(r));
}

proof fn lemma_own_rule(r: Rule, m: ModelFacts, f: FindingFacts)
    requires
        rules::findings_of(r, m).contains(f),
    ensures
        f.rule_id == catalog::rule_id(r),
        rules::is_tool_rule(r) ==> exists|k: int|
            0 <= k < m.entities.len() && model::of_kind(#[trigger] m.entities[k], "tool"@) && rules::hits_tool(r, m.entities[k]) && f.evidence
                == seq![m.entities[k].id],
        !rules::is_tool_rule(r) && r != Rule::DepsUnpinned ==> (model::server_of(m) matches Some(s) && rules::hits_server(r, s)),
{
    let q = choose|q: int| 0 <= q < rules::findings_of(r, m).len() && rules::findings_of(r, m)[q] == f;
    if rules::is_tool_rule(r) {
        lemma_reported_tool(r, m.entities, m.entities.len() as int, q);
    }
}

proof fn lemma_about(m: ModelFacts, i: int, r: Rule)
    requires
        0 <= i < rules::pack_findings(ALL_RULES@, m, 16).len(),
        rules::pack_findings(ALL_RULES@, m, 16)[i].rule_id == catalog::rule_id(r),
    ensures
        ({
            let f = rules::pack_findings(ALL_RULES@, m, 16)[i];
            &&& rules::findings_of(r, m).contains(f)
            &&& rules::is_tool_rule(r) ==> exists|k: int|
                0 <= k < m.entities.len() && model::of_kind(#[trigger] m.entities[k], "tool"@) && rules::hits_tool(r, m.entities[k])
                    && f.evidence == seq![m.entities[k].id]
            &&& !rules::is_tool_rule(r) && r != Rule::DepsUnpinned ==> (model::server_of(m) matches Some(s) && rules::hits_server(r, s))
        }),
{
    let f = rules::pack_findings(ALL_RULES@, m, 16)[i];
    lemma_report_is_found(m, 16, i);
    let x = choose|x: Rule| #[trigger] rules::findings_of(x, m).contains(f);
    lemma_own_rule(x, m, f);
    if x != r {
        catalog::law_rule_ids_are_distinct(x, r);
    }
    lemma_own_rule(r, m, f);
}

// --- dependencies ----------------------------------------------------------

/// Dependencies are reported where one is known to be not pinned, or where there are some and the
/// server is known to have no lockfile; and only then. The finding names the reason, and cites the
/// dependencies that are not pinned.
#[verifier::rlimit(60)]
pub proof fn law_floating_dependencies_are_reported(m: ModelFacts)
    ensures
        ({
            let floating = exists|k: int|
                0 <= k < m.entities.len() && model::text_value(#[trigger] m.entities[k], "mcp_kind"@) == Some("dependency"@) && model::value(
                    m.entities[k],
                    "pinned"@,
                ) == Some(AttrFact::Bool(false));
            let unlocked = model::server_of(m) matches Some(s) && model::value(s, "has_lockfile"@) == Some(AttrFact::Bool(false));
            let some = exists|k: int|
                0 <= k < m.entities.len() && model::text_value(#[trigger] m.entities[k], "mcp_kind"@) == Some("dependency"@);
            &&& rules::dep_findings(m).len() > 0 <==> floating || (unlocked && some)
            &&& rules::dep_findings(m).len() <= 1
            &&& rules::dep_findings(m).len() > 0 ==> {
                let f = rules::dep_findings(m)[0];
                &&& f.rule_id == "MCP-DEPS-UNPINNED"@ && f.severity == Severity::Medium
                &&& rules::pack_findings(ALL_RULES@, m, 16).contains(f)
                &&& text::contains(
                    f.message,
                    if unlocked {
                        "no committed lockfile and floating dependency ranges"@
                    } else {
                        "floating dependency ranges with no upper bound"@
                    },
                )
                &&& forall|k: int|
                    0 <= k < m.entities.len() && model::text_value(#[trigger] m.entities[k], "mcp_kind"@) == Some("dependency"@)
                        && model::value(m.entities[k], "pinned"@) == Some(AttrFact::Bool(false)) ==> f.evidence.contains(
                        m.entities[k].id,
                    )
            }
        }),
{
    let es = m.entities;
    let n = es.len() as int;
    lemma_unpinned(es, n);
    lemma_some_of_kind(es, "dependency"@, n);
    law_rules_are_catalogued(Rule::DepsUnpinned);
    lemma_rule_runs(Rule::DepsUnpinned);
    let unlocked = model::server_of(m) matches Some(s) && model::value(s, "has_lockfile"@) == Some(AttrFact::Bool(false));
    assert(rules::lacks_lockfile(m) == unlocked);
    let fs = rules::dep_findings(m);
    if fs.len() > 0 {
        let f = fs[0];
        assert(rules::findings_of(Rule::DepsUnpinned, m) == fs);
        assert(fs.contains(f));
        lemma_finding_is_reported(Rule::DepsUnpinned, m, 16, f);
        let why = if unlocked {
            NO_LOCKFILE@
        } else {
            FLOATING@
        };
        let tail = MESSAGES@[catalog::number(Rule::DepsUnpinned)]@;
        assert(f.message == "Supply-chain: "@ + why + tail);
        laws_text::law_contains_is_a_cut(f.message, why, "Supply-chain: "@, tail);
        let ids = rules::unpinned_ids(es, n);
        let head = rules::server_ids(m);
        assert forall|k: int|
            0 <= k < es.len() && model::text_value(#[trigger] es[k], "mcp_kind"@) == Some("dependency"@) && model::value(es[k], "pinned"@)
                == Some(AttrFact::Bool(false)) implies f.evidence.contains(es[k].id) by {
            assert(rules::is_unpinned(es[k]));
            let q = choose|q: int| 0 <= q < ids.len() && ids[q] == es[k].id;
            assert((head + ids)[head.len() + q] == es[k].id);
            assert(f.evidence[head.len() + q] == es[k].id);
        }
    }
}

proof fn lemma_unpinned(es: Seq<EntityFacts>, n: int)
    requires
        0 <= n <= es.len(),
    ensures
        rules::unpinned_ids(es, n).len() > 0 <==> exists|k: int|
            0 <= k < n && model::text_value(#[trigger] es[k], "mcp_kind"@) == Some("dependency"@) && model::value(es[k], "pinned"@) == Some(
                AttrFact::Bool(false),
            ),
        forall|k: int| 0 <= k < n && rules::is_unpinned(#[trigger] es[k]) ==> rules::unpinned_ids(es, n).contains(es[k].id),
    decreases n,
{
    if n > 0 {
        lemma_unpinned(es, n - 1);
        let before = rules::unpinned_ids(es, n - 1);
        let now = rules::unpinned_ids(es, n);
        assert(rules::is_unpinned(es[n - 1]) == (model::text_value(es[n - 1], "mcp_kind"@) == Some("dependency"@) && model::value(
            es[n - 1],
            "pinned"@,
        ) == Some(AttrFact::Bool(false))));
        if rules::is_unpinned(es[n - 1]) {
            assert(now[before.len() as int] == es[n - 1].id);
        }
        assert forall|k: int| 0 <= k < n && rules::is_unpinned(#[trigger] es[k]) implies now.contains(es[k].id) by {
            if k < n - 1 {
                let q = choose|q: int| 0 <= q < before.len() && before[q] == es[k].id;
                assert(now[q] == es[k].id);
            }
        }
    }
}

proof fn lemma_some_of_kind(es: Seq<EntityFacts>, kind: Seq<char>, n: int)
    requires
        0 <= n <= es.len(),
    ensures
        model::count_of(es, kind, n) > 0 <==> exists|k: int| 0 <= k < n && model::text_value(#[trigger] es[k], "mcp_kind"@) == Some(kind),
    decreases n,
{
    if n > 0 {
        lemma_some_of_kind(es, kind, n - 1);
        assert(model::of_kind(es[n - 1], kind) == (model::text_value(es[n - 1], "mcp_kind"@) == Some(kind)));
    }
}

// --- places ----------------------------------------------------------------

/// A finding points at the file and line of the first entity that it cites whose line is known, and
/// nothing else of it is changed but for the list of lines.
pub proof fn law_findings_point_at_the_first_known_line(f: FindingFacts, m: ModelFacts, k: int, e: EntityFacts)
    requires
        0 <= k < f.evidence.len(),
        rules::entity_at(m.entities, f.evidence[k], 0) == Some(e),
        e.line is Some,
        forall|j: int|
            0 <= j < k ==> !(rules::entity_at(m.entities, #[trigger] f.evidence[j], 0) matches Some(d) && d.line is Some),
    ensures
        rules::placed(f, m).file == Some(e.path),
        rules::placed(f, m).line == e.line,
        rules::placed(f, m) == (FindingFacts {
            lines: rules::placed(f, m).lines,
            file: rules::placed(f, m).file,
            line: rules::placed(f, m).line,
            ..f
        }),
{
    lemma_cited_is(m.entities, f.evidence, k, e, f.evidence.len() as int);
}

proof fn lemma_cited_is(es: Seq<EntityFacts>, ids: Seq<Seq<char>>, k: int, e: EntityFacts, n: int)
    requires
        0 <= k < ids.len(),
        0 <= n <= ids.len(),
        rules::entity_at(es, ids[k], 0) == Some(e),
        e.line is Some,
        forall|j: int| 0 <= j < k ==> !(rules::entity_at(es, #[trigger] ids[j], 0) matches Some(d) && d.line is Some),
    ensures
        k < n ==> rules::cited_entity(es, ids, n) == Some(e),
        n <= k ==> !(rules::cited_entity(es, ids, n) matches Some(d) && d.line is Some),
    decreases n,
{
    if n > 0 {
        lemma_cited_is(es, ids, k, e, n - 1);
        if n - 1 < k {
            assert(!(rules::entity_at(es, ids[n - 1], 0) matches Some(d) && d.line is Some));
        }
    }
}

/// The entity with an id is the first that has it.
pub proof fn law_entities_are_found_by_their_ids(es: Seq<EntityFacts>, id: Seq<char>, k: int)
    requires
        0 <= k < es.len(),
        es[k].id == id,
        forall|j: int| 0 <= j < k ==> (#[trigger] es[j]).id != id,
    ensures
        rules::entity_at(es, id, 0) == Some(es[k]),
{
    lemma_entity_is(es, id, 0, k);
}

proof fn lemma_entity_is(es: Seq<EntityFacts>, id: Seq<char>, i: int, k: int)
    requires
        0 <= i <= k < es.len(),
        es[k].id == id,
        forall|j: int| i <= j < k ==> (#[trigger] es[j]).id != id,
    ensures
        rules::entity_at(es, id, i) == Some(es[k]),
    decreases k - i,
{
    if i < k {
        assert(es[i].id != id);
        lemma_entity_is(es, id, i + 1, k);
    }
}

/// A finding about the server cites its site too, where the model has it: of a leaked secret, of TLS
/// checks that are switched off, of an open interface, of an open origin, of a missing lockfile.
pub proof fn law_findings_cite_their_sites(r: Rule, m: ModelFacts, i: int, site: Seq<char>)
    requires
        0 <= i < rules::findings_of(r, m).len(),
        rules::entity_at(m.entities, site, 0) is Some,
        (r == Rule::CredentialExfiltration && site == "site:secret-egress"@) || (r == Rule::TlsVerificationDisabled && site
            == "site:tls-verify-disabled"@) || ((r == Rule::BindNoAuth || r == Rule::BindAllInterfaces) && site
            == "site:bind-all-interfaces"@) || (r == Rule::CorsWildcard && site == "site:cors-wildcard"@) || (r
            == Rule::DepsUnpinned && site == "site:no-lockfile"@),
    ensures
        rules::findings_of(r, m)[i].evidence.last() == site,
{
}

/// Findings are counted by severity: one more finding adds one to the count of its own.
pub proof fn law_findings_are_counted_by_severity(fs: Seq<FindingFacts>, f: FindingFacts, s: Severity)
    ensures
        rules::count_severity(fs.push(f), s, fs.len() as int + 1) == rules::count_severity(fs, s, fs.len() as int) + (if f.severity == s {
            1nat
        } else {
            0nat
        }),
{
    lemma_count_prefix(fs, f, s, fs.len() as int);
}

proof fn lemma_count_prefix(fs: Seq<FindingFacts>, f: FindingFacts, s: Severity, n: int)
    requires
        0 <= n <= fs.len(),
    ensures
        rules::count_severity(fs.push(f), s, n) == rules::count_severity(fs, s, n),
    decreases n,
{
    if n > 0 {
        lemma_count_prefix(fs, f, s, n - 1);
        assert(fs.push(f)[n - 1] == fs[n - 1]);
    }
}

/// The names of severities.
pub proof fn law_severities_have_names(s: Severity)
    ensures
        s == Severity::Critical ==> catalog::severity_name(s) == "Critical"@,
        s == Severity::High ==> catalog::severity_name(s) == "High"@,
        s == Severity::Medium ==> catalog::severity_name(s) == "Medium"@,
        s == Severity::Low ==> catalog::severity_name(s) == "Low"@,
        s == Severity::Info ==> catalog::severity_name(s) == "Informational"@,
{
}

/// The lines of a finding are those of the entities that it cites, one after the other.
pub proof fn law_lines_are_those_of_the_evidence(es: Seq<EntityFacts>, ids: Seq<Seq<char>>, id: Seq<char>)
    ensures
        rules::cited_lines(es, ids.push(id), ids.len() as int + 1) == rules::cited_lines(es, ids, ids.len() as int) + (match rules::entity_at(
            es,
            id,
            0,
        ) {
            Some(e) => match e.line {
                Some(l) => seq![l],
                None => Seq::empty(),
            },
            None => Seq::empty(),
        }),
{
    lemma_lines_prefix(es, ids, id, ids.len() as int);
    let before = rules::cited_lines(es, ids, ids.len() as int);
    assert(ids.push(id)[ids.len() as int] == id);
    assert(before + Seq::<u32>::empty() =~= before);
    match rules::entity_at(es, id, 0) {
        Some(e) => match e.line {
            Some(l) => {
                assert(before.push(l) =~= before + seq![l]);
            },
            None => {},
        },
        None => {},
    }
}

proof fn lemma_lines_prefix(es: Seq<EntityFacts>, ids: Seq<Seq<char>>, id: Seq<char>, n: int)
    requires
        0 <= n <= ids.len(),
    ensures
        rules::cited_lines(es, ids.push(id), n) == rules::cited_lines(es, ids, n),
    decreases n,
{
    if n > 0 {
        lemma_lines_prefix(es, ids, id, n - 1);
        assert(ids.push(id)[n - 1] == ids[n - 1]);
    }
}

} // verus!
