//! Rules, context and scores on models that are built by hand.
use sentinel_mcp::catalog::{catalog, Rule, Severity};
use sentinel_mcp::context;
use sentinel_mcp::document::Json;
use sentinel_mcp::grading::grade_model;
use sentinel_mcp::model::{AttrValue, Entity, FactModel, SourceDescriptor};
use sentinel_mcp::rules::{attach_lines, run_pack, server_entity, Finding, McpCorePack, Status, PACK_ID};
use sentinel_mcp::score;
use sentinel_mcp::score::{Dim, ScoreStatus};

fn ent(id: &str, attrs: Vec<(&str, AttrValue)>) -> Entity {
    Entity {
        id: id.into(),
        attributes: attrs.into_iter().map(|(k, v)| (k.to_string(), v)).collect(),
        path: id.into(),
        line: Some(1),
    }
}

fn model(entities: Vec<Entity>) -> FactModel {
    FactModel {
        schema_version: "0".into(),
        source: SourceDescriptor {
            kind: "mcp_server".into(),
            digest_input: "test".into(),
            parser_version: "0".into(),
        },
        entities,
    }
}

fn b(v: bool) -> AttrValue {
    AttrValue::Bool(v)
}

fn s(v: &str) -> AttrValue {
    AttrValue::Str(v.into())
}

fn run(m: &FactModel) -> score::ScoreReport {
    let pack = McpCorePack::new();
    let mut f = run_pack(&pack, m);
    attach_lines(&mut f, m);
    let (f, mods) = context::apply(f, m);
    score::score(&f, &mods, &Dim::all(), true)
}

fn fx_good_stdio() -> FactModel {
    model(vec![
        ent(
            "mcp_server:il",
            vec![
                ("mcp_kind", s("server")),
                ("transport", AttrValue::Enum("stdio".into())),
                ("all_tools_read_only", b(true)),
                ("keyless_public_only", b(true)),
                ("has_lockfile", b(false)),
            ],
        ),
        ent(
            "tool:search",
            vec![
                ("mcp_kind", s("tool")),
                ("name", s("il_search")),
                ("unbounded_limit", b(true)),
                ("redos_regex", b(true)),
            ],
        ),
        ent(
            "dep:fastmcp",
            vec![("mcp_kind", s("dependency")), ("name", s("fastmcp")), ("pinned", b(false))],
        ),
    ])
}

fn fx_http_shell_ssrf() -> FactModel {
    model(vec![
        ent(
            "mcp_server:x",
            vec![
                ("mcp_kind", s("server")),
                ("transport", AttrValue::Enum("http".into())),
                ("has_lockfile", b(true)),
            ],
        ),
        ent(
            "tool:run",
            vec![
                ("mcp_kind", s("tool")),
                ("name", s("run")),
                ("shell_exec_from_input", b(true)),
                ("ssrf_url_from_input", b(true)),
            ],
        ),
    ])
}

fn fx_exfil() -> FactModel {
    model(vec![ent(
        "mcp_server:e",
        vec![
            ("mcp_kind", s("server")),
            ("transport", AttrValue::Enum("stdio".into())),
            ("secret_source_to_egress", b(true)),
        ],
    )])
}

#[test]
fn good_stdio_scores_high_no_critical() {
    let r = run(&fx_good_stdio());
    assert!(r.grade == 'A' || r.grade == 'B', "expected A/B, got {}", r.grade);
    assert!(!r.caps.iter().any(|c| c.contains("critical")));
}

#[test]
fn http_shell_ssrf_is_capped_low() {
    let r = run(&fx_http_shell_ssrf());
    assert!(r.grade == 'D' || r.grade == 'F', "expected D/F, got {}", r.grade);
    assert!(r.caps.iter().any(|c| c.contains("shell-exec")));
    assert!(r.modifiers.is_empty(), "no context downgrade on http");
}

#[test]
fn stdio_downgrades_ssrf_severity() {
    let m = model(vec![
        ent(
            "mcp_server:s",
            vec![
                ("mcp_kind", s("server")),
                ("transport", AttrValue::Enum("stdio".into())),
                ("has_lockfile", b(true)),
            ],
        ),
        ent(
            "tool:fetch",
            vec![("mcp_kind", s("tool")), ("name", s("fetch")), ("ssrf_url_from_input", b(true))],
        ),
    ]);
    let r = run(&m);
    let m0 = &r.modifiers[0];
    assert_eq!(m0.modifier, "transport-stdio:no-remote-attacker");
    assert_eq!(m0.from, Severity::High);
    assert_eq!(m0.to, Severity::Medium);
}

#[test]
fn exfil_caps_at_f() {
    let r = run(&fx_exfil());
    assert_eq!(r.grade, 'F');
    assert!(r.caps.iter().any(|c| c.contains("critical")));
}

#[test]
fn scoring_is_deterministic() {
    let m = fx_http_shell_ssrf();
    let a = run(&m).to_json("x/x", "https://x", "abc");
    let b = run(&m).to_json("x/x", "https://x", "abc");
    assert_eq!(a, b, "same model + ruleset must reproduce identical scores.json");
}

#[test]
fn every_rule_maps_to_a_dimension_and_catalog() {
    let cat = catalog();
    for r in McpCorePack::new().rules() {
        assert!(cat.iter().any(|m| m.id == r.id()), "rule {} missing from catalog", r.id());
        let _ = score::dimension_of(r.id());
    }
}

// --- the catalog and the pack ----------------------------------------------

#[test]
fn the_catalog_is_complete() {
    let cat = McpCorePack::default().catalog();
    assert_eq!(cat.len(), 16);
    assert_eq!(cat[0].id, "MCP-TOOL-DESCRIPTION-INJECTION");
    assert_eq!(cat[0].title, "Tool-description injection (tool poisoning)");
    assert_eq!(cat[0].target, "MCP");
    assert_eq!(cat[0].severity, Severity::High);
    assert_eq!(
        cat[0].controls,
        vec!["CWE-74", "CWE-116", "OWASP-MCP-A2", "MAESTRO-L3", "ETDI-tool-descriptions"]
    );
    assert!(!cat[0].strict);
    assert_eq!(cat[15].id, "MCP-CORS-WILDCARD");
    assert_eq!(cat[15].fix, "Restrict CORS to a trusted-origin allowlist; never pair wildcard with credentials.");
    for (i, a) in cat.iter().enumerate() {
        assert!(!a.controls.is_empty());
        assert!(cat.iter().skip(i + 1).all(|b| a.id != b.id), "ids are distinct");
    }
    assert_eq!(McpCorePack::new().id(), PACK_ID);
}

#[test]
fn dimensions_of_rules() {
    assert_eq!(score::dimension_of("MCP-TOOL-SHADOWING"), Dim::D1ToolInjection);
    assert_eq!(score::dimension_of("MCP-SECRET-IN-CONFIG"), Dim::D2Credential);
    assert_eq!(score::dimension_of("MCP-TLS-VERIFICATION-DISABLED"), Dim::D3Egress);
    assert_eq!(score::dimension_of("MCP-BIND-NO-AUTH"), Dim::D4Permission);
    assert_eq!(score::dimension_of("MCP-DEPS-UNPINNED"), Dim::D5Provenance);
    assert_eq!(score::dimension_of("unknown"), Dim::D4Permission);
    assert_eq!(Dim::all().iter().map(|d| d.weight()).sum::<u32>(), 100);
    assert_eq!(Dim::D3Egress.id(), "network-egress-ssrf");
}

#[test]
fn each_rule_fires_on_its_fact() {
    let tool_facts = [
        (Rule::ToolDescriptionInjection, "desc_injection"),
        (Rule::ToolDescriptionInjection, "desc_hidden_unicode"),
        (Rule::ToolShadowing, "name_collision"),
        (Rule::SsrfUserControlledUrl, "ssrf_url_from_input"),
        (Rule::FilesystemUnscoped, "fs_path_from_input"),
        (Rule::ShellExecSurface, "shell_exec_from_input"),
        (Rule::SqlInjection, "sql_from_input"),
        (Rule::InsecureDeserialization, "insecure_deser"),
        (Rule::InputUnvalidated, "unbounded_limit"),
        (Rule::InputUnvalidated, "redos_regex"),
        (Rule::DosUnbounded, "no_timeout_bound"),
    ];
    for (rule, fact) in tool_facts {
        let m = model(vec![ent("tool:t", vec![("mcp_kind", s("tool")), ("name", s("t")), (fact, b(true))])]);
        let found = run_pack(&McpCorePack::new(), &m);
        assert_eq!(found.len(), 1, "{fact}");
        assert_eq!(found[0].rule_id, rule.id());
        assert_eq!(found[0].severity, rule.severity());
        assert_eq!(found[0].evidence, vec!["tool:t".to_string()]);
        assert!(found[0].message.starts_with("Tool 't' "));
    }
    let server_facts = [
        (Rule::CredentialExfiltration, "secret_source_to_egress"),
        (Rule::SecretInConfig, "secret_in_config"),
        (Rule::TlsVerificationDisabled, "tls_verify_disabled"),
        (Rule::BindNoAuth, "binds_all_interfaces"),
        (Rule::CorsWildcard, "cors_wildcard"),
    ];
    for (rule, fact) in server_facts {
        let m = model(vec![ent("mcp_server:s", vec![("mcp_kind", s("server")), (fact, b(true))])]);
        let found = run_pack(&McpCorePack::new(), &m);
        assert_eq!(found.len(), 1, "{fact}");
        assert_eq!(found[0].rule_id, rule.id());
        assert_eq!(found[0].evidence, vec!["mcp_server:s".to_string()]);
    }
}

#[test]
fn binding_with_auth_is_milder() {
    let m = model(vec![ent(
        "mcp_server:s",
        vec![("mcp_kind", s("server")), ("binds_all_interfaces", b(true)), ("has_auth", b(true))],
    )]);
    let found = run_pack(&McpCorePack::new(), &m);
    assert_eq!(found.len(), 1);
    assert_eq!(found[0].rule_id, "MCP-BIND-ALL-INTERFACES");
    assert_eq!(found[0].severity, Severity::Medium);
}

#[test]
fn dependencies_without_lockfile() {
    let dep = |pinned: bool| {
        ent("dep:a", vec![("mcp_kind", s("dependency")), ("name", s("a")), ("pinned", b(pinned))])
    };
    let srv = |locked: bool| ent("mcp_server:s", vec![("mcp_kind", s("server")), ("has_lockfile", b(locked))]);
    let found = |es: Vec<Entity>| run_pack(&McpCorePack::new(), &model(es));

    let f = found(vec![srv(false), dep(false)]);
    assert_eq!(f[0].evidence, vec!["mcp_server:s".to_string(), "dep:a".to_string()]);
    assert!(f[0].message.contains("no committed lockfile"));
    let f = found(vec![srv(true), dep(false)]);
    assert!(f[0].message.contains("no upper bound"));
    let f = found(vec![srv(false), dep(true)]);
    assert_eq!(f[0].evidence, vec!["mcp_server:s".to_string()]);
    assert!(found(vec![srv(true), dep(true)]).is_empty());
    assert!(found(vec![srv(false)]).is_empty());
}

#[test]
fn findings_point_at_a_place() {
    let mut site = ent("site:tls-verify-disabled", vec![("mcp_kind", s("site"))]);
    site.path = "src/app.py".into();
    site.line = Some(7);
    let mut srv = ent("mcp_server:s", vec![("mcp_kind", s("server")), ("tls_verify_disabled", b(true))]);
    srv.line = None;
    let m = model(vec![srv, site]);
    let mut found = run_pack(&McpCorePack::new(), &m);
    attach_lines(&mut found, &m);
    assert_eq!(found[0].evidence, vec!["mcp_server:s".to_string(), "site:tls-verify-disabled".to_string()]);
    assert_eq!(found[0].lines, vec![7]);
    assert_eq!(found[0].file.as_deref(), Some("src/app.py"));
    assert_eq!(found[0].line, Some(7));
    assert_eq!(found[0].controls[0], "CWE-295");
}

#[test]
fn verdicts() {
    let pack = McpCorePack::new();
    let v = pack.verdict(&run_pack(&pack, &fx_http_shell_ssrf()));
    assert_eq!(v.status, Status::FlaggedGap);
    assert_eq!((v.counts.critical, v.counts.high, v.counts.medium, v.counts.low, v.counts.info), (0, 2, 0, 0, 0));
    assert_eq!(v.pack_policy, "any Critical or High => Flagged-Gap");
    assert_eq!(pack.verdict(&run_pack(&pack, &fx_good_stdio())).status, Status::Cleared);
    assert_eq!(pack.verdict(&run_pack(&pack, &fx_exfil())).status, Status::FlaggedGap);
}

#[test]
fn the_server_is_found() {
    assert_eq!(server_entity(&fx_exfil()).unwrap().id, "mcp_server:e");
    assert!(server_entity(&model(vec![])).is_none());
}

// --- context ---------------------------------------------------------------

fn found(rule: &str, severity: Severity) -> Finding {
    Finding {
        rule_id: rule.to_string(),
        controls: vec![],
        severity,
        evidence: vec!["e".to_string()],
        message: String::new(),
        remediation: String::new(),
        lines: vec![],
        file: None,
        line: None,
    }
}

#[test]
fn context_lowers_by_facts() {
    let m = fx_good_stdio();
    let findings = vec![
        found("MCP-CORS-WILDCARD", Severity::Medium),
        found("MCP-FILESYSTEM-UNSCOPED", Severity::High),
        found("MCP-CREDENTIAL-EXFILTRATION", Severity::Critical),
        found("MCP-SQL-INJECTION", Severity::High),
        found("MCP-TLS-VERIFICATION-DISABLED", Severity::Info),
    ];
    let (out, mods) = context::apply(findings, &m);
    let severities: Vec<Severity> = out.iter().map(|f| f.severity).collect();
    assert_eq!(
        severities,
        vec![Severity::Low, Severity::Medium, Severity::High, Severity::High, Severity::Info]
    );
    let names: Vec<&str> = mods.iter().map(|m| m.modifier.as_str()).collect();
    assert_eq!(
        names,
        vec![
            "transport-stdio:no-remote-attacker",
            "tools-read-only:no-write-path",
            "keyless-public-api:no-secret-to-leak",
            "transport-stdio:no-remote-attacker",
        ]
    );
    assert_eq!((mods[2].from, mods[2].to), (Severity::Critical, Severity::High));
    assert_eq!(mods[1].rule_id, "MCP-FILESYSTEM-UNSCOPED");
}

#[test]
fn without_context_nothing_changes() {
    let (out, mods) = context::apply(vec![found("MCP-CORS-WILDCARD", Severity::Medium)], &fx_http_shell_ssrf());
    assert_eq!(out, vec![found("MCP-CORS-WILDCARD", Severity::Medium)]);
    assert!(mods.is_empty());
}

// --- scores ----------------------------------------------------------------

fn at(rule: &str, severity: Severity, line: u32) -> Finding {
    let mut f = found(rule, severity);
    f.file = Some("a.py".to_string());
    f.line = Some(line);
    f
}

#[test]
fn penalties_per_severity() {
    let sub = |s: Severity| score::sub_score(&vec![found("MCP-SQL-INJECTION", s)]);
    assert_eq!(sub(Severity::Critical), 50);
    assert_eq!(sub(Severity::High), 75);
    assert_eq!(sub(Severity::Medium), 90);
    assert_eq!(sub(Severity::Low), 96);
    assert_eq!(sub(Severity::Info), 100);
    assert_eq!(score::sub_score(&vec![]), 100);
}

#[test]
fn a_rule_costs_at_most_twice_its_penalty() {
    let many: Vec<Finding> = (1..9).map(|l| at("MCP-SQL-INJECTION", Severity::High, l)).collect();
    assert_eq!(score::sub_score(&many), 50);
    let mut two_rules: Vec<Finding> = (1..9).map(|l| at("MCP-SQL-INJECTION", Severity::High, l)).collect();
    two_rules.push(at("MCP-BIND-NO-AUTH", Severity::High, 1));
    assert_eq!(score::sub_score(&two_rules), 25);
    two_rules.push(at("MCP-FILESYSTEM-UNSCOPED", Severity::Critical, 1));
    assert_eq!(score::sub_score(&two_rules), 0, "never below zero");
}

#[test]
fn one_place_counts_once() {
    let twice = vec![at("MCP-SQL-INJECTION", Severity::High, 3), at("MCP-SQL-INJECTION", Severity::High, 3)];
    assert_eq!(score::sub_score(&twice), 75);
    let no_line = vec![found("MCP-SQL-INJECTION", Severity::High), found("MCP-SQL-INJECTION", Severity::High)];
    assert_eq!(score::sub_score(&no_line), 50);
}

#[test]
fn more_findings_never_raise_a_score() {
    let mut all: Vec<Finding> = Vec::new();
    let mut last: u32 = score::sub_score(&all);
    for (rule, severity, line) in [
        ("MCP-SQL-INJECTION", Severity::High, 1),
        ("MCP-SQL-INJECTION", Severity::High, 1),
        ("MCP-DOS-UNBOUNDED", Severity::Low, 1),
        ("MCP-SQL-INJECTION", Severity::High, 2),
        ("MCP-SQL-INJECTION", Severity::High, 3),
        ("MCP-BIND-ALL-INTERFACES", Severity::Medium, 9),
    ] {
        all.push(at(rule, severity, line));
        let now = score::sub_score(&all);
        assert!(now <= last);
        last = now;
    }
    assert_eq!(last, 36);
}

#[test]
fn more_findings_never_lift_a_grade() {
    let steps = [
        at("MCP-DEPS-UNPINNED", Severity::Medium, 1),
        at("MCP-SSRF-USER-CONTROLLED-URL", Severity::High, 2),
        at("MCP-SHELL-EXEC-SURFACE", Severity::High, 3),
        at("MCP-CREDENTIAL-EXFILTRATION", Severity::Critical, 4),
    ];
    let mut fs: Vec<Finding> = Vec::new();
    let mut last = score::score(&fs, &Vec::new(), &Dim::all(), true);
    for f in steps {
        fs.push(f);
        let now = score::score(&fs, &Vec::new(), &Dim::all(), true);
        assert!(now.composite <= last.composite);
        assert!(now.grade >= last.grade);
        assert!(last.caps.iter().all(|c| now.caps.contains(c)));
        last = now;
    }
    assert_eq!(last.grade, 'F');
}

#[test]
fn a_dimension_that_joins_can_raise_the_composite() {
    let poor = vec![at("MCP-CREDENTIAL-EXFILTRATION", Severity::Critical, 1), at("MCP-CREDENTIAL-EXFILTRATION", Severity::Critical, 2)];
    let alone = score::score(&poor, &Vec::new(), &Vec::new(), true);
    assert_eq!(alone.composite, 0);
    let mut more = poor;
    more.push(at("MCP-DEPS-UNPINNED", Severity::Medium, 3));
    assert!(score::score(&more, &Vec::new(), &Vec::new(), true).composite > 0);
}

#[test]
fn bands_and_caps() {
    assert_eq!(score::band(100), 'A');
    assert_eq!(score::band(90), 'A');
    assert_eq!(score::band(89), 'B');
    assert_eq!(score::band(79), 'C');
    assert_eq!(score::band(60), 'D');
    assert_eq!(score::band(59), 'F');
    assert_eq!(score::worse('A', 'C'), 'C');
    assert_eq!(score::worse('F', 'C'), 'F');

    let grade = |f: Finding| {
        let r = score::score(&[f], &[], &Dim::all(), true);
        (r.grade, r.composite, r.caps)
    };
    assert_eq!(
        grade(found("MCP-SQL-INJECTION", Severity::High)),
        ('B', 94, vec!["high-unresolved:cap-B".to_string()])
    );
    assert_eq!(
        grade(found("MCP-TOOL-DESCRIPTION-INJECTION", Severity::High)),
        ('C', 95, vec!["d1|d2-high-unresolved:cap-C".to_string(), "high-unresolved:cap-B".to_string()])
    );
    assert_eq!(
        grade(found("MCP-SHELL-EXEC-SURFACE", Severity::Low)),
        ('D', 99, vec!["shell-exec-surface:cap-D".to_string()])
    );
    assert_eq!(
        grade(found("MCP-CREDENTIAL-EXFILTRATION", Severity::Critical)),
        ('F', 90, vec!["critical-present:cap-F".to_string()])
    );
    assert_eq!(grade(found("MCP-DEPS-UNPINNED", Severity::Medium)), ('A', 99, vec![]));
}

#[test]
fn dimensions_without_evidence_are_left_out() {
    let r = score::score(&[found("MCP-SQL-INJECTION", Severity::High)], &[], &[], true);
    assert_eq!(r.composite, 75, "only the dimension with a finding counts");
    assert_eq!(r.dims.len(), 5);
    assert_eq!(r.dims.iter().filter(|d| d.status == "na").count(), 4);
    assert_eq!(r.dims[3].sub_score, Some(75));
    assert_eq!(r.dims[0].sub_score, None);
    assert_eq!(r.dims[3].findings.len(), 1);
    let none = score::score(&[], &[], &[], true);
    assert_eq!((none.composite, none.grade), (100, 'A'));
    let clean = score::score(&[], &[], &Dim::all(), true);
    assert_eq!((clean.composite, clean.grade, clean.caps.len()), (100, 'A', 0));
}

fn member<'a>(j: &'a Json, key: &str) -> &'a Json {
    match j {
        Json::Obj(v) => &v.iter().find(|(k, _)| k == key).unwrap().1,
        _ => panic!("no object"),
    }
}

fn item(j: &Json, i: usize) -> &Json {
    match j {
        Json::Arr(v) => &v[i],
        _ => panic!("no list"),
    }
}

#[test]
fn report_document() {
    let (findings, report) = grade_model(&fx_http_shell_ssrf());
    assert_eq!(findings.len(), 2);
    assert_eq!(report.status, ScoreStatus::Scored);
    let j = report.to_json("x/x", "https://x", "abc");
    assert_eq!(member(&j, "server"), &Json::Str("x/x".to_string()));
    assert_eq!(member(&j, "repo_url"), &Json::Str("https://x".to_string()));
    assert_eq!(member(&j, "commit"), &Json::Str("abc".to_string()));
    assert_eq!(member(&j, "ruleset_version"), &Json::Str("pack-mcp-core@0.1.0".to_string()));
    assert_eq!(member(&j, "status"), &Json::Str("scored".to_string()));
    assert_eq!(member(&j, "grade"), &Json::Str("D".to_string()));
    assert_eq!(member(&j, "composite"), &Json::Int(89));
    assert_eq!(item(member(&j, "grade_caps_applied"), 0), &Json::Str("shell-exec-surface:cap-D".to_string()));
    let egress = item(member(&j, "dimensions"), 2);
    assert_eq!(member(egress, "id"), &Json::Str("network-egress-ssrf".to_string()));
    assert_eq!(member(egress, "weight"), &Json::Int(20));
    assert_eq!(member(egress, "sub_score"), &Json::Int(75));
    let f = item(member(egress, "findings"), 0);
    assert_eq!(member(f, "rule"), &Json::Str("MCP-SSRF-USER-CONTROLLED-URL".to_string()));
    assert_eq!(member(f, "severity"), &Json::Str("High".to_string()));
    assert_eq!(member(member(f, "evidence"), "file"), &Json::Str("tool:run".to_string()));
    assert_eq!(member(member(f, "evidence"), "line"), &Json::Int(1));
    assert_eq!(item(member(member(f, "evidence"), "entities"), 0), &Json::Str("tool:run".to_string()));
}

#[test]
fn withheld_grades_are_not_shown() {
    let r = score::score(&[], &[], &Dim::all(), false);
    assert_eq!(r.status, ScoreStatus::InsufficientCoverage);
    let j = r.to_json("x", "", "");
    assert_eq!(member(&j, "status"), &Json::Str("insufficient_coverage".to_string()));
    assert_eq!(member(&j, "grade"), &Json::Null);
    assert_eq!(member(&j, "composite"), &Json::Null);
}

#[test]
fn names_of_severities() {
    let names: Vec<&str> =
        [Severity::Critical, Severity::High, Severity::Medium, Severity::Low, Severity::Info]
            .iter()
            .map(|s| s.as_str())
            .collect();
    assert_eq!(names, vec!["Critical", "High", "Medium", "Low", "Informational"]);
}
