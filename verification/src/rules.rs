//! What the rules find in a model, and where each finding points.
use crate::catalog;
use crate::catalog::{ALL_RULES, MESSAGES, REMEDIATIONS, Rule, RuleMeta, Severity, catalog};
use crate::deps;
use crate::model;
use crate::model::{Entity, EntityFacts, FactModel, ModelFacts, first_of_kind, kind_count};
use crate::repo::{BIND_SITE, CORS_SITE, LOCK_SITE, SECRET_SITE, TLS_SITE};
use crate::text;
use crate::text::{append_str, chars_of, clone_strings, same_str, string_of};
use vstd::prelude::*;

verus! {

pub const PACK_ID: &'static str = "mcp-core";

/// Rules about the network, which matter less where no remote caller can reach the server.
pub const MCP_NETWORK_RULES: [&'static str; 6] = [
    "MCP-SSRF-USER-CONTROLLED-URL",
    "MCP-UNRESTRICTED-EGRESS",
    "MCP-TLS-VERIFICATION-DISABLED",
    "MCP-BIND-NO-AUTH",
    "MCP-BIND-ALL-INTERFACES",
    "MCP-CORS-WILDCARD",
];

/// What a finding about dependencies gives as its reason.
pub const NO_LOCKFILE: &'static str = "no committed lockfile and floating dependency ranges";

pub const FLOATING: &'static str = "floating dependency ranges with no upper bound";

pub const PACK_POLICY: &'static str = "any Critical or High => Flagged-Gap";

// --- findings --------------------------------------------------------------

/// Something that a rule found.
#[derive(Debug, PartialEq, Eq)]
pub struct Finding {
    pub rule_id: String,
    /// What the rule maps to.
    pub controls: Vec<String>,
    pub severity: Severity,
    /// The ids of the entities that show it.
    pub evidence: Vec<String>,
    pub message: String,
    pub remediation: String,
    /// The lines of those entities, as far as they are known.
    pub lines: Vec<u32>,
    /// The file that the finding points at.
    pub file: Option<String>,
    /// The line in that file.
    pub line: Option<u32>,
}

pub struct FindingFacts {
    pub rule_id: Seq<char>,
    pub controls: Seq<Seq<char>>,
    pub severity: Severity,
    pub evidence: Seq<Seq<char>>,
    pub message: Seq<char>,
    pub remediation: Seq<char>,
    pub lines: Seq<u32>,
    pub file: Option<Seq<char>>,
    pub line: Option<u32>,
}

impl View for Finding {
    type V = FindingFacts;

    open spec fn view(&self) -> FindingFacts {
        FindingFacts {
            rule_id: self.rule_id@,
            controls: text::strings(self.controls@),
            severity: self.severity,
            evidence: text::strings(self.evidence@),
            message: self.message@,
            remediation: self.remediation@,
            lines: self.lines@,
            file: deps::text_opt(self.file),
            line: self.line,
        }
    }
}

pub open spec fn finding_facts(v: Seq<Finding>) -> Seq<FindingFacts> {
    Seq::new(v.len(), |i: int| v[i]@)
}

/// A copy of a finding.
pub fn copy_finding(f: &Finding) -> (r: Finding)
    ensures
        r@ == f@,
{
    let mut lines: Vec<u32> = Vec::new();
    for i in 0..f.lines.len()
        invariant
            lines@ == f.lines@.take(i as int),
    {
        lines.push(f.lines[i]);
    }
    assert(lines@ =~= f.lines@);
    Finding {
        rule_id: f.rule_id.clone(),
        controls: clone_strings(&f.controls),
        severity: f.severity,
        evidence: clone_strings(&f.evidence),
        message: f.message.clone(),
        remediation: f.remediation.clone(),
        lines,
        file: match &f.file {
            Some(s) => Some(s.clone()),
            None => None,
        },
        line: f.line,
    }
}

/// A finding of a rule, with the controls of the rule, before it is placed.
pub open spec fn finding_of(r: Rule, evidence: Seq<Seq<char>>, message: Seq<char>) -> FindingFacts {
    FindingFacts {
        rule_id: catalog::rule_id(r),
        controls: text::strs(catalog::controls_of(r)),
        severity: catalog::severity_of(r),
        evidence,
        message,
        remediation: REMEDIATIONS@[catalog::number(r)]@,
        lines: Seq::empty(),
        file: None,
        line: None,
    }
}

fn finding(rule: Rule, evidence: Vec<String>, message: String) -> (r: Finding)
    ensures
        r@ == finding_of(rule, text::strings(evidence@), message@),
{
    let cs = rule.controls();
    let mut controls: Vec<String> = Vec::new();
    for i in 0..cs.len()
        invariant
            controls@.len() == i,
            forall|j: int| 0 <= j < i ==> (#[trigger] controls@[j])@ == cs@[j]@,
    {
        controls.push(cs[i].to_owned());
    }
    assert(text::strings(controls@) =~= text::strs(cs@));
    let lines: Vec<u32> = Vec::new();
    assert(lines@ =~= Seq::<u32>::empty());
    Finding {
        rule_id: rule.id().to_owned(),
        controls,
        severity: rule.severity(),
        evidence,
        message,
        remediation: REMEDIATIONS[rule.number()].to_owned(),
        lines,
        file: None,
        line: None,
    }
}

// --- rules about tools -----------------------------------------------------

/// The rule looks at tools one by one.
pub open spec fn is_tool_rule(r: Rule) -> bool {
    match r {
        Rule::ToolDescriptionInjection => true,
        Rule::ToolShadowing => true,
        Rule::SsrfUserControlledUrl => true,
        Rule::FilesystemUnscoped => true,
        Rule::ShellExecSurface => true,
        Rule::SqlInjection => true,
        Rule::InsecureDeserialization => true,
        Rule::InputUnvalidated => true,
        Rule::DosUnbounded => true,
        _ => false,
    }
}

/// A rule about tools reports a tool.
pub open spec fn hits_tool(r: Rule, t: EntityFacts) -> bool {
    match r {
        Rule::ToolDescriptionInjection => model::is_set(t, "desc_injection"@) || model::is_set(t, "desc_hidden_unicode"@),
        Rule::ToolShadowing => model::is_set(t, "name_collision"@),
        Rule::SsrfUserControlledUrl => model::is_set(t, "ssrf_url_from_input"@),
        Rule::FilesystemUnscoped => model::is_set(t, "fs_path_from_input"@),
        Rule::ShellExecSurface => model::is_set(t, "shell_exec_from_input"@),
        Rule::SqlInjection => model::is_set(t, "sql_from_input"@),
        Rule::InsecureDeserialization => model::is_set(t, "insecure_deser"@),
        Rule::InputUnvalidated => model::is_set(t, "unbounded_limit"@) || model::is_set(t, "redos_regex"@),
        Rule::DosUnbounded => model::is_set(t, "no_timeout_bound"@),
        _ => false,
    }
}

fn tool_is_hit(rule: Rule, t: &Entity) -> (r: bool)
    ensures
        r == hits_tool(rule, t@),
{
    match rule {
        Rule::ToolDescriptionInjection => t.flag("desc_injection") || t.flag("desc_hidden_unicode"),
        Rule::ToolShadowing => t.flag("name_collision"),
        Rule::SsrfUserControlledUrl => t.flag("ssrf_url_from_input"),
        Rule::FilesystemUnscoped => t.flag("fs_path_from_input"),
        Rule::ShellExecSurface => t.flag("shell_exec_from_input"),
        Rule::SqlInjection => t.flag("sql_from_input"),
        Rule::InsecureDeserialization => t.flag("insecure_deser"),
        Rule::InputUnvalidated => t.flag("unbounded_limit") || t.flag("redos_regex"),
        Rule::DosUnbounded => t.flag("no_timeout_bound"),
        _ => false,
    }
}

/// What a tool is called: its name, else its id.
pub open spec fn tool_name(t: EntityFacts) -> Seq<char> {
    match model::text_value(t, "name"@) {
        Some(n) => n,
        None => t.id,
    }
}

/// What a rule says of a tool.
pub open spec fn tool_finding(r: Rule, t: EntityFacts) -> FindingFacts {
    finding_of(r, seq![t.id], "Tool '"@ + tool_name(t) + MESSAGES@[catalog::number(r)]@)
}

/// What a rule about tools finds in the first `n` entities.
pub open spec fn tool_findings(r: Rule, es: Seq<EntityFacts>, n: int) -> Seq<FindingFacts>
    decreases n,
{
    if n <= 0 || n > es.len() {
        Seq::empty()
    } else if model::of_kind(es[n - 1], "tool"@) && hits_tool(r, es[n - 1]) {
        tool_findings(r, es, n - 1).push(tool_finding(r, es[n - 1]))
    } else {
        tool_findings(r, es, n - 1)
    }
}

fn find_tools(rule: Rule, m: &FactModel) -> (r: Vec<Finding>)
    ensures
        finding_facts(r@) == tool_findings(rule, m@.entities, m@.entities.len() as int),
{
    let ghost es = m@.entities;
    let mut out: Vec<Finding> = Vec::new();
    assert(finding_facts(out@) =~= tool_findings(rule, es, 0));
    for i in 0..m.entities.len()
        invariant
            es == m@.entities,
            finding_facts(out@) == tool_findings(rule, es, i as int),
    {
        let ghost before = finding_facts(out@);
        let t = &m.entities[i];
        assert(es[i as int] == t@);
        if t.is_kind("tool") && tool_is_hit(rule, t) {
            let name: &str = match t.text("name") {
                Some(n) => n,
                None => t.id.as_str(),
            };
            let mut message = chars_of("Tool '");
            append_str(&mut message, name);
            append_str(&mut message, MESSAGES[rule.number()]);
            let mut evidence: Vec<String> = Vec::new();
            evidence.push(t.id.clone());
            assert(text::strings(evidence@) =~= seq![t.id@]);
            let f = finding(rule, evidence, string_of(&message));
            out.push(f);
            assert(finding_facts(out@) =~= before.push(f@));
        }
    }
    out
}

// --- rules about the server ------------------------------------------------

/// A rule about the server as a whole reports it.
pub open spec fn hits_server(r: Rule, s: EntityFacts) -> bool {
    match r {
        Rule::CredentialExfiltration => model::is_set(s, "secret_source_to_egress"@),
        Rule::SecretInConfig => model::is_set(s, "secret_in_config"@),
        Rule::TlsVerificationDisabled => model::is_set(s, "tls_verify_disabled"@),
        Rule::BindNoAuth => model::is_set(s, "binds_all_interfaces"@) && !model::is_set(s, "has_auth"@),
        Rule::BindAllInterfaces => model::is_set(s, "binds_all_interfaces"@) && model::is_set(s, "has_auth"@),
        Rule::CorsWildcard => model::is_set(s, "cors_wildcard"@),
        _ => false,
    }
}

fn server_is_hit(rule: Rule, s: &Entity) -> (r: bool)
    ensures
        r == hits_server(rule, s@),
{
    match rule {
        Rule::CredentialExfiltration => s.flag("secret_source_to_egress"),
        Rule::SecretInConfig => s.flag("secret_in_config"),
        Rule::TlsVerificationDisabled => s.flag("tls_verify_disabled"),
        Rule::BindNoAuth => s.flag("binds_all_interfaces") && !s.flag("has_auth"),
        Rule::BindAllInterfaces => s.flag("binds_all_interfaces") && s.flag("has_auth"),
        Rule::CorsWildcard => s.flag("cors_wildcard"),
        _ => false,
    }
}

/// The id of the site that a finding of the rule points at.
pub open spec fn site_of_rule(r: Rule) -> Option<Seq<char>> {
    match r {
        Rule::CredentialExfiltration => Some(SECRET_SITE@),
        Rule::TlsVerificationDisabled => Some(TLS_SITE@),
        Rule::BindNoAuth => Some(BIND_SITE@),
        Rule::BindAllInterfaces => Some(BIND_SITE@),
        Rule::CorsWildcard => Some(CORS_SITE@),
        Rule::DepsUnpinned => Some(LOCK_SITE@),
        _ => None,
    }
}

fn rule_site(rule: Rule) -> (r: Option<&'static str>)
    ensures
        match r {
            Some(s) => site_of_rule(rule) == Some(s@),
            None => site_of_rule(rule) is None,
        },
{
    match rule {
        Rule::CredentialExfiltration => Some(SECRET_SITE),
        Rule::TlsVerificationDisabled => Some(TLS_SITE),
        Rule::BindNoAuth => Some(BIND_SITE),
        Rule::BindAllInterfaces => Some(BIND_SITE),
        Rule::CorsWildcard => Some(CORS_SITE),
        Rule::DepsUnpinned => Some(LOCK_SITE),
        _ => None,
    }
}

/// The first entity at `i` or later with the given id.
pub open spec fn entity_at(es: Seq<EntityFacts>, id: Seq<char>, i: int) -> Option<EntityFacts>
    decreases es.len() - i,
{
    if i < 0 || i >= es.len() {
        None
    } else if es[i].id == id {
        Some(es[i])
    } else {
        entity_at(es, id, i + 1)
    }
}

/// The first entity with the given id.
pub fn entity_named<'a>(m: &'a FactModel, id: &str) -> (r: Option<&'a Entity>)
    ensures
        match r {
            Some(e) => entity_at(m@.entities, id@, 0) == Some(e@),
            None => entity_at(m@.entities, id@, 0) is None,
        },
{
    let ghost es = m@.entities;
    let n: usize = m.entities.len();
    let mut i: usize = 0;
    while i < n
        invariant
            es == m@.entities,
            n == m.entities@.len(),
            i <= n,
            entity_at(es, id@, 0) == entity_at(es, id@, i as int),
        decreases n - i,
    {
        assert(es[i as int] == m.entities@[i as int]@);
        if same_str(m.entities[i].id.as_str(), id) {
            return Some(&m.entities[i]);
        }
        i = i + 1;
    }
    None
}

/// `ids`, and the site of the rule where the model has it.
pub open spec fn with_site(ids: Seq<Seq<char>>, r: Rule, m: ModelFacts) -> Seq<Seq<char>> {
    match site_of_rule(r) {
        Some(s) => if entity_at(m.entities, s, 0) is Some {
            ids.push(s)
        } else {
            ids
        },
        None => ids,
    }
}

fn add_rule_site(ids: &mut Vec<String>, rule: Rule, m: &FactModel)
    ensures
        text::strings(final(ids)@) == with_site(text::strings(old(ids)@), rule, m@),
{
    let ghost before = text::strings(ids@);
    match rule_site(rule) {
        Some(s) => {
            if entity_named(m, s).is_some() {
                ids.push(s.to_owned());
                assert(text::strings(ids@) =~= before.push(s@));
            }
        },
        None => {},
    }
}

/// The single server of a model.
pub fn server_entity(m: &FactModel) -> (r: Option<&Entity>)
    ensures
        match r {
            Some(e) => model::server_of(m@) == Some(e@),
            None => model::server_of(m@) is None,
        },
{
    first_of_kind(m, "server")
}

/// What a rule about the server as a whole finds.
pub open spec fn server_findings(r: Rule, m: ModelFacts) -> Seq<FindingFacts> {
    match model::server_of(m) {
        Some(s) => if hits_server(r, s) {
            seq![finding_of(r, with_site(seq![s.id], r, m), MESSAGES@[catalog::number(r)]@)]
        } else {
            Seq::empty()
        },
        None => Seq::empty(),
    }
}

fn find_server(rule: Rule, m: &FactModel) -> (r: Vec<Finding>)
    ensures
        finding_facts(r@) == server_findings(rule, m@),
{
    let mut out: Vec<Finding> = Vec::new();
    assert(finding_facts(out@) =~= Seq::empty());
    match server_entity(m) {
        Some(s) => {
            if server_is_hit(rule, s) {
                let mut evidence: Vec<String> = Vec::new();
                evidence.push(s.id.clone());
                assert(text::strings(evidence@) =~= seq![s.id@]);
                add_rule_site(&mut evidence, rule, m);
                let f = finding(rule, evidence, MESSAGES[rule.number()].to_owned());
                out.push(f);
                assert(finding_facts(out@) =~= seq![f@]);
            }
        },
        None => {},
    }
    out
}

// --- the rule about dependencies -------------------------------------------

/// An entity is a dependency that is not pinned.
pub open spec fn is_unpinned(e: EntityFacts) -> bool {
    model::of_kind(e, "dependency"@) && (model::value(e, "pinned"@) matches Some(v) && model::flag_of(v) == Some(false))
}

/// The ids of the unpinned dependencies among the first `n` entities.
pub open spec fn unpinned_ids(es: Seq<EntityFacts>, n: int) -> Seq<Seq<char>>
    decreases n,
{
    if n <= 0 || n > es.len() {
        Seq::empty()
    } else if is_unpinned(es[n - 1]) {
        unpinned_ids(es, n - 1).push(es[n - 1].id)
    } else {
        unpinned_ids(es, n - 1)
    }
}

/// The server is known to have no lockfile.
pub open spec fn lacks_lockfile(m: ModelFacts) -> bool {
    model::server_of(m) matches Some(s) && (model::value(s, "has_lockfile"@) matches Some(v) && model::flag_of(v) == Some(false))
}

/// The ids of the server.
pub open spec fn server_ids(m: ModelFacts) -> Seq<Seq<char>> {
    match model::server_of(m) {
        Some(s) => seq![s.id],
        None => Seq::empty(),
    }
}

/// What the rule about dependencies finds: one is not pinned, or there are some and no lockfile.
pub open spec fn dep_findings(m: ModelFacts) -> Seq<FindingFacts> {
    let n = m.entities.len() as int;
    let unpinned = unpinned_ids(m.entities, n);
    let no_lock = lacks_lockfile(m);
    if unpinned.len() == 0 && (!no_lock || model::count_of(m.entities, "dependency"@, n) == 0) {
        Seq::empty()
    } else {
        let why = if no_lock {
            NO_LOCKFILE@
        } else {
            FLOATING@
        };
        seq![finding_of(
            Rule::DepsUnpinned,
            with_site(server_ids(m) + unpinned, Rule::DepsUnpinned, m),
            "Supply-chain: "@ + why + MESSAGES@[catalog::number(Rule::DepsUnpinned)]@,
        )]
    }
}

fn flag_is_false(e: &Entity, key: &str) -> (r: bool)
    ensures
        r == (model::value(e@, key@) matches Some(v) && model::flag_of(v) == Some(false)),
{
    match e.attr(key) {
        Some(v) => match v.as_bool() {
            Some(b) => !b,
            None => false,
        },
        None => false,
    }
}

fn find_deps(m: &FactModel) -> (r: Vec<Finding>)
    ensures
        finding_facts(r@) == dep_findings(m@),
{
    let ghost es = m@.entities;
    let mut out: Vec<Finding> = Vec::new();
    assert(finding_facts(out@) =~= Seq::empty());
    let server = server_entity(m);
    let no_lock: bool = match server {
        Some(s) => flag_is_false(s, "has_lockfile"),
        None => false,
    };
    let mut evidence: Vec<String> = Vec::new();
    match server {
        Some(s) => {
            evidence.push(s.id.clone());
        },
        None => {},
    }
    let ghost head = text::strings(evidence@);
    assert(head =~= server_ids(m@));
    let mut found: bool = false;
    assert(head =~= head + unpinned_ids(es, 0));
    for i in 0..m.entities.len()
        invariant
            es == m@.entities,
            text::strings(evidence@) == head + unpinned_ids(es, i as int),
            found == (unpinned_ids(es, i as int).len() > 0),
    {
        let ghost before = text::strings(evidence@);
        let e = &m.entities[i];
        assert(es[i as int] == e@);
        if e.is_kind("dependency") && flag_is_false(e, "pinned") {
            evidence.push(e.id.clone());
            found = true;
            assert(text::strings(evidence@) =~= before.push(e.id@));
            assert(text::strings(evidence@) =~= head + unpinned_ids(es, i + 1));
        }
    }
    if !found && (!no_lock || kind_count(m, "dependency") == 0) {
        return out;
    }
    add_rule_site(&mut evidence, Rule::DepsUnpinned, m);
    let mut message = chars_of("Supply-chain: ");
    append_str(
        &mut message,
        if no_lock {
            NO_LOCKFILE
        } else {
            FLOATING
        },
    );
    append_str(&mut message, MESSAGES[Rule::DepsUnpinned.number()]);
    let f = finding(Rule::DepsUnpinned, evidence, string_of(&message));
    out.push(f);
    assert(finding_facts(out@) =~= seq![f@]);
    out
}

// --- the pack --------------------------------------------------------------

/// What a rule finds in a model.
pub open spec fn findings_of(r: Rule, m: ModelFacts) -> Seq<FindingFacts> {
    if is_tool_rule(r) {
        tool_findings(r, m.entities, m.entities.len() as int)
    } else if r == Rule::DepsUnpinned {
        dep_findings(m)
    } else {
        server_findings(r, m)
    }
}

impl Rule {
    /// What the rule finds in a model.
    pub fn evaluate(self, m: &FactModel) -> (r: Vec<Finding>)
        ensures
            finding_facts(r@) == findings_of(self, m@),
    {
        match self {
            Rule::DepsUnpinned => find_deps(m),
            Rule::CredentialExfiltration => find_server(self, m),
            Rule::SecretInConfig => find_server(self, m),
            Rule::TlsVerificationDisabled => find_server(self, m),
            Rule::BindNoAuth => find_server(self, m),
            Rule::BindAllInterfaces => find_server(self, m),
            Rule::CorsWildcard => find_server(self, m),
            _ => find_tools(self, m),
        }
    }
}

/// How many findings there are of each severity.
#[derive(Debug, Clone, Copy, PartialEq, Eq, Structural)]
pub struct Counts {
    pub critical: usize,
    pub high: usize,
    pub medium: usize,
    pub low: usize,
    pub info: usize,
}

#[derive(Debug, Clone, Copy, PartialEq, Eq, Structural)]
pub enum Status {
    FlaggedGap,
    Cleared,
}

/// What a pack makes of its findings.
#[derive(Debug, PartialEq, Eq)]
pub struct Verdict {
    pub counts: Counts,
    pub status: Status,
    pub pack_policy: String,
}

/// How many of the first `n` findings have the given severity.
pub open spec fn count_severity(fs: Seq<FindingFacts>, s: Severity, n: int) -> nat
    decreases n,
{
    if n <= 0 || n > fs.len() {
        0
    } else if fs[n - 1].severity == s {
        count_severity(fs, s, n - 1) + 1
    } else {
        count_severity(fs, s, n - 1)
    }
}

/// How many findings there are of each severity.
pub fn count_severities(findings: &[Finding]) -> (r: Counts)
    ensures
        ({
            let fs = finding_facts(findings@);
            let n = fs.len() as int;
            &&& r.critical == count_severity(fs, Severity::Critical, n)
            &&& r.high == count_severity(fs, Severity::High, n)
            &&& r.medium == count_severity(fs, Severity::Medium, n)
            &&& r.low == count_severity(fs, Severity::Low, n)
            &&& r.info == count_severity(fs, Severity::Info, n)
        }),
{
    let ghost fs = finding_facts(findings@);
    let mut c = Counts { critical: 0, high: 0, medium: 0, low: 0, info: 0 };
    for i in 0..findings.len()
        invariant
            fs == finding_facts(findings@),
            c.critical <= i,
            c.high <= i,
            c.medium <= i,
            c.low <= i,
            c.info <= i,
            c.critical == count_severity(fs, Severity::Critical, i as int),
            c.high == count_severity(fs, Severity::High, i as int),
            c.medium == count_severity(fs, Severity::Medium, i as int),
            c.low == count_severity(fs, Severity::Low, i as int),
            c.info == count_severity(fs, Severity::Info, i as int),
    {
        assert(fs[i as int] == findings@[i as int]@);
        match findings[i].severity {
            Severity::Critical => {
                c.critical = c.critical + 1;
            },
            Severity::High => {
                c.high = c.high + 1;
            },
            Severity::Medium => {
                c.medium = c.medium + 1;
            },
            Severity::Low => {
                c.low = c.low + 1;
            },
            Severity::Info => {
                c.info = c.info + 1;
            },
        }
    }
    c
}

/// Some finding has the given severity.
pub open spec fn has_severity(fs: Seq<FindingFacts>, s: Severity) -> bool {
    exists|i: int| 0 <= i < fs.len() && (#[trigger] fs[i]).severity == s
}

proof fn lemma_count_severity(fs: Seq<FindingFacts>, s: Severity, n: int)
    requires
        0 <= n <= fs.len(),
    ensures
        count_severity(fs, s, n) > 0 <==> exists|i: int| 0 <= i < n && (#[trigger] fs[i]).severity == s,
    decreases n,
{
    if n > 0 {
        lemma_count_severity(fs, s, n - 1);
        if count_severity(fs, s, n) > 0 {
            if fs[n - 1].severity != s {
                let i = choose|i: int| 0 <= i < n - 1 && (#[trigger] fs[i]).severity == s;
                assert(0 <= i < n && fs[i].severity == s);
            }
        }
    }
}

/// The rules for MCP servers.
#[derive(Debug, PartialEq, Eq)]
pub struct McpCorePack {
    rules: Vec<Rule>,
}

impl McpCorePack {
    /// The rules that the pack runs.
    pub closed spec fn runs(&self) -> Seq<Rule> {
        self.rules@
    }

    pub fn new() -> (r: Self)
        ensures
            r.runs() == ALL_RULES@,
    {
        let mut rules: Vec<Rule> = Vec::new();
        for i in 0..16
            invariant
                rules@ == ALL_RULES@.take(i as int),
        {
            rules.push(ALL_RULES[i]);
        }
        assert(rules@ =~= ALL_RULES@);
        McpCorePack { rules }
    }

    pub fn id(&self) -> (r: &'static str)
        ensures
            r@ == PACK_ID@,
    {
        PACK_ID
    }

    pub fn catalog(&self) -> (r: Vec<RuleMeta>)
        ensures
            catalog::metas(r@) == catalog::catalog_facts(),
    {
        catalog()
    }

    pub fn rules(&self) -> (r: &Vec<Rule>)
        ensures
            r@ == self.runs(),
    {
        &self.rules
    }

    /// Any critical or high finding is a gap.
    pub fn verdict(&self, findings: &[Finding]) -> (r: Verdict)
        ensures
            ({
                let fs = finding_facts(findings@);
                let n = fs.len() as int;
                &&& r.counts.critical == count_severity(fs, Severity::Critical, n)
                &&& r.counts.high == count_severity(fs, Severity::High, n)
                &&& r.counts.medium == count_severity(fs, Severity::Medium, n)
                &&& r.counts.low == count_severity(fs, Severity::Low, n)
                &&& r.counts.info == count_severity(fs, Severity::Info, n)
                &&& r.status == (if has_severity(fs, Severity::Critical) || has_severity(fs, Severity::High) {
                    Status::FlaggedGap
                } else {
                    Status::Cleared
                })
                &&& r.pack_policy@ == PACK_POLICY@
            }),
    {
        let counts = count_severities(findings);
        let ghost fs = finding_facts(findings@);
        proof {
            lemma_count_severity(fs, Severity::Critical, fs.len() as int);
            lemma_count_severity(fs, Severity::High, fs.len() as int);
        }
        let status: Status = if counts.critical > 0 || counts.high > 0 {
            Status::FlaggedGap
        } else {
            Status::Cleared
        };
        Verdict { counts, status, pack_policy: PACK_POLICY.to_owned() }
    }
}

impl Default for McpCorePack {
    fn default() -> (r: Self)
        ensures
            r.runs() == ALL_RULES@,
    {
        McpCorePack::new()
    }
}

/// What the first `n` rules find in a model, rule by rule.
pub open spec fn pack_findings(rules: Seq<Rule>, m: ModelFacts, n: int) -> Seq<FindingFacts>
    decreases n,
{
    if n <= 0 || n > rules.len() {
        Seq::empty()
    } else {
        pack_findings(rules, m, n - 1) + findings_of(rules[n - 1], m)
    }
}

/// What the rules of a pack find in a model, rule by rule.
pub fn run_pack(pack: &McpCorePack, m: &FactModel) -> (r: Vec<Finding>)
    ensures
        finding_facts(r@) == pack_findings(pack.runs(), m@, pack.runs().len() as int),
{
    let rules = pack.rules();
    let mut out: Vec<Finding> = Vec::new();
    assert(finding_facts(out@) =~= pack_findings(rules@, m@, 0));
    for i in 0..rules.len()
        invariant
            finding_facts(out@) == pack_findings(rules@, m@, i as int),
    {
        let ghost before = finding_facts(out@);
        let found = rules[i].evaluate(m);
        let ghost new = finding_facts(found@);
        for k in 0..found.len()
            invariant
                new == finding_facts(found@),
                finding_facts(out@) == before + new.take(k as int),
        {
            let ghost so_far = finding_facts(out@);
            assert(new[k as int] == found@[k as int]@);
            let f = copy_finding(&found[k]);
            out.push(f);
            assert(finding_facts(out@) =~= so_far.push(f@));
            assert(finding_facts(out@) =~= before + new.take(k + 1));
        }
        assert(new.take(new.len() as int) =~= new);
    }
    out
}

// --- where findings point --------------------------------------------------

/// The lines of the first `n` cited entities, as far as they are known.
pub open spec fn cited_lines(es: Seq<EntityFacts>, ids: Seq<Seq<char>>, n: int) -> Seq<u32>
    decreases n,
{
    if n <= 0 || n > ids.len() {
        Seq::empty()
    } else {
        match entity_at(es, ids[n - 1], 0) {
            Some(e) => match e.line {
                Some(l) => cited_lines(es, ids, n - 1).push(l),
                None => cited_lines(es, ids, n - 1),
            },
            None => cited_lines(es, ids, n - 1),
        }
    }
}

/// The entity that a finding points at: the first cited one whose line is known, else the last
/// cited one.
pub open spec fn cited_entity(es: Seq<EntityFacts>, ids: Seq<Seq<char>>, n: int) -> Option<EntityFacts>
    decreases n,
{
    if n <= 0 || n > ids.len() {
        None
    } else {
        let before = cited_entity(es, ids, n - 1);
        if before matches Some(e) && e.line is Some {
            before
        } else if entity_at(es, ids[n - 1], 0) is Some {
            entity_at(es, ids[n - 1], 0)
        } else {
            before
        }
    }
}

/// A finding, with the lines of the cited entities and the place that it points at.
pub open spec fn placed(f: FindingFacts, m: ModelFacts) -> FindingFacts {
    let n = f.evidence.len() as int;
    match cited_entity(m.entities, f.evidence, n) {
        Some(e) => FindingFacts {
            lines: cited_lines(m.entities, f.evidence, n),
            file: Some(e.path),
            line: e.line,
            ..f
        },
        None => FindingFacts { lines: cited_lines(m.entities, f.evidence, n), file: None, line: None, ..f },
    }
}

pub open spec fn all_placed(fs: Seq<FindingFacts>, m: ModelFacts) -> Seq<FindingFacts> {
    Seq::new(fs.len(), |i: int| placed(fs[i], m))
}

fn place_finding(f: &Finding, m: &FactModel) -> (r: Finding)
    ensures
        r@ == placed(f@, m@),
{
    let ghost es = m@.entities;
    let ghost ids = text::strings(f.evidence@);
    let mut lines: Vec<u32> = Vec::new();
    let mut target: Option<&Entity> = None;
    assert(lines@ =~= cited_lines(es, ids, 0));
    for i in 0..f.evidence.len()
        invariant
            es == m@.entities,
            ids == text::strings(f.evidence@),
            lines@ == cited_lines(es, ids, i as int),
            match target {
                Some(e) => cited_entity(es, ids, i as int) == Some(e@),
                None => cited_entity(es, ids, i as int) is None,
            },
    {
        assert(ids[i as int] == f.evidence@[i as int]@);
        match entity_named(m, f.evidence[i].as_str()) {
            Some(e) => {
                match e.line {
                    Some(l) => {
                        lines.push(l);
                    },
                    None => {},
                }
                let settled: bool = match target {
                    Some(t) => t.line.is_some(),
                    None => false,
                };
                if !settled {
                    target = Some(e);
                }
            },
            None => {},
        }
    }
    let mut out = copy_finding(f);
    out.lines = lines;
    match target {
        Some(e) => {
            out.file = Some(e.path.clone());
            out.line = e.line;
        },
        None => {
            out.file = None;
            out.line = None;
        },
    }
    out
}

/// Give each finding the lines of the entities it cites and the place that it points at.
pub fn attach_lines(findings: &mut Vec<Finding>, m: &FactModel)
    ensures
        finding_facts(final(findings)@) == all_placed(finding_facts(old(findings)@), m@),
{
    let ghost fs = finding_facts(findings@);
    let mut out: Vec<Finding> = Vec::new();
    for i in 0..findings.len()
        invariant
            fs == finding_facts(findings@),
            out@.len() == i,
            forall|j: int| 0 <= j < i ==> (#[trigger] out@[j])@ == placed(fs[j], m@),
    {
        assert(fs[i as int] == findings@[i as int]@);
        out.push(place_finding(&findings[i], m));
    }
    assert(finding_facts(out@) =~= all_placed(fs, m@));
    *findings = out;
}

// --- laws ------------------------------------------------------------------

/// An entity of the model has the id.
pub open spec fn is_entity(m: ModelFacts, id: Seq<char>) -> bool {
    exists|i: int| 0 <= i < m.entities.len() && (#[trigger] m.entities[i]).id == id
}

/// A finding cites something, and only entities of the model.
pub open spec fn is_backed(f: FindingFacts, m: ModelFacts) -> bool {
    &&& f.evidence.len() > 0
    &&& forall|i: int| 0 <= i < f.evidence.len() ==> is_entity(m, #[trigger] f.evidence[i])
}

proof fn lemma_entity_at(es: Seq<EntityFacts>, id: Seq<char>, i: int)
    requires
        0 <= i <= es.len(),
    ensures
        entity_at(es, id, i) is Some <==> exists|j: int| i <= j < es.len() && (#[trigger] es[j]).id == id,
    decreases es.len() - i,
{
    if i < es.len() && es[i].id != id {
        lemma_entity_at(es, id, i + 1);
    }
}

proof fn lemma_first_of(es: Seq<EntityFacts>, kind: Seq<char>, i: int)
    requires
        0 <= i <= es.len(),
    ensures
        model::first_of(es, kind, i) matches Some(e) ==> exists|j: int| i <= j < es.len() && #[trigger] es[j] == e,
    decreases es.len() - i,
{
    if i < es.len() && !model::of_kind(es[i], kind) {
        lemma_first_of(es, kind, i + 1);
    }
}

proof fn lemma_with_site(ids: Seq<Seq<char>>, r: Rule, m: ModelFacts)
    requires
        forall|i: int| 0 <= i < ids.len() ==> is_entity(m, #[trigger] ids[i]),
    ensures
        forall|i: int| 0 <= i < with_site(ids, r, m).len() ==> is_entity(m, #[trigger] with_site(ids, r, m)[i]),
        with_site(ids, r, m).len() >= ids.len(),
{
    match site_of_rule(r) {
        Some(s) => {
            lemma_entity_at(m.entities, s, 0);
            let all = with_site(ids, r, m);
            assert forall|i: int| 0 <= i < all.len() implies is_entity(m, #[trigger] all[i]) by {
                if i < ids.len() {
                    assert(all[i] == ids[i]);
                }
            }
        },
        None => {},
    }
}

proof fn lemma_tool_findings(r: Rule, m: ModelFacts, n: int)
    requires
        0 <= n <= m.entities.len(),
    ensures
        forall|i: int|
            0 <= i < tool_findings(r, m.entities, n).len() ==> is_backed(
                #[trigger] tool_findings(r, m.entities, n)[i],
                m,
            ),
    decreases n,
{
    if n > 0 {
        lemma_tool_findings(r, m, n - 1);
        let before = tool_findings(r, m.entities, n - 1);
        let now = tool_findings(r, m.entities, n);
        assert forall|i: int| 0 <= i < now.len() implies is_backed(#[trigger] now[i], m) by {
            if i < before.len() {
                assert(now[i] == before[i]);
            } else {
                assert(now[i].evidence =~= seq![m.entities[n - 1].id]);
            }
        }
    }
}

proof fn lemma_unpinned_ids(m: ModelFacts, n: int)
    requires
        0 <= n <= m.entities.len(),
    ensures
        forall|i: int|
            0 <= i < unpinned_ids(m.entities, n).len() ==> is_entity(m, #[trigger] unpinned_ids(m.entities, n)[i]),
    decreases n,
{
    if n > 0 {
        lemma_unpinned_ids(m, n - 1);
        let before = unpinned_ids(m.entities, n - 1);
        let now = unpinned_ids(m.entities, n);
        assert forall|i: int| 0 <= i < now.len() implies is_entity(m, #[trigger] now[i]) by {
            if i < before.len() {
                assert(now[i] == before[i]);
            }
        }
    }
}

proof fn lemma_findings_of(r: Rule, m: ModelFacts)
    ensures
        forall|i: int| 0 <= i < findings_of(r, m).len() ==> is_backed(#[trigger] findings_of(r, m)[i], m),
{
    let n = m.entities.len() as int;
    lemma_first_of(m.entities, "server"@, 0);
    assert(model::server_of(m) matches Some(s) ==> is_entity(m, s.id));
    if is_tool_rule(r) {
        lemma_tool_findings(r, m, n);
    } else if r == Rule::DepsUnpinned {
        lemma_unpinned_ids(m, n);
        let unpinned = unpinned_ids(m.entities, n);
        let ids = server_ids(m) + unpinned;
        assert forall|i: int| 0 <= i < ids.len() implies is_entity(m, #[trigger] ids[i]) by {
            if i >= server_ids(m).len() {
                assert(ids[i] == unpinned[i - server_ids(m).len()]);
            }
        }
        lemma_with_site(ids, r, m);
    } else {
        match model::server_of(m) {
            Some(s) => {
                lemma_with_site(seq![s.id], r, m);
            },
            None => {},
        }
    }
}

proof fn lemma_pack_findings(rules: Seq<Rule>, m: ModelFacts, n: int)
    requires
        0 <= n <= rules.len(),
    ensures
        forall|i: int|
            0 <= i < pack_findings(rules, m, n).len() ==> is_backed(#[trigger] pack_findings(rules, m, n)[i], m),
    decreases n,
{
    if n > 0 {
        lemma_pack_findings(rules, m, n - 1);
        lemma_findings_of(rules[n - 1], m);
        let before = pack_findings(rules, m, n - 1);
        let new = findings_of(rules[n - 1], m);
        let now = pack_findings(rules, m, n);
        assert forall|i: int| 0 <= i < now.len() implies is_backed(#[trigger] now[i], m) by {
            if i < before.len() {
                assert(now[i] == before[i]);
            } else {
                assert(now[i] == new[i - before.len()]);
            }
        }
    }
}

/// The first entity with the id has a line.
pub open spec fn has_line(m: ModelFacts, id: Seq<char>) -> bool {
    entity_at(m.entities, id, 0) matches Some(e) && e.line is Some
}

proof fn lemma_cited_entity(m: ModelFacts, ids: Seq<Seq<char>>, n: int)
    requires
        0 <= n <= ids.len(),
    ensures
        (exists|i: int| 0 <= i < n && entity_at(m.entities, #[trigger] ids[i], 0) is Some) ==> cited_entity(
            m.entities,
            ids,
            n,
        ) is Some,
        (cited_entity(m.entities, ids, n) matches Some(e) && e.line is Some) <==> exists|i: int|
            0 <= i < n && has_line(m, #[trigger] ids[i]),
    decreases n,
{
    if n > 0 {
        lemma_cited_entity(m, ids, n - 1);
        if has_line(m, ids[n - 1]) {
            assert(has_line(m, ids[n - 1]));
        }
        if exists|i: int| 0 <= i < n - 1 && has_line(m, #[trigger] ids[i]) {
            let i = choose|i: int| 0 <= i < n - 1 && has_line(m, #[trigger] ids[i]);
            assert(0 <= i < n && has_line(m, ids[i]));
        }
    }
}

/// No finding without evidence: whatever the rules find cites at least one entity of the model and
/// nothing else, and once it is placed it points at a file, and at a line exactly where a cited
/// entity has one.
pub proof fn law_every_finding_has_evidence(rules: Seq<Rule>, m: ModelFacts)
    ensures
        ({
            let fs = pack_findings(rules, m, rules.len() as int);
            forall|i: int|
                0 <= i < fs.len() ==> is_backed(#[trigger] fs[i], m) && placed(fs[i], m).file is Some && (placed(
                    fs[i],
                    m,
                ).line is Some <==> exists|k: int| 0 <= k < fs[i].evidence.len() && has_line(m, #[trigger] fs[i].evidence[k]))
        }),
{
    let fs = pack_findings(rules, m, rules.len() as int);
    lemma_pack_findings(rules, m, rules.len() as int);
    assert forall|i: int| 0 <= i < fs.len() implies is_backed(#[trigger] fs[i], m) && placed(fs[i], m).file is Some && (
    placed(fs[i], m).line is Some <==> exists|k: int|
        0 <= k < fs[i].evidence.len() && has_line(m, #[trigger] fs[i].evidence[k])) by {
        let f = fs[i];
        assert(is_entity(m, f.evidence[0]));
        lemma_entity_at(m.entities, f.evidence[0], 0);
        lemma_cited_entity(m, f.evidence, f.evidence.len() as int);
    }
}

/// The tools that a rule reports have lines.
pub open spec fn hit_tools_have_lines(r: Rule, m: ModelFacts) -> bool {
    forall|k: int|
        0 <= k < m.entities.len() && model::of_kind(#[trigger] m.entities[k], "tool"@) && hits_tool(r, m.entities[k])
            ==> has_line(m, m.entities[k].id)
}

proof fn lemma_tool_findings_cite_lines(r: Rule, m: ModelFacts, n: int)
    requires
        0 <= n <= m.entities.len(),
        hit_tools_have_lines(r, m),
    ensures
        forall|i: int|
            0 <= i < tool_findings(r, m.entities, n).len() ==> placed(
                #[trigger] tool_findings(r, m.entities, n)[i],
                m,
            ).line is Some,
    decreases n,
{
    if n > 0 {
        lemma_tool_findings_cite_lines(r, m, n - 1);
        let t = m.entities[n - 1];
        let f = tool_finding(r, t);
        lemma_cited_entity(m, f.evidence, f.evidence.len() as int);
        if model::of_kind(t, "tool"@) && hits_tool(r, t) {
            assert(has_line(m, f.evidence[0]));
        }
        let before = tool_findings(r, m.entities, n - 1);
        let now = tool_findings(r, m.entities, n);
        assert forall|i: int| 0 <= i < now.len() implies placed(#[trigger] now[i], m).line is Some by {
            if i < before.len() {
                assert(now[i] == before[i]);
            }
        }
    }
}

/// Every finding of a rule points at a line: of a rule about tools where the tools that it reports
/// have lines, and of another rule where its site has one.
pub proof fn law_findings_cite_lines(r: Rule, m: ModelFacts)
    requires
        if is_tool_rule(r) {
            hit_tools_have_lines(r, m)
        } else {
            site_of_rule(r) matches Some(s) && has_line(m, s)
        },
    ensures
        forall|i: int| 0 <= i < findings_of(r, m).len() ==> placed(#[trigger] findings_of(r, m)[i], m).line is Some,
{
    if is_tool_rule(r) {
        lemma_tool_findings_cite_lines(r, m, m.entities.len() as int);
    } else {
        let fs = findings_of(r, m);
        assert forall|i: int| 0 <= i < fs.len() implies placed(#[trigger] fs[i], m).line is Some by {
            let ids = fs[i].evidence;
            let last = ids.len() - 1;
            assert(ids[last] == site_of_rule(r)->0);
            assert(has_line(m, ids[last]));
            lemma_cited_entity(m, ids, ids.len() as int);
        }
    }
}

} // verus!
