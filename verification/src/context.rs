//! Context modifiers: findings weigh less where the server cannot be reached or has nothing to
//! lose. Each modifier follows from facts of the model, and each one that is applied is recorded.
use crate::catalog::Severity;
use crate::model;
use crate::model::{FactModel, ModelFacts, first_of_kind};
use crate::rules;
use crate::rules::{Finding, FindingFacts, MCP_NETWORK_RULES, copy_finding};
use crate::text;
use crate::text::{chars_of, is_listed_in, is_text, same_str};
use vstd::prelude::*;

verus! {

pub const STDIO_MODIFIER: &'static str = "transport-stdio:no-remote-attacker";

pub const READ_ONLY_MODIFIER: &'static str = "tools-read-only:no-write-path";

pub const KEYLESS_MODIFIER: &'static str = "keyless-public-api:no-secret-to-leak";

pub const FILESYSTEM_RULE: &'static str = "MCP-FILESYSTEM-UNSCOPED";

/// Rules about secrets.
pub const SECRET_RULES: [&'static str; 3] = [
    "MCP-CREDENTIAL-EXFILTRATION",
    "MCP-SECRET-IN-CONFIG",
    "MCP-CREDENTIAL-LOGGED",
];

/// One modifier that was applied.
#[derive(Debug, Clone, PartialEq, Eq)]
pub struct AppliedModifier {
    pub modifier: String,
    pub rule_id: String,
    pub from: Severity,
    pub to: Severity,
}

pub struct ModifierFacts {
    pub modifier: Seq<char>,
    pub rule_id: Seq<char>,
    pub from: Severity,
    pub to: Severity,
}

impl View for AppliedModifier {
    type V = ModifierFacts;

    open spec fn view(&self) -> ModifierFacts {
        ModifierFacts { modifier: self.modifier@, rule_id: self.rule_id@, from: self.from, to: self.to }
    }
}

pub open spec fn modifier_facts(v: Seq<AppliedModifier>) -> Seq<ModifierFacts> {
    Seq::new(v.len(), |i: int| v[i]@)
}

/// The next lower severity.
pub open spec fn lowered(s: Severity) -> Severity {
    match s {
        Severity::Critical => Severity::High,
        Severity::High => Severity::Medium,
        Severity::Medium => Severity::Low,
        Severity::Low => Severity::Info,
        Severity::Info => Severity::Info,
    }
}

fn down(s: Severity) -> (r: Severity)
    ensures
        r == lowered(s),
{
    match s {
        Severity::Critical => Severity::High,
        Severity::High => Severity::Medium,
        Severity::Medium => Severity::Low,
        Severity::Low => Severity::Info,
        Severity::Info => Severity::Info,
    }
}

/// The severity after `k` steps down.
pub open spec fn lowered_by(s: Severity, k: int) -> Severity
    decreases k,
{
    if k <= 0 {
        s
    } else {
        lowered(lowered_by(s, k - 1))
    }
}

/// The server speaks over stdio: no remote caller reaches it.
pub open spec fn is_stdio(m: ModelFacts) -> bool {
    model::server_of(m) matches Some(s) && model::text_value(s, "transport"@) == Some("stdio"@)
}

/// The server's flag under `key` is set.
pub open spec fn server_flag(m: ModelFacts, key: Seq<char>) -> bool {
    model::server_of(m) matches Some(s) && model::is_set(s, key)
}

/// `names`, and one more where `on` holds.
pub open spec fn with_name(names: Seq<Seq<char>>, name: Seq<char>, on: bool) -> Seq<Seq<char>> {
    if on {
        names.push(name)
    } else {
        names
    }
}

/// The modifiers for findings of a rule, in the order in which they are applied:
/// stdio takes the remote caller from the rules about the network, read-only tools take the write
/// path from the rule about the filesystem, and a server without keys has no secret to leak.
pub open spec fn modifiers_for(id: Seq<char>, m: ModelFacts) -> Seq<Seq<char>> {
    let names = with_name(
        Seq::empty(),
        STDIO_MODIFIER@,
        is_stdio(m) && text::is_listed(id, MCP_NETWORK_RULES@),
    );
    let names = with_name(
        names,
        READ_ONLY_MODIFIER@,
        server_flag(m, "all_tools_read_only"@) && id == FILESYSTEM_RULE@,
    );
    with_name(names, KEYLESS_MODIFIER@, server_flag(m, "keyless_public_only"@) && text::is_listed(id, SECRET_RULES@))
}

/// A finding, with its severity lowered by each modifier for its rule.
pub open spec fn modified(f: FindingFacts, m: ModelFacts) -> FindingFacts {
    FindingFacts { severity: lowered_by(f.severity, modifiers_for(f.rule_id, m).len() as int), ..f }
}

pub open spec fn all_modified(fs: Seq<FindingFacts>, m: ModelFacts) -> Seq<FindingFacts> {
    Seq::new(fs.len(), |i: int| modified(fs[i], m))
}

/// The modifiers that are applied to a finding.
pub open spec fn applied_to(f: FindingFacts, m: ModelFacts) -> Seq<ModifierFacts> {
    let names = modifiers_for(f.rule_id, m);
    Seq::new(
        names.len(),
        |k: int|
            ModifierFacts {
                modifier: names[k],
                rule_id: f.rule_id,
                from: lowered_by(f.severity, k),
                to: lowered_by(f.severity, k + 1),
            },
    )
}

/// The modifiers that are applied to the first `n` findings.
pub open spec fn applied_first(fs: Seq<FindingFacts>, m: ModelFacts, n: int) -> Seq<ModifierFacts>
    decreases n,
{
    if n <= 0 || n > fs.len() {
        Seq::empty()
    } else {
        applied_first(fs, m, n - 1) + applied_to(fs[n - 1], m)
    }
}

fn names_for(rule_id: &str, m: &FactModel) -> (r: Vec<&'static str>)
    ensures
        text::strs(r@) == modifiers_for(rule_id@, m@),
{
    let id = chars_of(rule_id);
    let server = first_of_kind(m, "server");
    let stdio: bool = match server {
        Some(s) => match s.text("transport") {
            Some(t) => same_str(t, "stdio"),
            None => false,
        },
        None => false,
    };
    let read_only: bool = match server {
        Some(s) => s.flag("all_tools_read_only"),
        None => false,
    };
    let keyless: bool = match server {
        Some(s) => s.flag("keyless_public_only"),
        None => false,
    };
    let mut out: Vec<&'static str> = Vec::new();
    assert(text::strs(out@) =~= Seq::empty());
    let ghost n0 = text::strs(out@);
    if stdio && is_listed_in(&id, &MCP_NETWORK_RULES) {
        out.push(STDIO_MODIFIER);
        assert(text::strs(out@) =~= n0.push(STDIO_MODIFIER@));
    }
    let ghost n1 = text::strs(out@);
    if read_only && is_text(&id, FILESYSTEM_RULE) {
        out.push(READ_ONLY_MODIFIER);
        assert(text::strs(out@) =~= n1.push(READ_ONLY_MODIFIER@));
    }
    let ghost n2 = text::strs(out@);
    if keyless && is_listed_in(&id, &SECRET_RULES) {
        out.push(KEYLESS_MODIFIER);
        assert(text::strs(out@) =~= n2.push(KEYLESS_MODIFIER@));
    }
    out
}

/// Apply the modifiers that follow from the model. The result is the findings, with their
/// severities lowered, and the modifiers that were applied, in order.
pub fn apply(findings: Vec<Finding>, m: &FactModel) -> (r: (Vec<Finding>, Vec<AppliedModifier>))
    ensures
        rules::finding_facts(r.0@) == all_modified(rules::finding_facts(findings@), m@),
        modifier_facts(r.1@) == applied_first(rules::finding_facts(findings@), m@, findings@.len() as int),
{
    let ghost fs = rules::finding_facts(findings@);
    let mut out: Vec<Finding> = Vec::new();
    let mut applied: Vec<AppliedModifier> = Vec::new();
    assert(modifier_facts(applied@) =~= applied_first(fs, m@, 0));
    for i in 0..findings.len()
        invariant
            fs == rules::finding_facts(findings@),
            out@.len() == i,
            forall|j: int| 0 <= j < i ==> (#[trigger] out@[j])@ == modified(fs[j], m@),
            modifier_facts(applied@) == applied_first(fs, m@, i as int),
    {
        let ghost before = modifier_facts(applied@);
        let f = &findings[i];
        assert(fs[i as int] == f@);
        let names = names_for(f.rule_id.as_str(), m);
        let ghost new = applied_to(f@, m@);
        assert(new.len() == names@.len());
        let mut severity: Severity = f.severity;
        for k in 0..names.len()
            invariant
                text::strs(names@) == modifiers_for(f@.rule_id, m@),
                new == applied_to(f@, m@),
                severity == lowered_by(f@.severity, k as int),
                modifier_facts(applied@) == before + new.take(k as int),
        {
            let ghost so_far = modifier_facts(applied@);
            let to: Severity = down(severity);
            let a = AppliedModifier {
                modifier: names[k].to_owned(),
                rule_id: f.rule_id.clone(),
                from: severity,
                to,
            };
            applied.push(a);
            assert(modifier_facts(applied@) =~= so_far.push(a@));
            assert(text::strs(names@)[k as int] == names@[k as int]@);
            assert(lowered_by(f@.severity, k + 1) == to);
            assert(a@ == new[k as int]);
            assert(modifier_facts(applied@) =~= before + new.take(k + 1));
            severity = to;
        }
        assert(new.take(new.len() as int) =~= new);
        let mut g = copy_finding(f);
        g.severity = severity;
        out.push(g);
    }
    assert(rules::finding_facts(out@) =~= all_modified(fs, m@));
    (out, applied)
}

// --- laws ------------------------------------------------------------------

/// How grave a severity is, as a number.
pub open spec fn rank(s: Severity) -> int {
    match s {
        Severity::Critical => 4,
        Severity::High => 3,
        Severity::Medium => 2,
        Severity::Low => 1,
        Severity::Info => 0,
    }
}

proof fn lemma_lowered_by(s: Severity, k: int)
    ensures
        rank(lowered_by(s, k)) <= rank(s),
        k > 0 && s != Severity::Info ==> rank(lowered_by(s, k)) < rank(s),
    decreases k,
{
    if k > 0 {
        lemma_lowered_by(s, k - 1);
    }
}

/// A modifier never raises a severity, and it changes nothing else of a finding.
pub proof fn law_modifiers_only_lower(f: FindingFacts, m: ModelFacts)
    ensures
        rank(modified(f, m).severity) <= rank(f.severity),
        modified(f, m) == (FindingFacts { severity: modified(f, m).severity, ..f }),
{
    lemma_lowered_by(f.severity, modifiers_for(f.rule_id, m).len() as int);
}

/// Every change of a severity is on record, and nothing else: a finding whose severity was lowered
/// has a recorded modifier, and the record leads from the old severity to the new one.
pub proof fn law_every_change_is_recorded(f: FindingFacts, m: ModelFacts)
    ensures
        modified(f, m).severity != f.severity ==> applied_to(f, m).len() > 0,
        applied_to(f, m).len() > 0 ==> applied_to(f, m)[0].from == f.severity && applied_to(f, m).last().to
            == modified(f, m).severity,
{
}

/// Where the server does not speak over stdio, writes, and has keys, nothing is modified.
pub proof fn law_no_context_no_change(fs: Seq<FindingFacts>, m: ModelFacts)
    requires
        !is_stdio(m),
        !server_flag(m, "all_tools_read_only"@),
        !server_flag(m, "keyless_public_only"@),
    ensures
        all_modified(fs, m) == fs,
        applied_first(fs, m, fs.len() as int) == Seq::<ModifierFacts>::empty(),
{
    assert forall|i: int| 0 <= i < fs.len() implies modified(#[trigger] fs[i], m) == fs[i] by {
        assert(modifiers_for(fs[i].rule_id, m) =~= Seq::empty());
    }
    assert(all_modified(fs, m) =~= fs);
    lemma_nothing_applied(fs, m, fs.len() as int);
}

proof fn lemma_nothing_applied(fs: Seq<FindingFacts>, m: ModelFacts, n: int)
    requires
        !is_stdio(m),
        !server_flag(m, "all_tools_read_only"@),
        !server_flag(m, "keyless_public_only"@),
        0 <= n <= fs.len(),
    ensures
        applied_first(fs, m, n) == Seq::<ModifierFacts>::empty(),
    decreases n,
{
    if n > 0 {
        lemma_nothing_applied(fs, m, n - 1);
        assert(modifiers_for(fs[n - 1].rule_id, m) =~= Seq::empty());
        assert(applied_to(fs[n - 1], m) =~= Seq::empty());
    }
}

/// Stdio leaves no remote caller: a finding of a rule about the network weighs less.
pub proof fn law_stdio_lowers_network_findings(f: FindingFacts, m: ModelFacts)
    requires
        is_stdio(m),
        text::is_listed(f.rule_id, MCP_NETWORK_RULES@),
        f.severity != Severity::Info,
    ensures
        rank(modified(f, m).severity) < rank(f.severity),
        applied_to(f, m)[0].modifier == STDIO_MODIFIER@,
{
    lemma_lowered_by(f.severity, modifiers_for(f.rule_id, m).len() as int);
}

/// Read-only tools leave no write path: a finding of the rule about the filesystem weighs less.
pub proof fn law_read_only_lowers_filesystem_findings(f: FindingFacts, m: ModelFacts)
    requires
        server_flag(m, "all_tools_read_only"@),
        f.rule_id == FILESYSTEM_RULE@,
        f.severity != Severity::Info,
    ensures
        rank(modified(f, m).severity) < rank(f.severity),
{
    lemma_lowered_by(f.severity, modifiers_for(f.rule_id, m).len() as int);
}

} // verus!
