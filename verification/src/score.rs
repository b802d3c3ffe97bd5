//! From findings to a grade: sub-scores per dimension, a weighted composite, a letter and its caps.
use crate::catalog;
use crate::catalog::{Rule, Severity};
use crate::context;
use crate::context::{AppliedModifier, ModifierFacts};
use crate::deps;
use crate::rules;
use crate::rules::{Finding, FindingFacts, copy_finding};
use crate::text;
use crate::text::{chars_of, is_listed_in, same_str};
use vstd::prelude::*;

verus! {

/// A dimension of the score.
#[derive(Debug, Clone, Copy, PartialEq, Eq, Structural)]
pub enum Dim {
    D1ToolInjection,
    D2Credential,
    D3Egress,
    D4Permission,
    D5Provenance,
}

pub const ALL_DIMS: [Dim; 5] = [
    Dim::D1ToolInjection,
    Dim::D2Credential,
    Dim::D3Egress,
    Dim::D4Permission,
    Dim::D5Provenance,
];

/// The name of a dimension.
pub open spec fn dim_id(d: Dim) -> Seq<char> {
    match d {
        Dim::D1ToolInjection => "tool-description-injection"@,
        Dim::D2Credential => "credential-secret-handling"@,
        Dim::D3Egress => "network-egress-ssrf"@,
        Dim::D4Permission => "permission-scope-vs-declared"@,
        Dim::D5Provenance => "supply-chain-provenance"@,
    }
}

/// The weight of a dimension, in percent.
pub open spec fn dim_weight(d: Dim) -> int {
    match d {
        Dim::D1ToolInjection => 20,
        Dim::D2Credential => 20,
        Dim::D3Egress => 20,
        Dim::D4Permission => 25,
        Dim::D5Provenance => 15,
    }
}

impl Dim {
    pub fn id(self) -> (r: &'static str)
        ensures
            r@ == dim_id(self),
    {
        match self {
            Dim::D1ToolInjection => "tool-description-injection",
            Dim::D2Credential => "credential-secret-handling",
            Dim::D3Egress => "network-egress-ssrf",
            Dim::D4Permission => "permission-scope-vs-declared",
            Dim::D5Provenance => "supply-chain-provenance",
        }
    }

    pub fn weight(self) -> (r: u32)
        ensures
            r == dim_weight(self),
    {
        match self {
            Dim::D1ToolInjection => 20,
            Dim::D2Credential => 20,
            Dim::D3Egress => 20,
            Dim::D4Permission => 25,
            Dim::D5Provenance => 15,
        }
    }

    pub fn all() -> (r: [Dim; 5])
        ensures
            r@ == ALL_DIMS@,
    {
        ALL_DIMS
    }
}

pub const D1_RULES: [&'static str; 4] = [
    "MCP-TOOL-DESCRIPTION-INJECTION",
    "MCP-HIDDEN-TOOL-METADATA",
    "MCP-DYNAMIC-TOOL-DEFINITION",
    "MCP-TOOL-SHADOWING",
];

pub const D2_RULES: [&'static str; 4] = [
    "MCP-CREDENTIAL-EXFILTRATION",
    "MCP-SECRET-IN-CONFIG",
    "MCP-CREDENTIAL-LOGGED",
    "MCP-TOKEN-PASSTHROUGH-UNSCOPED",
];

pub const D3_RULES: [&'static str; 3] = [
    "MCP-SSRF-USER-CONTROLLED-URL",
    "MCP-UNRESTRICTED-EGRESS",
    "MCP-TLS-VERIFICATION-DISABLED",
];

pub const D5_RULES: [&'static str; 3] = [
    "MCP-DEPS-UNPINNED",
    "MCP-RELEASE-UNSIGNED",
    "MCP-MAINTAINER-SIGNAL",
];

pub const SHELL_RULE: &'static str = "MCP-SHELL-EXEC-SURFACE";

/// The dimension that a rule counts towards. A rule that is in no list counts towards the
/// permission scope.
pub open spec fn dimension(rule_id: Seq<char>) -> Dim {
    if text::is_listed(rule_id, D1_RULES@) {
        Dim::D1ToolInjection
    } else if text::is_listed(rule_id, D2_RULES@) {
        Dim::D2Credential
    } else if text::is_listed(rule_id, D3_RULES@) {
        Dim::D3Egress
    } else if text::is_listed(rule_id, D5_RULES@) {
        Dim::D5Provenance
    } else {
        Dim::D4Permission
    }
}

pub fn dimension_of(rule_id: &str) -> (r: Dim)
    ensures
        r == dimension(rule_id@),
{
    let id = chars_of(rule_id);
    if is_listed_in(&id, &D1_RULES) {
        Dim::D1ToolInjection
    } else if is_listed_in(&id, &D2_RULES) {
        Dim::D2Credential
    } else if is_listed_in(&id, &D3_RULES) {
        Dim::D3Egress
    } else if is_listed_in(&id, &D5_RULES) {
        Dim::D5Provenance
    } else {
        Dim::D4Permission
    }
}

// --- sub-scores ------------------------------------------------------------

/// What a finding of a severity costs.
pub open spec fn penalty_of(s: Severity) -> int {
    match s {
        Severity::Critical => 50,
        Severity::High => 25,
        Severity::Medium => 10,
        Severity::Low => 4,
        Severity::Info => 0,
    }
}

fn penalty(s: Severity) -> (r: u128)
    ensures
        r == penalty_of(s),
        r <= 50,
{
    match s {
        Severity::Critical => 50,
        Severity::High => 25,
        Severity::Medium => 10,
        Severity::Low => 4,
        Severity::Info => 0,
    }
}

/// Two findings of one rule point at the same line.
pub open spec fn same_place(a: FindingFacts, b: FindingFacts) -> bool {
    a.rule_id == b.rule_id && a.file == b.file && a.line == b.line && a.line is Some
}

/// Finding `i` repeats an earlier one: same rule, file and line.
pub open spec fn is_repeat(fs: Seq<FindingFacts>, i: int) -> bool {
    exists|j: int| 0 <= j < i && same_place(#[trigger] fs[j], fs[i])
}

/// What the first `n` findings of a rule cost together. Repeats cost nothing, and a rule costs at
/// most twice what one finding of it does.
pub open spec fn charge(fs: Seq<FindingFacts>, rule_id: Seq<char>, n: int) -> int
    decreases n,
{
    if n <= 0 || n > fs.len() {
        0
    } else {
        let before = charge(fs, rule_id, n - 1);
        let p = penalty_of(fs[n - 1].severity);
        if fs[n - 1].rule_id != rule_id || is_repeat(fs, n - 1) {
            before
        } else if before + p <= 2 * p {
            before + p
        } else {
            2 * p
        }
    }
}

/// Finding `i` is the first of its rule.
pub open spec fn leads_rule(fs: Seq<FindingFacts>, i: int) -> bool {
    forall|j: int| 0 <= j < i ==> (#[trigger] fs[j]).rule_id != fs[i].rule_id
}

/// What the rules of the first `n` findings cost, each rule once.
pub open spec fn total_charge(fs: Seq<FindingFacts>, n: int) -> int
    decreases n,
{
    if n <= 0 || n > fs.len() {
        0
    } else if leads_rule(fs, n - 1) {
        total_charge(fs, n - 1) + charge(fs, fs[n - 1].rule_id, fs.len() as int)
    } else {
        total_charge(fs, n - 1)
    }
}

/// The score of findings: 100 less what they cost, and no less than 0.
pub open spec fn points(fs: Seq<FindingFacts>) -> int {
    let cost = total_charge(fs, fs.len() as int);
    if cost >= 100 {
        0
    } else {
        100 - cost
    }
}

proof fn lemma_charge(fs: Seq<FindingFacts>, rule_id: Seq<char>, n: int)
    ensures
        0 <= charge(fs, rule_id, n) <= 100,
    decreases n,
{
    if 0 < n <= fs.len() {
        lemma_charge(fs, rule_id, n - 1);
    }
}

proof fn lemma_total_charge(fs: Seq<FindingFacts>, n: int)
    requires
        0 <= n,
    ensures
        0 <= total_charge(fs, n) <= 100 * n,
    decreases n,
{
    if 0 < n <= fs.len() {
        lemma_total_charge(fs, n - 1);
        lemma_charge(fs, fs[n - 1].rule_id, fs.len() as int);
    }
}

fn same_text_opt(a: &Option<String>, b: &Option<String>) -> (r: bool)
    ensures
        r == (deps::text_opt(*a) == deps::text_opt(*b)),
{
    match a {
        Some(x) => match b {
            Some(y) => same_str(x.as_str(), y.as_str()),
            None => false,
        },
        None => b.is_none(),
    }
}

fn repeats(findings: &Vec<Finding>, i: usize) -> (r: bool)
    requires
        i < findings@.len(),
    ensures
        r == is_repeat(rules::finding_facts(findings@), i as int),
{
    let ghost fs = rules::finding_facts(findings@);
    let b = &findings[i];
    assert(fs[i as int] == b@);
    for j in 0..i
        invariant
            fs == rules::finding_facts(findings@),
            i < findings@.len(),
            fs[i as int] == b@,
            forall|k: int| 0 <= k < j ==> !same_place(#[trigger] fs[k], fs[i as int]),
    {
        let a = &findings[j];
        assert(fs[j as int] == a@);
        let same_line: bool = match a.line {
            Some(x) => match b.line {
                Some(y) => x == y,
                None => false,
            },
            None => false,
        };
        if same_line && same_str(a.rule_id.as_str(), b.rule_id.as_str()) && same_text_opt(&a.file, &b.file) {
            assert(same_place(fs[j as int], fs[i as int]));
            return true;
        }
    }
    false
}

fn leads(findings: &Vec<Finding>, i: usize) -> (r: bool)
    requires
        i < findings@.len(),
    ensures
        r == leads_rule(rules::finding_facts(findings@), i as int),
{
    let ghost fs = rules::finding_facts(findings@);
    assert(fs[i as int] == findings@[i as int]@);
    for j in 0..i
        invariant
            fs == rules::finding_facts(findings@),
            i < findings@.len(),
            fs[i as int] == findings@[i as int]@,
            forall|k: int| 0 <= k < j ==> (#[trigger] fs[k]).rule_id != fs[i as int].rule_id,
    {
        assert(fs[j as int] == findings@[j as int]@);
        if same_str(findings[j].rule_id.as_str(), findings[i].rule_id.as_str()) {
            return false;
        }
    }
    true
}

fn charge_of(findings: &Vec<Finding>, rule_id: &str) -> (r: u128)
    ensures
        r == charge(rules::finding_facts(findings@), rule_id@, findings@.len() as int),
        r <= 100,
{
    let ghost fs = rules::finding_facts(findings@);
    let mut cost: u128 = 0;
    for i in 0..findings.len()
        invariant
            fs == rules::finding_facts(findings@),
            cost == charge(fs, rule_id@, i as int),
            cost <= 100,
    {
        assert(fs[i as int] == findings@[i as int]@);
        if same_str(findings[i].rule_id.as_str(), rule_id) && !repeats(findings, i) {
            let p: u128 = penalty(findings[i].severity);
            cost = if cost + p <= 2 * p {
                cost + p
            } else {
                2 * p
            };
        }
    }
    cost
}

/// The score of findings: 100 less the penalties. Findings with the same rule, file and line count
/// once, and a rule costs at most twice its penalty.
pub fn sub_score(findings: &Vec<Finding>) -> (r: u32)
    ensures
        r == points(rules::finding_facts(findings@)),
        r <= 100,
{
    let ghost fs = rules::finding_facts(findings@);
    let mut cost: u128 = 0;
    for i in 0..findings.len()
        invariant
            fs == rules::finding_facts(findings@),
            cost == total_charge(fs, i as int),
            cost <= 100 * i,
    {
        assert(fs[i as int] == findings@[i as int]@);
        if leads(findings, i) {
            cost = cost + charge_of(findings, findings[i].rule_id.as_str());
        }
    }
    if cost >= 100 {
        0
    } else {
        100 - (cost as u32)
    }
}

// --- dimensions ------------------------------------------------------------

/// Those of the first `n` findings that count towards a dimension.
pub open spec fn in_dim(fs: Seq<FindingFacts>, d: Dim, n: int) -> Seq<FindingFacts>
    decreases n,
{
    if n <= 0 || n > fs.len() {
        Seq::empty()
    } else if dimension(fs[n - 1].rule_id) == d {
        in_dim(fs, d, n - 1).push(fs[n - 1])
    } else {
        in_dim(fs, d, n - 1)
    }
}

/// The score of a dimension. A dimension with neither a finding nor a coverage pass has none.
pub struct DimScore {
    pub dim: Dim,
    /// `scored` or `na`.
    pub status: &'static str,
    pub sub_score: Option<u32>,
    pub findings: Vec<Finding>,
}

pub struct DimFacts {
    pub dim: Dim,
    pub status: Seq<char>,
    pub sub_score: Option<u32>,
    pub findings: Seq<FindingFacts>,
}

impl View for DimScore {
    type V = DimFacts;

    open spec fn view(&self) -> DimFacts {
        DimFacts {
            dim: self.dim,
            status: self.status@,
            sub_score: self.sub_score,
            findings: rules::finding_facts(self.findings@),
        }
    }
}

pub open spec fn dim_facts(v: Seq<DimScore>) -> Seq<DimFacts> {
    Seq::new(v.len(), |i: int| v[i]@)
}

/// A dimension is scored: its checks ran, or it has a finding.
pub open spec fn is_scored(fs: Seq<FindingFacts>, covered: Seq<Dim>, d: Dim) -> bool {
    covered.contains(d) || in_dim(fs, d, fs.len() as int).len() > 0
}

/// The score of a dimension.
pub open spec fn dim_score(fs: Seq<FindingFacts>, covered: Seq<Dim>, d: Dim) -> DimFacts {
    let own = in_dim(fs, d, fs.len() as int);
    if is_scored(fs, covered, d) {
        DimFacts { dim: d, status: "scored"@, sub_score: Some(points(own) as u32), findings: own }
    } else {
        DimFacts { dim: d, status: "na"@, sub_score: None, findings: own }
    }
}

pub open spec fn dim_scores(fs: Seq<FindingFacts>, covered: Seq<Dim>) -> Seq<DimFacts> {
    Seq::new(ALL_DIMS@.len(), |i: int| dim_score(fs, covered, ALL_DIMS@[i]))
}

/// The weighted points of the scored ones of the first `n` dimensions.
pub open spec fn weighted(fs: Seq<FindingFacts>, covered: Seq<Dim>, n: int) -> int
    decreases n,
{
    if n <= 0 || n > ALL_DIMS@.len() {
        0
    } else {
        let d = ALL_DIMS@[n - 1];
        weighted(fs, covered, n - 1) + if is_scored(fs, covered, d) {
            points(in_dim(fs, d, fs.len() as int)) * dim_weight(d)
        } else {
            0
        }
    }
}

/// The weights of the scored ones of the first `n` dimensions.
pub open spec fn weights(fs: Seq<FindingFacts>, covered: Seq<Dim>, n: int) -> int
    decreases n,
{
    if n <= 0 || n > ALL_DIMS@.len() {
        0
    } else {
        let d = ALL_DIMS@[n - 1];
        weights(fs, covered, n - 1) + if is_scored(fs, covered, d) {
            dim_weight(d)
        } else {
            0
        }
    }
}

/// The weighted average over the scored dimensions, rounded to the nearest; 100 where none is.
pub open spec fn composite_of(fs: Seq<FindingFacts>, covered: Seq<Dim>) -> int {
    let num = weighted(fs, covered, 5);
    let den = weights(fs, covered, 5);
    if den == 0 {
        100
    } else {
        (num + den / 2) / den
    }
}

// --- the grade -------------------------------------------------------------

/// The letter of a composite.
pub open spec fn band_of(composite: int) -> char {
    if 90 <= composite <= 100 {
        'A'
    } else if 80 <= composite < 90 {
        'B'
    } else if 70 <= composite < 80 {
        'C'
    } else if 60 <= composite < 70 {
        'D'
    } else {
        'F'
    }
}

/// The letter of a composite.
pub fn band(composite: u32) -> (r: char)
    ensures
        r == band_of(composite as int),
        90 <= composite <= 100 ==> r == 'A',
        80 <= composite <= 89 ==> r == 'B',
        70 <= composite <= 79 ==> r == 'C',
        60 <= composite <= 69 ==> r == 'D',
        composite < 60 || composite > 100 ==> r == 'F',
{
    if composite >= 90 && composite <= 100 {
        'A'
    } else if composite >= 80 && composite < 90 {
        'B'
    } else if composite >= 70 && composite < 80 {
        'C'
    } else if composite >= 60 && composite < 70 {
        'D'
    } else {
        'F'
    }
}

/// The lower of two letter grades: the later letter.
pub open spec fn worse_of(a: char, b: char) -> char {
    if a >= b {
        a
    } else {
        b
    }
}

/// The lower of two letter grades.
pub fn worse(a: char, b: char) -> (r: char)
    ensures
        r == worse_of(a, b),
{
    if a >= b {
        a
    } else {
        b
    }
}

pub const CRITICAL_CAP: &'static str = "critical-present:cap-F";

pub const D1_D2_CAP: &'static str = "d1|d2-high-unresolved:cap-C";

pub const SHELL_CAP: &'static str = "shell-exec-surface:cap-D";

pub const HIGH_CAP: &'static str = "high-unresolved:cap-B";

/// A high finding counts towards descriptions or credentials.
pub open spec fn has_grave_high(fs: Seq<FindingFacts>) -> bool {
    exists|i: int|
        0 <= i < fs.len() && (#[trigger] fs[i]).severity == Severity::High && (dimension(fs[i].rule_id)
            == Dim::D1ToolInjection || dimension(fs[i].rule_id) == Dim::D2Credential)
}

/// Some finding is of the rule.
pub open spec fn has_rule(fs: Seq<FindingFacts>, rule_id: Seq<char>) -> bool {
    exists|i: int| 0 <= i < fs.len() && (#[trigger] fs[i]).rule_id == rule_id
}

/// `caps`, and one more where `on` holds.
pub open spec fn with_cap(caps: Seq<Seq<char>>, cap: Seq<char>, on: bool) -> Seq<Seq<char>> {
    if on {
        caps.push(cap)
    } else {
        caps
    }
}

/// The caps that findings put on the grade.
pub open spec fn caps_of(fs: Seq<FindingFacts>) -> Seq<Seq<char>> {
    let caps = with_cap(Seq::empty(), CRITICAL_CAP@, rules::has_severity(fs, Severity::Critical));
    let caps = with_cap(caps, D1_D2_CAP@, has_grave_high(fs));
    let caps = with_cap(caps, SHELL_CAP@, has_rule(fs, SHELL_RULE@));
    with_cap(caps, HIGH_CAP@, rules::has_severity(fs, Severity::High))
}

/// A grade, lowered to `cap` where `on` holds.
pub open spec fn capped(grade: char, cap: char, on: bool) -> char {
    if on {
        worse_of(grade, cap)
    } else {
        grade
    }
}

/// The grade: the letter of the composite, or the lowest of the caps where that is lower.
pub open spec fn grade_of(fs: Seq<FindingFacts>, composite: int) -> char {
    let g = capped(band_of(composite), 'F', rules::has_severity(fs, Severity::Critical));
    let g = capped(g, 'C', has_grave_high(fs));
    let g = capped(g, 'D', has_rule(fs, SHELL_RULE@));
    capped(g, 'B', rules::has_severity(fs, Severity::High))
}

/// Whether a grade is given or withheld.
#[derive(Debug, Clone, Copy, PartialEq, Eq, Structural)]
pub enum ScoreStatus {
    Scored,
    /// The tool surface could not be analyzed, so that the grade is withheld.
    InsufficientCoverage,
}

pub struct ScoreReport {
    pub status: ScoreStatus,
    pub composite: u32,
    pub grade: char,
    pub caps: Vec<String>,
    pub dims: Vec<DimScore>,
    pub modifiers: Vec<AppliedModifier>,
}

pub struct ReportFacts {
    pub status: ScoreStatus,
    pub composite: int,
    pub grade: char,
    pub caps: Seq<Seq<char>>,
    pub dims: Seq<DimFacts>,
    pub modifiers: Seq<ModifierFacts>,
}

impl View for ScoreReport {
    type V = ReportFacts;

    open spec fn view(&self) -> ReportFacts {
        ReportFacts {
            status: self.status,
            composite: self.composite as int,
            grade: self.grade,
            caps: text::strings(self.caps@),
            dims: dim_facts(self.dims@),
            modifiers: context::modifier_facts(self.modifiers@),
        }
    }
}

/// The report on findings.
pub open spec fn report_of(
    fs: Seq<FindingFacts>,
    modifiers: Seq<ModifierFacts>,
    covered: Seq<Dim>,
    analyzable: bool,
) -> ReportFacts {
    ReportFacts {
        status: if analyzable {
            ScoreStatus::Scored
        } else {
            ScoreStatus::InsufficientCoverage
        },
        composite: composite_of(fs, covered),
        grade: grade_of(fs, composite_of(fs, covered)),
        caps: caps_of(fs),
        dims: dim_scores(fs, covered),
        modifiers,
    }
}

fn findings_in(findings: &[Finding], d: Dim) -> (r: Vec<Finding>)
    ensures
        rules::finding_facts(r@) == in_dim(rules::finding_facts(findings@), d, findings@.len() as int),
{
    let ghost fs = rules::finding_facts(findings@);
    let mut out: Vec<Finding> = Vec::new();
    assert(rules::finding_facts(out@) =~= in_dim(fs, d, 0));
    for i in 0..findings.len()
        invariant
            fs == rules::finding_facts(findings@),
            rules::finding_facts(out@) == in_dim(fs, d, i as int),
    {
        let ghost before = rules::finding_facts(out@);
        assert(fs[i as int] == findings@[i as int]@);
        if dimension_of(findings[i].rule_id.as_str()) == d {
            let f = copy_finding(&findings[i]);
            out.push(f);
            assert(rules::finding_facts(out@) =~= before.push(f@));
        }
    }
    out
}

fn is_covered(dims: &[Dim], d: Dim) -> (r: bool)
    ensures
        r == dims@.contains(d),
{
    for i in 0..dims.len()
        invariant
            forall|j: int| 0 <= j < i ==> #[trigger] dims@[j] != d,
    {
        if dims[i] == d {
            return true;
        }
    }
    false
}

fn any_severity(findings: &[Finding], s: Severity) -> (r: bool)
    ensures
        r == rules::has_severity(rules::finding_facts(findings@), s),
{
    let ghost fs = rules::finding_facts(findings@);
    for i in 0..findings.len()
        invariant
            fs == rules::finding_facts(findings@),
            forall|j: int| 0 <= j < i ==> (#[trigger] fs[j]).severity != s,
    {
        assert(fs[i as int] == findings@[i as int]@);
        if findings[i].severity == s {
            return true;
        }
    }
    false
}

fn any_grave_high(findings: &[Finding]) -> (r: bool)
    ensures
        r == has_grave_high(rules::finding_facts(findings@)),
{
    let ghost fs = rules::finding_facts(findings@);
    for i in 0..findings.len()
        invariant
            fs == rules::finding_facts(findings@),
            forall|j: int|
                0 <= j < i ==> !((#[trigger] fs[j]).severity == Severity::High && (dimension(fs[j].rule_id)
                    == Dim::D1ToolInjection || dimension(fs[j].rule_id) == Dim::D2Credential)),
    {
        assert(fs[i as int] == findings@[i as int]@);
        let d: Dim = dimension_of(findings[i].rule_id.as_str());
        if findings[i].severity == Severity::High && (d == Dim::D1ToolInjection || d == Dim::D2Credential) {
            return true;
        }
    }
    false
}

fn any_of_rule(findings: &[Finding], rule_id: &str) -> (r: bool)
    ensures
        r == has_rule(rules::finding_facts(findings@), rule_id@),
{
    let ghost fs = rules::finding_facts(findings@);
    for i in 0..findings.len()
        invariant
            fs == rules::finding_facts(findings@),
            forall|j: int| 0 <= j < i ==> (#[trigger] fs[j]).rule_id != rule_id@,
    {
        assert(fs[i as int] == findings@[i as int]@);
        if same_str(findings[i].rule_id.as_str(), rule_id) {
            return true;
        }
    }
    false
}

fn add_cap(caps: &mut Vec<String>, cap: &str, on: bool)
    ensures
        text::strings(final(caps)@) == with_cap(text::strings(old(caps)@), cap@, on),
{
    let ghost before = text::strings(caps@);
    if on {
        caps.push(cap.to_owned());
        assert(text::strings(caps@) =~= before.push(cap@));
    }
}

fn copy_modifiers(v: &[AppliedModifier]) -> (r: Vec<AppliedModifier>)
    ensures
        context::modifier_facts(r@) == context::modifier_facts(v@),
{
    let mut out: Vec<AppliedModifier> = Vec::new();
    for i in 0..v.len()
        invariant
            out@.len() == i,
            forall|j: int| 0 <= j < i ==> (#[trigger] out@[j])@ == v@[j]@,
    {
        out.push(
            AppliedModifier {
                modifier: v[i].modifier.clone(),
                rule_id: v[i].rule_id.clone(),
                from: v[i].from,
                to: v[i].to,
            },
        );
    }
    assert(context::modifier_facts(out@) =~= context::modifier_facts(v@));
    out
}

proof fn lemma_points(fs: Seq<FindingFacts>)
    ensures
        0 <= points(fs) <= 100,
{
    lemma_total_charge(fs, fs.len() as int);
}

proof fn lemma_sums(fs: Seq<FindingFacts>, covered: Seq<Dim>, n: int)
    requires
        0 <= n <= 5,
    ensures
        0 <= weights(fs, covered, n) <= 25 * n,
        0 <= weighted(fs, covered, n) <= 100 * weights(fs, covered, n),
    decreases n,
{
    if n > 0 {
        lemma_sums(fs, covered, n - 1);
        let d = ALL_DIMS@[n - 1];
        let p = points(in_dim(fs, d, fs.len() as int));
        lemma_points(in_dim(fs, d, fs.len() as int));
        let w = dim_weight(d);
        assert(0 <= p * w <= 100 * w) by (nonlinear_arith)
            requires
                0 <= p <= 100,
                0 <= w,
        ;
    }
}

proof fn lemma_composite(fs: Seq<FindingFacts>, covered: Seq<Dim>)
    ensures
        0 <= composite_of(fs, covered) <= 100,
{
    lemma_sums(fs, covered, 5);
    let num = weighted(fs, covered, 5);
    let den = weights(fs, covered, 5);
    if den > 0 {
        assert(0 <= (num + den / 2) / den <= 100) by (nonlinear_arith)
            requires
                0 <= num <= 100 * den,
                den > 0,
        ;
    }
}

/// The report on findings. `scored_dims` are the dimensions whose checks ran; one that is neither
/// among them nor has a finding is left out of the average.
pub fn score(
    findings: &[Finding],
    modifiers: &[AppliedModifier],
    scored_dims: &[Dim],
    analyzable: bool,
) -> (r: ScoreReport)
    ensures
        r@ == report_of(rules::finding_facts(findings@), context::modifier_facts(modifiers@), scored_dims@, analyzable),
{
    let ghost fs = rules::finding_facts(findings@);
    let ghost covered = scored_dims@;
    let mut dims: Vec<DimScore> = Vec::new();
    let mut num: u32 = 0;
    let mut den: u32 = 0;
    for i in 0..5
        invariant
            fs == rules::finding_facts(findings@),
            covered == scored_dims@,
            dims@.len() == i,
            forall|j: int| 0 <= j < i ==> (#[trigger] dims@[j])@ == dim_score(fs, covered, ALL_DIMS@[j]),
            num == weighted(fs, covered, i as int),
            den == weights(fs, covered, i as int),
    {
        let dim: Dim = ALL_DIMS[i];
        let own = findings_in(findings, dim);
        let ghost mine = in_dim(fs, dim, fs.len() as int);
        assert(mine.len() == own@.len());
        proof {
            lemma_sums(fs, covered, i as int);
        }
        if is_covered(scored_dims, dim) || own.len() > 0 {
            let s: u32 = sub_score(&own);
            let w: u32 = dim.weight();
            assert(0 <= s * w <= 2500) by (nonlinear_arith)
                requires
                    0 <= s <= 100,
                    0 <= w <= 25,
            ;
            num = num + s * w;
            den = den + w;
            dims.push(DimScore { dim, status: "scored", sub_score: Some(s), findings: own });
        } else {
            dims.push(DimScore { dim, status: "na", sub_score: None, findings: own });
        }
    }
    assert(dim_facts(dims@) =~= dim_scores(fs, covered));
    proof {
        lemma_sums(fs, covered, 5);
        lemma_composite(fs, covered);
    }
    let composite: u32 = if den == 0 {
        100
    } else {
        (num + den / 2) / den
    };
    let critical: bool = any_severity(findings, Severity::Critical);
    let grave: bool = any_grave_high(findings);
    let shell: bool = any_of_rule(findings, SHELL_RULE);
    let high: bool = any_severity(findings, Severity::High);
    let mut caps: Vec<String> = Vec::new();
    assert(text::strings(caps@) =~= Seq::empty());
    add_cap(&mut caps, CRITICAL_CAP, critical);
    add_cap(&mut caps, D1_D2_CAP, grave);
    add_cap(&mut caps, SHELL_CAP, shell);
    add_cap(&mut caps, HIGH_CAP, high);
    let mut grade: char = band(composite);
    if critical {
        grade = worse(grade, 'F');
    }
    if grave {
        grade = worse(grade, 'C');
    }
    if shell {
        grade = worse(grade, 'D');
    }
    if high {
        grade = worse(grade, 'B');
    }
    ScoreReport {
        status: if analyzable {
            ScoreStatus::Scored
        } else {
            ScoreStatus::InsufficientCoverage
        },
        composite,
        grade,
        caps,
        dims,
        modifiers: copy_modifiers(modifiers),
    }
}

// --- laws ------------------------------------------------------------------

/// The weights of the dimensions add up to 100.
pub proof fn law_weights_add_up(fs: Seq<FindingFacts>)
    ensures
        weights(fs, ALL_DIMS@, 5) == 100,
{
    reveal_with_fuel(weights, 6);
    assert(ALL_DIMS@.contains(ALL_DIMS@[0]));
    assert(ALL_DIMS@.contains(ALL_DIMS@[1]));
    assert(ALL_DIMS@.contains(ALL_DIMS@[2]));
    assert(ALL_DIMS@.contains(ALL_DIMS@[3]));
    assert(ALL_DIMS@.contains(ALL_DIMS@[4]));
}

/// Every score lies between 0 and 100, that of a dimension and the composite.
pub proof fn law_scores_are_percentages(fs: Seq<FindingFacts>, covered: Seq<Dim>, d: Dim)
    ensures
        dim_score(fs, covered, d).sub_score matches Some(s) ==> s <= 100,
        0 <= composite_of(fs, covered) <= 100,
{
    lemma_points(in_dim(fs, d, fs.len() as int));
    lemma_composite(fs, covered);
}

/// How many of the first `n` findings are of the rule, without repeats.
pub open spec fn counted(fs: Seq<FindingFacts>, rule_id: Seq<char>, n: int) -> nat
    decreases n,
{
    if n <= 0 || n > fs.len() {
        0
    } else if fs[n - 1].rule_id != rule_id || is_repeat(fs, n - 1) {
        counted(fs, rule_id, n - 1)
    } else {
        counted(fs, rule_id, n - 1) + 1
    }
}

/// A rule costs its penalty once for one finding and twice for more, where its findings are
/// equally grave. Repeats of a file and line do not count.
pub proof fn law_rule_costs_at_most_twice(fs: Seq<FindingFacts>, rule_id: Seq<char>, p: int, n: int)
    requires
        0 <= n <= fs.len(),
        forall|i: int|
            0 <= i < fs.len() && (#[trigger] fs[i]).rule_id == rule_id ==> penalty_of(fs[i].severity) == p,
    ensures
        charge(fs, rule_id, n) == (if counted(fs, rule_id, n) == 0 {
            0
        } else if counted(fs, rule_id, n) == 1 {
            p
        } else {
            2 * p
        }),
    decreases n,
{
    if n > 0 {
        law_rule_costs_at_most_twice(fs, rule_id, p, n - 1);
        assert(fs[n - 1].rule_id == rule_id ==> penalty_of(fs[n - 1].severity) == p);
        assert(fs[n - 1].rule_id == rule_id ==> p >= 0);
    }
}

/// A grave surface does not average away: a critical finding makes the grade F, a high one keeps it
/// at B or below, at C or below where it is about descriptions or credentials, and a shell that is
/// fed with tool input keeps it at D or below. No grade is better than that of its composite.
pub proof fn law_grade_is_capped(fs: Seq<FindingFacts>, composite: int)
    ensures
        rules::has_severity(fs, Severity::Critical) ==> grade_of(fs, composite) == 'F',
        has_grave_high(fs) ==> grade_of(fs, composite) >= 'C',
        has_rule(fs, SHELL_RULE@) ==> grade_of(fs, composite) >= 'D',
        rules::has_severity(fs, Severity::High) ==> grade_of(fs, composite) >= 'B',
        grade_of(fs, composite) >= band_of(composite),
{
}

/// The grade is that of the composite exactly where no cap is applied or the caps are no lower.
pub proof fn law_uncapped_grade_is_the_band(fs: Seq<FindingFacts>, composite: int)
    ensures
        caps_of(fs).len() == 0 ==> grade_of(fs, composite) == band_of(composite),
        grade_of(fs, composite) != band_of(composite) ==> caps_of(fs).len() > 0,
{
}

/// No dimension has a score without evidence: a finding, or the word that its checks ran.
pub proof fn law_score_needs_evidence(fs: Seq<FindingFacts>, covered: Seq<Dim>, d: Dim)
    ensures
        dim_score(fs, covered, d).sub_score is Some <==> (covered.contains(d) || dim_score(
            fs,
            covered,
            d,
        ).findings.len() > 0),
{
}

/// Where the checks ran and found nothing, every score is 100 and the grade is A.
pub proof fn law_clean_server_is_graded_a(covered: Seq<Dim>)
    ensures
        composite_of(Seq::empty(), covered) == 100,
        grade_of(Seq::empty(), 100) == 'A',
        caps_of(Seq::empty()).len() == 0,
{
    let fs = Seq::<FindingFacts>::empty();
    assert forall|d: Dim| #[trigger] in_dim(fs, d, 0) =~= fs by {}
    assert(points(fs) == 100);
    lemma_clean_sums(covered, 5);
    lemma_sums(fs, covered, 5);
    let num = weighted(fs, covered, 5);
    let den = weights(fs, covered, 5);
    if den > 0 {
        assert((num + den / 2) / den == 100) by (nonlinear_arith)
            requires
                num == 100 * den,
                den > 0,
        ;
    }
}

proof fn lemma_clean_sums(covered: Seq<Dim>, n: int)
    requires
        0 <= n <= 5,
    ensures
        weighted(Seq::empty(), covered, n) == 100 * weights(Seq::empty(), covered, n),
    decreases n,
{
    let fs = Seq::<FindingFacts>::empty();
    if n > 0 {
        lemma_clean_sums(covered, n - 1);
        let d = ALL_DIMS@[n - 1];
        assert(in_dim(fs, d, 0) =~= fs);
        assert(points(fs) == 100);
    }
}

/// Each finding counts towards exactly one dimension.
pub proof fn law_findings_are_divided(fs: Seq<FindingFacts>, n: int)
    requires
        0 <= n <= fs.len(),
    ensures
        in_dim(fs, Dim::D1ToolInjection, n).len() + in_dim(fs, Dim::D2Credential, n).len() + in_dim(
            fs,
            Dim::D3Egress,
            n,
        ).len() + in_dim(fs, Dim::D4Permission, n).len() + in_dim(fs, Dim::D5Provenance, n).len() == n,
    decreases n,
{
    if n > 0 {
        law_findings_are_divided(fs, n - 1);
    }
}

/// The dimension of each rule.
pub open spec fn rule_dim(r: Rule) -> Dim {
    match r {
        Rule::ToolDescriptionInjection => Dim::D1ToolInjection,
        Rule::ToolShadowing => Dim::D1ToolInjection,
        Rule::CredentialExfiltration => Dim::D2Credential,
        Rule::SecretInConfig => Dim::D2Credential,
        Rule::SsrfUserControlledUrl => Dim::D3Egress,
        Rule::TlsVerificationDisabled => Dim::D3Egress,
        Rule::DepsUnpinned => Dim::D5Provenance,
        _ => Dim::D4Permission,
    }
}

/// Each rule counts towards the dimension that it belongs to.
pub proof fn law_every_rule_has_its_dimension(r: Rule)
    ensures
        dimension(catalog::rule_id(r)) == rule_dim(r),
{
    let id = catalog::rule_id(r);
    catalog::lemma_rule_mark(r);
    reveal_strlit("MCP-TOOL-DESCRIPTION-INJECTION");
    reveal_strlit("MCP-HIDDEN-TOOL-METADATA");
    reveal_strlit("MCP-DYNAMIC-TOOL-DEFINITION");
    reveal_strlit("MCP-TOOL-SHADOWING");
    reveal_strlit("MCP-CREDENTIAL-EXFILTRATION");
    reveal_strlit("MCP-SECRET-IN-CONFIG");
    reveal_strlit("MCP-CREDENTIAL-LOGGED");
    reveal_strlit("MCP-TOKEN-PASSTHROUGH-UNSCOPED");
    reveal_strlit("MCP-SSRF-USER-CONTROLLED-URL");
    reveal_strlit("MCP-UNRESTRICTED-EGRESS");
    reveal_strlit("MCP-TLS-VERIFICATION-DISABLED");
    reveal_strlit("MCP-DEPS-UNPINNED");
    reveal_strlit("MCP-RELEASE-UNSIGNED");
    reveal_strlit("MCP-MAINTAINER-SIGNAL");
    assert(catalog::id_mark(D1_RULES@[0]@) == (30int, 'T', 'O', 'L'));
    assert(catalog::id_mark(D1_RULES@[1]@) == (24int, 'H', 'I', 'D'));
    assert(catalog::id_mark(D1_RULES@[2]@) == (27int, 'D', 'Y', 'A'));
    assert(catalog::id_mark(D1_RULES@[3]@) == (18int, 'T', 'O', 'L'));
    assert(catalog::id_mark(D2_RULES@[0]@) == (27int, 'C', 'R', 'D'));
    assert(catalog::id_mark(D2_RULES@[1]@) == (20int, 'S', 'E', 'R'));
    assert(catalog::id_mark(D2_RULES@[2]@) == (21int, 'C', 'R', 'D'));
    assert(catalog::id_mark(D2_RULES@[3]@) == (30int, 'T', 'O', 'E'));
    assert(catalog::id_mark(D3_RULES@[0]@) == (28int, 'S', 'S', 'F'));
    assert(catalog::id_mark(D3_RULES@[1]@) == (23int, 'U', 'N', 'E'));
    assert(catalog::id_mark(D3_RULES@[2]@) == (29int, 'T', 'L', '-'));
    assert(catalog::id_mark(D5_RULES@[0]@) == (17int, 'D', 'E', 'S'));
    assert(catalog::id_mark(D5_RULES@[1]@) == (20int, 'R', 'E', 'E'));
    assert(catalog::id_mark(D5_RULES@[2]@) == (21int, 'M', 'A', 'N'));
    assert forall|k: int| 0 <= k < 4 && id == (#[trigger] D1_RULES@[k])@ implies rule_dim(r) == Dim::D1ToolInjection by {
        assert(k == 0 || k == 1 || k == 2 || k == 3);
    }
    assert forall|k: int| 0 <= k < 4 && id == (#[trigger] D2_RULES@[k])@ implies rule_dim(r) == Dim::D2Credential by {
        assert(k == 0 || k == 1 || k == 2 || k == 3);
    }
    assert forall|k: int| 0 <= k < 3 && id == (#[trigger] D3_RULES@[k])@ implies rule_dim(r) == Dim::D3Egress by {
        assert(k == 0 || k == 1 || k == 2);
    }
    assert forall|k: int| 0 <= k < 3 && id == (#[trigger] D5_RULES@[k])@ implies rule_dim(r) == Dim::D5Provenance by {
        assert(k == 0 || k == 1 || k == 2);
    }
    assert(r == Rule::ToolDescriptionInjection ==> id == D1_RULES@[0]@);
    assert(r == Rule::ToolShadowing ==> id == D1_RULES@[3]@);
    assert(r == Rule::CredentialExfiltration ==> id == D2_RULES@[0]@);
    assert(r == Rule::SecretInConfig ==> id == D2_RULES@[1]@);
    assert(r == Rule::SsrfUserControlledUrl ==> id == D3_RULES@[0]@);
    assert(r == Rule::TlsVerificationDisabled ==> id == D3_RULES@[2]@);
    assert(r == Rule::DepsUnpinned ==> id == D5_RULES@[0]@);
}

/// The findings of each rule are equally grave.
pub open spec fn severity_by_rule(fs: Seq<FindingFacts>) -> bool {
    forall|i: int, j: int|
        0 <= i < fs.len() && 0 <= j < fs.len() && (#[trigger] fs[i]).rule_id == (#[trigger] fs[j]).rule_id
            ==> fs[i].severity == fs[j].severity
}

proof fn lemma_charge_prefix(fs: Seq<FindingFacts>, f: FindingFacts, rule_id: Seq<char>, n: int)
    requires
        0 <= n <= fs.len(),
    ensures
        charge(fs.push(f), rule_id, n) == charge(fs, rule_id, n),
    decreases n,
{
    if n > 0 {
        lemma_charge_prefix(fs, f, rule_id, n - 1);
        let all = fs.push(f);
        assert(all[n - 1] == fs[n - 1]);
        if is_repeat(fs, n - 1) {
            let j = choose|j: int| 0 <= j < n - 1 && same_place(#[trigger] fs[j], fs[n - 1]);
            assert(same_place(all[j], all[n - 1]));
        }
        if is_repeat(all, n - 1) {
            let j = choose|j: int| 0 <= j < n - 1 && same_place(#[trigger] all[j], all[n - 1]);
            assert(same_place(fs[j], fs[n - 1]));
        }
    }
}

proof fn lemma_charge_grows(fs: Seq<FindingFacts>, f: FindingFacts, rule_id: Seq<char>)
    requires
        severity_by_rule(fs.push(f)),
    ensures
        charge(fs, rule_id, fs.len() as int) <= charge(fs.push(f), rule_id, fs.len() as int + 1),
{
    let all = fs.push(f);
    let n = fs.len() as int;
    lemma_charge_prefix(fs, f, rule_id, n);
    assert(all[n] == f);
    if f.rule_id == rule_id {
        let p = penalty_of(f.severity);
        assert forall|i: int| 0 <= i < fs.len() && (#[trigger] fs[i]).rule_id == rule_id implies penalty_of(
            fs[i].severity,
        ) == p by {
            assert(all[i] == fs[i]);
            assert(all[i].rule_id == all[n].rule_id);
        }
        law_rule_costs_at_most_twice(fs, rule_id, p, n);
    }
}

proof fn lemma_total_grows(fs: Seq<FindingFacts>, f: FindingFacts, n: int)
    requires
        severity_by_rule(fs.push(f)),
        0 <= n <= fs.len(),
    ensures
        total_charge(fs, n) <= total_charge(fs.push(f), n),
    decreases n,
{
    if n > 0 {
        lemma_total_grows(fs, f, n - 1);
        let all = fs.push(f);
        assert(all[n - 1] == fs[n - 1]);
        if leads_rule(fs, n - 1) {
            assert forall|j: int| 0 <= j < n - 1 implies (#[trigger] all[j]).rule_id != all[n - 1].rule_id by {
                assert(all[j] == fs[j]);
            }
        }
        lemma_charge_grows(fs, f, fs[n - 1].rule_id);
        lemma_charge(all, fs[n - 1].rule_id, all.len() as int);
    }
}

/// One more finding never raises a score, where the findings of each rule are equally grave.
pub proof fn law_more_findings_never_help(fs: Seq<FindingFacts>, f: FindingFacts)
    requires
        severity_by_rule(fs.push(f)),
    ensures
        points(fs.push(f)) <= points(fs),
{
    lemma_total_grows(fs, f, fs.len() as int);
    lemma_charge(fs.push(f), f.rule_id, fs.len() as int + 1);
}

proof fn lemma_in_dim_push(fs: Seq<FindingFacts>, f: FindingFacts, d: Dim, n: int)
    requires
        0 <= n <= fs.len(),
    ensures
        in_dim(fs.push(f), d, n) == in_dim(fs, d, n),
    decreases n,
{
    if n > 0 {
        lemma_in_dim_push(fs, f, d, n - 1);
        assert(fs.push(f)[n - 1] == fs[n - 1]);
    }
}

proof fn lemma_in_dim_members(fs: Seq<FindingFacts>, d: Dim, n: int)
    requires
        0 <= n <= fs.len(),
    ensures
        forall|i: int|
            0 <= i < in_dim(fs, d, n).len() ==> exists|j: int| 0 <= j < n && #[trigger] fs[j] == #[trigger] in_dim(fs, d, n)[i],
    decreases n,
{
    if n > 0 {
        lemma_in_dim_members(fs, d, n - 1);
        let before = in_dim(fs, d, n - 1);
        let now = in_dim(fs, d, n);
        assert forall|i: int| 0 <= i < now.len() implies exists|j: int|
            0 <= j < n && #[trigger] fs[j] == #[trigger] now[i] by {
            if i < before.len() {
                assert(now[i] == before[i]);
                let j = choose|j: int| 0 <= j < n - 1 && #[trigger] fs[j] == before[i];
                assert(fs[j] == now[i]);
            } else {
                assert(fs[n - 1] == now[i]);
            }
        }
    }
}

/// The findings of one dimension, after one more finding.
proof fn lemma_dim_after(fs: Seq<FindingFacts>, f: FindingFacts, d: Dim)
    requires
        severity_by_rule(fs.push(f)),
    ensures
        ({
            let own = in_dim(fs, d, fs.len() as int);
            let now = in_dim(fs.push(f), d, fs.len() as int + 1);
            &&& now == if dimension(f.rule_id) == d {
                own.push(f)
            } else {
                own
            }
            &&& points(now) <= points(own)
        }),
{
    let all = fs.push(f);
    let n = fs.len() as int;
    let own = in_dim(fs, d, n);
    let now = in_dim(all, d, n + 1);
    lemma_in_dim_push(fs, f, d, n);
    assert(all[n] == f);
    if dimension(f.rule_id) == d {
        lemma_in_dim_members(all, d, n + 1);
        assert(now == own.push(f));
        assert forall|i: int, j: int|
            0 <= i < now.len() && 0 <= j < now.len() && (#[trigger] now[i]).rule_id == (#[trigger]
            now[j]).rule_id implies now[i].severity == now[j].severity by {
            let a = choose|a: int| 0 <= a < n + 1 && #[trigger] all[a] == now[i];
            let b = choose|b: int| 0 <= b < n + 1 && #[trigger] all[b] == now[j];
            assert(all[a].rule_id == all[b].rule_id);
        }
        law_more_findings_never_help(own, f);
    }
}

proof fn lemma_weighted_falls(fs: Seq<FindingFacts>, f: FindingFacts, covered: Seq<Dim>, n: int)
    requires
        severity_by_rule(fs.push(f)),
        is_scored(fs, covered, dimension(f.rule_id)),
    ensures
        weights(fs.push(f), covered, n) == weights(fs, covered, n),
        weighted(fs.push(f), covered, n) <= weighted(fs, covered, n),
        0 <= weights(fs, covered, n),
    decreases n,
{
    if 0 < n <= ALL_DIMS@.len() {
        lemma_weighted_falls(fs, f, covered, n - 1);
        let d = ALL_DIMS@[n - 1];
        lemma_dim_after(fs, f, d);
        let p = points(in_dim(fs, d, fs.len() as int));
        let q = points(in_dim(fs.push(f), d, fs.push(f).len() as int));
        let w = dim_weight(d);
        assert(q * w <= p * w) by (nonlinear_arith)
            requires
                q <= p,
                0 <= w,
        ;
    }
}

/// One more finding never raises the composite, lifts the grade or takes a cap away, where the
/// findings of each rule are equally grave. The dimension of the finding must have been scored
/// before: the composite is an average over the scored dimensions, and one that joins them can lie
/// above it.
pub proof fn law_more_findings_never_help_the_grade(fs: Seq<FindingFacts>, f: FindingFacts, covered: Seq<Dim>)
    requires
        severity_by_rule(fs.push(f)),
        is_scored(fs, covered, dimension(f.rule_id)),
    ensures
        composite_of(fs.push(f), covered) <= composite_of(fs, covered),
        grade_of(fs, composite_of(fs, covered)) <= grade_of(fs.push(f), composite_of(fs.push(f), covered)),
        forall|k: int| 0 <= k < caps_of(fs).len() ==> caps_of(fs.push(f)).contains(#[trigger] caps_of(fs)[k]),
{
    let all = fs.push(f);
    lemma_weighted_falls(fs, f, covered, 5);
    law_scores_are_percentages(fs, covered, dimension(f.rule_id));
    law_scores_are_percentages(all, covered, dimension(f.rule_id));
    let den = weights(fs, covered, 5);
    let x = weighted(all, covered, 5) + den / 2;
    let y = weighted(fs, covered, 5) + den / 2;
    if den > 0 {
        assert(x / den <= y / den) by (nonlinear_arith)
            requires
                x <= y,
                0 < den,
        ;
    }
    lemma_signs_stay(fs, f);
    let c = caps_of(fs);
    let now = caps_of(all);
    lemma_caps(fs);
    lemma_caps(all);
    assert forall|k: int| 0 <= k < c.len() implies now.contains(#[trigger] c[k]) by {
        assert(c.contains(c[k]));
    }
}

/// What the caps look for stays there when a finding is added.
proof fn lemma_signs_stay(fs: Seq<FindingFacts>, f: FindingFacts)
    ensures
        rules::has_severity(fs, Severity::Critical) ==> rules::has_severity(fs.push(f), Severity::Critical),
        rules::has_severity(fs, Severity::High) ==> rules::has_severity(fs.push(f), Severity::High),
        has_grave_high(fs) ==> has_grave_high(fs.push(f)),
        has_rule(fs, SHELL_RULE@) ==> has_rule(fs.push(f), SHELL_RULE@),
{
    let all = fs.push(f);
    assert forall|i: int| 0 <= i < fs.len() implies #[trigger] all[i] == fs[i] by {}
    if rules::has_severity(fs, Severity::Critical) {
        let i = choose|i: int| 0 <= i < fs.len() && (#[trigger] fs[i]).severity == Severity::Critical;
        assert(all[i].severity == Severity::Critical);
    }
    if rules::has_severity(fs, Severity::High) {
        let i = choose|i: int| 0 <= i < fs.len() && (#[trigger] fs[i]).severity == Severity::High;
        assert(all[i].severity == Severity::High);
    }
    if has_grave_high(fs) {
        let i = choose|i: int|
            0 <= i < fs.len() && (#[trigger] fs[i]).severity == Severity::High && (dimension(fs[i].rule_id)
                == Dim::D1ToolInjection || dimension(fs[i].rule_id) == Dim::D2Credential);
        assert(all[i] == fs[i]);
    }
    if has_rule(fs, SHELL_RULE@) {
        let i = choose|i: int| 0 <= i < fs.len() && (#[trigger] fs[i]).rule_id == SHELL_RULE@;
        assert(all[i].rule_id == SHELL_RULE@);
    }
}

/// Which caps there are.
proof fn lemma_caps(fs: Seq<FindingFacts>)
    ensures
        forall|c: Seq<char>| #[trigger]
            caps_of(fs).contains(c) <==> (c == CRITICAL_CAP@ && rules::has_severity(fs, Severity::Critical)) || (c == D1_D2_CAP@
                && has_grave_high(fs)) || (c == SHELL_CAP@ && has_rule(fs, SHELL_RULE@)) || (c == HIGH_CAP@
                && rules::has_severity(fs, Severity::High)),
{
    let c0 = Seq::<Seq<char>>::empty();
    let c1 = with_cap(c0, CRITICAL_CAP@, rules::has_severity(fs, Severity::Critical));
    let c2 = with_cap(c1, D1_D2_CAP@, has_grave_high(fs));
    let c3 = with_cap(c2, SHELL_CAP@, has_rule(fs, SHELL_RULE@));
    lemma_cap(c0, CRITICAL_CAP@, rules::has_severity(fs, Severity::Critical));
    lemma_cap(c1, D1_D2_CAP@, has_grave_high(fs));
    lemma_cap(c2, SHELL_CAP@, has_rule(fs, SHELL_RULE@));
    lemma_cap(c3, HIGH_CAP@, rules::has_severity(fs, Severity::High));
}

proof fn lemma_cap(caps: Seq<Seq<char>>, cap: Seq<char>, on: bool)
    ensures
        forall|c: Seq<char>| #[trigger] with_cap(caps, cap, on).contains(c) <==> caps.contains(c) || (on && c == cap),
{
    let now = with_cap(caps, cap, on);
    assert forall|c: Seq<char>| #[trigger] now.contains(c) <==> caps.contains(c) || (on && c == cap) by {
        if caps.contains(c) {
            let i = choose|i: int| 0 <= i < caps.len() && caps[i] == c;
            assert(now[i] == c);
        }
        if on && c == cap {
            assert(now[caps.len() as int] == c);
        }
    }
}

} // verus!
