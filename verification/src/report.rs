//! A report as a JSON document.
use crate::catalog;
use crate::context;
use crate::context::{AppliedModifier, ModifierFacts};
use crate::document;
use crate::document::{
    Doc, Json, add_member, list_json, numbers_json, object_json, opt_number_json, opt_text_json,
    text_json, texts_json,
};
use crate::rules;
use crate::rules::{Finding, FindingFacts};
use crate::score;
use crate::score::{DimFacts, DimScore, ReportFacts, ScoreReport, ScoreStatus};
use crate::text::string_of;
use vstd::prelude::*;

verus! {

pub const RULESET_VERSION: &'static str = "pack-mcp-core@0.1.0";

/// `members`, and one more.
pub open spec fn with_member(members: Seq<(Seq<char>, Doc)>, key: Seq<char>, value: Doc) -> Seq<(Seq<char>, Doc)> {
    members.push((key, value))
}

/// What a finding points at.
pub open spec fn evidence_doc(f: FindingFacts) -> Doc {
    let m = with_member(Seq::empty(), "entities"@, Doc::Arr(document::text_docs(f.evidence)));
    let m = with_member(m, "file"@, document::text_or_null(f.file));
    let m = with_member(m, "line"@, document::number_or_null(f.line));
    Doc::Obj(with_member(m, "lines"@, Doc::Arr(document::number_docs(f.lines))))
}

/// A finding of a report.
pub open spec fn finding_doc(f: FindingFacts) -> Doc {
    let m = with_member(Seq::empty(), "rule"@, Doc::Str(f.rule_id));
    let m = with_member(m, "severity"@, Doc::Str(catalog::severity_name(f.severity)));
    Doc::Obj(with_member(m, "evidence"@, evidence_doc(f)))
}

pub open spec fn finding_docs(fs: Seq<FindingFacts>) -> Seq<Doc> {
    Seq::new(fs.len(), |i: int| finding_doc(fs[i]))
}

/// A dimension of a report.
pub open spec fn dim_doc(d: DimFacts) -> Doc {
    let m = with_member(Seq::empty(), "id"@, Doc::Str(score::dim_id(d.dim)));
    let m = with_member(m, "weight"@, Doc::Int(score::dim_weight(d.dim)));
    let m = with_member(m, "status"@, Doc::Str(d.status));
    let m = with_member(m, "sub_score"@, document::number_or_null(d.sub_score));
    Doc::Obj(with_member(m, "findings"@, Doc::Arr(finding_docs(d.findings))))
}

pub open spec fn dim_docs(ds: Seq<DimFacts>) -> Seq<Doc> {
    Seq::new(ds.len(), |i: int| dim_doc(ds[i]))
}

/// An applied modifier of a report.
pub open spec fn modifier_doc(a: ModifierFacts) -> Doc {
    let m = with_member(Seq::empty(), "modifier"@, Doc::Str(a.modifier));
    let m = with_member(m, "rule"@, Doc::Str(a.rule_id));
    let m = with_member(m, "from"@, Doc::Str(catalog::severity_name(a.from)));
    Doc::Obj(with_member(m, "to"@, Doc::Str(catalog::severity_name(a.to))))
}

pub open spec fn modifier_docs(ms: Seq<ModifierFacts>) -> Seq<Doc> {
    Seq::new(ms.len(), |i: int| modifier_doc(ms[i]))
}

/// The name of a status.
pub open spec fn status_name(s: ScoreStatus) -> Seq<char> {
    match s {
        ScoreStatus::Scored => "scored"@,
        ScoreStatus::InsufficientCoverage => "insufficient_coverage"@,
    }
}

/// The composite; null where the grade is withheld.
pub open spec fn composite_doc(r: ReportFacts) -> Doc {
    if r.status == ScoreStatus::Scored {
        Doc::Int(r.composite)
    } else {
        Doc::Null
    }
}

/// The grade; null where it is withheld.
pub open spec fn grade_doc(r: ReportFacts) -> Doc {
    if r.status == ScoreStatus::Scored {
        Doc::Str(seq![r.grade])
    } else {
        Doc::Null
    }
}

/// The members of a report on the named server at a commit.
pub open spec fn report_members(r: ReportFacts, server: Seq<char>, repo_url: Seq<char>, commit: Seq<char>) -> Seq<
    (Seq<char>, Doc),
> {
    let m = with_member(Seq::empty(), "server"@, Doc::Str(server));
    let m = with_member(m, "repo_url"@, Doc::Str(repo_url));
    let m = with_member(m, "commit"@, Doc::Str(commit));
    let m = with_member(m, "ruleset_version"@, Doc::Str(RULESET_VERSION@));
    let m = with_member(m, "status"@, Doc::Str(status_name(r.status)));
    let m = with_member(m, "composite"@, composite_doc(r));
    let m = with_member(m, "grade"@, grade_doc(r));
    let m = with_member(m, "grade_caps_applied"@, Doc::Arr(document::text_docs(r.caps)));
    let m = with_member(m, "context_modifiers"@, Doc::Arr(modifier_docs(r.modifiers)));
    with_member(m, "dimensions"@, Doc::Arr(dim_docs(r.dims)))
}

fn no_members() -> (r: Vec<(String, Json)>)
    ensures
        document::member_docs(r@) == Seq::<(Seq<char>, Doc)>::empty(),
{
    let out: Vec<(String, Json)> = Vec::new();
    assert(document::member_docs(out@) =~= Seq::empty());
    out
}

fn finding_json(f: &Finding) -> (r: Json)
    ensures
        r@ == finding_doc(f@),
{
    let mut e = no_members();
    add_member(&mut e, "entities", texts_json(&f.evidence));
    add_member(&mut e, "file", opt_text_json(&f.file));
    add_member(&mut e, "line", opt_number_json(f.line));
    add_member(&mut e, "lines", numbers_json(&f.lines));
    let mut m = no_members();
    add_member(&mut m, "rule", text_json(f.rule_id.as_str()));
    add_member(&mut m, "severity", text_json(f.severity.as_str()));
    add_member(&mut m, "evidence", object_json(e));
    object_json(m)
}

fn dim_json(d: &DimScore) -> (r: Json)
    ensures
        r@ == dim_doc(d@),
{
    let ghost fs = rules::finding_facts(d.findings@);
    let mut findings: Vec<Json> = Vec::new();
    for i in 0..d.findings.len()
        invariant
            fs == rules::finding_facts(d.findings@),
            findings@.len() == i,
            forall|j: int| 0 <= j < i ==> document::doc(#[trigger] findings@[j]) == finding_doc(fs[j]),
    {
        assert(fs[i as int] == d.findings@[i as int]@);
        findings.push(finding_json(&d.findings[i]));
    }
    assert(document::docs(findings@) =~= finding_docs(fs));
    let mut m = no_members();
    add_member(&mut m, "id", text_json(d.dim.id()));
    add_member(&mut m, "weight", Json::Int(d.dim.weight() as i64));
    add_member(&mut m, "status", text_json(d.status));
    add_member(&mut m, "sub_score", opt_number_json(d.sub_score));
    add_member(&mut m, "findings", list_json(findings));
    object_json(m)
}

fn modifier_json(a: &AppliedModifier) -> (r: Json)
    ensures
        r@ == modifier_doc(a@),
{
    let mut m = no_members();
    add_member(&mut m, "modifier", text_json(a.modifier.as_str()));
    add_member(&mut m, "rule", text_json(a.rule_id.as_str()));
    add_member(&mut m, "from", text_json(a.from.as_str()));
    add_member(&mut m, "to", text_json(a.to.as_str()));
    object_json(m)
}

impl ScoreReport {
    /// The report on the named server at a commit.
    pub fn to_json(&self, server: &str, repo_url: &str, commit: &str) -> (r: Json)
        ensures
            r@ == Doc::Obj(report_members(self@, server@, repo_url@, commit@)),
    {
        let ghost ds = score::dim_facts(self.dims@);
        let mut dims: Vec<Json> = Vec::new();
        for i in 0..self.dims.len()
            invariant
                ds == score::dim_facts(self.dims@),
                dims@.len() == i,
                forall|j: int| 0 <= j < i ==> document::doc(#[trigger] dims@[j]) == dim_doc(ds[j]),
        {
            assert(ds[i as int] == self.dims@[i as int]@);
            dims.push(dim_json(&self.dims[i]));
        }
        assert(document::docs(dims@) =~= dim_docs(ds));
        let ghost ms = context::modifier_facts(self.modifiers@);
        let mut modifiers: Vec<Json> = Vec::new();
        for i in 0..self.modifiers.len()
            invariant
                ms == context::modifier_facts(self.modifiers@),
                modifiers@.len() == i,
                forall|j: int| 0 <= j < i ==> document::doc(#[trigger] modifiers@[j]) == modifier_doc(ms[j]),
        {
            assert(ms[i as int] == self.modifiers@[i as int]@);
            modifiers.push(modifier_json(&self.modifiers[i]));
        }
        assert(document::docs(modifiers@) =~= modifier_docs(ms));
        let (status, composite, grade) = match self.status {
            ScoreStatus::Scored => {
                let mut letter: Vec<char> = Vec::new();
                letter.push(self.grade);
                assert(letter@ =~= seq![self.grade]);
                ("scored", Json::Int(self.composite as i64), Json::Str(string_of(&letter)))
            },
            ScoreStatus::InsufficientCoverage => ("insufficient_coverage", Json::Null, Json::Null),
        };
        let mut m = no_members();
        add_member(&mut m, "server", text_json(server));
        add_member(&mut m, "repo_url", text_json(repo_url));
        add_member(&mut m, "commit", text_json(commit));
        add_member(&mut m, "ruleset_version", text_json(RULESET_VERSION));
        add_member(&mut m, "status", text_json(status));
        add_member(&mut m, "composite", composite);
        add_member(&mut m, "grade", grade);
        add_member(&mut m, "grade_caps_applied", texts_json(&self.caps));
        add_member(&mut m, "context_modifiers", list_json(modifiers));
        add_member(&mut m, "dimensions", list_json(dims));
        object_json(m)
    }
}

/// The report on all servers that were scanned.
pub open spec fn registry_members(generated_at: i64, servers: Seq<Doc>) -> Seq<(Seq<char>, Doc)> {
    let m = with_member(Seq::empty(), "generated_at_unix"@, Doc::Int(generated_at as int));
    let m = with_member(m, "ruleset_version"@, Doc::Str(RULESET_VERSION@));
    let m = with_member(m, "count"@, Doc::Int((servers.len() as i64) as int));
    with_member(m, "servers"@, Doc::Arr(servers))
}

/// The report on all servers that were scanned, made at the given time.
pub fn registry_json(generated_at: i64, servers: Vec<Json>) -> (r: Json)
    ensures
        r@ == Doc::Obj(registry_members(generated_at, document::docs(servers@))),
{
    let n: usize = servers.len();
    let mut m = no_members();
    add_member(&mut m, "generated_at_unix", Json::Int(generated_at));
    add_member(&mut m, "ruleset_version", text_json(RULESET_VERSION));
    add_member(&mut m, "count", Json::Int(n as i64));
    add_member(&mut m, "servers", list_json(servers));
    object_json(m)
}

/// A withheld grade is never shown: the document then has neither a letter nor a composite, and
/// says so in its status.
pub proof fn law_withheld_grade_is_not_shown(
    r: ReportFacts,
    server: Seq<char>,
    repo_url: Seq<char>,
    commit: Seq<char>,
)
    requires
        r.status == ScoreStatus::InsufficientCoverage,
    ensures
        ({
            let m = report_members(r, server, repo_url, commit);
            &&& m[4] == ("status"@, Doc::Str("insufficient_coverage"@))
            &&& m[5] == ("composite"@, Doc::Null)
            &&& m[6] == ("grade"@, Doc::Null)
        }),
{
}

} // verus!
