//! What reports and scans of many servers are for, stated over the members of a document, the rows of a
//! table and the outcomes of a run.
use crate::catalog;
use crate::catalog::Severity;
use crate::context::ModifierFacts;
use crate::document;
use crate::document::Doc;
use crate::order;
use crate::report;
use crate::report::RULESET_VERSION;
use crate::rules::FindingFacts;
use crate::score;
use crate::score::{DimFacts, ReportFacts, ScoreStatus};
use crate::targets;
use crate::targets::{LETTERS, OutcomeFacts, TargetFacts};
use crate::text;
use vstd::prelude::*;

verus! {

// --- documents -------------------------------------------------------------

/// What a report says, member by member: which server at which commit, by which rules, and with which
/// result. The composite and the letter are given where the server was scored, and else are null.
pub proof fn law_reports_say_what_was_found(r: ReportFacts, server: Seq<char>, repo_url: Seq<char>, commit: Seq<char>)
    ensures
        ({
            let m = report::report_members(r, server, repo_url, commit);
            let scored = r.status == ScoreStatus::Scored;
            &&& m.len() == 10
            &&& m.contains(("server"@, Doc::Str(server)))
            &&& m.contains(("repo_url"@, Doc::Str(repo_url)))
            &&& m.contains(("commit"@, Doc::Str(commit)))
            &&& m.contains(("ruleset_version"@, Doc::Str("pack-mcp-core@0.1.0"@)))
            &&& scored ==> m.contains(("status"@, Doc::Str("scored"@)))
            &&& !scored ==> m.contains(("status"@, Doc::Str("insufficient_coverage"@)))
            &&& scored ==> m.contains(("composite"@, Doc::Int(r.composite)))
            &&& !scored ==> m.contains(("composite"@, Doc::Null))
            &&& scored ==> m.contains(("grade"@, Doc::Str(seq![r.grade])))
            &&& !scored ==> m.contains(("grade"@, Doc::Null))
            &&& m.contains(("grade_caps_applied"@, Doc::Arr(document::text_docs(r.caps))))
            &&& m.contains(("context_modifiers"@, Doc::Arr(report::modifier_docs(r.modifiers))))
            &&& m.contains(("dimensions"@, Doc::Arr(report::dim_docs(r.dims))))
        }),
{
    let m = report::report_members(r, server, repo_url, commit);
    assert(m[0] == ("server"@, Doc::Str(server)));
    assert(m[1] == ("repo_url"@, Doc::Str(repo_url)));
    assert(m[2] == ("commit"@, Doc::Str(commit)));
    assert(m[3] == ("ruleset_version"@, Doc::Str("pack-mcp-core@0.1.0"@)));
    assert(m[4] == ("status"@, Doc::Str(report::status_name(r.status))));
    assert(m[5] == ("composite"@, report::composite_doc(r)));
    assert(m[6] == ("grade"@, report::grade_doc(r)));
    assert(m[7] == ("grade_caps_applied"@, Doc::Arr(document::text_docs(r.caps))));
    assert(m[8] == ("context_modifiers"@, Doc::Arr(report::modifier_docs(r.modifiers))));
    assert(m[9] == ("dimensions"@, Doc::Arr(report::dim_docs(r.dims))));
}

/// What a report says of a finding: its rule, its severity by name, what it cites and where it points.
pub proof fn law_findings_are_shown(f: FindingFacts)
    ensures
        ({
            let severity = match f.severity {
                Severity::Critical => "Critical"@,
                Severity::High => "High"@,
                Severity::Medium => "Medium"@,
                Severity::Low => "Low"@,
                Severity::Info => "Informational"@,
            };
            let file = match f.file {
                Some(p) => Doc::Str(p),
                None => Doc::Null,
            };
            let line = match f.line {
                Some(l) => Doc::Int(l as int),
                None => Doc::Null,
            };
            report::finding_doc(f) matches Doc::Obj(m) && m.len() == 3 && m[0] == ("rule"@, Doc::Str(f.rule_id)) && m[1] == (
                "severity"@,
                Doc::Str(severity),
            ) && m[2].0 == "evidence"@ && (m[2].1 matches Doc::Obj(e) && e == seq![
                ("entities"@, Doc::Arr(document::text_docs(f.evidence))),
                ("file"@, file),
                ("line"@, line),
                ("lines"@, Doc::Arr(document::number_docs(f.lines))),
            ])
        }),
{
    let e = report::evidence_doc(f);
    assert(e->Obj_0 =~= seq![
        ("entities"@, Doc::Arr(document::text_docs(f.evidence))),
        ("file"@, document::text_or_null(f.file)),
        ("line"@, document::number_or_null(f.line)),
        ("lines"@, Doc::Arr(document::number_docs(f.lines))),
    ]);
}

/// What a report says of a dimension and of a modifier.
pub proof fn law_dimensions_and_modifiers_are_shown(d: DimFacts, a: ModifierFacts)
    ensures
        ({
            let sub_score = match d.sub_score {
                Some(n) => Doc::Int(n as int),
                None => Doc::Null,
            };
            report::dim_doc(d) matches Doc::Obj(m) && m == seq![
                ("id"@, Doc::Str(score::dim_id(d.dim))),
                ("weight"@, Doc::Int(score::dim_weight(d.dim))),
                ("status"@, Doc::Str(d.status)),
                ("sub_score"@, sub_score),
                ("findings"@, Doc::Arr(report::finding_docs(d.findings))),
            ]
        }),
        report::modifier_doc(a) matches Doc::Obj(m) && m == seq![
            ("modifier"@, Doc::Str(a.modifier)),
            ("rule"@, Doc::Str(a.rule_id)),
            ("from"@, Doc::Str(catalog::severity_name(a.from))),
            ("to"@, Doc::Str(catalog::severity_name(a.to))),
        ],
{
    assert(report::dim_doc(d)->Obj_0 =~= seq![
        ("id"@, Doc::Str(score::dim_id(d.dim))),
        ("weight"@, Doc::Int(score::dim_weight(d.dim))),
        ("status"@, Doc::Str(d.status)),
        ("sub_score"@, document::number_or_null(d.sub_score)),
        ("findings"@, Doc::Arr(report::finding_docs(d.findings))),
    ]);
    assert(report::modifier_doc(a)->Obj_0 =~= seq![
        ("modifier"@, Doc::Str(a.modifier)),
        ("rule"@, Doc::Str(a.rule_id)),
        ("from"@, Doc::Str(catalog::severity_name(a.from))),
        ("to"@, Doc::Str(catalog::severity_name(a.to))),
    ]);
}

/// What the report on all servers says: when it was made, by which rules, how many servers, and each.
pub proof fn law_the_registry_lists_every_server(generated_at: i64, servers: Seq<Doc>)
    requires
        servers.len() <= i64::MAX,
    ensures
        report::registry_members(generated_at, servers) == seq![
            ("generated_at_unix"@, Doc::Int(generated_at as int)),
            ("ruleset_version"@, Doc::Str("pack-mcp-core@0.1.0"@)),
            ("count"@, Doc::Int(servers.len() as int)),
            ("servers"@, Doc::Arr(servers)),
        ],
{
    assert(report::registry_members(generated_at, servers) =~= seq![
        ("generated_at_unix"@, Doc::Int(generated_at as int)),
        ("ruleset_version"@, Doc::Str(RULESET_VERSION@)),
        ("count"@, Doc::Int((servers.len() as i64) as int)),
        ("servers"@, Doc::Arr(servers)),
    ]);
}

// --- tables ----------------------------------------------------------------

/// A field without quotes reaches to the comma.
pub proof fn law_plain_fields_end_at_commas(a: Seq<char>, rest: Seq<char>)
    requires
        forall|i: int| 0 <= i < a.len() ==> (#[trigger] a[i]) != ',' && a[i] != '"',
    ensures
        targets::fields(a) == seq![a],
        targets::fields(a + seq![','] + rest) == seq![a] + targets::fields(rest),
{
    let none = Seq::<char>::empty();
    lemma_plain_field(a, none, 0, none);
    assert(a + none =~= a);
    assert(none + a.skip(0) =~= a);
    let s = a + seq![','] + rest;
    assert(s =~= a + (seq![','] + rest));
    lemma_plain_field(a, seq![','] + rest, 0, none);
    assert(s[a.len() as int] == ',');
    let head = a + seq![','];
    assert(s =~= head + rest);
    lemma_fields_shift(head, rest, 0, none, false);
}

proof fn lemma_plain_field(a: Seq<char>, tail: Seq<char>, i: int, field: Seq<char>)
    requires
        0 <= i <= a.len(),
        forall|k: int| 0 <= k < a.len() ==> (#[trigger] a[k]) != ',' && a[k] != '"',
    ensures
        targets::fields_from(a + tail, i, field, false) == targets::fields_from(a + tail, a.len() as int, field + a.skip(i), false),
    decreases a.len() - i,
{
    let s = a + tail;
    if i < a.len() {
        assert(s[i] == a[i]);
        lemma_plain_field(a, tail, i + 1, field.push(a[i]));
        assert(field.push(a[i]) + a.skip(i + 1) =~= field + a.skip(i));
    } else {
        assert(field + a.skip(i) =~= field);
    }
}

proof fn lemma_fields_shift(head: Seq<char>, rest: Seq<char>, i: int, field: Seq<char>, quoted: bool)
    requires
        0 <= i,
    ensures
        targets::fields_from(head + rest, head.len() + i, field, quoted) == targets::fields_from(rest, i, field, quoted),
    decreases rest.len() - i,
{
    let s = head + rest;
    let n = head.len() as int;
    if i < rest.len() {
        let c = rest[i];
        assert(s[n + i] == c);
        if i + 1 < rest.len() {
            assert(s[n + i + 1] == rest[i + 1]);
        }
        if quoted {
            if c != '"' {
                lemma_fields_shift(head, rest, i + 1, field.push(c), true);
            } else if i + 1 < rest.len() && rest[i + 1] == '"' {
                lemma_fields_shift(head, rest, i + 2, field.push('"'), true);
            } else {
                lemma_fields_shift(head, rest, i + 1, field, false);
            }
        } else if c == '"' {
            lemma_fields_shift(head, rest, i + 1, field, true);
        } else if c == ',' {
            lemma_fields_shift(head, rest, i + 1, Seq::empty(), false);
        } else {
            lemma_fields_shift(head, rest, i + 1, field.push(c), false);
        }
    }
}

/// A field in quotes is what they hold, commas too, and a doubled quote in it stands for one.
pub proof fn law_quoted_fields_keep_their_commas(a: Seq<char>, b: Seq<char>, rest: Seq<char>)
    requires
        forall|i: int| 0 <= i < a.len() ==> #[trigger] a[i] != '"',
        forall|i: int| 0 <= i < b.len() ==> #[trigger] b[i] != '"',
    ensures
        targets::fields(seq!['"'] + a + seq!['"', ','] + rest) == seq![a] + targets::fields(rest),
        targets::fields(seq!['"'] + a + seq!['"', '"'] + b + seq!['"', ','] + rest) == seq![a + seq!['"'] + b] + targets::fields(rest),
{
    let none = Seq::<char>::empty();
    let q = seq!['"'];
    let n = a.len() as int;

    let s = q + a + seq!['"', ','] + rest;
    assert(s[0] == '"');
    assert(s =~= q + a + (seq!['"', ','] + rest));
    lemma_quoted_run(q, a, seq!['"', ','] + rest, 0, none);
    assert(none + a.skip(0) =~= a);
    assert(s[n + 1] == '"' && s[n + 2] == ',');
    assert(targets::fields(s) == targets::fields_from(s, 1, none, true));
    assert(targets::fields_from(s, 1, none, true) == targets::fields_from(s, n + 1, a, true));
    assert(targets::fields_from(s, n + 1, a, true) == targets::fields_from(s, n + 2, a, false));
    assert(targets::fields_from(s, n + 2, a, false) == seq![a] + targets::fields_from(s, n + 3, none, false));
    let head = q + a + seq!['"', ','];
    assert(s =~= head + rest);
    lemma_fields_shift(head, rest, 0, none, false);
    assert(targets::fields(s) =~= seq![a] + targets::fields(rest));

    let t = q + a + seq!['"', '"'] + b + seq!['"', ','] + rest;
    assert(t[0] == '"');
    let tail = seq!['"', '"'] + b + seq!['"', ','] + rest;
    assert(t =~= q + a + tail);
    lemma_quoted_run(q, a, tail, 0, none);
    assert(t[n + 1] == '"' && t[n + 2] == '"');
    assert(targets::fields(t) == targets::fields_from(t, 1, none, true));
    assert(targets::fields_from(t, 1, none, true) == targets::fields_from(t, n + 1, a, true));
    assert(targets::fields_from(t, n + 1, a, true) == targets::fields_from(t, n + 3, a.push('"'), true));
    let open = q + a + seq!['"', '"'];
    let after = seq!['"', ','] + rest;
    assert(t =~= open + b + after);
    lemma_quoted_run(open, b, after, 0, a.push('"'));
    assert(a.push('"') + b.skip(0) =~= a + seq!['"'] + b);
    let m = open.len() as int + b.len();
    assert(t[m] == '"' && t[m + 1] == ',');
    let both = a + seq!['"'] + b;
    assert(targets::fields_from(t, n + 3, a.push('"'), true) == targets::fields_from(t, m, both, true));
    assert(targets::fields_from(t, m, both, true) == targets::fields_from(t, m + 1, both, false));
    assert(targets::fields_from(t, m + 1, both, false) == seq![both] + targets::fields_from(t, m + 2, none, false));
    let top = q + a + seq!['"', '"'] + b + seq!['"', ','];
    assert(t =~= top + rest);
    lemma_fields_shift(top, rest, 0, none, false);
    assert(targets::fields(t) =~= seq![a + seq!['"'] + b] + targets::fields(rest));
}

proof fn lemma_quoted_run(head: Seq<char>, a: Seq<char>, tail: Seq<char>, i: int, field: Seq<char>)
    requires
        0 <= i <= a.len(),
        forall|k: int| 0 <= k < a.len() ==> #[trigger] a[k] != '"',
    ensures
        targets::fields_from(head + a + tail, head.len() + i, field, true) == targets::fields_from(
            head + a + tail,
            (head + a).len() as int,
            field + a.skip(i),
            true,
        ),
    decreases a.len() - i,
{
    let s = head + a + tail;
    if i < a.len() {
        assert(s[head.len() + i] == a[i]);
        lemma_quoted_run(head, a, tail, i + 1, field.push(a[i]));
        assert(field.push(a[i]) + a.skip(i + 1) =~= field + a.skip(i));
    } else {
        assert(field + a.skip(i) =~= field);
    }
}

/// Every row that has a URL is a target, and of the rows with the same URL the first one names it. A
/// table without one of the columns `repo` and `repo_url` lists nothing.
pub proof fn law_rows_are_targets(text: Seq<char>, r: int, u: int, k: int)
    requires
        1 <= k < text::lines(text).len(),
        0 <= r < targets::fields(text::lines(text)[0]).len(),
        0 <= u < targets::fields(text::lines(text)[0]).len(),
        targets::fields(text::lines(text)[0])[r] == "repo"@,
        targets::fields(text::lines(text)[0])[u] == "repo_url"@,
        forall|j: int| 0 <= j < r ==> #[trigger] targets::fields(text::lines(text)[0])[j] != "repo"@,
        forall|j: int| 0 <= j < u ==> #[trigger] targets::fields(text::lines(text)[0])[j] != "repo_url"@,
        u < targets::fields(text::lines(text)[k]).len(),
        targets::fields(text::lines(text)[k])[u].len() > 0,
        forall|j: int|
            1 <= j < k ==> !(u < targets::fields(#[trigger] text::lines(text)[j]).len() && targets::fields(text::lines(text)[j])[u] == targets::fields(
                text::lines(text)[k],
            )[u]),
    ensures
        targets::listed_targets(text) matches Some(ts) && ts.contains(
            TargetFacts {
                repo: if r < targets::fields(text::lines(text)[k]).len() {
                    targets::fields(text::lines(text)[k])[r]
                } else {
                    Seq::empty()
                },
                url: targets::fields(text::lines(text)[k])[u],
            },
        ),
{
    let ls = text::lines(text);
    let header = targets::fields(ls[0]);
    lemma_column_is(header, "repo"@, 0, r);
    lemma_column_is(header, "repo_url"@, 0, u);
    let rows = targets::rows_of(ls);
    assert(rows[k - 1] == ls[k]);
    let row = targets::fields(ls[k]);
    let url = targets::field_at(row, u);
    assert forall|j: int| 0 <= j < k - 1 implies targets::field_at(targets::fields(#[trigger] rows[j]), u) != url by {
        assert(rows[j] == ls[j + 1]);
        let other = targets::fields(ls[j + 1]);
        if u < other.len() {
            assert(other[u] != url);
        }
    }
    lemma_row_is_listed(rows, r, u, k - 1, rows.len() as int);
}

proof fn lemma_column_is(header: Seq<Seq<char>>, name: Seq<char>, i: int, k: int)
    requires
        0 <= i <= k < header.len(),
        header[k] == name,
        forall|j: int| i <= j < k ==> #[trigger] header[j] != name,
    ensures
        targets::column_from(header, name, i) == Some(k),
    decreases k - i,
{
    if i < k {
        assert(header[i] != name);
        lemma_column_is(header, name, i + 1, k);
    }
}

proof fn lemma_url_is_new(rows: Seq<Seq<char>>, r: int, u: int, url: Seq<char>, n: int)
    requires
        0 <= n <= rows.len(),
        forall|j: int| 0 <= j < n ==> targets::field_at(targets::fields(#[trigger] rows[j]), u) != url,
    ensures
        !targets::has_url(targets::targets_first(rows, r, u, n), url),
    decreases n,
{
    if n > 0 {
        lemma_url_is_new(rows, r, u, url, n - 1);
        let before = targets::targets_first(rows, r, u, n - 1);
        let now = targets::targets_first(rows, r, u, n);
        assert(targets::field_at(targets::fields(rows[n - 1]), u) != url);
        if targets::has_url(now, url) {
            let i = choose|i: int| 0 <= i < now.len() && (#[trigger] now[i]).url == url;
            assert(i < before.len());
            assert(before[i].url == url);
        }
    }
}

proof fn lemma_row_is_listed(rows: Seq<Seq<char>>, r: int, u: int, k: int, n: int)
    requires
        0 <= k < n <= rows.len(),
        targets::field_at(targets::fields(rows[k]), u).len() > 0,
        forall|j: int| 0 <= j < k ==> targets::field_at(targets::fields(#[trigger] rows[j]), u) != targets::field_at(targets::fields(rows[k]), u),
    ensures
        targets::targets_first(rows, r, u, n).contains(
            TargetFacts { repo: targets::field_at(targets::fields(rows[k]), r), url: targets::field_at(targets::fields(rows[k]), u) },
        ),
    decreases n,
{
    let t = TargetFacts { repo: targets::field_at(targets::fields(rows[k]), r), url: targets::field_at(targets::fields(rows[k]), u) };
    let before = targets::targets_first(rows, r, u, n - 1);
    let now = targets::targets_first(rows, r, u, n);
    if k == n - 1 {
        lemma_url_is_new(rows, r, u, t.url, k);
        assert(now[before.len() as int] == t);
    } else {
        lemma_row_is_listed(rows, r, u, k, n - 1);
        let q = choose|q: int| 0 <= q < before.len() && before[q] == t;
        assert(now[q] == t);
    }
}

/// A table that lacks a column lists no targets.
pub proof fn law_tables_need_their_columns(text: Seq<char>)
    requires
        text::lines(text).len() > 0,
    ensures
        targets::listed_targets(text) is Some <==> targets::fields(text::lines(text)[0]).contains("repo"@) && targets::fields(text::lines(text)[0]).contains(
            "repo_url"@,
        ),
{
    let header = targets::fields(text::lines(text)[0]);
    lemma_column_exists(header, "repo"@, 0);
    lemma_column_exists(header, "repo_url"@, 0);
}

proof fn lemma_column_exists(header: Seq<Seq<char>>, name: Seq<char>, i: int)
    requires
        0 <= i <= header.len(),
    ensures
        targets::column_from(header, name, i) is Some <==> exists|j: int| i <= j < header.len() && #[trigger] header[j] == name,
        i == 0 ==> (targets::column_from(header, name, i) is Some <==> header.contains(name)),
    decreases header.len() - i,
{
    if i < header.len() {
        lemma_column_exists(header, name, i + 1);
        assert(header[i] == header[i]);
    }
    if i == 0 && header.contains(name) {
        let j = choose|j: int| 0 <= j < header.len() && header[j] == name;
        assert(header[j] == name);
    }
}

/// A limit keeps the first targets, as many as it says, and without one all are kept.
pub proof fn law_limits_keep_the_first(ts: Seq<TargetFacts>, n: usize)
    ensures
        targets::limited(ts, None) == ts,
        targets::limited(ts, Some(n)).len() == (if n < ts.len() {
            n as nat
        } else {
            ts.len()
        }),
        forall|i: int| 0 <= i < targets::limited(ts, Some(n)).len() ==> #[trigger] targets::limited(ts, Some(n))[i] == ts[i],
{
}

/// A directory name is the name of the repository with two underscores for each slash, backslash and
/// colon.
pub proof fn law_directory_names_replace_separators(s: Seq<char>, c: char)
    ensures
        targets::safe_first(s.push(c), s.len() as int + 1) == targets::safe_first(s, s.len() as int) + (if c == '/' || c == '\\' || c == ':' {
            seq!['_', '_']
        } else {
            seq![c]
        }),
        targets::safe_first(Seq::empty(), 0) == Seq::<char>::empty(),
{
    lemma_safe_prefix(s, c, s.len() as int);
    reveal_strlit("__");
    assert("__"@ =~= seq!['_', '_']);
    let all = s.push(c);
    assert(all[s.len() as int] == c);
    assert(targets::safe_first(s, s.len() as int).push(c) =~= targets::safe_first(s, s.len() as int) + seq![c]);
}

proof fn lemma_safe_prefix(s: Seq<char>, c: char, n: int)
    requires
        0 <= n <= s.len(),
    ensures
        targets::safe_first(s.push(c), n) == targets::safe_first(s, n),
    decreases n,
{
    if n > 0 {
        lemma_safe_prefix(s, c, n - 1);
        assert(s.push(c)[n - 1] == s[n - 1]);
    }
}

/// A run counts its outcomes by letter. A server that was not scored counts under a question mark.
pub proof fn law_outcomes_are_counted_by_letter(v: Seq<OutcomeFacts>, o: OutcomeFacts, grade: char)
    ensures
        targets::count_grade(v.push(o), grade, v.len() as int + 1) == targets::count_grade(v, grade, v.len() as int) + (if o.grade == grade {
            1nat
        } else {
            0nat
        }),
        targets::shown_grade(ScoreStatus::Scored, grade) == grade,
        targets::shown_grade(ScoreStatus::InsufficientCoverage, grade) == '?',
{
    lemma_count_prefix(v, o, grade, v.len() as int);
}

proof fn lemma_count_prefix(v: Seq<OutcomeFacts>, o: OutcomeFacts, grade: char, n: int)
    requires
        0 <= n <= v.len(),
    ensures
        targets::count_grade(v.push(o), grade, n) == targets::count_grade(v, grade, n),
    decreases n,
{
    if n > 0 {
        lemma_count_prefix(v, o, grade, n - 1);
        assert(v.push(o)[n - 1] == v[n - 1]);
    }
}

/// Outcomes are listed from F to A, and those without a letter last. No outcome is lost.
pub proof fn law_outcomes_are_listed_from_the_worst(v: Seq<OutcomeFacts>, i: int, j: int)
    requires
        0 <= i < j < v.len(),
        forall|k: int|
            0 <= k < v.len() ==> (#[trigger] v[k]).grade == 'A' || v[k].grade == 'B' || v[k].grade == 'C' || v[k].grade == 'D'
                || v[k].grade == 'F' || v[k].grade == '?',
    ensures
        targets::worst_first(v)[i].grade >= targets::worst_first(v)[j].grade,
        targets::worst_first(v).to_multiset() == v.to_multiset(),
{
    assert forall|k: int| 0 <= k < v.len() implies targets::is_letter((#[trigger] v[k]).grade) by {
        assert(LETTERS@[0] == 'A' && LETTERS@[1] == 'B' && LETTERS@[2] == 'C' && LETTERS@[3] == 'D' && LETTERS@[4] == 'F'
            && LETTERS@[5] == '?');
    }
    targets::law_worst_grades_come_first(v, i, j);
    order::law_sorting_keeps_items(v, targets::outcome_keys(v));
}

} // verus!
