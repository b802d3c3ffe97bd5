//! Lists of servers to scan, and the order of what came out.
use crate::order;
use crate::order::sort_order;
use crate::score::{ScoreReport, ScoreStatus};
use crate::taint;
use crate::text;
use crate::text::{append_str, chars_of, lines_of, same_str, string_of};
use vstd::prelude::*;

verus! {

// --- comma-separated values ------------------------------------------------

/// The fields of a line from `i` on, where `field` was read of the current one and `quoted` says
/// whether a quotation is open. A doubled quote in a quotation stands for one.
pub open spec fn fields_from(s: Seq<char>, i: int, field: Seq<char>, quoted: bool) -> Seq<Seq<char>>
    decreases s.len() - i,
{
    if i < 0 || i >= s.len() {
        seq![field]
    } else if quoted {
        if s[i] != '"' {
            fields_from(s, i + 1, field.push(s[i]), true)
        } else if i + 1 < s.len() && s[i + 1] == '"' {
            fields_from(s, i + 2, field.push('"'), true)
        } else {
            fields_from(s, i + 1, field, false)
        }
    } else if s[i] == '"' {
        fields_from(s, i + 1, field, true)
    } else if s[i] == ',' {
        seq![field] + fields_from(s, i + 1, Seq::empty(), false)
    } else {
        fields_from(s, i + 1, field.push(s[i]), false)
    }
}

/// The fields of a line.
pub open spec fn fields(s: Seq<char>) -> Seq<Seq<char>> {
    fields_from(s, 0, Seq::empty(), false)
}

/// The fields of a line of comma-separated values.
pub fn parse_csv_line(line: &str) -> (r: Vec<String>)
    ensures
        text::strings(r@) == fields(line@),
{
    let t = chars_of(line);
    let n: usize = t.len();
    let mut out: Vec<String> = Vec::new();
    let mut field: Vec<char> = Vec::new();
    let mut quoted: bool = false;
    let mut i: usize = 0;
    assert(field@ =~= Seq::<char>::empty());
    assert(text::strings(out@) + fields(t@) =~= fields(t@));
    while i < n
        invariant
            n == t@.len(),
            i <= n,
            text::strings(out@) + fields_from(t@, i as int, field@, quoted) == fields(t@),
        decreases n - i,
    {
        let ghost before = text::strings(out@);
        let c: char = t[i];
        if quoted {
            if c != '"' {
                field.push(c);
                i = i + 1;
            } else if i + 1 < n && t[i + 1] == '"' {
                field.push('"');
                i = i + 2;
            } else {
                quoted = false;
                i = i + 1;
            }
        } else if c == '"' {
            quoted = true;
            i = i + 1;
        } else if c == ',' {
            let ghost done = field@;
            out.push(string_of(&field));
            assert(text::strings(out@) =~= before.push(done));
            field = Vec::new();
            assert(field@ =~= Seq::<char>::empty());
            assert(text::strings(out@) + fields_from(t@, i + 1, field@, false) =~= before + fields_from(
                t@,
                i as int,
                done,
                false,
            ));
            i = i + 1;
        } else {
            field.push(c);
            i = i + 1;
        }
    }
    let ghost before = text::strings(out@);
    out.push(string_of(&field));
    assert(text::strings(out@) =~= before + seq![field@]);
    out
}

// --- targets ---------------------------------------------------------------

/// A server to scan.
#[derive(Debug, PartialEq, Eq)]
pub struct Target {
    pub repo: String,
    pub url: String,
}

pub struct TargetFacts {
    pub repo: Seq<char>,
    pub url: Seq<char>,
}

impl View for Target {
    type V = TargetFacts;

    open spec fn view(&self) -> TargetFacts {
        TargetFacts { repo: self.repo@, url: self.url@ }
    }
}

pub open spec fn target_facts(v: Seq<Target>) -> Seq<TargetFacts> {
    Seq::new(v.len(), |i: int| v[i]@)
}

/// The position of the first field at `i` or later that is `name`.
pub open spec fn column_from(header: Seq<Seq<char>>, name: Seq<char>, i: int) -> Option<int>
    decreases header.len() - i,
{
    if i < 0 || i >= header.len() {
        None
    } else if header[i] == name {
        Some(i)
    } else {
        column_from(header, name, i + 1)
    }
}

fn column(header: &Vec<String>, name: &str) -> (r: Option<usize>)
    ensures
        match r {
            Some(i) => column_from(text::strings(header@), name@, 0) == Some(i as int),
            None => column_from(text::strings(header@), name@, 0) is None,
        },
{
    let ghost all = text::strings(header@);
    let n: usize = header.len();
    let mut i: usize = 0;
    while i < n
        invariant
            all == text::strings(header@),
            n == header@.len(),
            i <= n,
            column_from(all, name@, 0) == column_from(all, name@, i as int),
        decreases n - i,
    {
        assert(all[i as int] == header@[i as int]@);
        if same_str(header[i].as_str(), name) {
            return Some(i);
        }
        i = i + 1;
    }
    None
}

/// The field at a position; empty where the row is shorter.
pub open spec fn field_at(row: Seq<Seq<char>>, i: int) -> Seq<char> {
    if 0 <= i < row.len() {
        row[i]
    } else {
        Seq::empty()
    }
}

fn cell(row: &Vec<String>, i: usize) -> (r: String)
    ensures
        r@ == field_at(text::strings(row@), i as int),
{
    if i < row.len() {
        assert(text::strings(row@)[i as int] == row@[i as int]@);
        row[i].clone()
    } else {
        let none = String::new();
        assert(none@ =~= Seq::<char>::empty());
        none
    }
}

/// Some target has this URL.
pub open spec fn has_url(ts: Seq<TargetFacts>, url: Seq<char>) -> bool {
    exists|i: int| 0 <= i < ts.len() && (#[trigger] ts[i]).url == url
}

/// The targets of the first `n` rows. A row without a URL, or with one that came before, gives
/// none: packages of one repository are scanned together.
pub open spec fn targets_first(rows: Seq<Seq<char>>, repo: int, url: int, n: int) -> Seq<TargetFacts>
    decreases n,
{
    if n <= 0 || n > rows.len() {
        Seq::empty()
    } else {
        let before = targets_first(rows, repo, url, n - 1);
        let row = fields(rows[n - 1]);
        if field_at(row, url).len() == 0 || has_url(before, field_at(row, url)) {
            before
        } else {
            before.push(TargetFacts { repo: field_at(row, repo), url: field_at(row, url) })
        }
    }
}

/// The first line of a text; empty where the text is.
pub open spec fn head_line(ls: Seq<Seq<char>>) -> Seq<char> {
    if ls.len() > 0 {
        ls[0]
    } else {
        Seq::empty()
    }
}

/// The lines after the first.
pub open spec fn rows_of(ls: Seq<Seq<char>>) -> Seq<Seq<char>> {
    if ls.len() > 0 {
        ls.skip(1)
    } else {
        Seq::empty()
    }
}

/// The targets that a table lists; none where it lacks the column `repo` or `repo_url`.
pub open spec fn listed_targets(text: Seq<char>) -> Option<Seq<TargetFacts>> {
    let ls = text::lines(text);
    let header = fields(head_line(ls));
    let rows = rows_of(ls);
    match (column_from(header, "repo"@, 0), column_from(header, "repo_url"@, 0)) {
        (Some(r), Some(u)) => Some(targets_first(rows, r, u, rows.len() as int)),
        _ => None,
    }
}

/// The first `limit` of the targets, or all.
pub open spec fn limited(ts: Seq<TargetFacts>, limit: Option<usize>) -> Seq<TargetFacts> {
    match limit {
        Some(n) => if n < ts.len() {
            ts.take(n as int)
        } else {
            ts
        },
        None => ts,
    }
}

fn knows_url(ts: &Vec<Target>, url: &str) -> (r: bool)
    ensures
        r == has_url(target_facts(ts@), url@),
{
    let ghost all = target_facts(ts@);
    for i in 0..ts.len()
        invariant
            all == target_facts(ts@),
            forall|j: int| 0 <= j < i ==> (#[trigger] all[j]).url != url@,
    {
        assert(all[i as int] == ts@[i as int]@);
        if same_str(ts[i].url.as_str(), url) {
            return true;
        }
    }
    false
}

/// The targets that a table of comma-separated values lists, at most `limit` of them; none where it
/// lacks the column `repo` or `repo_url`.
pub fn parse_targets(csv: &str, limit: Option<usize>) -> (r: Option<Vec<Target>>)
    ensures
        match r {
            Some(ts) => listed_targets(csv@) is Some && target_facts(ts@) == limited(
                listed_targets(csv@)->0,
                limit,
            ),
            None => listed_targets(csv@) is None,
        },
{
    let t = chars_of(csv);
    let ls = lines_of(&t);
    let ghost all = text::views(ls@);
    let n: usize = ls.len();
    let first: String = if n > 0 {
        assert(all[0] == ls@[0]@);
        string_of(ls[0])
    } else {
        String::new()
    };
    assert(first@ =~= head_line(all));
    let header = parse_csv_line(first.as_str());
    let repo: usize = match column(&header, "repo") {
        Some(i) => i,
        None => {
            return None;
        },
    };
    let url: usize = match column(&header, "repo_url") {
        Some(i) => i,
        None => {
            return None;
        },
    };
    let ghost rows = rows_of(all);
    let mut out: Vec<Target> = Vec::new();
    assert(target_facts(out@) =~= targets_first(rows, repo as int, url as int, 0));
    let mut i: usize = 1;
    while i < n
        invariant
            all == text::views(ls@),
            n == ls@.len(),
            rows == rows_of(all),
            1 <= i,
            i <= n || (i == 1 && n == 0),
            target_facts(out@) == targets_first(rows, repo as int, url as int, i - 1),
        decreases n - i,
    {
        let ghost before = target_facts(out@);
        assert(rows[i - 1] == ls@[i as int]@);
        let line = string_of(ls[i]);
        let row = parse_csv_line(line.as_str());
        let u = cell(&row, url);
        let some: bool = chars_of(u.as_str()).len() > 0;
        if some && !knows_url(&out, u.as_str()) {
            let target = Target { repo: cell(&row, repo), url: u };
            out.push(target);
            assert(target_facts(out@) =~= before.push(target@));
        }
        i = i + 1;
    }
    assert(rows.len() == i - 1);
    let ghost found = target_facts(out@);
    match limit {
        Some(m) => {
            if m < out.len() {
                let mut kept: Vec<Target> = Vec::new();
                for k in 0..m
                    invariant
                        m < out@.len(),
                        found == target_facts(out@),
                        target_facts(kept@) == found.take(k as int),
                {
                    let ghost so_far = target_facts(kept@);
                    let target = Target { repo: out[k].repo.clone(), url: out[k].url.clone() };
                    assert(found[k as int] == out@[k as int]@);
                    kept.push(target);
                    assert(target_facts(kept@) =~= so_far.push(target@));
                    assert(target_facts(kept@) =~= found.take(k + 1));
                }
                return Some(kept);
            }
        },
        None => {},
    }
    Some(out)
}

/// No two targets have the same URL, and each has one.
pub open spec fn urls_are_distinct(ts: Seq<TargetFacts>) -> bool {
    &&& forall|i: int| 0 <= i < ts.len() ==> (#[trigger] ts[i]).url.len() > 0
    &&& forall|i: int, j: int| 0 <= i < j < ts.len() ==> (#[trigger] ts[i]).url != (#[trigger] ts[j]).url
}

proof fn lemma_targets_first(rows: Seq<Seq<char>>, repo: int, url: int, n: int)
    ensures
        urls_are_distinct(targets_first(rows, repo, url, n)),
    decreases n,
{
    if 0 < n <= rows.len() {
        lemma_targets_first(rows, repo, url, n - 1);
    }
}

/// Each repository is scanned once, however many rows name it.
pub proof fn law_targets_are_scanned_once(text: Seq<char>, limit: Option<usize>)
    ensures
        listed_targets(text) matches Some(ts) ==> urls_are_distinct(limited(ts, limit)),
{
    let ls = text::lines(text);
    let header = fields(head_line(ls));
    let rows = rows_of(ls);
    match (column_from(header, "repo"@, 0), column_from(header, "repo_url"@, 0)) {
        (Some(r), Some(u)) => {
            lemma_targets_first(rows, r, u, rows.len() as int);
        },
        _ => {},
    }
}

// --- names of working directories ------------------------------------------

/// A character that cannot stand in a directory name.
pub open spec fn is_unsafe(c: char) -> bool {
    c == '/' || c == '\\' || c == ':'
}

/// The first `n` characters of a name, with `__` for each that cannot stand in a directory name.
pub open spec fn safe_first(s: Seq<char>, n: int) -> Seq<char>
    decreases n,
{
    if n <= 0 || n > s.len() {
        Seq::empty()
    } else if is_unsafe(s[n - 1]) {
        safe_first(s, n - 1) + "__"@
    } else {
        safe_first(s, n - 1).push(s[n - 1])
    }
}

/// A directory name for a repository.
pub fn safe_name(repo: &str) -> (r: String)
    ensures
        r@ == safe_first(repo@, repo@.len() as int),
{
    let t = chars_of(repo);
    let mut out: Vec<char> = Vec::new();
    for i in 0..t.len()
        invariant
            t@ == repo@,
            out@ == safe_first(t@, i as int),
    {
        if t[i] == '/' || t[i] == '\\' || t[i] == ':' {
            append_str(&mut out, "__");
        } else {
            out.push(t[i]);
        }
    }
    string_of(&out)
}

proof fn lemma_safe_first(s: Seq<char>, n: int)
    ensures
        forall|i: int| 0 <= i < safe_first(s, n).len() ==> !is_unsafe(#[trigger] safe_first(s, n)[i]),
    decreases n,
{
    if 0 < n <= s.len() {
        lemma_safe_first(s, n - 1);
        reveal_strlit("__");
        let before = safe_first(s, n - 1);
        let now = safe_first(s, n);
        assert forall|i: int| 0 <= i < now.len() implies !is_unsafe(#[trigger] now[i]) by {
            if i < before.len() {
                assert(now[i] == before[i]);
            }
        }
    }
}

/// A safe name holds no separator: it names a directory right below the working directory.
pub proof fn law_safe_names_have_no_separator(repo: Seq<char>, i: int)
    requires
        0 <= i < safe_first(repo, repo.len() as int).len(),
    ensures
        !is_unsafe(safe_first(repo, repo.len() as int)[i]),
{
    lemma_safe_first(repo, repo.len() as int);
}

// --- the summary of a run --------------------------------------------------

/// The letters that a run can end in, from the best down, and the mark of a withheld grade.
pub const LETTERS: [char; 6] = ['A', 'B', 'C', 'D', 'F', '?'];

/// How one server came out. The grade is `?` where it was withheld.
#[derive(Debug, PartialEq, Eq)]
pub struct Outcome {
    pub repo: String,
    pub grade: char,
    pub composite: u32,
    pub findings: usize,
}

pub struct OutcomeFacts {
    pub repo: Seq<char>,
    pub grade: char,
    pub composite: u32,
    pub findings: usize,
}

impl View for Outcome {
    type V = OutcomeFacts;

    open spec fn view(&self) -> OutcomeFacts {
        OutcomeFacts {
            repo: self.repo@,
            grade: self.grade,
            composite: self.composite,
            findings: self.findings,
        }
    }
}

pub open spec fn outcome_facts(v: Seq<Outcome>) -> Seq<OutcomeFacts> {
    Seq::new(v.len(), |i: int| v[i]@)
}

/// The letter that stands for a report.
pub open spec fn shown_grade(status: ScoreStatus, grade: char) -> char {
    match status {
        ScoreStatus::Scored => grade,
        ScoreStatus::InsufficientCoverage => '?',
    }
}

/// How a report on a repository came out.
pub fn outcome(repo: &str, report: &ScoreReport, findings: usize) -> (r: Outcome)
    ensures
        r@ == (OutcomeFacts {
            repo: repo@,
            grade: shown_grade(report.status, report.grade),
            composite: report.composite,
            findings,
        }),
{
    let grade: char = match report.status {
        ScoreStatus::Scored => report.grade,
        ScoreStatus::InsufficientCoverage => '?',
    };
    Outcome { repo: repo.to_owned(), grade, composite: report.composite, findings }
}

/// How many of the first `n` outcomes have the letter.
pub open spec fn count_grade(v: Seq<OutcomeFacts>, grade: char, n: int) -> nat
    decreases n,
{
    if n <= 0 || n > v.len() {
        0
    } else if v[n - 1].grade == grade {
        count_grade(v, grade, n - 1) + 1
    } else {
        count_grade(v, grade, n - 1)
    }
}

/// How many outcomes have the letter.
pub fn grade_count(v: &Vec<Outcome>, grade: char) -> (r: usize)
    ensures
        r == count_grade(outcome_facts(v@), grade, v@.len() as int),
{
    let ghost all = outcome_facts(v@);
    let mut n: usize = 0;
    for i in 0..v.len()
        invariant
            all == outcome_facts(v@),
            n <= i,
            n == count_grade(all, grade, i as int),
    {
        assert(all[i as int] == v@[i as int]@);
        if v[i].grade == grade {
            n = n + 1;
        }
    }
    n
}

/// A character that comes earlier the later `grade` does.
pub open spec fn reverse_rank(grade: char) -> char {
    if grade == 'F' {
        '0'
    } else if grade == 'D' {
        '1'
    } else if grade == 'C' {
        '2'
    } else if grade == 'B' {
        '3'
    } else if grade == 'A' {
        '4'
    } else {
        '5'
    }
}

fn rank_of(grade: char) -> (r: char)
    ensures
        r == reverse_rank(grade),
{
    if grade == 'F' {
        '0'
    } else if grade == 'D' {
        '1'
    } else if grade == 'C' {
        '2'
    } else if grade == 'B' {
        '3'
    } else if grade == 'A' {
        '4'
    } else {
        '5'
    }
}

/// What an outcome is ordered by: the grade, the worst first and withheld ones last, and then the
/// repository.
pub open spec fn outcome_key(o: OutcomeFacts) -> Seq<char> {
    seq![reverse_rank(o.grade)] + o.repo
}

pub open spec fn outcome_keys(v: Seq<OutcomeFacts>) -> Seq<Seq<char>> {
    Seq::new(v.len(), |i: int| outcome_key(v[i]))
}

/// Outcomes, the worst grade first, by repository where the grades are the same.
pub open spec fn worst_first(v: Seq<OutcomeFacts>) -> Seq<OutcomeFacts> {
    order::picked(v, order::stable_order(outcome_keys(v)))
}

/// Outcomes, the worst grade first.
pub fn sort_outcomes(v: &Vec<Outcome>) -> (r: Vec<Outcome>)
    ensures
        outcome_facts(r@) == worst_first(outcome_facts(v@)),
{
    let ghost all = outcome_facts(v@);
    let mut keys: Vec<Vec<char>> = Vec::new();
    for i in 0..v.len()
        invariant
            all == outcome_facts(v@),
            keys@.len() == i,
            forall|j: int| 0 <= j < i ==> (#[trigger] keys@[j])@ == outcome_key(all[j]),
    {
        assert(all[i as int] == v@[i as int]@);
        let mut key: Vec<char> = Vec::new();
        key.push(rank_of(v[i].grade));
        append_str(&mut key, v[i].repo.as_str());
        assert(key@ =~= outcome_key(all[i as int]));
        keys.push(key);
    }
    assert(order::char_lists(keys@) =~= outcome_keys(all));
    let order = sort_order(&keys);
    let mut out: Vec<Outcome> = Vec::new();
    for i in 0..order.len()
        invariant
            all == outcome_facts(v@),
            order::is_stable_order(outcome_keys(all), taint::ints(order@), v@.len() as int),
            out@.len() == i,
            forall|j: int| 0 <= j < i ==> (#[trigger] out@[j])@ == all[taint::ints(order@)[j]],
    {
        assert(taint::ints(order@)[i as int] == order@[i as int]);
        let o = &v[order[i]];
        assert(all[order@[i as int] as int] == o@);
        out.push(
            Outcome { repo: o.repo.clone(), grade: o.grade, composite: o.composite, findings: o.findings },
        );
    }
    assert(outcome_facts(out@) =~= worst_first(all));
    out
}

proof fn lemma_less_behind(c: char, a: Seq<char>, b: Seq<char>, i: int)
    requires
        0 <= i,
    ensures
        order::less_from(seq![c] + a, seq![c] + b, i + 1) == order::less_from(a, b, i),
    decreases b.len() - i,
{
    let x = seq![c] + a;
    let y = seq![c] + b;
    if i < b.len() && i < a.len() {
        assert(x[i + 1] == a[i]);
        assert(y[i + 1] == b[i]);
        lemma_less_behind(c, a, b, i + 1);
    }
}

/// One of the letters that a run can end in.
pub open spec fn is_letter(grade: char) -> bool {
    LETTERS@.contains(grade)
}

/// The worst grade comes first and withheld ones come last; outcomes with the same grade are in the
/// order of their repositories.
pub proof fn law_worst_grades_come_first(v: Seq<OutcomeFacts>, i: int, j: int)
    requires
        forall|k: int| 0 <= k < v.len() ==> is_letter((#[trigger] v[k]).grade),
        0 <= i < j < v.len(),
    ensures
        ({
            let a = worst_first(v)[i];
            let b = worst_first(v)[j];
            a.grade > b.grade || (a.grade == b.grade && order::at_most(a.repo, b.repo))
        }),
{
    let keys = outcome_keys(v);
    let o = order::stable_order(keys);
    order::law_sorting_is_stable(keys);
    assert(order::precedes(keys, o[i], o[j]));
    let a = v[o[i]];
    let b = v[o[j]];
    assert(is_letter(a.grade) && is_letter(b.grade));
    let ka = outcome_key(a);
    let kb = outcome_key(b);
    assert(ka[0] == reverse_rank(a.grade) && kb[0] == reverse_rank(b.grade));
    if ka == kb {
        assert(a.repo =~= ka.skip(1));
        assert(b.repo =~= kb.skip(1));
        order::law_order_is_total(a.repo, b.repo, a.repo);
    } else if ka[0] == kb[0] {
        assert(order::less_from(ka, kb, 1));
        lemma_less_behind(ka[0], a.repo, b.repo, 0);
        order::law_order_is_total(a.repo, b.repo, a.repo);
    }
}

} // verus!
