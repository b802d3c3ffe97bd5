//! Lists of servers and the summary of a run.
use sentinel_mcp::document::Json;
use sentinel_mcp::report::registry_json;
use sentinel_mcp::score;
use sentinel_mcp::score::Dim;
use sentinel_mcp::targets::{
    grade_count, outcome, parse_csv_line, parse_targets, safe_name, sort_outcomes, Outcome,
};

#[test]
fn comma_separated_fields() {
    assert_eq!(parse_csv_line("a,b,c"), vec!["a", "b", "c"]);
    assert_eq!(parse_csv_line(""), vec![""]);
    assert_eq!(parse_csv_line("a,,"), vec!["a", "", ""]);
    assert_eq!(parse_csv_line("\"a,b\",c"), vec!["a,b", "c"]);
    assert_eq!(parse_csv_line("\"say \"\"hi\"\"\",x"), vec!["say \"hi\"", "x"]);
    assert_eq!(parse_csv_line("a\"b\"c"), vec!["abc"]);
    assert_eq!(parse_csv_line("\"open,"), vec!["open,"]);
}

#[test]
fn targets_are_listed_once_per_url() {
    let csv = "rank,repo_url,repo\n1,https://a,o/a\n2,https://b,o/b\n3,https://a,o/a-again\n4,,o/none\n5,https://c\n";
    let all = parse_targets(csv, None).unwrap();
    let got: Vec<(&str, &str)> = all.iter().map(|t| (t.repo.as_str(), t.url.as_str())).collect();
    assert_eq!(got, vec![("o/a", "https://a"), ("o/b", "https://b"), ("", "https://c")]);
    assert_eq!(parse_targets(csv, Some(2)).unwrap().len(), 2);
    assert_eq!(parse_targets(csv, Some(0)).unwrap().len(), 0);
    assert_eq!(parse_targets(csv, Some(9)).unwrap().len(), 3);
}

#[test]
fn tables_without_the_columns_are_refused() {
    assert!(parse_targets("repo,url\n", None).is_none());
    assert!(parse_targets("repo_url\n", None).is_none());
    assert!(parse_targets("", None).is_none());
    assert_eq!(parse_targets("repo,repo_url", None).unwrap().len(), 0);
}

#[test]
fn directory_names() {
    assert_eq!(safe_name("owner/name"), "owner__name");
    assert_eq!(safe_name("a\\b:c"), "a__b__c");
    assert!(!safe_name("../../x").contains('/'));
}

fn done(repo: &str, grade: char) -> Outcome {
    Outcome { repo: repo.to_string(), grade, composite: 0, findings: 0 }
}

#[test]
fn worst_grades_come_first() {
    let all = vec![done("b", 'A'), done("c", '?'), done("z", 'F'), done("a", 'A'), done("d", 'C'), done("e", 'F')];
    let order: Vec<(char, String)> = sort_outcomes(&all).into_iter().map(|o| (o.grade, o.repo)).collect();
    let want = [('F', "e"), ('F', "z"), ('C', "d"), ('A', "a"), ('A', "b"), ('?', "c")];
    let want: Vec<(char, String)> = want.iter().map(|(g, r)| (*g, r.to_string())).collect();
    assert_eq!(order, want);
    assert_eq!(grade_count(&all, 'F'), 2);
    assert_eq!(grade_count(&all, 'B'), 0);
}

#[test]
fn outcomes_hide_withheld_grades() {
    let scored = score::score(&[], &[], &Dim::all(), true);
    assert_eq!(outcome("r", &scored, 3), Outcome { repo: "r".to_string(), grade: 'A', composite: 100, findings: 3 });
    let withheld = score::score(&[], &[], &Dim::all(), false);
    assert_eq!(outcome("r", &withheld, 0).grade, '?');
}

#[test]
fn registry_document() {
    let doc = registry_json(7, vec![Json::Null, Json::Int(1)]);
    let want = Json::Obj(vec![
        ("generated_at_unix".to_string(), Json::Int(7)),
        ("ruleset_version".to_string(), Json::Str("pack-mcp-core@0.1.0".to_string())),
        ("count".to_string(), Json::Int(2)),
        ("servers".to_string(), Json::Arr(vec![Json::Null, Json::Int(1)])),
    ]);
    assert_eq!(doc, want);
}
