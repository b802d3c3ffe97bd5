//! What the score is for, stated over the findings and in the numbers of the method: penalties,
//! weights, bands and caps.
use crate::catalog::Severity;
use crate::context::ModifierFacts;
use crate::rules;
use crate::rules::FindingFacts;
use crate::score;
use crate::score::{ALL_DIMS, D1_RULES, D2_RULES, D3_RULES, D5_RULES, Dim, SHELL_RULE, ScoreStatus};
use crate::text;
use vstd::prelude::*;

verus! {

proof fn lemma_d1_rules(s: Seq<char>)
    ensures
        text::is_listed(s, D1_RULES@) == (s == "MCP-TOOL-DESCRIPTION-INJECTION"@ || s == "MCP-HIDDEN-TOOL-METADATA"@ || s == "MCP-DYNAMIC-TOOL-DEFINITION"@ || s == "MCP-TOOL-SHADOWING"@),
{
    assert(D1_RULES@[0]@ == "MCP-TOOL-DESCRIPTION-INJECTION"@);
    assert(D1_RULES@[1]@ == "MCP-HIDDEN-TOOL-METADATA"@);
    assert(D1_RULES@[2]@ == "MCP-DYNAMIC-TOOL-DEFINITION"@);
    assert(D1_RULES@[3]@ == "MCP-TOOL-SHADOWING"@);
    if text::is_listed(s, D1_RULES@) {
        let k = choose|k: int| 0 <= k < D1_RULES@.len() && s == (#[trigger] D1_RULES@[k])@;
        assert(k == 0 || k == 1 || k == 2 || k == 3);
    }
    if s == "MCP-TOOL-DESCRIPTION-INJECTION"@ {
        assert(s == D1_RULES@[0]@);
    }
    if s == "MCP-HIDDEN-TOOL-METADATA"@ {
        assert(s == D1_RULES@[1]@);
    }
    if s == "MCP-DYNAMIC-TOOL-DEFINITION"@ {
        assert(s == D1_RULES@[2]@);
    }
    if s == "MCP-TOOL-SHADOWING"@ {
        assert(s == D1_RULES@[3]@);
    }
}

proof fn lemma_d2_rules(s: Seq<char>)
    ensures
        text::is_listed(s, D2_RULES@) == (s == "MCP-CREDENTIAL-EXFILTRATION"@ || s == "MCP-SECRET-IN-CONFIG"@ || s == "MCP-CREDENTIAL-LOGGED"@ || s == "MCP-TOKEN-PASSTHROUGH-UNSCOPED"@),
{
    assert(D2_RULES@[0]@ == "MCP-CREDENTIAL-EXFILTRATION"@);
    assert(D2_RULES@[1]@ == "MCP-SECRET-IN-CONFIG"@);
    assert(D2_RULES@[2]@ == "MCP-CREDENTIAL-LOGGED"@);
    assert(D2_RULES@[3]@ == "MCP-TOKEN-PASSTHROUGH-UNSCOPED"@);
    if text::is_listed(s, D2_RULES@) {
        let k = choose|k: int| 0 <= k < D2_RULES@.len() && s == (#[trigger] D2_RULES@[k])@;
        assert(k == 0 || k == 1 || k == 2 || k == 3);
    }
    if s == "MCP-CREDENTIAL-EXFILTRATION"@ {
        assert(s == D2_RULES@[0]@);
    }
    if s == "MCP-SECRET-IN-CONFIG"@ {
        assert(s == D2_RULES@[1]@);
    }
    if s == "MCP-CREDENTIAL-LOGGED"@ {
        assert(s == D2_RULES@[2]@);
    }
    if s == "MCP-TOKEN-PASSTHROUGH-UNSCOPED"@ {
        assert(s == D2_RULES@[3]@);
    }
}

proof fn lemma_d3_rules(s: Seq<char>)
    ensures
        text::is_listed(s, D3_RULES@) == (s == "MCP-SSRF-USER-CONTROLLED-URL"@ || s == "MCP-UNRESTRICTED-EGRESS"@ || s == "MCP-TLS-VERIFICATION-DISABLED"@),
{
    assert(D3_RULES@[0]@ == "MCP-SSRF-USER-CONTROLLED-URL"@);
    assert(D3_RULES@[1]@ == "MCP-UNRESTRICTED-EGRESS"@);
    assert(D3_RULES@[2]@ == "MCP-TLS-VERIFICATION-DISABLED"@);
    if text::is_listed(s, D3_RULES@) {
        let k = choose|k: int| 0 <= k < D3_RULES@.len() && s == (#[trigger] D3_RULES@[k])@;
        assert(k == 0 || k == 1 || k == 2);
    }
    if s == "MCP-SSRF-USER-CONTROLLED-URL"@ {
        assert(s == D3_RULES@[0]@);
    }
    if s == "MCP-UNRESTRICTED-EGRESS"@ {
        assert(s == D3_RULES@[1]@);
    }
    if s == "MCP-TLS-VERIFICATION-DISABLED"@ {
        assert(s == D3_RULES@[2]@);
    }
}

proof fn lemma_d5_rules(s: Seq<char>)
    ensures
        text::is_listed(s, D5_RULES@) == (s == "MCP-DEPS-UNPINNED"@ || s == "MCP-RELEASE-UNSIGNED"@ || s == "MCP-MAINTAINER-SIGNAL"@),
{
    assert(D5_RULES@[0]@ == "MCP-DEPS-UNPINNED"@);
    assert(D5_RULES@[1]@ == "MCP-RELEASE-UNSIGNED"@);
    assert(D5_RULES@[2]@ == "MCP-MAINTAINER-SIGNAL"@);
    if text::is_listed(s, D5_RULES@) {
        let k = choose|k: int| 0 <= k < D5_RULES@.len() && s == (#[trigger] D5_RULES@[k])@;
        assert(k == 0 || k == 1 || k == 2);
    }
    if s == "MCP-DEPS-UNPINNED"@ {
        assert(s == D5_RULES@[0]@);
    }
    if s == "MCP-RELEASE-UNSIGNED"@ {
        assert(s == D5_RULES@[1]@);
    }
    if s == "MCP-MAINTAINER-SIGNAL"@ {
        assert(s == D5_RULES@[2]@);
    }
}

proof fn lemma_rules_apart()
    ensures
        "MCP-TOOL-DESCRIPTION-INJECTION"@ != "MCP-CREDENTIAL-EXFILTRATION"@,
        "MCP-TOOL-DESCRIPTION-INJECTION"@ != "MCP-SECRET-IN-CONFIG"@,
        "MCP-TOOL-DESCRIPTION-INJECTION"@ != "MCP-CREDENTIAL-LOGGED"@,
        "MCP-TOOL-DESCRIPTION-INJECTION"@ != "MCP-TOKEN-PASSTHROUGH-UNSCOPED"@,
        "MCP-TOOL-DESCRIPTION-INJECTION"@ != "MCP-SSRF-USER-CONTROLLED-URL"@,
        "MCP-TOOL-DESCRIPTION-INJECTION"@ != "MCP-UNRESTRICTED-EGRESS"@,
        "MCP-TOOL-DESCRIPTION-INJECTION"@ != "MCP-TLS-VERIFICATION-DISABLED"@,
        "MCP-TOOL-DESCRIPTION-INJECTION"@ != "MCP-DEPS-UNPINNED"@,
        "MCP-TOOL-DESCRIPTION-INJECTION"@ != "MCP-RELEASE-UNSIGNED"@,
        "MCP-TOOL-DESCRIPTION-INJECTION"@ != "MCP-MAINTAINER-SIGNAL"@,
        "MCP-HIDDEN-TOOL-METADATA"@ != "MCP-CREDENTIAL-EXFILTRATION"@,
        "MCP-HIDDEN-TOOL-METADATA"@ != "MCP-SECRET-IN-CONFIG"@,
        "MCP-HIDDEN-TOOL-METADATA"@ != "MCP-CREDENTIAL-LOGGED"@,
        "MCP-HIDDEN-TOOL-METADATA"@ != "MCP-TOKEN-PASSTHROUGH-UNSCOPED"@,
        "MCP-HIDDEN-TOOL-METADATA"@ != "MCP-SSRF-USER-CONTROLLED-URL"@,
        "MCP-HIDDEN-TOOL-METADATA"@ != "MCP-UNRESTRICTED-EGRESS"@,
        "MCP-HIDDEN-TOOL-METADATA"@ != "MCP-TLS-VERIFICATION-DISABLED"@,
        "MCP-HIDDEN-TOOL-METADATA"@ != "MCP-DEPS-UNPINNED"@,
        "MCP-HIDDEN-TOOL-METADATA"@ != "MCP-RELEASE-UNSIGNED"@,
        "MCP-HIDDEN-TOOL-METADATA"@ != "MCP-MAINTAINER-SIGNAL"@,
        "MCP-DYNAMIC-TOOL-DEFINITION"@ != "MCP-CREDENTIAL-EXFILTRATION"@,
        "MCP-DYNAMIC-TOOL-DEFINITION"@ != "MCP-SECRET-IN-CONFIG"@,
        "MCP-DYNAMIC-TOOL-DEFINITION"@ != "MCP-CREDENTIAL-LOGGED"@,
        "MCP-DYNAMIC-TOOL-DEFINITION"@ != "MCP-TOKEN-PASSTHROUGH-UNSCOPED"@,
        "MCP-DYNAMIC-TOOL-DEFINITION"@ != "MCP-SSRF-USER-CONTROLLED-URL"@,
        "MCP-DYNAMIC-TOOL-DEFINITION"@ != "MCP-UNRESTRICTED-EGRESS"@,
        "MCP-DYNAMIC-TOOL-DEFINITION"@ != "MCP-TLS-VERIFICATION-DISABLED"@,
        "MCP-DYNAMIC-TOOL-DEFINITION"@ != "MCP-DEPS-UNPINNED"@,
        "MCP-DYNAMIC-TOOL-DEFINITION"@ != "MCP-RELEASE-UNSIGNED"@,
        "MCP-DYNAMIC-TOOL-DEFINITION"@ != "MCP-MAINTAINER-SIGNAL"@,
        "MCP-TOOL-SHADOWING"@ != "MCP-CREDENTIAL-EXFILTRATION"@,
        "MCP-TOOL-SHADOWING"@ != "MCP-SECRET-IN-CONFIG"@,
        "MCP-TOOL-SHADOWING"@ != "MCP-CREDENTIAL-LOGGED"@,
        "MCP-TOOL-SHADOWING"@ != "MCP-TOKEN-PASSTHROUGH-UNSCOPED"@,
        "MCP-TOOL-SHADOWING"@ != "MCP-SSRF-USER-CONTROLLED-URL"@,
        "MCP-TOOL-SHADOWING"@ != "MCP-UNRESTRICTED-EGRESS"@,
        "MCP-TOOL-SHADOWING"@ != "MCP-TLS-VERIFICATION-DISABLED"@,
        "MCP-TOOL-SHADOWING"@ != "MCP-DEPS-UNPINNED"@,
        "MCP-TOOL-SHADOWING"@ != "MCP-RELEASE-UNSIGNED"@,
        "MCP-TOOL-SHADOWING"@ != "MCP-MAINTAINER-SIGNAL"@,
        "MCP-CREDENTIAL-EXFILTRATION"@ != "MCP-SSRF-USER-CONTROLLED-URL"@,
        "MCP-CREDENTIAL-EXFILTRATION"@ != "MCP-UNRESTRICTED-EGRESS"@,
        "MCP-CREDENTIAL-EXFILTRATION"@ != "MCP-TLS-VERIFICATION-DISABLED"@,
        "MCP-CREDENTIAL-EXFILTRATION"@ != "MCP-DEPS-UNPINNED"@,
        "MCP-CREDENTIAL-EXFILTRATION"@ != "MCP-RELEASE-UNSIGNED"@,
        "MCP-CREDENTIAL-EXFILTRATION"@ != "MCP-MAINTAINER-SIGNAL"@,
        "MCP-SECRET-IN-CONFIG"@ != "MCP-SSRF-USER-CONTROLLED-URL"@,
        "MCP-SECRET-IN-CONFIG"@ != "MCP-UNRESTRICTED-EGRESS"@,
        "MCP-SECRET-IN-CONFIG"@ != "MCP-TLS-VERIFICATION-DISABLED"@,
        "MCP-SECRET-IN-CONFIG"@ != "MCP-DEPS-UNPINNED"@,
        "MCP-SECRET-IN-CONFIG"@ != "MCP-RELEASE-UNSIGNED"@,
        "MCP-SECRET-IN-CONFIG"@ != "MCP-MAINTAINER-SIGNAL"@,
        "MCP-CREDENTIAL-LOGGED"@ != "MCP-SSRF-USER-CONTROLLED-URL"@,
        "MCP-CREDENTIAL-LOGGED"@ != "MCP-UNRESTRICTED-EGRESS"@,
        "MCP-CREDENTIAL-LOGGED"@ != "MCP-TLS-VERIFICATION-DISABLED"@,
        "MCP-CREDENTIAL-LOGGED"@ != "MCP-DEPS-UNPINNED"@,
        "MCP-CREDENTIAL-LOGGED"@ != "MCP-RELEASE-UNSIGNED"@,
        "MCP-CREDENTIAL-LOGGED"@ != "MCP-MAINTAINER-SIGNAL"@,
        "MCP-TOKEN-PASSTHROUGH-UNSCOPED"@ != "MCP-SSRF-USER-CONTROLLED-URL"@,
        "MCP-TOKEN-PASSTHROUGH-UNSCOPED"@ != "MCP-UNRESTRICTED-EGRESS"@,
        "MCP-TOKEN-PASSTHROUGH-UNSCOPED"@ != "MCP-TLS-VERIFICATION-DISABLED"@,
        "MCP-TOKEN-PASSTHROUGH-UNSCOPED"@ != "MCP-DEPS-UNPINNED"@,
        "MCP-TOKEN-PASSTHROUGH-UNSCOPED"@ != "MCP-RELEASE-UNSIGNED"@,
        "MCP-TOKEN-PASSTHROUGH-UNSCOPED"@ != "MCP-MAINTAINER-SIGNAL"@,
        "MCP-SSRF-USER-CONTROLLED-URL"@ != "MCP-DEPS-UNPINNED"@,
        "MCP-SSRF-USER-CONTROLLED-URL"@ != "MCP-RELEASE-UNSIGNED"@,
        "MCP-SSRF-USER-CONTROLLED-URL"@ != "MCP-MAINTAINER-SIGNAL"@,
        "MCP-UNRESTRICTED-EGRESS"@ != "MCP-DEPS-UNPINNED"@,
        "MCP-UNRESTRICTED-EGRESS"@ != "MCP-RELEASE-UNSIGNED"@,
        "MCP-UNRESTRICTED-EGRESS"@ != "MCP-MAINTAINER-SIGNAL"@,
        "MCP-TLS-VERIFICATION-DISABLED"@ != "MCP-DEPS-UNPINNED"@,
        "MCP-TLS-VERIFICATION-DISABLED"@ != "MCP-RELEASE-UNSIGNED"@,
        "MCP-TLS-VERIFICATION-DISABLED"@ != "MCP-MAINTAINER-SIGNAL"@,
{
    reveal_strlit("MCP-TOOL-DESCRIPTION-INJECTION");
    reveal_strlit("MCP-HIDDEN-TOOL-METADATA");
    reveal_strlit("MCP-DYNAMIC-TOOL-DEFINITION");
    reveal_strlit("MCP-TOOL-SHADOWING");
    reveal_strlit("MCP-CREDENTIAL-EXFILTRATION");
    reveal_strlit("MCP-SECRET-IN-CONFIG");
    reveal_strlit("MCP-CREDENTIAL-LOGGED");
    reveal_strlit("MCP-TOKEN-PASSTHROUGH-UNSCOPED");
    reveal_strlit("MCP-SSRF-USER-CONTROLLED-URL");
    reveal_strlit("MCP-UNRESTRICTED-EGRESS");
    reveal_strlit("MCP-TLS-VERIFICATION-DISABLED");
    reveal_strlit("MCP-DEPS-UNPINNED");
    reveal_strlit("MCP-RELEASE-UNSIGNED");
    reveal_strlit("MCP-MAINTAINER-SIGNAL");
    assert("MCP-TOOL-DESCRIPTION-INJECTION"@.len() == 30 && "MCP-TOOL-DESCRIPTION-INJECTION"@[4] == 'T' && "MCP-TOOL-DESCRIPTION-INJECTION"@[6] == 'O');
    assert("MCP-HIDDEN-TOOL-METADATA"@.len() == 24 && "MCP-HIDDEN-TOOL-METADATA"@[4] == 'H' && "MCP-HIDDEN-TOOL-METADATA"@[6] == 'D');
    assert("MCP-DYNAMIC-TOOL-DEFINITION"@.len() == 27 && "MCP-DYNAMIC-TOOL-DEFINITION"@[4] == 'D' && "MCP-DYNAMIC-TOOL-DEFINITION"@[6] == 'N');
    assert("MCP-TOOL-SHADOWING"@.len() == 18 && "MCP-TOOL-SHADOWING"@[4] == 'T' && "MCP-TOOL-SHADOWING"@[6] == 'O');
    assert("MCP-CREDENTIAL-EXFILTRATION"@.len() == 27 && "MCP-CREDENTIAL-EXFILTRATION"@[4] == 'C' && "MCP-CREDENTIAL-EXFILTRATION"@[6] == 'E');
    assert("MCP-SECRET-IN-CONFIG"@.len() == 20 && "MCP-SECRET-IN-CONFIG"@[4] == 'S' && "MCP-SECRET-IN-CONFIG"@[6] == 'C');
    assert("MCP-CREDENTIAL-LOGGED"@.len() == 21 && "MCP-CREDENTIAL-LOGGED"@[4] == 'C' && "MCP-CREDENTIAL-LOGGED"@[6] == 'E');
    assert("MCP-TOKEN-PASSTHROUGH-UNSCOPED"@.len() == 30 && "MCP-TOKEN-PASSTHROUGH-UNSCOPED"@[4] == 'T' && "MCP-TOKEN-PASSTHROUGH-UNSCOPED"@[6] == 'K');
    assert("MCP-SSRF-USER-CONTROLLED-URL"@.len() == 28 && "MCP-SSRF-USER-CONTROLLED-URL"@[4] == 'S' && "MCP-SSRF-USER-CONTROLLED-URL"@[6] == 'R');
    assert("MCP-UNRESTRICTED-EGRESS"@.len() == 23 && "MCP-UNRESTRICTED-EGRESS"@[4] == 'U' && "MCP-UNRESTRICTED-EGRESS"@[6] == 'R');
    assert("MCP-TLS-VERIFICATION-DISABLED"@.len() == 29 && "MCP-TLS-VERIFICATION-DISABLED"@[4] == 'T' && "MCP-TLS-VERIFICATION-DISABLED"@[6] == 'S');
    assert("MCP-DEPS-UNPINNED"@.len() == 17 && "MCP-DEPS-UNPINNED"@[4] == 'D' && "MCP-DEPS-UNPINNED"@[6] == 'P');
    assert("MCP-RELEASE-UNSIGNED"@.len() == 20 && "MCP-RELEASE-UNSIGNED"@[4] == 'R' && "MCP-RELEASE-UNSIGNED"@[6] == 'L');
    assert("MCP-MAINTAINER-SIGNAL"@.len() == 21 && "MCP-MAINTAINER-SIGNAL"@[4] == 'M' && "MCP-MAINTAINER-SIGNAL"@[6] == 'I');
}

/// Every rule counts towards the dimension that it is about; one that no dimension names counts
/// towards the permission scope.
pub proof fn law_rules_count_towards_their_dimensions(id: Seq<char>)
    ensures
        score::dimension(id) == Dim::D1ToolInjection <==> id == "MCP-TOOL-DESCRIPTION-INJECTION"@ || id == "MCP-HIDDEN-TOOL-METADATA"@ || id == "MCP-DYNAMIC-TOOL-DEFINITION"@ || id == "MCP-TOOL-SHADOWING"@,
        score::dimension(id) == Dim::D2Credential <==> id == "MCP-CREDENTIAL-EXFILTRATION"@ || id == "MCP-SECRET-IN-CONFIG"@ || id == "MCP-CREDENTIAL-LOGGED"@ || id == "MCP-TOKEN-PASSTHROUGH-UNSCOPED"@,
        score::dimension(id) == Dim::D3Egress <==> id == "MCP-SSRF-USER-CONTROLLED-URL"@ || id == "MCP-UNRESTRICTED-EGRESS"@ || id == "MCP-TLS-VERIFICATION-DISABLED"@,
        score::dimension(id) == Dim::D5Provenance <==> id == "MCP-DEPS-UNPINNED"@ || id == "MCP-RELEASE-UNSIGNED"@ || id == "MCP-MAINTAINER-SIGNAL"@,
        score::dimension(id) == Dim::D4Permission <==> !(id == "MCP-TOOL-DESCRIPTION-INJECTION"@ || id == "MCP-HIDDEN-TOOL-METADATA"@ || id == "MCP-DYNAMIC-TOOL-DEFINITION"@ || id == "MCP-TOOL-SHADOWING"@ || id == "MCP-CREDENTIAL-EXFILTRATION"@ || id == "MCP-SECRET-IN-CONFIG"@ || id == "MCP-CREDENTIAL-LOGGED"@ || id == "MCP-TOKEN-PASSTHROUGH-UNSCOPED"@ || id == "MCP-SSRF-USER-CONTROLLED-URL"@ || id == "MCP-UNRESTRICTED-EGRESS"@ || id == "MCP-TLS-VERIFICATION-DISABLED"@ || id == "MCP-DEPS-UNPINNED"@ || id == "MCP-RELEASE-UNSIGNED"@ || id == "MCP-MAINTAINER-SIGNAL"@),
{
    lemma_d1_rules(id);
    lemma_d2_rules(id);
    lemma_d3_rules(id);
    lemma_d5_rules(id);
    lemma_rules_apart();
}

/// The letter of a composite: A from 90, B from 80, C from 70, D from 60, and F below.
pub proof fn law_bands_are_ten_points_wide(c: int)
    ensures
        90 <= c <= 100 ==> score::band_of(c) == 'A',
        80 <= c <= 89 ==> score::band_of(c) == 'B',
        70 <= c <= 79 ==> score::band_of(c) == 'C',
        60 <= c <= 69 ==> score::band_of(c) == 'D',
        c < 60 ==> score::band_of(c) == 'F',
{
}

/// The letter of a report, from its composite and its findings. It is F below 60 or with a critical
/// finding; else D below 70 or with a shell that is fed with tool input; else C below 80 or with a high
/// finding about descriptions or credentials; else B below 90 or with any high finding; else A.
#[verifier::rlimit(60)]
pub proof fn law_grades_follow_the_composite_and_the_caps(
    fs: Seq<FindingFacts>,
    modifiers: Seq<ModifierFacts>,
    covered: Seq<Dim>,
    analyzable: bool,
)
    ensures
        ({
            let r = score::report_of(fs, modifiers, covered, analyzable);
            let critical = exists|i: int| 0 <= i < fs.len() && (#[trigger] fs[i]).severity == Severity::Critical;
            let high = exists|i: int| 0 <= i < fs.len() && (#[trigger] fs[i]).severity == Severity::High;
            let grave = exists|i: int|
                0 <= i < fs.len() && (#[trigger] fs[i]).severity == Severity::High && (fs[i].rule_id == "MCP-TOOL-DESCRIPTION-INJECTION"@ || fs[i].rule_id == "MCP-HIDDEN-TOOL-METADATA"@ || fs[i].rule_id == "MCP-DYNAMIC-TOOL-DEFINITION"@ || fs[i].rule_id == "MCP-TOOL-SHADOWING"@ || fs[i].rule_id == "MCP-CREDENTIAL-EXFILTRATION"@ || fs[i].rule_id == "MCP-SECRET-IN-CONFIG"@ || fs[i].rule_id == "MCP-CREDENTIAL-LOGGED"@ || fs[i].rule_id == "MCP-TOKEN-PASSTHROUGH-UNSCOPED"@);
            let shell = exists|i: int| 0 <= i < fs.len() && (#[trigger] fs[i]).rule_id == "MCP-SHELL-EXEC-SURFACE"@;
            &&& r.grade == (if r.composite < 60 || critical {
                'F'
            } else if r.composite < 70 || shell {
                'D'
            } else if r.composite < 80 || grave {
                'C'
            } else if r.composite < 90 || high {
                'B'
            } else {
                'A'
            })
            &&& r.caps.contains("critical-present:cap-F"@) <==> critical
            &&& r.caps.contains("d1|d2-high-unresolved:cap-C"@) <==> grave
            &&& r.caps.contains("shell-exec-surface:cap-D"@) <==> shell
            &&& r.caps.contains("high-unresolved:cap-B"@) <==> high
            &&& r.caps.len() <= 4
            &&& r.status == (if analyzable {
                ScoreStatus::Scored
            } else {
                ScoreStatus::InsufficientCoverage
            })
            &&& r.modifiers == modifiers
        }),
{
    score::law_scores_are_percentages(fs, covered, Dim::D1ToolInjection);
    let c = score::composite_of(fs, covered);
    let grave = exists|i: int|
        0 <= i < fs.len() && (#[trigger] fs[i]).severity == Severity::High && (fs[i].rule_id == "MCP-TOOL-DESCRIPTION-INJECTION"@ || fs[i].rule_id == "MCP-HIDDEN-TOOL-METADATA"@ || fs[i].rule_id == "MCP-DYNAMIC-TOOL-DEFINITION"@ || fs[i].rule_id == "MCP-TOOL-SHADOWING"@ || fs[i].rule_id == "MCP-CREDENTIAL-EXFILTRATION"@ || fs[i].rule_id == "MCP-SECRET-IN-CONFIG"@ || fs[i].rule_id == "MCP-CREDENTIAL-LOGGED"@ || fs[i].rule_id == "MCP-TOKEN-PASSTHROUGH-UNSCOPED"@);
    if grave {
        let i = choose|i: int|
            0 <= i < fs.len() && (#[trigger] fs[i]).severity == Severity::High && (fs[i].rule_id == "MCP-TOOL-DESCRIPTION-INJECTION"@ || fs[i].rule_id == "MCP-HIDDEN-TOOL-METADATA"@ || fs[i].rule_id == "MCP-DYNAMIC-TOOL-DEFINITION"@ || fs[i].rule_id == "MCP-TOOL-SHADOWING"@ || fs[i].rule_id == "MCP-CREDENTIAL-EXFILTRATION"@ || fs[i].rule_id == "MCP-SECRET-IN-CONFIG"@ || fs[i].rule_id == "MCP-CREDENTIAL-LOGGED"@ || fs[i].rule_id == "MCP-TOKEN-PASSTHROUGH-UNSCOPED"@);
        law_rules_count_towards_their_dimensions(fs[i].rule_id);
        assert(score::has_grave_high(fs));
    }
    if score::has_grave_high(fs) {
        let i = choose|i: int|
            0 <= i < fs.len() && (#[trigger] fs[i]).severity == Severity::High && (score::dimension(fs[i].rule_id)
                == Dim::D1ToolInjection || score::dimension(fs[i].rule_id) == Dim::D2Credential);
        law_rules_count_towards_their_dimensions(fs[i].rule_id);
        assert(grave);
    }
    reveal_strlit("critical-present:cap-F");
    reveal_strlit("d1|d2-high-unresolved:cap-C");
    reveal_strlit("shell-exec-surface:cap-D");
    reveal_strlit("high-unresolved:cap-B");
    let a = "critical-present:cap-F"@;
    let b = "d1|d2-high-unresolved:cap-C"@;
    let s = "shell-exec-surface:cap-D"@;
    let h = "high-unresolved:cap-B"@;
    assert(a.len() == 22 && b.len() == 27 && s.len() == 24 && h.len() == 21);
    let c0 = Seq::<Seq<char>>::empty();
    let c1 = score::with_cap(c0, a, rules::has_severity(fs, Severity::Critical));
    let c2 = score::with_cap(c1, b, score::has_grave_high(fs));
    let c3 = score::with_cap(c2, s, score::has_rule(fs, SHELL_RULE@));
    let c4 = score::with_cap(c3, h, rules::has_severity(fs, Severity::High));
    assert(c4 == score::caps_of(fs));
    lemma_one_cap(c0, a, rules::has_severity(fs, Severity::Critical));
    lemma_one_cap(c1, b, score::has_grave_high(fs));
    lemma_one_cap(c2, s, score::has_rule(fs, SHELL_RULE@));
    lemma_one_cap(c3, h, rules::has_severity(fs, Severity::High));
    assert(!c0.contains(a) && !c0.contains(b) && !c0.contains(s) && !c0.contains(h));
}

proof fn lemma_one_cap(caps: Seq<Seq<char>>, cap: Seq<char>, on: bool)
    ensures
        forall|x: Seq<char>| #[trigger] score::with_cap(caps, cap, on).contains(x) <==> caps.contains(x) || (on && x == cap),
        score::with_cap(caps, cap, on).len() <= caps.len() + 1,
{
    let now = score::with_cap(caps, cap, on);
    assert forall|x: Seq<char>| #[trigger] now.contains(x) <==> caps.contains(x) || (on && x == cap) by {
        if caps.contains(x) {
            let i = choose|i: int| 0 <= i < caps.len() && caps[i] == x;
            assert(now[i] == x);
        }
        if on && x == cap {
            assert(now[caps.len() as int] == x);
        }
        if now.contains(x) {
            let i = choose|i: int| 0 <= i < now.len() && now[i] == x;
            if i < caps.len() {
                assert(caps[i] == x);
            }
        }
    }
}

/// The composite is the weighted average of the scored dimensions, to the nearest point and halves up.
/// Descriptions, credentials and egress weigh 20 each, the permission scope 25 and provenance 15. A
/// dimension that was neither covered nor has a finding has no part in it; where none has, it is 100.
#[verifier::rlimit(60)]
pub proof fn law_the_composite_is_a_weighted_average(fs: Seq<FindingFacts>, covered: Seq<Dim>)
    ensures
        ({
            let c = score::composite_of(fs, covered);
            let n = fs.len() as int;
            let s1 = covered.contains(Dim::D1ToolInjection) || exists|i: int| 0 <= i < n && score::dimension((#[trigger] fs[i]).rule_id) == Dim::D1ToolInjection;
            let s2 = covered.contains(Dim::D2Credential) || exists|i: int| 0 <= i < n && score::dimension((#[trigger] fs[i]).rule_id) == Dim::D2Credential;
            let s3 = covered.contains(Dim::D3Egress) || exists|i: int| 0 <= i < n && score::dimension((#[trigger] fs[i]).rule_id) == Dim::D3Egress;
            let s4 = covered.contains(Dim::D4Permission) || exists|i: int| 0 <= i < n && score::dimension((#[trigger] fs[i]).rule_id) == Dim::D4Permission;
            let s5 = covered.contains(Dim::D5Provenance) || exists|i: int| 0 <= i < n && score::dimension((#[trigger] fs[i]).rule_id) == Dim::D5Provenance;
            let p1 = score::points(score::in_dim(fs, Dim::D1ToolInjection, n));
            let p2 = score::points(score::in_dim(fs, Dim::D2Credential, n));
            let p3 = score::points(score::in_dim(fs, Dim::D3Egress, n));
            let p4 = score::points(score::in_dim(fs, Dim::D4Permission, n));
            let p5 = score::points(score::in_dim(fs, Dim::D5Provenance, n));
            let num = (if s1 { p1 * 20 } else { 0 }) + (if s2 { p2 * 20 } else { 0 }) + (if s3 { p3 * 20 } else { 0 }) + (if s4 { p4 * 25 } else { 0 }) + (if s5 { p5 * 15 } else { 0 });
            let den = (if s1 { 20int } else { 0 }) + (if s2 { 20int } else { 0 }) + (if s3 { 20int } else { 0 }) + (if s4 { 25int } else { 0 }) + (if s5 { 15int } else { 0 });
            &&& den == 0 ==> c == 100
            &&& den > 0 ==> 2 * den * c <= 2 * num + den
            &&& den > 0 ==> 2 * num + den < 2 * den * (c + 1) + (den % 2) + 1
        }),
{
    reveal_with_fuel(score::weighted, 6);
    reveal_with_fuel(score::weights, 6);
    lemma_dimension_scored(fs, covered, Dim::D1ToolInjection);
    assert(ALL_DIMS@[0] == Dim::D1ToolInjection);
    lemma_dimension_scored(fs, covered, Dim::D2Credential);
    assert(ALL_DIMS@[1] == Dim::D2Credential);
    lemma_dimension_scored(fs, covered, Dim::D3Egress);
    assert(ALL_DIMS@[2] == Dim::D3Egress);
    lemma_dimension_scored(fs, covered, Dim::D4Permission);
    assert(ALL_DIMS@[3] == Dim::D4Permission);
    lemma_dimension_scored(fs, covered, Dim::D5Provenance);
    assert(ALL_DIMS@[4] == Dim::D5Provenance);
    let num = score::weighted(fs, covered, 5);
    let den = score::weights(fs, covered, 5);
    if den > 0 {
        lemma_rounded(num, den);
    }
}

proof fn lemma_rounded(num: int, den: int)
    by (nonlinear_arith)
    requires
        den > 0,
    ensures
        2 * den * ((num + den / 2) / den) <= 2 * num + den,
        2 * num + den < 2 * den * ((num + den / 2) / den + 1) + (den % 2) + 1,
{
    let q = (num + den / 2) / den;
    let r = (num + den / 2) % den;
    assert(num + den / 2 == den * q + r && 0 <= r < den);
    assert(2 * (den / 2) + den % 2 == den && 0 <= den % 2 < 2);
}

proof fn lemma_dimension_scored(fs: Seq<FindingFacts>, covered: Seq<Dim>, d: Dim)
    ensures
        score::is_scored(fs, covered, d) == (covered.contains(d) || exists|i: int|
            0 <= i < fs.len() && score::dimension((#[trigger] fs[i]).rule_id) == d),
{
    lemma_dimension_members(fs, d, fs.len() as int);
}

proof fn lemma_dimension_members(fs: Seq<FindingFacts>, d: Dim, n: int)
    requires
        0 <= n <= fs.len(),
    ensures
        score::in_dim(fs, d, n).len() > 0 <==> exists|i: int| 0 <= i < n && score::dimension((#[trigger] fs[i]).rule_id) == d,
        forall|i: int| 0 <= i < n && score::dimension((#[trigger] fs[i]).rule_id) == d ==> score::in_dim(fs, d, n).contains(fs[i]),
        forall|j: int|
            0 <= j < score::in_dim(fs, d, n).len() ==> score::dimension((#[trigger] score::in_dim(fs, d, n)[j]).rule_id) == d && fs.contains(
                score::in_dim(fs, d, n)[j],
            ),
    decreases n,
{
    if n > 0 {
        lemma_dimension_members(fs, d, n - 1);
        let before = score::in_dim(fs, d, n - 1);
        let now = score::in_dim(fs, d, n);
        if score::dimension(fs[n - 1].rule_id) == d {
            assert(now[before.len() as int] == fs[n - 1]);
        }
        assert forall|i: int| 0 <= i < n && score::dimension((#[trigger] fs[i]).rule_id) == d implies now.contains(fs[i]) by {
            if i < n - 1 {
                let j = choose|j: int| 0 <= j < before.len() && before[j] == fs[i];
                assert(now[j] == fs[i]);
            }
        }
        assert forall|j: int| 0 <= j < now.len() implies score::dimension((#[trigger] now[j]).rule_id) == d && fs.contains(now[j]) by {
            if j < before.len() {
                assert(now[j] == before[j]);
            } else {
                assert(now[j] == fs[n - 1]);
            }
        }
    }
}

/// Every dimension is in the report, under its name, with the findings that count towards it. It is
/// scored where its checks ran or it has a finding, and else it has no score.
pub proof fn law_dimensions_are_reported(fs: Seq<FindingFacts>, covered: Seq<Dim>, d: Dim)
    ensures
        ({
            let s = score::dim_score(fs, covered, d);
            let scored = covered.contains(d) || exists|i: int|
                0 <= i < fs.len() && score::dimension((#[trigger] fs[i]).rule_id) == d;
            &&& score::dim_scores(fs, covered).contains(s)
            &&& score::dim_scores(fs, covered).len() == 5
            &&& s.dim == d
            &&& s.status == (if scored {
                "scored"@
            } else {
                "na"@
            })
            &&& s.sub_score is Some <==> scored
            &&& forall|i: int| 0 <= i < fs.len() && score::dimension((#[trigger] fs[i]).rule_id) == d ==> s.findings.contains(fs[i])
            &&& forall|j: int|
                0 <= j < s.findings.len() ==> score::dimension((#[trigger] s.findings[j]).rule_id) == d && fs.contains(
                    s.findings[j],
                )
        }),
        d == Dim::D1ToolInjection ==> score::dim_id(d) == "tool-description-injection"@ && score::dim_weight(d) == 20,
        d == Dim::D2Credential ==> score::dim_id(d) == "credential-secret-handling"@ && score::dim_weight(d) == 20,
        d == Dim::D3Egress ==> score::dim_id(d) == "network-egress-ssrf"@ && score::dim_weight(d) == 20,
        d == Dim::D4Permission ==> score::dim_id(d) == "permission-scope-vs-declared"@ && score::dim_weight(d) == 25,
        d == Dim::D5Provenance ==> score::dim_id(d) == "supply-chain-provenance"@ && score::dim_weight(d) == 15,
{
    lemma_dimension_scored(fs, covered, d);
    lemma_dimension_members(fs, d, fs.len() as int);
    let all = score::dim_scores(fs, covered);
    let k: int = match d {
        Dim::D1ToolInjection => 0,
        Dim::D2Credential => 1,
        Dim::D3Egress => 2,
        Dim::D4Permission => 3,
        Dim::D5Provenance => 4,
    };
    assert(ALL_DIMS@[k] == d);
    assert(all[k] == score::dim_score(fs, covered, d));
}

// --- what findings cost ----------------------------------------------------

/// The score of findings is 100 less what they cost. A finding of a rule that has none costs 50 where
/// it is critical, 25 where it is high, 10 where it is medium, 4 where it is low, and else nothing.
pub proof fn law_the_first_finding_of_a_rule_costs_its_penalty(fs: Seq<FindingFacts>, f: FindingFacts)
    requires
        forall|i: int| 0 <= i < fs.len() ==> (#[trigger] fs[i]).rule_id != f.rule_id,
    ensures
        ({
            let p: int = match f.severity {
                Severity::Critical => 50,
                Severity::High => 25,
                Severity::Medium => 10,
                Severity::Low => 4,
                Severity::Info => 0,
            };
            score::points(fs.push(f)) == (if score::points(fs) >= p {
                score::points(fs) - p
            } else {
                0
            })
        }),
        score::points(Seq::<FindingFacts>::empty()) == 100,
{
    let gs = fs.push(f);
    let n = fs.len() as int;
    assert(gs[n] == f);
    lemma_none_charged(gs, f.rule_id, n);
    assert(!score::is_repeat(gs, n)) by {
        if score::is_repeat(gs, n) {
            let j = choose|j: int| 0 <= j < n && score::same_place(#[trigger] gs[j], gs[n]);
            assert(gs[j] == fs[j]);
        }
    }
    assert(score::charge(gs, f.rule_id, n + 1) == score::penalty_of(f.severity));
    assert(score::leads_rule(gs, n)) by {
        assert forall|j: int| 0 <= j < n implies (#[trigger] gs[j]).rule_id != gs[n].rule_id by {
            assert(gs[j] == fs[j]);
        }
    }
    lemma_others_unchanged(fs, f, n);
    lemma_costs_are_positive(fs, n);
    assert(score::total_charge(Seq::<FindingFacts>::empty(), 0) == 0);
}

/// A second finding of a rule, of the same severity and elsewhere, costs as much again. Any more of
/// them cost nothing, and neither does one at a line where the rule was reported before.
pub proof fn law_more_findings_of_a_rule_cost_once_more(fs: Seq<FindingFacts>, f: FindingFacts, i: int)
    requires
        0 <= i < fs.len(),
        fs[i].rule_id == f.rule_id,
        forall|j: int| 0 <= j < fs.len() && (#[trigger] fs[j]).rule_id == f.rule_id ==> fs[j].severity == f.severity,
    ensures
        ({
            let p: int = match f.severity {
                Severity::Critical => 50,
                Severity::High => 25,
                Severity::Medium => 10,
                Severity::Low => 4,
                Severity::Info => 0,
            };
            let again = exists|j: int|
                0 <= j < fs.len() && (#[trigger] fs[j]).rule_id == f.rule_id && fs[j].file == f.file && fs[j].line == f.line
                    && f.line is Some;
            let alone = forall|j: int| 0 <= j < fs.len() && j != i ==> (#[trigger] fs[j]).rule_id != f.rule_id;
            &&& again ==> score::points(fs.push(f)) == score::points(fs)
            &&& !again && alone ==> score::points(fs.push(f)) == (if score::points(fs) >= p {
                score::points(fs) - p
            } else {
                0
            })
            &&& (exists|j: int, k: int|
                0 <= j < k < fs.len() && (#[trigger] fs[j]).rule_id == f.rule_id && (#[trigger] fs[k]).rule_id == f.rule_id
                    && !score::is_repeat(fs, k)) ==> score::points(fs.push(f)) == score::points(fs)
        }),
{
    let gs = fs.push(f);
    let n = fs.len() as int;
    let again = exists|j: int|
        0 <= j < fs.len() && (#[trigger] fs[j]).rule_id == f.rule_id && fs[j].file == f.file && fs[j].line == f.line && f.line
            is Some;
    assert(gs[n] == f && gs[i] == fs[i]);
    assert(!score::leads_rule(gs, n)) by {
        assert(gs[i].rule_id == gs[n].rule_id);
    }
    if again {
        let j = choose|j: int|
            0 <= j < fs.len() && (#[trigger] fs[j]).rule_id == f.rule_id && fs[j].file == f.file && fs[j].line == f.line
                && f.line is Some;
        assert(gs[j] == fs[j]);
        assert(score::same_place(gs[j], gs[n]));
        assert(score::is_repeat(gs, n));
    } else if score::is_repeat(gs, n) {
        let j = choose|j: int| 0 <= j < n && score::same_place(#[trigger] gs[j], gs[n]);
        assert(gs[j] == fs[j]);
        assert(again);
    }
    let p = score::penalty_of(f.severity);
    lemma_same_charge(gs, fs, f.rule_id, n);
    let d = score::charge(gs, f.rule_id, n + 1) - score::charge(fs, f.rule_id, n);
    lemma_one_rule_changed(fs, f, i, n, d);
    lemma_costs_are_positive(fs, n);
    if !again && (forall|j: int| 0 <= j < fs.len() && j != i ==> (#[trigger] fs[j]).rule_id != f.rule_id) {
        lemma_one_charged(fs, f.rule_id, i, n);
        assert(d == p);
    }
    if exists|j: int, k: int|
        0 <= j < k < fs.len() && (#[trigger] fs[j]).rule_id == f.rule_id && (#[trigger] fs[k]).rule_id == f.rule_id
            && !score::is_repeat(fs, k) {
        let (j, k) = choose|j: int, k: int|
            0 <= j < k < fs.len() && (#[trigger] fs[j]).rule_id == f.rule_id && (#[trigger] fs[k]).rule_id == f.rule_id
                && !score::is_repeat(fs, k);
        lemma_counted(fs, f.rule_id, j, k);
        lemma_counted_grows(fs, f.rule_id, k + 1, n);
        assert(score::counted(fs, f.rule_id, k + 1) >= 2);
        score::law_rule_costs_at_most_twice(fs, f.rule_id, p, n);
        assert(d == 0);
    }
}

proof fn lemma_counted(fs: Seq<FindingFacts>, id: Seq<char>, j: int, n: int)
    requires
        0 <= j < n <= fs.len(),
        fs[j].rule_id == id,
    ensures
        score::counted(fs, id, n) >= 1,
    decreases j,
{
    if score::is_repeat(fs, j) {
        let k = choose|k: int| 0 <= k < j && score::same_place(#[trigger] fs[k], fs[j]);
        lemma_counted(fs, id, k, n);
    } else {
        assert(score::counted(fs, id, j + 1) >= 1);
        lemma_counted_grows(fs, id, j + 1, n);
    }
}

proof fn lemma_counted_grows(fs: Seq<FindingFacts>, id: Seq<char>, k: int, n: int)
    requires
        0 <= k <= n <= fs.len(),
    ensures
        score::counted(fs, id, k) <= score::counted(fs, id, n),
    decreases n - k,
{
    if k < n {
        lemma_counted_grows(fs, id, k, n - 1);
    }
}

proof fn lemma_none_charged(fs: Seq<FindingFacts>, id: Seq<char>, n: int)
    requires
        0 <= n <= fs.len(),
        forall|i: int| 0 <= i < n ==> (#[trigger] fs[i]).rule_id != id,
    ensures
        score::charge(fs, id, n) == 0,
    decreases n,
{
    if n > 0 {
        lemma_none_charged(fs, id, n - 1);
        assert(fs[n - 1].rule_id != id);
    }
}

proof fn lemma_one_charged(fs: Seq<FindingFacts>, id: Seq<char>, i: int, n: int)
    requires
        0 <= i < n <= fs.len(),
        fs[i].rule_id == id,
        forall|j: int| 0 <= j < fs.len() && j != i ==> (#[trigger] fs[j]).rule_id != id,
    ensures
        score::charge(fs, id, n) == score::penalty_of(fs[i].severity),
    decreases n,
{
    if i < n - 1 {
        lemma_one_charged(fs, id, i, n - 1);
        assert(fs[n - 1].rule_id != id);
    } else {
        lemma_none_charged(fs, id, i);
        assert(!score::is_repeat(fs, i)) by {
            if score::is_repeat(fs, i) {
                let j = choose|j: int| 0 <= j < i && score::same_place(#[trigger] fs[j], fs[i]);
                assert(fs[j].rule_id != id);
            }
        }
    }
}

proof fn lemma_same_charge(gs: Seq<FindingFacts>, fs: Seq<FindingFacts>, id: Seq<char>, n: int)
    requires
        0 <= n <= fs.len() <= gs.len(),
        forall|i: int| 0 <= i < fs.len() ==> #[trigger] gs[i] == fs[i],
    ensures
        score::charge(gs, id, n) == score::charge(fs, id, n),
    decreases n,
{
    if n > 0 {
        lemma_same_charge(gs, fs, id, n - 1);
        assert(gs[n - 1] == fs[n - 1]);
        if score::is_repeat(gs, n - 1) {
            let j = choose|j: int| 0 <= j < n - 1 && score::same_place(#[trigger] gs[j], gs[n - 1]);
            assert(score::same_place(fs[j], fs[n - 1]));
        }
        if score::is_repeat(fs, n - 1) {
            let j = choose|j: int| 0 <= j < n - 1 && score::same_place(#[trigger] fs[j], fs[n - 1]);
            assert(score::same_place(gs[j], gs[n - 1]));
        }
    }
}

proof fn lemma_same_lead(fs: Seq<FindingFacts>, f: FindingFacts, k: int)
    requires
        0 <= k < fs.len(),
    ensures
        score::leads_rule(fs.push(f), k) == score::leads_rule(fs, k),
{
    let gs = fs.push(f);
    assert(gs[k] == fs[k]);
    assert(forall|j: int| 0 <= j < k ==> #[trigger] gs[j] == fs[j]);
    if score::leads_rule(gs, k) {
        assert forall|j: int| 0 <= j < k implies (#[trigger] fs[j]).rule_id != fs[k].rule_id by {
            assert(gs[j].rule_id != gs[k].rule_id);
        }
    }
}

/// A finding of a rule that has none changes nothing of what the others cost.
proof fn lemma_others_unchanged(fs: Seq<FindingFacts>, f: FindingFacts, n: int)
    requires
        0 <= n <= fs.len(),
        forall|i: int| 0 <= i < fs.len() ==> (#[trigger] fs[i]).rule_id != f.rule_id,
    ensures
        score::total_charge(fs.push(f), n) == score::total_charge(fs, n),
    decreases n,
{
    if n > 0 {
        let gs = fs.push(f);
        lemma_others_unchanged(fs, f, n - 1);
        lemma_same_lead(fs, f, n - 1);
        let id = fs[n - 1].rule_id;
        assert(gs[n - 1] == fs[n - 1]);
        lemma_same_charge(gs, fs, id, fs.len() as int);
        assert(gs[fs.len() as int] == f);
        assert(score::charge(gs, id, gs.len() as int) == score::charge(gs, id, fs.len() as int));
    }
}

/// One more finding of a rule changes what the findings cost by what it changes of that rule.
proof fn lemma_one_rule_changed(fs: Seq<FindingFacts>, f: FindingFacts, i: int, n: int, d: int)
    requires
        0 <= n <= fs.len(),
        0 <= i < fs.len(),
        fs[i].rule_id == f.rule_id,
        d == score::charge(fs.push(f), f.rule_id, fs.len() as int + 1) - score::charge(fs, f.rule_id, fs.len() as int),
    ensures
        score::total_charge(fs.push(f), n) == score::total_charge(fs, n) + (if exists|k: int|
            0 <= k < n && (#[trigger] fs[k]).rule_id == f.rule_id {
            d
        } else {
            0
        }),
        n == fs.len() ==> score::total_charge(fs.push(f), n) == score::total_charge(fs, n) + d,
    decreases n,
{
    let gs = fs.push(f);
    if n > 0 {
        lemma_one_rule_changed(fs, f, i, n - 1, d);
        lemma_same_lead(fs, f, n - 1);
        let id = fs[n - 1].rule_id;
        assert(gs[n - 1] == fs[n - 1]);
        lemma_same_charge(gs, fs, id, fs.len() as int);
        assert(gs[fs.len() as int] == f);
        if id != f.rule_id {
            assert(score::charge(gs, id, gs.len() as int) == score::charge(gs, id, fs.len() as int));
            if exists|k: int| 0 <= k < n && (#[trigger] fs[k]).rule_id == f.rule_id {
                let k = choose|k: int| 0 <= k < n && (#[trigger] fs[k]).rule_id == f.rule_id;
                assert(k < n - 1);
            }
        } else if score::leads_rule(fs, n - 1) {
            assert(!(exists|k: int| 0 <= k < n - 1 && (#[trigger] fs[k]).rule_id == f.rule_id));
        } else {
            let k = choose|k: int| 0 <= k < n - 1 && (#[trigger] fs[k]).rule_id == fs[n - 1].rule_id;
            assert(fs[k].rule_id == f.rule_id);
        }
    }
    if n == fs.len() {
        assert(fs[i].rule_id == f.rule_id);
    }
}

proof fn lemma_costs_are_positive(fs: Seq<FindingFacts>, n: int)
    ensures
        score::total_charge(fs, n) >= 0,
    decreases n,
{
    if 0 < n <= fs.len() {
        lemma_costs_are_positive(fs, n - 1);
        lemma_charge_is_positive(fs, fs[n - 1].rule_id, fs.len() as int);
    }
}

proof fn lemma_charge_is_positive(fs: Seq<FindingFacts>, id: Seq<char>, n: int)
    ensures
        score::charge(fs, id, n) >= 0,
    decreases n,
{
    if 0 < n <= fs.len() {
        lemma_charge_is_positive(fs, id, n - 1);
    }
}

} // verus!
