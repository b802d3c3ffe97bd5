//! What context modifiers are for, stated over the findings, the server of the model and the ids of
//! the rules.
use crate::catalog::Severity;
use crate::context;
use crate::context::{ModifierFacts, SECRET_RULES};
use crate::model;
use crate::model::{AttrFact, EntityFacts, ModelFacts};
use crate::rules::{FindingFacts, MCP_NETWORK_RULES};
use crate::text;
use vstd::prelude::*;

verus! {

proof fn lemma_network_rules(s: Seq<char>)
    ensures
        text::is_listed(s, MCP_NETWORK_RULES@) == (s == "MCP-SSRF-USER-CONTROLLED-URL"@ || s == "MCP-UNRESTRICTED-EGRESS"@ || s == "MCP-TLS-VERIFICATION-DISABLED"@ || s == "MCP-BIND-NO-AUTH"@ || s == "MCP-BIND-ALL-INTERFACES"@ || s == "MCP-CORS-WILDCARD"@),
{
    assert(MCP_NETWORK_RULES@[0]@ == "MCP-SSRF-USER-CONTROLLED-URL"@);
    assert(MCP_NETWORK_RULES@[1]@ == "MCP-UNRESTRICTED-EGRESS"@);
    assert(MCP_NETWORK_RULES@[2]@ == "MCP-TLS-VERIFICATION-DISABLED"@);
    assert(MCP_NETWORK_RULES@[3]@ == "MCP-BIND-NO-AUTH"@);
    assert(MCP_NETWORK_RULES@[4]@ == "MCP-BIND-ALL-INTERFACES"@);
    assert(MCP_NETWORK_RULES@[5]@ == "MCP-CORS-WILDCARD"@);
    if text::is_listed(s, MCP_NETWORK_RULES@) {
        let k = choose|k: int| 0 <= k < MCP_NETWORK_RULES@.len() && s == (#[trigger] MCP_NETWORK_RULES@[k])@;
        assert(k == 0 || k == 1 || k == 2 || k == 3 || k == 4 || k == 5);
    }
    if s == "MCP-SSRF-USER-CONTROLLED-URL"@ {
        assert(s == MCP_NETWORK_RULES@[0]@);
    }
    if s == "MCP-UNRESTRICTED-EGRESS"@ {
        assert(s == MCP_NETWORK_RULES@[1]@);
    }
    if s == "MCP-TLS-VERIFICATION-DISABLED"@ {
        assert(s == MCP_NETWORK_RULES@[2]@);
    }
    if s == "MCP-BIND-NO-AUTH"@ {
        assert(s == MCP_NETWORK_RULES@[3]@);
    }
    if s == "MCP-BIND-ALL-INTERFACES"@ {
        assert(s == MCP_NETWORK_RULES@[4]@);
    }
    if s == "MCP-CORS-WILDCARD"@ {
        assert(s == MCP_NETWORK_RULES@[5]@);
    }
}

proof fn lemma_secret_rules(s: Seq<char>)
    ensures
        text::is_listed(s, SECRET_RULES@) == (s == "MCP-CREDENTIAL-EXFILTRATION"@ || s == "MCP-SECRET-IN-CONFIG"@ || s == "MCP-CREDENTIAL-LOGGED"@),
{
    assert(SECRET_RULES@[0]@ == "MCP-CREDENTIAL-EXFILTRATION"@);
    assert(SECRET_RULES@[1]@ == "MCP-SECRET-IN-CONFIG"@);
    assert(SECRET_RULES@[2]@ == "MCP-CREDENTIAL-LOGGED"@);
    if text::is_listed(s, SECRET_RULES@) {
        let k = choose|k: int| 0 <= k < SECRET_RULES@.len() && s == (#[trigger] SECRET_RULES@[k])@;
        assert(k == 0 || k == 1 || k == 2);
    }
    if s == "MCP-CREDENTIAL-EXFILTRATION"@ {
        assert(s == SECRET_RULES@[0]@);
    }
    if s == "MCP-SECRET-IN-CONFIG"@ {
        assert(s == SECRET_RULES@[1]@);
    }
    if s == "MCP-CREDENTIAL-LOGGED"@ {
        assert(s == SECRET_RULES@[2]@);
    }
}

/// A finding keeps its severity, and nothing is recorded for it, unless its rule is one that a
/// holding context names. Stdio names the rules about the network, read-only tools name the rule about
/// the filesystem, and a server without keys names the rules about secrets.
pub proof fn law_only_named_rules_are_lowered(fs: Seq<FindingFacts>, m: ModelFacts, i: int)
    requires
        0 <= i < fs.len(),
        !(fs[i].rule_id == "MCP-SSRF-USER-CONTROLLED-URL"@ || fs[i].rule_id == "MCP-UNRESTRICTED-EGRESS"@ || fs[i].rule_id == "MCP-TLS-VERIFICATION-DISABLED"@ || fs[i].rule_id == "MCP-BIND-NO-AUTH"@ || fs[i].rule_id == "MCP-BIND-ALL-INTERFACES"@ || fs[i].rule_id == "MCP-CORS-WILDCARD"@) || !(model::server_of(m) matches Some(s) && model::text_value(s, "transport"@) == Some("stdio"@)),
        fs[i].rule_id != "MCP-FILESYSTEM-UNSCOPED"@ || !(model::server_of(m) matches Some(s) && model::is_set(s, "all_tools_read_only"@)),
        !(fs[i].rule_id == "MCP-CREDENTIAL-EXFILTRATION"@ || fs[i].rule_id == "MCP-SECRET-IN-CONFIG"@ || fs[i].rule_id == "MCP-CREDENTIAL-LOGGED"@) || !(model::server_of(m) matches Some(s) && model::is_set(s, "keyless_public_only"@)),
    ensures
        context::all_modified(fs, m)[i] == fs[i],
        context::applied_to(fs[i], m) == Seq::<ModifierFacts>::empty(),
{
    lemma_network_rules(fs[i].rule_id);
    lemma_secret_rules(fs[i].rule_id);
    assert(context::modifiers_for(fs[i].rule_id, m) =~= Seq::empty());
    assert(context::applied_to(fs[i], m) =~= Seq::empty());
}

/// On a server that speaks over stdio, with tools that write and with keys, no rule outside the ones
/// about the network is lowered, whatever it is about.
pub proof fn law_stdio_leaves_the_other_rules(fs: Seq<FindingFacts>, m: ModelFacts, i: int)
    requires
        0 <= i < fs.len(),
        !(fs[i].rule_id == "MCP-SSRF-USER-CONTROLLED-URL"@ || fs[i].rule_id == "MCP-UNRESTRICTED-EGRESS"@ || fs[i].rule_id == "MCP-TLS-VERIFICATION-DISABLED"@ || fs[i].rule_id == "MCP-BIND-NO-AUTH"@ || fs[i].rule_id == "MCP-BIND-ALL-INTERFACES"@ || fs[i].rule_id == "MCP-CORS-WILDCARD"@),
        !(model::server_of(m) matches Some(s) && model::is_set(s, "all_tools_read_only"@)),
        !(model::server_of(m) matches Some(s) && model::is_set(s, "keyless_public_only"@)),
    ensures
        context::all_modified(fs, m)[i] == fs[i],
        forall|k: int| 0 <= k < context::applied_to(fs[i], m).len() ==> (#[trigger] context::applied_to(fs[i], m)[k]).modifier
            != "transport-stdio:no-remote-attacker"@,
{
    law_only_named_rules_are_lowered(fs, m, i);
}

/// The next lower severity, as a step of one.
proof fn lemma_one_step(s: Severity)
    ensures
        context::lowered_by(s, 1) == context::lowered(s),
        context::lowered_by(s, 0) == s,
{
    reveal_with_fuel(context::lowered_by, 2);
}

proof fn lemma_rules_apart()
    ensures
        "MCP-SSRF-USER-CONTROLLED-URL"@ != "MCP-FILESYSTEM-UNSCOPED"@,
        "MCP-SSRF-USER-CONTROLLED-URL"@ != "MCP-CREDENTIAL-EXFILTRATION"@,
        "MCP-SSRF-USER-CONTROLLED-URL"@ != "MCP-SECRET-IN-CONFIG"@,
        "MCP-SSRF-USER-CONTROLLED-URL"@ != "MCP-CREDENTIAL-LOGGED"@,
        "MCP-UNRESTRICTED-EGRESS"@ != "MCP-FILESYSTEM-UNSCOPED"@,
        "MCP-UNRESTRICTED-EGRESS"@ != "MCP-CREDENTIAL-EXFILTRATION"@,
        "MCP-UNRESTRICTED-EGRESS"@ != "MCP-SECRET-IN-CONFIG"@,
        "MCP-UNRESTRICTED-EGRESS"@ != "MCP-CREDENTIAL-LOGGED"@,
        "MCP-TLS-VERIFICATION-DISABLED"@ != "MCP-FILESYSTEM-UNSCOPED"@,
        "MCP-TLS-VERIFICATION-DISABLED"@ != "MCP-CREDENTIAL-EXFILTRATION"@,
        "MCP-TLS-VERIFICATION-DISABLED"@ != "MCP-SECRET-IN-CONFIG"@,
        "MCP-TLS-VERIFICATION-DISABLED"@ != "MCP-CREDENTIAL-LOGGED"@,
        "MCP-BIND-NO-AUTH"@ != "MCP-FILESYSTEM-UNSCOPED"@,
        "MCP-BIND-NO-AUTH"@ != "MCP-CREDENTIAL-EXFILTRATION"@,
        "MCP-BIND-NO-AUTH"@ != "MCP-SECRET-IN-CONFIG"@,
        "MCP-BIND-NO-AUTH"@ != "MCP-CREDENTIAL-LOGGED"@,
        "MCP-BIND-ALL-INTERFACES"@ != "MCP-FILESYSTEM-UNSCOPED"@,
        "MCP-BIND-ALL-INTERFACES"@ != "MCP-CREDENTIAL-EXFILTRATION"@,
        "MCP-BIND-ALL-INTERFACES"@ != "MCP-SECRET-IN-CONFIG"@,
        "MCP-BIND-ALL-INTERFACES"@ != "MCP-CREDENTIAL-LOGGED"@,
        "MCP-CORS-WILDCARD"@ != "MCP-FILESYSTEM-UNSCOPED"@,
        "MCP-CORS-WILDCARD"@ != "MCP-CREDENTIAL-EXFILTRATION"@,
        "MCP-CORS-WILDCARD"@ != "MCP-SECRET-IN-CONFIG"@,
        "MCP-CORS-WILDCARD"@ != "MCP-CREDENTIAL-LOGGED"@,
        "MCP-FILESYSTEM-UNSCOPED"@ != "MCP-CREDENTIAL-EXFILTRATION"@,
        "MCP-FILESYSTEM-UNSCOPED"@ != "MCP-SECRET-IN-CONFIG"@,
        "MCP-FILESYSTEM-UNSCOPED"@ != "MCP-CREDENTIAL-LOGGED"@,
{
    reveal_strlit("MCP-SSRF-USER-CONTROLLED-URL");
    reveal_strlit("MCP-UNRESTRICTED-EGRESS");
    reveal_strlit("MCP-TLS-VERIFICATION-DISABLED");
    reveal_strlit("MCP-BIND-NO-AUTH");
    reveal_strlit("MCP-BIND-ALL-INTERFACES");
    reveal_strlit("MCP-CORS-WILDCARD");
    reveal_strlit("MCP-FILESYSTEM-UNSCOPED");
    reveal_strlit("MCP-CREDENTIAL-EXFILTRATION");
    reveal_strlit("MCP-SECRET-IN-CONFIG");
    reveal_strlit("MCP-CREDENTIAL-LOGGED");
    assert("MCP-SSRF-USER-CONTROLLED-URL"@.len() == 28 && "MCP-SSRF-USER-CONTROLLED-URL"@[4] == 'S');
    assert("MCP-UNRESTRICTED-EGRESS"@.len() == 23 && "MCP-UNRESTRICTED-EGRESS"@[4] == 'U');
    assert("MCP-TLS-VERIFICATION-DISABLED"@.len() == 29 && "MCP-TLS-VERIFICATION-DISABLED"@[4] == 'T');
    assert("MCP-BIND-NO-AUTH"@.len() == 16 && "MCP-BIND-NO-AUTH"@[4] == 'B');
    assert("MCP-BIND-ALL-INTERFACES"@.len() == 23 && "MCP-BIND-ALL-INTERFACES"@[4] == 'B');
    assert("MCP-CORS-WILDCARD"@.len() == 17 && "MCP-CORS-WILDCARD"@[4] == 'C');
    assert("MCP-FILESYSTEM-UNSCOPED"@.len() == 23 && "MCP-FILESYSTEM-UNSCOPED"@[4] == 'F');
    assert("MCP-CREDENTIAL-EXFILTRATION"@.len() == 27 && "MCP-CREDENTIAL-EXFILTRATION"@[4] == 'C');
    assert("MCP-SECRET-IN-CONFIG"@.len() == 20 && "MCP-SECRET-IN-CONFIG"@[4] == 'S');
    assert("MCP-CREDENTIAL-LOGGED"@.len() == 21 && "MCP-CREDENTIAL-LOGGED"@[4] == 'C');
}

/// Stdio leaves no remote caller: a finding of a rule about the network is lowered by one step, and that
/// is recorded.
pub proof fn law_stdio_lowers_by_one_step(fs: Seq<FindingFacts>, m: ModelFacts, i: int)
    requires
        0 <= i < fs.len(),
        (model::server_of(m) matches Some(s) && model::text_value(s, "transport"@) == Some("stdio"@)),
        (fs[i].rule_id == "MCP-SSRF-USER-CONTROLLED-URL"@ || fs[i].rule_id == "MCP-UNRESTRICTED-EGRESS"@ || fs[i].rule_id == "MCP-TLS-VERIFICATION-DISABLED"@ || fs[i].rule_id == "MCP-BIND-NO-AUTH"@ || fs[i].rule_id == "MCP-BIND-ALL-INTERFACES"@ || fs[i].rule_id == "MCP-CORS-WILDCARD"@),
    ensures
        context::all_modified(fs, m)[i] == (FindingFacts {
            severity: match fs[i].severity {
                Severity::Critical => Severity::High,
                Severity::High => Severity::Medium,
                Severity::Medium => Severity::Low,
                Severity::Low => Severity::Info,
                Severity::Info => Severity::Info,
            },
            ..fs[i]
        }),
        context::applied_to(fs[i], m) == seq![
            ModifierFacts {
                modifier: "transport-stdio:no-remote-attacker"@,
                rule_id: fs[i].rule_id,
                from: fs[i].severity,
                to: context::all_modified(fs, m)[i].severity,
            },
        ],
{
    lemma_network_rules(fs[i].rule_id);
    lemma_secret_rules(fs[i].rule_id);
    lemma_rules_apart();
    lemma_one_step(fs[i].severity);
    let names = context::modifiers_for(fs[i].rule_id, m);
    assert(names =~= seq!["transport-stdio:no-remote-attacker"@]);
    assert(context::applied_to(fs[i], m).len() == 1);
}

/// Read-only tools leave no write path: a finding of the rule about the filesystem is lowered by one
/// step, and that is recorded.
pub proof fn law_read_only_lowers_by_one_step(fs: Seq<FindingFacts>, m: ModelFacts, i: int)
    requires
        0 <= i < fs.len(),
        (model::server_of(m) matches Some(s) && model::is_set(s, "all_tools_read_only"@)),
        fs[i].rule_id == "MCP-FILESYSTEM-UNSCOPED"@,
    ensures
        context::all_modified(fs, m)[i] == (FindingFacts {
            severity: match fs[i].severity {
                Severity::Critical => Severity::High,
                Severity::High => Severity::Medium,
                Severity::Medium => Severity::Low,
                Severity::Low => Severity::Info,
                Severity::Info => Severity::Info,
            },
            ..fs[i]
        }),
        context::applied_to(fs[i], m) == seq![
            ModifierFacts {
                modifier: "tools-read-only:no-write-path"@,
                rule_id: fs[i].rule_id,
                from: fs[i].severity,
                to: context::all_modified(fs, m)[i].severity,
            },
        ],
{
    lemma_network_rules(fs[i].rule_id);
    lemma_secret_rules(fs[i].rule_id);
    lemma_rules_apart();
    lemma_one_step(fs[i].severity);
    let names = context::modifiers_for(fs[i].rule_id, m);
    assert(names =~= seq!["tools-read-only:no-write-path"@]);
    assert(context::applied_to(fs[i], m).len() == 1);
}

/// A server without keys has no secret to leak: a finding of a rule about secrets is lowered by one
/// step, and that is recorded.
pub proof fn law_keyless_lowers_by_one_step(fs: Seq<FindingFacts>, m: ModelFacts, i: int)
    requires
        0 <= i < fs.len(),
        (model::server_of(m) matches Some(s) && model::is_set(s, "keyless_public_only"@)),
        (fs[i].rule_id == "MCP-CREDENTIAL-EXFILTRATION"@ || fs[i].rule_id == "MCP-SECRET-IN-CONFIG"@ || fs[i].rule_id == "MCP-CREDENTIAL-LOGGED"@),
    ensures
        context::all_modified(fs, m)[i] == (FindingFacts {
            severity: match fs[i].severity {
                Severity::Critical => Severity::High,
                Severity::High => Severity::Medium,
                Severity::Medium => Severity::Low,
                Severity::Low => Severity::Info,
                Severity::Info => Severity::Info,
            },
            ..fs[i]
        }),
        context::applied_to(fs[i], m) == seq![
            ModifierFacts {
                modifier: "keyless-public-api:no-secret-to-leak"@,
                rule_id: fs[i].rule_id,
                from: fs[i].severity,
                to: context::all_modified(fs, m)[i].severity,
            },
        ],
{
    lemma_network_rules(fs[i].rule_id);
    lemma_secret_rules(fs[i].rule_id);
    lemma_rules_apart();
    lemma_one_step(fs[i].severity);
    let names = context::modifiers_for(fs[i].rule_id, m);
    assert(names =~= seq!["keyless-public-api:no-secret-to-leak"@]);
    assert(context::applied_to(fs[i], m).len() == 1);
}

/// What is recorded is what was applied, finding by finding: one more finding adds its own record and
/// leaves what came before.
pub proof fn law_the_record_follows_the_findings(fs: Seq<FindingFacts>, f: FindingFacts, m: ModelFacts)
    ensures
        context::all_modified(fs.push(f), m).len() == context::all_modified(fs, m).len() + 1,
        forall|i: int| 0 <= i < fs.len() ==> #[trigger] context::all_modified(fs.push(f), m)[i] == context::all_modified(fs, m)[i],
        context::applied_first(fs.push(f), m, fs.len() as int + 1) == context::applied_first(fs, m, fs.len() as int) + context::applied_to(f, m),
{
    lemma_record_prefix(fs, f, m, fs.len() as int);
    assert(fs.push(f)[fs.len() as int] == f);
}

proof fn lemma_record_prefix(fs: Seq<FindingFacts>, f: FindingFacts, m: ModelFacts, n: int)
    requires
        0 <= n <= fs.len(),
    ensures
        context::applied_first(fs.push(f), m, n) == context::applied_first(fs, m, n),
    decreases n,
{
    if n > 0 {
        lemma_record_prefix(fs, f, m, n - 1);
        assert(fs.push(f)[n - 1] == fs[n - 1]);
    }
}

/// The server of a model is its first entity whose kind is given as `server`.
pub proof fn law_the_server_is_the_first_of_its_kind(m: ModelFacts, k: int)
    requires
        0 <= k < m.entities.len(),
        model::text_value(m.entities[k], "mcp_kind"@) == Some("server"@),
        forall|j: int| 0 <= j < k ==> model::text_value(#[trigger] m.entities[j], "mcp_kind"@) != Some("server"@),
    ensures
        model::server_of(m) == Some(m.entities[k]),
{
    lemma_first_is(m.entities, "server"@, 0, k);
}

proof fn lemma_first_is(es: Seq<EntityFacts>, kind: Seq<char>, i: int, k: int)
    requires
        0 <= i <= k < es.len(),
        model::of_kind(es[k], kind),
        forall|j: int| i <= j < k ==> !model::of_kind(#[trigger] es[j], kind),
    ensures
        model::first_of(es, kind, i) == Some(es[k]),
    decreases k - i,
{
    if i < k {
        assert(!model::of_kind(es[i], kind));
        lemma_first_is(es, kind, i + 1, k);
    }
}

/// The value of an entity under a key is the first one that it has under it: a flag is set where that
/// is true, and a text is that of a string or of an enumeration.
pub proof fn law_values_are_found_under_their_keys(e: EntityFacts, key: Seq<char>, k: int)
    requires
        0 <= k < e.attributes.len(),
        e.attributes[k].0 == key,
        forall|j: int| 0 <= j < k ==> (#[trigger] e.attributes[j]).0 != key,
    ensures
        model::is_set(e, key) == (e.attributes[k].1 == AttrFact::Bool(true)),
        forall|t: Seq<char>| #[trigger] model::text_value(e, key) == Some(t) <==> (e.attributes[k].1 == AttrFact::Str(t)
            || e.attributes[k].1 == AttrFact::Enum(t)),
{
    lemma_value_is(e.attributes, key, 0, k);
}

proof fn lemma_value_is(attrs: Seq<(Seq<char>, AttrFact)>, key: Seq<char>, i: int, k: int)
    requires
        0 <= i <= k < attrs.len(),
        attrs[k].0 == key,
        forall|j: int| i <= j < k ==> (#[trigger] attrs[j]).0 != key,
    ensures
        model::value_from(attrs, key, i) == Some(attrs[k].1),
    decreases k - i,
{
    if i < k {
        assert(attrs[i].0 != key);
        lemma_value_is(attrs, key, i + 1, k);
    }
}

} // verus!
