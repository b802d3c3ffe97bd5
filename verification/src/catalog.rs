//! The rules: what each is called, what it maps to and how grave its findings are.
use crate::text;
use vstd::prelude::*;

verus! {

/// How grave a finding is.
#[derive(Debug, Clone, Copy, PartialEq, Eq, Structural)]
pub enum Severity {
    Critical,
    High,
    Medium,
    Low,
    Info,
}

/// The name of a severity.
pub open spec fn severity_name(s: Severity) -> Seq<char> {
    match s {
        Severity::Critical => "Critical"@,
        Severity::High => "High"@,
        Severity::Medium => "Medium"@,
        Severity::Low => "Low"@,
        Severity::Info => "Informational"@,
    }
}

impl Severity {
    pub fn as_str(self) -> (r: &'static str)
        ensures
            r@ == severity_name(self),
    {
        match self {
            Severity::Critical => "Critical",
            Severity::High => "High",
            Severity::Medium => "Medium",
            Severity::Low => "Low",
            Severity::Info => "Informational",
        }
    }
}

/// A rule.
#[derive(Debug, Clone, Copy, PartialEq, Eq, Structural)]
pub enum Rule {
    ToolDescriptionInjection,
    ToolShadowing,
    CredentialExfiltration,
    SecretInConfig,
    SsrfUserControlledUrl,
    TlsVerificationDisabled,
    FilesystemUnscoped,
    ShellExecSurface,
    SqlInjection,
    InsecureDeserialization,
    InputUnvalidated,
    DosUnbounded,
    DepsUnpinned,
    BindNoAuth,
    BindAllInterfaces,
    CorsWildcard,
}

/// The rules, in the order in which they run.
pub const ALL_RULES: [Rule; 16] = [
    Rule::ToolDescriptionInjection,
    Rule::ToolShadowing,
    Rule::CredentialExfiltration,
    Rule::SecretInConfig,
    Rule::SsrfUserControlledUrl,
    Rule::TlsVerificationDisabled,
    Rule::FilesystemUnscoped,
    Rule::ShellExecSurface,
    Rule::SqlInjection,
    Rule::InsecureDeserialization,
    Rule::InputUnvalidated,
    Rule::DosUnbounded,
    Rule::DepsUnpinned,
    Rule::BindNoAuth,
    Rule::BindAllInterfaces,
    Rule::CorsWildcard,
];

/// The ids of the rules, in the order in which they run.
pub const RULE_IDS: [&'static str; 16] = [
    "MCP-TOOL-DESCRIPTION-INJECTION",
    "MCP-TOOL-SHADOWING",
    "MCP-CREDENTIAL-EXFILTRATION",
    "MCP-SECRET-IN-CONFIG",
    "MCP-SSRF-USER-CONTROLLED-URL",
    "MCP-TLS-VERIFICATION-DISABLED",
    "MCP-FILESYSTEM-UNSCOPED",
    "MCP-SHELL-EXEC-SURFACE",
    "MCP-SQL-INJECTION",
    "MCP-INSECURE-DESERIALIZATION",
    "MCP-INPUT-UNVALIDATED",
    "MCP-DOS-UNBOUNDED",
    "MCP-DEPS-UNPINNED",
    "MCP-BIND-NO-AUTH",
    "MCP-BIND-ALL-INTERFACES",
    "MCP-CORS-WILDCARD",
];

/// The title of each rule.
pub const TITLES: [&'static str; 16] = [
    "Tool-description injection (tool poisoning)",
    "Tool name collision / shadowing",
    "Credential exfiltration (secret → egress)",
    "Secret in shipped config/README",
    "SSRF via user-controlled URL",
    "TLS verification disabled",
    "Unscoped filesystem path (traversal)",
    "Command injection / shell-exec surface",
    "SQL injection via tool input",
    "Insecure deserialization",
    "Missing input validation",
    "No timeout/size bound (DoS)",
    "Unpinned dependencies / supply chain",
    "Binds 0.0.0.0 without auth",
    "Binds all interfaces (0.0.0.0)",
    "CORS wildcard origin",
];

/// What each rule reports.
pub const SUMMARIES: [&'static str; 16] = [
    "A tool description/annotation carries instruction-like or hidden (zero-width/HTML-comment) content that reaches the model context.",
    "A generic tool name can shadow/spoof a tool from another server in a multi-server client.",
    "A secret source reaches a network egress sink to an undeclared/hardcoded host — a credential-theft path.",
    "A real-looking key/token is embedded in the shipped config / example / README snippet.",
    "An HTTP request targets a host derived from tool input with no allowlist.",
    "Code disables TLS certificate verification (rejectUnauthorized:false / verify=False).",
    "Tool-input paths reach a filesystem call with no jail root.",
    "A process/shell is spawned with interpolated tool input (the CVE-2025-6514 pattern).",
    "Tool input is concatenated into a SQL query with no parameterization.",
    "Tool input is deserialized with an unsafe deserializer (pickle/yaml.load/marshal).",
    "An unbounded numeric param or input-as-regex enables resource exhaustion / ReDoS.",
    "A tool operation has no timeout/size/concurrency bound.",
    "No committed lockfile and/or floating ranges — installs are not reproducible.",
    "Server binds all interfaces (0.0.0.0) with no detectable inbound authentication — internet-reachable and unauthenticated.",
    "Server binds all interfaces — reachable from any network interface.",
    "CORS allows any origin (*) — any website can call the server.",
];

/// How to mend what each rule reports, in short.
pub const FIXES: [&'static str; 16] = [
    "Sanitize descriptions; never generate them from remote/user data.",
    "Namespace tool names to the server's domain.",
    "Remove the egress; allowlist any legitimate destination.",
    "Reference from env/secret manager; rotate the exposed value.",
    "Allowlist destinations; block RFC1918/metadata IPs.",
    "Remove the insecure flag; fix CA trust.",
    "Resolve under a fixed root; reject traversal/symlinks.",
    "Use argument-vector exec with a fixed binary; never build a shell string from input.",
    "Use parameterized queries.",
    "Use JSON / yaml.safe_load; never unpickle untrusted input.",
    "Bound params; cap lengths; regex=False unless intended.",
    "Add timeouts and size/concurrency limits.",
    "Commit a lockfile; pin ranges and GitHub Actions to SHAs.",
    "Bind to 127.0.0.1, or require authentication before listening on 0.0.0.0.",
    "Bind to a specific interface unless external exposure is intended and hardened.",
    "Restrict CORS to a trusted-origin allowlist; never pair wildcard with credentials.",
];

/// What a finding of each rule says: of a server the whole message, of a tool what follows its
/// name, of dependencies what follows the reason.
pub const MESSAGES: [&'static str; 16] = [
    "' has an instruction-like or hidden-unicode description that reaches the model context (tool poisoning)",
    "' uses a generic name that can shadow/spoof a tool from another MCP server",
    "A secret source (env token/credential-file read) flows to a network egress sink to an undeclared/hardcoded host in the same module — a credential-exfiltration path",
    "A real-looking key/token is embedded in the shipped config / example / README install snippet",
    "' issues an HTTP request to a host derived from tool input with no allowlist (SSRF)",
    "Code disables TLS verification (rejectUnauthorized:false / verify=False / NODE_TLS_REJECT_UNAUTHORIZED=0) — traffic can be MitM'd",
    "' passes tool-input paths to a filesystem call with no jail root (path traversal)",
    "' spawns a process/shell with interpolated tool input (command injection — the CVE-2025-6514 pattern)",
    "' concatenates tool input into a SQL query with no parameterization (SQL injection)",
    "' deserializes tool input via an unsafe deserializer (pickle/yaml.load/marshal)",
    "' accepts an unbounded numeric param or treats input as a regex (resource exhaustion / ReDoS)",
    "' has no timeout/size bound on its operation (resource exhaustion)",
    " — installs are not reproducible and a silent major-version bump can ship unreviewed code",
    "Server binds all interfaces (0.0.0.0) with no detectable inbound authentication — an internet-reachable, unauthenticated MCP endpoint",
    "Server binds all interfaces (0.0.0.0) — reachable from any network interface",
    "CORS allows any origin (*) — a browser on any site can call this server",
];

/// How to mend a finding of each rule.
pub const REMEDIATIONS: [&'static str; 16] = [
    "Treat tool descriptions as untrusted content into the model. Strip instruction-like text, HTML comments, and invisible unicode; never generate descriptions from remote/user data.",
    "Namespace tool names to the server's domain so they can't shadow a common tool from another server in a multi-server client.",
    "Remove the egress of the secret; if a token must be sent, restrict the destination to a declared allowlist and never forward it to a hardcoded/undeclared host.",
    "Reference secrets from the environment or a secret manager; never inline a real key in mcp.json / README examples. Rotate the exposed value.",
    "Validate the destination against a host allowlist; block RFC1918/link-local/metadata IPs and disable redirects to them.",
    "Remove the insecure flag and fix CA trust; verify a checksum/signature for downloaded artifacts.",
    "Resolve every path under a fixed jail root and reject traversal ('..', absolute paths, symlinks) before any filesystem call.",
    "Never build a shell string from tool input; use argument-vector exec with a fixed binary, or remove the exec surface.",
    "Use parameterized queries / bound parameters; never concatenate tool input into SQL.",
    "Never deserialize tool input with pickle/marshal/yaml.load(Loader=FullLoader off); use a safe format (JSON) or yaml.safe_load.",
    "Bound numeric params (e.g. MAX_LIMIT), cap string lengths, and pass regex=False to substring filters unless a regex is intended.",
    "Add timeouts, size limits, and concurrency bounds to tool operations.",
    "Commit a lockfile (uv.lock / poetry.lock / package-lock.json / go.sum) and pin ranges with upper bounds; pin GitHub Actions to commit SHAs.",
    "Bind to 127.0.0.1 for local use, or require authentication (token/OAuth) before listening on 0.0.0.0.",
    "Bind to a specific interface (127.0.0.1) unless external exposure is intended and hardened.",
    "Restrict CORS to an explicit allowlist of trusted origins; never pair wildcard origin with credentials.",
];

pub const TOOL_DESCRIPTION_INJECTION_CONTROLS: [&'static str; 5] = [
    "CWE-74",
    "CWE-116",
    "OWASP-MCP-A2",
    "MAESTRO-L3",
    "ETDI-tool-descriptions",
];

pub const TOOL_SHADOWING_CONTROLS: [&'static str; 5] = [
    "CWE-290",
    "CWE-345",
    "OWASP-MCP-A1",
    "ETDI-versioning",
    "MAESTRO-L3",
];

pub const CREDENTIAL_EXFILTRATION_CONTROLS: [&'static str; 5] = [
    "CWE-200",
    "CWE-522",
    "CWE-312",
    "OWASP-MCP-A7",
    "MAESTRO-L4",
];

pub const SECRET_IN_CONFIG_CONTROLS: [&'static str; 4] = ["CWE-798", "CWE-312", "OWASP-MCP-A7", "MAESTRO-L4"];

pub const SSRF_USER_CONTROLLED_URL_CONTROLS: [&'static str; 3] = ["CWE-918", "OWASP-MCP-A3", "MAESTRO-L6"];

pub const TLS_VERIFICATION_DISABLED_CONTROLS: [&'static str; 4] = [
    "CWE-295",
    "CWE-319",
    "OWASP-MCP-A5",
    "MAESTRO-L6",
];

pub const FILESYSTEM_UNSCOPED_CONTROLS: [&'static str; 4] = [
    "CWE-22",
    "CWE-59",
    "OWASP-MCP-A3",
    "MAESTRO-L3",
];

pub const SHELL_EXEC_SURFACE_CONTROLS: [&'static str; 5] = [
    "CWE-78",
    "CWE-77",
    "CWE-94",
    "OWASP-MCP-A1",
    "MAESTRO-L3",
];

pub const SQL_INJECTION_CONTROLS: [&'static str; 3] = ["CWE-89", "OWASP-MCP-A1", "MAESTRO-L3"];

pub const INSECURE_DESERIALIZATION_CONTROLS: [&'static str; 3] = ["CWE-502", "OWASP-MCP-A1", "MAESTRO-L3"];

pub const INPUT_UNVALIDATED_CONTROLS: [&'static str; 4] = [
    "CWE-20",
    "CWE-1284",
    "OWASP-MCP-A5",
    "MAESTRO-L3",
];

pub const DOS_UNBOUNDED_CONTROLS: [&'static str; 4] = ["CWE-400", "CWE-770", "OWASP-MCP-A5", "MAESTRO-L6"];

pub const DEPS_UNPINNED_CONTROLS: [&'static str; 5] = [
    "CWE-1104",
    "CWE-829",
    "OWASP-MCP-A6",
    "MAESTRO-L3",
    "MCP-Spec-supply-chain",
];

pub const BIND_NO_AUTH_CONTROLS: [&'static str; 4] = ["CWE-668", "CWE-306", "OWASP-MCP-A6", "MAESTRO-L4"];

pub const BIND_ALL_INTERFACES_CONTROLS: [&'static str; 3] = ["CWE-668", "OWASP-MCP-A6", "MAESTRO-L4"];

pub const CORS_WILDCARD_CONTROLS: [&'static str; 4] = ["CWE-942", "CWE-346", "OWASP-MCP-A4", "MAESTRO-L6"];

/// What every rule looks at.
pub const TARGET: &'static str = "MCP";

/// The place of a rule in the order of the rules.
pub open spec fn number(r: Rule) -> int {
    match r {
        Rule::ToolDescriptionInjection => 0,
        Rule::ToolShadowing => 1,
        Rule::CredentialExfiltration => 2,
        Rule::SecretInConfig => 3,
        Rule::SsrfUserControlledUrl => 4,
        Rule::TlsVerificationDisabled => 5,
        Rule::FilesystemUnscoped => 6,
        Rule::ShellExecSurface => 7,
        Rule::SqlInjection => 8,
        Rule::InsecureDeserialization => 9,
        Rule::InputUnvalidated => 10,
        Rule::DosUnbounded => 11,
        Rule::DepsUnpinned => 12,
        Rule::BindNoAuth => 13,
        Rule::BindAllInterfaces => 14,
        Rule::CorsWildcard => 15,
    }
}

/// The id of a rule.
pub open spec fn rule_id(r: Rule) -> Seq<char> {
    RULE_IDS@[number(r)]@
}

/// How grave a finding of a rule is, before the context is looked at.
pub open spec fn severity_of(r: Rule) -> Severity {
    match r {
        Rule::ToolDescriptionInjection => Severity::High,
        Rule::ToolShadowing => Severity::Medium,
        Rule::CredentialExfiltration => Severity::Critical,
        Rule::SecretInConfig => Severity::High,
        Rule::SsrfUserControlledUrl => Severity::High,
        Rule::TlsVerificationDisabled => Severity::Medium,
        Rule::FilesystemUnscoped => Severity::High,
        Rule::ShellExecSurface => Severity::High,
        Rule::SqlInjection => Severity::High,
        Rule::InsecureDeserialization => Severity::High,
        Rule::InputUnvalidated => Severity::Medium,
        Rule::DosUnbounded => Severity::Low,
        Rule::DepsUnpinned => Severity::Medium,
        Rule::BindNoAuth => Severity::High,
        Rule::BindAllInterfaces => Severity::Medium,
        Rule::CorsWildcard => Severity::Medium,
    }
}

/// What a rule maps to: CWE, OWASP MCP Top 10, MAESTRO, ETDI.
pub open spec fn controls_of(r: Rule) -> Seq<&'static str> {
    match r {
        Rule::ToolDescriptionInjection => TOOL_DESCRIPTION_INJECTION_CONTROLS@,
        Rule::ToolShadowing => TOOL_SHADOWING_CONTROLS@,
        Rule::CredentialExfiltration => CREDENTIAL_EXFILTRATION_CONTROLS@,
        Rule::SecretInConfig => SECRET_IN_CONFIG_CONTROLS@,
        Rule::SsrfUserControlledUrl => SSRF_USER_CONTROLLED_URL_CONTROLS@,
        Rule::TlsVerificationDisabled => TLS_VERIFICATION_DISABLED_CONTROLS@,
        Rule::FilesystemUnscoped => FILESYSTEM_UNSCOPED_CONTROLS@,
        Rule::ShellExecSurface => SHELL_EXEC_SURFACE_CONTROLS@,
        Rule::SqlInjection => SQL_INJECTION_CONTROLS@,
        Rule::InsecureDeserialization => INSECURE_DESERIALIZATION_CONTROLS@,
        Rule::InputUnvalidated => INPUT_UNVALIDATED_CONTROLS@,
        Rule::DosUnbounded => DOS_UNBOUNDED_CONTROLS@,
        Rule::DepsUnpinned => DEPS_UNPINNED_CONTROLS@,
        Rule::BindNoAuth => BIND_NO_AUTH_CONTROLS@,
        Rule::BindAllInterfaces => BIND_ALL_INTERFACES_CONTROLS@,
        Rule::CorsWildcard => CORS_WILDCARD_CONTROLS@,
    }
}

fn listed(list: &[&'static str]) -> (r: Vec<&'static str>)
    ensures
        r@ == list@,
{
    let mut out: Vec<&'static str> = Vec::new();
    for i in 0..list.len()
        invariant
            out@ == list@.take(i as int),
    {
        out.push(list[i]);
    }
    assert(list@.take(list@.len() as int) =~= list@);
    out
}

impl Rule {
    /// The place of the rule in the order of the rules.
    pub fn number(self) -> (r: usize)
        ensures
            r == number(self),
    {
        match self {
            Rule::ToolDescriptionInjection => 0,
            Rule::ToolShadowing => 1,
            Rule::CredentialExfiltration => 2,
            Rule::SecretInConfig => 3,
            Rule::SsrfUserControlledUrl => 4,
            Rule::TlsVerificationDisabled => 5,
            Rule::FilesystemUnscoped => 6,
            Rule::ShellExecSurface => 7,
            Rule::SqlInjection => 8,
            Rule::InsecureDeserialization => 9,
            Rule::InputUnvalidated => 10,
            Rule::DosUnbounded => 11,
            Rule::DepsUnpinned => 12,
            Rule::BindNoAuth => 13,
            Rule::BindAllInterfaces => 14,
            Rule::CorsWildcard => 15,
        }
    }

    pub fn id(self) -> (r: &'static str)
        ensures
            r@ == rule_id(self),
    {
        RULE_IDS[self.number()]
    }

    pub fn severity(self) -> (r: Severity)
        ensures
            r == severity_of(self),
    {
        match self {
            Rule::ToolDescriptionInjection => Severity::High,
            Rule::ToolShadowing => Severity::Medium,
            Rule::CredentialExfiltration => Severity::Critical,
            Rule::SecretInConfig => Severity::High,
            Rule::SsrfUserControlledUrl => Severity::High,
            Rule::TlsVerificationDisabled => Severity::Medium,
            Rule::FilesystemUnscoped => Severity::High,
            Rule::ShellExecSurface => Severity::High,
            Rule::SqlInjection => Severity::High,
            Rule::InsecureDeserialization => Severity::High,
            Rule::InputUnvalidated => Severity::Medium,
            Rule::DosUnbounded => Severity::Low,
            Rule::DepsUnpinned => Severity::Medium,
            Rule::BindNoAuth => Severity::High,
            Rule::BindAllInterfaces => Severity::Medium,
            Rule::CorsWildcard => Severity::Medium,
        }
    }

    /// What the rule maps to.
    pub fn controls(self) -> (r: Vec<&'static str>)
        ensures
            r@ == controls_of(self),
    {
        match self {
            Rule::ToolDescriptionInjection => listed(&TOOL_DESCRIPTION_INJECTION_CONTROLS),
            Rule::ToolShadowing => listed(&TOOL_SHADOWING_CONTROLS),
            Rule::CredentialExfiltration => listed(&CREDENTIAL_EXFILTRATION_CONTROLS),
            Rule::SecretInConfig => listed(&SECRET_IN_CONFIG_CONTROLS),
            Rule::SsrfUserControlledUrl => listed(&SSRF_USER_CONTROLLED_URL_CONTROLS),
            Rule::TlsVerificationDisabled => listed(&TLS_VERIFICATION_DISABLED_CONTROLS),
            Rule::FilesystemUnscoped => listed(&FILESYSTEM_UNSCOPED_CONTROLS),
            Rule::ShellExecSurface => listed(&SHELL_EXEC_SURFACE_CONTROLS),
            Rule::SqlInjection => listed(&SQL_INJECTION_CONTROLS),
            Rule::InsecureDeserialization => listed(&INSECURE_DESERIALIZATION_CONTROLS),
            Rule::InputUnvalidated => listed(&INPUT_UNVALIDATED_CONTROLS),
            Rule::DosUnbounded => listed(&DOS_UNBOUNDED_CONTROLS),
            Rule::DepsUnpinned => listed(&DEPS_UNPINNED_CONTROLS),
            Rule::BindNoAuth => listed(&BIND_NO_AUTH_CONTROLS),
            Rule::BindAllInterfaces => listed(&BIND_ALL_INTERFACES_CONTROLS),
            Rule::CorsWildcard => listed(&CORS_WILDCARD_CONTROLS),
        }
    }
}

/// What the catalog says of a rule.
#[derive(Debug, PartialEq, Eq)]
pub struct RuleMeta {
    pub id: &'static str,
    pub title: &'static str,
    pub target: &'static str,
    pub severity: Severity,
    pub controls: Vec<&'static str>,
    pub summary: &'static str,
    pub fix: &'static str,
    /// The rule runs only where strictness is asked for.
    pub strict: bool,
}

pub struct MetaFacts {
    pub id: Seq<char>,
    pub title: Seq<char>,
    pub target: Seq<char>,
    pub severity: Severity,
    pub controls: Seq<Seq<char>>,
    pub summary: Seq<char>,
    pub fix: Seq<char>,
    pub strict: bool,
}

impl View for RuleMeta {
    type V = MetaFacts;

    open spec fn view(&self) -> MetaFacts {
        MetaFacts {
            id: self.id@,
            title: self.title@,
            target: self.target@,
            severity: self.severity,
            controls: text::strs(self.controls@),
            summary: self.summary@,
            fix: self.fix@,
            strict: self.strict,
        }
    }
}

/// The entry of a rule in the catalog.
pub open spec fn meta(r: Rule) -> MetaFacts {
    MetaFacts {
        id: rule_id(r),
        title: TITLES@[number(r)]@,
        target: TARGET@,
        severity: severity_of(r),
        controls: text::strs(controls_of(r)),
        summary: SUMMARIES@[number(r)]@,
        fix: FIXES@[number(r)]@,
        strict: false,
    }
}

pub open spec fn metas(v: Seq<RuleMeta>) -> Seq<MetaFacts> {
    Seq::new(v.len(), |i: int| v[i]@)
}

/// The catalog: an entry for each rule, in the order of the rules.
pub open spec fn catalog_facts() -> Seq<MetaFacts> {
    Seq::new(ALL_RULES@.len(), |i: int| meta(ALL_RULES@[i]))
}

/// The catalog of the rules.
pub fn catalog() -> (r: Vec<RuleMeta>)
    ensures
        metas(r@) == catalog_facts(),
{
    let mut out: Vec<RuleMeta> = Vec::new();
    for i in 0..16
        invariant
            out@.len() == i,
            forall|j: int| 0 <= j < i ==> (#[trigger] out@[j])@ == meta(ALL_RULES@[j]),
    {
        let rule: Rule = ALL_RULES[i];
        let n: usize = rule.number();
        out.push(
            RuleMeta {
                id: rule.id(),
                title: TITLES[n],
                target: TARGET,
                severity: rule.severity(),
                controls: rule.controls(),
                summary: SUMMARIES[n],
                fix: FIXES[n],
                strict: false,
            },
        );
    }
    assert(metas(out@) =~= catalog_facts());
    out
}

/// Each rule stands in the order of the rules once, and its entry in the catalog bears its id.
pub proof fn law_every_rule_is_in_the_catalog(r: Rule)
    ensures
        0 <= number(r) < ALL_RULES@.len(),
        ALL_RULES@[number(r)] == r,
        catalog_facts()[number(r)] == meta(r),
        meta(r).id == rule_id(r),
        meta(r).controls.len() > 0,
{
}

/// What tells the ids of rules apart: the length, and three characters.
pub open spec fn id_mark(id: Seq<char>) -> (int, char, char, char) {
    (id.len() as int, id[4], id[5], id[7])
}

/// The mark of the id of each rule.
pub open spec fn rule_mark(r: Rule) -> (int, char, char, char) {
    match r {
        Rule::ToolDescriptionInjection => (30, 'T', 'O', 'L'),
        Rule::ToolShadowing => (18, 'T', 'O', 'L'),
        Rule::CredentialExfiltration => (27, 'C', 'R', 'D'),
        Rule::SecretInConfig => (20, 'S', 'E', 'R'),
        Rule::SsrfUserControlledUrl => (28, 'S', 'S', 'F'),
        Rule::TlsVerificationDisabled => (29, 'T', 'L', '-'),
        Rule::FilesystemUnscoped => (23, 'F', 'I', 'E'),
        Rule::ShellExecSurface => (22, 'S', 'H', 'L'),
        Rule::SqlInjection => (17, 'S', 'Q', '-'),
        Rule::InsecureDeserialization => (28, 'I', 'N', 'E'),
        Rule::InputUnvalidated => (21, 'I', 'N', 'U'),
        Rule::DosUnbounded => (17, 'D', 'O', '-'),
        Rule::DepsUnpinned => (17, 'D', 'E', 'S'),
        Rule::BindNoAuth => (16, 'B', 'I', 'D'),
        Rule::BindAllInterfaces => (23, 'B', 'I', 'D'),
        Rule::CorsWildcard => (17, 'C', 'O', 'S'),
    }
}

pub proof fn lemma_rule_mark(r: Rule)
    ensures
        id_mark(rule_id(r)) == rule_mark(r),
{
    match r {
        Rule::ToolDescriptionInjection => {
            reveal_strlit("MCP-TOOL-DESCRIPTION-INJECTION");
        },
        Rule::ToolShadowing => {
            reveal_strlit("MCP-TOOL-SHADOWING");
        },
        Rule::CredentialExfiltration => {
            reveal_strlit("MCP-CREDENTIAL-EXFILTRATION");
        },
        Rule::SecretInConfig => {
            reveal_strlit("MCP-SECRET-IN-CONFIG");
        },
        Rule::SsrfUserControlledUrl => {
            reveal_strlit("MCP-SSRF-USER-CONTROLLED-URL");
        },
        Rule::TlsVerificationDisabled => {
            reveal_strlit("MCP-TLS-VERIFICATION-DISABLED");
        },
        Rule::FilesystemUnscoped => {
            reveal_strlit("MCP-FILESYSTEM-UNSCOPED");
        },
        Rule::ShellExecSurface => {
            reveal_strlit("MCP-SHELL-EXEC-SURFACE");
        },
        Rule::SqlInjection => {
            reveal_strlit("MCP-SQL-INJECTION");
        },
        Rule::InsecureDeserialization => {
            reveal_strlit("MCP-INSECURE-DESERIALIZATION");
        },
        Rule::InputUnvalidated => {
            reveal_strlit("MCP-INPUT-UNVALIDATED");
        },
        Rule::DosUnbounded => {
            reveal_strlit("MCP-DOS-UNBOUNDED");
        },
        Rule::DepsUnpinned => {
            reveal_strlit("MCP-DEPS-UNPINNED");
        },
        Rule::BindNoAuth => {
            reveal_strlit("MCP-BIND-NO-AUTH");
        },
        Rule::BindAllInterfaces => {
            reveal_strlit("MCP-BIND-ALL-INTERFACES");
        },
        Rule::CorsWildcard => {
            reveal_strlit("MCP-CORS-WILDCARD");
        },
    }
}

/// No two rules have the same id.
pub proof fn law_rule_ids_are_distinct(a: Rule, b: Rule)
    requires
        a != b,
    ensures
        rule_id(a) != rule_id(b),
{
    lemma_rule_mark(a);
    lemma_rule_mark(b);
}

} // verus!
