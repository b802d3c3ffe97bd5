//! Signals that are read off single lines and files: TLS checks that are switched off, exposure
//! over HTTP, read-only annotations, and whether a repository is an MCP server at all.
use crate::deps;
use crate::deps::{Dep, DepFacts};
use crate::files;
use crate::files::{FileText, RepoFile, is_named, is_source};
use crate::taint;
use crate::taint::any_line_has;
use crate::text;
use crate::text::{
    chars_of, contains_char, contains_str, has_marker_in, is_listed_in, lines_of, number_of_line,
    space, to_lower,
};
use vstd::prelude::*;

verus! {

pub const TLS_DISABLE_PATTERNS: [&'static str; 7] = [
    "rejectUnauthorized: false",
    "rejectUnauthorized:false",
    "NODE_TLS_REJECT_UNAUTHORIZED",
    "verify=False",
    "verify = False",
    "InsecureSkipVerify: true",
    "InsecureSkipVerify:true",
];

/// Signs of a check of inbound callers, not of a header on an outbound call.
pub const AUTH_INDICATORS: [&'static str; 22] = [
    "requireAuth",
    "verifyToken",
    "ensureAuth",
    "auth_required",
    "authenticate(",
    "OAuth",
    "oauth",
    "passport",
    "express-jwt",
    "verifyJwt",
    "verifyJWT",
    "checkAuth",
    "bearerAuth",
    "WWW-Authenticate",
    "AuthMiddleware",
    "auth_middleware",
    "verify_token",
    "get_current_user",
    "HTTPBearer",
    "OAuth2",
    "login_required",
    "requireAuthentication",
];

/// The address that stands for all interfaces.
pub const ALL_INTERFACES: &'static str = "0.0.0.0";

/// Comparisons against that address, from either side, without blanks.
pub const HOST_CHECKS: [&'static str; 8] = [
    "==\"0.0.0.0\"",
    "=='0.0.0.0'",
    "!=\"0.0.0.0\"",
    "!='0.0.0.0'",
    "\"0.0.0.0\"==",
    "'0.0.0.0'==",
    "\"0.0.0.0\"!=",
    "'0.0.0.0'!=",
];

/// Words that make a line one that binds an address.
pub const BIND_WORDS: [&'static str; 6] = ["host", "bind", "listen", "addr", "serve", "default"];

pub const CORS_WILDCARDS: [&'static str; 3] = [
    "allow_origins=[\"*\"]",
    "origin: \"*\"",
    "origin: '*'",
];

pub const CORS_HEADER: &'static str = "Access-Control-Allow-Origin";

pub const READ_ONLY_MARKS: [&'static str; 3] = [
    "readOnlyHint=True",
    "readOnlyHint: true",
    "readOnlyHint:true",
];

pub const WRITE_MARKS: [&'static str; 6] = [
    "destructiveHint=True",
    "destructiveHint: true",
    "destructiveHint:true",
    "readOnlyHint=False",
    "readOnlyHint: false",
    "readOnlyHint:false",
];

pub const SDK_NAMES: [&'static str; 2] = ["mcp", "fastmcp"];

pub const SDK_NAME_PARTS: [&'static str; 2] = ["modelcontextprotocol", "mcp-sdk"];

pub const SDK_IMPORTS: [&'static str; 5] = [
    "modelcontextprotocol",
    "fastmcp",
    "FastMCP",
    "from mcp",
    "import mcp",
];

// --- lines -----------------------------------------------------------------

/// The first `n` characters of a text, without blanks.
pub open spec fn without_space(s: Seq<char>, n: int) -> Seq<char>
    decreases n,
{
    if n <= 0 || n > s.len() {
        Seq::empty()
    } else if text::is_space(s[n - 1]) {
        without_space(s, n - 1)
    } else {
        without_space(s, n - 1).push(s[n - 1])
    }
}

fn compact(t: &[char]) -> (r: Vec<char>)
    ensures
        r@ == without_space(t@, t@.len() as int),
{
    let mut out: Vec<char> = Vec::new();
    for i in 0..t.len()
        invariant
            out@ == without_space(t@, i as int),
    {
        if !space(t[i]) {
            out.push(t[i]);
        }
    }
    out
}

/// A line binds all interfaces: it names their address where an address is bound, and does not
/// just compare against it.
pub open spec fn binds_all(line: Seq<char>) -> bool {
    &&& text::contains(line, ALL_INTERFACES@)
    &&& !text::has_marker(without_space(line, line.len() as int), HOST_CHECKS@)
    &&& text::has_marker(text::lower(line), BIND_WORDS@)
}

/// A line lets any origin in.
pub open spec fn cors_wildcard(line: Seq<char>) -> bool {
    text::has_marker(line, CORS_WILDCARDS@) || (text::contains(line, CORS_HEADER@) && line.contains('*'))
}

/// A line switches TLS checks off.
pub open spec fn disables_tls(line: Seq<char>) -> bool {
    text::has_marker(line, TLS_DISABLE_PATTERNS@)
}

fn binds_all_in(line: &[char]) -> (r: bool)
    ensures
        r == binds_all(line@),
{
    if !contains_str(line, ALL_INTERFACES) {
        return false;
    }
    let dense = compact(line);
    if has_marker_in(&dense, &HOST_CHECKS) {
        return false;
    }
    let l = to_lower(line);
    has_marker_in(&l, &BIND_WORDS)
}

fn cors_wildcard_in(line: &[char]) -> (r: bool)
    ensures
        r == cors_wildcard(line@),
{
    has_marker_in(line, &CORS_WILDCARDS) || (contains_str(line, CORS_HEADER) && contains_char(line, '*'))
}

pub fn binds_all_line(line: &str) -> (r: bool)
    ensures
        r == binds_all(line@),
{
    let t = chars_of(line);
    binds_all_in(&t)
}

pub fn cors_wildcard_line(line: &str) -> (r: bool)
    ensures
        r == cors_wildcard(line@),
{
    let t = chars_of(line);
    cors_wildcard_in(&t)
}

// --- where a signal is first seen ------------------------------------------

/// What is looked for line by line.
#[derive(Debug, Clone, Copy, PartialEq, Eq, Structural)]
pub enum Signal {
    BindsAll,
    CorsWildcard,
    TlsDisabled,
}

/// A line gives the signal.
pub open spec fn shows(line: Seq<char>, signal: Signal) -> bool {
    match signal {
        Signal::BindsAll => binds_all(line),
        Signal::CorsWildcard => cors_wildcard(line),
        Signal::TlsDisabled => disables_tls(line),
    }
}

fn shows_in(line: &[char], signal: Signal) -> (r: bool)
    ensures
        r == shows(line@, signal),
{
    match signal {
        Signal::BindsAll => binds_all_in(line),
        Signal::CorsWildcard => cors_wildcard_in(line),
        Signal::TlsDisabled => has_marker_in(line, &TLS_DISABLE_PATTERNS),
    }
}

/// The first line at `i` or later that gives the signal.
pub open spec fn first_line(ls: Seq<Seq<char>>, signal: Signal, i: int) -> Option<int>
    decreases ls.len() - i,
{
    if i < 0 || i >= ls.len() {
        None
    } else if shows(ls[i], signal) {
        Some(i)
    } else {
        first_line(ls, signal, i + 1)
    }
}

/// The file and line of the first signal in the source files at `k` or later.
pub open spec fn first_site(files: Seq<FileText>, signal: Signal, k: int) -> Option<(Seq<char>, u32)>
    decreases files.len() - k,
{
    if k < 0 || k >= files.len() {
        None
    } else if !files::source(files[k].path) {
        first_site(files, signal, k + 1)
    } else {
        match first_line(text::lines(files[k].content), signal, 0) {
            Some(i) => Some((files[k].path, text::line_number(i))),
            None => first_site(files, signal, k + 1),
        }
    }
}

fn line_with(content: &str, signal: Signal) -> (r: Option<u32>)
    ensures
        r == match first_line(text::lines(content@), signal, 0) {
            Some(i) => Some(text::line_number(i)),
            None => None,
        },
{
    let t = chars_of(content);
    let ls = lines_of(&t);
    let ghost all = text::views(ls@);
    let n: usize = ls.len();
    let mut i: usize = 0;
    while i < n
        invariant
            all == text::views(ls@),
            all == text::lines(content@),
            n == ls@.len(),
            i <= n,
            first_line(all, signal, 0) == first_line(all, signal, i as int),
        decreases n - i,
    {
        assert(all[i as int] == ls@[i as int]@);
        if shows_in(ls[i], signal) {
            return Some(number_of_line(i));
        }
        i = i + 1;
    }
    None
}

/// The file and line where the signal is first seen in source files.
pub fn site_of(files: &Vec<&RepoFile>, signal: Signal) -> (r: Option<(String, u32)>)
    ensures
        taint::place(r) == first_site(files::texts_at(files@), signal, 0),
{
    let ghost all = files::texts_at(files@);
    let n: usize = files.len();
    let mut k: usize = 0;
    while k < n
        invariant
            all == files::texts_at(files@),
            n == files@.len(),
            k <= n,
            first_site(all, signal, 0) == first_site(all, signal, k as int),
        decreases n - k,
    {
        assert(all[k as int] == files@[k as int]@);
        if is_source(files[k].path.as_str()) {
            match line_with(files[k].content.as_str(), signal) {
                Some(l) => {
                    return Some((files[k].path.clone(), l));
                },
                None => {},
            }
        }
        k = k + 1;
    }
    None
}

/// The file and line of the first TLS check that is switched off in source files.
pub fn tls_disabled_loc(files: &Vec<&RepoFile>) -> (r: Option<(String, u32)>)
    ensures
        taint::place(r) == first_site(files::texts_at(files@), Signal::TlsDisabled, 0),
{
    site_of(files, Signal::TlsDisabled)
}

/// How a server is exposed over HTTP.
#[derive(Debug, PartialEq, Eq)]
pub struct Exposure {
    /// Where it first binds all interfaces.
    pub bind: Option<(String, u32)>,
    /// Where it first lets any origin in.
    pub cors: Option<(String, u32)>,
    /// Some source file checks inbound callers.
    pub has_auth: bool,
}

/// Some source file checks inbound callers.
pub open spec fn checks_callers(files: Seq<FileText>) -> bool {
    exists|k: int|
        0 <= k < files.len() && files::source((#[trigger] files[k]).path) && taint::some_line_has(
            text::lines(files[k].content),
            AUTH_INDICATORS@,
        )
}

fn has_auth_in(files: &Vec<&RepoFile>) -> (r: bool)
    ensures
        r == checks_callers(files::texts_at(files@)),
{
    let ghost all = files::texts_at(files@);
    for k in 0..files.len()
        invariant
            all == files::texts_at(files@),
            forall|j: int|
                0 <= j < k ==> !(files::source((#[trigger] all[j]).path) && taint::some_line_has(
                    text::lines(all[j].content),
                    AUTH_INDICATORS@,
                )),
    {
        assert(all[k as int] == files@[k as int]@);
        if is_source(files[k].path.as_str()) {
            let t = chars_of(files[k].content.as_str());
            let ls = lines_of(&t);
            if any_line_has(&ls, &AUTH_INDICATORS) {
                return true;
            }
        }
    }
    false
}

pub fn http_exposure(files: &Vec<&RepoFile>) -> (r: Exposure)
    ensures
        taint::place(r.bind) == first_site(files::texts_at(files@), Signal::BindsAll, 0),
        taint::place(r.cors) == first_site(files::texts_at(files@), Signal::CorsWildcard, 0),
        r.has_auth == checks_callers(files::texts_at(files@)),
{
    Exposure {
        bind: site_of(files, Signal::BindsAll),
        cors: site_of(files, Signal::CorsWildcard),
        has_auth: has_auth_in(files),
    }
}

// --- annotations and kind --------------------------------------------------

/// Some source file holds one of the markers.
pub open spec fn some_source_has(files: Seq<FileText>, markers: Seq<&str>) -> bool {
    exists|k: int|
        0 <= k < files.len() && files::source((#[trigger] files[k]).path) && text::has_marker(files[k].content, markers)
}

fn any_source_has(files: &Vec<&RepoFile>, markers: &[&str]) -> (r: bool)
    ensures
        r == some_source_has(files::texts_at(files@), markers@),
{
    let ghost all = files::texts_at(files@);
    for k in 0..files.len()
        invariant
            all == files::texts_at(files@),
            forall|j: int|
                0 <= j < k ==> !(files::source((#[trigger] all[j]).path) && text::has_marker(all[j].content, markers@)),
    {
        assert(all[k as int] == files@[k as int]@);
        if is_source(files[k].path.as_str()) {
            let t = chars_of(files[k].content.as_str());
            if has_marker_in(&t, markers) {
                return true;
            }
        }
    }
    false
}

/// No where a write annotation is seen, else yes where a read-only annotation is seen, else
/// unknown.
pub open spec fn read_only(files: Seq<FileText>) -> Option<bool> {
    if some_source_has(files, WRITE_MARKS@) {
        Some(false)
    } else if some_source_has(files, READ_ONLY_MARKS@) {
        Some(true)
    } else {
        None
    }
}

pub fn all_read_only(files: &Vec<&RepoFile>) -> (r: Option<bool>)
    ensures
        r == read_only(files::texts_at(files@)),
{
    if any_source_has(files, &WRITE_MARKS) {
        Some(false)
    } else if any_source_has(files, &READ_ONLY_MARKS) {
        Some(true)
    } else {
        None
    }
}

/// Some file has this name.
pub open spec fn has_file(files: Seq<FileText>, name: Seq<char>) -> bool {
    exists|k: int| 0 <= k < files.len() && files::base((#[trigger] files[k]).path) == name
}

fn some_file_named(files: &Vec<&RepoFile>, name: &str) -> (r: bool)
    ensures
        r == has_file(files::texts_at(files@), name@),
{
    let ghost all = files::texts_at(files@);
    for k in 0..files.len()
        invariant
            all == files::texts_at(files@),
            forall|j: int| 0 <= j < k ==> files::base((#[trigger] all[j]).path) != name@,
    {
        assert(all[k as int] == files@[k as int]@);
        if is_named(files[k].path.as_str(), name) {
            return true;
        }
    }
    false
}

/// A dependency of this name is an MCP SDK.
pub open spec fn is_sdk(name: Seq<char>) -> bool {
    text::is_listed(text::lower(name), SDK_NAMES@) || text::has_marker(text::lower(name), SDK_NAME_PARTS@)
}

/// The repository is an MCP server: it has a `server.json`, an SDK among its dependencies, or a
/// source file that names one.
pub open spec fn is_mcp(files: Seq<FileText>, deps: Seq<DepFacts>) -> bool {
    ||| has_file(files, "server.json"@)
    ||| exists|i: int| 0 <= i < deps.len() && is_sdk((#[trigger] deps[i]).name)
    ||| some_source_has(files, SDK_IMPORTS@)
}

pub fn detect_mcp(files: &Vec<&RepoFile>, deps: &Vec<Dep>) -> (r: bool)
    ensures
        r == is_mcp(files::texts_at(files@), deps::dep_facts(deps@)),
{
    if some_file_named(files, "server.json") {
        return true;
    }
    let ghost all = deps::dep_facts(deps@);
    for i in 0..deps.len()
        invariant
            all == deps::dep_facts(deps@),
            forall|j: int| 0 <= j < i ==> !is_sdk((#[trigger] all[j]).name),
    {
        assert(all[i as int] == deps@[i as int]@);
        let t = chars_of(deps[i].name.as_str());
        let name = to_lower(&t);
        if is_listed_in(&name, &SDK_NAMES) || has_marker_in(&name, &SDK_NAME_PARTS) {
            return true;
        }
    }
    any_source_has(files, &SDK_IMPORTS)
}

} // verus!
