//! What telling files apart, scanning them and reading their manifests is for, stated over paths,
//! names and lines.
use crate::deps;
use crate::deps::DepFacts;
use crate::files;
use crate::files::{
    FileText, LANGUAGES, LANGUAGE_SUFFIXES, LOCKFILES, MANIFESTS, NON_SHIPPED_DIRS, SCRIPT_SUFFIXES,
    SEPARATORS, SKIP_DIRS, SOURCE_SUFFIXES,
};
use crate::json;
use crate::json::JsonTree;
use crate::laws_text;
use crate::manifest;
use crate::manifest::HTTP_MARKS;
use crate::order;
use crate::scan;
use crate::scan::{
    AUTH_INDICATORS, BIND_WORDS, CORS_WILDCARDS, HOST_CHECKS, READ_ONLY_MARKS, SDK_IMPORTS,
    SDK_NAMES, SDK_NAME_PARTS, Signal, TLS_DISABLE_PATTERNS, WRITE_MARKS,
};
use crate::taint;
use crate::text;
use vstd::prelude::*;

verus! {

proof fn lemma_non_shipped(s: Seq<char>)
    ensures
        text::is_listed(s, NON_SHIPPED_DIRS@) == (s == "examples"@ || s == "example"@ || s == "samples"@ || s == "sample"@ || s == "demo"@ || s == "demos"@ || s == "test"@ || s == "tests"@ || s == "__tests__"@ || s == "testing"@ || s == "testdata"@ || s == "fixtures"@ || s == "e2e"@ || s == "docs"@ || s == "doc"@),
{
    assert(NON_SHIPPED_DIRS@[0]@ == "examples"@);
    assert(NON_SHIPPED_DIRS@[1]@ == "example"@);
    assert(NON_SHIPPED_DIRS@[2]@ == "samples"@);
    assert(NON_SHIPPED_DIRS@[3]@ == "sample"@);
    assert(NON_SHIPPED_DIRS@[4]@ == "demo"@);
    assert(NON_SHIPPED_DIRS@[5]@ == "demos"@);
    assert(NON_SHIPPED_DIRS@[6]@ == "test"@);
    assert(NON_SHIPPED_DIRS@[7]@ == "tests"@);
    assert(NON_SHIPPED_DIRS@[8]@ == "__tests__"@);
    assert(NON_SHIPPED_DIRS@[9]@ == "testing"@);
    assert(NON_SHIPPED_DIRS@[10]@ == "testdata"@);
    assert(NON_SHIPPED_DIRS@[11]@ == "fixtures"@);
    assert(NON_SHIPPED_DIRS@[12]@ == "e2e"@);
    assert(NON_SHIPPED_DIRS@[13]@ == "docs"@);
    assert(NON_SHIPPED_DIRS@[14]@ == "doc"@);
    if text::is_listed(s, NON_SHIPPED_DIRS@) {
        let k = choose|k: int| 0 <= k < NON_SHIPPED_DIRS@.len() && s == (#[trigger] NON_SHIPPED_DIRS@[k])@;
        assert(k == 0 || k == 1 || k == 2 || k == 3 || k == 4 || k == 5 || k == 6 || k == 7 || k == 8 || k == 9 || k == 10 || k == 11 || k == 12 || k == 13 || k == 14);
    }
    if s == "examples"@ {
        assert(s == NON_SHIPPED_DIRS@[0]@);
    }
    if s == "example"@ {
        assert(s == NON_SHIPPED_DIRS@[1]@);
    }
    if s == "samples"@ {
        assert(s == NON_SHIPPED_DIRS@[2]@);
    }
    if s == "sample"@ {
        assert(s == NON_SHIPPED_DIRS@[3]@);
    }
    if s == "demo"@ {
        assert(s == NON_SHIPPED_DIRS@[4]@);
    }
    if s == "demos"@ {
        assert(s == NON_SHIPPED_DIRS@[5]@);
    }
    if s == "test"@ {
        assert(s == NON_SHIPPED_DIRS@[6]@);
    }
    if s == "tests"@ {
        assert(s == NON_SHIPPED_DIRS@[7]@);
    }
    if s == "__tests__"@ {
        assert(s == NON_SHIPPED_DIRS@[8]@);
    }
    if s == "testing"@ {
        assert(s == NON_SHIPPED_DIRS@[9]@);
    }
    if s == "testdata"@ {
        assert(s == NON_SHIPPED_DIRS@[10]@);
    }
    if s == "fixtures"@ {
        assert(s == NON_SHIPPED_DIRS@[11]@);
    }
    if s == "e2e"@ {
        assert(s == NON_SHIPPED_DIRS@[12]@);
    }
    if s == "docs"@ {
        assert(s == NON_SHIPPED_DIRS@[13]@);
    }
    if s == "doc"@ {
        assert(s == NON_SHIPPED_DIRS@[14]@);
    }
}

proof fn lemma_skip_dirs(s: Seq<char>)
    ensures
        text::is_listed(s, SKIP_DIRS@) == (s == ".git"@ || s == "node_modules"@ || s == "target"@ || s == "dist"@ || s == "build"@ || s == ".venv"@ || s == "venv"@ || s == "__pycache__"@ || s == ".mypy_cache"@ || s == ".pytest_cache"@ || s == "vendor"@ || s == ".next"@ || s == "out"@),
{
    assert(SKIP_DIRS@[0]@ == ".git"@);
    assert(SKIP_DIRS@[1]@ == "node_modules"@);
    assert(SKIP_DIRS@[2]@ == "target"@);
    assert(SKIP_DIRS@[3]@ == "dist"@);
    assert(SKIP_DIRS@[4]@ == "build"@);
    assert(SKIP_DIRS@[5]@ == ".venv"@);
    assert(SKIP_DIRS@[6]@ == "venv"@);
    assert(SKIP_DIRS@[7]@ == "__pycache__"@);
    assert(SKIP_DIRS@[8]@ == ".mypy_cache"@);
    assert(SKIP_DIRS@[9]@ == ".pytest_cache"@);
    assert(SKIP_DIRS@[10]@ == "vendor"@);
    assert(SKIP_DIRS@[11]@ == ".next"@);
    assert(SKIP_DIRS@[12]@ == "out"@);
    if text::is_listed(s, SKIP_DIRS@) {
        let k = choose|k: int| 0 <= k < SKIP_DIRS@.len() && s == (#[trigger] SKIP_DIRS@[k])@;
        assert(k == 0 || k == 1 || k == 2 || k == 3 || k == 4 || k == 5 || k == 6 || k == 7 || k == 8 || k == 9 || k == 10 || k == 11 || k == 12);
    }
    if s == ".git"@ {
        assert(s == SKIP_DIRS@[0]@);
    }
    if s == "node_modules"@ {
        assert(s == SKIP_DIRS@[1]@);
    }
    if s == "target"@ {
        assert(s == SKIP_DIRS@[2]@);
    }
    if s == "dist"@ {
        assert(s == SKIP_DIRS@[3]@);
    }
    if s == "build"@ {
        assert(s == SKIP_DIRS@[4]@);
    }
    if s == ".venv"@ {
        assert(s == SKIP_DIRS@[5]@);
    }
    if s == "venv"@ {
        assert(s == SKIP_DIRS@[6]@);
    }
    if s == "__pycache__"@ {
        assert(s == SKIP_DIRS@[7]@);
    }
    if s == ".mypy_cache"@ {
        assert(s == SKIP_DIRS@[8]@);
    }
    if s == ".pytest_cache"@ {
        assert(s == SKIP_DIRS@[9]@);
    }
    if s == "vendor"@ {
        assert(s == SKIP_DIRS@[10]@);
    }
    if s == ".next"@ {
        assert(s == SKIP_DIRS@[11]@);
    }
    if s == "out"@ {
        assert(s == SKIP_DIRS@[12]@);
    }
}

proof fn lemma_lockfiles(s: Seq<char>)
    ensures
        text::is_listed(s, LOCKFILES@) == (s == "package-lock.json"@ || s == "npm-shrinkwrap.json"@ || s == "pnpm-lock.yaml"@ || s == "yarn.lock"@ || s == "poetry.lock"@ || s == "uv.lock"@ || s == "Pipfile.lock"@ || s == "pdm.lock"@ || s == "go.sum"@ || s == "Cargo.lock"@),
{
    assert(LOCKFILES@[0]@ == "package-lock.json"@);
    assert(LOCKFILES@[1]@ == "npm-shrinkwrap.json"@);
    assert(LOCKFILES@[2]@ == "pnpm-lock.yaml"@);
    assert(LOCKFILES@[3]@ == "yarn.lock"@);
    assert(LOCKFILES@[4]@ == "poetry.lock"@);
    assert(LOCKFILES@[5]@ == "uv.lock"@);
    assert(LOCKFILES@[6]@ == "Pipfile.lock"@);
    assert(LOCKFILES@[7]@ == "pdm.lock"@);
    assert(LOCKFILES@[8]@ == "go.sum"@);
    assert(LOCKFILES@[9]@ == "Cargo.lock"@);
    if text::is_listed(s, LOCKFILES@) {
        let k = choose|k: int| 0 <= k < LOCKFILES@.len() && s == (#[trigger] LOCKFILES@[k])@;
        assert(k == 0 || k == 1 || k == 2 || k == 3 || k == 4 || k == 5 || k == 6 || k == 7 || k == 8 || k == 9);
    }
    if s == "package-lock.json"@ {
        assert(s == LOCKFILES@[0]@);
    }
    if s == "npm-shrinkwrap.json"@ {
        assert(s == LOCKFILES@[1]@);
    }
    if s == "pnpm-lock.yaml"@ {
        assert(s == LOCKFILES@[2]@);
    }
    if s == "yarn.lock"@ {
        assert(s == LOCKFILES@[3]@);
    }
    if s == "poetry.lock"@ {
        assert(s == LOCKFILES@[4]@);
    }
    if s == "uv.lock"@ {
        assert(s == LOCKFILES@[5]@);
    }
    if s == "Pipfile.lock"@ {
        assert(s == LOCKFILES@[6]@);
    }
    if s == "pdm.lock"@ {
        assert(s == LOCKFILES@[7]@);
    }
    if s == "go.sum"@ {
        assert(s == LOCKFILES@[8]@);
    }
    if s == "Cargo.lock"@ {
        assert(s == LOCKFILES@[9]@);
    }
}

proof fn lemma_manifests(s: Seq<char>)
    ensures
        text::is_listed(s, MANIFESTS@) == (s == "package.json"@ || s == "pyproject.toml"@ || s == "requirements.txt"@ || s == "go.mod"@ || s == "server.json"@),
{
    assert(MANIFESTS@[0]@ == "package.json"@);
    assert(MANIFESTS@[1]@ == "pyproject.toml"@);
    assert(MANIFESTS@[2]@ == "requirements.txt"@);
    assert(MANIFESTS@[3]@ == "go.mod"@);
    assert(MANIFESTS@[4]@ == "server.json"@);
    if text::is_listed(s, MANIFESTS@) {
        let k = choose|k: int| 0 <= k < MANIFESTS@.len() && s == (#[trigger] MANIFESTS@[k])@;
        assert(k == 0 || k == 1 || k == 2 || k == 3 || k == 4);
    }
    if s == "package.json"@ {
        assert(s == MANIFESTS@[0]@);
    }
    if s == "pyproject.toml"@ {
        assert(s == MANIFESTS@[1]@);
    }
    if s == "requirements.txt"@ {
        assert(s == MANIFESTS@[2]@);
    }
    if s == "go.mod"@ {
        assert(s == MANIFESTS@[3]@);
    }
    if s == "server.json"@ {
        assert(s == MANIFESTS@[4]@);
    }
}

proof fn lemma_sources(s: Seq<char>)
    ensures
        text::ends_with_any(s, SOURCE_SUFFIXES@) == (text::ends_with(s, ".py"@) || text::ends_with(s, ".js"@) || text::ends_with(s, ".ts"@) || text::ends_with(s, ".mjs"@) || text::ends_with(s, ".cjs"@) || text::ends_with(s, ".tsx"@) || text::ends_with(s, ".go"@) || text::ends_with(s, ".java"@) || text::ends_with(s, ".kt"@) || text::ends_with(s, ".rs"@)),
{
    assert(SOURCE_SUFFIXES@[0]@ == ".py"@);
    assert(SOURCE_SUFFIXES@[1]@ == ".js"@);
    assert(SOURCE_SUFFIXES@[2]@ == ".ts"@);
    assert(SOURCE_SUFFIXES@[3]@ == ".mjs"@);
    assert(SOURCE_SUFFIXES@[4]@ == ".cjs"@);
    assert(SOURCE_SUFFIXES@[5]@ == ".tsx"@);
    assert(SOURCE_SUFFIXES@[6]@ == ".go"@);
    assert(SOURCE_SUFFIXES@[7]@ == ".java"@);
    assert(SOURCE_SUFFIXES@[8]@ == ".kt"@);
    assert(SOURCE_SUFFIXES@[9]@ == ".rs"@);
    if text::ends_with_any(s, SOURCE_SUFFIXES@) {
        let k = choose|k: int| 0 <= k < SOURCE_SUFFIXES@.len() && text::ends_with(s, (#[trigger] SOURCE_SUFFIXES@[k])@);
        assert(k == 0 || k == 1 || k == 2 || k == 3 || k == 4 || k == 5 || k == 6 || k == 7 || k == 8 || k == 9);
    }
    if text::ends_with(s, ".py"@) {
        assert(text::ends_with(s, SOURCE_SUFFIXES@[0]@));
    }
    if text::ends_with(s, ".js"@) {
        assert(text::ends_with(s, SOURCE_SUFFIXES@[1]@));
    }
    if text::ends_with(s, ".ts"@) {
        assert(text::ends_with(s, SOURCE_SUFFIXES@[2]@));
    }
    if text::ends_with(s, ".mjs"@) {
        assert(text::ends_with(s, SOURCE_SUFFIXES@[3]@));
    }
    if text::ends_with(s, ".cjs"@) {
        assert(text::ends_with(s, SOURCE_SUFFIXES@[4]@));
    }
    if text::ends_with(s, ".tsx"@) {
        assert(text::ends_with(s, SOURCE_SUFFIXES@[5]@));
    }
    if text::ends_with(s, ".go"@) {
        assert(text::ends_with(s, SOURCE_SUFFIXES@[6]@));
    }
    if text::ends_with(s, ".java"@) {
        assert(text::ends_with(s, SOURCE_SUFFIXES@[7]@));
    }
    if text::ends_with(s, ".kt"@) {
        assert(text::ends_with(s, SOURCE_SUFFIXES@[8]@));
    }
    if text::ends_with(s, ".rs"@) {
        assert(text::ends_with(s, SOURCE_SUFFIXES@[9]@));
    }
}

proof fn lemma_scripts(s: Seq<char>)
    ensures
        text::ends_with_any(s, SCRIPT_SUFFIXES@) == (text::ends_with(s, ".js"@) || text::ends_with(s, ".jsx"@) || text::ends_with(s, ".ts"@) || text::ends_with(s, ".tsx"@) || text::ends_with(s, ".mjs"@) || text::ends_with(s, ".cjs"@)),
{
    assert(SCRIPT_SUFFIXES@[0]@ == ".js"@);
    assert(SCRIPT_SUFFIXES@[1]@ == ".jsx"@);
    assert(SCRIPT_SUFFIXES@[2]@ == ".ts"@);
    assert(SCRIPT_SUFFIXES@[3]@ == ".tsx"@);
    assert(SCRIPT_SUFFIXES@[4]@ == ".mjs"@);
    assert(SCRIPT_SUFFIXES@[5]@ == ".cjs"@);
    if text::ends_with_any(s, SCRIPT_SUFFIXES@) {
        let k = choose|k: int| 0 <= k < SCRIPT_SUFFIXES@.len() && text::ends_with(s, (#[trigger] SCRIPT_SUFFIXES@[k])@);
        assert(k == 0 || k == 1 || k == 2 || k == 3 || k == 4 || k == 5);
    }
    if text::ends_with(s, ".js"@) {
        assert(text::ends_with(s, SCRIPT_SUFFIXES@[0]@));
    }
    if text::ends_with(s, ".jsx"@) {
        assert(text::ends_with(s, SCRIPT_SUFFIXES@[1]@));
    }
    if text::ends_with(s, ".ts"@) {
        assert(text::ends_with(s, SCRIPT_SUFFIXES@[2]@));
    }
    if text::ends_with(s, ".tsx"@) {
        assert(text::ends_with(s, SCRIPT_SUFFIXES@[3]@));
    }
    if text::ends_with(s, ".mjs"@) {
        assert(text::ends_with(s, SCRIPT_SUFFIXES@[4]@));
    }
    if text::ends_with(s, ".cjs"@) {
        assert(text::ends_with(s, SCRIPT_SUFFIXES@[5]@));
    }
}

proof fn lemma_tls_disable_patterns(s: Seq<char>)
    ensures
        text::has_marker(s, TLS_DISABLE_PATTERNS@) == (text::contains(s, "rejectUnauthorized: false"@) || text::contains(s, "rejectUnauthorized:false"@) || text::contains(s, "NODE_TLS_REJECT_UNAUTHORIZED"@) || text::contains(s, "verify=False"@) || text::contains(s, "verify = False"@) || text::contains(s, "InsecureSkipVerify: true"@) || text::contains(s, "InsecureSkipVerify:true"@)),
{
    assert(TLS_DISABLE_PATTERNS@[0]@ == "rejectUnauthorized: false"@);
    assert(TLS_DISABLE_PATTERNS@[1]@ == "rejectUnauthorized:false"@);
    assert(TLS_DISABLE_PATTERNS@[2]@ == "NODE_TLS_REJECT_UNAUTHORIZED"@);
    assert(TLS_DISABLE_PATTERNS@[3]@ == "verify=False"@);
    assert(TLS_DISABLE_PATTERNS@[4]@ == "verify = False"@);
    assert(TLS_DISABLE_PATTERNS@[5]@ == "InsecureSkipVerify: true"@);
    assert(TLS_DISABLE_PATTERNS@[6]@ == "InsecureSkipVerify:true"@);
    if text::has_marker(s, TLS_DISABLE_PATTERNS@) {
        let k = choose|k: int| 0 <= k < TLS_DISABLE_PATTERNS@.len() && text::contains(s, (#[trigger] TLS_DISABLE_PATTERNS@[k])@);
        assert(k == 0 || k == 1 || k == 2 || k == 3 || k == 4 || k == 5 || k == 6);
    }
    if text::contains(s, "rejectUnauthorized: false"@) {
        assert(text::contains(s, TLS_DISABLE_PATTERNS@[0]@));
    }
    if text::contains(s, "rejectUnauthorized:false"@) {
        assert(text::contains(s, TLS_DISABLE_PATTERNS@[1]@));
    }
    if text::contains(s, "NODE_TLS_REJECT_UNAUTHORIZED"@) {
        assert(text::contains(s, TLS_DISABLE_PATTERNS@[2]@));
    }
    if text::contains(s, "verify=False"@) {
        assert(text::contains(s, TLS_DISABLE_PATTERNS@[3]@));
    }
    if text::contains(s, "verify = False"@) {
        assert(text::contains(s, TLS_DISABLE_PATTERNS@[4]@));
    }
    if text::contains(s, "InsecureSkipVerify: true"@) {
        assert(text::contains(s, TLS_DISABLE_PATTERNS@[5]@));
    }
    if text::contains(s, "InsecureSkipVerify:true"@) {
        assert(text::contains(s, TLS_DISABLE_PATTERNS@[6]@));
    }
}

proof fn lemma_auth_indicators(s: Seq<char>)
    ensures
        text::has_marker(s, AUTH_INDICATORS@) == (text::contains(s, "requireAuth"@) || text::contains(s, "verifyToken"@) || text::contains(s, "ensureAuth"@) || text::contains(s, "auth_required"@) || text::contains(s, "authenticate("@) || text::contains(s, "OAuth"@) || text::contains(s, "oauth"@) || text::contains(s, "passport"@) || text::contains(s, "express-jwt"@) || text::contains(s, "verifyJwt"@) || text::contains(s, "verifyJWT"@) || text::contains(s, "checkAuth"@) || text::contains(s, "bearerAuth"@) || text::contains(s, "WWW-Authenticate"@) || text::contains(s, "AuthMiddleware"@) || text::contains(s, "auth_middleware"@) || text::contains(s, "verify_token"@) || text::contains(s, "get_current_user"@) || text::contains(s, "HTTPBearer"@) || text::contains(s, "OAuth2"@) || text::contains(s, "login_required"@) || text::contains(s, "requireAuthentication"@)),
{
    assert(AUTH_INDICATORS@[0]@ == "requireAuth"@);
    assert(AUTH_INDICATORS@[1]@ == "verifyToken"@);
    assert(AUTH_INDICATORS@[2]@ == "ensureAuth"@);
    assert(AUTH_INDICATORS@[3]@ == "auth_required"@);
    assert(AUTH_INDICATORS@[4]@ == "authenticate("@);
    assert(AUTH_INDICATORS@[5]@ == "OAuth"@);
    assert(AUTH_INDICATORS@[6]@ == "oauth"@);
    assert(AUTH_INDICATORS@[7]@ == "passport"@);
    assert(AUTH_INDICATORS@[8]@ == "express-jwt"@);
    assert(AUTH_INDICATORS@[9]@ == "verifyJwt"@);
    assert(AUTH_INDICATORS@[10]@ == "verifyJWT"@);
    assert(AUTH_INDICATORS@[11]@ == "checkAuth"@);
    assert(AUTH_INDICATORS@[12]@ == "bearerAuth"@);
    assert(AUTH_INDICATORS@[13]@ == "WWW-Authenticate"@);
    assert(AUTH_INDICATORS@[14]@ == "AuthMiddleware"@);
    assert(AUTH_INDICATORS@[15]@ == "auth_middleware"@);
    assert(AUTH_INDICATORS@[16]@ == "verify_token"@);
    assert(AUTH_INDICATORS@[17]@ == "get_current_user"@);
    assert(AUTH_INDICATORS@[18]@ == "HTTPBearer"@);
    assert(AUTH_INDICATORS@[19]@ == "OAuth2"@);
    assert(AUTH_INDICATORS@[20]@ == "login_required"@);
    assert(AUTH_INDICATORS@[21]@ == "requireAuthentication"@);
    if text::has_marker(s, AUTH_INDICATORS@) {
        let k = choose|k: int| 0 <= k < AUTH_INDICATORS@.len() && text::contains(s, (#[trigger] AUTH_INDICATORS@[k])@);
        assert(k == 0 || k == 1 || k == 2 || k == 3 || k == 4 || k == 5 || k == 6 || k == 7 || k == 8 || k == 9 || k == 10 || k == 11 || k == 12 || k == 13 || k == 14 || k == 15 || k == 16 || k == 17 || k == 18 || k == 19 || k == 20 || k == 21);
    }
    if text::contains(s, "requireAuth"@) {
        assert(text::contains(s, AUTH_INDICATORS@[0]@));
    }
    if text::contains(s, "verifyToken"@) {
        assert(text::contains(s, AUTH_INDICATORS@[1]@));
    }
    if text::contains(s, "ensureAuth"@) {
        assert(text::contains(s, AUTH_INDICATORS@[2]@));
    }
    if text::contains(s, "auth_required"@) {
        assert(text::contains(s, AUTH_INDICATORS@[3]@));
    }
    if text::contains(s, "authenticate("@) {
        assert(text::contains(s, AUTH_INDICATORS@[4]@));
    }
    if text::contains(s, "OAuth"@) {
        assert(text::contains(s, AUTH_INDICATORS@[5]@));
    }
    if text::contains(s, "oauth"@) {
        assert(text::contains(s, AUTH_INDICATORS@[6]@));
    }
    if text::contains(s, "passport"@) {
        assert(text::contains(s, AUTH_INDICATORS@[7]@));
    }
    if text::contains(s, "express-jwt"@) {
        assert(text::contains(s, AUTH_INDICATORS@[8]@));
    }
    if text::contains(s, "verifyJwt"@) {
        assert(text::contains(s, AUTH_INDICATORS@[9]@));
    }
    if text::contains(s, "verifyJWT"@) {
        assert(text::contains(s, AUTH_INDICATORS@[10]@));
    }
    if text::contains(s, "checkAuth"@) {
        assert(text::contains(s, AUTH_INDICATORS@[11]@));
    }
    if text::contains(s, "bearerAuth"@) {
        assert(text::contains(s, AUTH_INDICATORS@[12]@));
    }
    if text::contains(s, "WWW-Authenticate"@) {
        assert(text::contains(s, AUTH_INDICATORS@[13]@));
    }
    if text::contains(s, "AuthMiddleware"@) {
        assert(text::contains(s, AUTH_INDICATORS@[14]@));
    }
    if text::contains(s, "auth_middleware"@) {
        assert(text::contains(s, AUTH_INDICATORS@[15]@));
    }
    if text::contains(s, "verify_token"@) {
        assert(text::contains(s, AUTH_INDICATORS@[16]@));
    }
    if text::contains(s, "get_current_user"@) {
        assert(text::contains(s, AUTH_INDICATORS@[17]@));
    }
    if text::contains(s, "HTTPBearer"@) {
        assert(text::contains(s, AUTH_INDICATORS@[18]@));
    }
    if text::contains(s, "OAuth2"@) {
        assert(text::contains(s, AUTH_INDICATORS@[19]@));
    }
    if text::contains(s, "login_required"@) {
        assert(text::contains(s, AUTH_INDICATORS@[20]@));
    }
    if text::contains(s, "requireAuthentication"@) {
        assert(text::contains(s, AUTH_INDICATORS@[21]@));
    }
}

proof fn lemma_host_checks(s: Seq<char>)
    ensures
        text::has_marker(s, HOST_CHECKS@) == (text::contains(s, "==\"0.0.0.0\""@) || text::contains(s, "=='0.0.0.0'"@) || text::contains(s, "!=\"0.0.0.0\""@) || text::contains(s, "!='0.0.0.0'"@) || text::contains(s, "\"0.0.0.0\"=="@) || text::contains(s, "'0.0.0.0'=="@) || text::contains(s, "\"0.0.0.0\"!="@) || text::contains(s, "'0.0.0.0'!="@)),
{
    assert(HOST_CHECKS@[0]@ == "==\"0.0.0.0\""@);
    assert(HOST_CHECKS@[1]@ == "=='0.0.0.0'"@);
    assert(HOST_CHECKS@[2]@ == "!=\"0.0.0.0\""@);
    assert(HOST_CHECKS@[3]@ == "!='0.0.0.0'"@);
    assert(HOST_CHECKS@[4]@ == "\"0.0.0.0\"=="@);
    assert(HOST_CHECKS@[5]@ == "'0.0.0.0'=="@);
    assert(HOST_CHECKS@[6]@ == "\"0.0.0.0\"!="@);
    assert(HOST_CHECKS@[7]@ == "'0.0.0.0'!="@);
    if text::has_marker(s, HOST_CHECKS@) {
        let k = choose|k: int| 0 <= k < HOST_CHECKS@.len() && text::contains(s, (#[trigger] HOST_CHECKS@[k])@);
        assert(k == 0 || k == 1 || k == 2 || k == 3 || k == 4 || k == 5 || k == 6 || k == 7);
    }
    if text::contains(s, "==\"0.0.0.0\""@) {
        assert(text::contains(s, HOST_CHECKS@[0]@));
    }
    if text::contains(s, "=='0.0.0.0'"@) {
        assert(text::contains(s, HOST_CHECKS@[1]@));
    }
    if text::contains(s, "!=\"0.0.0.0\""@) {
        assert(text::contains(s, HOST_CHECKS@[2]@));
    }
    if text::contains(s, "!='0.0.0.0'"@) {
        assert(text::contains(s, HOST_CHECKS@[3]@));
    }
    if text::contains(s, "\"0.0.0.0\"=="@) {
        assert(text::contains(s, HOST_CHECKS@[4]@));
    }
    if text::contains(s, "'0.0.0.0'=="@) {
        assert(text::contains(s, HOST_CHECKS@[5]@));
    }
    if text::contains(s, "\"0.0.0.0\"!="@) {
        assert(text::contains(s, HOST_CHECKS@[6]@));
    }
    if text::contains(s, "'0.0.0.0'!="@) {
        assert(text::contains(s, HOST_CHECKS@[7]@));
    }
}

proof fn lemma_bind_words(s: Seq<char>)
    ensures
        text::has_marker(s, BIND_WORDS@) == (text::contains(s, "host"@) || text::contains(s, "bind"@) || text::contains(s, "listen"@) || text::contains(s, "addr"@) || text::contains(s, "serve"@) || text::contains(s, "default"@)),
{
    assert(BIND_WORDS@[0]@ == "host"@);
    assert(BIND_WORDS@[1]@ == "bind"@);
    assert(BIND_WORDS@[2]@ == "listen"@);
    assert(BIND_WORDS@[3]@ == "addr"@);
    assert(BIND_WORDS@[4]@ == "serve"@);
    assert(BIND_WORDS@[5]@ == "default"@);
    if text::has_marker(s, BIND_WORDS@) {
        let k = choose|k: int| 0 <= k < BIND_WORDS@.len() && text::contains(s, (#[trigger] BIND_WORDS@[k])@);
        assert(k == 0 || k == 1 || k == 2 || k == 3 || k == 4 || k == 5);
    }
    if text::contains(s, "host"@) {
        assert(text::contains(s, BIND_WORDS@[0]@));
    }
    if text::contains(s, "bind"@) {
        assert(text::contains(s, BIND_WORDS@[1]@));
    }
    if text::contains(s, "listen"@) {
        assert(text::contains(s, BIND_WORDS@[2]@));
    }
    if text::contains(s, "addr"@) {
        assert(text::contains(s, BIND_WORDS@[3]@));
    }
    if text::contains(s, "serve"@) {
        assert(text::contains(s, BIND_WORDS@[4]@));
    }
    if text::contains(s, "default"@) {
        assert(text::contains(s, BIND_WORDS@[5]@));
    }
}

proof fn lemma_cors_wildcards(s: Seq<char>)
    ensures
        text::has_marker(s, CORS_WILDCARDS@) == (text::contains(s, "allow_origins=[\"*\"]"@) || text::contains(s, "origin: \"*\""@) || text::contains(s, "origin: '*'"@)),
{
    assert(CORS_WILDCARDS@[0]@ == "allow_origins=[\"*\"]"@);
    assert(CORS_WILDCARDS@[1]@ == "origin: \"*\""@);
    assert(CORS_WILDCARDS@[2]@ == "origin: '*'"@);
    if text::has_marker(s, CORS_WILDCARDS@) {
        let k = choose|k: int| 0 <= k < CORS_WILDCARDS@.len() && text::contains(s, (#[trigger] CORS_WILDCARDS@[k])@);
        assert(k == 0 || k == 1 || k == 2);
    }
    if text::contains(s, "allow_origins=[\"*\"]"@) {
        assert(text::contains(s, CORS_WILDCARDS@[0]@));
    }
    if text::contains(s, "origin: \"*\""@) {
        assert(text::contains(s, CORS_WILDCARDS@[1]@));
    }
    if text::contains(s, "origin: '*'"@) {
        assert(text::contains(s, CORS_WILDCARDS@[2]@));
    }
}

proof fn lemma_read_only_marks(s: Seq<char>)
    ensures
        text::has_marker(s, READ_ONLY_MARKS@) == (text::contains(s, "readOnlyHint=True"@) || text::contains(s, "readOnlyHint: true"@) || text::contains(s, "readOnlyHint:true"@)),
{
    assert(READ_ONLY_MARKS@[0]@ == "readOnlyHint=True"@);
    assert(READ_ONLY_MARKS@[1]@ == "readOnlyHint: true"@);
    assert(READ_ONLY_MARKS@[2]@ == "readOnlyHint:true"@);
    if text::has_marker(s, READ_ONLY_MARKS@) {
        let k = choose|k: int| 0 <= k < READ_ONLY_MARKS@.len() && text::contains(s, (#[trigger] READ_ONLY_MARKS@[k])@);
        assert(k == 0 || k == 1 || k == 2);
    }
    if text::contains(s, "readOnlyHint=True"@) {
        assert(text::contains(s, READ_ONLY_MARKS@[0]@));
    }
    if text::contains(s, "readOnlyHint: true"@) {
        assert(text::contains(s, READ_ONLY_MARKS@[1]@));
    }
    if text::contains(s, "readOnlyHint:true"@) {
        assert(text::contains(s, READ_ONLY_MARKS@[2]@));
    }
}

proof fn lemma_write_marks(s: Seq<char>)
    ensures
        text::has_marker(s, WRITE_MARKS@) == (text::contains(s, "destructiveHint=True"@) || text::contains(s, "destructiveHint: true"@) || text::contains(s, "destructiveHint:true"@) || text::contains(s, "readOnlyHint=False"@) || text::contains(s, "readOnlyHint: false"@) || text::contains(s, "readOnlyHint:false"@)),
{
    assert(WRITE_MARKS@[0]@ == "destructiveHint=True"@);
    assert(WRITE_MARKS@[1]@ == "destructiveHint: true"@);
    assert(WRITE_MARKS@[2]@ == "destructiveHint:true"@);
    assert(WRITE_MARKS@[3]@ == "readOnlyHint=False"@);
    assert(WRITE_MARKS@[4]@ == "readOnlyHint: false"@);
    assert(WRITE_MARKS@[5]@ == "readOnlyHint:false"@);
    if text::has_marker(s, WRITE_MARKS@) {
        let k = choose|k: int| 0 <= k < WRITE_MARKS@.len() && text::contains(s, (#[trigger] WRITE_MARKS@[k])@);
        assert(k == 0 || k == 1 || k == 2 || k == 3 || k == 4 || k == 5);
    }
    if text::contains(s, "destructiveHint=True"@) {
        assert(text::contains(s, WRITE_MARKS@[0]@));
    }
    if text::contains(s, "destructiveHint: true"@) {
        assert(text::contains(s, WRITE_MARKS@[1]@));
    }
    if text::contains(s, "destructiveHint:true"@) {
        assert(text::contains(s, WRITE_MARKS@[2]@));
    }
    if text::contains(s, "readOnlyHint=False"@) {
        assert(text::contains(s, WRITE_MARKS@[3]@));
    }
    if text::contains(s, "readOnlyHint: false"@) {
        assert(text::contains(s, WRITE_MARKS@[4]@));
    }
    if text::contains(s, "readOnlyHint:false"@) {
        assert(text::contains(s, WRITE_MARKS@[5]@));
    }
}

proof fn lemma_sdk_name_parts(s: Seq<char>)
    ensures
        text::has_marker(s, SDK_NAME_PARTS@) == (text::contains(s, "modelcontextprotocol"@) || text::contains(s, "mcp-sdk"@)),
{
    assert(SDK_NAME_PARTS@[0]@ == "modelcontextprotocol"@);
    assert(SDK_NAME_PARTS@[1]@ == "mcp-sdk"@);
    if text::has_marker(s, SDK_NAME_PARTS@) {
        let k = choose|k: int| 0 <= k < SDK_NAME_PARTS@.len() && text::contains(s, (#[trigger] SDK_NAME_PARTS@[k])@);
        assert(k == 0 || k == 1);
    }
    if text::contains(s, "modelcontextprotocol"@) {
        assert(text::contains(s, SDK_NAME_PARTS@[0]@));
    }
    if text::contains(s, "mcp-sdk"@) {
        assert(text::contains(s, SDK_NAME_PARTS@[1]@));
    }
}

proof fn lemma_sdk_imports(s: Seq<char>)
    ensures
        text::has_marker(s, SDK_IMPORTS@) == (text::contains(s, "modelcontextprotocol"@) || text::contains(s, "fastmcp"@) || text::contains(s, "FastMCP"@) || text::contains(s, "from mcp"@) || text::contains(s, "import mcp"@)),
{
    assert(SDK_IMPORTS@[0]@ == "modelcontextprotocol"@);
    assert(SDK_IMPORTS@[1]@ == "fastmcp"@);
    assert(SDK_IMPORTS@[2]@ == "FastMCP"@);
    assert(SDK_IMPORTS@[3]@ == "from mcp"@);
    assert(SDK_IMPORTS@[4]@ == "import mcp"@);
    if text::has_marker(s, SDK_IMPORTS@) {
        let k = choose|k: int| 0 <= k < SDK_IMPORTS@.len() && text::contains(s, (#[trigger] SDK_IMPORTS@[k])@);
        assert(k == 0 || k == 1 || k == 2 || k == 3 || k == 4);
    }
    if text::contains(s, "modelcontextprotocol"@) {
        assert(text::contains(s, SDK_IMPORTS@[0]@));
    }
    if text::contains(s, "fastmcp"@) {
        assert(text::contains(s, SDK_IMPORTS@[1]@));
    }
    if text::contains(s, "FastMCP"@) {
        assert(text::contains(s, SDK_IMPORTS@[2]@));
    }
    if text::contains(s, "from mcp"@) {
        assert(text::contains(s, SDK_IMPORTS@[3]@));
    }
    if text::contains(s, "import mcp"@) {
        assert(text::contains(s, SDK_IMPORTS@[4]@));
    }
}

proof fn lemma_sdk_names(s: Seq<char>)
    ensures
        text::is_listed(s, SDK_NAMES@) == (s == "mcp"@ || s == "fastmcp"@),
{
    assert(SDK_NAMES@[0]@ == "mcp"@);
    assert(SDK_NAMES@[1]@ == "fastmcp"@);
    if text::is_listed(s, SDK_NAMES@) {
        let k = choose|k: int| 0 <= k < SDK_NAMES@.len() && s == (#[trigger] SDK_NAMES@[k])@;
        assert(k == 0 || k == 1);
    }
    if s == "mcp"@ {
        assert(s == SDK_NAMES@[0]@);
    }
    if s == "fastmcp"@ {
        assert(s == SDK_NAMES@[1]@);
    }
}

proof fn lemma_http_marks(s: Seq<char>)
    ensures
        text::has_marker(s, HTTP_MARKS@) == (text::contains(s, "streamable-http"@) || text::contains(s, "\"sse\""@)),
{
    assert(HTTP_MARKS@[0]@ == "streamable-http"@);
    assert(HTTP_MARKS@[1]@ == "\"sse\""@);
    if text::has_marker(s, HTTP_MARKS@) {
        let k = choose|k: int| 0 <= k < HTTP_MARKS@.len() && text::contains(s, (#[trigger] HTTP_MARKS@[k])@);
        assert(k == 0 || k == 1);
    }
    if text::contains(s, "streamable-http"@) {
        assert(text::contains(s, HTTP_MARKS@[0]@));
    }
    if text::contains(s, "\"sse\""@) {
        assert(text::contains(s, HTTP_MARKS@[1]@));
    }
}

// --- files -----------------------------------------------------------------

/// A path is cut at slashes and backslashes, and its name is what follows the last of them.
pub proof fn law_paths_are_cut_at_separators(a: Seq<char>, c: char, rest: Seq<char>)
    requires
        c == '/' || c == '\\',
        forall|i: int| 0 <= i < a.len() ==> (#[trigger] a[i]) != '/' && a[i] != '\\',
    ensures
        files::segments(a) == seq![a],
        files::base(a) == a,
        files::segments(a + seq![c] + rest) == seq![a] + files::segments(rest),
        files::base(a + seq![c] + rest) == files::base(rest),
{
    reveal_strlit("/\\");
    let set = SEPARATORS@;
    assert(set =~= seq!['/', '\\']);
    assert(set[0] == '/' && set[1] == '\\');
    assert(set.contains(c));
    laws_text::law_splitting_cuts_at_each_separator(a, c, rest, set);
    lemma_split_is_not_empty(rest, set);
    let all = files::segments(a + seq![c] + rest);
    assert(all.last() == files::segments(rest).last());
}

proof fn lemma_split_is_not_empty(s: Seq<char>, set: Seq<char>)
    ensures
        text::split(s, set).len() > 0,
{
    text::lemma_find_one_of(s, set, 0);
}

/// A file is not shipped exactly where a segment of its path is a directory of examples, tests or
/// documentation.
pub proof fn law_examples_and_tests_are_not_shipped(path: Seq<char>)
    ensures
        files::non_shipped(path) <==> exists|i: int| 0 <= i < files::segments(path).len() && (#[trigger] files::segments(path)[i] == "examples"@ || files::segments(path)[i] == "example"@ || files::segments(path)[i] == "samples"@ || files::segments(path)[i] == "sample"@ || files::segments(path)[i] == "demo"@ || files::segments(path)[i] == "demos"@ || files::segments(path)[i] == "test"@ || files::segments(path)[i] == "tests"@ || files::segments(path)[i] == "__tests__"@ || files::segments(path)[i] == "testing"@ || files::segments(path)[i] == "testdata"@ || files::segments(path)[i] == "fixtures"@ || files::segments(path)[i] == "e2e"@ || files::segments(path)[i] == "docs"@ || files::segments(path)[i] == "doc"@),
{
    if files::non_shipped(path) {
        let i = choose|i: int| 0 <= i < files::segments(path).len() && text::is_listed(#[trigger] files::segments(path)[i], NON_SHIPPED_DIRS@);
        lemma_non_shipped(files::segments(path)[i]);
    }
    if exists|i: int| 0 <= i < files::segments(path).len() && (#[trigger] files::segments(path)[i] == "examples"@ || files::segments(path)[i] == "example"@ || files::segments(path)[i] == "samples"@ || files::segments(path)[i] == "sample"@ || files::segments(path)[i] == "demo"@ || files::segments(path)[i] == "demos"@ || files::segments(path)[i] == "test"@ || files::segments(path)[i] == "tests"@ || files::segments(path)[i] == "__tests__"@ || files::segments(path)[i] == "testing"@ || files::segments(path)[i] == "testdata"@ || files::segments(path)[i] == "fixtures"@ || files::segments(path)[i] == "e2e"@ || files::segments(path)[i] == "docs"@ || files::segments(path)[i] == "doc"@) {
        let i = choose|i: int| 0 <= i < files::segments(path).len() && (#[trigger] files::segments(path)[i] == "examples"@ || files::segments(path)[i] == "example"@ || files::segments(path)[i] == "samples"@ || files::segments(path)[i] == "sample"@ || files::segments(path)[i] == "demo"@ || files::segments(path)[i] == "demos"@ || files::segments(path)[i] == "test"@ || files::segments(path)[i] == "tests"@ || files::segments(path)[i] == "__tests__"@ || files::segments(path)[i] == "testing"@ || files::segments(path)[i] == "testdata"@ || files::segments(path)[i] == "fixtures"@ || files::segments(path)[i] == "e2e"@ || files::segments(path)[i] == "docs"@ || files::segments(path)[i] == "doc"@);
        lemma_non_shipped(files::segments(path)[i]);
        assert(text::is_listed(files::segments(path)[i], NON_SHIPPED_DIRS@));
    }
}

/// What kind of file a name stands for: the suffixes of sources, of scripts and of each language, the
/// names of lockfiles and manifests, and the directories that are not entered.
pub proof fn law_files_are_told_by_their_names(path: Seq<char>, name: Seq<char>)
    ensures
        files::source(path) <==> text::ends_with(files::base(path), ".py"@) || text::ends_with(files::base(path), ".js"@) || text::ends_with(files::base(path), ".ts"@) || text::ends_with(files::base(path), ".mjs"@) || text::ends_with(files::base(path), ".cjs"@) || text::ends_with(files::base(path), ".tsx"@) || text::ends_with(files::base(path), ".go"@) || text::ends_with(files::base(path), ".java"@) || text::ends_with(files::base(path), ".kt"@) || text::ends_with(files::base(path), ".rs"@),
        files::script(path) <==> text::ends_with(files::base(path), ".js"@) || text::ends_with(files::base(path), ".jsx"@) || text::ends_with(files::base(path), ".ts"@) || text::ends_with(files::base(path), ".tsx"@) || text::ends_with(files::base(path), ".mjs"@) || text::ends_with(files::base(path), ".cjs"@),
        files::python_file(path) <==> text::ends_with(path, ".py"@),
        files::lockfile(path) <==> files::base(path) == "package-lock.json"@ || files::base(path) == "npm-shrinkwrap.json"@ || files::base(path) == "pnpm-lock.yaml"@ || files::base(path) == "yarn.lock"@ || files::base(path) == "poetry.lock"@ || files::base(path) == "uv.lock"@ || files::base(path) == "Pipfile.lock"@ || files::base(path) == "pdm.lock"@ || files::base(path) == "go.sum"@ || files::base(path) == "Cargo.lock"@,
        files::is_read(name) <==> (name == "package.json"@ || name == "pyproject.toml"@ || name == "requirements.txt"@ || name == "go.mod"@ || name == "server.json"@) || (name == "package-lock.json"@ || name == "npm-shrinkwrap.json"@ || name == "pnpm-lock.yaml"@ || name == "yarn.lock"@ || name == "poetry.lock"@ || name == "uv.lock"@ || name == "Pipfile.lock"@ || name == "pdm.lock"@ || name == "go.sum"@ || name == "Cargo.lock"@) || files::source(name),
        text::is_listed(name, SKIP_DIRS@) <==> name == ".git"@ || name == "node_modules"@ || name == "target"@ || name == "dist"@ || name == "build"@ || name == ".venv"@ || name == "venv"@ || name == "__pycache__"@ || name == ".mypy_cache"@ || name == ".pytest_cache"@ || name == "vendor"@ || name == ".next"@ || name == "out"@,
{
    lemma_sources(files::base(path));
    lemma_scripts(files::base(path));
    lemma_lockfiles(files::base(path));
    lemma_lockfiles(name);
    lemma_manifests(name);
    lemma_skip_dirs(name);
}

/// The language of a file is that of the suffix of its name.
#[verifier::rlimit(60)]
pub proof fn law_languages_are_told_by_suffixes(path: Seq<char>)
    ensures
        text::ends_with(files::base(path), ".py"@) ==> files::language(path) == Some("Python"@),
        text::ends_with(files::base(path), ".ts"@) || text::ends_with(files::base(path), ".tsx"@) ==> files::language(path) == Some("TypeScript"@),
        text::ends_with(files::base(path), ".js"@) || text::ends_with(files::base(path), ".mjs"@) || text::ends_with(files::base(path), ".cjs"@) ==> files::language(path) == Some("JavaScript"@),
        text::ends_with(files::base(path), ".go"@) ==> files::language(path) == Some("Go"@),
        text::ends_with(files::base(path), ".java"@) ==> files::language(path) == Some("Java"@),
        text::ends_with(files::base(path), ".kt"@) ==> files::language(path) == Some("Kotlin"@),
        text::ends_with(files::base(path), ".rs"@) ==> files::language(path) == Some("Rust"@),
        files::language(path) is None <==> !(text::ends_with(files::base(path), ".py"@) || text::ends_with(files::base(path), ".ts"@) || text::ends_with(files::base(path), ".tsx"@) || text::ends_with(files::base(path), ".js"@) || text::ends_with(files::base(path), ".mjs"@) || text::ends_with(files::base(path), ".cjs"@) || text::ends_with(files::base(path), ".go"@) || text::ends_with(files::base(path), ".java"@) || text::ends_with(files::base(path), ".kt"@) || text::ends_with(files::base(path), ".rs"@)),
{
    reveal_with_fuel(files::language_from, 12);
    assert(LANGUAGE_SUFFIXES@[0]@ == ".py"@ && LANGUAGES@[0]@ == "Python"@);
    assert(LANGUAGE_SUFFIXES@[1]@ == ".ts"@ && LANGUAGES@[1]@ == "TypeScript"@);
    assert(LANGUAGE_SUFFIXES@[2]@ == ".tsx"@ && LANGUAGES@[2]@ == "TypeScript"@);
    assert(LANGUAGE_SUFFIXES@[3]@ == ".js"@ && LANGUAGES@[3]@ == "JavaScript"@);
    assert(LANGUAGE_SUFFIXES@[4]@ == ".mjs"@ && LANGUAGES@[4]@ == "JavaScript"@);
    assert(LANGUAGE_SUFFIXES@[5]@ == ".cjs"@ && LANGUAGES@[5]@ == "JavaScript"@);
    assert(LANGUAGE_SUFFIXES@[6]@ == ".go"@ && LANGUAGES@[6]@ == "Go"@);
    assert(LANGUAGE_SUFFIXES@[7]@ == ".java"@ && LANGUAGES@[7]@ == "Java"@);
    assert(LANGUAGE_SUFFIXES@[8]@ == ".kt"@ && LANGUAGES@[8]@ == "Kotlin"@);
    assert(LANGUAGE_SUFFIXES@[9]@ == ".rs"@ && LANGUAGES@[9]@ == "Rust"@);
    lemma_suffixes_apart(files::base(path));
}

proof fn lemma_suffixes_apart(s: Seq<char>)
    ensures
        !(text::ends_with(s, ".py"@) && text::ends_with(s, ".ts"@)),
        !(text::ends_with(s, ".py"@) && text::ends_with(s, ".tsx"@)),
        !(text::ends_with(s, ".py"@) && text::ends_with(s, ".js"@)),
        !(text::ends_with(s, ".py"@) && text::ends_with(s, ".mjs"@)),
        !(text::ends_with(s, ".py"@) && text::ends_with(s, ".cjs"@)),
        !(text::ends_with(s, ".py"@) && text::ends_with(s, ".go"@)),
        !(text::ends_with(s, ".py"@) && text::ends_with(s, ".java"@)),
        !(text::ends_with(s, ".py"@) && text::ends_with(s, ".kt"@)),
        !(text::ends_with(s, ".py"@) && text::ends_with(s, ".rs"@)),
        !(text::ends_with(s, ".ts"@) && text::ends_with(s, ".tsx"@)),
        !(text::ends_with(s, ".ts"@) && text::ends_with(s, ".js"@)),
        !(text::ends_with(s, ".ts"@) && text::ends_with(s, ".mjs"@)),
        !(text::ends_with(s, ".ts"@) && text::ends_with(s, ".cjs"@)),
        !(text::ends_with(s, ".ts"@) && text::ends_with(s, ".go"@)),
        !(text::ends_with(s, ".ts"@) && text::ends_with(s, ".java"@)),
        !(text::ends_with(s, ".ts"@) && text::ends_with(s, ".kt"@)),
        !(text::ends_with(s, ".ts"@) && text::ends_with(s, ".rs"@)),
        !(text::ends_with(s, ".tsx"@) && text::ends_with(s, ".js"@)),
        !(text::ends_with(s, ".tsx"@) && text::ends_with(s, ".mjs"@)),
        !(text::ends_with(s, ".tsx"@) && text::ends_with(s, ".cjs"@)),
        !(text::ends_with(s, ".tsx"@) && text::ends_with(s, ".go"@)),
        !(text::ends_with(s, ".tsx"@) && text::ends_with(s, ".java"@)),
        !(text::ends_with(s, ".tsx"@) && text::ends_with(s, ".kt"@)),
        !(text::ends_with(s, ".tsx"@) && text::ends_with(s, ".rs"@)),
        !(text::ends_with(s, ".js"@) && text::ends_with(s, ".mjs"@)),
        !(text::ends_with(s, ".js"@) && text::ends_with(s, ".cjs"@)),
        !(text::ends_with(s, ".js"@) && text::ends_with(s, ".go"@)),
        !(text::ends_with(s, ".js"@) && text::ends_with(s, ".java"@)),
        !(text::ends_with(s, ".js"@) && text::ends_with(s, ".kt"@)),
        !(text::ends_with(s, ".js"@) && text::ends_with(s, ".rs"@)),
        !(text::ends_with(s, ".mjs"@) && text::ends_with(s, ".cjs"@)),
        !(text::ends_with(s, ".mjs"@) && text::ends_with(s, ".go"@)),
        !(text::ends_with(s, ".mjs"@) && text::ends_with(s, ".java"@)),
        !(text::ends_with(s, ".mjs"@) && text::ends_with(s, ".kt"@)),
        !(text::ends_with(s, ".mjs"@) && text::ends_with(s, ".rs"@)),
        !(text::ends_with(s, ".cjs"@) && text::ends_with(s, ".go"@)),
        !(text::ends_with(s, ".cjs"@) && text::ends_with(s, ".java"@)),
        !(text::ends_with(s, ".cjs"@) && text::ends_with(s, ".kt"@)),
        !(text::ends_with(s, ".cjs"@) && text::ends_with(s, ".rs"@)),
        !(text::ends_with(s, ".go"@) && text::ends_with(s, ".java"@)),
        !(text::ends_with(s, ".go"@) && text::ends_with(s, ".kt"@)),
        !(text::ends_with(s, ".go"@) && text::ends_with(s, ".rs"@)),
        !(text::ends_with(s, ".java"@) && text::ends_with(s, ".kt"@)),
        !(text::ends_with(s, ".java"@) && text::ends_with(s, ".rs"@)),
        !(text::ends_with(s, ".kt"@) && text::ends_with(s, ".rs"@)),
{
    reveal_strlit(".py");
    reveal_strlit(".ts");
    reveal_strlit(".tsx");
    reveal_strlit(".js");
    reveal_strlit(".mjs");
    reveal_strlit(".cjs");
    reveal_strlit(".go");
    reveal_strlit(".java");
    reveal_strlit(".kt");
    reveal_strlit(".rs");
    let n = s.len() as int;
    if text::ends_with(s, ".py"@) {
        assert(s.subrange(n - 3, n)[2] == s[n - 1]);
        assert(s.subrange(n - 3, n)[1] == s[n - 2]);
        assert(s[n - 1] == 'y' && s[n - 2] == 'p');
        assert(s.subrange(n - 3, n)[0] == s[n - 3]);
        assert(s[n - 3] == '.');
    }
    if text::ends_with(s, ".ts"@) {
        assert(s.subrange(n - 3, n)[2] == s[n - 1]);
        assert(s.subrange(n - 3, n)[1] == s[n - 2]);
        assert(s[n - 1] == 's' && s[n - 2] == 't');
        assert(s.subrange(n - 3, n)[0] == s[n - 3]);
        assert(s[n - 3] == '.');
    }
    if text::ends_with(s, ".tsx"@) {
        assert(s.subrange(n - 4, n)[3] == s[n - 1]);
        assert(s.subrange(n - 4, n)[2] == s[n - 2]);
        assert(s[n - 1] == 'x' && s[n - 2] == 's');
        assert(s.subrange(n - 4, n)[1] == s[n - 3]);
        assert(s[n - 3] == 't');
    }
    if text::ends_with(s, ".js"@) {
        assert(s.subrange(n - 3, n)[2] == s[n - 1]);
        assert(s.subrange(n - 3, n)[1] == s[n - 2]);
        assert(s[n - 1] == 's' && s[n - 2] == 'j');
        assert(s.subrange(n - 3, n)[0] == s[n - 3]);
        assert(s[n - 3] == '.');
    }
    if text::ends_with(s, ".mjs"@) {
        assert(s.subrange(n - 4, n)[3] == s[n - 1]);
        assert(s.subrange(n - 4, n)[2] == s[n - 2]);
        assert(s[n - 1] == 's' && s[n - 2] == 'j');
        assert(s.subrange(n - 4, n)[1] == s[n - 3]);
        assert(s[n - 3] == 'm');
    }
    if text::ends_with(s, ".cjs"@) {
        assert(s.subrange(n - 4, n)[3] == s[n - 1]);
        assert(s.subrange(n - 4, n)[2] == s[n - 2]);
        assert(s[n - 1] == 's' && s[n - 2] == 'j');
        assert(s.subrange(n - 4, n)[1] == s[n - 3]);
        assert(s[n - 3] == 'c');
    }
    if text::ends_with(s, ".go"@) {
        assert(s.subrange(n - 3, n)[2] == s[n - 1]);
        assert(s.subrange(n - 3, n)[1] == s[n - 2]);
        assert(s[n - 1] == 'o' && s[n - 2] == 'g');
        assert(s.subrange(n - 3, n)[0] == s[n - 3]);
        assert(s[n - 3] == '.');
    }
    if text::ends_with(s, ".java"@) {
        assert(s.subrange(n - 5, n)[4] == s[n - 1]);
        assert(s.subrange(n - 5, n)[3] == s[n - 2]);
        assert(s[n - 1] == 'a' && s[n - 2] == 'v');
        assert(s.subrange(n - 5, n)[2] == s[n - 3]);
        assert(s[n - 3] == 'a');
    }
    if text::ends_with(s, ".kt"@) {
        assert(s.subrange(n - 3, n)[2] == s[n - 1]);
        assert(s.subrange(n - 3, n)[1] == s[n - 2]);
        assert(s[n - 1] == 't' && s[n - 2] == 'k');
        assert(s.subrange(n - 3, n)[0] == s[n - 3]);
        assert(s[n - 3] == '.');
    }
    if text::ends_with(s, ".rs"@) {
        assert(s.subrange(n - 3, n)[2] == s[n - 1]);
        assert(s.subrange(n - 3, n)[1] == s[n - 2]);
        assert(s[n - 1] == 's' && s[n - 2] == 'r');
        assert(s.subrange(n - 3, n)[0] == s[n - 3]);
        assert(s[n - 3] == '.');
    }
}

/// The shipped files are the ones that no segment marks as not shipped, in the order in which they are
/// given: one more file is added at the end, or not at all.
pub proof fn law_every_other_file_is_shipped(files: Seq<FileText>, f: FileText)
    ensures
        files::shipped(files.push(f)) == (if files::non_shipped(f.path) {
            files::shipped(files)
        } else {
            files::shipped(files).push(f)
        }),
        files::shipped(Seq::empty()) == Seq::<FileText>::empty(),
{
    let all = files.push(f);
    lemma_shipped_prefix(files, f, files.len() as int);
    assert(all[files.len() as int] == f);
}

proof fn lemma_shipped_prefix(files: Seq<FileText>, f: FileText, n: int)
    requires
        0 <= n <= files.len(),
    ensures
        files::shipped_first(files.push(f), n) == files::shipped_first(files, n),
    decreases n,
{
    if n > 0 {
        lemma_shipped_prefix(files, f, n - 1);
        assert(files.push(f)[n - 1] == files[n - 1]);
    }
}

/// A path is written with slashes: each backslash becomes one, and nothing else is changed.
pub proof fn law_paths_are_written_with_slashes(path: Seq<char>, i: int)
    requires
        0 <= i < path.len(),
    ensures
        files::with_slashes(path).len() == path.len(),
        path[i] == '\\' ==> files::with_slashes(path)[i] == '/',
        path[i] != '\\' ==> files::with_slashes(path)[i] == path[i],
{
}

/// Of two texts, that one comes first which has the smaller character where they first differ, or
/// which ends there.
pub proof fn law_texts_are_ordered_by_their_first_difference(p: Seq<char>, x: char, a: Seq<char>, y: char, b: Seq<char>)
    ensures
        x < y ==> order::less(p + seq![x] + a, p + seq![y] + b),
        order::less(p, p + seq![y] + b),
        x > y ==> !order::less(p + seq![x] + a, p + seq![y] + b),
        !order::less(p + seq![y] + b, p),
{
    let s = p + seq![x] + a;
    let t = p + seq![y] + b;
    let n = p.len() as int;
    assert(s[n] == x && t[n] == y);
    assert forall|k: int| 0 <= k < n implies s[k] == p[k] && t[k] == p[k] by {}
    lemma_common_start(s, t, 0, n);
    lemma_common_start(p, t, 0, n);
    lemma_common_start(t, p, 0, n);
}

proof fn lemma_common_start(s: Seq<char>, t: Seq<char>, i: int, n: int)
    requires
        0 <= i <= n <= s.len(),
        n <= t.len(),
        forall|k: int| 0 <= k < n ==> #[trigger] s[k] == t[k],
    ensures
        order::less_from(s, t, i) == order::less_from(s, t, n),
    decreases n - i,
{
    if i < n {
        assert(s[i] == t[i]);
        lemma_common_start(s, t, i + 1, n);
    }
}

/// Files are put in the order of their paths.
pub proof fn law_files_are_in_the_order_of_their_paths(files: Seq<FileText>, i: int, j: int)
    requires
        0 <= i < j < files.len(),
    ensures
        files::by_path(files).len() == files.len(),
        !order::less(files::by_path(files)[j].path, files::by_path(files)[i].path),
        files::by_path(files).to_multiset() == files.to_multiset(),
{
    let keys = files::paths(files);
    order::law_sorting_is_stable(keys);
    order::law_sorting_keeps_items(files, keys);
    let o = order::stable_order(keys);
    assert(order::precedes(keys, o[i], o[j]));
    order::law_order_is_total(keys[o[i]], keys[o[j]], keys[o[i]]);
}

// --- signals ---------------------------------------------------------------

/// What a line must hold to give a signal. It binds all interfaces where it names their address and a
/// word of binding, in any case, and compares nothing with that address. It lets any origin in by one
/// of the spellings, or by the header with a star. It switches TLS checks off by one of the spellings.
pub proof fn law_signals_are_seen_in_a_line(line: Seq<char>)
    ensures
        scan::shows(line, Signal::BindsAll) <==> text::contains(line, "0.0.0.0"@) && !(text::contains(scan::without_space(line, line.len() as int), "==\"0.0.0.0\""@) || text::contains(scan::without_space(line, line.len() as int), "=='0.0.0.0'"@) || text::contains(scan::without_space(line, line.len() as int), "!=\"0.0.0.0\""@) || text::contains(scan::without_space(line, line.len() as int), "!='0.0.0.0'"@) || text::contains(scan::without_space(line, line.len() as int), "\"0.0.0.0\"=="@) || text::contains(scan::without_space(line, line.len() as int), "'0.0.0.0'=="@) || text::contains(scan::without_space(line, line.len() as int), "\"0.0.0.0\"!="@) || text::contains(scan::without_space(line, line.len() as int), "'0.0.0.0'!="@)) && (text::contains(text::lower(line), "host"@) || text::contains(text::lower(line), "bind"@) || text::contains(text::lower(line), "listen"@) || text::contains(text::lower(line), "addr"@) || text::contains(text::lower(line), "serve"@) || text::contains(text::lower(line), "default"@)),
        scan::shows(line, Signal::CorsWildcard) <==> ((text::contains(line, "allow_origins=[\"*\"]"@) || text::contains(line, "origin: \"*\""@) || text::contains(line, "origin: '*'"@)) || (text::contains(line, "Access-Control-Allow-Origin"@) && line.contains('*'))),
        scan::shows(line, Signal::TlsDisabled) <==> (text::contains(line, "rejectUnauthorized: false"@) || text::contains(line, "rejectUnauthorized:false"@) || text::contains(line, "NODE_TLS_REJECT_UNAUTHORIZED"@) || text::contains(line, "verify=False"@) || text::contains(line, "verify = False"@) || text::contains(line, "InsecureSkipVerify: true"@) || text::contains(line, "InsecureSkipVerify:true"@)),
{
    lemma_host_checks(scan::without_space(line, line.len() as int));
    lemma_bind_words(text::lower(line));
    lemma_cors_wildcards(line);
    lemma_tls_disable_patterns(line);
}

/// A text without blanks has its other characters, in order.
pub proof fn law_blanks_are_left_out(s: Seq<char>, c: char)
    ensures
        scan::without_space(s.push(c), s.len() as int + 1) == (if text::is_space(c) {
            scan::without_space(s, s.len() as int)
        } else {
            scan::without_space(s, s.len() as int).push(c)
        }),
{
    lemma_space_prefix(s, c, s.len() as int);
}

proof fn lemma_space_prefix(s: Seq<char>, c: char, n: int)
    requires
        0 <= n <= s.len(),
    ensures
        scan::without_space(s.push(c), n) == scan::without_space(s, n),
    decreases n,
{
    if n > 0 {
        lemma_space_prefix(s, c, n - 1);
        assert(s.push(c)[n - 1] == s[n - 1]);
    }
}

/// A signal is cited where it is first seen: in the first source file that shows it, on the first of
/// its lines that does. It is cited nowhere exactly where no line of a source file shows it.
#[verifier::rlimit(60)]
pub proof fn law_signals_are_cited_where_first_seen(files: Seq<FileText>, signal: Signal)
    requires
        forall|k: int| 0 <= k < files.len() ==> text::lines((#[trigger] files[k]).content).len() < 0xffff_ffff,
    ensures
        match scan::first_site(files, signal, 0) {
            Some(at) => exists|k: int, i: int|
                0 <= k < files.len() && files::source((#[trigger] files[k]).path) && 0 <= i < text::lines(files[k].content).len() && at.0
                    == files[k].path && at.1 == i + 1 && #[trigger] scan::shows(text::lines(files[k].content)[i], signal) && (forall|j: int|
                    0 <= j < i ==> !scan::shows(#[trigger] text::lines(files[k].content)[j], signal)) && forall|h: int, j: int|
                    0 <= h < k && files::source((#[trigger] files[h]).path) && 0 <= j < text::lines(files[h].content).len() ==> !scan::shows(
                        #[trigger] text::lines(files[h].content)[j],
                        signal,
                    ),
            None => forall|h: int, j: int|
                0 <= h < files.len() && files::source((#[trigger] files[h]).path) && 0 <= j < text::lines(files[h].content).len() ==> !scan::shows(
                    #[trigger] text::lines(files[h].content)[j],
                    signal,
                ),
        },
{
    lemma_first_site(files, signal, 0);
}

proof fn lemma_first_site(files: Seq<FileText>, signal: Signal, from: int)
    requires
        0 <= from <= files.len(),
        forall|k: int| 0 <= k < files.len() ==> text::lines((#[trigger] files[k]).content).len() < 0xffff_ffff,
    ensures
        match scan::first_site(files, signal, from) {
            Some(at) => exists|k: int, i: int|
                from <= k < files.len() && files::source((#[trigger] files[k]).path) && 0 <= i < text::lines(files[k].content).len() && at.0
                    == files[k].path && at.1 == i + 1 && #[trigger] scan::shows(text::lines(files[k].content)[i], signal) && (forall|j: int|
                    0 <= j < i ==> !scan::shows(#[trigger] text::lines(files[k].content)[j], signal)) && forall|h: int, j: int|
                    from <= h < k && files::source((#[trigger] files[h]).path) && 0 <= j < text::lines(files[h].content).len() ==> !scan::shows(
                        #[trigger] text::lines(files[h].content)[j],
                        signal,
                    ),
            None => forall|h: int, j: int|
                from <= h < files.len() && files::source((#[trigger] files[h]).path) && 0 <= j < text::lines(files[h].content).len()
                    ==> !scan::shows(#[trigger] text::lines(files[h].content)[j], signal),
        },
    decreases files.len() - from,
{
    if from < files.len() {
        lemma_first_site(files, signal, from + 1);
        let ls = text::lines(files[from].content);
        lemma_first_line(ls, signal, 0);
        if files::source(files[from].path) && scan::first_line(ls, signal, 0) is Some {
            let i = scan::first_line(ls, signal, 0)->0;
            assert(scan::shows(text::lines(files[from].content)[i], signal));
            laws_text::law_lines_count_from_one(i);
        } else if scan::first_site(files, signal, from + 1) is Some {
            let at = scan::first_site(files, signal, from + 1)->0;
            let (k, i) = choose|k: int, i: int|
                from + 1 <= k < files.len() && files::source((#[trigger] files[k]).path) && 0 <= i < text::lines(files[k].content).len()
                    && at.0 == files[k].path && at.1 == i + 1 && #[trigger] scan::shows(text::lines(files[k].content)[i], signal) && (forall|
                    j: int,
                | 0 <= j < i ==> !scan::shows(#[trigger] text::lines(files[k].content)[j], signal)) && forall|h: int, j: int|
                    from + 1 <= h < k && files::source((#[trigger] files[h]).path) && 0 <= j < text::lines(files[h].content).len()
                        ==> !scan::shows(#[trigger] text::lines(files[h].content)[j], signal);
            assert(scan::shows(text::lines(files[k].content)[i], signal));
            assert forall|h: int, j: int|
                from <= h < k && files::source((#[trigger] files[h]).path) && 0 <= j < text::lines(files[h].content).len() implies !scan::shows(
                #[trigger] text::lines(files[h].content)[j],
                signal,
            ) by {
                if h == from {
                    assert(!scan::shows(ls[j], signal));
                }
            }
        } else {
            assert forall|h: int, j: int|
                from <= h < files.len() && files::source((#[trigger] files[h]).path) && 0 <= j < text::lines(
                    files[h].content,
                ).len() implies !scan::shows(#[trigger] text::lines(files[h].content)[j], signal) by {
                if h == from {
                    assert(!scan::shows(ls[j], signal));
                }
            }
        }
    }
}

proof fn lemma_first_line(ls: Seq<Seq<char>>, signal: Signal, i: int)
    requires
        0 <= i <= ls.len(),
    ensures
        match scan::first_line(ls, signal, i) {
            Some(n) => i <= n < ls.len() && scan::shows(ls[n], signal) && forall|j: int| i <= j < n ==> !scan::shows(#[trigger] ls[j], signal),
            None => forall|j: int| i <= j < ls.len() ==> !scan::shows(#[trigger] ls[j], signal),
        },
    decreases ls.len() - i,
{
    if i < ls.len() && !scan::shows(ls[i], signal) {
        lemma_first_line(ls, signal, i + 1);
    }
}

/// Callers are checked where a line of a source file shows it.
pub proof fn law_callers_are_checked_by_a_source(files: Seq<FileText>, k: int, i: int)
    requires
        0 <= k < files.len(),
        0 <= i < text::lines(files[k].content).len(),
        files::source(files[k].path),
        text::contains(text::lines(files[k].content)[i], "requireAuth"@) || text::contains(text::lines(files[k].content)[i], "verifyToken"@) || text::contains(text::lines(files[k].content)[i], "ensureAuth"@) || text::contains(text::lines(files[k].content)[i], "auth_required"@) || text::contains(text::lines(files[k].content)[i], "authenticate("@) || text::contains(text::lines(files[k].content)[i], "OAuth"@) || text::contains(text::lines(files[k].content)[i], "oauth"@) || text::contains(text::lines(files[k].content)[i], "passport"@) || text::contains(text::lines(files[k].content)[i], "express-jwt"@) || text::contains(text::lines(files[k].content)[i], "verifyJwt"@) || text::contains(text::lines(files[k].content)[i], "verifyJWT"@) || text::contains(text::lines(files[k].content)[i], "checkAuth"@) || text::contains(text::lines(files[k].content)[i], "bearerAuth"@) || text::contains(text::lines(files[k].content)[i], "WWW-Authenticate"@) || text::contains(text::lines(files[k].content)[i], "AuthMiddleware"@) || text::contains(text::lines(files[k].content)[i], "auth_middleware"@) || text::contains(text::lines(files[k].content)[i], "verify_token"@) || text::contains(text::lines(files[k].content)[i], "get_current_user"@) || text::contains(text::lines(files[k].content)[i], "HTTPBearer"@) || text::contains(text::lines(files[k].content)[i], "OAuth2"@) || text::contains(text::lines(files[k].content)[i], "login_required"@) || text::contains(text::lines(files[k].content)[i], "requireAuthentication"@),
    ensures
        scan::checks_callers(files),
{
    lemma_auth_indicators(text::lines(files[k].content)[i]);
    assert(text::has_marker(text::lines(files[k].content)[i], AUTH_INDICATORS@));
    assert(taint::some_line_has(text::lines(files[k].content), AUTH_INDICATORS@));
}

/// Where callers are checked, a line of a source file shows it.
pub proof fn law_checked_callers_are_seen(files: Seq<FileText>)
    requires
        scan::checks_callers(files),
    ensures
        exists|k: int, i: int|
            0 <= k < files.len() && files::source((#[trigger] files[k]).path) && 0 <= i < text::lines(files[k].content).len() && (text::contains(#[trigger] text::lines(files[k].content)[i], "requireAuth"@) || text::contains(text::lines(files[k].content)[i], "verifyToken"@) || text::contains(text::lines(files[k].content)[i], "ensureAuth"@) || text::contains(text::lines(files[k].content)[i], "auth_required"@) || text::contains(text::lines(files[k].content)[i], "authenticate("@) || text::contains(text::lines(files[k].content)[i], "OAuth"@) || text::contains(text::lines(files[k].content)[i], "oauth"@) || text::contains(text::lines(files[k].content)[i], "passport"@) || text::contains(text::lines(files[k].content)[i], "express-jwt"@) || text::contains(text::lines(files[k].content)[i], "verifyJwt"@) || text::contains(text::lines(files[k].content)[i], "verifyJWT"@) || text::contains(text::lines(files[k].content)[i], "checkAuth"@) || text::contains(text::lines(files[k].content)[i], "bearerAuth"@) || text::contains(text::lines(files[k].content)[i], "WWW-Authenticate"@) || text::contains(text::lines(files[k].content)[i], "AuthMiddleware"@) || text::contains(text::lines(files[k].content)[i], "auth_middleware"@) || text::contains(text::lines(files[k].content)[i], "verify_token"@) || text::contains(text::lines(files[k].content)[i], "get_current_user"@) || text::contains(text::lines(files[k].content)[i], "HTTPBearer"@) || text::contains(text::lines(files[k].content)[i], "OAuth2"@) || text::contains(text::lines(files[k].content)[i], "login_required"@) || text::contains(text::lines(files[k].content)[i], "requireAuthentication"@)),
{
    let k = choose|k: int|
        0 <= k < files.len() && files::source((#[trigger] files[k]).path) && taint::some_line_has(
            text::lines(files[k].content),
            AUTH_INDICATORS@,
        );
    let ls = text::lines(files[k].content);
    let i = choose|i: int| 0 <= i < ls.len() && text::has_marker(#[trigger] ls[i], AUTH_INDICATORS@);
    lemma_auth_indicators(ls[i]);
    assert(files[k].path == files[k].path);
}

/// The tools only read where a source says so by a hint, and none says that a tool writes; where
/// neither is said, it is unknown.
pub proof fn law_tools_read_only_where_said(files: Seq<FileText>)
    ensures
        scan::read_only(files) == Some(false) <==> (exists|k: int| 0 <= k < files.len() && files::source((#[trigger] files[k]).path) && (text::contains(files[k].content, "destructiveHint=True"@) || text::contains(files[k].content, "destructiveHint: true"@) || text::contains(files[k].content, "destructiveHint:true"@) || text::contains(files[k].content, "readOnlyHint=False"@) || text::contains(files[k].content, "readOnlyHint: false"@) || text::contains(files[k].content, "readOnlyHint:false"@))),
        scan::read_only(files) == Some(true) <==> !(exists|k: int| 0 <= k < files.len() && files::source((#[trigger] files[k]).path) && (text::contains(files[k].content, "destructiveHint=True"@) || text::contains(files[k].content, "destructiveHint: true"@) || text::contains(files[k].content, "destructiveHint:true"@) || text::contains(files[k].content, "readOnlyHint=False"@) || text::contains(files[k].content, "readOnlyHint: false"@) || text::contains(files[k].content, "readOnlyHint:false"@))) && (exists|k: int| 0 <= k < files.len() && files::source((#[trigger] files[k]).path) && (text::contains(files[k].content, "readOnlyHint=True"@) || text::contains(files[k].content, "readOnlyHint: true"@) || text::contains(files[k].content, "readOnlyHint:true"@))),
{
    if scan::some_source_has(files, WRITE_MARKS@) {
        let k = choose|k: int| 0 <= k < files.len() && files::source((#[trigger] files[k]).path) && text::has_marker(files[k].content, WRITE_MARKS@);
        lemma_write_marks(files[k].content);
    }
    if (exists|k: int| 0 <= k < files.len() && files::source((#[trigger] files[k]).path) && (text::contains(files[k].content, "destructiveHint=True"@) || text::contains(files[k].content, "destructiveHint: true"@) || text::contains(files[k].content, "destructiveHint:true"@) || text::contains(files[k].content, "readOnlyHint=False"@) || text::contains(files[k].content, "readOnlyHint: false"@) || text::contains(files[k].content, "readOnlyHint:false"@))) {
        let k = choose|k: int| 0 <= k < files.len() && files::source((#[trigger] files[k]).path) && (text::contains(files[k].content, "destructiveHint=True"@) || text::contains(files[k].content, "destructiveHint: true"@) || text::contains(files[k].content, "destructiveHint:true"@) || text::contains(files[k].content, "readOnlyHint=False"@) || text::contains(files[k].content, "readOnlyHint: false"@) || text::contains(files[k].content, "readOnlyHint:false"@));
        lemma_write_marks(files[k].content);
        assert(text::has_marker(files[k].content, WRITE_MARKS@));
        assert(scan::some_source_has(files, WRITE_MARKS@));
    }
    if scan::some_source_has(files, READ_ONLY_MARKS@) {
        let k = choose|k: int| 0 <= k < files.len() && files::source((#[trigger] files[k]).path) && text::has_marker(files[k].content, READ_ONLY_MARKS@);
        lemma_read_only_marks(files[k].content);
    }
    if (exists|k: int| 0 <= k < files.len() && files::source((#[trigger] files[k]).path) && (text::contains(files[k].content, "readOnlyHint=True"@) || text::contains(files[k].content, "readOnlyHint: true"@) || text::contains(files[k].content, "readOnlyHint:true"@))) {
        let k = choose|k: int| 0 <= k < files.len() && files::source((#[trigger] files[k]).path) && (text::contains(files[k].content, "readOnlyHint=True"@) || text::contains(files[k].content, "readOnlyHint: true"@) || text::contains(files[k].content, "readOnlyHint:true"@));
        lemma_read_only_marks(files[k].content);
        assert(text::has_marker(files[k].content, READ_ONLY_MARKS@));
        assert(scan::some_source_has(files, READ_ONLY_MARKS@));
    }
}

/// A repository is an MCP server where it has a `server.json`, where a dependency is an SDK, or where a
/// source names one.
#[verifier::rlimit(60)]
pub proof fn law_servers_are_recognised(files: Seq<FileText>, deps: Seq<DepFacts>)
    ensures
        scan::is_mcp(files, deps) <==> (exists|k: int| 0 <= k < files.len() && files::base((#[trigger] files[k]).path) == "server.json"@) || (
        exists|i: int| 0 <= i < deps.len() && (text::lower((#[trigger] deps[i]).name) == "mcp"@ || text::lower(deps[i].name) == "fastmcp"@ || text::contains(text::lower(deps[i].name), "modelcontextprotocol"@) || text::contains(text::lower(deps[i].name), "mcp-sdk"@))) || (exists|k: int| 0 <= k < files.len() && files::source((#[trigger] files[k]).path) && (text::contains(files[k].content, "modelcontextprotocol"@) || text::contains(files[k].content, "fastmcp"@) || text::contains(files[k].content, "FastMCP"@) || text::contains(files[k].content, "from mcp"@) || text::contains(files[k].content, "import mcp"@))),
{
    if scan::some_source_has(files, SDK_IMPORTS@) {
        let k = choose|k: int| 0 <= k < files.len() && files::source((#[trigger] files[k]).path) && text::has_marker(files[k].content, SDK_IMPORTS@);
        lemma_sdk_imports(files[k].content);
    }
    if (exists|k: int| 0 <= k < files.len() && files::source((#[trigger] files[k]).path) && (text::contains(files[k].content, "modelcontextprotocol"@) || text::contains(files[k].content, "fastmcp"@) || text::contains(files[k].content, "FastMCP"@) || text::contains(files[k].content, "from mcp"@) || text::contains(files[k].content, "import mcp"@))) {
        let k = choose|k: int| 0 <= k < files.len() && files::source((#[trigger] files[k]).path) && (text::contains(files[k].content, "modelcontextprotocol"@) || text::contains(files[k].content, "fastmcp"@) || text::contains(files[k].content, "FastMCP"@) || text::contains(files[k].content, "from mcp"@) || text::contains(files[k].content, "import mcp"@));
        lemma_sdk_imports(files[k].content);
        assert(text::has_marker(files[k].content, SDK_IMPORTS@));
        assert(scan::some_source_has(files, SDK_IMPORTS@));
    }
    assert forall|i: int| 0 <= i < deps.len() implies scan::is_sdk((#[trigger] deps[i]).name) == (text::lower(deps[i].name) == "mcp"@ || text::lower(deps[i].name) == "fastmcp"@ || text::contains(text::lower(deps[i].name), "modelcontextprotocol"@) || text::contains(text::lower(deps[i].name), "mcp-sdk"@)) by {
        lemma_sdk_names(text::lower(deps[i].name));
        lemma_sdk_name_parts(text::lower(deps[i].name));
    }
    if exists|i: int| 0 <= i < deps.len() && scan::is_sdk((#[trigger] deps[i]).name) {
        let i = choose|i: int| 0 <= i < deps.len() && scan::is_sdk((#[trigger] deps[i]).name);
        assert(text::lower(deps[i].name) == "mcp"@ || text::lower(deps[i].name) == "fastmcp"@ || text::contains(text::lower(deps[i].name), "modelcontextprotocol"@) || text::contains(text::lower(deps[i].name), "mcp-sdk"@));
    }
    if exists|i: int| 0 <= i < deps.len() && (text::lower((#[trigger] deps[i]).name) == "mcp"@ || text::lower(deps[i].name) == "fastmcp"@ || text::contains(text::lower(deps[i].name), "modelcontextprotocol"@) || text::contains(text::lower(deps[i].name), "mcp-sdk"@)) {
        let i = choose|i: int| 0 <= i < deps.len() && (text::lower((#[trigger] deps[i]).name) == "mcp"@ || text::lower(deps[i].name) == "fastmcp"@ || text::contains(text::lower(deps[i].name), "modelcontextprotocol"@) || text::contains(text::lower(deps[i].name), "mcp-sdk"@));
        assert(scan::is_sdk(deps[i].name));
    }
}

// --- manifests -------------------------------------------------------------

/// The manifests that declare dependencies, by their names; other files declare none.
pub proof fn law_manifests_declare_dependencies(f: FileText)
    ensures
        files::base(f.path) == "package.json"@ ==> manifest::declared(f) == deps::npm_deps(deps::npm_entries(f.content), f.path),
        files::base(f.path) == "pyproject.toml"@ ==> manifest::declared(f) == deps::py_deps(
            deps::pyproject_items(f.content),
            f.path,
            deps::pyproject_items(f.content).len() as int,
        ),
        files::base(f.path) == "requirements.txt"@ ==> manifest::declared(f) == deps::py_deps(
            deps::requirements_of(f.content),
            f.path,
            deps::requirements_of(f.content).len() as int,
        ),
        files::base(f.path) != "package.json"@ && files::base(f.path) != "pyproject.toml"@ && files::base(f.path) != "requirements.txt"@
            ==> manifest::declared(f).len() == 0,
{
    reveal_strlit("package.json");
    reveal_strlit("pyproject.toml");
    reveal_strlit("requirements.txt");
    assert("package.json"@.len() == 12 && "pyproject.toml"@.len() == 14 && "requirements.txt"@.len() == 16);
}

/// Every dependency that a manifest declares is listed, under its name.
pub proof fn law_declared_dependencies_are_listed(files: Seq<FileText>, k: int, i: int)
    requires
        0 <= k < files.len(),
        0 <= i < manifest::declared(files[k]).len(),
    ensures
        exists|q: int| 0 <= q < manifest::all_deps(files).len() && (#[trigger] manifest::all_deps(files)[q]).name == manifest::declared(files[k])[i].name,
{
    lemma_declared_is_listed(files, k, i, files.len() as int);
    let all = manifest::deps_of(files, files.len() as int);
    let q = choose|q: int| 0 <= q < all.len() && (#[trigger] all[q]).name == manifest::declared(files[k])[i].name;
    assert(manifest::all_deps(files)[q].name == manifest::declared(files[k])[i].name);
}

proof fn lemma_declared_is_listed(files: Seq<FileText>, k: int, i: int, n: int)
    requires
        0 <= k < n <= files.len(),
        0 <= i < manifest::declared(files[k]).len(),
    ensures
        manifest::has_dep(manifest::deps_of(files, n), manifest::declared(files[k])[i].name),
    decreases n,
{
    let before = manifest::deps_of(files, n - 1);
    let found = manifest::declared(files[n - 1]);
    let now = manifest::deps_of(files, n);
    let name = manifest::declared(files[k])[i].name;
    if k == n - 1 {
        lemma_found_is_listed(before, found, i, found.len() as int);
    } else {
        lemma_declared_is_listed(files, k, i, n - 1);
        manifest::law_known_deps_stay(before, found, found.len() as int);
        let q = choose|q: int| 0 <= q < before.len() && (#[trigger] before[q]).name == name;
        assert(now.take(before.len() as int)[q] == now[q]);
        assert(now[q].name == name);
    }
}

proof fn lemma_found_is_listed(known: Seq<DepFacts>, found: Seq<DepFacts>, i: int, n: int)
    requires
        0 <= i < n <= found.len(),
    ensures
        manifest::has_dep(manifest::with_deps(known, found, n), found[i].name),
    decreases n,
{
    let before = manifest::with_deps(known, found, n - 1);
    let now = manifest::with_deps(known, found, n);
    if i == n - 1 {
        if !manifest::has_dep(before, found[i].name) {
            assert(now[before.len() as int].name == found[i].name);
        }
    } else {
        lemma_found_is_listed(known, found, i, n - 1);
        let q = choose|q: int| 0 <= q < before.len() && (#[trigger] before[q]).name == found[i].name;
        assert(now[q].name == found[i].name);
    }
}

/// Every dependency that is listed is declared by a manifest, as it is listed, and no file before that
/// one declares one of the same name.
pub proof fn law_listed_dependencies_are_declared_first(files: Seq<FileText>, q: int)
    requires
        0 <= q < manifest::all_deps(files).len(),
    ensures
        exists|k: int, i: int|
            0 <= k < files.len() && 0 <= i < manifest::declared(#[trigger] files[k]).len() && manifest::all_deps(files)[q]
                == #[trigger] manifest::declared(files[k])[i] && forall|h: int, j: int|
                0 <= h < k && 0 <= j < manifest::declared(#[trigger] files[h]).len() ==> (#[trigger] manifest::declared(files[h])[j]).name
                    != manifest::all_deps(files)[q].name,
{
    lemma_listed_is_declared(files, files.len() as int, q);
}

proof fn lemma_listed_is_declared(files: Seq<FileText>, n: int, q: int)
    requires
        0 <= n <= files.len(),
        0 <= q < manifest::deps_of(files, n).len(),
    ensures
        exists|k: int, i: int|
            0 <= k < files.len() && 0 <= i < manifest::declared(#[trigger] files[k]).len() && manifest::deps_of(files, n)[q]
                == #[trigger] manifest::declared(files[k])[i] && forall|h: int, j: int|
                0 <= h < k && 0 <= j < manifest::declared(#[trigger] files[h]).len() ==> (#[trigger] manifest::declared(files[h])[j]).name
                    != manifest::deps_of(files, n)[q].name,
    decreases n,
{
    let before = manifest::deps_of(files, n - 1);
    let found = manifest::declared(files[n - 1]);
    let now = manifest::deps_of(files, n);
    manifest::law_known_deps_stay(before, found, found.len() as int);
    if q < before.len() {
        lemma_listed_is_declared(files, n - 1, q);
        assert(now.take(before.len() as int)[q] == now[q]);
    } else {
        lemma_new_is_found(before, found, found.len() as int, q);
        let i = choose|i: int| 0 <= i < found.len() && now[q] == #[trigger] found[i];
        assert(manifest::declared(files[n - 1])[i] == now[q]);
        assert forall|h: int, j: int| 0 <= h < n - 1 && 0 <= j < manifest::declared(#[trigger] files[h]).len() implies (
        #[trigger] manifest::declared(files[h])[j]).name != now[q].name by {
            lemma_declared_is_listed(files, h, j, n - 1);
        }
    }
}

proof fn lemma_new_is_found(known: Seq<DepFacts>, found: Seq<DepFacts>, n: int, q: int)
    requires
        0 <= n <= found.len(),
        known.len() <= q < manifest::with_deps(known, found, n).len(),
    ensures
        exists|i: int| 0 <= i < found.len() && manifest::with_deps(known, found, n)[q] == #[trigger] found[i],
        !manifest::has_dep(known, manifest::with_deps(known, found, n)[q].name),
    decreases n,
{
    if n > 0 {
        let before = manifest::with_deps(known, found, n - 1);
        if q < before.len() {
            lemma_new_is_found(known, found, n - 1, q);
            assert(manifest::with_deps(known, found, n)[q] == before[q]);
        } else {
            assert(manifest::with_deps(known, found, n)[q] == found[n - 1]);
            manifest::law_known_deps_stay(known, found, n - 1);
            if manifest::has_dep(known, found[n - 1].name) {
                let p = choose|p: int| 0 <= p < known.len() && (#[trigger] known[p]).name == found[n - 1].name;
                assert(before.take(known.len() as int)[p] == before[p]);
                assert(before[p].name == found[n - 1].name);
            }
        }
    }
}

/// The transport of a repository is what its first `server.json` says: HTTP where it lists remotes or
/// names an HTTP transport, else stdio where it names that, else unknown. Without such a file it is
/// unknown.
pub proof fn law_transports_are_declared(files: Seq<FileText>)
    ensures
        (forall|k: int| 0 <= k < files.len() ==> files::base((#[trigger] files[k]).path) != "server.json"@) ==> manifest::repo_transport(files)
            == "unknown"@,
        forall|k: int|
            0 <= k < files.len() && files::base((#[trigger] files[k]).path) == "server.json"@ && (forall|j: int|
                0 <= j < k ==> files::base((#[trigger] files[j]).path) != "server.json"@) ==> manifest::repo_transport(files) == (if manifest::lists_remotes(
                files[k].content,
            ) || text::contains(files[k].content, "streamable-http"@) || text::contains(files[k].content, "\"sse\""@) {
                "http"@
            } else if text::contains(files[k].content, "\"stdio\""@) {
                "stdio"@
            } else {
                "unknown"@
            }),
{
    lemma_first_file(files, "server.json"@, 0);
    if manifest::first_file(files, "server.json"@, 0) is Some {
        lemma_http_marks(manifest::first_file(files, "server.json"@, 0)->0.content);
    }
}

proof fn lemma_first_file(files: Seq<FileText>, name: Seq<char>, k: int)
    requires
        0 <= k <= files.len(),
    ensures
        match manifest::first_file(files, name, k) {
            Some(f) => exists|i: int|
                k <= i < files.len() && #[trigger] files[i] == f && files::base(f.path) == name && forall|j: int|
                    k <= j < i ==> files::base((#[trigger] files[j]).path) != name,
            None => forall|j: int| k <= j < files.len() ==> files::base((#[trigger] files[j]).path) != name,
        },
    decreases files.len() - k,
{
    if k < files.len() {
        if files::base(files[k].path) == name {
            assert(files[k] == files[k]);
        } else {
            lemma_first_file(files, name, k + 1);
        }
    }
}

/// A repository lists remotes where the JSON text has a list of them that is not empty.
pub proof fn law_remotes_are_listed(content: Seq<char>)
    ensures
        manifest::lists_remotes(content) <==> (json::json_text(content) matches Some(t) && json::member_of(t, "remotes"@) matches Some(
            JsonTree::List(items),
        ) && items.len() > 0),
{
}

/// The server has the first name that a `package.json` gives, and where none does, the first that a
/// `server.json` gives.
pub proof fn law_servers_are_named_by_their_manifests(files: Seq<FileText>, k: int)
    requires
        0 <= k < files.len(),
        manifest::name_in(files[k].content) is Some,
        files::base(files[k].path) == "package.json"@ || (files::base(files[k].path) == "server.json"@ && forall|j: int|
            0 <= j < files.len() && files::base((#[trigger] files[j]).path) == "package.json"@ ==> manifest::name_in(files[j].content) is None),
        forall|j: int|
            0 <= j < k && files::base((#[trigger] files[j]).path) == files::base(files[k].path) ==> manifest::name_in(files[j].content) is None,
    ensures
        manifest::repo_name(files) == manifest::name_in(files[k].content),
{
    let n = files.len() as int;
    lemma_name_of_manifest(files, files::base(files[k].path), k, n);
    if files::base(files[k].path) != "package.json"@ {
        lemma_no_name(files, "package.json"@, n);
        lemma_first_name_none(manifest::names_in(files, "package.json"@, n), 0);
    }
}

proof fn lemma_no_name(files: Seq<FileText>, manifest: Seq<char>, n: int)
    requires
        0 <= n <= files.len(),
        forall|j: int| 0 <= j < n && files::base((#[trigger] files[j]).path) == manifest ==> manifest::name_in(files[j].content) is None,
    ensures
        forall|q: int| 0 <= q < manifest::names_in(files, manifest, n).len() ==> (#[trigger] manifest::names_in(files, manifest, n)[q]) is None,
    decreases n,
{
    if n > 0 {
        lemma_no_name(files, manifest, n - 1);
        let before = manifest::names_in(files, manifest, n - 1);
        let now = manifest::names_in(files, manifest, n);
        assert forall|q: int| 0 <= q < now.len() implies (#[trigger] now[q]) is None by {
            if q < before.len() {
                assert(now[q] == before[q]);
            } else {
                assert(now[q] == manifest::name_in(files[n - 1].content));
            }
        }
    }
}

proof fn lemma_first_name_none(names: Seq<Option<Seq<char>>>, i: int)
    requires
        0 <= i <= names.len(),
        forall|q: int| i <= q < names.len() ==> (#[trigger] names[q]) is None,
    ensures
        manifest::first_name(names, i) is None,
    decreases names.len() - i,
{
    if i < names.len() {
        assert(names[i] is None);
        lemma_first_name_none(names, i + 1);
    }
}

proof fn lemma_first_name_at(names: Seq<Option<Seq<char>>>, i: int, q: int)
    requires
        0 <= i <= q < names.len(),
        names[q] is Some,
        forall|j: int| i <= j < q ==> (#[trigger] names[j]) is None,
    ensures
        manifest::first_name(names, i) == names[q],
    decreases q - i,
{
    if i < q {
        assert(names[i] is None);
        lemma_first_name_at(names, i + 1, q);
    }
}

proof fn lemma_name_of_manifest(files: Seq<FileText>, manifest: Seq<char>, k: int, n: int)
    requires
        0 <= k < n <= files.len(),
        files::base(files[k].path) == manifest,
        manifest::name_in(files[k].content) is Some,
        forall|j: int| 0 <= j < k && files::base((#[trigger] files[j]).path) == manifest ==> manifest::name_in(files[j].content) is None,
    ensures
        manifest::first_name(manifest::names_in(files, manifest, n), 0) == manifest::name_in(files[k].content),
{
    lemma_no_name(files, manifest, k);
    let before = manifest::names_in(files, manifest, k);
    let q = before.len() as int;
    lemma_names_prefix(files, manifest, k + 1, n);
    let at = manifest::names_in(files, manifest, k + 1);
    let now = manifest::names_in(files, manifest, n);
    assert(at[q] == manifest::name_in(files[k].content));
    assert forall|j: int| 0 <= j < q implies (#[trigger] now[j]) is None by {
        assert(now[j] == at[j]);
        assert(at[j] == before[j]);
    }
    assert(now[q] == at[q]);
    lemma_first_name_at(now, 0, q);
}

proof fn lemma_names_prefix(files: Seq<FileText>, manifest: Seq<char>, k: int, n: int)
    requires
        0 <= k <= n <= files.len(),
    ensures
        manifest::names_in(files, manifest, k).len() <= manifest::names_in(files, manifest, n).len(),
        forall|j: int| 0 <= j < manifest::names_in(files, manifest, k).len() ==> #[trigger] manifest::names_in(files, manifest, n)[j] == manifest::names_in(
            files,
            manifest,
            k,
        )[j],
    decreases n - k,
{
    if k < n {
        lemma_names_prefix(files, manifest, k, n - 1);
        assert forall|j: int| 0 <= j < manifest::names_in(files, manifest, k).len() implies #[trigger] manifest::names_in(files, manifest, n)[j]
            == manifest::names_in(files, manifest, k)[j] by {
            assert(manifest::names_in(files, manifest, n)[j] == manifest::names_in(files, manifest, n - 1)[j]);
        }
    }
}

} // verus!
