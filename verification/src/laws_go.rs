//! What the analysis of Go sources is for, stated over the text of a file, its registrations and the
//! lines of their bodies.
use crate::go;
use crate::laws_python;
use crate::laws_text;
use crate::literal;
use crate::literal::Language;
use crate::taint;
use crate::taint::ToolFacts;
use crate::text;
use vstd::prelude::*;

verus! {

proof fn lemma_shell(s: Seq<char>)
    ensures
        text::has_marker(s, go::SHELL@) == (text::contains(s, "exec.Command("@) || text::contains(s, "exec.CommandContext("@)),
{
    assert(go::SHELL@[0]@ == "exec.Command("@);
    assert(go::SHELL@[1]@ == "exec.CommandContext("@);
    if text::has_marker(s, go::SHELL@) {
        let k = choose|k: int| 0 <= k < go::SHELL@.len() && text::contains(s, (#[trigger] go::SHELL@[k])@);
        assert(k == 0 || k == 1);
    }
    if text::contains(s, "exec.Command("@) {
        assert(text::contains(s, go::SHELL@[0]@));
    }
    if text::contains(s, "exec.CommandContext("@) {
        assert(text::contains(s, go::SHELL@[1]@));
    }
}

proof fn lemma_ssrf(s: Seq<char>)
    ensures
        text::has_marker(s, go::SSRF@) == (text::contains(s, "http.Get("@) || text::contains(s, "http.Post("@) || text::contains(s, "http.Head("@) || text::contains(s, "http.NewRequest("@)),
{
    assert(go::SSRF@[0]@ == "http.Get("@);
    assert(go::SSRF@[1]@ == "http.Post("@);
    assert(go::SSRF@[2]@ == "http.Head("@);
    assert(go::SSRF@[3]@ == "http.NewRequest("@);
    if text::has_marker(s, go::SSRF@) {
        let k = choose|k: int| 0 <= k < go::SSRF@.len() && text::contains(s, (#[trigger] go::SSRF@[k])@);
        assert(k == 0 || k == 1 || k == 2 || k == 3);
    }
    if text::contains(s, "http.Get("@) {
        assert(text::contains(s, go::SSRF@[0]@));
    }
    if text::contains(s, "http.Post("@) {
        assert(text::contains(s, go::SSRF@[1]@));
    }
    if text::contains(s, "http.Head("@) {
        assert(text::contains(s, go::SSRF@[2]@));
    }
    if text::contains(s, "http.NewRequest("@) {
        assert(text::contains(s, go::SSRF@[3]@));
    }
}

proof fn lemma_fs(s: Seq<char>)
    ensures
        text::has_marker(s, go::FS@) == (text::contains(s, "os.ReadFile("@) || text::contains(s, "os.Open("@) || text::contains(s, "os.OpenFile("@) || text::contains(s, "os.WriteFile("@) || text::contains(s, "os.Create("@) || text::contains(s, "ioutil.ReadFile("@)),
{
    assert(go::FS@[0]@ == "os.ReadFile("@);
    assert(go::FS@[1]@ == "os.Open("@);
    assert(go::FS@[2]@ == "os.OpenFile("@);
    assert(go::FS@[3]@ == "os.WriteFile("@);
    assert(go::FS@[4]@ == "os.Create("@);
    assert(go::FS@[5]@ == "ioutil.ReadFile("@);
    if text::has_marker(s, go::FS@) {
        let k = choose|k: int| 0 <= k < go::FS@.len() && text::contains(s, (#[trigger] go::FS@[k])@);
        assert(k == 0 || k == 1 || k == 2 || k == 3 || k == 4 || k == 5);
    }
    if text::contains(s, "os.ReadFile("@) {
        assert(text::contains(s, go::FS@[0]@));
    }
    if text::contains(s, "os.Open("@) {
        assert(text::contains(s, go::FS@[1]@));
    }
    if text::contains(s, "os.OpenFile("@) {
        assert(text::contains(s, go::FS@[2]@));
    }
    if text::contains(s, "os.WriteFile("@) {
        assert(text::contains(s, go::FS@[3]@));
    }
    if text::contains(s, "os.Create("@) {
        assert(text::contains(s, go::FS@[4]@));
    }
    if text::contains(s, "ioutil.ReadFile("@) {
        assert(text::contains(s, go::FS@[5]@));
    }
}

proof fn lemma_sql(s: Seq<char>)
    ensures
        text::has_marker(s, go::SQL@) == (text::contains(s, ".Query("@) || text::contains(s, ".QueryContext("@) || text::contains(s, ".Exec("@) || text::contains(s, ".ExecContext("@) || text::contains(s, ".QueryRow("@)),
{
    assert(go::SQL@[0]@ == ".Query("@);
    assert(go::SQL@[1]@ == ".QueryContext("@);
    assert(go::SQL@[2]@ == ".Exec("@);
    assert(go::SQL@[3]@ == ".ExecContext("@);
    assert(go::SQL@[4]@ == ".QueryRow("@);
    if text::has_marker(s, go::SQL@) {
        let k = choose|k: int| 0 <= k < go::SQL@.len() && text::contains(s, (#[trigger] go::SQL@[k])@);
        assert(k == 0 || k == 1 || k == 2 || k == 3 || k == 4);
    }
    if text::contains(s, ".Query("@) {
        assert(text::contains(s, go::SQL@[0]@));
    }
    if text::contains(s, ".QueryContext("@) {
        assert(text::contains(s, go::SQL@[1]@));
    }
    if text::contains(s, ".Exec("@) {
        assert(text::contains(s, go::SQL@[2]@));
    }
    if text::contains(s, ".ExecContext("@) {
        assert(text::contains(s, go::SQL@[3]@));
    }
    if text::contains(s, ".QueryRow("@) {
        assert(text::contains(s, go::SQL@[4]@));
    }
}

proof fn lemma_string_builders(s: Seq<char>)
    ensures
        text::has_marker(s, go::STRING_BUILDERS@) == (text::contains(s, " + "@) || text::contains(s, "fmt.Sprintf"@)),
{
    assert(go::STRING_BUILDERS@[0]@ == " + "@);
    assert(go::STRING_BUILDERS@[1]@ == "fmt.Sprintf"@);
    if text::has_marker(s, go::STRING_BUILDERS@) {
        let k = choose|k: int| 0 <= k < go::STRING_BUILDERS@.len() && text::contains(s, (#[trigger] go::STRING_BUILDERS@[k])@);
        assert(k == 0 || k == 1);
    }
    if text::contains(s, " + "@) {
        assert(text::contains(s, go::STRING_BUILDERS@[0]@));
    }
    if text::contains(s, "fmt.Sprintf"@) {
        assert(text::contains(s, go::STRING_BUILDERS@[1]@));
    }
}

proof fn lemma_url_guard(s: Seq<char>)
    ensures
        text::has_marker(s, go::URL_GUARD@) == (text::contains(s, "ValidateGrafanaURL"@) || text::contains(s, "validateURL"@) || text::contains(s, "validate_url"@) || text::contains(s, "allowlist"@) || text::contains(s, "allow_list"@) || text::contains(s, "IsPrivate"@) || text::contains(s, "ParseIP"@) || text::contains(s, "isAllowedHost"@) || text::contains(s, "checkURL"@) || text::contains(s, "url.Parse"@) || text::contains(s, "net.ParseIP"@)),
{
    assert(go::URL_GUARD@[0]@ == "ValidateGrafanaURL"@);
    assert(go::URL_GUARD@[1]@ == "validateURL"@);
    assert(go::URL_GUARD@[2]@ == "validate_url"@);
    assert(go::URL_GUARD@[3]@ == "allowlist"@);
    assert(go::URL_GUARD@[4]@ == "allow_list"@);
    assert(go::URL_GUARD@[5]@ == "IsPrivate"@);
    assert(go::URL_GUARD@[6]@ == "ParseIP"@);
    assert(go::URL_GUARD@[7]@ == "isAllowedHost"@);
    assert(go::URL_GUARD@[8]@ == "checkURL"@);
    assert(go::URL_GUARD@[9]@ == "url.Parse"@);
    assert(go::URL_GUARD@[10]@ == "net.ParseIP"@);
    if text::has_marker(s, go::URL_GUARD@) {
        let k = choose|k: int| 0 <= k < go::URL_GUARD@.len() && text::contains(s, (#[trigger] go::URL_GUARD@[k])@);
        assert(k == 0 || k == 1 || k == 2 || k == 3 || k == 4 || k == 5 || k == 6 || k == 7 || k == 8 || k == 9 || k == 10);
    }
    if text::contains(s, "ValidateGrafanaURL"@) {
        assert(text::contains(s, go::URL_GUARD@[0]@));
    }
    if text::contains(s, "validateURL"@) {
        assert(text::contains(s, go::URL_GUARD@[1]@));
    }
    if text::contains(s, "validate_url"@) {
        assert(text::contains(s, go::URL_GUARD@[2]@));
    }
    if text::contains(s, "allowlist"@) {
        assert(text::contains(s, go::URL_GUARD@[3]@));
    }
    if text::contains(s, "allow_list"@) {
        assert(text::contains(s, go::URL_GUARD@[4]@));
    }
    if text::contains(s, "IsPrivate"@) {
        assert(text::contains(s, go::URL_GUARD@[5]@));
    }
    if text::contains(s, "ParseIP"@) {
        assert(text::contains(s, go::URL_GUARD@[6]@));
    }
    if text::contains(s, "isAllowedHost"@) {
        assert(text::contains(s, go::URL_GUARD@[7]@));
    }
    if text::contains(s, "checkURL"@) {
        assert(text::contains(s, go::URL_GUARD@[8]@));
    }
    if text::contains(s, "url.Parse"@) {
        assert(text::contains(s, go::URL_GUARD@[9]@));
    }
    if text::contains(s, "net.ParseIP"@) {
        assert(text::contains(s, go::URL_GUARD@[10]@));
    }
}

proof fn lemma_path_guard(s: Seq<char>)
    ensures
        text::has_marker(s, go::PATH_GUARD@) == (text::contains(s, "filepath.Clean"@) || text::contains(s, "filepath.Rel("@) || text::contains(s, "filepath.IsLocal"@) || text::contains(s, "SecureJoin"@) || text::contains(s, "strings.Contains"@) || text::contains(s, "\"..\""@)),
{
    assert(go::PATH_GUARD@[0]@ == "filepath.Clean"@);
    assert(go::PATH_GUARD@[1]@ == "filepath.Rel("@);
    assert(go::PATH_GUARD@[2]@ == "filepath.IsLocal"@);
    assert(go::PATH_GUARD@[3]@ == "SecureJoin"@);
    assert(go::PATH_GUARD@[4]@ == "strings.Contains"@);
    assert(go::PATH_GUARD@[5]@ == "\"..\""@);
    if text::has_marker(s, go::PATH_GUARD@) {
        let k = choose|k: int| 0 <= k < go::PATH_GUARD@.len() && text::contains(s, (#[trigger] go::PATH_GUARD@[k])@);
        assert(k == 0 || k == 1 || k == 2 || k == 3 || k == 4 || k == 5);
    }
    if text::contains(s, "filepath.Clean"@) {
        assert(text::contains(s, go::PATH_GUARD@[0]@));
    }
    if text::contains(s, "filepath.Rel("@) {
        assert(text::contains(s, go::PATH_GUARD@[1]@));
    }
    if text::contains(s, "filepath.IsLocal"@) {
        assert(text::contains(s, go::PATH_GUARD@[2]@));
    }
    if text::contains(s, "SecureJoin"@) {
        assert(text::contains(s, go::PATH_GUARD@[3]@));
    }
    if text::contains(s, "strings.Contains"@) {
        assert(text::contains(s, go::PATH_GUARD@[4]@));
    }
    if text::contains(s, "\"..\""@) {
        assert(text::contains(s, go::PATH_GUARD@[5]@));
    }
}

proof fn lemma_base_join(s: Seq<char>)
    ensures
        text::has_marker(s, go::BASE_JOIN@) == (text::contains(s, "baseURL"@) || text::contains(s, "baseUrl"@) || text::contains(s, "base_url"@) || text::contains(s, ".base"@) || text::contains(s, "BaseURL"@) || text::contains(s, "c.url"@)),
{
    assert(go::BASE_JOIN@[0]@ == "baseURL"@);
    assert(go::BASE_JOIN@[1]@ == "baseUrl"@);
    assert(go::BASE_JOIN@[2]@ == "base_url"@);
    assert(go::BASE_JOIN@[3]@ == ".base"@);
    assert(go::BASE_JOIN@[4]@ == "BaseURL"@);
    assert(go::BASE_JOIN@[5]@ == "c.url"@);
    if text::has_marker(s, go::BASE_JOIN@) {
        let k = choose|k: int| 0 <= k < go::BASE_JOIN@.len() && text::contains(s, (#[trigger] go::BASE_JOIN@[k])@);
        assert(k == 0 || k == 1 || k == 2 || k == 3 || k == 4 || k == 5);
    }
    if text::contains(s, "baseURL"@) {
        assert(text::contains(s, go::BASE_JOIN@[0]@));
    }
    if text::contains(s, "baseUrl"@) {
        assert(text::contains(s, go::BASE_JOIN@[1]@));
    }
    if text::contains(s, "base_url"@) {
        assert(text::contains(s, go::BASE_JOIN@[2]@));
    }
    if text::contains(s, ".base"@) {
        assert(text::contains(s, go::BASE_JOIN@[3]@));
    }
    if text::contains(s, "BaseURL"@) {
        assert(text::contains(s, go::BASE_JOIN@[4]@));
    }
    if text::contains(s, "c.url"@) {
        assert(text::contains(s, go::BASE_JOIN@[5]@));
    }
}

proof fn lemma_arg_getters(s: Seq<char>)
    ensures
        text::has_marker(s, go::ARG_GETTERS@) == (text::contains(s, "RequiredParam"@) || text::contains(s, "OptionalParam"@) || text::contains(s, "RequiredInt"@) || text::contains(s, "OptionalInt"@) || text::contains(s, "RequiredBigInt"@) || text::contains(s, "OptionalBigInt"@) || text::contains(s, "OptionalStringArrayParam"@) || text::contains(s, "OptionalNumberParam"@) || text::contains(s, "RequiredStringArrayParam"@) || text::contains(s, "OptionalBooleanParam"@) || text::contains(s, "OptionalPaginationParams"@)),
{
    assert(go::ARG_GETTERS@[0]@ == "RequiredParam"@);
    assert(go::ARG_GETTERS@[1]@ == "OptionalParam"@);
    assert(go::ARG_GETTERS@[2]@ == "RequiredInt"@);
    assert(go::ARG_GETTERS@[3]@ == "OptionalInt"@);
    assert(go::ARG_GETTERS@[4]@ == "RequiredBigInt"@);
    assert(go::ARG_GETTERS@[5]@ == "OptionalBigInt"@);
    assert(go::ARG_GETTERS@[6]@ == "OptionalStringArrayParam"@);
    assert(go::ARG_GETTERS@[7]@ == "OptionalNumberParam"@);
    assert(go::ARG_GETTERS@[8]@ == "RequiredStringArrayParam"@);
    assert(go::ARG_GETTERS@[9]@ == "OptionalBooleanParam"@);
    assert(go::ARG_GETTERS@[10]@ == "OptionalPaginationParams"@);
    if text::has_marker(s, go::ARG_GETTERS@) {
        let k = choose|k: int| 0 <= k < go::ARG_GETTERS@.len() && text::contains(s, (#[trigger] go::ARG_GETTERS@[k])@);
        assert(k == 0 || k == 1 || k == 2 || k == 3 || k == 4 || k == 5 || k == 6 || k == 7 || k == 8 || k == 9 || k == 10);
    }
    if text::contains(s, "RequiredParam"@) {
        assert(text::contains(s, go::ARG_GETTERS@[0]@));
    }
    if text::contains(s, "OptionalParam"@) {
        assert(text::contains(s, go::ARG_GETTERS@[1]@));
    }
    if text::contains(s, "RequiredInt"@) {
        assert(text::contains(s, go::ARG_GETTERS@[2]@));
    }
    if text::contains(s, "OptionalInt"@) {
        assert(text::contains(s, go::ARG_GETTERS@[3]@));
    }
    if text::contains(s, "RequiredBigInt"@) {
        assert(text::contains(s, go::ARG_GETTERS@[4]@));
    }
    if text::contains(s, "OptionalBigInt"@) {
        assert(text::contains(s, go::ARG_GETTERS@[5]@));
    }
    if text::contains(s, "OptionalStringArrayParam"@) {
        assert(text::contains(s, go::ARG_GETTERS@[6]@));
    }
    if text::contains(s, "OptionalNumberParam"@) {
        assert(text::contains(s, go::ARG_GETTERS@[7]@));
    }
    if text::contains(s, "RequiredStringArrayParam"@) {
        assert(text::contains(s, go::ARG_GETTERS@[8]@));
    }
    if text::contains(s, "OptionalBooleanParam"@) {
        assert(text::contains(s, go::ARG_GETTERS@[9]@));
    }
    if text::contains(s, "OptionalPaginationParams"@) {
        assert(text::contains(s, go::ARG_GETTERS@[10]@));
    }
}

proof fn lemma_arg_sources(s: Seq<char>)
    ensures
        text::has_marker(s, go::ARG_SOURCES@) == (text::contains(s, "args"@) || text::contains(s, "(request"@) || text::contains(s, "(req,"@) || text::contains(s, "Arguments"@)),
{
    assert(go::ARG_SOURCES@[0]@ == "args"@);
    assert(go::ARG_SOURCES@[1]@ == "(request"@);
    assert(go::ARG_SOURCES@[2]@ == "(req,"@);
    assert(go::ARG_SOURCES@[3]@ == "Arguments"@);
    if text::has_marker(s, go::ARG_SOURCES@) {
        let k = choose|k: int| 0 <= k < go::ARG_SOURCES@.len() && text::contains(s, (#[trigger] go::ARG_SOURCES@[k])@);
        assert(k == 0 || k == 1 || k == 2 || k == 3);
    }
    if text::contains(s, "args"@) {
        assert(text::contains(s, go::ARG_SOURCES@[0]@));
    }
    if text::contains(s, "(request"@) {
        assert(text::contains(s, go::ARG_SOURCES@[1]@));
    }
    if text::contains(s, "(req,"@) {
        assert(text::contains(s, go::ARG_SOURCES@[2]@));
    }
    if text::contains(s, "Arguments"@) {
        assert(text::contains(s, go::ARG_SOURCES@[3]@));
    }
}

// --- what taints a tool ----------------------------------------------------

/// A line of a body that names a local read from the arguments, as a whole word, taints the tool with
/// every sink that it holds. A field of the arguments does so too, in the handlers that get them as
/// fields. A request on a trusted base is none, and a body that checks where a URL leads, or keeps
/// paths under a root, adds no report for it.
#[verifier::rlimit(60)]
pub proof fn law_sinks_taint_the_tool(t: ToolFacts, body: Seq<char>, locals: Seq<Seq<char>>, fields: bool, j: int)
    requires
        0 <= j < text::lines(body).len(),
        (fields && text::contains(text::lines(body)[j], "args."@)) || (exists|p: int|
            0 <= p < locals.len() && text::has_word(text::lines(body)[j], #[trigger] locals[p], true)),
    ensures
        ({
            let ls = text::lines(body);
            let l = ls[j];
            let r = go::with_sinks(t, body, locals, fields);
            &&& (text::contains(l, "exec.Command("@) || text::contains(l, "exec.CommandContext("@)) ==> r.shell
            &&& (text::contains(l, "http.Get("@) || text::contains(l, "http.Post("@) || text::contains(l, "http.Head("@) || text::contains(l, "http.NewRequest("@)) && !(text::contains(l, "baseURL"@) || text::contains(l, "baseUrl"@) || text::contains(l, "base_url"@) || text::contains(l, ".base"@) || text::contains(l, "BaseURL"@) || text::contains(l, "c.url"@)) && (forall|i: int| 0 <= i < ls.len() ==> !(text::contains(#[trigger] ls[i], "ValidateGrafanaURL"@) || text::contains(ls[i], "validateURL"@) || text::contains(ls[i], "validate_url"@) || text::contains(ls[i], "allowlist"@) || text::contains(ls[i], "allow_list"@) || text::contains(ls[i], "IsPrivate"@) || text::contains(ls[i], "ParseIP"@) || text::contains(ls[i], "isAllowedHost"@) || text::contains(ls[i], "checkURL"@) || text::contains(ls[i], "url.Parse"@) || text::contains(ls[i], "net.ParseIP"@))) ==> r.ssrf
            &&& (text::contains(l, "os.ReadFile("@) || text::contains(l, "os.Open("@) || text::contains(l, "os.OpenFile("@) || text::contains(l, "os.WriteFile("@) || text::contains(l, "os.Create("@) || text::contains(l, "ioutil.ReadFile("@)) && (forall|i: int| 0 <= i < ls.len() ==> !(text::contains(#[trigger] ls[i], "filepath.Clean"@) || text::contains(ls[i], "filepath.Rel("@) || text::contains(ls[i], "filepath.IsLocal"@) || text::contains(ls[i], "SecureJoin"@) || text::contains(ls[i], "strings.Contains"@) || text::contains(ls[i], "\"..\""@))) ==> r.fs
            &&& (text::contains(l, ".Query("@) || text::contains(l, ".QueryContext("@) || text::contains(l, ".Exec("@) || text::contains(l, ".ExecContext("@) || text::contains(l, ".QueryRow("@)) && (text::contains(l, " + "@) || text::contains(l, "fmt.Sprintf"@)) ==> r.sql
        }),
{
    let ls = text::lines(body);
    let l = ls[j];
    assert(go::is_tainted(ls[j], locals, fields));
    lemma_shell(l);
    lemma_ssrf(l);
    lemma_base_join(l);
    lemma_fs(l);
    lemma_sql(l);
    lemma_string_builders(l);
    if forall|i: int| 0 <= i < ls.len() ==> !(text::contains(#[trigger] ls[i], "ValidateGrafanaURL"@) || text::contains(ls[i], "validateURL"@) || text::contains(ls[i], "validate_url"@) || text::contains(ls[i], "allowlist"@) || text::contains(ls[i], "allow_list"@) || text::contains(ls[i], "IsPrivate"@) || text::contains(ls[i], "ParseIP"@) || text::contains(ls[i], "isAllowedHost"@) || text::contains(ls[i], "checkURL"@) || text::contains(ls[i], "url.Parse"@) || text::contains(ls[i], "net.ParseIP"@)) {
        assert forall|i: int| 0 <= i < ls.len() implies !text::has_marker(#[trigger] ls[i], go::URL_GUARD@) by {
            lemma_url_guard(ls[i]);
        }
        assert(!taint::some_line_has(ls, go::URL_GUARD@));
    }
    if forall|i: int| 0 <= i < ls.len() ==> !(text::contains(#[trigger] ls[i], "filepath.Clean"@) || text::contains(ls[i], "filepath.Rel("@) || text::contains(ls[i], "filepath.IsLocal"@) || text::contains(ls[i], "SecureJoin"@) || text::contains(ls[i], "strings.Contains"@) || text::contains(ls[i], "\"..\""@)) {
        assert forall|i: int| 0 <= i < ls.len() implies !text::has_marker(#[trigger] ls[i], go::PATH_GUARD@) by {
            lemma_path_guard(ls[i]);
        }
        assert(!taint::some_line_has(ls, go::PATH_GUARD@));
    }
}

/// A body taints a tool by a line alone: where it adds a fact, one of its lines names a local or a
/// field of the arguments, and holds a sink of that kind. Nothing else of the tool is changed.
#[verifier::rlimit(60)]
pub proof fn law_taint_comes_from_a_sink(t: ToolFacts, body: Seq<char>, locals: Seq<Seq<char>>, fields: bool)
    ensures
        ({
            let ls = text::lines(body);
            let r = go::with_sinks(t, body, locals, fields);
            &&& r == (ToolFacts { ssrf: r.ssrf, shell: r.shell, fs: r.fs, sql: r.sql, ..t })
            &&& t.ssrf ==> r.ssrf
            &&& t.shell ==> r.shell
            &&& t.fs ==> r.fs
            &&& t.sql ==> r.sql
            &&& r.shell && !t.shell ==> exists|j: int|
                0 <= j < ls.len() && ((fields && text::contains(#[trigger] ls[j], "args."@)) || (exists|p: int|
                    0 <= p < locals.len() && text::has_word(ls[j], #[trigger] locals[p], true))) && (text::contains(ls[j], "exec.Command("@) || text::contains(ls[j], "exec.CommandContext("@))
            &&& r.ssrf && !t.ssrf ==> exists|j: int|
                0 <= j < ls.len() && ((fields && text::contains(#[trigger] ls[j], "args."@)) || (exists|p: int|
                    0 <= p < locals.len() && text::has_word(ls[j], #[trigger] locals[p], true))) && (text::contains(ls[j], "http.Get("@) || text::contains(ls[j], "http.Post("@) || text::contains(ls[j], "http.Head("@) || text::contains(ls[j], "http.NewRequest("@)) && !(text::contains(ls[j], "baseURL"@) || text::contains(ls[j], "baseUrl"@) || text::contains(ls[j], "base_url"@) || text::contains(ls[j], ".base"@) || text::contains(ls[j], "BaseURL"@) || text::contains(ls[j], "c.url"@))
            &&& r.ssrf && !t.ssrf ==> forall|i: int| 0 <= i < ls.len() ==> !(text::contains(#[trigger] ls[i], "ValidateGrafanaURL"@) || text::contains(ls[i], "validateURL"@) || text::contains(ls[i], "validate_url"@) || text::contains(ls[i], "allowlist"@) || text::contains(ls[i], "allow_list"@) || text::contains(ls[i], "IsPrivate"@) || text::contains(ls[i], "ParseIP"@) || text::contains(ls[i], "isAllowedHost"@) || text::contains(ls[i], "checkURL"@) || text::contains(ls[i], "url.Parse"@) || text::contains(ls[i], "net.ParseIP"@))
            &&& r.fs && !t.fs ==> exists|j: int|
                0 <= j < ls.len() && ((fields && text::contains(#[trigger] ls[j], "args."@)) || (exists|p: int|
                    0 <= p < locals.len() && text::has_word(ls[j], #[trigger] locals[p], true))) && (text::contains(ls[j], "os.ReadFile("@) || text::contains(ls[j], "os.Open("@) || text::contains(ls[j], "os.OpenFile("@) || text::contains(ls[j], "os.WriteFile("@) || text::contains(ls[j], "os.Create("@) || text::contains(ls[j], "ioutil.ReadFile("@))
            &&& r.fs && !t.fs ==> forall|i: int| 0 <= i < ls.len() ==> !(text::contains(#[trigger] ls[i], "filepath.Clean"@) || text::contains(ls[i], "filepath.Rel("@) || text::contains(ls[i], "filepath.IsLocal"@) || text::contains(ls[i], "SecureJoin"@) || text::contains(ls[i], "strings.Contains"@) || text::contains(ls[i], "\"..\""@))
            &&& r.sql && !t.sql ==> exists|j: int|
                0 <= j < ls.len() && ((fields && text::contains(#[trigger] ls[j], "args."@)) || (exists|p: int|
                    0 <= p < locals.len() && text::has_word(ls[j], #[trigger] locals[p], true))) && (text::contains(ls[j], ".Query("@) || text::contains(ls[j], ".QueryContext("@) || text::contains(ls[j], ".Exec("@) || text::contains(ls[j], ".ExecContext("@) || text::contains(ls[j], ".QueryRow("@)) && (text::contains(ls[j], " + "@) || text::contains(ls[j], "fmt.Sprintf"@))
        }),
{
    let ls = text::lines(body);
    let r = go::with_sinks(t, body, locals, fields);
    if r.shell && !t.shell {
        let j = choose|j: int| 0 <= j < ls.len() && #[trigger] go::is_tainted(ls[j], locals, fields) && text::has_marker(ls[j], go::SHELL@);
        lemma_shell(ls[j]);
        if !(fields && text::contains(ls[j], "args."@)) {
            let p = choose|p: int| 0 <= p < locals.len() && text::has_word(ls[j], #[trigger] locals[p], true);
            assert(text::has_word(ls[j], locals[p], true));
        }
    }
    if r.ssrf && !t.ssrf {
        let j = choose|j: int| 0 <= j < ls.len() && #[trigger] go::is_tainted(ls[j], locals, fields) && go::is_request(ls[j]);
        lemma_ssrf(ls[j]);
        lemma_base_join(ls[j]);
        if !(fields && text::contains(ls[j], "args."@)) {
            let p = choose|p: int| 0 <= p < locals.len() && text::has_word(ls[j], #[trigger] locals[p], true);
            assert(text::has_word(ls[j], locals[p], true));
        }
        assert forall|i: int| 0 <= i < ls.len() implies !(text::contains(#[trigger] ls[i], "ValidateGrafanaURL"@) || text::contains(ls[i], "validateURL"@) || text::contains(ls[i], "validate_url"@) || text::contains(ls[i], "allowlist"@) || text::contains(ls[i], "allow_list"@) || text::contains(ls[i], "IsPrivate"@) || text::contains(ls[i], "ParseIP"@) || text::contains(ls[i], "isAllowedHost"@) || text::contains(ls[i], "checkURL"@) || text::contains(ls[i], "url.Parse"@) || text::contains(ls[i], "net.ParseIP"@)) by {
            lemma_url_guard(ls[i]);
        }
    }
    if r.fs && !t.fs {
        let j = choose|j: int| 0 <= j < ls.len() && #[trigger] go::is_tainted(ls[j], locals, fields) && text::has_marker(ls[j], go::FS@);
        lemma_fs(ls[j]);
        if !(fields && text::contains(ls[j], "args."@)) {
            let p = choose|p: int| 0 <= p < locals.len() && text::has_word(ls[j], #[trigger] locals[p], true);
            assert(text::has_word(ls[j], locals[p], true));
        }
        assert forall|i: int| 0 <= i < ls.len() implies !(text::contains(#[trigger] ls[i], "filepath.Clean"@) || text::contains(ls[i], "filepath.Rel("@) || text::contains(ls[i], "filepath.IsLocal"@) || text::contains(ls[i], "SecureJoin"@) || text::contains(ls[i], "strings.Contains"@) || text::contains(ls[i], "\"..\""@)) by {
            lemma_path_guard(ls[i]);
        }
    }
    if r.sql && !t.sql {
        let j = choose|j: int| 0 <= j < ls.len() && #[trigger] go::is_tainted(ls[j], locals, fields) && go::is_sql_line(ls[j]);
        lemma_sql(ls[j]);
        lemma_string_builders(ls[j]);
        if !(fields && text::contains(ls[j], "args."@)) {
            let p = choose|p: int| 0 <= p < locals.len() && text::has_word(ls[j], #[trigger] locals[p], true);
            assert(text::has_word(ls[j], locals[p], true));
        }
    }
}

/// A local is read from the arguments where a line assigns it with `:=` from one of the getters, and
/// the getter reads the arguments or the request. The blank identifier and `err` are no such locals.
pub proof fn law_getters_read_arguments(
    a: Seq<char>,
    id: Seq<char>,
    b: Seq<char>,
    rest: Seq<char>,
    ls: Seq<Seq<char>>,
    k: int,
)
    requires
        text::is_blank(a),
        id.len() > 0,
        id != "_"@,
        id != "err"@,
        forall|i: int|
            0 <= i < id.len() ==> ('0' <= #[trigger] id[i] <= '9') || ('a' <= id[i] <= 'z') || ('A' <= id[i] <= 'Z')
                || id[i] == '_',
        b.len() > 0,
        b[0] == ' ' || b[0] == ',',
        forall|i: int| 0 <= i < b.len() ==> (#[trigger] b[i]) != ':' && b[i] != '=',
        rest.len() > 0,
        !text::is_space(rest.last()),
        0 <= k < ls.len(),
        ls[k] == a + (id + b + seq![':', '='] + rest),
        text::contains((id + b + seq![':', '='] + rest), "RequiredParam"@) || text::contains((id + b + seq![':', '='] + rest), "OptionalParam"@) || text::contains((id + b + seq![':', '='] + rest), "RequiredInt"@) || text::contains((id + b + seq![':', '='] + rest), "OptionalInt"@) || text::contains((id + b + seq![':', '='] + rest), "RequiredBigInt"@) || text::contains((id + b + seq![':', '='] + rest), "OptionalBigInt"@) || text::contains((id + b + seq![':', '='] + rest), "OptionalStringArrayParam"@) || text::contains((id + b + seq![':', '='] + rest), "OptionalNumberParam"@) || text::contains((id + b + seq![':', '='] + rest), "RequiredStringArrayParam"@) || text::contains((id + b + seq![':', '='] + rest), "OptionalBooleanParam"@) || text::contains((id + b + seq![':', '='] + rest), "OptionalPaginationParams"@),
        text::contains((id + b + seq![':', '='] + rest), "args"@) || text::contains((id + b + seq![':', '='] + rest), "(request"@) || text::contains((id + b + seq![':', '='] + rest), "(req,"@) || text::contains((id + b + seq![':', '='] + rest), "Arguments"@),
    ensures
        go::getter_locals(ls, ls.len() as int).contains(id),
{
    let v = id + b + seq![':', '='] + rest;
    let none = Seq::<char>::empty();
    assert(v[0] == id[0] && v.last() == rest.last());
    laws_python::lemma_trim_around(a, v, none);
    assert(a + v + none =~= a + v);
    lemma_arg_getters(v);
    lemma_arg_sources(v);
    reveal_strlit(":=");
    let n = (id + b).len() as int;
    assert(v.subrange(n, n + 2) =~= ":="@);
    assert(text::occurs_at(v, ":="@, n));
    text::lemma_find(v, ":="@, 0);
    let f = text::find(v, ":="@, 0)->0;
    assert(f == n) by {
        if f < n {
            assert(v.subrange(f, f + 2)[0] == v[f]);
            if f < id.len() {
                assert(v[f] == id[f]);
            } else {
                assert(v[f] == b[f - id.len()]);
            }
        }
    }
    let lhs = v.take(n);
    assert(lhs =~= id + b);
    text::lemma_skip_space(lhs, 0);
    assert(lhs[0] == id[0]);
    assert(text::skip_space(lhs, 0) == 0);
    assert(text::trim_start(lhs) =~= lhs);
    laws_text::law_identifiers_are_read_whole(id, b, true);
    assert(go::getter_local(ls[k]) == Some(id));
    lemma_local_is_listed(ls, k, ls.len() as int);
}

proof fn lemma_local_is_listed(ls: Seq<Seq<char>>, k: int, n: int)
    requires
        0 <= k < n <= ls.len(),
        go::getter_local(ls[k]) is Some,
    ensures
        go::getter_locals(ls, n).contains(go::getter_local(ls[k])->0),
    decreases n,
{
    let before = go::getter_locals(ls, n - 1);
    let now = go::getter_locals(ls, n);
    let id = go::getter_local(ls[k])->0;
    if k == n - 1 {
        assert(now[before.len() as int] == id);
    } else {
        lemma_local_is_listed(ls, k, n - 1);
        let q = choose|q: int| 0 <= q < before.len() && before[q] == id;
        assert(now[q] == id);
    }
}

/// A local is read from the arguments by a getter alone: some line assigns it, names a getter and
/// names the arguments or the request.
pub proof fn law_locals_come_from_getters(ls: Seq<Seq<char>>, q: int)
    requires
        0 <= q < go::getter_locals(ls, ls.len() as int).len(),
    ensures
        ({
            let id = go::getter_locals(ls, ls.len() as int)[q];
            &&& id.len() > 0 && id != "_"@ && id != "err"@
            &&& exists|k: int|
                0 <= k < ls.len() && go::getter_local(#[trigger] ls[k]) == Some(id) && text::contains(text::trim(ls[k]), ":="@) && (text::contains(text::trim(ls[k]), "RequiredParam"@) || text::contains(text::trim(ls[k]), "OptionalParam"@) || text::contains(text::trim(ls[k]), "RequiredInt"@) || text::contains(text::trim(ls[k]), "OptionalInt"@) || text::contains(text::trim(ls[k]), "RequiredBigInt"@) || text::contains(text::trim(ls[k]), "OptionalBigInt"@) || text::contains(text::trim(ls[k]), "OptionalStringArrayParam"@) || text::contains(text::trim(ls[k]), "OptionalNumberParam"@) || text::contains(text::trim(ls[k]), "RequiredStringArrayParam"@) || text::contains(text::trim(ls[k]), "OptionalBooleanParam"@) || text::contains(text::trim(ls[k]), "OptionalPaginationParams"@)) && (text::contains(text::trim(ls[k]), "args"@) || text::contains(text::trim(ls[k]), "(request"@) || text::contains(text::trim(ls[k]), "(req,"@) || text::contains(text::trim(ls[k]), "Arguments"@))
        }),
{
    lemma_local_from(ls, ls.len() as int, q);
    let id = go::getter_locals(ls, ls.len() as int)[q];
    let k = choose|k: int| 0 <= k < ls.len() && go::getter_local(#[trigger] ls[k]) == Some(id);
    lemma_arg_getters(text::trim(ls[k]));
    lemma_arg_sources(text::trim(ls[k]));
    text::lemma_find(text::trim(ls[k]), ":="@, 0);
}

proof fn lemma_local_from(ls: Seq<Seq<char>>, n: int, q: int)
    requires
        0 <= n <= ls.len(),
        0 <= q < go::getter_locals(ls, n).len(),
    ensures
        exists|k: int| 0 <= k < ls.len() && go::getter_local(#[trigger] ls[k]) == Some(go::getter_locals(ls, n)[q]),
    decreases n,
{
    let before = go::getter_locals(ls, n - 1);
    if q < before.len() {
        lemma_local_from(ls, n - 1, q);
        assert(go::getter_locals(ls, n)[q] == before[q]);
    } else {
        assert(go::getter_local(ls[n - 1]) == Some(go::getter_locals(ls, n)[q]));
    }
}

// --- registrations ---------------------------------------------------------

proof fn lemma_marker_at(s: Seq<char>, i: int)
    ensures
        taint::marker_at(s, go::TOOL_MARKERS@, i) == (text::occurs_at(s, "mcp.Tool{"@, i) || text::occurs_at(s, "MustTool("@, i)),
{
    assert(go::TOOL_MARKERS@[0]@ == "mcp.Tool{"@);
    assert(go::TOOL_MARKERS@[1]@ == "MustTool("@);
    if taint::marker_at(s, go::TOOL_MARKERS@, i) {
        let k = choose|k: int| 0 <= k < go::TOOL_MARKERS@.len() && text::occurs_at(s, (#[trigger] go::TOOL_MARKERS@[k])@, i);
        assert(k == 0 || k == 1);
    }
    if text::occurs_at(s, "mcp.Tool{"@, i) {
        assert(text::occurs_at(s, go::TOOL_MARKERS@[0]@, i));
    }
    if text::occurs_at(s, "MustTool("@, i) {
        assert(text::occurs_at(s, go::TOOL_MARKERS@[1]@, i));
    }
}

proof fn lemma_positions_hold(s: Seq<char>, from: int, i: int)
    requires
        0 <= from <= i < s.len(),
        taint::marker_at(s, go::TOOL_MARKERS@, i),
    ensures
        taint::positions(s, go::TOOL_MARKERS@, from).contains(i),
    decreases i - from,
{
    let ps = taint::positions(s, go::TOOL_MARKERS@, from);
    if from == i {
        assert(ps[0] == i);
    } else {
        lemma_positions_hold(s, from + 1, i);
        let rest = taint::positions(s, go::TOOL_MARKERS@, from + 1);
        let k = choose|k: int| 0 <= k < rest.len() && rest[k] == i;
        if taint::marker_at(s, go::TOOL_MARKERS@, from) {
            assert(ps[k + 1] == i);
        } else {
            assert(ps[k] == i);
        }
    }
}

proof fn lemma_positions_mark(s: Seq<char>, from: int, k: int)
    requires
        0 <= from <= s.len(),
        0 <= k < taint::positions(s, go::TOOL_MARKERS@, from).len(),
    ensures
        from <= taint::positions(s, go::TOOL_MARKERS@, from)[k] < s.len(),
        taint::marker_at(s, go::TOOL_MARKERS@, taint::positions(s, go::TOOL_MARKERS@, from)[k]),
    decreases s.len() - from,
{
    if from < s.len() {
        if taint::marker_at(s, go::TOOL_MARKERS@, from) {
            if k > 0 {
                lemma_positions_mark(s, from + 1, k - 1);
            }
        } else {
            lemma_positions_mark(s, from + 1, k);
        }
    }
}

/// Every registration gives a tool: a composite literal from its marker up to the next registration
/// names a tool in the literal after `Name:`, and a call of `MustTool` in its first literal.
pub proof fn law_registrations_are_tools(s: Seq<char>, i: int, e: int, name: Seq<char>)
    requires
        0 <= i < e <= s.len(),
        text::occurs_at(s, "mcp.Tool{"@, i) || text::occurs_at(s, "MustTool("@, i),
        forall|j: int| i < j < e ==> !(#[trigger] text::occurs_at(s, "mcp.Tool{"@, j)),
        forall|j: int| i < j < e ==> !(#[trigger] text::occurs_at(s, "MustTool("@, j)),
        e == s.len() || (text::occurs_at(s, "mcp.Tool{"@, e) || text::occurs_at(s, "MustTool("@, e)),
        text::starts_with(s.subrange(i, e), "MustTool("@) ==> go::literal_from(s.subrange(i, e), 9) == Some(name),
        !text::starts_with(s.subrange(i, e), "MustTool("@) ==> (text::find(s.subrange(i, e), "Name:"@, 0) matches Some(p)
            && go::literal_from(s.subrange(i, e), p + 5) == Some(name)),
    ensures
        taint::has_tool(go::file_analysis(s).tools, name),
{
    lemma_marker_at(s, i);
    lemma_marker_at(s, e);
    taint::lemma_positions(s, go::TOOL_MARKERS@, 0);
    lemma_positions_hold(s, 0, i);
    let ps = taint::positions(s, go::TOOL_MARKERS@, 0);
    let k = choose|k: int| 0 <= k < ps.len() && ps[k] == i;
    assert(taint::region_end(s, ps, k) == e) by {
        if k + 1 < ps.len() {
            let n = ps[k + 1];
            lemma_marker_at(s, n);
            assert(n > i);
            lemma_positions_mark(s, 0, k + 1);
            assert(taint::marker_at(s, go::TOOL_MARKERS@, n));
            if n < e {
                assert(!(text::occurs_at(s, "mcp.Tool{"@, n) || text::occurs_at(s, "MustTool("@, n)));
            }
            if n > e {
                lemma_positions_hold(s, 0, e);
                let q = choose|q: int| 0 <= q < ps.len() && ps[q] == e;
                assert(k < q < k + 1);
            }
        } else if e < s.len() {
            lemma_positions_hold(s, 0, e);
            let q = choose|q: int| 0 <= q < ps.len() && ps[q] == e;
            assert(q > k);
        }
    }
    reveal_strlit("MustTool(");
    reveal_strlit("Name:");
    assert(go::name_of(s, i, e) == Some(name));
    lemma_named_is_listed(s, ps, k, ps.len() as int);
}

proof fn lemma_named_is_listed(s: Seq<char>, ps: Seq<int>, k: int, n: int)
    requires
        0 <= k < n <= ps.len(),
        go::name_of(s, ps[k], taint::region_end(s, ps, k)) is Some,
    ensures
        taint::has_tool(go::registered_tools(s, ps, n), go::name_of(s, ps[k], taint::region_end(s, ps, k))->0),
    decreases n,
{
    let name = go::name_of(s, ps[k], taint::region_end(s, ps, k))->0;
    let before = go::registered_tools(s, ps, n - 1);
    let now = go::registered_tools(s, ps, n);
    if k == n - 1 {
        if !taint::has_tool(before, name) {
            assert(now[before.len() as int].name == name);
        }
    } else {
        lemma_named_is_listed(s, ps, k, n - 1);
        let q = choose|q: int| 0 <= q < before.len() && (#[trigger] before[q]).name == name;
        assert(now[q].name == name);
    }
}

/// What the record of a tool says: its name, the line of its registration, and whether invisible
/// characters stand in it. The sinks of a composite literal are looked for in the literal, with the
/// locals that its lines read from the arguments; those of `MustTool` in the body of its handler, with
/// the fields of the arguments.
pub proof fn law_records_of_registrations(s: Seq<char>, start: int, end: int, name: Seq<char>)
    requires
        0 <= start < end <= s.len(),
        text::starts_with(s.subrange(start, end), "MustTool("@) || text::starts_with(s.subrange(start, end), "mcp.Tool{"@),
    ensures
        ({
            let region = s.subrange(start, end);
            let t = go::tool_of(s, start, end, name);
            let plain = ToolFacts {
                name,
                params: t.params,
                file: Seq::empty(),
                line: text::line_number(taint::newlines(s, start)),
                shell: false,
                ssrf: false,
                fs: false,
                sql: false,
                redos: false,
                deser: false,
                unbounded_limit: false,
                desc_hidden_unicode: exists|i: int|
                    0 <= i < region.len() && (('\u{200b}' <= #[trigger] region[i] <= '\u{200f}') || ('\u{202a}' <= region[i]
                        <= '\u{202e}') || region[i] == '\u{2060}' || ('\u{2066}' <= region[i] <= '\u{2069}') || region[i]
                        == '\u{feff}'),
            };
            &&& text::starts_with(region, "mcp.Tool{"@) ==> t.params == go::declared_props(region) && t == go::with_sinks(
                plain,
                region,
                go::getter_locals(text::lines(region), text::lines(region).len() as int),
                false,
            )
            &&& text::starts_with(region, "MustTool("@) ==> t.params.len() == 0 && match go::third_arg(region) {
                Some(h) => match go::body_of(s, h) {
                    Some(body) => t == go::with_sinks(plain, body, Seq::empty(), true),
                    None => t == plain,
                },
                None => t == plain,
            }
        }),
{
    let region = s.subrange(start, end);
    reveal_strlit("MustTool(");
    reveal_strlit("mcp.Tool{");
    if text::starts_with(region, "mcp.Tool{"@) {
        assert(region.subrange(0, 9)[0] == region[0]);
        assert(!text::starts_with(region, "MustTool("@)) by {
            if text::starts_with(region, "MustTool("@) {
                assert(region.subrange(0, 9)[0] == 'M');
            }
        }
    }
    if taint::has_zero_width(region) {
        let i = choose|i: int| 0 <= i < region.len() && taint::zero_width(#[trigger] region[i]);
        assert(taint::zero_width(region[i]));
    }
    if exists|i: int| 0 <= i < region.len() && taint::zero_width(#[trigger] region[i]) {
        assert(taint::has_zero_width(region));
    }
}

/// The literal that names a tool is the first one in double quotes or backquotes. It is no name where it
/// is empty or longer than 80 bytes.
pub proof fn law_names_are_literals(a: Seq<char>, q: char, v: Seq<char>, rest: Seq<char>, from: int)
    requires
        q == '"' || q == '`',
        0 <= from <= a.len(),
        forall|i: int| from <= i < a.len() ==> (#[trigger] a[i]) != '"' && a[i] != '`',
        forall|i: int| 0 <= i < v.len() ==> #[trigger] v[i] != q,
    ensures
        go::literal_from(a + seq![q] + v + seq![q] + rest, from) == (if v.len() > 0 && text::byte_len(v) <= 80 {
            Some(v)
        } else {
            None
        }),
{
    let s = a + seq![q] + v + seq![q] + rest;
    let n = a.len() as int;
    let e = n + 1 + v.len();
    reveal_strlit("\"`");
    let set = "\"`"@;
    assert(set =~= seq!['"', '`']);
    assert(set[0] == '"' && set[1] == '`');
    assert(s[n] == q && s[e] == q);
    assert(set.contains(q));
    text::lemma_find_one_of(s, set, from);
    assert forall|i: int| from <= i < n implies !set.contains(#[trigger] s[i]) by {
        assert(s[i] == a[i]);
    }
    assert(text::find_one_of(s, set, from) == n);
    text::lemma_find_char(s, q, n + 1);
    assert forall|i: int| n + 1 <= i < e implies s[i] != q by {
        assert(s[i] == v[i - n - 1]);
    }
    assert(text::find_char(s, q, n + 1) == e);
    assert(s.subrange(n + 1, e) =~= v);
}

/// The handler of a call is its third argument, here of three arguments without brackets or literals.
#[verifier::rlimit(60)]
pub proof fn law_the_handler_is_the_third_argument(
    m: Seq<char>,
    head: Seq<char>,
    a: Seq<char>,
    b: Seq<char>,
    gap: Seq<char>,
    h: Seq<char>,
    rest: Seq<char>,
    region: Seq<char>,
)
    requires
        m == literal::masked(region, Language::Go),
        m == head + seq!['('] + a + seq![','] + b + seq![','] + (gap + h) + rest,
        forall|i: int| 0 <= i < head.len() ==> #[trigger] head[i] != '(',
        is_flat_arg(a),
        is_flat_arg(b),
        text::is_blank(gap),
        h.len() > 0,
        forall|i: int|
            0 <= i < h.len() ==> ('0' <= #[trigger] h[i] <= '9') || ('a' <= h[i] <= 'z') || ('A' <= h[i] <= 'Z') || h[i] == '_',
        rest.len() > 0,
        rest[0] == ')' || rest[0] == ',',
    ensures
        go::third_arg(region) == Some(h),
{
    let n = head.len() as int;
    assert(m[n] == '(');
    text::lemma_find_char(m, '(', 0);
    assert forall|i: int| 0 <= i < n implies m[i] != '(' by {
        assert(m[i] == head[i]);
    }
    assert(text::find_char(m, '(', 0) == n);
    let p = n + 1 + a.len();
    let q = p + 1 + b.len();
    let g = gap + h;
    let r = q + 1 + g.len();
    assert(m[p] == ',' && m[q] == ',' && m[r] == rest[0]);
    assert forall|i: int| n + 1 <= i < p implies m[i] == a[i - n - 1] by {}
    assert forall|i: int| p + 1 <= i < q implies m[i] == b[i - p - 1] by {}
    assert forall|i: int| q + 1 <= i < r implies m[i] == g[i - q - 1] by {}
    lemma_flat_arg(m, n + 1, p);
    lemma_flat_arg(m, p + 1, q);
    assert forall|i: int| q + 1 <= i < r implies (#[trigger] m[i]) != '(' && m[i] != ')' && m[i] != '[' && m[i] != '{' && m[i]
        != ',' by {
        let k = i - q - 1;
        if k < gap.len() {
            assert(g[k] == gap[k]);
        } else {
            assert(g[k] == h[k - gap.len()]);
        }
    }
    lemma_flat_arg(m, q + 1, r);
    assert(m.subrange(q + 1, r) =~= g);
    reveal_with_fuel(go::call_arg, 4);
    let none = Seq::<char>::empty();
    laws_python::lemma_trim_around(gap, h, none);
    assert(gap + h + none =~= g);
    laws_text::law_identifiers_are_read_whole(h, none, true);
    assert(h + none =~= h);
}

/// An argument without brackets and commas.
pub open spec fn is_flat_arg(a: Seq<char>) -> bool {
    forall|i: int|
        0 <= i < a.len() ==> (#[trigger] a[i]) != '(' && a[i] != ')' && a[i] != '[' && a[i] != ']' && a[i] != '{' && a[i] != '}'
            && a[i] != ','
}

proof fn lemma_flat_arg(m: Seq<char>, i: int, e: int)
    requires
        0 <= i <= e < m.len(),
        m[e] == ',' || m[e] == ')',
        forall|k: int| i <= k < e ==> (#[trigger] m[k]) != '(' && m[k] != ')' && m[k] != '[' && m[k] != '{' && m[k] != ',',
    ensures
        go::arg_end(m, i, 0) == Some(e),
    decreases e - i,
{
    if i < e {
        lemma_flat_arg(m, i + 1, e);
    }
}

/// A declared parameter is a quoted key: a colon follows it, and it is neither empty nor longer than 64
/// bytes.
pub proof fn law_parameters_are_declared_by_keys(s: Seq<char>, i: int, end: int, gap: Seq<char>, rest: Seq<char>)
    requires
        0 <= i < end < s.len(),
        text::is_blank(gap),
        rest.len() > 0,
        !text::is_space(rest[0]),
        s.skip(end + 1) == gap + rest,
    ensures
        go::is_key(s, i, end) <==> rest[0] == ':' && end > i + 1 && text::byte_len(s.subrange(i + 1, end)) <= 64,
{
    reveal_strlit(":");
    let t = gap + rest;
    let n = gap.len() as int;
    text::lemma_skip_space(t, 0);
    let k = text::skip_space(t, 0);
    assert(t[n] == rest[0]);
    if k < n {
        assert(t[k] == gap[k]);
    }
    assert(t.skip(n) =~= rest);
    assert(text::trim_start(t) == rest);
    if rest[0] == ':' {
        assert(rest.subrange(0, 1) =~= ":"@);
    }
    if text::starts_with(rest, ":"@) {
        assert(rest.subrange(0, 1)[0] == rest[0]);
    }
}

/// The body of a function reaches from the brace after its signature to the brace that closes it. Here
/// a parenthesis closes the signature, and the body has no braces of its own.
pub proof fn law_bodies_stand_in_their_braces(
    content: Seq<char>,
    m: Seq<char>,
    name: Seq<char>,
    p: int,
    q: int,
    c: int,
    head: Seq<char>,
    gap: Seq<char>,
)
    requires
        m == literal::masked(content, Language::Go),
        text::find(m, "func "@ + name + "("@, 0) == Some(p),
        p + 5 + name.len() <= q < c < m.len(),
        m[q] == '{',
        m[c] == '}',
        forall|k: int| p + 5 + name.len() <= k < q ==> #[trigger] m[k] != '{',
        forall|k: int| q < k < c ==> (#[trigger] m[k]) != '{' && m[k] != '}',
        m.take(q) == head + seq![')'] + gap,
        text::is_blank(gap),
    ensures
        go::body_of(content, name) == Some(content.subrange(q, c + 1)),
{
    reveal_strlit("func ");
    let sig = "func "@ + name;
    text::lemma_find(m, sig + "("@, 0);
    let from = p + sig.len();
    let t = head + seq![')'];
    let b = t + gap;
    text::lemma_skip_space_back(b, b.len() as int);
    let e = text::skip_space_back(b, b.len() as int);
    assert(b[t.len() - 1] == ')');
    if e > t.len() {
        assert(b[e - 1] == gap[e - 1 - t.len()]);
    }
    assert(b.take(t.len() as int) =~= t);
    assert(text::trim_end(m.take(q)) == t);
    assert(t.last() == ')');
    assert(text::ident_start(t, t.len() as int, true) == t.len());
    assert(text::ident_suffix(t, true).len() == 0);
    assert(!go::after_type_word(m, q)) by {
        if go::after_type_word(m, q) {
            let k = choose|k: int|
                0 <= k < go::BRACED_TYPES@.len() && text::ident_suffix(t, true) == (#[trigger] go::BRACED_TYPES@[k])@;
            reveal_strlit("interface");
            reveal_strlit("struct");
            assert(go::BRACED_TYPES@[0]@ == "interface"@ && go::BRACED_TYPES@[1]@ == "struct"@);
            assert(k == 0 || k == 1);
        }
    }
    lemma_brace_is(m, from, q);
    lemma_block_closes(m, q + 1, c);
    assert(go::brace_end(m, q, 0) == c);
}

proof fn lemma_brace_is(m: Seq<char>, i: int, q: int)
    requires
        0 <= i <= q < m.len(),
        m[q] == '{',
        !go::after_type_word(m, q),
        forall|k: int| i <= k < q ==> #[trigger] m[k] != '{',
    ensures
        go::value_brace(m, i) == Some(q),
    decreases q - i,
{
    if i < q {
        lemma_brace_is(m, i + 1, q);
    }
}

proof fn lemma_block_closes(m: Seq<char>, i: int, c: int)
    requires
        0 <= i <= c < m.len(),
        m[c] == '}',
        forall|k: int| i <= k < c ==> (#[trigger] m[k]) != '{' && m[k] != '}',
    ensures
        go::brace_end(m, i, 1) == c,
    decreases c - i,
{
    if i < c {
        lemma_block_closes(m, i + 1, c);
    }
}

/// An argument ends at the first comma or closing parenthesis that stands outside the brackets opened in
/// it.
pub proof fn law_arguments_end_outside_brackets(s: Seq<char>, i: int, e: int)
    requires
        0 <= i <= e < s.len(),
        s[e] == ',' || s[e] == ')',
        taint::depth_at(s, e) == taint::depth_at(s, i),
        forall|k: int|
            i <= k < e ==> taint::depth_at(s, k) >= taint::depth_at(s, i) && (taint::depth_at(s, k) == taint::depth_at(s, i) ==> (#[trigger] s[k]) != ','
                && taint::bracket(s[k]) >= 0),
    ensures
        go::arg_end(s, i, 0) == Some(e),
{
    lemma_arg_goes_on(s, i, i, e);
}

proof fn lemma_arg_goes_on(s: Seq<char>, i: int, k: int, e: int)
    requires
        0 <= i <= k <= e < s.len(),
        s[e] == ',' || s[e] == ')',
        taint::depth_at(s, e) == taint::depth_at(s, i),
        forall|j: int|
            i <= j < e ==> taint::depth_at(s, j) >= taint::depth_at(s, i) && (taint::depth_at(s, j) == taint::depth_at(s, i) ==> (#[trigger] s[j]) != ','
                && taint::bracket(s[j]) >= 0),
    ensures
        go::arg_end(s, k, taint::depth_at(s, k) - taint::depth_at(s, i)) == Some(e),
    decreases e - k,
{
    if k < e {
        lemma_arg_goes_on(s, i, k + 1, e);
        assert(s[k] == s[k]);
        assert(taint::depth_at(s, k + 1) == taint::depth_at(s, k) + taint::bracket(s[k]));
    }
}

} // verus!
