//! What the analysis of JavaScript and TypeScript sources is for, stated over the text of a file, its
//! registrations and their lines.
use crate::js;
use crate::laws_python;
use crate::laws_text;
use crate::taint;
use crate::taint::{EXFIL_HOSTS, SECRET_WORDS, ToolFacts};
use crate::text;
use vstd::prelude::*;

verus! {

proof fn lemma_shell(s: Seq<char>)
    ensures
        text::has_marker(s, js::SHELL@) == (text::contains(s, "child_process"@) || text::contains(s, "execSync("@) || text::contains(s, "execFileSync("@) || text::contains(s, "execFile("@) || text::contains(s, "spawnSync("@) || text::contains(s, "spawn("@) || text::contains(s, "eval("@) || text::contains(s, "new Function("@)),
{
    assert(js::SHELL@[0]@ == "child_process"@);
    assert(js::SHELL@[1]@ == "execSync("@);
    assert(js::SHELL@[2]@ == "execFileSync("@);
    assert(js::SHELL@[3]@ == "execFile("@);
    assert(js::SHELL@[4]@ == "spawnSync("@);
    assert(js::SHELL@[5]@ == "spawn("@);
    assert(js::SHELL@[6]@ == "eval("@);
    assert(js::SHELL@[7]@ == "new Function("@);
    if text::has_marker(s, js::SHELL@) {
        let k = choose|k: int| 0 <= k < js::SHELL@.len() && text::contains(s, (#[trigger] js::SHELL@[k])@);
        assert(k == 0 || k == 1 || k == 2 || k == 3 || k == 4 || k == 5 || k == 6 || k == 7);
    }
    if text::contains(s, "child_process"@) {
        assert(text::contains(s, js::SHELL@[0]@));
    }
    if text::contains(s, "execSync("@) {
        assert(text::contains(s, js::SHELL@[1]@));
    }
    if text::contains(s, "execFileSync("@) {
        assert(text::contains(s, js::SHELL@[2]@));
    }
    if text::contains(s, "execFile("@) {
        assert(text::contains(s, js::SHELL@[3]@));
    }
    if text::contains(s, "spawnSync("@) {
        assert(text::contains(s, js::SHELL@[4]@));
    }
    if text::contains(s, "spawn("@) {
        assert(text::contains(s, js::SHELL@[5]@));
    }
    if text::contains(s, "eval("@) {
        assert(text::contains(s, js::SHELL@[6]@));
    }
    if text::contains(s, "new Function("@) {
        assert(text::contains(s, js::SHELL@[7]@));
    }
}

proof fn lemma_ssrf(s: Seq<char>)
    ensures
        text::has_marker(s, js::SSRF@) == (text::contains(s, "fetch("@) || text::contains(s, "axios.get("@) || text::contains(s, "axios.post("@) || text::contains(s, "axios.put("@) || text::contains(s, "axios.request("@) || text::contains(s, "axios("@) || text::contains(s, "got("@) || text::contains(s, "needle("@) || text::contains(s, "http.get("@) || text::contains(s, "https.get("@) || text::contains(s, "http.request("@) || text::contains(s, "https.request("@)),
{
    assert(js::SSRF@[0]@ == "fetch("@);
    assert(js::SSRF@[1]@ == "axios.get("@);
    assert(js::SSRF@[2]@ == "axios.post("@);
    assert(js::SSRF@[3]@ == "axios.put("@);
    assert(js::SSRF@[4]@ == "axios.request("@);
    assert(js::SSRF@[5]@ == "axios("@);
    assert(js::SSRF@[6]@ == "got("@);
    assert(js::SSRF@[7]@ == "needle("@);
    assert(js::SSRF@[8]@ == "http.get("@);
    assert(js::SSRF@[9]@ == "https.get("@);
    assert(js::SSRF@[10]@ == "http.request("@);
    assert(js::SSRF@[11]@ == "https.request("@);
    if text::has_marker(s, js::SSRF@) {
        let k = choose|k: int| 0 <= k < js::SSRF@.len() && text::contains(s, (#[trigger] js::SSRF@[k])@);
        assert(k == 0 || k == 1 || k == 2 || k == 3 || k == 4 || k == 5 || k == 6 || k == 7 || k == 8 || k == 9 || k == 10 || k == 11);
    }
    if text::contains(s, "fetch("@) {
        assert(text::contains(s, js::SSRF@[0]@));
    }
    if text::contains(s, "axios.get("@) {
        assert(text::contains(s, js::SSRF@[1]@));
    }
    if text::contains(s, "axios.post("@) {
        assert(text::contains(s, js::SSRF@[2]@));
    }
    if text::contains(s, "axios.put("@) {
        assert(text::contains(s, js::SSRF@[3]@));
    }
    if text::contains(s, "axios.request("@) {
        assert(text::contains(s, js::SSRF@[4]@));
    }
    if text::contains(s, "axios("@) {
        assert(text::contains(s, js::SSRF@[5]@));
    }
    if text::contains(s, "got("@) {
        assert(text::contains(s, js::SSRF@[6]@));
    }
    if text::contains(s, "needle("@) {
        assert(text::contains(s, js::SSRF@[7]@));
    }
    if text::contains(s, "http.get("@) {
        assert(text::contains(s, js::SSRF@[8]@));
    }
    if text::contains(s, "https.get("@) {
        assert(text::contains(s, js::SSRF@[9]@));
    }
    if text::contains(s, "http.request("@) {
        assert(text::contains(s, js::SSRF@[10]@));
    }
    if text::contains(s, "https.request("@) {
        assert(text::contains(s, js::SSRF@[11]@));
    }
}

proof fn lemma_fs(s: Seq<char>)
    ensures
        text::has_marker(s, js::FS@) == (text::contains(s, "fs.readFile"@) || text::contains(s, "fs.writeFile"@) || text::contains(s, "fs.readdir"@) || text::contains(s, "fs.unlink"@) || text::contains(s, "fs.createReadStream"@) || text::contains(s, "readFileSync("@) || text::contains(s, "writeFileSync("@) || text::contains(s, "path.join("@) || text::contains(s, "path.resolve("@)),
{
    assert(js::FS@[0]@ == "fs.readFile"@);
    assert(js::FS@[1]@ == "fs.writeFile"@);
    assert(js::FS@[2]@ == "fs.readdir"@);
    assert(js::FS@[3]@ == "fs.unlink"@);
    assert(js::FS@[4]@ == "fs.createReadStream"@);
    assert(js::FS@[5]@ == "readFileSync("@);
    assert(js::FS@[6]@ == "writeFileSync("@);
    assert(js::FS@[7]@ == "path.join("@);
    assert(js::FS@[8]@ == "path.resolve("@);
    if text::has_marker(s, js::FS@) {
        let k = choose|k: int| 0 <= k < js::FS@.len() && text::contains(s, (#[trigger] js::FS@[k])@);
        assert(k == 0 || k == 1 || k == 2 || k == 3 || k == 4 || k == 5 || k == 6 || k == 7 || k == 8);
    }
    if text::contains(s, "fs.readFile"@) {
        assert(text::contains(s, js::FS@[0]@));
    }
    if text::contains(s, "fs.writeFile"@) {
        assert(text::contains(s, js::FS@[1]@));
    }
    if text::contains(s, "fs.readdir"@) {
        assert(text::contains(s, js::FS@[2]@));
    }
    if text::contains(s, "fs.unlink"@) {
        assert(text::contains(s, js::FS@[3]@));
    }
    if text::contains(s, "fs.createReadStream"@) {
        assert(text::contains(s, js::FS@[4]@));
    }
    if text::contains(s, "readFileSync("@) {
        assert(text::contains(s, js::FS@[5]@));
    }
    if text::contains(s, "writeFileSync("@) {
        assert(text::contains(s, js::FS@[6]@));
    }
    if text::contains(s, "path.join("@) {
        assert(text::contains(s, js::FS@[7]@));
    }
    if text::contains(s, "path.resolve("@) {
        assert(text::contains(s, js::FS@[8]@));
    }
}

proof fn lemma_sql(s: Seq<char>)
    ensures
        text::has_marker(s, js::SQL@) == (text::contains(s, ".query("@) || text::contains(s, ".execute("@) || text::contains(s, ".raw("@)),
{
    assert(js::SQL@[0]@ == ".query("@);
    assert(js::SQL@[1]@ == ".execute("@);
    assert(js::SQL@[2]@ == ".raw("@);
    if text::has_marker(s, js::SQL@) {
        let k = choose|k: int| 0 <= k < js::SQL@.len() && text::contains(s, (#[trigger] js::SQL@[k])@);
        assert(k == 0 || k == 1 || k == 2);
    }
    if text::contains(s, ".query("@) {
        assert(text::contains(s, js::SQL@[0]@));
    }
    if text::contains(s, ".execute("@) {
        assert(text::contains(s, js::SQL@[1]@));
    }
    if text::contains(s, ".raw("@) {
        assert(text::contains(s, js::SQL@[2]@));
    }
}

proof fn lemma_redos(s: Seq<char>)
    ensures
        text::has_marker(s, js::REDOS@) == (text::contains(s, "new RegExp("@)),
{
    assert(js::REDOS@[0]@ == "new RegExp("@);
    if text::has_marker(s, js::REDOS@) {
        let k = choose|k: int| 0 <= k < js::REDOS@.len() && text::contains(s, (#[trigger] js::REDOS@[k])@);
        assert(k == 0);
    }
    if text::contains(s, "new RegExp("@) {
        assert(text::contains(s, js::REDOS@[0]@));
    }
}

proof fn lemma_egress(s: Seq<char>)
    ensures
        text::has_marker(s, js::EGRESS@) == (text::contains(s, "fetch("@) || text::contains(s, "axios.post("@) || text::contains(s, "axios.get("@) || text::contains(s, "axios("@) || text::contains(s, "got("@) || text::contains(s, "http.request("@) || text::contains(s, "https.request("@) || text::contains(s, ".send("@)),
{
    assert(js::EGRESS@[0]@ == "fetch("@);
    assert(js::EGRESS@[1]@ == "axios.post("@);
    assert(js::EGRESS@[2]@ == "axios.get("@);
    assert(js::EGRESS@[3]@ == "axios("@);
    assert(js::EGRESS@[4]@ == "got("@);
    assert(js::EGRESS@[5]@ == "http.request("@);
    assert(js::EGRESS@[6]@ == "https.request("@);
    assert(js::EGRESS@[7]@ == ".send("@);
    if text::has_marker(s, js::EGRESS@) {
        let k = choose|k: int| 0 <= k < js::EGRESS@.len() && text::contains(s, (#[trigger] js::EGRESS@[k])@);
        assert(k == 0 || k == 1 || k == 2 || k == 3 || k == 4 || k == 5 || k == 6 || k == 7);
    }
    if text::contains(s, "fetch("@) {
        assert(text::contains(s, js::EGRESS@[0]@));
    }
    if text::contains(s, "axios.post("@) {
        assert(text::contains(s, js::EGRESS@[1]@));
    }
    if text::contains(s, "axios.get("@) {
        assert(text::contains(s, js::EGRESS@[2]@));
    }
    if text::contains(s, "axios("@) {
        assert(text::contains(s, js::EGRESS@[3]@));
    }
    if text::contains(s, "got("@) {
        assert(text::contains(s, js::EGRESS@[4]@));
    }
    if text::contains(s, "http.request("@) {
        assert(text::contains(s, js::EGRESS@[5]@));
    }
    if text::contains(s, "https.request("@) {
        assert(text::contains(s, js::EGRESS@[6]@));
    }
    if text::contains(s, ".send("@) {
        assert(text::contains(s, js::EGRESS@[7]@));
    }
}

proof fn lemma_string_builders(s: Seq<char>)
    ensures
        text::has_marker(s, js::STRING_BUILDERS@) == (text::contains(s, "`"@) || text::contains(s, "\" +"@) || text::contains(s, "' +"@) || text::contains(s, "+ \""@) || text::contains(s, "+ '"@) || text::contains(s, ".concat("@)),
{
    assert(js::STRING_BUILDERS@[0]@ == "`"@);
    assert(js::STRING_BUILDERS@[1]@ == "\" +"@);
    assert(js::STRING_BUILDERS@[2]@ == "' +"@);
    assert(js::STRING_BUILDERS@[3]@ == "+ \""@);
    assert(js::STRING_BUILDERS@[4]@ == "+ '"@);
    assert(js::STRING_BUILDERS@[5]@ == ".concat("@);
    if text::has_marker(s, js::STRING_BUILDERS@) {
        let k = choose|k: int| 0 <= k < js::STRING_BUILDERS@.len() && text::contains(s, (#[trigger] js::STRING_BUILDERS@[k])@);
        assert(k == 0 || k == 1 || k == 2 || k == 3 || k == 4 || k == 5);
    }
    if text::contains(s, "`"@) {
        assert(text::contains(s, js::STRING_BUILDERS@[0]@));
    }
    if text::contains(s, "\" +"@) {
        assert(text::contains(s, js::STRING_BUILDERS@[1]@));
    }
    if text::contains(s, "' +"@) {
        assert(text::contains(s, js::STRING_BUILDERS@[2]@));
    }
    if text::contains(s, "+ \""@) {
        assert(text::contains(s, js::STRING_BUILDERS@[3]@));
    }
    if text::contains(s, "+ '"@) {
        assert(text::contains(s, js::STRING_BUILDERS@[4]@));
    }
    if text::contains(s, ".concat("@) {
        assert(text::contains(s, js::STRING_BUILDERS@[5]@));
    }
}

proof fn lemma_credential_files(s: Seq<char>)
    ensures
        text::has_marker(s, js::CREDENTIAL_FILES@) == (text::contains(s, ".aws/credentials"@) || text::contains(s, ".ssh/"@) || text::contains(s, ".npmrc"@) || text::contains(s, "id_rsa"@)),
{
    assert(js::CREDENTIAL_FILES@[0]@ == ".aws/credentials"@);
    assert(js::CREDENTIAL_FILES@[1]@ == ".ssh/"@);
    assert(js::CREDENTIAL_FILES@[2]@ == ".npmrc"@);
    assert(js::CREDENTIAL_FILES@[3]@ == "id_rsa"@);
    if text::has_marker(s, js::CREDENTIAL_FILES@) {
        let k = choose|k: int| 0 <= k < js::CREDENTIAL_FILES@.len() && text::contains(s, (#[trigger] js::CREDENTIAL_FILES@[k])@);
        assert(k == 0 || k == 1 || k == 2 || k == 3);
    }
    if text::contains(s, ".aws/credentials"@) {
        assert(text::contains(s, js::CREDENTIAL_FILES@[0]@));
    }
    if text::contains(s, ".ssh/"@) {
        assert(text::contains(s, js::CREDENTIAL_FILES@[1]@));
    }
    if text::contains(s, ".npmrc"@) {
        assert(text::contains(s, js::CREDENTIAL_FILES@[2]@));
    }
    if text::contains(s, "id_rsa"@) {
        assert(text::contains(s, js::CREDENTIAL_FILES@[3]@));
    }
}

proof fn lemma_url_guard(s: Seq<char>)
    ensures
        text::has_marker(s, js::URL_GUARD@) == (text::contains(s, "allowlist"@) || text::contains(s, "allow_list"@) || text::contains(s, "allowedHosts"@) || text::contains(s, "ALLOWED_HOSTS"@) || text::contains(s, "isPrivate"@) || text::contains(s, "validateUrl"@) || text::contains(s, "validateURL"@) || text::contains(s, "isAllowedHost"@)),
{
    assert(js::URL_GUARD@[0]@ == "allowlist"@);
    assert(js::URL_GUARD@[1]@ == "allow_list"@);
    assert(js::URL_GUARD@[2]@ == "allowedHosts"@);
    assert(js::URL_GUARD@[3]@ == "ALLOWED_HOSTS"@);
    assert(js::URL_GUARD@[4]@ == "isPrivate"@);
    assert(js::URL_GUARD@[5]@ == "validateUrl"@);
    assert(js::URL_GUARD@[6]@ == "validateURL"@);
    assert(js::URL_GUARD@[7]@ == "isAllowedHost"@);
    if text::has_marker(s, js::URL_GUARD@) {
        let k = choose|k: int| 0 <= k < js::URL_GUARD@.len() && text::contains(s, (#[trigger] js::URL_GUARD@[k])@);
        assert(k == 0 || k == 1 || k == 2 || k == 3 || k == 4 || k == 5 || k == 6 || k == 7);
    }
    if text::contains(s, "allowlist"@) {
        assert(text::contains(s, js::URL_GUARD@[0]@));
    }
    if text::contains(s, "allow_list"@) {
        assert(text::contains(s, js::URL_GUARD@[1]@));
    }
    if text::contains(s, "allowedHosts"@) {
        assert(text::contains(s, js::URL_GUARD@[2]@));
    }
    if text::contains(s, "ALLOWED_HOSTS"@) {
        assert(text::contains(s, js::URL_GUARD@[3]@));
    }
    if text::contains(s, "isPrivate"@) {
        assert(text::contains(s, js::URL_GUARD@[4]@));
    }
    if text::contains(s, "validateUrl"@) {
        assert(text::contains(s, js::URL_GUARD@[5]@));
    }
    if text::contains(s, "validateURL"@) {
        assert(text::contains(s, js::URL_GUARD@[6]@));
    }
    if text::contains(s, "isAllowedHost"@) {
        assert(text::contains(s, js::URL_GUARD@[7]@));
    }
}

proof fn lemma_path_guard(s: Seq<char>)
    ensures
        text::has_marker(s, js::PATH_GUARD@) == (text::contains(s, "validateRelativePath"@) || text::contains(s, "validate_relative_path"@) || text::contains(s, "path.relative("@) || text::contains(s, "\"..\""@) || text::contains(s, "'..'"@)),
{
    assert(js::PATH_GUARD@[0]@ == "validateRelativePath"@);
    assert(js::PATH_GUARD@[1]@ == "validate_relative_path"@);
    assert(js::PATH_GUARD@[2]@ == "path.relative("@);
    assert(js::PATH_GUARD@[3]@ == "\"..\""@);
    assert(js::PATH_GUARD@[4]@ == "'..'"@);
    if text::has_marker(s, js::PATH_GUARD@) {
        let k = choose|k: int| 0 <= k < js::PATH_GUARD@.len() && text::contains(s, (#[trigger] js::PATH_GUARD@[k])@);
        assert(k == 0 || k == 1 || k == 2 || k == 3 || k == 4);
    }
    if text::contains(s, "validateRelativePath"@) {
        assert(text::contains(s, js::PATH_GUARD@[0]@));
    }
    if text::contains(s, "validate_relative_path"@) {
        assert(text::contains(s, js::PATH_GUARD@[1]@));
    }
    if text::contains(s, "path.relative("@) {
        assert(text::contains(s, js::PATH_GUARD@[2]@));
    }
    if text::contains(s, "\"..\""@) {
        assert(text::contains(s, js::PATH_GUARD@[3]@));
    }
    if text::contains(s, "'..'"@) {
        assert(text::contains(s, js::PATH_GUARD@[4]@));
    }
}

proof fn lemma_indicators(s: Seq<char>)
    ensures
        text::has_marker(s, js::INDICATORS@) == (text::contains(s, "inputSchema"@) || text::contains(s, "input_schema"@) || text::contains(s, "outputSchema"@) || text::contains(s, "description"@) || text::contains(s, "handler"@) || text::contains(s, "execute"@) || text::contains(s, "parameters"@) || text::contains(s, "annotations"@)),
{
    assert(js::INDICATORS@[0]@ == "inputSchema"@);
    assert(js::INDICATORS@[1]@ == "input_schema"@);
    assert(js::INDICATORS@[2]@ == "outputSchema"@);
    assert(js::INDICATORS@[3]@ == "description"@);
    assert(js::INDICATORS@[4]@ == "handler"@);
    assert(js::INDICATORS@[5]@ == "execute"@);
    assert(js::INDICATORS@[6]@ == "parameters"@);
    assert(js::INDICATORS@[7]@ == "annotations"@);
    if text::has_marker(s, js::INDICATORS@) {
        let k = choose|k: int| 0 <= k < js::INDICATORS@.len() && text::contains(s, (#[trigger] js::INDICATORS@[k])@);
        assert(k == 0 || k == 1 || k == 2 || k == 3 || k == 4 || k == 5 || k == 6 || k == 7);
    }
    if text::contains(s, "inputSchema"@) {
        assert(text::contains(s, js::INDICATORS@[0]@));
    }
    if text::contains(s, "input_schema"@) {
        assert(text::contains(s, js::INDICATORS@[1]@));
    }
    if text::contains(s, "outputSchema"@) {
        assert(text::contains(s, js::INDICATORS@[2]@));
    }
    if text::contains(s, "description"@) {
        assert(text::contains(s, js::INDICATORS@[3]@));
    }
    if text::contains(s, "handler"@) {
        assert(text::contains(s, js::INDICATORS@[4]@));
    }
    if text::contains(s, "execute"@) {
        assert(text::contains(s, js::INDICATORS@[5]@));
    }
    if text::contains(s, "parameters"@) {
        assert(text::contains(s, js::INDICATORS@[6]@));
    }
    if text::contains(s, "annotations"@) {
        assert(text::contains(s, js::INDICATORS@[7]@));
    }
}

proof fn lemma_exfil_hosts(s: Seq<char>)
    ensures
        text::has_marker(s, EXFIL_HOSTS@) == (text::contains(s, "discord.com/api/webhooks"@) || text::contains(s, "api.telegram.org"@) || text::contains(s, "pastebin.com"@) || text::contains(s, "requestbin"@) || text::contains(s, "ngrok"@) || text::contains(s, "oast."@) || text::contains(s, "interact.sh"@) || text::contains(s, "hookbin"@) || text::contains(s, "webhook.site"@) || text::contains(s, "burpcollaborator"@)),
{
    assert(EXFIL_HOSTS@[0]@ == "discord.com/api/webhooks"@);
    assert(EXFIL_HOSTS@[1]@ == "api.telegram.org"@);
    assert(EXFIL_HOSTS@[2]@ == "pastebin.com"@);
    assert(EXFIL_HOSTS@[3]@ == "requestbin"@);
    assert(EXFIL_HOSTS@[4]@ == "ngrok"@);
    assert(EXFIL_HOSTS@[5]@ == "oast."@);
    assert(EXFIL_HOSTS@[6]@ == "interact.sh"@);
    assert(EXFIL_HOSTS@[7]@ == "hookbin"@);
    assert(EXFIL_HOSTS@[8]@ == "webhook.site"@);
    assert(EXFIL_HOSTS@[9]@ == "burpcollaborator"@);
    if text::has_marker(s, EXFIL_HOSTS@) {
        let k = choose|k: int| 0 <= k < EXFIL_HOSTS@.len() && text::contains(s, (#[trigger] EXFIL_HOSTS@[k])@);
        assert(k == 0 || k == 1 || k == 2 || k == 3 || k == 4 || k == 5 || k == 6 || k == 7 || k == 8 || k == 9);
    }
    if text::contains(s, "discord.com/api/webhooks"@) {
        assert(text::contains(s, EXFIL_HOSTS@[0]@));
    }
    if text::contains(s, "api.telegram.org"@) {
        assert(text::contains(s, EXFIL_HOSTS@[1]@));
    }
    if text::contains(s, "pastebin.com"@) {
        assert(text::contains(s, EXFIL_HOSTS@[2]@));
    }
    if text::contains(s, "requestbin"@) {
        assert(text::contains(s, EXFIL_HOSTS@[3]@));
    }
    if text::contains(s, "ngrok"@) {
        assert(text::contains(s, EXFIL_HOSTS@[4]@));
    }
    if text::contains(s, "oast."@) {
        assert(text::contains(s, EXFIL_HOSTS@[5]@));
    }
    if text::contains(s, "interact.sh"@) {
        assert(text::contains(s, EXFIL_HOSTS@[6]@));
    }
    if text::contains(s, "hookbin"@) {
        assert(text::contains(s, EXFIL_HOSTS@[7]@));
    }
    if text::contains(s, "webhook.site"@) {
        assert(text::contains(s, EXFIL_HOSTS@[8]@));
    }
    if text::contains(s, "burpcollaborator"@) {
        assert(text::contains(s, EXFIL_HOSTS@[9]@));
    }
}

proof fn lemma_secret_words(s: Seq<char>)
    ensures
        text::has_marker(s, SECRET_WORDS@) == (text::contains(s, "TOKEN"@) || text::contains(s, "SECRET"@) || text::contains(s, "PASSWORD"@) || text::contains(s, "API_KEY"@) || text::contains(s, "APIKEY"@) || text::contains(s, "CREDENTIAL"@) || text::contains(s, "PRIVATE_KEY"@) || text::contains(s, "ACCESS_KEY"@)),
{
    assert(SECRET_WORDS@[0]@ == "TOKEN"@);
    assert(SECRET_WORDS@[1]@ == "SECRET"@);
    assert(SECRET_WORDS@[2]@ == "PASSWORD"@);
    assert(SECRET_WORDS@[3]@ == "API_KEY"@);
    assert(SECRET_WORDS@[4]@ == "APIKEY"@);
    assert(SECRET_WORDS@[5]@ == "CREDENTIAL"@);
    assert(SECRET_WORDS@[6]@ == "PRIVATE_KEY"@);
    assert(SECRET_WORDS@[7]@ == "ACCESS_KEY"@);
    if text::has_marker(s, SECRET_WORDS@) {
        let k = choose|k: int| 0 <= k < SECRET_WORDS@.len() && text::contains(s, (#[trigger] SECRET_WORDS@[k])@);
        assert(k == 0 || k == 1 || k == 2 || k == 3 || k == 4 || k == 5 || k == 6 || k == 7);
    }
    if text::contains(s, "TOKEN"@) {
        assert(text::contains(s, SECRET_WORDS@[0]@));
    }
    if text::contains(s, "SECRET"@) {
        assert(text::contains(s, SECRET_WORDS@[1]@));
    }
    if text::contains(s, "PASSWORD"@) {
        assert(text::contains(s, SECRET_WORDS@[2]@));
    }
    if text::contains(s, "API_KEY"@) {
        assert(text::contains(s, SECRET_WORDS@[3]@));
    }
    if text::contains(s, "APIKEY"@) {
        assert(text::contains(s, SECRET_WORDS@[4]@));
    }
    if text::contains(s, "CREDENTIAL"@) {
        assert(text::contains(s, SECRET_WORDS@[5]@));
    }
    if text::contains(s, "PRIVATE_KEY"@) {
        assert(text::contains(s, SECRET_WORDS@[6]@));
    }
    if text::contains(s, "ACCESS_KEY"@) {
        assert(text::contains(s, SECRET_WORDS@[7]@));
    }
}

// --- what taints a tool ----------------------------------------------------

/// A line of a registration that names a parameter of the handler as a whole word taints the tool with
/// every sink that it holds, whatever else it holds. A registration that checks where a URL leads, or
/// keeps paths under a root, is not reported for it.
#[verifier::rlimit(60)]
pub proof fn law_sinks_taint_the_tool(region: Seq<char>, name: Seq<char>, line: u32, j: int, p: int)
    requires
        0 <= j < text::lines(region).len(),
        0 <= p < js::handler_idents(region).len(),
        text::has_word(text::lines(region)[j], js::handler_idents(region)[p], true),
    ensures
        ({
            let ls = text::lines(region);
            let l = ls[j];
            let t = js::region_tool(region, name, line);
            &&& (text::contains(l, "child_process"@) || text::contains(l, "execSync("@) || text::contains(l, "execFileSync("@) || text::contains(l, "execFile("@) || text::contains(l, "spawnSync("@) || text::contains(l, "spawn("@) || text::contains(l, "eval("@) || text::contains(l, "new Function("@)) ==> t.shell
            &&& (text::contains(l, "fetch("@) || text::contains(l, "axios.get("@) || text::contains(l, "axios.post("@) || text::contains(l, "axios.put("@) || text::contains(l, "axios.request("@) || text::contains(l, "axios("@) || text::contains(l, "got("@) || text::contains(l, "needle("@) || text::contains(l, "http.get("@) || text::contains(l, "https.get("@) || text::contains(l, "http.request("@) || text::contains(l, "https.request("@)) && (forall|i: int| 0 <= i < ls.len() ==> !(text::contains(#[trigger] ls[i], "allowlist"@) || text::contains(ls[i], "allow_list"@) || text::contains(ls[i], "allowedHosts"@) || text::contains(ls[i], "ALLOWED_HOSTS"@) || text::contains(ls[i], "isPrivate"@) || text::contains(ls[i], "validateUrl"@) || text::contains(ls[i], "validateURL"@) || text::contains(ls[i], "isAllowedHost"@))) ==> t.ssrf
            &&& (text::contains(l, "fs.readFile"@) || text::contains(l, "fs.writeFile"@) || text::contains(l, "fs.readdir"@) || text::contains(l, "fs.unlink"@) || text::contains(l, "fs.createReadStream"@) || text::contains(l, "readFileSync("@) || text::contains(l, "writeFileSync("@) || text::contains(l, "path.join("@) || text::contains(l, "path.resolve("@)) && (forall|i: int| 0 <= i < ls.len() ==> !(text::contains(#[trigger] ls[i], "validateRelativePath"@) || text::contains(ls[i], "validate_relative_path"@) || text::contains(ls[i], "path.relative("@) || text::contains(ls[i], "\"..\""@) || text::contains(ls[i], "'..'"@))) ==> t.fs
            &&& ((text::contains(l, ".query("@) || text::contains(l, ".execute("@) || text::contains(l, ".raw("@)) && (text::contains(l, "`"@) || text::contains(l, "\" +"@) || text::contains(l, "' +"@) || text::contains(l, "+ \""@) || text::contains(l, "+ '"@) || text::contains(l, ".concat("@))) ==> t.sql
            &&& (text::contains(l, "new RegExp("@)) ==> t.redos
        }),
{
    let ls = text::lines(region);
    let l = ls[j];
    let params = js::handler_idents(region);
    assert(taint::has_any_word(l, params, true));
    assert(js::is_tainted(ls, params, j));
    lemma_shell(l);
    lemma_ssrf(l);
    lemma_fs(l);
    lemma_sql(l);
    lemma_string_builders(l);
    lemma_redos(l);
    if forall|i: int| 0 <= i < ls.len() ==> !(text::contains(#[trigger] ls[i], "allowlist"@) || text::contains(ls[i], "allow_list"@) || text::contains(ls[i], "allowedHosts"@) || text::contains(ls[i], "ALLOWED_HOSTS"@) || text::contains(ls[i], "isPrivate"@) || text::contains(ls[i], "validateUrl"@) || text::contains(ls[i], "validateURL"@) || text::contains(ls[i], "isAllowedHost"@)) {
        assert forall|i: int| 0 <= i < ls.len() implies !text::has_marker(#[trigger] ls[i], js::URL_GUARD@) by {
            lemma_url_guard(ls[i]);
        }
        assert(!taint::some_line_has(ls, js::URL_GUARD@));
    }
    if forall|i: int| 0 <= i < ls.len() ==> !(text::contains(#[trigger] ls[i], "validateRelativePath"@) || text::contains(ls[i], "validate_relative_path"@) || text::contains(ls[i], "path.relative("@) || text::contains(ls[i], "\"..\""@) || text::contains(ls[i], "'..'"@)) {
        assert forall|i: int| 0 <= i < ls.len() implies !text::has_marker(#[trigger] ls[i], js::PATH_GUARD@) by {
            lemma_path_guard(ls[i]);
        }
        assert(!taint::some_line_has(ls, js::PATH_GUARD@));
    }
}

/// A tool is tainted by a line alone: where it carries a fact, a line of its registration names one of the
/// parameters and holds a sink of that kind. No line of it then checks the URL, or the path.
#[verifier::rlimit(60)]
pub proof fn law_taint_comes_from_a_sink(region: Seq<char>, name: Seq<char>, line: u32)
    ensures
        ({
            let ls = text::lines(region);
            let ps = js::handler_idents(region);
            let t = js::region_tool(region, name, line);
            &&& t.name == name && t.params == ps && t.line == line && !t.deser && !t.unbounded_limit
            &&& t.shell ==> exists|j: int, p: int|
                0 <= j < ls.len() && 0 <= p < ps.len() && text::has_word(#[trigger] ls[j], #[trigger] ps[p], true) && (text::contains(ls[j], "child_process"@) || text::contains(ls[j], "execSync("@) || text::contains(ls[j], "execFileSync("@) || text::contains(ls[j], "execFile("@) || text::contains(ls[j], "spawnSync("@) || text::contains(ls[j], "spawn("@) || text::contains(ls[j], "eval("@) || text::contains(ls[j], "new Function("@))
            &&& t.ssrf ==> exists|j: int, p: int|
                0 <= j < ls.len() && 0 <= p < ps.len() && text::has_word(#[trigger] ls[j], #[trigger] ps[p], true) && (text::contains(ls[j], "fetch("@) || text::contains(ls[j], "axios.get("@) || text::contains(ls[j], "axios.post("@) || text::contains(ls[j], "axios.put("@) || text::contains(ls[j], "axios.request("@) || text::contains(ls[j], "axios("@) || text::contains(ls[j], "got("@) || text::contains(ls[j], "needle("@) || text::contains(ls[j], "http.get("@) || text::contains(ls[j], "https.get("@) || text::contains(ls[j], "http.request("@) || text::contains(ls[j], "https.request("@))
            &&& t.ssrf ==> forall|i: int| 0 <= i < ls.len() ==> !(text::contains(#[trigger] ls[i], "allowlist"@) || text::contains(ls[i], "allow_list"@) || text::contains(ls[i], "allowedHosts"@) || text::contains(ls[i], "ALLOWED_HOSTS"@) || text::contains(ls[i], "isPrivate"@) || text::contains(ls[i], "validateUrl"@) || text::contains(ls[i], "validateURL"@) || text::contains(ls[i], "isAllowedHost"@))
            &&& t.fs ==> exists|j: int, p: int|
                0 <= j < ls.len() && 0 <= p < ps.len() && text::has_word(#[trigger] ls[j], #[trigger] ps[p], true) && (text::contains(ls[j], "fs.readFile"@) || text::contains(ls[j], "fs.writeFile"@) || text::contains(ls[j], "fs.readdir"@) || text::contains(ls[j], "fs.unlink"@) || text::contains(ls[j], "fs.createReadStream"@) || text::contains(ls[j], "readFileSync("@) || text::contains(ls[j], "writeFileSync("@) || text::contains(ls[j], "path.join("@) || text::contains(ls[j], "path.resolve("@))
            &&& t.fs ==> forall|i: int| 0 <= i < ls.len() ==> !(text::contains(#[trigger] ls[i], "validateRelativePath"@) || text::contains(ls[i], "validate_relative_path"@) || text::contains(ls[i], "path.relative("@) || text::contains(ls[i], "\"..\""@) || text::contains(ls[i], "'..'"@))
            &&& t.sql ==> exists|j: int, p: int|
                0 <= j < ls.len() && 0 <= p < ps.len() && text::has_word(#[trigger] ls[j], #[trigger] ps[p], true) && ((text::contains(ls[j], ".query("@) || text::contains(ls[j], ".execute("@) || text::contains(ls[j], ".raw("@)) && (text::contains(ls[j], "`"@) || text::contains(ls[j], "\" +"@) || text::contains(ls[j], "' +"@) || text::contains(ls[j], "+ \""@) || text::contains(ls[j], "+ '"@) || text::contains(ls[j], ".concat("@)))
            &&& t.redos ==> exists|j: int, p: int|
                0 <= j < ls.len() && 0 <= p < ps.len() && text::has_word(#[trigger] ls[j], #[trigger] ps[p], true) && (text::contains(ls[j], "new RegExp("@))
            &&& t.desc_hidden_unicode <==> exists|i: int|
                0 <= i < region.len() && (('\u{200b}' <= #[trigger] region[i] <= '\u{200f}') || ('\u{202a}' <= region[i]
                    <= '\u{202e}') || region[i] == '\u{2060}' || ('\u{2066}' <= region[i] <= '\u{2069}') || region[i]
                    == '\u{feff}')
        }),
{
    let ls = text::lines(region);
    let ps = js::handler_idents(region);
    let t = js::region_tool(region, name, line);
    if t.shell {
        let j = choose|j: int| 0 <= j < ls.len() && #[trigger] js::is_tainted(ls, ps, j) && text::has_marker(ls[j], js::SHELL@);
        lemma_shell(ls[j]);
        let p = choose|p: int| 0 <= p < ps.len() && text::has_word(ls[j], #[trigger] ps[p], true);
        assert(text::has_word(ls[j], ps[p], true));
    }
    if t.ssrf {
        let j = choose|j: int| 0 <= j < ls.len() && #[trigger] js::is_tainted(ls, ps, j) && text::has_marker(ls[j], js::SSRF@);
        lemma_ssrf(ls[j]);
        let p = choose|p: int| 0 <= p < ps.len() && text::has_word(ls[j], #[trigger] ps[p], true);
        assert(text::has_word(ls[j], ps[p], true));
        assert forall|i: int| 0 <= i < ls.len() implies !(text::contains(#[trigger] ls[i], "allowlist"@) || text::contains(ls[i], "allow_list"@) || text::contains(ls[i], "allowedHosts"@) || text::contains(ls[i], "ALLOWED_HOSTS"@) || text::contains(ls[i], "isPrivate"@) || text::contains(ls[i], "validateUrl"@) || text::contains(ls[i], "validateURL"@) || text::contains(ls[i], "isAllowedHost"@)) by {
            lemma_url_guard(ls[i]);
        }
    }
    if t.fs {
        let j = choose|j: int| 0 <= j < ls.len() && #[trigger] js::is_tainted(ls, ps, j) && text::has_marker(ls[j], js::FS@);
        lemma_fs(ls[j]);
        let p = choose|p: int| 0 <= p < ps.len() && text::has_word(ls[j], #[trigger] ps[p], true);
        assert(text::has_word(ls[j], ps[p], true));
        assert forall|i: int| 0 <= i < ls.len() implies !(text::contains(#[trigger] ls[i], "validateRelativePath"@) || text::contains(ls[i], "validate_relative_path"@) || text::contains(ls[i], "path.relative("@) || text::contains(ls[i], "\"..\""@) || text::contains(ls[i], "'..'"@)) by {
            lemma_path_guard(ls[i]);
        }
    }
    if t.sql {
        let j = choose|j: int| 0 <= j < ls.len() && #[trigger] js::is_tainted(ls, ps, j) && js::is_sql_line(ls[j]);
        lemma_sql(ls[j]);
        lemma_string_builders(ls[j]);
        let p = choose|p: int| 0 <= p < ps.len() && text::has_word(ls[j], #[trigger] ps[p], true);
        assert(text::has_word(ls[j], ps[p], true));
    }
    if t.redos {
        let j = choose|j: int| 0 <= j < ls.len() && #[trigger] js::is_tainted(ls, ps, j) && text::has_marker(ls[j], js::REDOS@);
        lemma_redos(ls[j]);
        let p = choose|p: int| 0 <= p < ps.len() && text::has_word(ls[j], #[trigger] ps[p], true);
        assert(text::has_word(ls[j], ps[p], true));
    }
    if taint::has_zero_width(region) {
        let i = choose|i: int| 0 <= i < region.len() && taint::zero_width(#[trigger] region[i]);
        assert(taint::zero_width(region[i]));
    }
    if exists|i: int| 0 <= i < region.len() && taint::zero_width(#[trigger] region[i]) {
        assert(taint::has_zero_width(region));
    }
}

// --- registrations ---------------------------------------------------------

proof fn lemma_marker_at(s: Seq<char>, i: int)
    ensures
        taint::marker_at(s, js::TOOL_MARKERS@, i) == (text::occurs_at(s, ".tool("@, i) || text::occurs_at(s, ".registerTool("@, i) || text::occurs_at(s, ".addTool("@, i) || text::occurs_at(s, "server.tool("@, i)),
{
    assert(js::TOOL_MARKERS@[0]@ == ".tool("@);
    assert(js::TOOL_MARKERS@[1]@ == ".registerTool("@);
    assert(js::TOOL_MARKERS@[2]@ == ".addTool("@);
    assert(js::TOOL_MARKERS@[3]@ == "server.tool("@);
    if taint::marker_at(s, js::TOOL_MARKERS@, i) {
        let k = choose|k: int| 0 <= k < js::TOOL_MARKERS@.len() && text::occurs_at(s, (#[trigger] js::TOOL_MARKERS@[k])@, i);
        assert(k == 0 || k == 1 || k == 2 || k == 3);
    }
    if text::occurs_at(s, ".tool("@, i) {
        assert(text::occurs_at(s, js::TOOL_MARKERS@[0]@, i));
    }
    if text::occurs_at(s, ".registerTool("@, i) {
        assert(text::occurs_at(s, js::TOOL_MARKERS@[1]@, i));
    }
    if text::occurs_at(s, ".addTool("@, i) {
        assert(text::occurs_at(s, js::TOOL_MARKERS@[2]@, i));
    }
    if text::occurs_at(s, "server.tool("@, i) {
        assert(text::occurs_at(s, js::TOOL_MARKERS@[3]@, i));
    }
}

proof fn lemma_positions_hold(s: Seq<char>, from: int, i: int)
    requires
        0 <= from <= i < s.len(),
        taint::marker_at(s, js::TOOL_MARKERS@, i),
    ensures
        taint::positions(s, js::TOOL_MARKERS@, from).contains(i),
    decreases i - from,
{
    let ps = taint::positions(s, js::TOOL_MARKERS@, from);
    if from == i {
        assert(ps[0] == i);
    } else {
        lemma_positions_hold(s, from + 1, i);
        let rest = taint::positions(s, js::TOOL_MARKERS@, from + 1);
        let k = choose|k: int| 0 <= k < rest.len() && rest[k] == i;
        if taint::marker_at(s, js::TOOL_MARKERS@, from) {
            assert(ps[k + 1] == i);
        } else {
            assert(ps[k] == i);
        }
    }
}

proof fn lemma_positions_mark(s: Seq<char>, from: int, k: int)
    requires
        0 <= from <= s.len(),
        0 <= k < taint::positions(s, js::TOOL_MARKERS@, from).len(),
    ensures
        from <= taint::positions(s, js::TOOL_MARKERS@, from)[k] < s.len(),
        taint::marker_at(s, js::TOOL_MARKERS@, taint::positions(s, js::TOOL_MARKERS@, from)[k]),
    decreases s.len() - from,
{
    if from < s.len() {
        if taint::marker_at(s, js::TOOL_MARKERS@, from) {
            if k > 0 {
                lemma_positions_mark(s, from + 1, k - 1);
            }
        } else {
            lemma_positions_mark(s, from + 1, k);
        }
    }
}

/// Every registration gives a tool: from each marker up to the next one, or to the end of the file, the
/// first quoted string is the name of a tool, and what the text between says of it is on its record.
pub proof fn law_registrations_are_tools(s: Seq<char>, i: int, e: int, name: Seq<char>)
    requires
        0 <= i < e <= s.len(),
        text::occurs_at(s, ".tool("@, i) || text::occurs_at(s, ".registerTool("@, i) || text::occurs_at(s, ".addTool("@, i) || text::occurs_at(s, "server.tool("@, i),
        forall|j: int| i < j < e ==> !(#[trigger] text::occurs_at(s, ".tool("@, j) || text::occurs_at(s, ".registerTool("@, j) || text::occurs_at(s, ".addTool("@, j) || text::occurs_at(s, "server.tool("@, j)),
        e == s.len() || (text::occurs_at(s, ".tool("@, e) || text::occurs_at(s, ".registerTool("@, e) || text::occurs_at(s, ".addTool("@, e) || text::occurs_at(s, "server.tool("@, e)),
        js::quoted_first(s.subrange(i, e)) == Some(name),
        name.len() > 0,
    ensures
        js::file_tools(s).contains(js::region_tool(s.subrange(i, e), name, text::line_number(taint::newlines(s, i)))),
{
    lemma_marker_at(s, i);
    lemma_marker_at(s, e);
    taint::lemma_positions(s, js::TOOL_MARKERS@, 0);
    lemma_positions_hold(s, 0, i);
    let ps = taint::positions(s, js::TOOL_MARKERS@, 0);
    let k = choose|k: int| 0 <= k < ps.len() && ps[k] == i;
    assert(taint::region_end(s, ps, k) == e) by {
        if k + 1 < ps.len() {
            let n = ps[k + 1];
            lemma_marker_at(s, n);
            assert(n > i);
            lemma_positions_mark(s, 0, k + 1);
            assert(taint::marker_at(s, js::TOOL_MARKERS@, n));
            if n < e {
                assert(!(text::occurs_at(s, ".tool("@, n) || text::occurs_at(s, ".registerTool("@, n) || text::occurs_at(s, ".addTool("@, n) || text::occurs_at(s, "server.tool("@, n)));
            }
            if n > e {
                lemma_positions_hold(s, 0, e);
                let q = choose|q: int| 0 <= q < ps.len() && ps[q] == e;
                assert(k < q < k + 1);
            }
        } else if e < s.len() {
            lemma_positions_hold(s, 0, e);
            let q = choose|q: int| 0 <= q < ps.len() && ps[q] == e;
            assert(q > k);
        }
    }
    let t = js::region_tool(s.subrange(i, e), name, text::line_number(taint::newlines(s, i)));
    assert(js::registered(s, ps, k) == Some(t));
    lemma_registered_is_listed(s, ps, k, ps.len() as int);
    let own = js::registered_tools(s, ps, ps.len() as int);
    let names = js::data_names(s);
    lemma_names_keep(own, names, names.len() as int);
    let q = choose|q: int| 0 <= q < own.len() && own[q] == t;
    assert(js::file_tools(s)[q] == t);
}

proof fn lemma_registered_is_listed(s: Seq<char>, ps: Seq<int>, k: int, n: int)
    requires
        0 <= k < n <= ps.len(),
        js::registered(s, ps, k) is Some,
    ensures
        js::registered_tools(s, ps, n).contains(js::registered(s, ps, k)->0),
    decreases n,
{
    let before = js::registered_tools(s, ps, n - 1);
    let now = js::registered_tools(s, ps, n);
    let t = js::registered(s, ps, k)->0;
    if k == n - 1 {
        assert(now[before.len() as int] == t);
    } else {
        lemma_registered_is_listed(s, ps, k, n - 1);
        let q = choose|q: int| 0 <= q < before.len() && before[q] == t;
        assert(now[q] == t);
    }
}

proof fn lemma_names_keep(tools: Seq<ToolFacts>, names: Seq<Seq<char>>, n: int)
    ensures
        tools.len() <= js::with_names(tools, names, n).len(),
        forall|q: int| 0 <= q < tools.len() ==> #[trigger] js::with_names(tools, names, n)[q] == tools[q],
    decreases n,
{
    if 0 < n <= names.len() {
        lemma_names_keep(tools, names, n - 1);
        let before = js::with_names(tools, names, n - 1);
        let now = js::with_names(tools, names, n);
        assert forall|q: int| 0 <= q < tools.len() implies #[trigger] now[q] == tools[q] by {
            assert(before[q] == tools[q]);
        }
    }
}

/// The name of a registered tool is the first quoted string, in whatever quotes.
pub proof fn law_tools_are_named_by_the_first_quoted_string(a: Seq<char>, q: char, name: Seq<char>, rest: Seq<char>)
    requires
        q == '"' || q == '\'' || q == '`',
        forall|i: int| 0 <= i < a.len() ==> (#[trigger] a[i]) != '"' && a[i] != '\'' && a[i] != '`',
        forall|i: int| 0 <= i < name.len() ==> #[trigger] name[i] != q,
    ensures
        js::quoted_first(a + seq![q] + name + seq![q] + rest) == Some(name),
{
    let s = a + seq![q] + name + seq![q] + rest;
    let n = a.len() as int;
    let e = n + 1 + name.len();
    reveal_strlit("\"'`");
    let set = "\"'`"@;
    assert(set =~= seq!['"', '\'', '`']);
    assert(set[0] == '"' && set[1] == '\'' && set[2] == '`');
    assert(s[n] == q && s[e] == q);
    assert(set.contains(q));
    text::lemma_find_one_of(s, set, 0);
    assert forall|i: int| 0 <= i < n implies !set.contains(#[trigger] s[i]) by {
        assert(s[i] == a[i]);
    }
    assert(text::find_one_of(s, set, 0) == n);
    text::lemma_find_char(s, q, n + 1);
    assert forall|i: int| n + 1 <= i < e implies s[i] != q by {
        assert(s[i] == name[i - n - 1]);
    }
    assert(text::find_char(s, q, n + 1) == e);
    assert(s.subrange(n + 1, e) =~= name);
}

// --- the parameters of a handler -------------------------------------------

/// The parameters are read one by one: the identifiers of the first, and then those of the others.
pub proof fn law_parameters_are_read_one_by_one(a: Seq<char>, rest: Seq<char>)
    requires
        forall|i: int|
            0 <= i < a.len() ==> (#[trigger] a[i]) != ',' && a[i] != '(' && a[i] != ')' && a[i] != '[' && a[i] != ']'
                && a[i] != '{' && a[i] != '}',
        !text::is_blank(a),
    ensures
        js::list_idents(taint::top_level_parts(a + seq![','] + rest), 0) == js::list_idents(taint::top_level_parts(a), 0) + js::list_idents(
            taint::top_level_parts(rest),
            0,
        ),
{
    laws_text::law_lists_are_cut_at_commas(a, rest);
    let parts = taint::top_level_parts(rest);
    let one = seq![a];
    let all = one + parts;
    assert(all[0] == a && one[0] == a);
    lemma_list_shift(a, parts, 0);
    assert(js::list_idents(one, 1) =~= Seq::empty());
    assert(js::list_idents(one, 0) =~= js::part_idents(a));
    assert(js::list_idents(all, 0) =~= js::part_idents(a) + js::list_idents(parts, 0));
}

proof fn lemma_list_shift(a: Seq<char>, parts: Seq<Seq<char>>, k: int)
    requires
        0 <= k <= parts.len(),
    ensures
        js::list_idents(seq![a] + parts, k + 1) == js::list_idents(parts, k),
    decreases parts.len() - k,
{
    if k < parts.len() {
        assert((seq![a] + parts)[k + 1] == parts[k]);
        lemma_list_shift(a, parts, k + 1);
    }
}

/// A parameter gives its identifier, with or without a type.
pub proof fn law_plain_parameters(a: Seq<char>, id: Seq<char>, rest: Seq<char>)
    requires
        text::is_blank(a),
        id.len() > 0,
        forall|i: int|
            0 <= i < id.len() ==> ('0' <= #[trigger] id[i] <= '9') || ('a' <= id[i] <= 'z') || ('A' <= id[i] <= 'Z')
                || id[i] == '_' || id[i] == '$',
        rest.len() > 0 ==> (rest[0] == ':' || rest[0] == '=' || rest[0] == ' ') && !text::is_space(rest.last()),
        forall|i: int| 0 <= i < rest.len() ==> (#[trigger] rest[i]) != '{' && rest[i] != '}',
    ensures
        js::part_idents(a + (id + rest)) == seq![id],
{
    let v = id + rest;
    assert(v[0] == id[0]);
    if rest.len() > 0 {
        assert(v.last() == rest.last());
    } else {
        assert(v.last() == id[id.len() - 1]);
    }
    let none = Seq::<char>::empty();
    laws_python::lemma_trim_around(a, v, none);
    assert(a + v + none =~= a + v);
    text::lemma_find_char(v, '{', 0);
    let b = text::find_char(v, '{', 0);
    if b < v.len() {
        if b < id.len() {
            assert(v[b] == id[b]);
        } else {
            assert(v[b] == rest[b - id.len()]);
        }
    }
    laws_text::law_identifiers_are_read_whole(id, rest, true);
}

/// A destructured parameter gives the identifier of its field.
pub proof fn law_destructured_parameters(id: Seq<char>)
    requires
        id.len() > 0,
        forall|i: int|
            0 <= i < id.len() ==> ('0' <= #[trigger] id[i] <= '9') || ('a' <= id[i] <= 'z') || ('A' <= id[i] <= 'Z')
                || id[i] == '_' || id[i] == '$',
    ensures
        js::part_idents(seq!['{'] + id + seq!['}']) == seq![id],
        js::list_idents(taint::top_level_parts(seq!['{'] + id + seq!['}']), 0) == seq![id],
{
    let p = seq!['{'] + id + seq!['}'];
    let n = id.len() as int;
    let none = Seq::<char>::empty();
    assert(p[0] == '{' && p.last() == '}');
    laws_python::lemma_trim_around(none, p, none);
    assert(none + p + none =~= p);
    assert(text::find_char(p, '{', 0) == 0);
    assert(text::rfind_char(p, '}', p.len() as int) == n + 1);
    assert(p.subrange(1, n + 1) =~= id);
    assert forall|i: int|
        0 <= i < id.len() implies (#[trigger] id[i]) != ',' && id[i] != '(' && id[i] != ')' && id[i] != '[' && id[i] != ']'
            && id[i] != '{' && id[i] != '}' by {}
    assert(!text::is_blank(id)) by {
        assert(!text::is_space(id[0]));
    }
    laws_text::law_lists_are_cut_at_commas(id, none);
    let fields = seq![id];
    reveal_strlit(":");
    assert(":"@ =~= seq![':']);
    assert forall|i: int| 0 <= i < id.len() implies !":"@.contains(#[trigger] id[i]) by {
        if ":"@.contains(id[i]) {
            let k = choose|k: int| 0 <= k < ":"@.len() && ":"@[k] == id[i];
        }
    }
    assert(":"@.contains(':')) by {
        assert(":"@[0] == ':');
    }
    laws_text::law_splitting_cuts_at_each_separator(id, ':', none, ":"@);
    laws_python::lemma_trim_around(none, id, none);
    assert(none + id + none =~= id);
    laws_text::law_identifiers_are_read_whole(id, none, true);
    assert(id + none =~= id);
    let tokens = seq![id];
    assert(tokens[0] == id && fields[0] == id);
    assert(js::token_idents(tokens, 1) =~= Seq::empty());
    assert(js::token_idents(tokens, 0) =~= seq![id]);
    assert(js::field_idents(fields, 1) =~= Seq::empty());
    assert(js::field_idents(fields, 0) =~= seq![id]);
    taint::lemma_next_comma(p, 0);
    let c = taint::next_comma(p, 0);
    if c < p.len() {
        assert(p[c] == ',');
        assert(c == 0 || c == n + 1 || p[c] == id[c - 1]);
    }
    assert(p.skip(0) =~= p);
    assert(!text::is_blank(p)) by {
        assert(!text::is_space(p[0]));
    }
    let one = seq![p];
    assert(taint::top_level_parts(p) =~= one);
    assert(one[0] == p);
    assert(js::list_idents(one, 1) =~= Seq::empty());
    assert(js::list_idents(one, 0) =~= seq![id]);
}

/// An arrow function has the parameters in the parentheses before its arrow, or the one identifier
/// that stands there without parentheses.
pub proof fn law_arrow_functions_have_their_parameters(head: Seq<char>, inner: Seq<char>, gap: Seq<char>, id: Seq<char>)
    requires
        text::is_blank(gap),
        forall|i: int| 0 <= i < inner.len() ==> (#[trigger] inner[i]) != '(' && inner[i] != ')',
        id.len() > 0,
        forall|i: int|
            0 <= i < id.len() ==> ('0' <= #[trigger] id[i] <= '9') || ('a' <= id[i] <= 'z') || ('A' <= id[i] <= 'Z')
                || id[i] == '_' || id[i] == '$',
        head.len() > 0 ==> (head.last() == '(' || head.last() == ',' || head.last() == '='),
    ensures
        js::arrow_idents(head + seq!['('] + inner + seq![')'] + gap) == js::list_idents(taint::top_level_parts(inner), 0),
        js::arrow_idents(head + id + gap) == seq![id],
{
    let s = head + seq!['('] + inner + seq![')'] + gap;
    let h = head.len() as int;
    let e = h + 1 + inner.len();
    assert(s[h] == '(' && s[e] == ')');
    let t = head + seq!['('] + inner + seq![')'];
    lemma_trim_end_around(t, gap);
    assert(t + gap =~= s);
    assert(t.last() == ')');
    text::lemma_ident_start(t, t.len() as int, true);
    assert(text::ident_start(t, t.len() as int, true) == t.len());
    assert(js::bare_ident(s).len() == 0);
    text::lemma_rfind_char(s, ')', s.len() as int);
    let c = text::rfind_char(s, ')', s.len() as int);
    if c > e {
        assert(s[c] == gap[c - e - 1]);
        assert(text::is_space(')'));
    }
    assert(c == e);
    lemma_open_is(s, e - 1, h);
    assert(js::open_paren(s, e, 0) == Some(h));
    assert(s.subrange(h + 1, e) =~= inner);

    let b = head + id + gap;
    let w = head + id;
    assert(w.last() == id[id.len() - 1]);
    lemma_trim_end_around(w, gap);
    assert(w + gap =~= b);
    lemma_suffix_is(head, id, id.len() as int);
    assert(w.skip(h) =~= id);
    assert(js::bare_ident(b) == id);
    let left = w.take(w.len() - id.len());
    assert(left =~= head);
    if head.len() > 0 {
        let none = Seq::<char>::empty();
        lemma_trim_end_around(head, none);
        assert(head + none =~= head);
        reveal_strlit("async");
        assert(!text::ends_with(head, "async"@)) by {
            if text::ends_with(head, "async"@) {
                assert(head.subrange(h - 5, h)[4] == head.last());
            }
        }
    } else {
        assert(head =~= Seq::<char>::empty());
        assert(text::trim_end(head) =~= head);
        reveal_strlit("async");
    }
    assert(js::bare_head(b) == head);
}

proof fn lemma_open_is(s: Seq<char>, k: int, h: int)
    requires
        0 <= h <= k < s.len(),
        s[h] == '(',
        forall|i: int| h < i <= k ==> (#[trigger] s[i]) != '(' && s[i] != ')',
    ensures
        js::open_paren(s, k, 1) == Some(h),
    decreases k - h,
{
    if k > h {
        lemma_open_is(s, k - 1, h);
    }
}

proof fn lemma_suffix_is(head: Seq<char>, id: Seq<char>, n: int)
    requires
        0 <= n <= id.len(),
        forall|i: int| 0 <= i < id.len() ==> text::is_ident_char(#[trigger] id[i], true),
        head.len() > 0 ==> !text::is_ident_char(head.last(), true),
    ensures
        text::ident_start(head + id, head.len() + n, true) == head.len(),
    decreases n,
{
    let s = head + id;
    if n > 0 {
        assert(s[head.len() + n - 1] == id[n - 1]);
        lemma_suffix_is(head, id, n - 1);
    } else if head.len() > 0 {
        assert(s[head.len() - 1] == head.last());
    }
}

proof fn lemma_trim_end_around(v: Seq<char>, b: Seq<char>)
    requires
        text::is_blank(b),
        v.len() > 0,
        !text::is_space(v.last()),
    ensures
        text::trim_end(v + b) == v,
{
    let t = v + b;
    text::lemma_skip_space_back(t, t.len() as int);
    let e = text::skip_space_back(t, t.len() as int);
    assert(t[v.len() - 1] == v.last());
    if e > v.len() {
        assert(t[e - 1] == b[e - 1 - v.len()]);
    }
    assert(t.take(v.len() as int) =~= v);
}

/// An arrow function has the parameters of the list before its arrow, and is found by its arrow.
#[verifier::rlimit(60)]
pub proof fn law_arrow_functions_are_found(
    s: Seq<char>,
    a: Seq<char>,
    inner: Seq<char>,
    gap: Seq<char>,
    rest: Seq<char>,
)
    requires
        s == a + seq!['('] + inner + seq![')'] + gap + seq!['=', '>'] + rest,
        text::is_blank(a),
        text::is_blank(gap),
        is_flat_list(inner),
        forall|k: int| a.len() + inner.len() + gap.len() + 2 < k ==> #[trigger] taint::depth_at(s, k) >= 0,
    ensures
        js::function_at(s) matches Some(i) && taint::depth_at(s, i) == 0 && js::function_idents(s, i) == js::list_idents(taint::top_level_parts(inner), 0),
{
    let h = a.len() as int;
    let e = h + 1 + inner.len();
    let p = e + 1 + gap.len();
    reveal_strlit("=>");
    assert(s[h] == '(' && s[e] == ')' && s[p] == '=' && s[p + 1] == '>');
    assert forall|i: int| 0 <= i < h implies s[i] == a[i] by {}
    assert forall|i: int| h < i < e implies s[i] == inner[i - h - 1] by {}
    assert forall|i: int| e < i < p implies s[i] == gap[i - e - 1] by {}
    assert(s.subrange(p, p + 2) =~= "=>"@);
    assert(text::occurs_at(s, "=>"@, p));
    lemma_list_closes(s, h + 1, e);
    assert(s.take(h) =~= a);
    lemma_blank_ends(a);
    reveal_strlit("function");
    reveal_strlit("async");
    reveal_strlit("{");
    reveal_strlit(":");
    let after = s.skip(e + 1);
    let arrow = seq!['=', '>'] + rest;
    assert(after =~= gap + arrow);
    lemma_gap_is_skipped(gap, arrow);
    assert(!js::opens_list(s, h)) by {
        assert("function"@.len() == 8);
        text::lemma_ident_start(js::bare_head(a), 0, true);
        assert(text::ident_suffix(js::bare_head(a), true).len() == 0);
        assert(!js::ends_with_function(a));
        assert(!js::ends_with_member(a));
        assert(!text::starts_with(arrow, "{"@)) by {
            if text::starts_with(arrow, "{"@) {
                assert(arrow.subrange(0, 1)[0] == arrow[0]);
            }
        }
        assert(!text::starts_with(arrow, ":"@)) by {
            if text::starts_with(arrow, ":"@) {
                assert(arrow.subrange(0, 1)[0] == arrow[0]);
            }
        }
    }
    assert forall|i: int| 0 <= i < p implies !(#[trigger] js::shows_function(s, i)) by {
        assert(!text::occurs_at(s, "=>"@, i)) by {
            if text::occurs_at(s, "=>"@, i) {
                assert(s.subrange(i, i + 2)[0] == s[i]);
                assert(s[i] == '=');
            }
        }
        if i != h {
            assert(s[i] != '(');
        }
    }
    lemma_none_shows(s, p);
    lemma_depth_of_list(s, h, e, p);
    lemma_first_shows(s, p, s.len() as int);
    let before = s.take(p);
    assert(before =~= a + seq!['('] + inner + seq![')'] + gap);
    lemma_listed_before_arrow(a, inner, gap);
}

/// A list of parameters without brackets and default values.
pub open spec fn is_flat_list(inner: Seq<char>) -> bool {
    forall|i: int|
        0 <= i < inner.len() ==> (#[trigger] inner[i]) != '(' && inner[i] != ')' && inner[i] != '[' && inner[i] != ']'
            && inner[i] != '{' && inner[i] != '}' && inner[i] != '='
}

proof fn lemma_listed_before_arrow(a: Seq<char>, inner: Seq<char>, gap: Seq<char>)
    requires
        text::is_blank(gap),
        is_flat_list(inner),
    ensures
        js::arrow_idents(a + seq!['('] + inner + seq![')'] + gap) == js::list_idents(taint::top_level_parts(inner), 0),
{
    let s = a + seq!['('] + inner + seq![')'] + gap;
    let h = a.len() as int;
    let e = h + 1 + inner.len();
    assert(s[h] == '(' && s[e] == ')');
    let t = a + seq!['('] + inner + seq![')'];
    lemma_trim_end_around(t, gap);
    assert(t + gap =~= s);
    assert(t.last() == ')');
    text::lemma_ident_start(t, t.len() as int, true);
    assert(text::ident_start(t, t.len() as int, true) == t.len());
    assert(js::bare_ident(s).len() == 0);
    text::lemma_rfind_char(s, ')', s.len() as int);
    let c = text::rfind_char(s, ')', s.len() as int);
    if c > e {
        assert(s[c] == gap[c - e - 1]);
        assert(text::is_space(')'));
    }
    assert(c == e);
    lemma_open_is(s, e - 1, h);
    assert(js::open_paren(s, e, 0) == Some(h));
    assert(s.subrange(h + 1, e) =~= inner);
}

/// A function expression has the parameters of the list after the keyword.
#[verifier::rlimit(60)]
pub proof fn law_function_expressions_are_found(
    s: Seq<char>,
    a: Seq<char>,
    gap: Seq<char>,
    inner: Seq<char>,
    rest: Seq<char>,
)
    requires
        s == a + "function"@ + gap + seq!['('] + inner + seq![')'] + rest,
        text::is_blank(a),
        text::is_blank(gap),
        is_flat_list(inner),
        forall|k: int| a.len() + 8 + gap.len() < k ==> #[trigger] taint::depth_at(s, k) >= 0,
    ensures
        js::function_at(s) matches Some(i) && taint::depth_at(s, i) == 0 && js::function_idents(s, i) == js::list_idents(taint::top_level_parts(inner), 0),
{
    reveal_strlit("function");
    reveal_strlit("=>");
    let w = "function"@;
    let head = a + w + gap;
    let h = head.len() as int;
    let e = h + 1 + inner.len();
    assert(s[h] == '(' && s[e] == ')');
    assert(w =~= seq!['f', 'u', 'n', 'c', 't', 'i', 'o', 'n']);
    assert forall|i: int| 0 <= i < w.len() implies text::is_ident_char(#[trigger] w[i], true) && w[i] != '(' && w[i] != ')' && w[i]
        != '[' && w[i] != ']' && w[i] != '{' && w[i] != '}' && w[i] != '=' by {}
    assert forall|i: int| 0 <= i < h implies (#[trigger] s[i]) != '(' && s[i] != ')' && s[i] != '[' && s[i] != ']' && s[i]
        != '{' && s[i] != '}' && s[i] != '=' by {
        if i < a.len() {
            assert(s[i] == a[i]);
        } else if i < a.len() + 8 {
            assert(s[i] == w[i - a.len()]);
        } else {
            assert(s[i] == gap[i - a.len() - 8]);
        }
    }
    assert forall|i: int| h < i < e implies s[i] == inner[i - h - 1] by {}
    lemma_list_closes(s, h + 1, e);
    assert(s.take(h) =~= head);
    let named = a + w;
    assert(named.last() == w[7]);
    lemma_trim_end_around(named, gap);
    assert(named + gap =~= head);
    if a.len() > 0 {
        assert(text::is_space(a[a.len() - 1]));
    }
    lemma_suffix_is(a, w, w.len() as int);
    assert(named.skip(a.len() as int) =~= w);
    assert(js::bare_ident(head) == w);
    assert(js::opens_list(s, h));
    assert forall|i: int| 0 <= i < h implies !(#[trigger] js::shows_function(s, i)) by {
        assert(!text::occurs_at(s, "=>"@, i)) by {
            if text::occurs_at(s, "=>"@, i) {
                assert(s.subrange(i, i + 2)[0] == s[i]);
            }
        }
    }
    lemma_none_shows(s, h);
    lemma_flat_depth(s, h);
    lemma_first_shows(s, h, s.len() as int);
    assert(s.subrange(h + 1, e) =~= inner);
}

proof fn lemma_list_closes(s: Seq<char>, i: int, e: int)
    requires
        0 <= i <= e < s.len(),
        s[e] == ')',
        forall|k: int| i <= k < e ==> (#[trigger] s[k]) != '(' && s[k] != ')',
    ensures
        taint::close_paren(s, i, 1) == Some(e),
    decreases e - i,
{
    if i < e {
        lemma_list_closes(s, i + 1, e);
    }
}

proof fn lemma_blank_ends(a: Seq<char>)
    requires
        text::is_blank(a),
    ensures
        js::bare_ident(a).len() == 0,
        js::bare_head(a).len() == 0,
{
    text::lemma_skip_space_back(a, a.len() as int);
    let k = text::skip_space_back(a, a.len() as int);
    if k > 0 {
        assert(text::is_space(a[k - 1]));
    }
    let none = Seq::<char>::empty();
    assert(text::trim_end(a) =~= none);
    assert(text::ident_suffix(none, true) =~= none);
    assert(none.take(0) =~= none);
    text::lemma_skip_space_back(none, 0);
    assert(text::trim_end(none) =~= none);
    reveal_strlit("async");
    assert(!text::ends_with(none, "async"@));
}

proof fn lemma_gap_is_skipped(gap: Seq<char>, v: Seq<char>)
    requires
        text::is_blank(gap),
        v.len() > 0,
        !text::is_space(v[0]),
    ensures
        text::trim_start(gap + v) == v,
{
    let s = gap + v;
    let n = gap.len() as int;
    text::lemma_skip_space(s, 0);
    let k = text::skip_space(s, 0);
    assert(s[n] == v[0]);
    if k < n {
        assert(s[k] == gap[k]);
    }
    assert(s.skip(n) =~= v);
}

proof fn lemma_none_shows(s: Seq<char>, n: int)
    requires
        0 <= n <= s.len(),
        forall|i: int| 0 <= i < n ==> !(#[trigger] js::shows_function(s, i)),
    ensures
        js::function_before(s, n) is None,
    decreases n,
{
    if n > 0 {
        lemma_none_shows(s, n - 1);
        assert(!js::shows_function(s, n - 1));
    }
}

proof fn lemma_first_shows(s: Seq<char>, p: int, n: int)
    requires
        0 <= p < n <= s.len(),
        js::function_before(s, p) is None,
        js::shows_function(s, p),
        taint::depth_at(s, p) == 0,
        forall|k: int| p < k ==> #[trigger] taint::depth_at(s, k) >= 0,
    ensures
        js::function_before(s, n) == Some(p),
    decreases n - p,
{
    if p < n - 1 {
        lemma_first_shows(s, p, n - 1);
        assert(taint::depth_at(s, n - 1) >= 0);
    }
}

proof fn lemma_flat_depth(s: Seq<char>, n: int)
    requires
        0 <= n <= s.len(),
        forall|i: int|
            0 <= i < n ==> (#[trigger] s[i]) != '(' && s[i] != ')' && s[i] != '[' && s[i] != ']' && s[i] != '{' && s[i] != '}',
    ensures
        taint::depth_at(s, n) == 0,
    decreases n,
{
    if n > 0 {
        lemma_flat_depth(s, n - 1);
        assert(s[n - 1] != '(');
    }
}

proof fn lemma_same_depth(s: Seq<char>, a: int, b: int)
    requires
        0 <= a <= b <= s.len(),
        forall|i: int|
            a <= i < b ==> (#[trigger] s[i]) != '(' && s[i] != ')' && s[i] != '[' && s[i] != ']' && s[i] != '{' && s[i] != '}',
    ensures
        taint::depth_at(s, b) == taint::depth_at(s, a),
    decreases b - a,
{
    if a < b {
        lemma_same_depth(s, a, b - 1);
        assert(s[b - 1] != '(');
    }
}

proof fn lemma_depth_of_list(s: Seq<char>, h: int, e: int, p: int)
    requires
        0 <= h < e < p + 1 <= s.len(),
        s[h] == '(',
        s[e] == ')',
        forall|i: int|
            0 <= i < p && i != h && i != e ==> (#[trigger] s[i]) != '(' && s[i] != ')' && s[i] != '[' && s[i] != ']' && s[i]
                != '{' && s[i] != '}',
        e < p,
    ensures
        taint::depth_at(s, p) == 0,
{
    lemma_flat_depth(s, h);
    assert(taint::depth_at(s, h + 1) == 1);
    lemma_same_depth(s, h + 1, e);
    assert(taint::depth_at(s, e + 1) == 0);
    lemma_same_depth(s, e + 1, p);
}

/// The handler of a registration is its last argument that is a function.
pub proof fn law_the_last_function_is_the_handler(m: Seq<char>, k: int)
    requires
        text::starts_with(m, ".tool("@) || text::starts_with(m, ".registerTool("@) || text::starts_with(m, ".addTool("@) || text::starts_with(m, "server.tool("@),
        0 <= k < js::call_args(m).len(),
        js::function_at(js::call_args(m)[k]) matches Some(i) && taint::depth_at(js::call_args(m)[k], i) == 0,
        forall|q: int|
            k < q < js::call_args(m).len() ==> !(js::function_at(#[trigger] js::call_args(m)[q]) matches Some(i) && taint::depth_at(
                js::call_args(m)[q],
                i,
            ) == 0),
    ensures
        js::handler_text(m) == Some(js::call_args(m)[k]),
{
    lemma_starts(m);
    lemma_last_function(js::call_args(m), js::call_args(m).len() as int, k);
}

proof fn lemma_last_function(parts: Seq<Seq<char>>, n: int, k: int)
    requires
        0 <= k < n <= parts.len(),
        js::is_function(parts[k]),
        forall|q: int| k < q < n ==> !js::is_function(#[trigger] parts[q]),
    ensures
        js::last_function(parts, n) == Some(k),
    decreases n,
{
    if k < n - 1 {
        lemma_last_function(parts, n - 1, k);
    }
}

proof fn lemma_starts(s: Seq<char>)
    ensures
        text::starts_with_any(s, js::TOOL_MARKERS@) == (text::starts_with(s, ".tool("@) || text::starts_with(s, ".registerTool("@) || text::starts_with(s, ".addTool("@) || text::starts_with(s, "server.tool("@)),
{
    assert(js::TOOL_MARKERS@[0]@ == ".tool("@);
    assert(js::TOOL_MARKERS@[1]@ == ".registerTool("@);
    assert(js::TOOL_MARKERS@[2]@ == ".addTool("@);
    assert(js::TOOL_MARKERS@[3]@ == "server.tool("@);
    if text::starts_with_any(s, js::TOOL_MARKERS@) {
        let k = choose|k: int| 0 <= k < js::TOOL_MARKERS@.len() && text::starts_with(s, (#[trigger] js::TOOL_MARKERS@[k])@);
        assert(k == 0 || k == 1 || k == 2 || k == 3);
    }
    if text::starts_with(s, ".tool("@) {
        assert(text::starts_with(s, js::TOOL_MARKERS@[0]@));
    }
    if text::starts_with(s, ".registerTool("@) {
        assert(text::starts_with(s, js::TOOL_MARKERS@[1]@));
    }
    if text::starts_with(s, ".addTool("@) {
        assert(text::starts_with(s, js::TOOL_MARKERS@[2]@));
    }
    if text::starts_with(s, "server.tool("@) {
        assert(text::starts_with(s, js::TOOL_MARKERS@[3]@));
    }
}

// --- tools declared as data ------------------------------------------------

/// A tool that is declared as data is listed by its name: a quoted string of at most 64 bytes within 96
/// bytes after the key, where the key is a word of its own and a word of a declaration stands within
/// 400 bytes of it.
pub proof fn law_declared_names_are_tools(s: Seq<char>, i: int, len: int, e: int, v: Seq<char>, a: int, b: int)
    requires
        0 <= i < s.len(),
        (len == 5 && text::occurs_at(s, "name:"@, i)) || (len == 6 && text::occurs_at(s, "name ="@, i)) || (len == 5 && text::occurs_at(
            s,
            "name="@,
            i,
        )),
        i > 0 ==> !(('0' <= s[i - 1] <= '9') || ('a' <= s[i - 1] <= 'z') || ('A' <= s[i - 1] <= 'Z') || s[i - 1] == '_'
            || s[i - 1] == '$'),
        text::forward(s, i + len, 96) == Some(e),
        js::quoted_start(s.subrange(i + len, e)) == Some(v),
        v.len() > 0,
        text::byte_len(v) <= 64,
        text::backward(s, i, 400) == Some(a),
        text::forward(s, i, 400) == Some(b),
        (text::contains(s.subrange(a, b), "inputSchema"@) || text::contains(s.subrange(a, b), "input_schema"@) || text::contains(s.subrange(a, b), "outputSchema"@) || text::contains(s.subrange(a, b), "description"@) || text::contains(s.subrange(a, b), "handler"@) || text::contains(s.subrange(a, b), "execute"@) || text::contains(s.subrange(a, b), "parameters"@) || text::contains(s.subrange(a, b), "annotations"@)),
    ensures
        js::data_names(s).contains(v),
        taint::has_tool(js::file_tools(s), v),
{
    reveal_strlit("name:");
    reveal_strlit("name =");
    reveal_strlit("name=");
    lemma_indicators(s.subrange(a, b));
    assert(js::has_indicator(s, i));
    assert(js::name_at(s, i, len) == Some(v));
    let x = js::names_from(s, js::NAME_KEYS@[0]@, 0);
    let y = js::names_from(s, js::NAME_KEYS@[1]@, 0);
    let z = js::names_from(s, js::NAME_KEYS@[2]@, 0);
    let all = js::data_names(s);
    assert(js::NAME_KEYS@[0]@ == "name:"@ && js::NAME_KEYS@[1]@ == "name ="@ && js::NAME_KEYS@[2]@ == "name="@);
    if text::occurs_at(s, "name:"@, i) && len == 5 {
        lemma_names_hold(s, "name:"@, 0, i);
        let q = choose|q: int| 0 <= q < x.len() && x[q] == v;
        assert(all[q] == v);
    } else if text::occurs_at(s, "name ="@, i) && len == 6 {
        lemma_names_hold(s, "name ="@, 0, i);
        let q = choose|q: int| 0 <= q < y.len() && y[q] == v;
        assert(all[x.len() + q] == v);
    } else {
        lemma_names_hold(s, "name="@, 0, i);
        let q = choose|q: int| 0 <= q < z.len() && z[q] == v;
        assert(all[x.len() + y.len() + q] == v);
    }
    let ps = taint::positions(s, js::TOOL_MARKERS@, 0);
    let own = js::registered_tools(s, ps, ps.len() as int);
    let q = choose|q: int| 0 <= q < all.len() && all[q] == v;
    lemma_named_is_listed(own, all, q, all.len() as int);
}

proof fn lemma_names_hold(s: Seq<char>, key: Seq<char>, from: int, i: int)
    requires
        0 <= from <= i < s.len(),
        text::occurs_at(s, key, i),
        js::name_at(s, i, key.len() as int) is Some,
    ensures
        js::names_from(s, key, from).contains(js::name_at(s, i, key.len() as int)->0),
    decreases i - from,
{
    let all = js::names_from(s, key, from);
    let v = js::name_at(s, i, key.len() as int)->0;
    if from == i {
        assert(all[0] == v);
    } else {
        lemma_names_hold(s, key, from + 1, i);
        let rest = js::names_from(s, key, from + 1);
        let q = choose|q: int| 0 <= q < rest.len() && rest[q] == v;
        if js::name_at(s, from, key.len() as int) is Some && text::occurs_at(s, key, from) {
            assert(all[q + 1] == v);
        } else {
            assert(all[q] == v);
        }
    }
}

proof fn lemma_named_is_listed(tools: Seq<ToolFacts>, names: Seq<Seq<char>>, q: int, n: int)
    requires
        0 <= q < n <= names.len(),
    ensures
        taint::has_tool(js::with_names(tools, names, n), names[q]),
    decreases n,
{
    let before = js::with_names(tools, names, n - 1);
    let now = js::with_names(tools, names, n);
    if q < n - 1 {
        lemma_named_is_listed(tools, names, q, n - 1);
        let i = choose|i: int| 0 <= i < before.len() && (#[trigger] before[i]).name == names[q];
        assert(now[i].name == names[q]);
    } else if !taint::has_tool(before, names[n - 1]) {
        assert(now[before.len() as int].name == names[q]);
    } else {
        let i = choose|i: int| 0 <= i < before.len() && (#[trigger] before[i]).name == names[q];
        assert(now[i].name == names[q]);
    }
}

/// A name that is declared as data is the value of such a key: of a word of its own, with the value
/// within 96 bytes after it and a word of a declaration within 400 bytes of it.
#[verifier::rlimit(60)]
pub proof fn law_declared_names_come_from_keys(s: Seq<char>, q: int)
    requires
        0 <= q < js::data_names(s).len(),
    ensures
        ({
            let v = js::data_names(s)[q];
            &&& v.len() > 0 && text::byte_len(v) <= 64
            &&& exists|i: int, st: int, e: int, a: int, b: int|
                0 <= i < s.len() && ((st == i + 5 && text::occurs_at(s, "name:"@, i)) || (st == i + 6 && text::occurs_at(s, "name ="@, i)) || (st
                == i + 5 && text::occurs_at(s, "name="@, i))) && (i > 0 ==> !(('0' <= s[i - 1] <= '9') || ('a' <= s[i - 1] <= 'z') || (
            'A' <= s[i - 1] <= 'Z') || s[i - 1] == '_' || s[i - 1] == '$')) && text::forward(s, st, 96) == Some(e) && js::quoted_start(
                #[trigger] s.subrange(st, e),
            ) == Some(v) && #[trigger] text::backward(s, i, 400) == Some(a) && text::forward(s, i, 400) == Some(b) && (text::contains(#[trigger] s.subrange(a, b), "inputSchema"@) || text::contains(s.subrange(a, b), "input_schema"@) || text::contains(s.subrange(a, b), "outputSchema"@) || text::contains(s.subrange(a, b), "description"@) || text::contains(s.subrange(a, b), "handler"@) || text::contains(s.subrange(a, b), "execute"@) || text::contains(s.subrange(a, b), "parameters"@) || text::contains(s.subrange(a, b), "annotations"@))
        }),
{
    reveal_strlit("name:");
    reveal_strlit("name =");
    reveal_strlit("name=");
    assert(js::NAME_KEYS@[0]@ == "name:"@ && js::NAME_KEYS@[1]@ == "name ="@ && js::NAME_KEYS@[2]@ == "name="@);
    let x = js::names_from(s, "name:"@, 0);
    let y = js::names_from(s, "name ="@, 0);
    let z = js::names_from(s, "name="@, 0);
    let all = js::data_names(s);
    assert(all == x + y + z);
    let v = all[q];
    let key = if q < x.len() {
        "name:"@
    } else if q < x.len() + y.len() {
        "name ="@
    } else {
        "name="@
    };
    let at = if q < x.len() {
        q
    } else if q < x.len() + y.len() {
        q - x.len()
    } else {
        q - x.len() - y.len()
    };
    assert(v == js::names_from(s, key, 0)[at]);
    lemma_name_from(s, key, 0, at);
    let i = choose|i: int|
        0 <= i < s.len() && text::occurs_at(s, key, i) && #[trigger] js::name_at(s, i, key.len() as int) == Some(v);
    let st = i + key.len();
    let e = text::forward(s, st, 96)->0;
    let a = text::backward(s, i, 400)->0;
    let b = text::forward(s, i, 400)->0;
    assert(js::is_fresh(s, i) && js::has_indicator(s, i));
    lemma_indicators(s.subrange(a, b));
    assert(js::quoted_start(s.subrange(st, e)) == Some(v));
    assert(text::backward(s, i, 400) == Some(a));
}

proof fn lemma_name_from(s: Seq<char>, key: Seq<char>, from: int, q: int)
    requires
        0 <= from,
        0 <= q < js::names_from(s, key, from).len(),
    ensures
        exists|i: int|
            0 <= i < s.len() && text::occurs_at(s, key, i) && #[trigger] js::name_at(s, i, key.len() as int) == Some(
                js::names_from(s, key, from)[q],
            ),
    decreases s.len() - from,
{
    if from < s.len() {
        let rest = js::names_from(s, key, from + 1);
        if js::name_at(s, from, key.len() as int) is Some && text::occurs_at(s, key, from) {
            if q > 0 {
                lemma_name_from(s, key, from + 1, q - 1);
                assert(js::names_from(s, key, from)[q] == rest[q - 1]);
            } else {
                assert(js::name_at(s, from, key.len() as int) == Some(js::names_from(s, key, from)[q]));
            }
        } else {
            lemma_name_from(s, key, from + 1, q);
        }
    }
}

/// A tool of a file is registered in it or declared as data: it is the tool of a registration, named by
/// its first quoted string, or it has a declared name and carries no fact.
pub proof fn law_tools_are_registered_or_declared(s: Seq<char>, q: int)
    requires
        0 <= q < js::file_tools(s).len(),
    ensures
        ({
            let t = js::file_tools(s)[q];
            ||| exists|i: int, e: int|
                0 <= i < e <= s.len() && (text::occurs_at(s, ".tool("@, i) || text::occurs_at(s, ".registerTool("@, i) || text::occurs_at(s, ".addTool("@, i) || text::occurs_at(s, "server.tool("@, i)) && js::quoted_first(#[trigger] s.subrange(i, e)) == Some(t.name) && t.name.len() > 0
                    && t == js::region_tool(s.subrange(i, e), t.name, text::line_number(taint::newlines(s, i)))
            ||| js::data_names(s).contains(t.name) && t.params.len() == 0 && !t.shell && !t.ssrf && !t.fs && !t.sql && !t.redos
                && !t.deser && !t.unbounded_limit && !t.desc_hidden_unicode && t.line == 0
        }),
{
    let ps = taint::positions(s, js::TOOL_MARKERS@, 0);
    let own = js::registered_tools(s, ps, ps.len() as int);
    let names = js::data_names(s);
    lemma_names_keep(own, names, names.len() as int);
    let t = js::file_tools(s)[q];
    if q < own.len() {
        assert(t == own[q]);
        lemma_registered_from(s, ps, ps.len() as int, q);
        let k = choose|k: int| 0 <= k < ps.len() && #[trigger] js::registered(s, ps, k) == Some(t);
        lemma_positions_mark(s, 0, k);
        lemma_marker_at(s, ps[k]);
        taint::lemma_positions(s, js::TOOL_MARKERS@, 0);
        let i = ps[k];
        let e = taint::region_end(s, ps, k);
        assert(i < e <= s.len()) by {
            if k + 1 < ps.len() {
                assert(ps[k] < ps[k + 1]);
            }
        }
        assert(js::quoted_first(s.subrange(i, e)) == Some(t.name));
    } else {
        lemma_declared_from(own, names, names.len() as int, q);
    }
}

proof fn lemma_registered_from(s: Seq<char>, ps: Seq<int>, n: int, q: int)
    requires
        0 <= n <= ps.len(),
        0 <= q < js::registered_tools(s, ps, n).len(),
    ensures
        exists|k: int| 0 <= k < ps.len() && #[trigger] js::registered(s, ps, k) == Some(js::registered_tools(s, ps, n)[q]),
    decreases n,
{
    let before = js::registered_tools(s, ps, n - 1);
    if q < before.len() {
        lemma_registered_from(s, ps, n - 1, q);
        assert(js::registered_tools(s, ps, n)[q] == before[q]);
    } else {
        assert(js::registered(s, ps, n - 1) == Some(js::registered_tools(s, ps, n)[q]));
    }
}

proof fn lemma_declared_from(tools: Seq<ToolFacts>, names: Seq<Seq<char>>, n: int, q: int)
    requires
        0 <= n <= names.len(),
        tools.len() <= q < js::with_names(tools, names, n).len(),
    ensures
        names.contains(js::with_names(tools, names, n)[q].name),
        js::with_names(tools, names, n)[q] == taint::clean_tool(js::with_names(tools, names, n)[q].name, Seq::empty()),
    decreases n,
{
    if n > 0 {
        let before = js::with_names(tools, names, n - 1);
        if q < before.len() {
            lemma_declared_from(tools, names, n - 1, q);
            assert(js::with_names(tools, names, n)[q] == before[q]);
        } else {
            assert(js::with_names(tools, names, n)[q] == taint::clean_tool(names[n - 1], Seq::empty()));
            assert(names[n - 1] == js::with_names(tools, names, n)[q].name);
        }
    }
}

/// An arrow function may be asynchronous: the keyword before its one parameter is no parameter.
pub proof fn law_async_is_no_parameter(head: Seq<char>, a: Seq<char>, b: Seq<char>, id: Seq<char>, gap: Seq<char>)
    requires
        text::is_blank(a),
        text::is_blank(b),
        b.len() > 0,
        text::is_blank(gap),
        id.len() > 0,
        forall|i: int|
            0 <= i < id.len() ==> ('0' <= #[trigger] id[i] <= '9') || ('a' <= id[i] <= 'z') || ('A' <= id[i] <= 'Z')
                || id[i] == '_' || id[i] == '$',
        head.len() > 0,
        head.last() == '(' || head.last() == ',' || head.last() == '=',
    ensures
        js::arrow_idents(head + a + "async"@ + b + id + gap) == seq![id],
{
    reveal_strlit("async");
    let w = "async"@;
    let top = head + a + w;
    let left = top + b;
    let all = left + id;
    let s = all + gap;
    assert(s =~= head + a + "async"@ + b + id + gap);
    assert(all.last() == id[id.len() - 1]);
    lemma_trim_end_around(all, gap);
    assert(left.last() == b[b.len() - 1]);
    lemma_suffix_is(left, id, id.len() as int);
    assert(all.skip(left.len() as int) =~= id);
    assert(js::bare_ident(s) == id);
    assert(all.take(all.len() - id.len()) =~= left);
    assert(top.last() == w[4]);
    lemma_trim_end_around(top, b);
    assert(text::trim_end(left) == top);
    assert(text::ends_with(top, w)) by {
        assert(top.subrange(top.len() - 5, top.len() as int) =~= w);
    }
    assert(top.take(top.len() - 5) =~= head + a);
    lemma_trim_end_around(head, a);
    assert(js::bare_head(s) == head);
}

// --- leaked credentials ----------------------------------------------------

/// A secret leaks where a line sends a variable to a known exfiltration host, and a line of the file
/// assigned to that variable what was read from the environment under a secret name, or from a
/// credential file. The first such line is cited.
pub proof fn law_leaks_reach_exfiltration_hosts(content: Seq<char>)
    requires
        text::lines(content).len() < 0xffff_ffff,
    ensures
        ({
            let ls = text::lines(content);
            &&& js::leak_line(content) is Some <==> exists|i: int, k: int, v: Seq<char>|
                0 <= i < ls.len() && 0 <= k < ls.len() && #[trigger] text::has_word(ls[i], v, true) && #[trigger] js::assigned(ls[k]) == Some(v)
                    && (text::contains(ls[i], "fetch("@) || text::contains(ls[i], "axios.post("@) || text::contains(ls[i], "axios.get("@) || text::contains(ls[i], "axios("@) || text::contains(ls[i], "got("@) || text::contains(ls[i], "http.request("@) || text::contains(ls[i], "https.request("@) || text::contains(ls[i], ".send("@)) && (text::contains(ls[i], "discord.com/api/webhooks"@) || text::contains(ls[i], "api.telegram.org"@) || text::contains(ls[i], "pastebin.com"@) || text::contains(ls[i], "requestbin"@) || text::contains(ls[i], "ngrok"@) || text::contains(ls[i], "oast."@) || text::contains(ls[i], "interact.sh"@) || text::contains(ls[i], "hookbin"@) || text::contains(ls[i], "webhook.site"@) || text::contains(ls[i], "burpcollaborator"@))
                    && (text::contains(ls[k], "process.env"@) && (text::contains(text::upper(ls[k]), "TOKEN"@) || text::contains(text::upper(ls[k]), "SECRET"@) || text::contains(text::upper(ls[k]), "PASSWORD"@) || text::contains(text::upper(ls[k]), "API_KEY"@) || text::contains(text::upper(ls[k]), "APIKEY"@) || text::contains(text::upper(ls[k]), "CREDENTIAL"@) || text::contains(text::upper(ls[k]), "PRIVATE_KEY"@) || text::contains(text::upper(ls[k]), "ACCESS_KEY"@) || text::contains(text::upper(ls[k]), "KEY"@)) || (text::contains(ls[k], ".aws/credentials"@) || text::contains(ls[k], ".ssh/"@) || text::contains(ls[k], ".npmrc"@) || text::contains(ls[k], "id_rsa"@)))
            &&& js::leak_line(content) matches Some(n) ==> 1 <= n <= ls.len() && js::leaks(ls, n - 1) && forall|i: int|
                0 <= i < n - 1 ==> !(#[trigger] js::leaks(ls, i))
            &&& js::file_analysis(content).secret_source_to_egress == (js::leak_line(content) is Some)
        }),
{
    let ls = text::lines(content);
    lemma_first_leak(ls, 0);
    if js::leak_line(content) is Some {
        let i = js::first_leak(ls, 0)->0;
        let v = choose|v: Seq<char>| #[trigger] js::holds_secret(ls, v) && text::has_word(ls[i], v, true);
        let k = choose|k: int| js::binds_secret(ls, k, v);
        lemma_line_marks(ls[i]);
        lemma_line_marks(ls[k]);
        assert(text::has_word(ls[i], v, true) && js::assigned(ls[k]) == Some(v));
    }
    if exists|i: int, k: int, v: Seq<char>|
                0 <= i < ls.len() && 0 <= k < ls.len() && #[trigger] text::has_word(ls[i], v, true) && #[trigger] js::assigned(ls[k]) == Some(v)
                    && (text::contains(ls[i], "fetch("@) || text::contains(ls[i], "axios.post("@) || text::contains(ls[i], "axios.get("@) || text::contains(ls[i], "axios("@) || text::contains(ls[i], "got("@) || text::contains(ls[i], "http.request("@) || text::contains(ls[i], "https.request("@) || text::contains(ls[i], ".send("@)) && (text::contains(ls[i], "discord.com/api/webhooks"@) || text::contains(ls[i], "api.telegram.org"@) || text::contains(ls[i], "pastebin.com"@) || text::contains(ls[i], "requestbin"@) || text::contains(ls[i], "ngrok"@) || text::contains(ls[i], "oast."@) || text::contains(ls[i], "interact.sh"@) || text::contains(ls[i], "hookbin"@) || text::contains(ls[i], "webhook.site"@) || text::contains(ls[i], "burpcollaborator"@))
                    && (text::contains(ls[k], "process.env"@) && (text::contains(text::upper(ls[k]), "TOKEN"@) || text::contains(text::upper(ls[k]), "SECRET"@) || text::contains(text::upper(ls[k]), "PASSWORD"@) || text::contains(text::upper(ls[k]), "API_KEY"@) || text::contains(text::upper(ls[k]), "APIKEY"@) || text::contains(text::upper(ls[k]), "CREDENTIAL"@) || text::contains(text::upper(ls[k]), "PRIVATE_KEY"@) || text::contains(text::upper(ls[k]), "ACCESS_KEY"@) || text::contains(text::upper(ls[k]), "KEY"@)) || (text::contains(ls[k], ".aws/credentials"@) || text::contains(ls[k], ".ssh/"@) || text::contains(ls[k], ".npmrc"@) || text::contains(ls[k], "id_rsa"@))) {
        let (i, k, v) = choose|i: int, k: int, v: Seq<char>|
                0 <= i < ls.len() && 0 <= k < ls.len() && #[trigger] text::has_word(ls[i], v, true) && #[trigger] js::assigned(ls[k]) == Some(v)
                    && (text::contains(ls[i], "fetch("@) || text::contains(ls[i], "axios.post("@) || text::contains(ls[i], "axios.get("@) || text::contains(ls[i], "axios("@) || text::contains(ls[i], "got("@) || text::contains(ls[i], "http.request("@) || text::contains(ls[i], "https.request("@) || text::contains(ls[i], ".send("@)) && (text::contains(ls[i], "discord.com/api/webhooks"@) || text::contains(ls[i], "api.telegram.org"@) || text::contains(ls[i], "pastebin.com"@) || text::contains(ls[i], "requestbin"@) || text::contains(ls[i], "ngrok"@) || text::contains(ls[i], "oast."@) || text::contains(ls[i], "interact.sh"@) || text::contains(ls[i], "hookbin"@) || text::contains(ls[i], "webhook.site"@) || text::contains(ls[i], "burpcollaborator"@))
                    && (text::contains(ls[k], "process.env"@) && (text::contains(text::upper(ls[k]), "TOKEN"@) || text::contains(text::upper(ls[k]), "SECRET"@) || text::contains(text::upper(ls[k]), "PASSWORD"@) || text::contains(text::upper(ls[k]), "API_KEY"@) || text::contains(text::upper(ls[k]), "APIKEY"@) || text::contains(text::upper(ls[k]), "CREDENTIAL"@) || text::contains(text::upper(ls[k]), "PRIVATE_KEY"@) || text::contains(text::upper(ls[k]), "ACCESS_KEY"@) || text::contains(text::upper(ls[k]), "KEY"@)) || (text::contains(ls[k], ".aws/credentials"@) || text::contains(ls[k], ".ssh/"@) || text::contains(ls[k], ".npmrc"@) || text::contains(ls[k], "id_rsa"@)));
        lemma_line_marks(ls[i]);
        lemma_line_marks(ls[k]);
        assert(js::binds_secret(ls, k, v));
        assert(js::holds_secret(ls, v));
        assert(js::leaks(ls, i));
    }
}

proof fn lemma_line_marks(s: Seq<char>)
    ensures
        text::has_marker(s, js::EGRESS@) == (text::contains(s, "fetch("@) || text::contains(s, "axios.post("@) || text::contains(s, "axios.get("@) || text::contains(s, "axios("@) || text::contains(s, "got("@) || text::contains(s, "http.request("@) || text::contains(s, "https.request("@) || text::contains(s, ".send("@)),
        text::has_marker(s, EXFIL_HOSTS@) == (text::contains(s, "discord.com/api/webhooks"@) || text::contains(s, "api.telegram.org"@) || text::contains(s, "pastebin.com"@) || text::contains(s, "requestbin"@) || text::contains(s, "ngrok"@) || text::contains(s, "oast."@) || text::contains(s, "interact.sh"@) || text::contains(s, "hookbin"@) || text::contains(s, "webhook.site"@) || text::contains(s, "burpcollaborator"@)),
        text::has_marker(s, js::CREDENTIAL_FILES@) == (text::contains(s, ".aws/credentials"@) || text::contains(s, ".ssh/"@) || text::contains(s, ".npmrc"@) || text::contains(s, "id_rsa"@)),
        taint::secretish(s) == (text::contains(text::upper(s), "TOKEN"@) || text::contains(text::upper(s), "SECRET"@) || text::contains(text::upper(s), "PASSWORD"@) || text::contains(text::upper(s), "API_KEY"@) || text::contains(text::upper(s), "APIKEY"@) || text::contains(text::upper(s), "CREDENTIAL"@) || text::contains(text::upper(s), "PRIVATE_KEY"@) || text::contains(text::upper(s), "ACCESS_KEY"@) || text::contains(text::upper(s), "KEY"@)),
{
    lemma_egress(s);
    lemma_exfil_hosts(s);
    lemma_credential_files(s);
    lemma_secret_words(text::upper(s));
}

proof fn lemma_first_leak(ls: Seq<Seq<char>>, i: int)
    requires
        0 <= i,
    ensures
        match js::first_leak(ls, i) {
            Some(n) => i <= n < ls.len() && js::leaks(ls, n) && forall|j: int| i <= j < n ==> !(#[trigger] js::leaks(ls, j)),
            None => forall|j: int| i <= j < ls.len() ==> !(#[trigger] js::leaks(ls, j)),
        },
    decreases ls.len() - i,
{
    if i < ls.len() && !js::leaks(ls, i) {
        lemma_first_leak(ls, i + 1);
    }
}

/// An assignment is read: the name before the first `=`, with white space around it and after a
/// declaring keyword or none, is the variable. A comparison and an arrow assign nothing.
pub proof fn law_assignments_are_read(a: Seq<char>, word: Seq<char>, v: Seq<char>, b: Seq<char>, rest: Seq<char>)
    requires
        text::is_blank(a),
        text::is_blank(b),
        word == "const "@ || word == "let "@ || word == "var "@,
        v.len() > 0,
        forall|i: int|
            0 <= i < v.len() ==> ('0' <= #[trigger] v[i] <= '9') || ('a' <= v[i] <= 'z') || ('A' <= v[i] <= 'Z') || v[i]
                == '_' || v[i] == '$',
    ensures
        js::assigned(a + (word + v) + b + seq!['='] + rest) == (if rest.len() > 0 && (rest[0] == '=' || rest[0] == '>') {
            None
        } else {
            Some(v)
        }),
        js::assigned(a + v + b + seq!['='] + rest) == (if rest.len() > 0 && (rest[0] == '=' || rest[0] == '>') {
            None
        } else {
            Some(v)
        }),
{
    reveal_strlit("const ");
    reveal_strlit("let ");
    reveal_strlit("var ");
    let w = word + v;
    lemma_left_side(a, w, b, rest);
    lemma_left_side(a, v, b, rest);
    assert forall|p: Seq<char>| p == "const "@ || p == "let "@ || p == "var "@ implies !(#[trigger] text::starts_with(v, p)) by {
        if text::starts_with(v, p) {
            let n = p.len() as int;
            assert(v.subrange(0, n)[n - 1] == v[n - 1]);
            assert(p[n - 1] == ' ');
        }
    }
    assert(!text::starts_with(v, "const "@) && !text::starts_with(v, "let "@) && !text::starts_with(v, "var "@));
    let n = word.len() as int;
    assert(w.subrange(0, n) =~= word);
    assert(w.skip(n) =~= v);
    assert(w[0] == word[0]);
    assert forall|p: Seq<char>| (p == "const "@ || p == "let "@ || p == "var "@) && p != word implies !(#[trigger] text::starts_with(
        w,
        p,
    )) by {
        if text::starts_with(w, p) {
            assert(w.subrange(0, p.len() as int)[0] == w[0]);
            assert(p[0] == word[0]);
        }
    }
    let none = Seq::<char>::empty();
    laws_python::lemma_trim_around(none, v, none);
    assert(none + v + none =~= v);
    laws_python::lemma_trim_around(none, w, none);
    assert(none + w + none =~= w);
    assert(js::target(a + w + b) == v);
    assert(js::target(a + v + b) == v);
    laws_text::law_identifiers_are_read_whole(v, none, true);
    assert(v + none =~= v);
    assert forall|i: int| 0 <= i < v.len() implies v[i] != '.' && v[i] != '[' by {}
}

proof fn lemma_left_side(a: Seq<char>, v: Seq<char>, b: Seq<char>, rest: Seq<char>)
    requires
        text::is_blank(a),
        text::is_blank(b),
        v.len() > 0,
        !text::is_space(v[0]),
        !text::is_space(v.last()),
        forall|i: int| 0 <= i < v.len() ==> #[trigger] v[i] != '=',
    ensures
        ({
            let line = a + v + b + seq!['='] + rest;
            &&& text::find_char(line, '=', 0) == (a + v + b).len() < line.len()
            &&& line.take((a + v + b).len() as int) == a + v + b
            &&& rest.len() > 0 ==> line[(a + v + b).len() as int + 1] == rest[0]
            &&& text::trim(a + v + b) == v
        }),
{
    let lhs = a + v + b;
    let line = a + v + b + seq!['='] + rest;
    let n = lhs.len() as int;
    assert(line[n] == '=');
    text::lemma_find_char(line, '=', 0);
    assert forall|i: int| 0 <= i < n implies line[i] != '=' by {
        if i < a.len() {
            assert(line[i] == a[i]);
        } else if i < a.len() + v.len() {
            assert(line[i] == v[i - a.len()]);
        } else {
            assert(line[i] == b[i - a.len() - v.len()]);
        }
    }
    assert(line.take(n) =~= lhs);
    laws_python::lemma_trim_around(a, v, b);
    if rest.len() > 0 {
        assert(line[n + 1] == rest[0]);
    }
}

} // verus!
