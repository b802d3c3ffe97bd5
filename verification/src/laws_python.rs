//! What the analysis of Python sources is for, stated over the lines of a module: which functions are
//! tools, which lines belong to a tool, and which line taints it with what.
use crate::laws_text;
use crate::literal;
use crate::literal::Language;
use crate::python;
use crate::python::DefFacts;
use crate::taint;
use crate::taint::{EXFIL_HOSTS, SECRET_WORDS, ToolFacts};
use crate::text;
use vstd::prelude::*;

verus! {

proof fn lemma_tool_decorators(s: Seq<char>)
    ensures
        text::starts_with_any(s, python::TOOL_DECORATORS@) == (text::starts_with(s, "@mcp.tool"@) || text::starts_with(s, "@app.tool"@) || text::starts_with(s, "@server.tool"@) || text::starts_with(s, "@tool"@) || text::starts_with(s, "@mcp.resource"@)),
{
    assert(python::TOOL_DECORATORS@[0]@ == "@mcp.tool"@);
    assert(python::TOOL_DECORATORS@[1]@ == "@app.tool"@);
    assert(python::TOOL_DECORATORS@[2]@ == "@server.tool"@);
    assert(python::TOOL_DECORATORS@[3]@ == "@tool"@);
    assert(python::TOOL_DECORATORS@[4]@ == "@mcp.resource"@);
    if text::starts_with_any(s, python::TOOL_DECORATORS@) {
        let k = choose|k: int| 0 <= k < python::TOOL_DECORATORS@.len() && text::starts_with(s, (#[trigger] python::TOOL_DECORATORS@[k])@);
        assert(k == 0 || k == 1 || k == 2 || k == 3 || k == 4);
    }
    if text::starts_with(s, "@mcp.tool"@) {
        assert(text::starts_with(s, python::TOOL_DECORATORS@[0]@));
    }
    if text::starts_with(s, "@app.tool"@) {
        assert(text::starts_with(s, python::TOOL_DECORATORS@[1]@));
    }
    if text::starts_with(s, "@server.tool"@) {
        assert(text::starts_with(s, python::TOOL_DECORATORS@[2]@));
    }
    if text::starts_with(s, "@tool"@) {
        assert(text::starts_with(s, python::TOOL_DECORATORS@[3]@));
    }
    if text::starts_with(s, "@mcp.resource"@) {
        assert(text::starts_with(s, python::TOOL_DECORATORS@[4]@));
    }
}

proof fn lemma_shell(s: Seq<char>)
    ensures
        text::has_marker(s, python::SHELL@) == (text::contains(s, "subprocess.run("@) || text::contains(s, "subprocess.call("@) || text::contains(s, "subprocess.Popen("@) || text::contains(s, "subprocess.check_output("@) || text::contains(s, "subprocess.check_call("@) || text::contains(s, "os.system("@) || text::contains(s, "os.popen("@) || text::contains(s, "Popen("@) || text::contains(s, "commands.getoutput("@) || text::contains(s, "eval("@) || text::contains(s, "exec("@)),
{
    assert(python::SHELL@[0]@ == "subprocess.run("@);
    assert(python::SHELL@[1]@ == "subprocess.call("@);
    assert(python::SHELL@[2]@ == "subprocess.Popen("@);
    assert(python::SHELL@[3]@ == "subprocess.check_output("@);
    assert(python::SHELL@[4]@ == "subprocess.check_call("@);
    assert(python::SHELL@[5]@ == "os.system("@);
    assert(python::SHELL@[6]@ == "os.popen("@);
    assert(python::SHELL@[7]@ == "Popen("@);
    assert(python::SHELL@[8]@ == "commands.getoutput("@);
    assert(python::SHELL@[9]@ == "eval("@);
    assert(python::SHELL@[10]@ == "exec("@);
    if text::has_marker(s, python::SHELL@) {
        let k = choose|k: int| 0 <= k < python::SHELL@.len() && text::contains(s, (#[trigger] python::SHELL@[k])@);
        assert(k == 0 || k == 1 || k == 2 || k == 3 || k == 4 || k == 5 || k == 6 || k == 7 || k == 8 || k == 9 || k == 10);
    }
    if text::contains(s, "subprocess.run("@) {
        assert(text::contains(s, python::SHELL@[0]@));
    }
    if text::contains(s, "subprocess.call("@) {
        assert(text::contains(s, python::SHELL@[1]@));
    }
    if text::contains(s, "subprocess.Popen("@) {
        assert(text::contains(s, python::SHELL@[2]@));
    }
    if text::contains(s, "subprocess.check_output("@) {
        assert(text::contains(s, python::SHELL@[3]@));
    }
    if text::contains(s, "subprocess.check_call("@) {
        assert(text::contains(s, python::SHELL@[4]@));
    }
    if text::contains(s, "os.system("@) {
        assert(text::contains(s, python::SHELL@[5]@));
    }
    if text::contains(s, "os.popen("@) {
        assert(text::contains(s, python::SHELL@[6]@));
    }
    if text::contains(s, "Popen("@) {
        assert(text::contains(s, python::SHELL@[7]@));
    }
    if text::contains(s, "commands.getoutput("@) {
        assert(text::contains(s, python::SHELL@[8]@));
    }
    if text::contains(s, "eval("@) {
        assert(text::contains(s, python::SHELL@[9]@));
    }
    if text::contains(s, "exec("@) {
        assert(text::contains(s, python::SHELL@[10]@));
    }
}

proof fn lemma_ssrf(s: Seq<char>)
    ensures
        text::has_marker(s, python::SSRF@) == (text::contains(s, "requests.get("@) || text::contains(s, "requests.post("@) || text::contains(s, "requests.put("@) || text::contains(s, "requests.delete("@) || text::contains(s, "requests.request("@) || text::contains(s, "requests.head("@) || text::contains(s, "httpx.get("@) || text::contains(s, "httpx.post("@) || text::contains(s, "httpx.request("@) || text::contains(s, "httpx.stream("@) || text::contains(s, "urlopen("@) || text::contains(s, "session.get("@) || text::contains(s, "session.post("@) || text::contains(s, "client.get("@) || text::contains(s, "client.post("@)),
{
    assert(python::SSRF@[0]@ == "requests.get("@);
    assert(python::SSRF@[1]@ == "requests.post("@);
    assert(python::SSRF@[2]@ == "requests.put("@);
    assert(python::SSRF@[3]@ == "requests.delete("@);
    assert(python::SSRF@[4]@ == "requests.request("@);
    assert(python::SSRF@[5]@ == "requests.head("@);
    assert(python::SSRF@[6]@ == "httpx.get("@);
    assert(python::SSRF@[7]@ == "httpx.post("@);
    assert(python::SSRF@[8]@ == "httpx.request("@);
    assert(python::SSRF@[9]@ == "httpx.stream("@);
    assert(python::SSRF@[10]@ == "urlopen("@);
    assert(python::SSRF@[11]@ == "session.get("@);
    assert(python::SSRF@[12]@ == "session.post("@);
    assert(python::SSRF@[13]@ == "client.get("@);
    assert(python::SSRF@[14]@ == "client.post("@);
    if text::has_marker(s, python::SSRF@) {
        let k = choose|k: int| 0 <= k < python::SSRF@.len() && text::contains(s, (#[trigger] python::SSRF@[k])@);
        assert(k == 0 || k == 1 || k == 2 || k == 3 || k == 4 || k == 5 || k == 6 || k == 7 || k == 8 || k == 9 || k == 10 || k == 11 || k == 12 || k == 13 || k == 14);
    }
    if text::contains(s, "requests.get("@) {
        assert(text::contains(s, python::SSRF@[0]@));
    }
    if text::contains(s, "requests.post("@) {
        assert(text::contains(s, python::SSRF@[1]@));
    }
    if text::contains(s, "requests.put("@) {
        assert(text::contains(s, python::SSRF@[2]@));
    }
    if text::contains(s, "requests.delete("@) {
        assert(text::contains(s, python::SSRF@[3]@));
    }
    if text::contains(s, "requests.request("@) {
        assert(text::contains(s, python::SSRF@[4]@));
    }
    if text::contains(s, "requests.head("@) {
        assert(text::contains(s, python::SSRF@[5]@));
    }
    if text::contains(s, "httpx.get("@) {
        assert(text::contains(s, python::SSRF@[6]@));
    }
    if text::contains(s, "httpx.post("@) {
        assert(text::contains(s, python::SSRF@[7]@));
    }
    if text::contains(s, "httpx.request("@) {
        assert(text::contains(s, python::SSRF@[8]@));
    }
    if text::contains(s, "httpx.stream("@) {
        assert(text::contains(s, python::SSRF@[9]@));
    }
    if text::contains(s, "urlopen("@) {
        assert(text::contains(s, python::SSRF@[10]@));
    }
    if text::contains(s, "session.get("@) {
        assert(text::contains(s, python::SSRF@[11]@));
    }
    if text::contains(s, "session.post("@) {
        assert(text::contains(s, python::SSRF@[12]@));
    }
    if text::contains(s, "client.get("@) {
        assert(text::contains(s, python::SSRF@[13]@));
    }
    if text::contains(s, "client.post("@) {
        assert(text::contains(s, python::SSRF@[14]@));
    }
}

proof fn lemma_fs(s: Seq<char>)
    ensures
        text::has_marker(s, python::FS@) == (text::contains(s, "open("@) || text::contains(s, "Path("@) || text::contains(s, "os.path.join("@) || text::contains(s, ".read_text("@) || text::contains(s, ".write_text("@) || text::contains(s, "shutil.copy"@) || text::contains(s, "shutil.move"@) || text::contains(s, "os.remove("@) || text::contains(s, "os.listdir("@) || text::contains(s, "glob.glob("@) || text::contains(s, "send_file("@)),
{
    assert(python::FS@[0]@ == "open("@);
    assert(python::FS@[1]@ == "Path("@);
    assert(python::FS@[2]@ == "os.path.join("@);
    assert(python::FS@[3]@ == ".read_text("@);
    assert(python::FS@[4]@ == ".write_text("@);
    assert(python::FS@[5]@ == "shutil.copy"@);
    assert(python::FS@[6]@ == "shutil.move"@);
    assert(python::FS@[7]@ == "os.remove("@);
    assert(python::FS@[8]@ == "os.listdir("@);
    assert(python::FS@[9]@ == "glob.glob("@);
    assert(python::FS@[10]@ == "send_file("@);
    if text::has_marker(s, python::FS@) {
        let k = choose|k: int| 0 <= k < python::FS@.len() && text::contains(s, (#[trigger] python::FS@[k])@);
        assert(k == 0 || k == 1 || k == 2 || k == 3 || k == 4 || k == 5 || k == 6 || k == 7 || k == 8 || k == 9 || k == 10);
    }
    if text::contains(s, "open("@) {
        assert(text::contains(s, python::FS@[0]@));
    }
    if text::contains(s, "Path("@) {
        assert(text::contains(s, python::FS@[1]@));
    }
    if text::contains(s, "os.path.join("@) {
        assert(text::contains(s, python::FS@[2]@));
    }
    if text::contains(s, ".read_text("@) {
        assert(text::contains(s, python::FS@[3]@));
    }
    if text::contains(s, ".write_text("@) {
        assert(text::contains(s, python::FS@[4]@));
    }
    if text::contains(s, "shutil.copy"@) {
        assert(text::contains(s, python::FS@[5]@));
    }
    if text::contains(s, "shutil.move"@) {
        assert(text::contains(s, python::FS@[6]@));
    }
    if text::contains(s, "os.remove("@) {
        assert(text::contains(s, python::FS@[7]@));
    }
    if text::contains(s, "os.listdir("@) {
        assert(text::contains(s, python::FS@[8]@));
    }
    if text::contains(s, "glob.glob("@) {
        assert(text::contains(s, python::FS@[9]@));
    }
    if text::contains(s, "send_file("@) {
        assert(text::contains(s, python::FS@[10]@));
    }
}

proof fn lemma_sql(s: Seq<char>)
    ensures
        text::has_marker(s, python::SQL@) == (text::contains(s, ".execute("@) || text::contains(s, ".executemany("@) || text::contains(s, ".executescript("@) || text::contains(s, ".raw("@)),
{
    assert(python::SQL@[0]@ == ".execute("@);
    assert(python::SQL@[1]@ == ".executemany("@);
    assert(python::SQL@[2]@ == ".executescript("@);
    assert(python::SQL@[3]@ == ".raw("@);
    if text::has_marker(s, python::SQL@) {
        let k = choose|k: int| 0 <= k < python::SQL@.len() && text::contains(s, (#[trigger] python::SQL@[k])@);
        assert(k == 0 || k == 1 || k == 2 || k == 3);
    }
    if text::contains(s, ".execute("@) {
        assert(text::contains(s, python::SQL@[0]@));
    }
    if text::contains(s, ".executemany("@) {
        assert(text::contains(s, python::SQL@[1]@));
    }
    if text::contains(s, ".executescript("@) {
        assert(text::contains(s, python::SQL@[2]@));
    }
    if text::contains(s, ".raw("@) {
        assert(text::contains(s, python::SQL@[3]@));
    }
}

proof fn lemma_redos(s: Seq<char>)
    ensures
        text::has_marker(s, python::REDOS@) == (text::contains(s, ".str.contains("@) || text::contains(s, "re.search("@) || text::contains(s, "re.match("@) || text::contains(s, "re.compile("@) || text::contains(s, "re.findall("@) || text::contains(s, "re.fullmatch("@)),
{
    assert(python::REDOS@[0]@ == ".str.contains("@);
    assert(python::REDOS@[1]@ == "re.search("@);
    assert(python::REDOS@[2]@ == "re.match("@);
    assert(python::REDOS@[3]@ == "re.compile("@);
    assert(python::REDOS@[4]@ == "re.findall("@);
    assert(python::REDOS@[5]@ == "re.fullmatch("@);
    if text::has_marker(s, python::REDOS@) {
        let k = choose|k: int| 0 <= k < python::REDOS@.len() && text::contains(s, (#[trigger] python::REDOS@[k])@);
        assert(k == 0 || k == 1 || k == 2 || k == 3 || k == 4 || k == 5);
    }
    if text::contains(s, ".str.contains("@) {
        assert(text::contains(s, python::REDOS@[0]@));
    }
    if text::contains(s, "re.search("@) {
        assert(text::contains(s, python::REDOS@[1]@));
    }
    if text::contains(s, "re.match("@) {
        assert(text::contains(s, python::REDOS@[2]@));
    }
    if text::contains(s, "re.compile("@) {
        assert(text::contains(s, python::REDOS@[3]@));
    }
    if text::contains(s, "re.findall("@) {
        assert(text::contains(s, python::REDOS@[4]@));
    }
    if text::contains(s, "re.fullmatch("@) {
        assert(text::contains(s, python::REDOS@[5]@));
    }
}

proof fn lemma_deser(s: Seq<char>)
    ensures
        text::has_marker(s, python::DESER@) == (text::contains(s, "pickle.loads("@) || text::contains(s, "pickle.load("@) || text::contains(s, "marshal.loads("@) || text::contains(s, "yaml.load("@)),
{
    assert(python::DESER@[0]@ == "pickle.loads("@);
    assert(python::DESER@[1]@ == "pickle.load("@);
    assert(python::DESER@[2]@ == "marshal.loads("@);
    assert(python::DESER@[3]@ == "yaml.load("@);
    if text::has_marker(s, python::DESER@) {
        let k = choose|k: int| 0 <= k < python::DESER@.len() && text::contains(s, (#[trigger] python::DESER@[k])@);
        assert(k == 0 || k == 1 || k == 2 || k == 3);
    }
    if text::contains(s, "pickle.loads("@) {
        assert(text::contains(s, python::DESER@[0]@));
    }
    if text::contains(s, "pickle.load("@) {
        assert(text::contains(s, python::DESER@[1]@));
    }
    if text::contains(s, "marshal.loads("@) {
        assert(text::contains(s, python::DESER@[2]@));
    }
    if text::contains(s, "yaml.load("@) {
        assert(text::contains(s, python::DESER@[3]@));
    }
}

proof fn lemma_egress(s: Seq<char>)
    ensures
        text::has_marker(s, python::EGRESS@) == (text::contains(s, "requests.post("@) || text::contains(s, "requests.get("@) || text::contains(s, "requests.put("@) || text::contains(s, "httpx.post("@) || text::contains(s, "httpx.get("@) || text::contains(s, "urlopen("@) || text::contains(s, "session.post("@) || text::contains(s, ".send("@) || text::contains(s, "socket.send"@) || text::contains(s, "aiohttp"@)),
{
    assert(python::EGRESS@[0]@ == "requests.post("@);
    assert(python::EGRESS@[1]@ == "requests.get("@);
    assert(python::EGRESS@[2]@ == "requests.put("@);
    assert(python::EGRESS@[3]@ == "httpx.post("@);
    assert(python::EGRESS@[4]@ == "httpx.get("@);
    assert(python::EGRESS@[5]@ == "urlopen("@);
    assert(python::EGRESS@[6]@ == "session.post("@);
    assert(python::EGRESS@[7]@ == ".send("@);
    assert(python::EGRESS@[8]@ == "socket.send"@);
    assert(python::EGRESS@[9]@ == "aiohttp"@);
    if text::has_marker(s, python::EGRESS@) {
        let k = choose|k: int| 0 <= k < python::EGRESS@.len() && text::contains(s, (#[trigger] python::EGRESS@[k])@);
        assert(k == 0 || k == 1 || k == 2 || k == 3 || k == 4 || k == 5 || k == 6 || k == 7 || k == 8 || k == 9);
    }
    if text::contains(s, "requests.post("@) {
        assert(text::contains(s, python::EGRESS@[0]@));
    }
    if text::contains(s, "requests.get("@) {
        assert(text::contains(s, python::EGRESS@[1]@));
    }
    if text::contains(s, "requests.put("@) {
        assert(text::contains(s, python::EGRESS@[2]@));
    }
    if text::contains(s, "httpx.post("@) {
        assert(text::contains(s, python::EGRESS@[3]@));
    }
    if text::contains(s, "httpx.get("@) {
        assert(text::contains(s, python::EGRESS@[4]@));
    }
    if text::contains(s, "urlopen("@) {
        assert(text::contains(s, python::EGRESS@[5]@));
    }
    if text::contains(s, "session.post("@) {
        assert(text::contains(s, python::EGRESS@[6]@));
    }
    if text::contains(s, ".send("@) {
        assert(text::contains(s, python::EGRESS@[7]@));
    }
    if text::contains(s, "socket.send"@) {
        assert(text::contains(s, python::EGRESS@[8]@));
    }
    if text::contains(s, "aiohttp"@) {
        assert(text::contains(s, python::EGRESS@[9]@));
    }
}

proof fn lemma_string_builders(s: Seq<char>)
    ensures
        text::has_marker(s, python::STRING_BUILDERS@) == (text::contains(s, "f\""@) || text::contains(s, "f'"@) || text::contains(s, ".format("@) || text::contains(s, "% "@) || text::contains(s, "\" +"@) || text::contains(s, "' +"@) || text::contains(s, "+ \""@) || text::contains(s, "+ '"@)),
{
    assert(python::STRING_BUILDERS@[0]@ == "f\""@);
    assert(python::STRING_BUILDERS@[1]@ == "f'"@);
    assert(python::STRING_BUILDERS@[2]@ == ".format("@);
    assert(python::STRING_BUILDERS@[3]@ == "% "@);
    assert(python::STRING_BUILDERS@[4]@ == "\" +"@);
    assert(python::STRING_BUILDERS@[5]@ == "' +"@);
    assert(python::STRING_BUILDERS@[6]@ == "+ \""@);
    assert(python::STRING_BUILDERS@[7]@ == "+ '"@);
    if text::has_marker(s, python::STRING_BUILDERS@) {
        let k = choose|k: int| 0 <= k < python::STRING_BUILDERS@.len() && text::contains(s, (#[trigger] python::STRING_BUILDERS@[k])@);
        assert(k == 0 || k == 1 || k == 2 || k == 3 || k == 4 || k == 5 || k == 6 || k == 7);
    }
    if text::contains(s, "f\""@) {
        assert(text::contains(s, python::STRING_BUILDERS@[0]@));
    }
    if text::contains(s, "f'"@) {
        assert(text::contains(s, python::STRING_BUILDERS@[1]@));
    }
    if text::contains(s, ".format("@) {
        assert(text::contains(s, python::STRING_BUILDERS@[2]@));
    }
    if text::contains(s, "% "@) {
        assert(text::contains(s, python::STRING_BUILDERS@[3]@));
    }
    if text::contains(s, "\" +"@) {
        assert(text::contains(s, python::STRING_BUILDERS@[4]@));
    }
    if text::contains(s, "' +"@) {
        assert(text::contains(s, python::STRING_BUILDERS@[5]@));
    }
    if text::contains(s, "+ \""@) {
        assert(text::contains(s, python::STRING_BUILDERS@[6]@));
    }
    if text::contains(s, "+ '"@) {
        assert(text::contains(s, python::STRING_BUILDERS@[7]@));
    }
}

proof fn lemma_credential_files(s: Seq<char>)
    ensures
        text::has_marker(s, python::CREDENTIAL_FILES@) == (text::contains(s, ".aws/credentials"@) || text::contains(s, ".ssh/"@) || text::contains(s, ".npmrc"@) || text::contains(s, "id_rsa"@) || text::contains(s, ".docker/config.json"@)),
{
    assert(python::CREDENTIAL_FILES@[0]@ == ".aws/credentials"@);
    assert(python::CREDENTIAL_FILES@[1]@ == ".ssh/"@);
    assert(python::CREDENTIAL_FILES@[2]@ == ".npmrc"@);
    assert(python::CREDENTIAL_FILES@[3]@ == "id_rsa"@);
    assert(python::CREDENTIAL_FILES@[4]@ == ".docker/config.json"@);
    if text::has_marker(s, python::CREDENTIAL_FILES@) {
        let k = choose|k: int| 0 <= k < python::CREDENTIAL_FILES@.len() && text::contains(s, (#[trigger] python::CREDENTIAL_FILES@[k])@);
        assert(k == 0 || k == 1 || k == 2 || k == 3 || k == 4);
    }
    if text::contains(s, ".aws/credentials"@) {
        assert(text::contains(s, python::CREDENTIAL_FILES@[0]@));
    }
    if text::contains(s, ".ssh/"@) {
        assert(text::contains(s, python::CREDENTIAL_FILES@[1]@));
    }
    if text::contains(s, ".npmrc"@) {
        assert(text::contains(s, python::CREDENTIAL_FILES@[2]@));
    }
    if text::contains(s, "id_rsa"@) {
        assert(text::contains(s, python::CREDENTIAL_FILES@[3]@));
    }
    if text::contains(s, ".docker/config.json"@) {
        assert(text::contains(s, python::CREDENTIAL_FILES@[4]@));
    }
}

proof fn lemma_url_guard(s: Seq<char>)
    ensures
        text::has_marker(s, python::URL_GUARD@) == (text::contains(s, "allowlist"@) || text::contains(s, "allow_list"@) || text::contains(s, "allowed_hosts"@) || text::contains(s, "ALLOWED_HOSTS"@) || text::contains(s, "is_private"@) || text::contains(s, "validate_url"@) || text::contains(s, "is_allowed_host"@) || text::contains(s, "check_url"@)),
{
    assert(python::URL_GUARD@[0]@ == "allowlist"@);
    assert(python::URL_GUARD@[1]@ == "allow_list"@);
    assert(python::URL_GUARD@[2]@ == "allowed_hosts"@);
    assert(python::URL_GUARD@[3]@ == "ALLOWED_HOSTS"@);
    assert(python::URL_GUARD@[4]@ == "is_private"@);
    assert(python::URL_GUARD@[5]@ == "validate_url"@);
    assert(python::URL_GUARD@[6]@ == "is_allowed_host"@);
    assert(python::URL_GUARD@[7]@ == "check_url"@);
    if text::has_marker(s, python::URL_GUARD@) {
        let k = choose|k: int| 0 <= k < python::URL_GUARD@.len() && text::contains(s, (#[trigger] python::URL_GUARD@[k])@);
        assert(k == 0 || k == 1 || k == 2 || k == 3 || k == 4 || k == 5 || k == 6 || k == 7);
    }
    if text::contains(s, "allowlist"@) {
        assert(text::contains(s, python::URL_GUARD@[0]@));
    }
    if text::contains(s, "allow_list"@) {
        assert(text::contains(s, python::URL_GUARD@[1]@));
    }
    if text::contains(s, "allowed_hosts"@) {
        assert(text::contains(s, python::URL_GUARD@[2]@));
    }
    if text::contains(s, "ALLOWED_HOSTS"@) {
        assert(text::contains(s, python::URL_GUARD@[3]@));
    }
    if text::contains(s, "is_private"@) {
        assert(text::contains(s, python::URL_GUARD@[4]@));
    }
    if text::contains(s, "validate_url"@) {
        assert(text::contains(s, python::URL_GUARD@[5]@));
    }
    if text::contains(s, "is_allowed_host"@) {
        assert(text::contains(s, python::URL_GUARD@[6]@));
    }
    if text::contains(s, "check_url"@) {
        assert(text::contains(s, python::URL_GUARD@[7]@));
    }
}

proof fn lemma_path_guard(s: Seq<char>)
    ensures
        text::has_marker(s, python::PATH_GUARD@) == (text::contains(s, "validate_relative_path"@) || text::contains(s, "is_relative_to"@) || text::contains(s, "relative_to("@) || text::contains(s, "commonpath("@) || text::contains(s, "\"..\""@) || text::contains(s, "'..'"@)),
{
    assert(python::PATH_GUARD@[0]@ == "validate_relative_path"@);
    assert(python::PATH_GUARD@[1]@ == "is_relative_to"@);
    assert(python::PATH_GUARD@[2]@ == "relative_to("@);
    assert(python::PATH_GUARD@[3]@ == "commonpath("@);
    assert(python::PATH_GUARD@[4]@ == "\"..\""@);
    assert(python::PATH_GUARD@[5]@ == "'..'"@);
    if text::has_marker(s, python::PATH_GUARD@) {
        let k = choose|k: int| 0 <= k < python::PATH_GUARD@.len() && text::contains(s, (#[trigger] python::PATH_GUARD@[k])@);
        assert(k == 0 || k == 1 || k == 2 || k == 3 || k == 4 || k == 5);
    }
    if text::contains(s, "validate_relative_path"@) {
        assert(text::contains(s, python::PATH_GUARD@[0]@));
    }
    if text::contains(s, "is_relative_to"@) {
        assert(text::contains(s, python::PATH_GUARD@[1]@));
    }
    if text::contains(s, "relative_to("@) {
        assert(text::contains(s, python::PATH_GUARD@[2]@));
    }
    if text::contains(s, "commonpath("@) {
        assert(text::contains(s, python::PATH_GUARD@[3]@));
    }
    if text::contains(s, "\"..\""@) {
        assert(text::contains(s, python::PATH_GUARD@[4]@));
    }
    if text::contains(s, "'..'"@) {
        assert(text::contains(s, python::PATH_GUARD@[5]@));
    }
}

proof fn lemma_limit_names(s: Seq<char>)
    ensures
        text::is_listed(s, python::LIMIT_NAMES@) == (s == "limit"@ || s == "max"@ || s == "top"@ || s == "count"@ || s == "size"@ || s == "rows"@ || s == "page_size"@ || s == "offset"@ || s == "length"@ || s == "n"@),
{
    assert(python::LIMIT_NAMES@[0]@ == "limit"@);
    assert(python::LIMIT_NAMES@[1]@ == "max"@);
    assert(python::LIMIT_NAMES@[2]@ == "top"@);
    assert(python::LIMIT_NAMES@[3]@ == "count"@);
    assert(python::LIMIT_NAMES@[4]@ == "size"@);
    assert(python::LIMIT_NAMES@[5]@ == "rows"@);
    assert(python::LIMIT_NAMES@[6]@ == "page_size"@);
    assert(python::LIMIT_NAMES@[7]@ == "offset"@);
    assert(python::LIMIT_NAMES@[8]@ == "length"@);
    assert(python::LIMIT_NAMES@[9]@ == "n"@);
    if text::is_listed(s, python::LIMIT_NAMES@) {
        let k = choose|k: int| 0 <= k < python::LIMIT_NAMES@.len() && s == (#[trigger] python::LIMIT_NAMES@[k])@;
        assert(k == 0 || k == 1 || k == 2 || k == 3 || k == 4 || k == 5 || k == 6 || k == 7 || k == 8 || k == 9);
    }
    if s == "limit"@ {
        assert(s == python::LIMIT_NAMES@[0]@);
    }
    if s == "max"@ {
        assert(s == python::LIMIT_NAMES@[1]@);
    }
    if s == "top"@ {
        assert(s == python::LIMIT_NAMES@[2]@);
    }
    if s == "count"@ {
        assert(s == python::LIMIT_NAMES@[3]@);
    }
    if s == "size"@ {
        assert(s == python::LIMIT_NAMES@[4]@);
    }
    if s == "rows"@ {
        assert(s == python::LIMIT_NAMES@[5]@);
    }
    if s == "page_size"@ {
        assert(s == python::LIMIT_NAMES@[6]@);
    }
    if s == "offset"@ {
        assert(s == python::LIMIT_NAMES@[7]@);
    }
    if s == "length"@ {
        assert(s == python::LIMIT_NAMES@[8]@);
    }
    if s == "n"@ {
        assert(s == python::LIMIT_NAMES@[9]@);
    }
}

proof fn lemma_exfil_hosts(s: Seq<char>)
    ensures
        text::has_marker(s, EXFIL_HOSTS@) == (text::contains(s, "discord.com/api/webhooks"@) || text::contains(s, "api.telegram.org"@) || text::contains(s, "pastebin.com"@) || text::contains(s, "requestbin"@) || text::contains(s, "ngrok"@) || text::contains(s, "oast."@) || text::contains(s, "interact.sh"@) || text::contains(s, "hookbin"@) || text::contains(s, "webhook.site"@) || text::contains(s, "burpcollaborator"@)),
{
    assert(EXFIL_HOSTS@[0]@ == "discord.com/api/webhooks"@);
    assert(EXFIL_HOSTS@[1]@ == "api.telegram.org"@);
    assert(EXFIL_HOSTS@[2]@ == "pastebin.com"@);
    assert(EXFIL_HOSTS@[3]@ == "requestbin"@);
    assert(EXFIL_HOSTS@[4]@ == "ngrok"@);
    assert(EXFIL_HOSTS@[5]@ == "oast."@);
    assert(EXFIL_HOSTS@[6]@ == "interact.sh"@);
    assert(EXFIL_HOSTS@[7]@ == "hookbin"@);
    assert(EXFIL_HOSTS@[8]@ == "webhook.site"@);
    assert(EXFIL_HOSTS@[9]@ == "burpcollaborator"@);
    if text::has_marker(s, EXFIL_HOSTS@) {
        let k = choose|k: int| 0 <= k < EXFIL_HOSTS@.len() && text::contains(s, (#[trigger] EXFIL_HOSTS@[k])@);
        assert(k == 0 || k == 1 || k == 2 || k == 3 || k == 4 || k == 5 || k == 6 || k == 7 || k == 8 || k == 9);
    }
    if text::contains(s, "discord.com/api/webhooks"@) {
        assert(text::contains(s, EXFIL_HOSTS@[0]@));
    }
    if text::contains(s, "api.telegram.org"@) {
        assert(text::contains(s, EXFIL_HOSTS@[1]@));
    }
    if text::contains(s, "pastebin.com"@) {
        assert(text::contains(s, EXFIL_HOSTS@[2]@));
    }
    if text::contains(s, "requestbin"@) {
        assert(text::contains(s, EXFIL_HOSTS@[3]@));
    }
    if text::contains(s, "ngrok"@) {
        assert(text::contains(s, EXFIL_HOSTS@[4]@));
    }
    if text::contains(s, "oast."@) {
        assert(text::contains(s, EXFIL_HOSTS@[5]@));
    }
    if text::contains(s, "interact.sh"@) {
        assert(text::contains(s, EXFIL_HOSTS@[6]@));
    }
    if text::contains(s, "hookbin"@) {
        assert(text::contains(s, EXFIL_HOSTS@[7]@));
    }
    if text::contains(s, "webhook.site"@) {
        assert(text::contains(s, EXFIL_HOSTS@[8]@));
    }
    if text::contains(s, "burpcollaborator"@) {
        assert(text::contains(s, EXFIL_HOSTS@[9]@));
    }
}

proof fn lemma_secret_words(s: Seq<char>)
    ensures
        text::has_marker(s, SECRET_WORDS@) == (text::contains(s, "TOKEN"@) || text::contains(s, "SECRET"@) || text::contains(s, "PASSWORD"@) || text::contains(s, "API_KEY"@) || text::contains(s, "APIKEY"@) || text::contains(s, "CREDENTIAL"@) || text::contains(s, "PRIVATE_KEY"@) || text::contains(s, "ACCESS_KEY"@)),
{
    assert(SECRET_WORDS@[0]@ == "TOKEN"@);
    assert(SECRET_WORDS@[1]@ == "SECRET"@);
    assert(SECRET_WORDS@[2]@ == "PASSWORD"@);
    assert(SECRET_WORDS@[3]@ == "API_KEY"@);
    assert(SECRET_WORDS@[4]@ == "APIKEY"@);
    assert(SECRET_WORDS@[5]@ == "CREDENTIAL"@);
    assert(SECRET_WORDS@[6]@ == "PRIVATE_KEY"@);
    assert(SECRET_WORDS@[7]@ == "ACCESS_KEY"@);
    if text::has_marker(s, SECRET_WORDS@) {
        let k = choose|k: int| 0 <= k < SECRET_WORDS@.len() && text::contains(s, (#[trigger] SECRET_WORDS@[k])@);
        assert(k == 0 || k == 1 || k == 2 || k == 3 || k == 4 || k == 5 || k == 6 || k == 7);
    }
    if text::contains(s, "TOKEN"@) {
        assert(text::contains(s, SECRET_WORDS@[0]@));
    }
    if text::contains(s, "SECRET"@) {
        assert(text::contains(s, SECRET_WORDS@[1]@));
    }
    if text::contains(s, "PASSWORD"@) {
        assert(text::contains(s, SECRET_WORDS@[2]@));
    }
    if text::contains(s, "API_KEY"@) {
        assert(text::contains(s, SECRET_WORDS@[3]@));
    }
    if text::contains(s, "APIKEY"@) {
        assert(text::contains(s, SECRET_WORDS@[4]@));
    }
    if text::contains(s, "CREDENTIAL"@) {
        assert(text::contains(s, SECRET_WORDS@[5]@));
    }
    if text::contains(s, "PRIVATE_KEY"@) {
        assert(text::contains(s, SECRET_WORDS@[6]@));
    }
    if text::contains(s, "ACCESS_KEY"@) {
        assert(text::contains(s, SECRET_WORDS@[7]@));
    }
}

// --- which functions are tools ---------------------------------------------

/// A decorated function is a tool: where a decorator stands at most five lines above a function, with
/// no other function between them, and not inside a signature that was read before, the function is
/// listed.
pub proof fn law_decorated_functions_are_tools(ls: Seq<Seq<char>>, i: int, d: int)
    requires
        0 <= i < d,
        d <= i + 5,
        d < ls.len(),
        text::starts_with(text::trim_start(ls[i]), "@mcp.tool"@) || text::starts_with(text::trim_start(ls[i]), "@app.tool"@) || text::starts_with(text::trim_start(ls[i]), "@server.tool"@) || text::starts_with(text::trim_start(ls[i]), "@tool"@) || text::starts_with(text::trim_start(ls[i]), "@mcp.resource"@),
        text::starts_with(text::trim_start(ls[d]), "def "@) || text::starts_with(text::trim_start(ls[d]), "async def "@),
        forall|j: int| i < j < d ==> !text::starts_with(text::trim_start(#[trigger] ls[j]), "def "@) && !text::starts_with(text::trim_start(ls[j]), "async def "@),
        forall|k: int|
            0 <= k < python::tool_defs(ls, 0).len() ==> !((#[trigger] python::tool_defs(ls, 0)[k]).at <= i < python::tool_defs(ls, 0)[k].end),
    ensures
        exists|k: int| 0 <= k < python::tool_defs(ls, 0).len() && (#[trigger] python::tool_defs(ls, 0)[k]).at == d,
{
    lemma_tool_decorators(text::trim_start(ls[i]));
    lemma_decorated_is_listed(ls, 0, i, d);
}

proof fn lemma_next_def_is(ls: Seq<Seq<char>>, j: int, hi: int, d: int)
    requires
        j <= d < hi,
        python::is_def_line(ls[d]),
        forall|k: int| j <= k < d ==> !python::is_def_line(#[trigger] ls[k]),
    ensures
        python::next_def(ls, j, hi) == Some(d),
    decreases d - j,
{
    if j < d {
        lemma_next_def_is(ls, j + 1, hi, d);
    }
}

proof fn lemma_next_def_first(ls: Seq<Seq<char>>, j: int, hi: int)
    ensures
        python::next_def(ls, j, hi) matches Some(d) ==> j <= d < hi && python::is_def_line(ls[d]) && forall|k: int|
            j <= k < d ==> !python::is_def_line(#[trigger] ls[k]),
    decreases hi - j,
{
    if j < hi && !python::is_def_line(ls[j]) {
        lemma_next_def_first(ls, j + 1, hi);
    }
}

proof fn lemma_decorated_is_listed(ls: Seq<Seq<char>>, from: int, i: int, d: int)
    requires
        0 <= from <= i < d,
        d <= i + 5,
        d < ls.len(),
        python::is_decorator(ls[i]),
        python::is_def_line(ls[d]),
        forall|j: int| i < j < d ==> !python::is_def_line(#[trigger] ls[j]),
        forall|k: int|
            0 <= k < python::tool_defs(ls, from).len() ==> !((#[trigger] python::tool_defs(ls, from)[k]).at <= i < python::tool_defs(
                ls,
                from,
            )[k].end),
    ensures
        exists|k: int| 0 <= k < python::tool_defs(ls, from).len() && (#[trigger] python::tool_defs(ls, from)[k]).at == d,
    decreases ls.len() - from,
{
    let all = python::tool_defs(ls, from);
    lemma_next_def_first(ls, from + 1, python::window_end(ls, from));
    match python::decorated(ls, from) {
        Some(e) => {
            python::lemma_sig_end(ls, e, e, 0, false);
            let first = python::def_at(ls, e);
            let rest = python::tool_defs(ls, first.end);
            assert(all == seq![first] + rest);
            assert(all[0] == first);
            if i < e {
                assert(d == e);
            } else {
                assert(i >= first.end);
                assert forall|k: int| 0 <= k < rest.len() implies !((#[trigger] rest[k]).at <= i < rest[k].end) by {
                    assert(all[k + 1] == rest[k]);
                }
                lemma_decorated_is_listed(ls, first.end, i, d);
                let k = choose|k: int| 0 <= k < rest.len() && (#[trigger] rest[k]).at == d;
                assert(all[k + 1] == rest[k]);
            }
        },
        None => {
            if i == from {
                lemma_next_def_is(ls, i + 1, python::window_end(ls, i), d);
                assert(false);
            }
            assert(all == python::tool_defs(ls, from + 1));
            lemma_decorated_is_listed(ls, from + 1, i, d);
        },
    }
}

/// A tool is a decorated function: it begins with `def` or `async def`, and one of the five lines
/// above it carries a tool decorator, with no other function between them.
pub proof fn law_tools_are_decorated_functions(ls: Seq<Seq<char>>, k: int)
    requires
        0 <= k < python::tool_defs(ls, 0).len(),
    ensures
        ({
            let d = python::tool_defs(ls, 0)[k].at;
            &&& 0 <= d < ls.len()
            &&& text::starts_with(text::trim_start(ls[d]), "def "@) || text::starts_with(text::trim_start(ls[d]), "async def "@)
            &&& exists|i: int|
                0 <= i < d <= i + 5 && (text::starts_with(text::trim_start(#[trigger] ls[i]), "@mcp.tool"@) || text::starts_with(text::trim_start(ls[i]), "@app.tool"@) || text::starts_with(text::trim_start(ls[i]), "@server.tool"@) || text::starts_with(text::trim_start(ls[i]), "@tool"@) || text::starts_with(text::trim_start(ls[i]), "@mcp.resource"@))
                    && forall|j: int| i < j < d ==> !text::starts_with(text::trim_start(#[trigger] ls[j]), "def "@) && !text::starts_with(text::trim_start(ls[j]), "async def "@)
        }),
{
    lemma_listed_is_decorated(ls, 0, k);
    let d = python::tool_defs(ls, 0)[k].at;
    let i = choose|i: int|
        0 <= i < d <= i + 5 && python::is_decorator(#[trigger] ls[i]) && forall|j: int| i < j < d ==> !python::is_def_line(#[trigger] ls[j]);
    lemma_tool_decorators(text::trim_start(ls[i]));
    assert forall|j: int| i < j < d implies !text::starts_with(text::trim_start(#[trigger] ls[j]), "def "@) && !text::starts_with(text::trim_start(ls[j]), "async def "@) by {
        assert(!python::is_def_line(ls[j]));
    }
}

proof fn lemma_listed_is_decorated(ls: Seq<Seq<char>>, from: int, k: int)
    requires
        0 <= from,
        0 <= k < python::tool_defs(ls, from).len(),
    ensures
        ({
            let d = python::tool_defs(ls, from)[k].at;
            &&& 0 <= d < ls.len()
            &&& python::is_def_line(ls[d])
            &&& exists|i: int|
                0 <= i < d <= i + 5 && python::is_decorator(#[trigger] ls[i]) && forall|j: int|
                    i < j < d ==> !python::is_def_line(#[trigger] ls[j])
        }),
    decreases ls.len() - from,
{
    let all = python::tool_defs(ls, from);
    lemma_next_def_first(ls, from + 1, python::window_end(ls, from));
    match python::decorated(ls, from) {
        Some(e) => {
            python::lemma_sig_end(ls, e, e, 0, false);
            let first = python::def_at(ls, e);
            let rest = python::tool_defs(ls, first.end);
            assert(all == seq![first] + rest);
            if k == 0 {
                assert(all[0] == first);
                assert(python::is_decorator(ls[from]));
                assert(0 <= from < e <= from + 5);
            } else {
                assert(all[k] == rest[k - 1]);
                lemma_listed_is_decorated(ls, first.end, k - 1);
            }
        },
        None => {
            assert(all == python::tool_defs(ls, from + 1));
            lemma_listed_is_decorated(ls, from + 1, k);
        },
    }
}

// --- what taints a tool ----------------------------------------------------

/// A line that names an input of a tool as a whole word, and that stands in the body of the tool or in
/// the body of no tool, taints the tool with every sink that it holds, whatever else it holds. A body
/// that checks where a URL leads, or keeps paths under a root, is not reported for it.
#[verifier::rlimit(60)]
pub proof fn law_sinks_taint_the_tool(content: Seq<char>, k: int, j: int, p: int)
    requires
        0 <= k < python::tool_defs(text::lines(content), 0).len(),
        0 <= j < text::lines(content).len(),
        0 <= p < python::tool_defs(text::lines(content), 0)[k].params.len(),
        text::has_word(text::lines(content)[j], python::tool_defs(text::lines(content), 0)[k].params[p], false),
        ({
            let ls = text::lines(content);
            let defs = python::tool_defs(ls, 0);
            ||| defs[k].at <= j < python::body_end(ls, defs[k])
            ||| forall|m: int| 0 <= m < defs.len() ==> !((#[trigger] defs[m]).at <= j < python::body_end(ls, defs[m]))
        }),
    ensures
        ({
            let ls = text::lines(content);
            let l = ls[j];
            let d = python::tool_defs(ls, 0)[k];
            let t = python::module_tools(content)[k];
            &&& (text::contains(l, "subprocess.run("@) || text::contains(l, "subprocess.call("@) || text::contains(l, "subprocess.Popen("@) || text::contains(l, "subprocess.check_output("@) || text::contains(l, "subprocess.check_call("@) || text::contains(l, "os.system("@) || text::contains(l, "os.popen("@) || text::contains(l, "Popen("@) || text::contains(l, "commands.getoutput("@) || text::contains(l, "eval("@) || text::contains(l, "exec("@)) ==> t.shell
            &&& (text::contains(l, "requests.get("@) || text::contains(l, "requests.post("@) || text::contains(l, "requests.put("@) || text::contains(l, "requests.delete("@) || text::contains(l, "requests.request("@) || text::contains(l, "requests.head("@) || text::contains(l, "httpx.get("@) || text::contains(l, "httpx.post("@) || text::contains(l, "httpx.request("@) || text::contains(l, "httpx.stream("@) || text::contains(l, "urlopen("@) || text::contains(l, "session.get("@) || text::contains(l, "session.post("@) || text::contains(l, "client.get("@) || text::contains(l, "client.post("@)) && (forall|i: int| d.at <= i < python::body_end(ls, d) ==> !(text::contains(#[trigger] ls[i], "allowlist"@) || text::contains(ls[i], "allow_list"@) || text::contains(ls[i], "allowed_hosts"@) || text::contains(ls[i], "ALLOWED_HOSTS"@) || text::contains(ls[i], "is_private"@) || text::contains(ls[i], "validate_url"@) || text::contains(ls[i], "is_allowed_host"@) || text::contains(ls[i], "check_url"@))) ==> t.ssrf
            &&& (text::contains(l, "open("@) || text::contains(l, "Path("@) || text::contains(l, "os.path.join("@) || text::contains(l, ".read_text("@) || text::contains(l, ".write_text("@) || text::contains(l, "shutil.copy"@) || text::contains(l, "shutil.move"@) || text::contains(l, "os.remove("@) || text::contains(l, "os.listdir("@) || text::contains(l, "glob.glob("@) || text::contains(l, "send_file("@)) && (forall|i: int| d.at <= i < python::body_end(ls, d) ==> !(text::contains(#[trigger] ls[i], "validate_relative_path"@) || text::contains(ls[i], "is_relative_to"@) || text::contains(ls[i], "relative_to("@) || text::contains(ls[i], "commonpath("@) || text::contains(ls[i], "\"..\""@) || text::contains(ls[i], "'..'"@))) ==> t.fs
            &&& ((text::contains(l, "pickle.loads("@) || text::contains(l, "pickle.load("@) || text::contains(l, "marshal.loads("@) || text::contains(l, "yaml.load("@)) && !text::contains(l, "safe_load"@) && !text::contains(l, "SafeLoader"@)) ==> t.deser
            &&& ((text::contains(l, ".execute("@) || text::contains(l, ".executemany("@) || text::contains(l, ".executescript("@) || text::contains(l, ".raw("@)) && (text::contains(l, "f\""@) || text::contains(l, "f'"@) || text::contains(l, ".format("@) || text::contains(l, "% "@) || text::contains(l, "\" +"@) || text::contains(l, "' +"@) || text::contains(l, "+ \""@) || text::contains(l, "+ '"@))) ==> t.sql
            &&& ((text::contains(l, ".str.contains("@) || text::contains(l, "re.search("@) || text::contains(l, "re.match("@) || text::contains(l, "re.compile("@) || text::contains(l, "re.findall("@) || text::contains(l, "re.fullmatch("@)) && !text::contains(l, "regex=False"@) && !text::contains(l, "regex = False"@)) ==> t.redos
        }),
{
    let ls = text::lines(content);
    let defs = python::tool_defs(ls, 0);
    let d = defs[k];
    let l = ls[j];
    assert(python::in_scope(ls, defs, k, j)) by {
        if !python::in_body(ls, d, j) {
            assert forall|m: int| 0 <= m < defs.len() implies !python::in_body(ls, #[trigger] defs[m], j) by {}
        }
    }
    assert(taint::has_any_word(l, d.params, false));
    assert(python::is_tainted(ls, defs, k, j));
    lemma_shell(l);
    lemma_ssrf(l);
    lemma_fs(l);
    lemma_deser(l);
    lemma_sql(l);
    lemma_string_builders(l);
    lemma_redos(l);
    if forall|i: int| d.at <= i < python::body_end(ls, d) ==> !(text::contains(#[trigger] ls[i], "allowlist"@) || text::contains(ls[i], "allow_list"@) || text::contains(ls[i], "allowed_hosts"@) || text::contains(ls[i], "ALLOWED_HOSTS"@) || text::contains(ls[i], "is_private"@) || text::contains(ls[i], "validate_url"@) || text::contains(ls[i], "is_allowed_host"@) || text::contains(ls[i], "check_url"@)) {
        assert forall|i: int| python::in_body(ls, d, i) implies !text::has_marker(#[trigger] ls[i], python::URL_GUARD@) by {
            lemma_url_guard(ls[i]);
        }
        assert(!python::body_has(ls, d, python::URL_GUARD@));
    }
    if forall|i: int| d.at <= i < python::body_end(ls, d) ==> !(text::contains(#[trigger] ls[i], "validate_relative_path"@) || text::contains(ls[i], "is_relative_to"@) || text::contains(ls[i], "relative_to("@) || text::contains(ls[i], "commonpath("@) || text::contains(ls[i], "\"..\""@) || text::contains(ls[i], "'..'"@)) {
        assert forall|i: int| python::in_body(ls, d, i) implies !text::has_marker(#[trigger] ls[i], python::PATH_GUARD@) by {
            lemma_path_guard(ls[i]);
        }
        assert(!python::body_has(ls, d, python::PATH_GUARD@));
    }
    assert(python::module_tools(content)[k] == python::tool_at(content, ls, defs, k));
}

/// A tool is tainted by a line alone: where it carries a fact, a line that names one of its inputs, in its
/// body or in the body of no tool, holds a sink of that kind.
#[verifier::rlimit(60)]
pub proof fn law_taint_comes_from_a_sink(content: Seq<char>, k: int)
    requires
        0 <= k < python::tool_defs(text::lines(content), 0).len(),
    ensures
        ({
            let ls = text::lines(content);
            let defs = python::tool_defs(ls, 0);
            let d = defs[k];
            let t = python::module_tools(content)[k];
            &&& t.shell ==> exists|j: int, p: int|
                0 <= j < ls.len() && 0 <= p < d.params.len() && text::has_word(#[trigger] ls[j], #[trigger] d.params[p], false) && (d.at <= j < python::body_end(ls, d) || forall|m: int| 0 <= m < defs.len() ==> !((#[trigger] defs[m]).at <= j < python::body_end(ls, defs[m])))
                    && (text::contains(ls[j], "subprocess.run("@) || text::contains(ls[j], "subprocess.call("@) || text::contains(ls[j], "subprocess.Popen("@) || text::contains(ls[j], "subprocess.check_output("@) || text::contains(ls[j], "subprocess.check_call("@) || text::contains(ls[j], "os.system("@) || text::contains(ls[j], "os.popen("@) || text::contains(ls[j], "Popen("@) || text::contains(ls[j], "commands.getoutput("@) || text::contains(ls[j], "eval("@) || text::contains(ls[j], "exec("@))
            &&& t.ssrf ==> exists|j: int, p: int|
                0 <= j < ls.len() && 0 <= p < d.params.len() && text::has_word(#[trigger] ls[j], #[trigger] d.params[p], false) && (d.at <= j < python::body_end(ls, d) || forall|m: int| 0 <= m < defs.len() ==> !((#[trigger] defs[m]).at <= j < python::body_end(ls, defs[m])))
                    && (text::contains(ls[j], "requests.get("@) || text::contains(ls[j], "requests.post("@) || text::contains(ls[j], "requests.put("@) || text::contains(ls[j], "requests.delete("@) || text::contains(ls[j], "requests.request("@) || text::contains(ls[j], "requests.head("@) || text::contains(ls[j], "httpx.get("@) || text::contains(ls[j], "httpx.post("@) || text::contains(ls[j], "httpx.request("@) || text::contains(ls[j], "httpx.stream("@) || text::contains(ls[j], "urlopen("@) || text::contains(ls[j], "session.get("@) || text::contains(ls[j], "session.post("@) || text::contains(ls[j], "client.get("@) || text::contains(ls[j], "client.post("@))
            &&& t.ssrf ==> forall|i: int| d.at <= i < python::body_end(ls, d) ==> !(text::contains(#[trigger] ls[i], "allowlist"@) || text::contains(ls[i], "allow_list"@) || text::contains(ls[i], "allowed_hosts"@) || text::contains(ls[i], "ALLOWED_HOSTS"@) || text::contains(ls[i], "is_private"@) || text::contains(ls[i], "validate_url"@) || text::contains(ls[i], "is_allowed_host"@) || text::contains(ls[i], "check_url"@))
            &&& t.fs ==> exists|j: int, p: int|
                0 <= j < ls.len() && 0 <= p < d.params.len() && text::has_word(#[trigger] ls[j], #[trigger] d.params[p], false) && (d.at <= j < python::body_end(ls, d) || forall|m: int| 0 <= m < defs.len() ==> !((#[trigger] defs[m]).at <= j < python::body_end(ls, defs[m])))
                    && (text::contains(ls[j], "open("@) || text::contains(ls[j], "Path("@) || text::contains(ls[j], "os.path.join("@) || text::contains(ls[j], ".read_text("@) || text::contains(ls[j], ".write_text("@) || text::contains(ls[j], "shutil.copy"@) || text::contains(ls[j], "shutil.move"@) || text::contains(ls[j], "os.remove("@) || text::contains(ls[j], "os.listdir("@) || text::contains(ls[j], "glob.glob("@) || text::contains(ls[j], "send_file("@))
            &&& t.fs ==> forall|i: int| d.at <= i < python::body_end(ls, d) ==> !(text::contains(#[trigger] ls[i], "validate_relative_path"@) || text::contains(ls[i], "is_relative_to"@) || text::contains(ls[i], "relative_to("@) || text::contains(ls[i], "commonpath("@) || text::contains(ls[i], "\"..\""@) || text::contains(ls[i], "'..'"@))
            &&& t.deser ==> exists|j: int, p: int|
                0 <= j < ls.len() && 0 <= p < d.params.len() && text::has_word(#[trigger] ls[j], #[trigger] d.params[p], false) && (d.at <= j < python::body_end(ls, d) || forall|m: int| 0 <= m < defs.len() ==> !((#[trigger] defs[m]).at <= j < python::body_end(ls, defs[m])))
                    && ((text::contains(ls[j], "pickle.loads("@) || text::contains(ls[j], "pickle.load("@) || text::contains(ls[j], "marshal.loads("@) || text::contains(ls[j], "yaml.load("@)) && !text::contains(ls[j], "safe_load"@) && !text::contains(ls[j], "SafeLoader"@))
            &&& t.sql ==> exists|j: int, p: int|
                0 <= j < ls.len() && 0 <= p < d.params.len() && text::has_word(#[trigger] ls[j], #[trigger] d.params[p], false) && (d.at <= j < python::body_end(ls, d) || forall|m: int| 0 <= m < defs.len() ==> !((#[trigger] defs[m]).at <= j < python::body_end(ls, defs[m])))
                    && ((text::contains(ls[j], ".execute("@) || text::contains(ls[j], ".executemany("@) || text::contains(ls[j], ".executescript("@) || text::contains(ls[j], ".raw("@)) && (text::contains(ls[j], "f\""@) || text::contains(ls[j], "f'"@) || text::contains(ls[j], ".format("@) || text::contains(ls[j], "% "@) || text::contains(ls[j], "\" +"@) || text::contains(ls[j], "' +"@) || text::contains(ls[j], "+ \""@) || text::contains(ls[j], "+ '"@)))
            &&& t.redos ==> exists|j: int, p: int|
                0 <= j < ls.len() && 0 <= p < d.params.len() && text::has_word(#[trigger] ls[j], #[trigger] d.params[p], false) && (d.at <= j < python::body_end(ls, d) || forall|m: int| 0 <= m < defs.len() ==> !((#[trigger] defs[m]).at <= j < python::body_end(ls, defs[m])))
                    && ((text::contains(ls[j], ".str.contains("@) || text::contains(ls[j], "re.search("@) || text::contains(ls[j], "re.match("@) || text::contains(ls[j], "re.compile("@) || text::contains(ls[j], "re.findall("@) || text::contains(ls[j], "re.fullmatch("@)) && !text::contains(ls[j], "regex=False"@) && !text::contains(ls[j], "regex = False"@))
        }),
{
    let ls = text::lines(content);
    let defs = python::tool_defs(ls, 0);
    let d = defs[k];
    let t = python::module_tools(content)[k];
    assert(t == python::tool_at(content, ls, defs, k));
    if t.shell {
        let j = choose|j: int| 0 <= j < ls.len() && #[trigger] python::is_tainted(ls, defs, k, j) && text::has_marker(ls[j], python::SHELL@);
        lemma_shell(ls[j]);
        lemma_taint_scope(ls, defs, k, j);
        let p = choose|p: int| 0 <= p < d.params.len() && text::has_word(ls[j], #[trigger] d.params[p], false);
        assert(text::has_word(ls[j], d.params[p], false));
    }
    if t.ssrf {
        let j = choose|j: int| 0 <= j < ls.len() && #[trigger] python::is_tainted(ls, defs, k, j) && text::has_marker(ls[j], python::SSRF@);
        lemma_ssrf(ls[j]);
        lemma_taint_scope(ls, defs, k, j);
        let p = choose|p: int| 0 <= p < d.params.len() && text::has_word(ls[j], #[trigger] d.params[p], false);
        assert(text::has_word(ls[j], d.params[p], false));
        assert forall|i: int| d.at <= i < python::body_end(ls, d) implies !(text::contains(#[trigger] ls[i], "allowlist"@) || text::contains(ls[i], "allow_list"@) || text::contains(ls[i], "allowed_hosts"@) || text::contains(ls[i], "ALLOWED_HOSTS"@) || text::contains(ls[i], "is_private"@) || text::contains(ls[i], "validate_url"@) || text::contains(ls[i], "is_allowed_host"@) || text::contains(ls[i], "check_url"@)) by {
            lemma_url_guard(ls[i]);
            assert(python::in_body(ls, d, i));
        }
    }
    if t.fs {
        let j = choose|j: int| 0 <= j < ls.len() && #[trigger] python::is_tainted(ls, defs, k, j) && text::has_marker(ls[j], python::FS@);
        lemma_fs(ls[j]);
        lemma_taint_scope(ls, defs, k, j);
        let p = choose|p: int| 0 <= p < d.params.len() && text::has_word(ls[j], #[trigger] d.params[p], false);
        assert(text::has_word(ls[j], d.params[p], false));
        assert forall|i: int| d.at <= i < python::body_end(ls, d) implies !(text::contains(#[trigger] ls[i], "validate_relative_path"@) || text::contains(ls[i], "is_relative_to"@) || text::contains(ls[i], "relative_to("@) || text::contains(ls[i], "commonpath("@) || text::contains(ls[i], "\"..\""@) || text::contains(ls[i], "'..'"@)) by {
            lemma_path_guard(ls[i]);
            assert(python::in_body(ls, d, i));
        }
    }
    if t.deser {
        let j = choose|j: int| 0 <= j < ls.len() && #[trigger] python::is_tainted(ls, defs, k, j) && python::is_deser_line(ls[j]);
        lemma_deser(ls[j]);
        lemma_taint_scope(ls, defs, k, j);
        let p = choose|p: int| 0 <= p < d.params.len() && text::has_word(ls[j], #[trigger] d.params[p], false);
        assert(text::has_word(ls[j], d.params[p], false));
    }
    if t.sql {
        let j = choose|j: int| 0 <= j < ls.len() && #[trigger] python::is_tainted(ls, defs, k, j) && python::is_sql_line(ls[j]);
        lemma_sql(ls[j]);
        lemma_string_builders(ls[j]);
        lemma_taint_scope(ls, defs, k, j);
        let p = choose|p: int| 0 <= p < d.params.len() && text::has_word(ls[j], #[trigger] d.params[p], false);
        assert(text::has_word(ls[j], d.params[p], false));
    }
    if t.redos {
        let j = choose|j: int| 0 <= j < ls.len() && #[trigger] python::is_tainted(ls, defs, k, j) && python::is_redos_line(ls[j]);
        lemma_redos(ls[j]);
        lemma_taint_scope(ls, defs, k, j);
        let p = choose|p: int| 0 <= p < d.params.len() && text::has_word(ls[j], #[trigger] d.params[p], false);
        assert(text::has_word(ls[j], d.params[p], false));
    }
}

proof fn lemma_taint_scope(ls: Seq<Seq<char>>, defs: Seq<DefFacts>, k: int, j: int)
    requires
        0 <= k < defs.len(),
        python::is_tainted(ls, defs, k, j),
    ensures
        ({
            let d = defs[k];
            (d.at <= j < python::body_end(ls, d) || forall|m: int| 0 <= m < defs.len() ==> !((#[trigger] defs[m]).at <= j < python::body_end(ls, defs[m])))
        }),
        exists|p: int| 0 <= p < defs[k].params.len() && text::has_word(ls[j], #[trigger] defs[k].params[p], false),
{
    if !python::in_body(ls, defs[k], j) {
        assert forall|m: int| 0 <= m < defs.len() implies !((#[trigger] defs[m]).at <= j < python::body_end(ls, defs[m])) by {
            assert(!python::in_body(ls, defs[m], j));
        }
    }
}

// --- the other facts of a tool ---------------------------------------------

/// A tool has a name, inputs and a line, and it is placed in its file. It takes an unbounded number
/// where an input is named like a limit and nothing in the module bounds one. Its description hides
/// text where a zero-width or direction-changing character stands in its first fifteen lines.
pub proof fn law_facts_of_a_tool(path: Seq<char>, content: Seq<char>, k: int)
    requires
        0 <= k < python::tool_defs(text::lines(content), 0).len(),
        text::lines(content).len() < 0xffff_ffff,
    ensures
        ({
            let ls = text::lines(content);
            let d = python::tool_defs(ls, 0)[k];
            let t = python::placed_tools(path, content)[k];
            &&& python::module_tools(content).len() == python::tool_defs(ls, 0).len()
            &&& python::placed_tools(path, content).len() == python::tool_defs(ls, 0).len()
            &&& t == ToolFacts { file: path, ..python::module_tools(content)[k] }
            &&& t.name == d.name
            &&& t.params == d.params
            &&& t.file == path
            &&& t.line == d.at + 1
            &&& t.unbounded_limit <==> (exists|p: int| 0 <= p < d.params.len() && (#[trigger] d.params[p] == "limit"@ || d.params[p] == "max"@ || d.params[p] == "top"@ || d.params[p] == "count"@ || d.params[p] == "size"@ || d.params[p] == "rows"@ || d.params[p] == "page_size"@ || d.params[p] == "offset"@ || d.params[p] == "length"@ || d.params[p] == "n"@)) && !text::contains(content, "MAX_"@)
                && !text::contains(content, "min("@) && !(exists|p: int| 0 <= p < d.params.len() && (text::contains(content, #[trigger] d.params[p] + " >"@) || text::contains(content, d.params[p] + " <"@) || text::contains(content, "> "@ + d.params[p]) || text::contains(content, d.params[p] + ">"@)))
            &&& t.desc_hidden_unicode <==> exists|j: int, i: int|
                d.at <= j <= d.at + 14 && j < ls.len() && 0 <= i < ls[j].len() && (('\u{200b}' <= #[trigger] ls[j][i]
                    <= '\u{200f}') || ('\u{202a}' <= ls[j][i] <= '\u{202e}') || ls[j][i] == '\u{2060}' || ('\u{2066}'
                    <= ls[j][i] <= '\u{2069}') || ls[j][i] == '\u{feff}')
        }),
{
    let ls = text::lines(content);
    let defs = python::tool_defs(ls, 0);
    let d = defs[k];
    let t = python::module_tools(content)[k];
    assert(t == python::tool_at(content, ls, defs, k));
    lemma_listed_is_decorated(ls, 0, k);
    if python::has_limit(d.params) {
        let p = choose|p: int| 0 <= p < d.params.len() && text::is_listed(#[trigger] d.params[p], python::LIMIT_NAMES@);
        lemma_limit_names(d.params[p]);
    }
    if exists|p: int| 0 <= p < d.params.len() && (#[trigger] d.params[p] == "limit"@ || d.params[p] == "max"@ || d.params[p] == "top"@ || d.params[p] == "count"@ || d.params[p] == "size"@ || d.params[p] == "rows"@ || d.params[p] == "page_size"@ || d.params[p] == "offset"@ || d.params[p] == "length"@ || d.params[p] == "n"@) {
        let p = choose|p: int| 0 <= p < d.params.len() && (#[trigger] d.params[p] == "limit"@ || d.params[p] == "max"@ || d.params[p] == "top"@ || d.params[p] == "count"@ || d.params[p] == "size"@ || d.params[p] == "rows"@ || d.params[p] == "page_size"@ || d.params[p] == "offset"@ || d.params[p] == "length"@ || d.params[p] == "n"@);
        lemma_limit_names(d.params[p]);
    }
    if exists|p: int| 0 <= p < d.params.len() && python::is_compared(content, #[trigger] d.params[p]) {
        let p = choose|p: int| 0 <= p < d.params.len() && python::is_compared(content, #[trigger] d.params[p]);
        let q = d.params[p];
        assert(text::contains(content, q + " >"@) || text::contains(content, q + " <"@) || text::contains(content, "> "@ + q) || text::contains(
            content,
            q + ">"@,
        ));
    }
    if t.desc_hidden_unicode {
        let j = choose|j: int| d.at <= j < d.at + 15 && j < ls.len() && taint::has_zero_width(#[trigger] ls[j]);
        let i = choose|i: int| 0 <= i < ls[j].len() && taint::zero_width(#[trigger] ls[j][i]);
        assert(taint::zero_width(ls[j][i]));
    }
    if exists|j: int, i: int|
        d.at <= j <= d.at + 14 && j < ls.len() && 0 <= i < ls[j].len() && taint::zero_width(#[trigger] ls[j][i]) {
        let (j, i) = choose|j: int, i: int|
            d.at <= j <= d.at + 14 && j < ls.len() && 0 <= i < ls[j].len() && taint::zero_width(#[trigger] ls[j][i]);
        assert(taint::has_zero_width(ls[j]));
    }
}

// --- which lines belong to a tool ------------------------------------------

/// The deeper lines under a function are its body: as long as every line is blank or stands deeper
/// than the `def`, the lines belong to the tool.
pub proof fn law_deeper_lines_are_the_body(ls: Seq<Seq<char>>, d: DefFacts, j: int)
    requires
        0 <= d.at < d.end <= j < ls.len(),
        forall|i: int|
            d.end <= i <= j ==> text::is_blank(#[trigger] ls[i]) || text::skip_space(ls[i], 0) > text::skip_space(ls[d.at], 0),
        !text::is_blank(ls[j]),
    ensures
        d.at <= j < python::body_end(ls, d),
{
    lemma_body_reaches(ls, d.at, d.end, python::indent(ls[d.at]), None, d.end, j);
}

proof fn lemma_body_reaches(ls: Seq<Seq<char>>, q: int, from: int, level: int, open: Option<char>, last: int, j: int)
    requires
        0 <= q <= j < ls.len(),
        from <= j,
        forall|i: int| from <= i <= j ==> text::is_blank(#[trigger] ls[i]) || python::indent(ls[i]) > level,
        !text::is_blank(ls[j]),
    ensures
        j < python::block_end(ls, q, from, level, open, last),
    decreases j - q,
{
    lemma_trim_start_empty(ls[q]);
    lemma_trim_start_empty(ls[j]);
    let next = python::open_after(ls[q], 0, open);
    if q == j {
        lemma_block_end_grows(ls, q + 1, from, level, next, q + 1);
    } else if q >= from && !(open is None && python::is_aside(ls[q], level)) {
        lemma_body_reaches(ls, q + 1, from, level, next, q + 1, j);
    } else {
        lemma_body_reaches(ls, q + 1, from, level, next, last, j);
    }
}

proof fn lemma_trim_start_empty(s: Seq<char>)
    ensures
        text::trim_start(s).len() == 0 <==> text::is_blank(s),
{
    text::lemma_skip_space(s, 0);
}

proof fn lemma_block_end_grows(ls: Seq<Seq<char>>, q: int, from: int, level: int, open: Option<char>, last: int)
    requires
        last <= q,
    ensures
        last <= python::block_end(ls, q, from, level, open, last),
    decreases ls.len() - q,
{
    if 0 <= q < ls.len() {
        let next = python::open_after(ls[q], 0, open);
        if q < from {
            lemma_block_end_grows(ls, q + 1, from, level, next, last);
        } else if open is None && python::begins_statement(ls[q]) && python::indent(ls[q]) <= level {
        } else if open is None && python::is_aside(ls[q], level) {
            lemma_block_end_grows(ls, q + 1, from, level, next, last);
        } else {
            lemma_block_end_grows(ls, q + 1, from, level, next, q + 1);
        }
    }
}

/// A statement that stands no deeper than the `def` ends the body, and so does everything after it.
/// Quotes apart: no line up to it may hold one.
pub proof fn law_a_statement_at_the_margin_ends_the_body(ls: Seq<Seq<char>>, d: DefFacts, j: int, n: int)
    requires
        0 <= d.at < d.end <= j < ls.len(),
        j <= n,
        forall|i: int, c: int|
            d.at <= i < j && 0 <= c < ls[i].len() ==> (#[trigger] ls[i][c]) != '"' && ls[i][c] != '\'',
        !text::is_blank(ls[j]),
        text::skip_space(ls[j], 0) <= text::skip_space(ls[d.at], 0),
        ({
            let c = text::trim_start(ls[j])[0];
            c != '#' && c != ')' && c != ']' && c != '}'
        }),
    ensures
        !(d.at <= n < python::body_end(ls, d)),
{
    lemma_trim_start_empty(ls[j]);
    lemma_body_stops(ls, d.at, d.end, python::indent(ls[d.at]), d.end, j);
}

proof fn lemma_no_quote_no_string(line: Seq<char>, i: int)
    requires
        0 <= i,
        forall|c: int| 0 <= c < line.len() ==> (#[trigger] line[c]) != '"' && line[c] != '\'',
    ensures
        python::open_after(line, i, None) is None,
    decreases line.len() + 3 - i,
{
    if i < line.len() {
        literal::lemma_ends(line, Language::Python, i);
        reveal_strlit("\"'");
        assert(line[i] != '"' && line[i] != '\'');
        assert(literal::quotes(Language::Python) =~= seq!['"', '\'']);
        assert(literal::literal_end(line, Language::Python, i) is None);
        match literal::comment_end(line, Language::Python, i) {
            Some(e) => {
                lemma_no_quote_no_string(line, e);
            },
            None => {
                lemma_no_quote_no_string(line, i + 1);
            },
        }
    }
}

proof fn lemma_body_stops(ls: Seq<Seq<char>>, q: int, from: int, level: int, last: int, j: int)
    requires
        0 <= q <= j < ls.len(),
        from <= j,
        last <= j,
        forall|i: int, c: int|
            q <= i < j && 0 <= c < ls[i].len() ==> (#[trigger] ls[i][c]) != '"' && ls[i][c] != '\'',
        python::begins_statement(ls[j]),
        python::indent(ls[j]) <= level,
    ensures
        python::block_end(ls, q, from, level, None, last) <= j,
    decreases j - q,
{
    if q < j {
        lemma_no_quote_no_string(ls[q], 0);
        if q >= from && !python::is_aside(ls[q], level) {
            lemma_body_stops(ls, q + 1, from, level, q + 1, j);
        } else {
            lemma_body_stops(ls, q + 1, from, level, last, j);
        }
    }
}

// --- leaked credentials ----------------------------------------------------

/// A secret leaks where a line sends a variable to a known exfiltration host, and a line of the module
/// assigned to that variable what was read from the environment under a secret name, or from a
/// credential file. The first such line is cited.
pub proof fn law_leaks_reach_exfiltration_hosts(content: Seq<char>)
    requires
        text::lines(content).len() < 0xffff_ffff,
    ensures
        ({
            let ls = text::lines(content);
            &&& python::leak_line(content) is Some <==> exists|i: int, k: int, v: Seq<char>|
                0 <= i < ls.len() && 0 <= k < ls.len() && #[trigger] text::has_word(ls[i], v, false) && #[trigger] python::assigned(ls[k]) == Some(v)
                    && (text::contains(ls[i], "requests.post("@) || text::contains(ls[i], "requests.get("@) || text::contains(ls[i], "requests.put("@) || text::contains(ls[i], "httpx.post("@) || text::contains(ls[i], "httpx.get("@) || text::contains(ls[i], "urlopen("@) || text::contains(ls[i], "session.post("@) || text::contains(ls[i], ".send("@) || text::contains(ls[i], "socket.send"@) || text::contains(ls[i], "aiohttp"@)) && (text::contains(ls[i], "discord.com/api/webhooks"@) || text::contains(ls[i], "api.telegram.org"@) || text::contains(ls[i], "pastebin.com"@) || text::contains(ls[i], "requestbin"@) || text::contains(ls[i], "ngrok"@) || text::contains(ls[i], "oast."@) || text::contains(ls[i], "interact.sh"@) || text::contains(ls[i], "hookbin"@) || text::contains(ls[i], "webhook.site"@) || text::contains(ls[i], "burpcollaborator"@))
                    && ((text::contains(ls[k], "os.environ"@) || text::contains(ls[k], "getenv("@)) && (text::contains(text::upper(ls[k]), "TOKEN"@) || text::contains(text::upper(ls[k]), "SECRET"@) || text::contains(text::upper(ls[k]), "PASSWORD"@) || text::contains(text::upper(ls[k]), "API_KEY"@) || text::contains(text::upper(ls[k]), "APIKEY"@) || text::contains(text::upper(ls[k]), "CREDENTIAL"@) || text::contains(text::upper(ls[k]), "PRIVATE_KEY"@) || text::contains(text::upper(ls[k]), "ACCESS_KEY"@) || text::contains(text::upper(ls[k]), "KEY"@)) || (text::contains(ls[k], ".aws/credentials"@) || text::contains(ls[k], ".ssh/"@) || text::contains(ls[k], ".npmrc"@) || text::contains(ls[k], "id_rsa"@) || text::contains(ls[k], ".docker/config.json"@)))
            &&& python::leak_line(content) matches Some(n) ==> 1 <= n <= ls.len() && python::leaks(ls, n - 1) && forall|i: int|
                0 <= i < n - 1 ==> !(#[trigger] python::leaks(ls, i))
        }),
{
    let ls = text::lines(content);
    lemma_first_leak(ls, 0);
    if python::leak_line(content) is Some {
        let i = python::first_leak(ls, 0)->0;
        let v = choose|v: Seq<char>| #[trigger] python::holds_secret(ls, v) && text::has_word(ls[i], v, false);
        let k = choose|k: int| python::binds_secret(ls, k, v);
        lemma_line_marks(ls[i]);
        lemma_line_marks(ls[k]);
        assert(text::has_word(ls[i], v, false) && python::assigned(ls[k]) == Some(v));
    }
    if exists|i: int, k: int, v: Seq<char>|
        0 <= i < ls.len() && 0 <= k < ls.len() && #[trigger] text::has_word(ls[i], v, false) && #[trigger] python::assigned(ls[k]) == Some(v)
            && (text::contains(ls[i], "requests.post("@) || text::contains(ls[i], "requests.get("@) || text::contains(ls[i], "requests.put("@) || text::contains(ls[i], "httpx.post("@) || text::contains(ls[i], "httpx.get("@) || text::contains(ls[i], "urlopen("@) || text::contains(ls[i], "session.post("@) || text::contains(ls[i], ".send("@) || text::contains(ls[i], "socket.send"@) || text::contains(ls[i], "aiohttp"@)) && (text::contains(ls[i], "discord.com/api/webhooks"@) || text::contains(ls[i], "api.telegram.org"@) || text::contains(ls[i], "pastebin.com"@) || text::contains(ls[i], "requestbin"@) || text::contains(ls[i], "ngrok"@) || text::contains(ls[i], "oast."@) || text::contains(ls[i], "interact.sh"@) || text::contains(ls[i], "hookbin"@) || text::contains(ls[i], "webhook.site"@) || text::contains(ls[i], "burpcollaborator"@))
            && ((text::contains(ls[k], "os.environ"@) || text::contains(ls[k], "getenv("@)) && (text::contains(text::upper(ls[k]), "TOKEN"@) || text::contains(text::upper(ls[k]), "SECRET"@) || text::contains(text::upper(ls[k]), "PASSWORD"@) || text::contains(text::upper(ls[k]), "API_KEY"@) || text::contains(text::upper(ls[k]), "APIKEY"@) || text::contains(text::upper(ls[k]), "CREDENTIAL"@) || text::contains(text::upper(ls[k]), "PRIVATE_KEY"@) || text::contains(text::upper(ls[k]), "ACCESS_KEY"@) || text::contains(text::upper(ls[k]), "KEY"@)) || (text::contains(ls[k], ".aws/credentials"@) || text::contains(ls[k], ".ssh/"@) || text::contains(ls[k], ".npmrc"@) || text::contains(ls[k], "id_rsa"@) || text::contains(ls[k], ".docker/config.json"@))) {
        let (i, k, v) = choose|i: int, k: int, v: Seq<char>|
            0 <= i < ls.len() && 0 <= k < ls.len() && #[trigger] text::has_word(ls[i], v, false) && #[trigger] python::assigned(ls[k]) == Some(v)
                && (text::contains(ls[i], "requests.post("@) || text::contains(ls[i], "requests.get("@) || text::contains(ls[i], "requests.put("@) || text::contains(ls[i], "httpx.post("@) || text::contains(ls[i], "httpx.get("@) || text::contains(ls[i], "urlopen("@) || text::contains(ls[i], "session.post("@) || text::contains(ls[i], ".send("@) || text::contains(ls[i], "socket.send"@) || text::contains(ls[i], "aiohttp"@)) && (text::contains(ls[i], "discord.com/api/webhooks"@) || text::contains(ls[i], "api.telegram.org"@) || text::contains(ls[i], "pastebin.com"@) || text::contains(ls[i], "requestbin"@) || text::contains(ls[i], "ngrok"@) || text::contains(ls[i], "oast."@) || text::contains(ls[i], "interact.sh"@) || text::contains(ls[i], "hookbin"@) || text::contains(ls[i], "webhook.site"@) || text::contains(ls[i], "burpcollaborator"@))
                && ((text::contains(ls[k], "os.environ"@) || text::contains(ls[k], "getenv("@)) && (text::contains(text::upper(ls[k]), "TOKEN"@) || text::contains(text::upper(ls[k]), "SECRET"@) || text::contains(text::upper(ls[k]), "PASSWORD"@) || text::contains(text::upper(ls[k]), "API_KEY"@) || text::contains(text::upper(ls[k]), "APIKEY"@) || text::contains(text::upper(ls[k]), "CREDENTIAL"@) || text::contains(text::upper(ls[k]), "PRIVATE_KEY"@) || text::contains(text::upper(ls[k]), "ACCESS_KEY"@) || text::contains(text::upper(ls[k]), "KEY"@)) || (text::contains(ls[k], ".aws/credentials"@) || text::contains(ls[k], ".ssh/"@) || text::contains(ls[k], ".npmrc"@) || text::contains(ls[k], "id_rsa"@) || text::contains(ls[k], ".docker/config.json"@)));
        lemma_line_marks(ls[i]);
        lemma_line_marks(ls[k]);
        assert(python::binds_secret(ls, k, v));
        assert(python::holds_secret(ls, v));
        assert(python::leaks(ls, i));
    }
}

proof fn lemma_line_marks(s: Seq<char>)
    ensures
        text::has_marker(s, python::EGRESS@) == (text::contains(s, "requests.post("@) || text::contains(s, "requests.get("@) || text::contains(s, "requests.put("@) || text::contains(s, "httpx.post("@) || text::contains(s, "httpx.get("@) || text::contains(s, "urlopen("@) || text::contains(s, "session.post("@) || text::contains(s, ".send("@) || text::contains(s, "socket.send"@) || text::contains(s, "aiohttp"@)),
        text::has_marker(s, EXFIL_HOSTS@) == (text::contains(s, "discord.com/api/webhooks"@) || text::contains(s, "api.telegram.org"@) || text::contains(s, "pastebin.com"@) || text::contains(s, "requestbin"@) || text::contains(s, "ngrok"@) || text::contains(s, "oast."@) || text::contains(s, "interact.sh"@) || text::contains(s, "hookbin"@) || text::contains(s, "webhook.site"@) || text::contains(s, "burpcollaborator"@)),
        text::has_marker(s, python::CREDENTIAL_FILES@) == (text::contains(s, ".aws/credentials"@) || text::contains(s, ".ssh/"@) || text::contains(s, ".npmrc"@) || text::contains(s, "id_rsa"@) || text::contains(s, ".docker/config.json"@)),
        taint::secretish(s) == (text::contains(text::upper(s), "TOKEN"@) || text::contains(text::upper(s), "SECRET"@) || text::contains(text::upper(s), "PASSWORD"@) || text::contains(text::upper(s), "API_KEY"@) || text::contains(text::upper(s), "APIKEY"@) || text::contains(text::upper(s), "CREDENTIAL"@) || text::contains(text::upper(s), "PRIVATE_KEY"@) || text::contains(text::upper(s), "ACCESS_KEY"@) || text::contains(text::upper(s), "KEY"@)),
{
    lemma_egress(s);
    lemma_exfil_hosts(s);
    lemma_credential_files(s);
    lemma_secret_words(text::upper(s));
}

proof fn lemma_first_leak(ls: Seq<Seq<char>>, i: int)
    requires
        0 <= i,
    ensures
        match python::first_leak(ls, i) {
            Some(n) => i <= n < ls.len() && python::leaks(ls, n) && forall|j: int| i <= j < n ==> !(#[trigger] python::leaks(ls, j)),
            None => forall|j: int| i <= j < ls.len() ==> !(#[trigger] python::leaks(ls, j)),
        },
    decreases ls.len() - i,
{
    if i < ls.len() && !python::leaks(ls, i) {
        lemma_first_leak(ls, i + 1);
    }
}

/// An assignment is read: the name before the first `=`, with white space around it, is the variable.
/// A comparison assigns nothing, nor do an attribute and an element.
pub proof fn law_assignments_are_read(a: Seq<char>, v: Seq<char>, b: Seq<char>, rest: Seq<char>)
    requires
        text::is_blank(a),
        text::is_blank(b),
        v.len() > 0,
        forall|i: int|
            0 <= i < v.len() ==> ('0' <= #[trigger] v[i] <= '9') || ('a' <= v[i] <= 'z') || ('A' <= v[i] <= 'Z') || v[i]
                == '_',
    ensures
        python::assigned(a + v + b + seq!['='] + rest) == (if rest.len() > 0 && rest[0] == '=' {
            None
        } else {
            Some(v)
        }),
{
    let lhs = a + v + b;
    let line = a + v + b + seq!['='] + rest;
    let n = lhs.len() as int;
    assert(line[n] == '=');
    text::lemma_find_char(line, '=', 0);
    assert forall|i: int| 0 <= i < n implies line[i] != '=' by {
        if i < a.len() {
            assert(line[i] == a[i]);
        } else if i < a.len() + v.len() {
            assert(line[i] == v[i - a.len()]);
        } else {
            assert(line[i] == b[i - a.len() - v.len()]);
        }
    }
    assert(text::find_char(line, '=', 0) == n);
    assert(line.take(n) =~= lhs);
    lemma_trim_around(a, v, b);
    assert(text::trim(lhs) == v);
    text::lemma_ident_end(v, 0, false);
    let e = text::ident_end(v, 0, false);
    if e < v.len() {
        assert(text::is_ident_char(v[e], false));
    }
    assert(v.take(v.len() as int) =~= v);
    assert forall|i: int| 0 <= i < v.len() implies v[i] != '.' && v[i] != '[' by {}
    if rest.len() > 0 {
        assert(line[n + 1] == rest[0]);
    }
}

/// White space around a text that begins and ends with something else is what is trimmed.
pub proof fn lemma_trim_around(a: Seq<char>, v: Seq<char>, b: Seq<char>)
    requires
        text::is_blank(a),
        text::is_blank(b),
        v.len() > 0,
        !text::is_space(v[0]),
        !text::is_space(v.last()),
    ensures
        text::trim(a + v + b) == v,
{
    let s = a + v + b;
    text::lemma_skip_space(s, 0);
    let k = text::skip_space(s, 0);
    assert(s[a.len() as int] == v[0]);
    if k < a.len() {
        assert(s[k] == a[k]);
    }
    assert(k == a.len());
    let t = text::trim_start(s);
    assert(t =~= v + b);
    text::lemma_skip_space_back(t, t.len() as int);
    let e = text::skip_space_back(t, t.len() as int);
    assert(t[v.len() - 1] == v.last());
    if e > v.len() {
        assert(t[e - 1] == b[e - 1 - v.len()]);
    }
    assert(e == v.len());
    assert(t.take(e) =~= v);
}

// --- signatures ------------------------------------------------------------

/// No character of `s` begins or ends a string or a comment.
pub open spec fn is_plain(s: Seq<char>) -> bool {
    forall|i: int| 0 <= i < s.len() ==> (#[trigger] s[i]) != '"' && s[i] != '\'' && s[i] != '#'
}

proof fn lemma_plain_code(s: Seq<char>)
    requires
        is_plain(s),
    ensures
        python::code(s) == s,
{
    reveal_strlit("\"'");
    reveal_strlit("#");
    assert(literal::quotes(Language::Python) =~= seq!['"', '\'']);
    assert forall|k: int| 0 <= k < s.len() implies (#[trigger] literal::literal_end(s, Language::Python, k)) is None && literal::comment_end(
        s,
        Language::Python,
        k,
    ) is None by {
        assert(s[k] != '"' && s[k] != '\'' && s[k] != '#');
        if text::occurs_at(s, "#"@, k) {
            assert(s.subrange(k, k + 1)[0] == s[k]);
        }
    }
    literal::law_masking_leaves_plain_text(s, Language::Python);
}

proof fn lemma_close_is(s: Seq<char>, k: int, e: int)
    requires
        0 <= k <= e < s.len(),
        s[e] == ')',
        forall|i: int| k <= i < e ==> (#[trigger] s[i]) != '(' && s[i] != ')',
    ensures
        taint::close_paren(s, k, 1) == Some(e),
    decreases e - k,
{
    if k < e {
        lemma_close_is(s, k + 1, e);
    }
}

proof fn lemma_inner(head: Seq<char>, inner: Seq<char>, tail: Seq<char>)
    requires
        is_plain(head) && is_plain(inner) && is_plain(tail),
        forall|i: int| 0 <= i < head.len() ==> #[trigger] head[i] != '(',
        forall|i: int| 0 <= i < inner.len() ==> (#[trigger] inner[i]) != '(' && inner[i] != ')',
    ensures
        python::params_in_sig(head + seq!['('] + inner + seq![')'] + tail) == python::input_names(taint::top_level_parts(inner), 0),
{
    let s = head + seq!['('] + inner + seq![')'] + tail;
    let h = head.len() as int;
    let e = h + 1 + inner.len();
    assert forall|i: int| 0 <= i < s.len() implies (#[trigger] s[i]) != '"' && s[i] != '\'' && s[i] != '#' by {
        if i < h {
            assert(s[i] == head[i]);
        } else if h < i < e {
            assert(s[i] == inner[i - h - 1]);
        } else if i > e {
            assert(s[i] == tail[i - e - 1]);
        }
    }
    lemma_plain_code(s);
    assert(s[h] == '(' && s[e] == ')');
    text::lemma_find_char(s, '(', 0);
    assert forall|i: int| 0 <= i < h implies s[i] != '(' by {
        assert(s[i] == head[i]);
    }
    assert(text::find_char(s, '(', 0) == h);
    assert forall|i: int| h + 1 <= i < e implies (#[trigger] s[i]) != '(' && s[i] != ')' by {
        assert(s[i] == inner[i - h - 1]);
    }
    lemma_close_is(s, h + 1, e);
    assert(s.subrange(h + 1, e) =~= inner);
}

/// The inputs of a function are the names in its parameter list, one by one: the name of the first
/// parameter, where it is no receiver, and then those of the others.
pub proof fn law_parameters_are_read_one_by_one(head: Seq<char>, a: Seq<char>, rest: Seq<char>, tail: Seq<char>)
    requires
        is_plain(head) && is_plain(a) && is_plain(rest) && is_plain(tail),
        forall|i: int| 0 <= i < head.len() ==> #[trigger] head[i] != '(',
        forall|i: int|
            0 <= i < a.len() ==> (#[trigger] a[i]) != ',' && a[i] != '(' && a[i] != ')' && a[i] != '[' && a[i] != ']'
                && a[i] != '{' && a[i] != '}',
        forall|i: int| 0 <= i < rest.len() ==> (#[trigger] rest[i]) != '(' && rest[i] != ')',
        !text::is_blank(a),
    ensures
        ({
            let name = python::param_name(a);
            let own = if name.len() > 0 && name != "self"@ && name != "cls"@ {
                seq![name]
            } else {
                Seq::empty()
            };
            &&& python::params_in_sig(head + seq!['('] + a + seq![')'] + tail) == own
            &&& python::params_in_sig(head + seq!['('] + (a + seq![','] + rest) + seq![')'] + tail) == own + python::params_in_sig(
                head + seq!['('] + rest + seq![')'] + tail,
            )
        }),
{
    laws_text::law_lists_are_cut_at_commas(a, rest);
    lemma_inner(head, a, tail);
    lemma_inner(head, rest, tail);
    let both = a + seq![','] + rest;
    assert forall|i: int| 0 <= i < both.len() implies (#[trigger] both[i]) != '"' && both[i] != '\'' && both[i] != '#'
        && both[i] != '(' && both[i] != ')' by {
        if i < a.len() {
            assert(both[i] == a[i]);
        } else if i > a.len() {
            assert(both[i] == rest[i - a.len() - 1]);
        }
    }
    lemma_inner(head, both, tail);
    let parts = taint::top_level_parts(rest);
    let all = seq![a] + parts;
    lemma_input_names_shift(a, parts, 0);
    assert(all[0] == a);
    let one = seq![a];
    assert(one[0] == a);
    assert(python::input_names(one, 1) =~= Seq::empty());
    assert(python::input_names(one, 0) =~= if python::is_input_name(python::param_name(a)) {
        seq![python::param_name(a)]
    } else {
        Seq::empty()
    });
    assert(python::input_names(all, 0) =~= python::input_names(one, 0) + python::input_names(parts, 0));
}

proof fn lemma_input_names_shift(a: Seq<char>, parts: Seq<Seq<char>>, k: int)
    requires
        0 <= k <= parts.len(),
    ensures
        python::input_names(seq![a] + parts, k + 1) == python::input_names(parts, k),
    decreases parts.len() - k,
{
    if k < parts.len() {
        assert((seq![a] + parts)[k + 1] == parts[k]);
        lemma_input_names_shift(a, parts, k + 1);
    }
}

/// The name of a parameter is its identifier: white space and asterisks before it, and the
/// annotation and the default after it, do not belong to it.
pub proof fn law_parameters_have_their_names(a: Seq<char>, stars: Seq<char>, id: Seq<char>, rest: Seq<char>)
    requires
        text::is_blank(a),
        forall|i: int| 0 <= i < stars.len() ==> #[trigger] stars[i] == '*',
        id.len() > 0,
        forall|i: int|
            0 <= i < id.len() ==> ('0' <= #[trigger] id[i] <= '9') || ('a' <= id[i] <= 'z') || ('A' <= id[i] <= 'Z')
                || id[i] == '_',
        rest.len() > 0 ==> (rest[0] == ':' || rest[0] == '=' || rest[0] == ' ') && !text::is_space(rest.last()),
    ensures
        python::param_name(a + (stars + id + rest)) == id,
{
    let v = stars + id + rest;
    assert(!text::is_space(v[0])) by {
        if stars.len() > 0 {
            assert(v[0] == stars[0]);
        } else {
            assert(v[0] == id[0]);
        }
    }
    assert(!text::is_space(v.last())) by {
        if rest.len() > 0 {
            assert(v.last() == rest.last());
        } else {
            assert(v.last() == id[id.len() - 1]);
        }
    }
    let none = Seq::<char>::empty();
    lemma_trim_around(a, v, none);
    assert(a + v + none =~= a + v);
    lemma_stars(v, stars, 0);
    assert(v[stars.len() as int] == id[0]);
    assert(v.skip(stars.len() as int) =~= id + rest);
    laws_text::law_identifiers_are_read_whole(id, rest, false);
}

proof fn lemma_stars(v: Seq<char>, stars: Seq<char>, i: int)
    requires
        0 <= i <= stars.len() < v.len(),
        forall|k: int| 0 <= k < stars.len() ==> #[trigger] v[k] == '*',
        v[stars.len() as int] != '*',
    ensures
        python::star_end(v, i) == stars.len(),
    decreases stars.len() - i,
{
    if i < stars.len() {
        assert(v[i] == '*');
        lemma_stars(v, stars, i + 1);
    }
}

/// The name of a tool is what stands between `def` and the parameter list.
pub proof fn law_tools_have_the_names_of_their_functions(a: Seq<char>, name: Seq<char>, rest: Seq<char>)
    requires
        text::is_blank(a),
        name.len() > 0,
        forall|i: int|
            0 <= i < name.len() ==> ('0' <= #[trigger] name[i] <= '9') || ('a' <= name[i] <= 'z') || ('A' <= name[i]
                <= 'Z') || name[i] == '_',
        rest.len() > 0,
        rest[0] == '(',
    ensures
        python::name_in_sig(a + ("def "@ + (name + rest))) == name,
        python::name_in_sig(a + ("async def "@ + (name + rest))) == name,
{
    reveal_strlit("def ");
    reveal_strlit("async ");
    reveal_strlit("async def ");
    let s = name + rest;
    let d = "def "@ + s;
    let q = "async def "@ + s;
    lemma_trim_start_around(a, d);
    lemma_trim_start_around(a, q);
    assert(s[0] == name[0]);
    assert(d.subrange(0, 4) =~= "def "@);
    assert(d.skip(4) =~= s);
    assert(q.subrange(0, 6) =~= "async "@);
    assert(q.skip(6) =~= d);
    assert(d.subrange(0, 6)[0] == 'd');
    assert(!text::starts_with(d, "async "@)) by {
        if text::starts_with(d, "async "@) {
            assert(d.subrange(0, 6)[0] == "async "@[0]);
        }
    }
    let none = Seq::<char>::empty();
    lemma_trim_start_around(none, s);
    assert(none + s =~= s);
    laws_text::law_identifiers_are_read_whole(name, rest, false);
}

proof fn lemma_trim_start_around(a: Seq<char>, v: Seq<char>)
    requires
        text::is_blank(a),
        v.len() > 0,
        !text::is_space(v[0]),
    ensures
        text::trim_start(a + v) == v,
{
    let s = a + v;
    text::lemma_skip_space(s, 0);
    let k = text::skip_space(s, 0);
    assert(s[a.len() as int] == v[0]);
    if k < a.len() {
        assert(s[k] == a[k]);
    }
    assert(s.skip(a.len() as int) =~= v);
}

/// A function whose parameter list is closed on the line of its `def` is read from that line alone.
pub proof fn law_one_line_signatures(ls: Seq<Seq<char>>, d: int, head: Seq<char>, inner: Seq<char>, tail: Seq<char>)
    requires
        0 <= d < ls.len(),
        ls[d] == head + seq!['('] + inner + seq![')'] + tail,
        is_plain(head) && is_plain(inner) && is_plain(tail),
        forall|i: int| 0 <= i < head.len() ==> (#[trigger] head[i]) != '(' && head[i] != ')',
        forall|i: int| 0 <= i < inner.len() ==> (#[trigger] inner[i]) != '(' && inner[i] != ')',
        forall|i: int| 0 <= i < tail.len() ==> (#[trigger] tail[i]) != '(' && tail[i] != ')',
    ensures
        python::def_at(ls, d).at == d,
        python::def_at(ls, d).end == d + 1,
        python::def_at(ls, d).name == python::name_in_sig(ls[d] + seq![' ']),
        python::def_at(ls, d).params == python::params_in_sig(ls[d] + seq![' ']),
{
    let s = ls[d];
    let h = head.len() as int;
    let e = h + 1 + inner.len();
    assert forall|i: int| 0 <= i < s.len() implies (#[trigger] s[i]) != '"' && s[i] != '\'' && s[i] != '#' by {
        if i < h {
            assert(s[i] == head[i]);
        } else if h < i < e {
            assert(s[i] == inner[i - h - 1]);
        } else if i > e {
            assert(s[i] == tail[i - e - 1]);
        }
    }
    lemma_plain_code(s);
    assert(s[h] == '(' && s[e] == ')');
    assert(s.contains('('));
    lemma_flat_parens(s, 0, h);
    lemma_flat_parens(s, h + 1, e);
    lemma_flat_parens(s, e + 1, s.len() as int);
    assert(python::paren_depth(s, 0) == 0);
    assert(python::paren_depth(s, h + 1) == 1);
    assert(python::paren_depth(s, e + 1) == 0);
    assert(python::sig_end(ls, d, d, 0, false) == d + 1);
    assert(python::joined(ls, d, d) =~= Seq::<char>::empty());
    assert(python::joined(ls, d, d + 1) =~= s + seq![' ']);
}

proof fn lemma_flat_parens(s: Seq<char>, a: int, b: int)
    requires
        0 <= a <= b <= s.len(),
        forall|i: int| a <= i < b ==> (#[trigger] s[i]) != '(' && s[i] != ')',
    ensures
        python::paren_depth(s, b) == python::paren_depth(s, a),
    decreases b - a,
{
    if a < b {
        lemma_flat_parens(s, a, b - 1);
    }
}

/// A signature that goes on over lines ends with the line that closes its parentheses, as long as that
/// is one of the 40 lines after its `def`.
pub proof fn law_signatures_end_where_they_close(ls: Seq<Seq<char>>, d: int, e: int)
    requires
        0 <= d <= e < ls.len(),
        e <= d + 40,
        code_of_line(ls, d).contains('('),
        forall|j: int| d <= j < e ==> #[trigger] open_parens(ls, d, j) > 0,
        open_parens(ls, d, e) <= 0,
    ensures
        python::def_at(ls, d).end == e + 1,
        python::def_at(ls, d).params == python::params_in_sig(python::joined(ls, d, e + 1)),
        python::def_at(ls, d).name == python::name_in_sig(python::joined(ls, d, e + 1)),
{
    lemma_signature_goes_on(ls, d, d, e);
}

/// A line without its literals and comments.
pub open spec fn code_of_line(ls: Seq<Seq<char>>, j: int) -> Seq<char> {
    literal::masked(ls[j], Language::Python)
}

/// How many parentheses are open after line `j`, counted from line `d` on.
pub open spec fn open_parens(ls: Seq<Seq<char>>, d: int, j: int) -> int
    decreases j - d,
{
    let own = python::paren_depth(code_of_line(ls, j), code_of_line(ls, j).len() as int);
    if j <= d {
        own
    } else {
        open_parens(ls, d, j - 1) + own
    }
}

proof fn lemma_signature_goes_on(ls: Seq<Seq<char>>, d: int, j: int, e: int)
    requires
        0 <= d <= j <= e < ls.len(),
        e <= d + 40,
        code_of_line(ls, d).contains('('),
        forall|k: int| d <= k < e ==> #[trigger] open_parens(ls, d, k) > 0,
        open_parens(ls, d, e) <= 0,
    ensures
        python::sig_end(
            ls,
            d,
            j,
            if j == d {
                0
            } else {
                open_parens(ls, d, j - 1)
            },
            j > d,
        ) == e + 1,
    decreases e - j,
{
    assert(open_parens(ls, d, j) == open_parens(ls, d, j));
    if j < e {
        lemma_signature_goes_on(ls, d, j + 1, e);
    }
}

/// A string in three quotes stays open until three of the same quotes close it, over lines too. A
/// backslash in it hides the character after it, and other quotes close nothing.
pub proof fn law_triple_quotes_close_what_they_open(line: Seq<char>, i: int, q: char)
    requires
        0 <= i < line.len(),
        q == '"' || q == '\'',
    ensures
        line[i] == '\\' ==> python::open_after(line, i, Some(q)) == python::open_after(line, i + 2, Some(q)),
        line[i] != '\\' && i + 3 <= line.len() && line[i] == q && line[i + 1] == q && line[i + 2] == q ==> python::open_after(
            line,
            i,
            Some(q),
        ) == python::open_after(line, i + 3, None),
        line[i] != '\\' && line[i] != q ==> python::open_after(line, i, Some(q)) == python::open_after(line, i + 1, Some(q)),
        i + 3 <= line.len() && line[i] == q && line[i + 1] == q && line[i + 2] == q ==> python::open_after(line, i, None)
            == python::open_after(line, i + 3, Some(q)),
        line[i] != '"' && line[i] != '\'' && line[i] != '#' ==> python::open_after(line, i, None) == python::open_after(line, i + 1, None),
        python::open_after(line, line.len() as int, Some(q)) == Some(q),
        python::open_after(line, line.len() as int, None) is None,
{
    if line[i] != '"' && line[i] != '\'' && line[i] != '#' {
        lemma_nothing_opens(line, i);
    }
}

proof fn lemma_nothing_opens(line: Seq<char>, i: int)
    requires
        0 <= i < line.len(),
        line[i] != '"',
        line[i] != '\'',
        line[i] != '#',
    ensures
        literal::comment_end(line, Language::Python, i) is None,
        literal::literal_end(line, Language::Python, i) is None,
{
    reveal_strlit("#");
    reveal_strlit("\"'");
    assert("\"'"@ =~= seq!['"', '\'']);
    if text::occurs_at(line, "#"@, i) {
        assert(line.subrange(i, i + 1)[0] == line[i]);
    }
}

} // verus!
