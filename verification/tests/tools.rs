use axon::error::AxonError;
use axon::models::{ToolConfig, ToolDefinition};
use axon::store::MemoryEntry;
use axon::tools::{
    build_registry, combine_output, is_char_boundary_at, utf8_len, CodeDecision, CodeExecTool, CodeRunner,
    HttpFetchTool, HttpMethod, MemoryAction, MemoryTool, ShellTool, ToolMetadata, ToolResult, ToolSpec,
};

fn tool_def(kind: &str) -> ToolDefinition {
    ToolDefinition {
        name: format!("my_{kind}"),
        kind: kind.to_string(),
        config: ToolConfig {
            max_results: None,
            timeout_ms: None,
            allowed_commands: None,
            namespace: None,
            max_response_chars: None,
            max_output_chars: None,
            allowed_languages: None,
        },
    }
}

fn tool_error(e: AxonError) -> String {
    match e {
        AxonError::Tool(m) => m,
        other => panic!("expected a tool error, got {other:?}"),
    }
}

#[test]
fn tool_result_ok_and_err() {
    let ok = ToolResult::ok("fine".to_string());
    assert!(!ok.is_error);
    assert!(matches!(ok.metadata, ToolMetadata::Null));
    let err = ToolResult::err("bad".to_string());
    assert!(err.is_error);
    assert_eq!(err.content, "bad");
}

#[test]
fn combined_output_marks_stderr() {
    assert_eq!(combine_output("out".to_string(), ""), "out");
    assert_eq!(combine_output("out".to_string(), "err"), "out\n[stderr]\nerr");
}

#[test]
fn shell_allow_list_decides() {
    let open = ShellTool::unrestricted(1000);
    assert!(matches!(open.check_command(Some("rm")), Ok(None)));
    assert_eq!(tool_error(open.check_command(None).unwrap_err()), "shell: missing 'command' field");
    let strict = ShellTool::new(1000, vec!["ls".to_string(), "echo".to_string()]);
    assert!(matches!(strict.check_command(Some("echo")), Ok(None)));
    match strict.check_command(Some("rm")) {
        Ok(Some(r)) => {
            assert!(r.is_error);
            assert_eq!(r.content, "command 'rm' is not in the allowed list");
        }
        _ => panic!("expected a refusal"),
    }
    assert_eq!(tool_error(strict.timed_out()), "shell command timed out after 1000ms");
}

#[test]
fn shell_finish_reports_exit_code() {
    let t = ShellTool::unrestricted(1000);
    let r = t.finish("ls", "a\n".to_string(), "", Some(0), true);
    assert_eq!(r.content, "a\n");
    assert!(!r.is_error);
    match r.metadata {
        ToolMetadata::Process { exit_code, command } => {
            assert_eq!(exit_code, 0);
            assert_eq!(command, "ls");
        }
        other => panic!("unexpected {other:?}"),
    }
    let killed = t.finish("sleep", String::new(), "killed", None, false);
    assert!(killed.is_error);
    assert_eq!(killed.content, "\n[stderr]\nkilled");
    assert!(matches!(killed.metadata, ToolMetadata::Process { exit_code: -1, .. }));
}

#[test]
fn code_exec_decisions() {
    let t = CodeExecTool::default_config();
    assert!(matches!(t.decide(Some("python"), Some("print(1)")), Ok(CodeDecision::Run(CodeRunner::Python))));
    assert!(matches!(t.decide(Some("javascript"), Some("1")), Ok(CodeDecision::Run(CodeRunner::JavaScript))));
    assert_eq!(tool_error(t.decide(None, Some("x")).unwrap_err()), "code_exec: missing 'language'");
    assert_eq!(tool_error(t.decide(Some("python"), None).unwrap_err()), "code_exec: missing 'code'");
    match t.decide(Some("ruby"), Some("1")) {
        Ok(CodeDecision::Refuse(r)) => {
            assert!(r.is_error);
            assert_eq!(r.content, "language 'ruby' is not allowed. Allowed: [\"python\", \"javascript\"]");
        }
        _ => panic!("expected a refusal"),
    }
    let any = CodeExecTool::new(1000, 100, vec![]);
    assert!(matches!(any.decide(Some("js"), Some("1")), Ok(CodeDecision::Run(CodeRunner::JavaScript))));
    match any.decide(Some("ruby"), Some("1")) {
        Ok(CodeDecision::Refuse(r)) => assert_eq!(r.content, "unsupported language: ruby"),
        _ => panic!("expected a refusal"),
    }
    assert_eq!(tool_error(any.timed_out()), "code_exec timed out after 1000ms");
}

#[test]
fn code_exec_output_is_cut_to_the_byte_limit() {
    let t = CodeExecTool::new(1000, 5, vec![]);
    let short = t.finish(CodeRunner::Python, "abc".to_string(), Some(0), true);
    assert_eq!(short.content, "abc");
    let long = t.finish(CodeRunner::Python, "abcdefgh".to_string(), Some(1), false);
    assert_eq!(long.content, "abcde\n... [output truncated]");
    assert!(long.is_error);
    match long.metadata {
        ToolMetadata::Code { exit_code, language } => {
            assert_eq!(exit_code, 1);
            assert_eq!(language, "python");
        }
        other => panic!("unexpected {other:?}"),
    }
    assert!(t.can_cut("abcdefgh"));
    assert!(!t.can_cut("abcdéfgh"));
    assert!(t.can_cut("abcde"));
    assert!(t.can_cut("abcdeé"));
}

#[test]
fn byte_lengths_and_boundaries() {
    assert_eq!(utf8_len("héllo"), 6);
    assert!(is_char_boundary_at("héllo", 1));
    assert!(!is_char_boundary_at("héllo", 2));
    assert!(is_char_boundary_at("héllo", 3));
    assert!(is_char_boundary_at("héllo", 6));
    assert!(!is_char_boundary_at("héllo", 7));
}

#[test]
fn http_fetch_methods_and_cut() {
    let t = HttpFetchTool::new(1000, 5);
    assert_eq!(t.method(None).unwrap(), HttpMethod::Get);
    assert_eq!(t.method(Some("post")).unwrap(), HttpMethod::Post);
    assert_eq!(t.method(Some("Delete")).unwrap(), HttpMethod::Delete);
    match t.method(Some("brew")) {
        Err(r) => {
            assert!(r.is_error);
            assert_eq!(r.content, "unsupported method: BREW");
        }
        Ok(m) => panic!("unexpected {m:?}"),
    }
    assert_eq!(tool_error(t.require_url(None).unwrap_err()), "http_fetch: missing 'url' field");
    let short = t.finish(200, true, "text/plain".to_string(), "hello".to_string());
    assert_eq!(short.content, "hello");
    let long = t.finish(404, false, "text/html".to_string(), "0123456789".to_string());
    assert_eq!(long.content, "01234... [truncated]");
    assert!(long.is_error);
    match long.metadata {
        ToolMetadata::Http { status, content_type, truncated, original_length } => {
            assert_eq!(status, 404);
            assert_eq!(content_type, "text/html");
            assert!(truncated);
            assert_eq!(original_length, 10);
        }
        other => panic!("unexpected {other:?}"),
    }
    let multibyte = t.finish(200, true, String::new(), "aaaaé€".to_string());
    assert_eq!(multibyte.content, "aaaa... [truncated]");
}

#[test]
fn memory_actions_and_answers() {
    let t = MemoryTool::new("default".to_string());
    assert!(matches!(t.action(Some("get"), Some("k"), None), Ok(MemoryAction::Get { .. })));
    assert!(matches!(t.action(Some("set"), Some("k"), Some("v")), Ok(MemoryAction::Put { .. })));
    assert!(matches!(t.action(Some("delete"), Some("k"), None), Ok(MemoryAction::Delete { .. })));
    assert!(matches!(t.action(Some("list"), None, None), Ok(MemoryAction::List)));
    assert_eq!(tool_error(t.action(None, None, None).unwrap_err()), "memory: missing 'action' field");
    assert_eq!(tool_error(t.action(Some("get"), None, None).unwrap_err()), "memory: missing 'key'");
    assert_eq!(tool_error(t.action(Some("set"), Some("k"), None).unwrap_err()), "memory: missing 'value'");
    match t.action(Some("drop"), None, None) {
        Ok(MemoryAction::Unknown(r)) => assert_eq!(r.content, "unknown action: drop"),
        _ => panic!("expected unknown"),
    }
    assert_eq!(t.get_answer("k", Some("v".to_string())).content, "v");
    assert_eq!(t.get_answer("k", None).content, "(no value for key 'k')");
    let set = t.set_answer("k", "héllo");
    assert_eq!(set.content, "OK: set 'k'");
    assert!(matches!(set.metadata, ToolMetadata::MemorySet { bytes: 6, .. }));
    assert_eq!(t.delete_answer("k").content, "OK: deleted 'k'");
    assert_eq!(t.list_answer(&vec![]).content, "(memory is empty)");
    let entries = vec![
        MemoryEntry { key: "a".to_string(), value: "1".to_string(), updated_at: 0 },
        MemoryEntry { key: "b".to_string(), value: "2".to_string(), updated_at: 0 },
    ];
    let listed = t.list_answer(&entries);
    assert_eq!(listed.content, "a: 1\nb: 2\n");
    assert!(matches!(listed.metadata, ToolMetadata::Count { count: 2 }));
}

#[test]
fn registry_is_built_from_definitions_with_defaults() {
    let mut shell = tool_def("shell");
    shell.config.allowed_commands = Some(vec!["ls".to_string()]);
    let defs = vec![tool_def("web_search"), shell, tool_def("memory"), tool_def("http_fetch"), tool_def("code_exec"), tool_def("unknown")];
    let reg = build_registry(&defs);
    let names: Vec<&str> = reg.list().iter().map(|t| t.name()).collect();
    assert_eq!(names, vec!["web_search", "shell", "memory", "http_fetch", "code_exec"]);
    match reg.get("web_search") {
        Some(ToolSpec::WebSearch(t)) => assert_eq!(t.max_results, 5),
        _ => panic!("missing web_search"),
    }
    match reg.get("shell") {
        Some(ToolSpec::Shell(t)) => {
            assert_eq!(t.timeout_ms(), 30_000);
            assert!(t.check_command(Some("rm")).unwrap().is_some());
        }
        _ => panic!("missing shell"),
    }
    match reg.get("memory") {
        Some(ToolSpec::Memory(t)) => assert_eq!(t.namespace, "default"),
        _ => panic!("missing memory"),
    }
    match reg.get("http_fetch") {
        Some(ToolSpec::HttpFetch(t)) => {
            assert_eq!(t.timeout_ms, 15_000);
            assert_eq!(t.max_response_chars, 50_000);
        }
        _ => panic!("missing http_fetch"),
    }
    match reg.get("code_exec") {
        Some(ToolSpec::CodeExec(t)) => assert_eq!(t.timeout_ms(), 10_000),
        _ => panic!("missing code_exec"),
    }
    let wanted = vec!["memory".to_string(), "nope".to_string(), "shell".to_string()];
    let picked: Vec<&str> = reg.schemas_for(&wanted).iter().map(|t| t.name()).collect();
    assert_eq!(picked, vec!["memory", "shell"]);
    match reg.find("nope") {
        Err(AxonError::NotFound(m)) => assert_eq!(m, "tool 'nope' not found"),
        _ => panic!("expected not found"),
    }
}

#[test]
fn later_definition_of_a_kind_replaces_earlier() {
    let mut first = tool_def("web_search");
    first.config.max_results = Some(3);
    let mut second = tool_def("web_search");
    second.config.max_results = Some(9);
    let reg = build_registry(&vec![first, second]);
    assert_eq!(reg.list().len(), 1);
    match reg.get("web_search") {
        Some(ToolSpec::WebSearch(t)) => assert_eq!(t.max_results, 9),
        _ => panic!("missing web_search"),
    }
}

#[test]
fn tool_descriptions_name_their_input() {
    assert!(ShellTool::new(1000, vec![]).description().starts_with("Execute a shell command"));
    assert!(HttpFetchTool::new(1000, 10).description().starts_with("Fetch content from an HTTP/HTTPS URL."));
    assert!(MemoryTool::new("n".to_string()).description().starts_with("Read or write persistent memory"));
    assert!(axon::web_search::WebSearchTool::new(5).description().starts_with("Search the web using DuckDuckGo"));
}
