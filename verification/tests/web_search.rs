use axon::tools::ToolMetadata;
use axon::web_search::{encode_query, extract_after, extract_between, parse_ddg_html, search_url, ParsedResult, WebSearchTool};

#[test]
fn test_extract_between_normal() {
    let s = r#"<a href="https://example.com">Example</a>"#;
    let result = extract_between(s, "href=\"", "\"");
    assert_eq!(result, Some("https://example.com"));
}

#[test]
fn test_extract_between_empty_start() {
    let s = "hello world";
    let result = extract_between(s, "", " ");
    assert_eq!(result, Some("hello"));
}

#[test]
fn test_extract_between_empty_end() {
    let s = "hello world";
    let result = extract_between(s, "hello ", "");
    assert_eq!(result, Some("world"));
}

#[test]
fn test_extract_between_not_found() {
    let s = "hello";
    assert!(extract_between(s, "xyz", "abc").is_none());
}

#[test]
fn test_extract_after() {
    let s = "prefix::suffix";
    let result = extract_after(s, "::");
    assert_eq!(result, Some("suffix"));
}

#[test]
fn test_extract_after_not_found() {
    let s = "hello";
    assert!(extract_after(s, "xyz").is_none());
}

#[test]
fn test_parse_ddg_html_empty() {
    let results = parse_ddg_html("", 5);
    assert!(results.is_empty());
}

#[test]
fn test_parse_ddg_html_basic() {
    let html = r#"
        <a class="result__a" href="https://duckduckgo.com/l/?uddg=https%3A%2F%2Frust-lang.org">Rust Programming</a>
        <a class="result__a" href="https://duckduckgo.com/l/?uddg=https%3A%2F%2Fdoc.rust-lang.org">Rust Docs</a>
        "#;
    let results = parse_ddg_html(html, 5);
    assert_eq!(results.len(), 2);
    assert_eq!(results[0].title, "Rust Programming");
}

#[test]
fn test_parse_ddg_html_max_results() {
    let html = r#"
        <a class="result__a" href="https://a.com">A</a>
        <a class="result__a" href="https://b.com">B</a>
        <a class="result__a" href="https://c.com">C</a>
        "#;
    let results = parse_ddg_html(html, 2);
    assert_eq!(results.len(), 2);
}

#[test]
fn parse_ddg_html_strips_redirect_and_reads_snippet() {
    let html = r#"<a class="result__a" href="https://duckduckgo.com/l/?uddg=https%3A%2F%2Fa.org">  A title </a><a class="result__snippet">  the snippet </a>"#;
    let results = parse_ddg_html(html, 5);
    assert_eq!(results.len(), 1);
    assert_eq!(results[0].title, "A title");
    assert_eq!(results[0].href, "https%3A%2F%2Fa.org");
    assert_eq!(results[0].body, "the snippet");
}

#[test]
fn query_is_encoded_by_code_point() {
    assert_eq!(encode_query("rust lang"), "rust+lang");
    assert_eq!(encode_query("a-b_c.d~e"), "a-b_c.d~e");
    assert_eq!(encode_query("é"), "%E9");
    assert_eq!(encode_query("中"), "%4E2D");
    assert_eq!(encode_query("a\nb"), "a%0Ab");
    assert_eq!(encode_query("?&"), "%3F%26");
    assert_eq!(search_url("rust lang"), "https://html.duckduckgo.com/html/?q=rust+lang");
}

#[test]
fn search_answer_lists_numbered_hits() {
    let tool = WebSearchTool::new(5);
    assert_eq!(tool.limit(None), 5);
    assert_eq!(tool.limit(Some(3)), 3);
    let empty = tool.answer("nothing", &vec![]);
    assert_eq!(empty.content, "No results found for: nothing");
    assert!(!empty.is_error);
    let hits = vec![
        ParsedResult { title: "T1".to_string(), href: "h1".to_string(), body: "b1".to_string() },
        ParsedResult { title: "T2".to_string(), href: "h2".to_string(), body: "b2".to_string() },
    ];
    let r = tool.answer("q", &hits);
    assert_eq!(r.content, "1. T1\n   b1\n   h1\n\n2. T2\n   b2\n   h2\n\n");
    match r.metadata {
        ToolMetadata::Search { result_count, query } => {
            assert_eq!(result_count, 2);
            assert_eq!(query, "q");
        }
        other => panic!("unexpected {other:?}"),
    }
    match tool.require_query(None) {
        Err(e) => assert_eq!(e.to_display_string(), "tool error: web_search: missing 'query' field"),
        Ok(_) => panic!("expected an error"),
    }
}
