use axon::config::AxonConfig;
use axon::error::AxonError;
use axon::gateway::{pick_weighted, EmbeddedGateway, GatewayStats};
use axon::models::{ChatMessage, ModelDefinition, RouteDefinition, RouteTarget, ToolCall};
use axon::provider::{
    anthropic_chat_response, anthropic_max_tokens, create_provider, openai_chat_response, split_system,
    trim_trailing_slashes, AnthropicBlock, OpenAiReply, OpenAiReplyChoice, OpenAiUsage, ProviderKind,
};

fn model(name: &str, provider: &str, model_name: &str) -> ModelDefinition {
    ModelDefinition {
        name: name.to_string(),
        provider: provider.to_string(),
        model_name: model_name.to_string(),
        api_key: Some(format!("sk-{name}")),
        api_key_env: None,
        api_base: None,
        max_concurrency: None,
        rate_limit: None,
    }
}

fn target(model: &str, weight: u32) -> RouteTarget {
    RouteTarget { model: model.to_string(), weight, tags: vec![] }
}

fn route(name: &str, strategy: &str, targets: Vec<RouteTarget>) -> RouteDefinition {
    RouteDefinition { name: name.to_string(), strategy: strategy.to_string(), targets }
}

fn config() -> AxonConfig {
    let mut c = AxonConfig::default();
    c.models = vec![model("a", "openai", "gpt-a"), model("b", "anthropic", "sonnet-b"), model("c", "vertex", "gemini-c")];
    c.routes = vec![
        route("rr", "round_robin", vec![target("a", 1), target("b", 1), target("c", 1)]),
        route("fo", "failover", vec![target("missing", 1), target("b", 1), target("a", 1)]),
        route("none", "failover", vec![target("missing", 1)]),
        route("w", "weighted", vec![target("a", 0), target("b", 3), target("c", 1)]),
        route("empty", "round_robin", vec![]),
    ];
    c
}

fn gateway() -> EmbeddedGateway {
    let c = config();
    let env = vec![None; c.models.len()];
    EmbeddedGateway::from_config(&c, &env).unwrap()
}

#[test]
fn model_names_resolve_to_themselves() {
    let mut g = gateway();
    assert_eq!(g.resolve_model_name("a").as_deref(), Some("a"));
    assert_eq!(g.resolve_model_name("zzz"), None);
}

#[test]
fn round_robin_cycles_through_targets() {
    let mut g = gateway();
    let picks: Vec<String> = (0..4).map(|_| g.resolve_model_name("rr").unwrap()).collect();
    assert_eq!(picks, vec!["a", "b", "c", "a"]);
}

#[test]
fn failover_takes_first_configured_target() {
    let mut g = gateway();
    assert_eq!(g.resolve_model_name("fo").as_deref(), Some("b"));
    assert_eq!(g.resolve_model_name("none"), None);
    assert_eq!(g.resolve_model_name("empty"), None);
}

#[test]
fn weighted_pick_follows_weight_shares() {
    let targets = vec![target("a", 0), target("b", 3), target("c", 1)];
    assert_eq!(pick_weighted(&targets, 0), 1);
    assert_eq!(pick_weighted(&targets, 2), 1);
    assert_eq!(pick_weighted(&targets, 3), 2);
    assert_eq!(pick_weighted(&targets, 4), 1);
    let zero = vec![target("a", 0), target("b", 0)];
    assert_eq!(pick_weighted(&zero, 7), 0);
    let mut g = gateway();
    for _ in 0..10 {
        let m = g.resolve_model_name("w").unwrap();
        assert!(m == "b" || m == "c");
    }
}

#[test]
fn route_chat_answers_with_upstream_name_or_not_found() {
    let mut g = gateway();
    assert_eq!(g.route_chat("b").unwrap(), ("b".to_string(), "sonnet-b".to_string()));
    match g.route_chat("zzz") {
        Err(AxonError::NotFound(m)) => assert_eq!(m, "model or route 'zzz' not found"),
        other => panic!("unexpected {other:?}"),
    }
    let mut c = config();
    c.routes = vec![route("bad", "round_robin", vec![target("ghost", 1)])];
    let mut g2 = EmbeddedGateway::from_config(&c, &vec![None; 3]).unwrap();
    match g2.route_chat("bad") {
        Err(AxonError::NotFound(m)) => assert_eq!(m, "provider for model 'ghost' not found"),
        other => panic!("unexpected {other:?}"),
    }
}

#[test]
fn from_config_reports_missing_key_and_unknown_provider() {
    let mut c = config();
    c.models[1].api_key = None;
    match EmbeddedGateway::from_config(&c, &vec![None; 3]) {
        Err(AxonError::Config(m)) => {
            assert_eq!(m, "model 'b' has no api_key (neither api_key nor api_key_env resolved)")
        }
        other => panic!("unexpected {:?}", other.is_ok()),
    }
    c.models[1].api_key_env = Some("B_KEY".to_string());
    assert!(EmbeddedGateway::from_config(&c, &vec![None, Some("sk-env".to_string()), None]).is_ok());
    let mut c2 = config();
    c2.models[0].provider = "mystery".to_string();
    match EmbeddedGateway::from_config(&c2, &vec![None; 3]) {
        Err(AxonError::Config(m)) => assert_eq!(m, "unknown provider type: mystery"),
        other => panic!("unexpected {:?}", other.is_ok()),
    }
}

#[test]
fn listings_show_configured_models_and_routes() {
    let g = gateway();
    let models = g.list_models();
    let ids: Vec<&str> = models.iter().map(|m| m.id.as_str()).collect();
    assert_eq!(ids, vec!["a", "b", "c"]);
    assert_eq!(models[1].provider, "anthropic");
    assert_eq!(models[1].model_name, "sonnet-b");
    let routes = g.list_routes();
    assert_eq!(routes.len(), 5);
    assert_eq!(routes[0].name, "rr");
    assert_eq!(routes[0].targets.len(), 3);
    let entries = g.model_entries();
    assert_eq!(entries[0].endpoint.api_base, "https://api.openai.com/v1");
    assert_eq!(entries[1].endpoint.kind, ProviderKind::Anthropic);
    assert_eq!(entries[2].endpoint.kind, ProviderKind::OpenAi);
    assert_eq!(entries[0].endpoint.api_key, "sk-a");
}

#[test]
fn reload_replaces_table_and_keeps_counters() {
    let mut g = gateway();
    assert_eq!(g.resolve_model_name("rr").as_deref(), Some("a"));
    let mut c = config();
    c.models.push(model("d", "openai", "gpt-d"));
    g.reload(&c, &vec![None; 4]).unwrap();
    assert_eq!(g.list_models().len(), 4);
    assert_eq!(g.resolve_model_name("rr").as_deref(), Some("b"));
    let mut bad = config();
    bad.models[0].provider = "mystery".to_string();
    assert!(g.reload(&bad, &vec![None; 3]).is_err());
    assert_eq!(g.list_models().len(), 4);
    let empty = EmbeddedGateway::new();
    assert!(empty.list_models().is_empty());
    let stats = GatewayStats::default();
    assert_eq!(stats.total_requests, 0);
}

#[test]
fn providers_are_made_from_type_names() {
    let p = create_provider("vertex", "https://x.example/v1//", "key").unwrap();
    assert_eq!(p.kind, ProviderKind::OpenAi);
    assert_eq!(p.api_base, "https://x.example/v1");
    assert_eq!(p.chat_url(), "https://x.example/v1/chat/completions");
    let h = p.headers();
    assert_eq!(h, vec![("Authorization".to_string(), "Bearer key".to_string())]);
    let a = create_provider("anthropic", "https://api.anthropic.com", "k2").unwrap();
    assert_eq!(a.chat_url(), "https://api.anthropic.com/v1/messages");
    assert_eq!(
        a.headers(),
        vec![("x-api-key".to_string(), "k2".to_string()), ("anthropic-version".to_string(), "2023-06-01".to_string())]
    );
    match create_provider("other", "b", "k") {
        Err(AxonError::Config(m)) => assert_eq!(m, "unknown provider type: other"),
        _ => panic!("expected an error"),
    }
    assert_eq!(trim_trailing_slashes("abc///"), "abc");
    assert_eq!(trim_trailing_slashes("///"), "");
    match a.status_error(true, "500 Internal Server Error", "boom") {
        AxonError::Upstream(m) => assert_eq!(m, "anthropic stream 500 Internal Server Error: boom"),
        _ => panic!("expected upstream"),
    }
    match p.request_error(false, "timeout") {
        AxonError::Upstream(m) => assert_eq!(m, "openai request: timeout"),
        _ => panic!("expected upstream"),
    }
}

#[test]
fn anthropic_request_takes_system_messages_apart() {
    let msgs = vec![
        ChatMessage::system("one"),
        ChatMessage::user("hi"),
        ChatMessage::system("two"),
        ChatMessage::assistant("yo"),
    ];
    let (sys, rest) = split_system(msgs);
    assert_eq!(sys, "one\ntwo");
    assert_eq!(rest.len(), 2);
    assert_eq!(rest[0].role, "user");
    assert_eq!(rest[1].role, "assistant");
    let (sys2, _) = split_system(vec![ChatMessage::system(""), ChatMessage::system("x")]);
    assert_eq!(sys2, "x");
    assert_eq!(anthropic_max_tokens(None), 4096);
    assert_eq!(anthropic_max_tokens(Some(10)), 10);
}

#[test]
fn complete_answers_become_chat_responses() {
    let reply = OpenAiReply {
        choices: vec![OpenAiReplyChoice { content: None, tool_calls: None, finish_reason: Some("stop".to_string()) }],
        usage: OpenAiUsage { prompt_tokens: 3, completion_tokens: 4, total_tokens: 7, ..OpenAiUsage::default() },
        model: "gpt".to_string(),
    };
    let r = openai_chat_response(reply).unwrap();
    assert_eq!(r.content, "");
    assert!(r.tool_calls.is_empty());
    assert_eq!(r.usage.total_tokens, 7);
    assert_eq!(r.finish_reason.as_deref(), Some("stop"));
    let none = OpenAiReply { choices: vec![], usage: OpenAiUsage::default(), model: "gpt".to_string() };
    match openai_chat_response(none) {
        Err(AxonError::Upstream(m)) => assert_eq!(m, "openai: no choices in response"),
        _ => panic!("expected an error"),
    }
    let usage = OpenAiUsage { cached_tokens: Some(Some(2)), reasoning_tokens: Some(None), ..OpenAiUsage::default() };
    let tu = usage.to_token_usage();
    assert_eq!(tu.prompt_tokens_details.unwrap().cached_tokens, Some(2));
    assert_eq!(tu.completion_tokens_details.unwrap().reasoning_tokens, None);
    let blocks = vec![
        AnthropicBlock::Text { text: "Hello ".to_string() },
        AnthropicBlock::ToolUse { id: "t1".to_string(), name: "search".to_string(), arguments: "{}".to_string() },
        AnthropicBlock::Text { text: "world".to_string() },
    ];
    let a = anthropic_chat_response(blocks, 10, 5, "sonnet".to_string(), Some("end_turn".to_string()));
    assert_eq!(a.content, "Hello world");
    let expected: Vec<ToolCall> = vec![ToolCall::function_call("t1".to_string(), "search".to_string(), "{}".to_string())];
    assert_eq!(a.tool_calls.len(), expected.len());
    assert_eq!(a.tool_calls[0].id, "t1");
    assert_eq!(a.tool_calls[0].call_type, "function");
    assert_eq!(a.usage.total_tokens, 15);
    assert_eq!(a.usage.prompt_tokens, 10);
}
