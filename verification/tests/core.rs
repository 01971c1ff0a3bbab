use axon::config::{choose_log_level, format_for_extension, AxonConfig, ConfigFormat};
use axon::error::AxonError;
use axon::models::{
    AgentDefinition, ChatMessage, ModelDefinition, RouteDefinition, RouteTarget, TokenUsage, ToolCall,
};

fn model(name: &str, provider: &str, model_name: &str) -> ModelDefinition {
    ModelDefinition {
        name: name.to_string(),
        provider: provider.to_string(),
        model_name: model_name.to_string(),
        api_key: None,
        api_key_env: None,
        api_base: None,
        max_concurrency: None,
        rate_limit: None,
    }
}

fn sample_config() -> AxonConfig {
    let mut config = AxonConfig::default();
    let mut m = model("gpt-4", "openai", "gpt-4o");
    m.api_key = Some("sk-test".to_string());
    config.models = vec![m];
    config.routes = vec![RouteDefinition {
        name: "default".to_string(),
        strategy: "failover".to_string(),
        targets: vec![RouteTarget { model: "gpt-4".to_string(), weight: 1, tags: vec![] }],
    }];
    config.agents = vec![AgentDefinition {
        id: "translator".to_string(),
        name: "Translator".to_string(),
        description: "Translate text".to_string(),
        system_prompt: "You are a translator.".to_string(),
        model: "gpt-4".to_string(),
        tools: vec![],
        max_iterations: 5,
        max_tokens: None,
    }];
    config
}

#[test]
fn test_chat_message_system() {
    let msg = ChatMessage::system("hello");
    assert_eq!(msg.role, "system");
    assert_eq!(msg.content, "hello");
    assert!(msg.tool_calls.is_none());
    assert!(msg.tool_call_id.is_none());
}

#[test]
fn test_chat_message_user() {
    let msg = ChatMessage::user("hi");
    assert_eq!(msg.role, "user");
    assert_eq!(msg.content, "hi");
}

#[test]
fn test_chat_message_assistant() {
    let msg = ChatMessage::assistant("response");
    assert_eq!(msg.role, "assistant");
    assert_eq!(msg.content, "response");
}

#[test]
fn test_chat_message_tool() {
    let msg = ChatMessage::tool("result", "call_123");
    assert_eq!(msg.role, "tool");
    assert_eq!(msg.content, "result");
    assert_eq!(msg.tool_call_id.as_deref(), Some("call_123"));
}

#[test]
fn test_model_resolve_api_key_direct() {
    let mut m = model("test", "openai", "gpt-4");
    m.api_key = Some("sk-direct".to_string());
    assert_eq!(m.resolve_api_key_with(None).as_deref(), Some("sk-direct"));
}

#[test]
fn test_model_resolve_api_key_none() {
    let mut m = model("test", "openai", "gpt-4");
    m.api_key_env = Some("NONEXISTENT_VAR_XYZ".to_string());
    assert!(m.resolve_api_key_with(None).is_none());
}

#[test]
fn model_key_comes_from_environment_value_when_named() {
    let mut m = model("test", "openai", "gpt-4");
    m.api_key_env = Some("AXON_TEST_KEY".to_string());
    assert_eq!(m.resolve_api_key_with(Some("sk-from-env".to_string())).as_deref(), Some("sk-from-env"));
    let plain = model("test", "openai", "gpt-4");
    assert!(plain.resolve_api_key_with(Some("ignored".to_string())).is_none());
}

#[test]
fn test_model_resolve_api_base_defaults() {
    assert_eq!(model("test", "openai", "gpt-4").resolve_api_base(), "https://api.openai.com/v1");
    assert_eq!(model("test", "anthropic", "gpt-4").resolve_api_base(), "https://api.anthropic.com");
    assert!(model("test", "vertex", "gpt-4").resolve_api_base().contains("googleapis.com"));
    assert_eq!(model("test", "mistral", "gpt-4").resolve_api_base(), "https://api.openai.com/v1");
}

#[test]
fn test_model_resolve_api_base_override() {
    let mut m = model("test", "openai", "gpt-4");
    m.api_base = Some("https://custom.example.com/v1".to_string());
    assert_eq!(m.resolve_api_base(), "https://custom.example.com/v1");
}

#[test]
fn test_token_usage_default() {
    let usage = TokenUsage::default();
    assert_eq!(usage.prompt_tokens, 0);
    assert_eq!(usage.completion_tokens, 0);
    assert_eq!(usage.total_tokens, 0);
}

#[test]
fn tool_call_function_call_has_function_type() {
    let tc = ToolCall::function_call("call_1".to_string(), "web_search".to_string(), "{\"query\":\"rust\"}".to_string());
    assert_eq!(tc.id, "call_1");
    assert_eq!(tc.call_type, "function");
    assert_eq!(tc.function.name, "web_search");
    assert_eq!(tc.function.arguments, "{\"query\":\"rust\"}");
}

#[test]
fn test_default_config_validates() {
    let config = AxonConfig::default();
    assert!(config.validate().is_ok());
}

#[test]
fn test_validate_empty_addr() {
    let mut config = AxonConfig::default();
    config.server.addr = "".to_string();
    assert!(matches!(config.validate(), Err(AxonError::Validation(_))));
}

#[test]
fn test_validate_empty_sqlite_path() {
    let mut config = AxonConfig::default();
    config.storage.sqlite_path = "".to_string();
    assert!(config.validate().is_err());
}

#[test]
fn test_validate_agent_max_iterations_zero() {
    let mut config = sample_config();
    config.agents[0].max_iterations = 0;
    assert!(config.validate().is_err());
}

#[test]
fn validation_messages_name_the_broken_rule() {
    let mut config = AxonConfig::default();
    config.server.addr = "".to_string();
    match config.validate() {
        Err(AxonError::Validation(m)) => assert_eq!(m, "server.addr is empty"),
        other => panic!("unexpected {other:?}"),
    }
    let mut config = AxonConfig::default();
    config.storage.sqlite_path = "".to_string();
    match config.validate() {
        Err(AxonError::Validation(m)) => assert_eq!(m, "storage.sqlite_path is empty"),
        other => panic!("unexpected {other:?}"),
    }
    let mut config = sample_config();
    config.agents[0].max_iterations = 0;
    match config.validate() {
        Err(AxonError::Validation(m)) => assert_eq!(m, "agent 'translator' has max_iterations=0"),
        other => panic!("unexpected {other:?}"),
    }
    let mut config = sample_config();
    config.agents[0].id = "".to_string();
    match config.validate() {
        Err(AxonError::Validation(m)) => assert_eq!(m, "agent.id is empty"),
        other => panic!("unexpected {other:?}"),
    }
}

#[test]
fn test_find_agent() {
    let config = sample_config();
    assert!(config.find_agent("translator").is_some());
    assert!(config.find_agent("nonexistent").is_none());
}

#[test]
fn test_find_model() {
    let config = sample_config();
    assert!(config.find_model("gpt-4").is_some());
    assert!(config.find_model("llama").is_none());
}

#[test]
fn test_resolve_model_direct() {
    let config = sample_config();
    let resolved = config.resolve_model("gpt-4");
    assert!(resolved.is_some());
    assert_eq!(resolved.unwrap().model_name, "gpt-4o");
}

#[test]
fn test_resolve_model_via_route() {
    let config = sample_config();
    let resolved = config.resolve_model("default");
    assert!(resolved.is_some());
    assert_eq!(resolved.unwrap().name, "gpt-4");
}

#[test]
fn test_resolve_model_not_found() {
    let config = sample_config();
    assert!(config.resolve_model("unknown").is_none());
}

#[test]
fn config_defaults_match_documentation() {
    let c = AxonConfig::default();
    assert_eq!(c.server.addr, "0.0.0.0:8080");
    assert_eq!(c.gateway.upstream_timeout_ms, 120_000);
    assert_eq!(c.gateway.stream_timeout_ms, 300_000);
    assert_eq!(c.gateway.retry_count, 2);
    assert_eq!(c.storage.sqlite_path, "axon.db");
    assert_eq!(c.storage.max_connections, 5);
    assert_eq!(c.observability.log_level, "info");
    assert!(c.observability.metrics_enabled);
}

#[test]
fn config_format_follows_extension() {
    assert_eq!(AxonConfig::format_for_path("/etc/axon/config.json"), ConfigFormat::Json);
    assert_eq!(AxonConfig::format_for_path("config.yaml"), ConfigFormat::Yaml);
    assert_eq!(AxonConfig::format_for_path("config"), ConfigFormat::Yaml);
    assert_eq!(format_for_extension(Some("json")), ConfigFormat::Json);
    assert_eq!(format_for_extension(Some("yml")), ConfigFormat::Yaml);
    assert_eq!(format_for_extension(None), ConfigFormat::Yaml);
}

#[test]
fn addr_override_and_log_level_choice() {
    let mut c = AxonConfig::default();
    c.override_addr(Some("127.0.0.1:9090".to_string()));
    assert_eq!(c.server.addr, "127.0.0.1:9090");
    c.override_addr(None);
    assert_eq!(c.server.addr, "127.0.0.1:9090");
    assert_eq!(choose_log_level(Some("debug".to_string()), Some("warn".to_string())), "debug");
    assert_eq!(choose_log_level(None, Some("warn".to_string())), "warn");
    assert_eq!(choose_log_level(None, None), "info");
}

#[test]
fn error_display_text_has_kind_prefix() {
    assert_eq!(AxonError::Config("x".to_string()).to_display_string(), "config error: x");
    assert_eq!(AxonError::NotFound("y".to_string()).to_display_string(), "not found: y");
    assert_eq!(AxonError::Internal("z".to_string()).to_display_string(), "internal error: z");
    assert_eq!(AxonError::Upstream("u".to_string()).to_display_string(), "upstream error: u");
    match AxonError::from_json_message("bad") {
        AxonError::Config(m) => assert_eq!(m, "json: bad"),
        other => panic!("unexpected {other:?}"),
    }
    match AxonError::from_io_message("gone") {
        AxonError::Internal(m) => assert_eq!(m, "io: gone"),
        other => panic!("unexpected {other:?}"),
    }
}

#[test]
fn agent_rounds_default_to_one() {
    assert_eq!(axon::models::default_max_iterations(), 1);
}

#[test]
fn nanos_of_whole_and_fractional_seconds() {
    assert_eq!(axon::clock::nanos_of(2, 5), Some(2_000_000_005));
    assert_eq!(axon::clock::nanos_of(0, 999_999_999), Some(999_999_999));
    assert_eq!(axon::clock::nanos_of(9_223_372_036, 854_775_807), Some(i64::MAX));
    assert_eq!(axon::clock::nanos_of(9_223_372_036, 854_775_808), None);
    assert_eq!(axon::clock::nanos_of(u64::MAX, 0), None);
}

#[test]
fn rate_limit_key_is_the_resolved_model() {
    let mut config = sample_config();
    assert!(config.rate_limit_for("gpt-4").is_none());
    let l = axon::models::RateLimitConfig {
        rps: None,
        rpm: Some(3),
        rph: None,
        rpd: None,
        tpm: None,
        tpd: None,
        concurrency: Some(1),
    };
    config.models[0].rate_limit = Some(l);
    let (key, got) = config.rate_limit_for("default").unwrap();
    assert_eq!(key, "gpt-4");
    assert_eq!(got.rpm, Some(3));
    assert_eq!(got.concurrency, Some(1));
    assert!(config.rate_limit_for("nothing").is_none());
}
