use axon::api::{
    agent_event_type, chat_frames, completion_id, completion_message, health, metrics_text, metrics_unavailable,
    readiness, status_of, ChatFrame,
};
use axon::config::AxonConfig;
use axon::error::AxonError;
use axon::models::{AgentDefinition, TokenUsage, ToolCall};
use axon::protocol::{
    AgentInfo, ConversationResponse, ErrorResponse, InvokeAgentResponse, MessageResponse, UsageStatsResponse,
};
use axon::rate_store::{RateLimitError, RateLimitScope};
use axon::runtime::{InvokeResult, ToolCallRecord};
use axon::store::{Conversation, MessageRecord, ModelUsage, UsageStats};
use axon::stream::StreamEvent;

fn call(id: &str) -> ToolCall {
    ToolCall::function_call(id.to_string(), "f".to_string(), "{}".to_string())
}

#[test]
fn chat_stream_frames_per_event() {
    match chat_frames(StreamEvent::TextChunk { text: "hi".to_string() }).as_slice() {
        [ChatFrame::Chunk { content: Some(c), tool_calls: None, finish_reason: None }] => assert_eq!(c, "hi"),
        other => panic!("unexpected {other:?}"),
    }
    match chat_frames(StreamEvent::ToolCallRequest { tool_call: call("c1") }).as_slice() {
        [ChatFrame::Chunk { content: None, tool_calls: Some(v), finish_reason: None }] => assert_eq!(v[0].id, "c1"),
        other => panic!("unexpected {other:?}"),
    }
    assert!(matches!(
        chat_frames(StreamEvent::UsageUpdate { usage: TokenUsage::counts(1, 1, 2) }).as_slice(),
        [ChatFrame::Chunk { content: None, tool_calls: None, finish_reason: None }]
    ));
    match chat_frames(StreamEvent::Done { finish_reason: Some("stop".to_string()) }).as_slice() {
        [ChatFrame::Chunk { finish_reason: Some(f), .. }, ChatFrame::DoneMarker] => assert_eq!(f, "stop"),
        other => panic!("unexpected {other:?}"),
    }
    match chat_frames(StreamEvent::Error { message: "bad".to_string() }).as_slice() {
        [ChatFrame::ErrorMessage { message }] => assert_eq!(message, "bad"),
        other => panic!("unexpected {other:?}"),
    }
    assert!(chat_frames(StreamEvent::Retrying { attempt: 1, max_attempts: 3 }).is_empty());
}

#[test]
fn completion_ids_and_messages() {
    assert_eq!(completion_id(1700000000123), "chatcmpl-1700000000123");
    assert_eq!(completion_id(-5), "chatcmpl--5");
    let m = completion_message("answer".to_string(), vec![]);
    assert_eq!(m.role, "assistant");
    assert!(m.tool_calls.is_none());
    let with_calls = completion_message(String::new(), vec![call("c9")]);
    assert_eq!(with_calls.tool_calls.unwrap()[0].id, "c9");
}

#[test]
fn agent_events_are_tagged() {
    assert_eq!(agent_event_type(&StreamEvent::TextChunk { text: String::new() }), "text_chunk");
    assert_eq!(agent_event_type(&StreamEvent::ToolCallRequest { tool_call: call("c") }), "tool_call_request");
    assert_eq!(
        agent_event_type(&StreamEvent::ToolCallResult { tool_call_id: String::new(), result: String::new(), is_error: false }),
        "tool_call_result"
    );
    assert_eq!(agent_event_type(&StreamEvent::UsageUpdate { usage: TokenUsage::default() }), "usage_update");
    assert_eq!(agent_event_type(&StreamEvent::Error { message: String::new() }), "error");
    assert_eq!(agent_event_type(&StreamEvent::Done { finish_reason: None }), "done");
}

#[test]
fn health_readiness_and_status() {
    let h = health("0.1.0");
    assert_eq!(h.status, "ok");
    let mut c = AxonConfig::default();
    assert_eq!(readiness(&c, "0.1.0").status, "ready");
    c.server.addr = String::new();
    assert_eq!(readiness(&c, "0.1.0").status, "not ready");
    let s = status_of(&AxonConfig::default(), "0.1.0", 42);
    assert_eq!(s.status, "running");
    assert_eq!(s.uptime_secs, 42);
    assert_eq!(s.models, 0);
}

#[test]
fn metrics_page_lists_totals_and_models() {
    let stats = UsageStats::from_totals(
        3,
        120,
        0,
        vec![ModelUsage::from_row(Some("gpt-4".to_string()), 2, 100), ModelUsage::from_row(None, 1, 20)],
    );
    let text = metrics_text(&stats);
    let expected = "# HELP axon_requests_total Total number of requests\n\
# TYPE axon_requests_total counter\n\
axon_requests_total 3\n\
# HELP axon_tokens_total Total tokens used\n\
# TYPE axon_tokens_total counter\n\
axon_tokens_total 120\n\
# HELP axon_duration_ms_total Total duration in ms\n\
# TYPE axon_duration_ms_total counter\n\
axon_duration_ms_total 0\n\
axon_model_requests{model=\"gpt-4\"} 2\n\
axon_model_tokens{model=\"gpt-4\"} 100\n\
axon_model_requests{model=\"\"} 1\n\
axon_model_tokens{model=\"\"} 20\n";
    assert_eq!(text, expected);
    assert_eq!(metrics_unavailable(), "# axon metrics unavailable\n");
    let negative = UsageStats::from_totals(-1, 0, 0, vec![]);
    assert_eq!(negative.total_requests, u64::MAX);
}

#[test]
fn protocol_bodies_copy_records() {
    let def = AgentDefinition {
        id: "a1".to_string(),
        name: "A".to_string(),
        description: "d".to_string(),
        system_prompt: "p".to_string(),
        model: "m".to_string(),
        tools: vec!["shell".to_string()],
        max_iterations: 4,
        max_tokens: None,
    };
    let info = AgentInfo::from_definition(&def);
    assert_eq!(info.id, "a1");
    assert_eq!(info.tools, vec!["shell".to_string()]);
    assert_eq!(info.max_iterations, 4);
    let conv = Conversation::create("a1", Some("t"));
    assert_eq!(conv.created_at, conv.updated_at);
    let cr = ConversationResponse::from_conv(&conv);
    assert_eq!(cr.agent_id, "a1");
    assert_eq!(cr.title.as_deref(), Some("t"));
    assert_eq!(cr.id, conv.id);
    let mut rec = MessageRecord::new("c", Some("p"), "assistant", "hi");
    rec.tool_calls = Some(vec![call("c1")]);
    let mr = MessageResponse::from_record(&rec);
    assert_eq!(mr.content, "hi");
    assert_eq!(mr.tool_calls.unwrap()[0].id, "c1");
    let stats = UsageStats::from_totals(1, 2, 3, vec![ModelUsage::from_row(Some("m".to_string()), 1, 2)]);
    let sr = UsageStatsResponse::from_stats(&stats);
    assert_eq!(sr.total_duration_ms, 3);
    assert_eq!(sr.by_model[0].model, "m");
    let result = InvokeResult {
        output: "o".to_string(),
        conversation_id: "c".to_string(),
        usage: TokenUsage::counts(1, 2, 3),
        iterations: 2,
        tool_calls: vec![ToolCallRecord {
            id: "i".to_string(),
            name: "n".to_string(),
            arguments: "a".to_string(),
            result: "r".to_string(),
            tool_call_id: "t".to_string(),
        }],
    };
    let resp = InvokeAgentResponse::from_result(result);
    assert_eq!(resp.iterations, 2);
    assert_eq!(resp.tool_calls[0].result, "r");
    let nf = ErrorResponse::not_found("agent", "x");
    assert_eq!(nf.error.message, "agent 'x' not found");
    assert_eq!(nf.error.code.as_deref(), Some("not_found"));
    let internal = ErrorResponse::internal(&AxonError::Storage("sqlite: locked".to_string()));
    assert_eq!(internal.error.message, "storage error: sqlite: locked");
    assert!(internal.error.code.is_none());
}

#[test]
fn rate_limited_body_names_model_and_reason() {
    let c = ErrorResponse::rate_limited("gpt", &RateLimitError::Concurrency);
    assert_eq!(c.error.message, "rate limit exceeded for model 'gpt': too many concurrent requests");
    assert_eq!(c.error.code.as_deref(), Some("rate_limited"));
    let r = ErrorResponse::rate_limited(
        "gpt",
        &RateLimitError::Requests { scope: RateLimitScope::Requests, retry_after_secs: 42 },
    );
    assert_eq!(r.error.message, "rate limit exceeded for model 'gpt': too many requests, retry after 42s");
    let t = ErrorResponse::rate_limited(
        "gpt",
        &RateLimitError::Tokens { scope: RateLimitScope::Tokens, retry_after_secs: 7 },
    );
    assert_eq!(t.error.message, "rate limit exceeded for model 'gpt': too many tokens, retry after 7s");
}
