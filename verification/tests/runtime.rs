use axon::error::AxonError;
use axon::models::{AgentDefinition, ChatMessage, TokenUsage, ToolCall};
use axon::runtime::{
    assistant_record, history_messages, run_usage_record, GenerationPipeline, InvokeAccumulator, InvokeStep,
    StreamSummary,
};
use axon::store::MessageRecord;
use axon::stream::StreamEvent;

fn agent(max_iterations: u32) -> AgentDefinition {
    AgentDefinition {
        id: "a1".to_string(),
        name: "Agent".to_string(),
        description: String::new(),
        system_prompt: "be nice".to_string(),
        model: "gpt-4".to_string(),
        tools: vec![],
        max_iterations,
        max_tokens: None,
    }
}

fn call(id: &str, name: &str) -> ToolCall {
    ToolCall::function_call(id.to_string(), name.to_string(), "{}".to_string())
}

#[test]
fn history_skips_system_records() {
    let mut sys = MessageRecord::new("c1", None, "system", "old prompt");
    sys.id = "x".to_string();
    let user = MessageRecord::new("c1", None, "user", "hello");
    let mut tool = MessageRecord::new("c1", None, "tool", "42");
    tool.tool_call_id = Some("call_1".to_string());
    let msgs = history_messages("be nice", vec![sys, user, tool]);
    assert_eq!(msgs.len(), 3);
    assert_eq!(msgs[0].role, "system");
    assert_eq!(msgs[0].content, "be nice");
    assert_eq!(msgs[1].role, "user");
    assert_eq!(msgs[2].tool_call_id.as_deref(), Some("call_1"));
    assert!(msgs[2].name.is_none());
}

#[test]
fn invocation_gathers_text_usage_and_tool_calls() {
    let mut acc = InvokeAccumulator::new();
    let events = vec![
        StreamEvent::TextChunk { text: "Hel".to_string() },
        StreamEvent::TextChunk { text: "lo".to_string() },
        StreamEvent::UsageUpdate { usage: TokenUsage::counts(3, 4, 7) },
        StreamEvent::ToolCallRequest { tool_call: call("c1", "search") },
        StreamEvent::ToolCallRequest { tool_call: call("c2", "fetch") },
        StreamEvent::ToolCallResult { tool_call_id: "c2".to_string(), result: "ok".to_string(), is_error: false },
        StreamEvent::ToolCallRequest { tool_call: call("c3", "search") },
        StreamEvent::UsageUpdate { usage: TokenUsage::counts(1, 1, 2) },
    ];
    for ev in events {
        assert!(acc.accepts(&ev));
        assert!(matches!(acc.on_event(ev), InvokeStep::Continue));
    }
    assert!(matches!(acc.on_event(StreamEvent::Done { finish_reason: None }), InvokeStep::Finished));
    let calls = acc.message_tool_calls().unwrap();
    assert_eq!(calls.len(), 3);
    assert_eq!(calls[2].id, "c3");
    assert_eq!(calls[0].call_type, "function");
    let r = acc.into_result("conv".to_string());
    assert_eq!(r.output, "Hello");
    assert_eq!(r.usage.prompt_tokens, 4);
    assert_eq!(r.usage.total_tokens, 9);
    assert_eq!(r.iterations, 2);
    assert_eq!(r.tool_calls.len(), 3);
    assert_eq!(r.tool_calls[1].result, "ok");
    assert_eq!(r.tool_calls[1].tool_call_id, "c2");
    assert_eq!(r.tool_calls[0].result, "");
    assert_eq!(r.conversation_id, "conv");
}

#[test]
fn invocation_without_tools_counts_one_iteration() {
    let mut acc = InvokeAccumulator::new();
    assert!(acc.message_tool_calls().is_none());
    assert!(matches!(acc.on_event(StreamEvent::Done { finish_reason: Some("stop".to_string()) }), InvokeStep::Finished));
    assert_eq!(acc.into_result(String::new()).iterations, 1);
}

#[test]
fn invocation_fails_on_error_event() {
    let mut acc = InvokeAccumulator::new();
    match acc.on_event(StreamEvent::Error { message: "boom".to_string() }) {
        InvokeStep::Failed(AxonError::Internal(m)) => assert_eq!(m, "agent execution error: boom"),
        other => panic!("unexpected {other:?}"),
    }
}

#[test]
fn stream_summary_keeps_passed_events() {
    let mut s = StreamSummary::new();
    s.on_event(&StreamEvent::TextChunk { text: "a".to_string() });
    s.on_event(&StreamEvent::ToolCallRequest { tool_call: call("c1", "x") });
    s.on_event(&StreamEvent::UsageUpdate { usage: TokenUsage::counts(1, 2, 3) });
    s.on_event(&StreamEvent::Done { finish_reason: None });
    let (text, usage, calls) = s.into_parts();
    assert_eq!(text, "a");
    assert_eq!(usage.total_tokens, 3);
    assert_eq!(calls.unwrap()[0].id, "c1");
    let (_, _, none) = StreamSummary::new().into_parts();
    assert!(none.is_none());
}

#[test]
fn assistant_and_usage_records() {
    let m = assistant_record("c1", "p1", "done".to_string(), None, "gpt-4", TokenUsage::counts(1, 2, 3));
    assert_eq!(m.role, "assistant");
    assert_eq!(m.parent_id.as_deref(), Some("p1"));
    assert_eq!(m.model.as_deref(), Some("gpt-4"));
    assert_eq!(m.usage.unwrap().total_tokens, 3);
    assert!(!m.id.is_empty());
    let u = run_usage_record("c1", "a1", "gpt-4", &TokenUsage::counts(1, 2, 3));
    assert_eq!(u.agent_id.as_deref(), Some("a1"));
    assert_eq!(u.total_tokens, 3);
    assert_eq!(u.duration_ms, 0);
}

#[test]
fn pipeline_round_without_tools_finishes() {
    let mut p = GenerationPipeline::new(&agent(3), vec![ChatMessage::user("hi")]);
    assert_eq!(p.iterations(), 0);
    assert!(p.begin_round().is_none());
    assert!(matches!(p.on_upstream(StreamEvent::TextChunk { text: "Hi!".to_string() }), Some(StreamEvent::TextChunk { .. })));
    assert!(p.on_upstream(StreamEvent::Done { finish_reason: Some("stop".to_string()) }).is_none());
    assert!(matches!(p.on_upstream(StreamEvent::UsageUpdate { usage: TokenUsage::counts(5, 1, 6) }), Some(StreamEvent::UsageUpdate { .. })));
    let (events, finished) = p.end_round();
    assert!(finished);
    assert_eq!(events.len(), 2);
    assert!(matches!(&events[0], StreamEvent::UsageUpdate { usage } if usage.total_tokens == 6));
    assert!(matches!(&events[1], StreamEvent::Done { finish_reason: Some(f) } if f == "stop"));
    let msgs = p.messages();
    assert_eq!(msgs.len(), 2);
    assert_eq!(msgs[1].role, "assistant");
    assert_eq!(msgs[1].content, "Hi!");
    assert!(msgs[1].tool_calls.is_none());
}

#[test]
fn pipeline_tool_round_adds_tool_messages() {
    let mut p = GenerationPipeline::new(&agent(3), vec![ChatMessage::user("hi")]);
    assert!(p.begin_round().is_none());
    assert!(p.on_upstream(StreamEvent::ToolCallRequest { tool_call: call("c1", "search") }).is_none());
    let (events, finished) = p.end_round();
    assert!(!finished);
    assert!(events.is_empty());
    assert_eq!(p.pending_calls().len(), 1);
    assert!(matches!(p.tool_request(0), StreamEvent::ToolCallRequest { tool_call } if tool_call.id == "c1"));
    match p.on_tool_result(0, "found".to_string(), false) {
        StreamEvent::ToolCallResult { tool_call_id, result, is_error } => {
            assert_eq!(tool_call_id, "c1");
            assert_eq!(result, "found");
            assert!(!is_error);
        }
        other => panic!("unexpected {other:?}"),
    }
    let msgs = p.messages();
    assert_eq!(msgs.len(), 3);
    assert_eq!(msgs[1].tool_calls.as_ref().unwrap()[0].id, "c1");
    assert_eq!(msgs[2].role, "tool");
    assert_eq!(msgs[2].tool_call_id.as_deref(), Some("c1"));
}

#[test]
fn pipeline_stops_after_max_iterations() {
    let mut p = GenerationPipeline::new(&agent(1), vec![]);
    assert!(p.begin_round().is_none());
    let stop = p.begin_round().unwrap();
    assert_eq!(stop.len(), 2);
    assert!(matches!(&stop[0], StreamEvent::Error { message } if message == "max iterations (1) reached"));
    assert!(matches!(&stop[1], StreamEvent::Done { finish_reason: Some(f) } if f == "max_iterations"));
    let failed = p.gateway_failed(&AxonError::NotFound("model or route 'x' not found".to_string()));
    assert!(matches!(&failed[0], StreamEvent::Error { message } if message == "not found: model or route 'x' not found"));
    assert!(matches!(&failed[1], StreamEvent::Done { finish_reason: Some(f) } if f == "error"));
}
