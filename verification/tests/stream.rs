use axon::stream::{
    data_payload, parse_usage, AnthropicContentBlock, AnthropicDecoder, AnthropicDelta, AnthropicMessageStart,
    AnthropicStreamEvent, AnthropicUsageStart, OpenAiChoiceDelta, OpenAiDecoder, OpenAiDelta, OpenAiFunctionDelta,
    OpenAiStreamChunk, OpenAiToolCallDelta, RawUsage, SseBuffer, StreamEvent,
};

fn anthropic(event_type: &str) -> AnthropicStreamEvent {
    AnthropicStreamEvent { event_type: event_type.to_string(), delta: None, message: None, content_block: None, partial_json: None }
}

fn chunk(choices: Vec<OpenAiChoiceDelta>) -> OpenAiStreamChunk {
    OpenAiStreamChunk { outcome: None, error_message: None, choices: Some(choices), usage: None }
}

fn delta(content: Option<&str>, tool_calls: Option<Vec<OpenAiToolCallDelta>>) -> OpenAiDelta {
    OpenAiDelta { content: content.map(String::from), reasoning_content: None, reasoning: None, reasoning_details: None, tool_calls }
}

fn tool_delta(index: u64, id: Option<&str>, name: Option<&str>, args: Option<&str>) -> OpenAiToolCallDelta {
    OpenAiToolCallDelta {
        index: Some(index),
        id: id.map(String::from),
        function: Some(OpenAiFunctionDelta { name: name.map(String::from), arguments: args.map(String::from) }),
    }
}

#[test]
fn sse_lines_and_payloads() {
    let mut b = SseBuffer::new();
    b.push_str("data: {\"a\":1}\r\ndata: [DO");
    assert_eq!(b.next_line().as_deref(), Some("data: {\"a\":1}"));
    assert!(b.next_line().is_none());
    b.push_str("NE]\n");
    assert_eq!(b.next_line().as_deref(), Some("data: [DONE]"));
    assert_eq!(data_payload("data: [DONE]").as_deref(), Some("[DONE]"));
    assert!(data_payload("event: x").is_none());
}

#[test]
fn usage_figures_are_read_as_u32() {
    let u = parse_usage(&RawUsage {
        prompt_tokens: Some(10),
        completion_tokens: None,
        total_tokens: Some(12),
        cached_tokens: Some(3),
        reasoning_tokens: None,
        prompt_cache_hit_tokens: None,
        prompt_cache_miss_tokens: None,
    });
    assert_eq!(u.prompt_tokens, 10);
    assert_eq!(u.completion_tokens, 0);
    assert_eq!(u.total_tokens, 12);
    assert_eq!(u.prompt_tokens_details.unwrap().cached_tokens, Some(3));
}

#[test]
fn anthropic_stream_yields_text_tool_and_done() {
    let mut d = AnthropicDecoder::new();
    let mut start = anthropic("message_start");
    start.message = Some(AnthropicMessageStart { usage: Some(AnthropicUsageStart { input_tokens: 9 }) });
    let evs = d.on_event(&start);
    assert!(matches!(&evs[0], StreamEvent::UsageUpdate { usage } if usage.prompt_tokens == 9 && usage.total_tokens == 9));
    let mut text = anthropic("content_block_delta");
    text.delta = Some(AnthropicDelta { text: Some("Hi".to_string()), stop_reason: None });
    assert!(matches!(&d.on_event(&text)[0], StreamEvent::TextChunk { text } if text == "Hi"));
    let mut tool = anthropic("content_block_start");
    tool.content_block = Some(AnthropicContentBlock { block_type: "tool_use".to_string(), id: Some("t1".to_string()), name: Some("search".to_string()) });
    assert!(d.on_event(&tool).is_empty());
    let mut part = anthropic("content_block_delta");
    part.partial_json = Some("{\"q\":".to_string());
    d.on_event(&part);
    part.partial_json = Some("1}".to_string());
    d.on_event(&part);
    let stop = d.on_event(&anthropic("content_block_stop"));
    match &stop[0] {
        StreamEvent::ToolCallRequest { tool_call } => {
            assert_eq!(tool_call.id, "t1");
            assert_eq!(tool_call.function.name, "search");
            assert_eq!(tool_call.function.arguments, "{\"q\":1}");
        }
        other => panic!("unexpected {other:?}"),
    }
    assert!(d.on_event(&anthropic("content_block_stop")).is_empty());
    let mut end = anthropic("message_delta");
    end.delta = Some(AnthropicDelta { text: None, stop_reason: Some("end_turn".to_string()) });
    assert!(matches!(&d.on_event(&end)[0], StreamEvent::Done { finish_reason: Some(f) } if f == "end_turn"));
}

#[test]
fn openai_stream_assembles_tool_calls() {
    let mut d = OpenAiDecoder::new();
    let first = chunk(vec![OpenAiChoiceDelta {
        delta: Some(delta(Some("Hel"), Some(vec![tool_delta(0, Some("id0"), Some("search"), Some("{\"q\""))]))),
        finish_reason: None,
    }]);
    let evs = d.on_chunk(&first);
    assert_eq!(evs.len(), 1);
    assert!(matches!(&evs[0], StreamEvent::TextChunk { text } if text == "Hel"));
    let second = chunk(vec![OpenAiChoiceDelta {
        delta: Some(delta(None, Some(vec![tool_delta(0, None, None, Some(":1}")), tool_delta(1, None, Some("fetch"), Some("{}"))]))),
        finish_reason: None,
    }]);
    assert!(d.on_chunk(&second).is_empty());
    let done = chunk(vec![OpenAiChoiceDelta { delta: None, finish_reason: Some("tool_calls".to_string()) }]);
    let evs = d.on_chunk(&done);
    assert_eq!(evs.len(), 3);
    match &evs[0] {
        StreamEvent::ToolCallRequest { tool_call } => {
            assert_eq!(tool_call.id, "id0");
            assert_eq!(tool_call.function.name, "search");
            assert_eq!(tool_call.function.arguments, "{\"q\":1}");
        }
        other => panic!("unexpected {other:?}"),
    }
    match &evs[1] {
        StreamEvent::ToolCallRequest { tool_call } => {
            assert_eq!(tool_call.id, "call_1");
            assert_eq!(tool_call.function.name, "fetch");
        }
        other => panic!("unexpected {other:?}"),
    }
    assert!(matches!(&evs[2], StreamEvent::Done { finish_reason: Some(f) } if f == "tool_calls"));
    let tail = d.on_done();
    assert_eq!(tail.len(), 1);
    assert!(matches!(&tail[0], StreamEvent::Done { finish_reason: Some(f) } if f == "stop"));
}

#[test]
fn openai_stream_reports_errors_and_usage() {
    let mut d = OpenAiDecoder::new();
    let ch = OpenAiStreamChunk {
        outcome: Some("failure".to_string()),
        error_message: Some("quota".to_string()),
        choices: None,
        usage: Some(RawUsage {
            prompt_tokens: Some(1),
            completion_tokens: Some(2),
            total_tokens: Some(3),
            cached_tokens: None,
            reasoning_tokens: None,
            prompt_cache_hit_tokens: None,
            prompt_cache_miss_tokens: None,
        }),
    };
    let evs = d.on_chunk(&ch);
    assert_eq!(evs.len(), 3);
    assert!(matches!(&evs[0], StreamEvent::Error { message } if message == "upstream outcome: failure"));
    assert!(matches!(&evs[1], StreamEvent::Error { message } if message == "quota"));
    assert!(matches!(&evs[2], StreamEvent::UsageUpdate { usage } if usage.total_tokens == 3));
    let ok = OpenAiStreamChunk { outcome: Some("success".to_string()), error_message: None, choices: None, usage: None };
    assert!(d.on_chunk(&ok).is_empty());
    let null_finish = chunk(vec![OpenAiChoiceDelta { delta: None, finish_reason: Some("null".to_string()) }]);
    assert!(d.on_chunk(&null_finish).is_empty());
}
