//! What the HTTP handlers decide: which frames a chat stream sends for each
//! event, how agent events are tagged, the completion message, readiness,
//! and the metrics text.
//!
//! Routing, JSON encoding and sending are the server's part.

use vstd::prelude::*;
use crate::config::AxonConfig;
use crate::models::{calls_view, opt_str, ChatMessage, ChatMessageView, ToolCall, ToolCallView};
use crate::protocol::{HealthResponse, StatusResponse};
use crate::store::{ModelUsage, UsageStats};
use crate::stream::{EventView, StreamEvent};
use crate::text::{decimal, i64_to_decimal, signed_decimal, u64_to_decimal};

verus! {

/// One server-sent frame of an OpenAI-compatible chat stream: a completion
/// chunk with a single choice, the closing `[DONE]` marker, or an error object.
#[derive(Debug)]
pub enum ChatFrame {
    Chunk { content: Option<String>, tool_calls: Option<Vec<ToolCall>>, finish_reason: Option<String> },
    DoneMarker,
    ErrorMessage { message: String },
}

/// A chat stream frame as text.
pub enum FrameView {
    Chunk { content: Option<Seq<char>>, tool_calls: Option<Seq<ToolCallView>>, finish_reason: Option<Seq<char>> },
    DoneMarker,
    ErrorMessage { message: Seq<char> },
}

impl View for ChatFrame {
    type V = FrameView;

    open spec fn view(&self) -> FrameView {
        match self {
            ChatFrame::Chunk { content, tool_calls, finish_reason } => FrameView::Chunk {
                content: opt_str(*content),
                tool_calls: match tool_calls {
                    Some(v) => Some(calls_view(v@)),
                    None => None,
                },
                finish_reason: opt_str(*finish_reason),
            },
            ChatFrame::DoneMarker => FrameView::DoneMarker,
            ChatFrame::ErrorMessage { message } => FrameView::ErrorMessage { message: message@ },
        }
    }
}

pub open spec fn frames_view(v: Seq<ChatFrame>) -> Seq<FrameView> {
    v.map_values(|f: ChatFrame| f@)
}

/// The frames a chat stream sends for an event: text and tool calls go out
/// as deltas, usage as an empty delta, `Done` as a final chunk with its
/// finish reason and then `[DONE]`, an error as an error object; other
/// events send nothing.
pub open spec fn chat_frames_spec(e: EventView) -> Seq<FrameView> {
    match e {
        EventView::TextChunk { text } => seq![FrameView::Chunk { content: Some(text), tool_calls: None, finish_reason: None }],
        EventView::ToolCallRequest { tool_call } => seq![
            FrameView::Chunk { content: None, tool_calls: Some(seq![tool_call]), finish_reason: None },
        ],
        EventView::UsageUpdate { .. } => seq![FrameView::Chunk { content: None, tool_calls: None, finish_reason: None }],
        EventView::Done { finish_reason } => seq![
            FrameView::Chunk { content: None, tool_calls: None, finish_reason },
            FrameView::DoneMarker,
        ],
        EventView::Error { message } => seq![FrameView::ErrorMessage { message }],
        _ => Seq::empty(),
    }
}

/// The frames a chat stream sends for one event.
pub fn chat_frames(ev: StreamEvent) -> (v: Vec<ChatFrame>)
    ensures
        frames_view(v@) == chat_frames_spec(ev@),
{
    let ghost e = ev@;
    let mut v: Vec<ChatFrame> = Vec::new();
    match ev {
        StreamEvent::TextChunk { text } => {
            v.push(ChatFrame::Chunk { content: Some(text), tool_calls: None, finish_reason: None });
        },
        StreamEvent::ToolCallRequest { tool_call } => {
            let mut calls: Vec<ToolCall> = Vec::new();
            calls.push(tool_call);
            assert(calls_view(calls@) =~= seq![calls@[0]@]);
            v.push(ChatFrame::Chunk { content: None, tool_calls: Some(calls), finish_reason: None });
        },
        StreamEvent::UsageUpdate { .. } => {
            v.push(ChatFrame::Chunk { content: None, tool_calls: None, finish_reason: None });
        },
        StreamEvent::Done { finish_reason } => {
            v.push(ChatFrame::Chunk { content: None, tool_calls: None, finish_reason });
            v.push(ChatFrame::DoneMarker);
        },
        StreamEvent::Error { message } => {
            v.push(ChatFrame::ErrorMessage { message });
        },
        _ => {},
    }
    assert(frames_view(v@) =~= chat_frames_spec(e));
    v
}

/// The id of a chat completion made at `millis` milliseconds.
pub fn completion_id(millis: i64) -> (s: String)
    ensures
        s@ == "chatcmpl-"@ + signed_decimal(millis as int),
{
    let mut s = String::from_str("chatcmpl-");
    let d = i64_to_decimal(millis);
    s.append(d.as_str());
    proof {
        reveal_strlit("chatcmpl-");
    }
    s
}

/// The assistant message of a complete chat answer; no tool calls is `None`.
pub fn completion_message(content: String, tool_calls: Vec<ToolCall>) -> (m: ChatMessage)
    ensures
        m@ == (ChatMessageView {
            role: "assistant"@,
            content: content@,
            tool_calls: if tool_calls@.len() == 0 { None } else { Some(calls_view(tool_calls@)) },
            tool_call_id: None,
            name: None,
        }),
{
    let calls = if tool_calls.len() == 0 {
        None
    } else {
        Some(tool_calls)
    };
    ChatMessage { role: String::from_str("assistant"), content, tool_calls: calls, tool_call_id: None, name: None }
}

/// The `type` tag an agent event carries in an invocation stream.
pub open spec fn event_tag(e: EventView) -> Seq<char> {
    match e {
        EventView::TextChunk { .. } => "text_chunk"@,
        EventView::ThoughtChunk { .. } => "thought_chunk"@,
        EventView::ToolCallUpdate { .. } => "tool_call_update"@,
        EventView::ToolCallRequest { .. } => "tool_call_request"@,
        EventView::ToolCallResult { .. } => "tool_call_result"@,
        EventView::UsageUpdate { .. } => "usage_update"@,
        EventView::Error { .. } => "error"@,
        EventView::Retrying { .. } => "retrying"@,
        EventView::Done { .. } => "done"@,
    }
}

pub fn agent_event_type(ev: &StreamEvent) -> (s: &'static str)
    ensures
        s@ == event_tag(ev@),
{
    match ev {
        StreamEvent::TextChunk { .. } => "text_chunk",
        StreamEvent::ThoughtChunk { .. } => "thought_chunk",
        StreamEvent::ToolCallUpdate { .. } => "tool_call_update",
        StreamEvent::ToolCallRequest { .. } => "tool_call_request",
        StreamEvent::ToolCallResult { .. } => "tool_call_result",
        StreamEvent::UsageUpdate { .. } => "usage_update",
        StreamEvent::Error { .. } => "error",
        StreamEvent::Retrying { .. } => "retrying",
        StreamEvent::Done { .. } => "done",
    }
}

/// The liveness answer.
pub fn health(version: &str) -> (h: HealthResponse)
    ensures
        h.status@ == "ok"@,
        h.version@ == version@,
{
    HealthResponse { status: String::from_str("ok"), version: String::from_str(version) }
}

/// The readiness answer: ready when a listen address is configured.
pub fn readiness(config: &AxonConfig, version: &str) -> (h: HealthResponse)
    ensures
        h.status@ == if config.server.addr@.len() > 0 { "ready"@ } else { "not ready"@ },
        h.version@ == version@,
{
    let status = if config.server.addr.unicode_len() > 0 {
        "ready"
    } else {
        "not ready"
    };
    HealthResponse { status: String::from_str(status), version: String::from_str(version) }
}

/// The status answer: running, with the uptime and the configured counts.
pub fn status_of(config: &AxonConfig, version: &str, uptime_secs: u64) -> (s: StatusResponse)
    ensures
        s.status@ == "running"@,
        s.version@ == version@,
        s.uptime_secs == uptime_secs,
        s.models == config.models@.len(),
        s.agents == config.agents@.len(),
        s.routes == config.routes@.len(),
{
    StatusResponse {
        status: String::from_str("running"),
        version: String::from_str(version),
        uptime_secs,
        models: config.models.len(),
        agents: config.agents.len(),
        routes: config.routes.len(),
    }
}

/// A counter's help and type lines.
pub open spec fn counter_header(name: Seq<char>, help: Seq<char>) -> Seq<char> {
    "# HELP "@ + name + " "@ + help + "\n# TYPE "@ + name + " counter\n"@
}

/// The two lines of a model's figures.
pub open spec fn model_lines(m: ModelUsage) -> Seq<char> {
    "axon_model_requests{model=\""@ + m.model@ + "\"} "@ + signed_decimal(m.requests as int) + "\n"@
        + "axon_model_tokens{model=\""@ + m.model@ + "\"} "@ + signed_decimal(m.tokens as int) + "\n"@
}

pub open spec fn models_lines(ms: Seq<ModelUsage>) -> Seq<char>
    decreases ms.len(),
{
    if ms.len() == 0 {
        Seq::empty()
    } else {
        models_lines(ms.drop_last()) + model_lines(ms.last())
    }
}

/// The metrics page in the Prometheus text format.
pub open spec fn metrics_spec(s: UsageStats) -> Seq<char> {
    counter_header("axon_requests_total"@, "Total number of requests"@)
        + "axon_requests_total "@ + decimal(s.total_requests as nat) + "\n"@
        + counter_header("axon_tokens_total"@, "Total tokens used"@)
        + "axon_tokens_total "@ + decimal(s.total_tokens as nat) + "\n"@
        + counter_header("axon_duration_ms_total"@, "Total duration in ms"@)
        + "axon_duration_ms_total "@ + decimal(s.total_duration_ms as nat) + "\n"@
        + models_lines(s.by_model@)
}

fn push_model_lines(t: &mut String, m: &ModelUsage)
    ensures
        final(t)@ == old(t)@ + model_lines(*m),
{
    proof {
        reveal_strlit("axon_model_requests{model=\"");
        reveal_strlit("\"} ");
        reveal_strlit("axon_model_tokens{model=\"");
        reveal_strlit("\n");
    }
    t.append("axon_model_requests{model=\"");
    t.append(m.model.as_str());
    t.append("\"} ");
    t.append(i64_to_decimal(m.requests).as_str());
    t.append("\n");
    t.append("axon_model_tokens{model=\"");
    t.append(m.model.as_str());
    t.append("\"} ");
    t.append(i64_to_decimal(m.tokens).as_str());
    t.append("\n");
    assert(t@ =~= old(t)@ + model_lines(*m));
}

/// The metrics page for the usage totals.
pub fn metrics_text(stats: &UsageStats) -> (t: String)
    ensures
        t@ == metrics_spec(*stats),
{
    proof {
        reveal_strlit("# HELP axon_requests_total Total number of requests\n# TYPE axon_requests_total counter\n");
        reveal_strlit("axon_requests_total ");
        reveal_strlit("\n");
        reveal_strlit("# HELP axon_tokens_total Total tokens used\n# TYPE axon_tokens_total counter\n");
        reveal_strlit("axon_tokens_total ");
        reveal_strlit("# HELP axon_duration_ms_total Total duration in ms\n# TYPE axon_duration_ms_total counter\n");
        reveal_strlit("axon_duration_ms_total ");
        reveal_strlit("# HELP ");
        reveal_strlit(" ");
        reveal_strlit("\n# TYPE ");
        reveal_strlit(" counter\n");
        reveal_strlit("axon_requests_total");
        reveal_strlit("Total number of requests");
        reveal_strlit("axon_tokens_total");
        reveal_strlit("Total tokens used");
        reveal_strlit("axon_duration_ms_total");
        reveal_strlit("Total duration in ms");
    }
    let mut t = String::new();
    t.append("# HELP axon_requests_total Total number of requests\n# TYPE axon_requests_total counter\n");
    t.append("axon_requests_total ");
    t.append(u64_to_decimal(stats.total_requests).as_str());
    t.append("\n");
    t.append("# HELP axon_tokens_total Total tokens used\n# TYPE axon_tokens_total counter\n");
    t.append("axon_tokens_total ");
    t.append(u64_to_decimal(stats.total_tokens).as_str());
    t.append("\n");
    t.append("# HELP axon_duration_ms_total Total duration in ms\n# TYPE axon_duration_ms_total counter\n");
    t.append("axon_duration_ms_total ");
    t.append(u64_to_decimal(stats.total_duration_ms).as_str());
    t.append("\n");
    let ghost head = t@;
    assert(head =~= metrics_spec(*stats).subrange(0, head.len() as int)) by {
        assert(metrics_spec(*stats) =~= head + models_lines(stats.by_model@));
    }
    let n = stats.by_model.len();
    let mut i: usize = 0;
    assert(stats.by_model@.take(0) =~= Seq::<ModelUsage>::empty());
    while i < n
        invariant
            n == stats.by_model@.len(),
            0 <= i <= n,
            t@ == head + models_lines(stats.by_model@.take(i as int)),
        decreases n - i,
    {
        let m = &stats.by_model[i];
        push_model_lines(&mut t, m);
        proof {
            assert(stats.by_model@.take(i + 1).drop_last() =~= stats.by_model@.take(i as int));
            assert(stats.by_model@.take(i + 1).last() == *m);
            assert(t@ =~= head + models_lines(stats.by_model@.take(i + 1)));
        }
        i = i + 1;
    }
    assert(stats.by_model@.take(n as int) =~= stats.by_model@);
    assert(t@ =~= metrics_spec(*stats));
    t
}

/// The page served when the usage totals cannot be read.
pub fn metrics_unavailable() -> (t: String)
    ensures
        t@ == "# axon metrics unavailable\n"@,
{
    String::from_str("# axon metrics unavailable\n")
}

} // verus!
