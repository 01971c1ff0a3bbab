//! Streaming chat events and the decoders that turn provider server-sent
//! events into them.
//!
//! Reading the byte stream and parsing each `data:` payload as JSON belong
//! to the caller; the decoders here own the line framing and all decisions
//! about which events a payload produces.

use std::collections::HashMap;
use vstd::prelude::*;
use crate::error::join2;
use crate::models::{TokenUsage, ToolCall, ToolCallView, CompletionTokensDetails, PromptTokensDetails};
use crate::text::{decimal, u64_to_decimal, chars_of, find_from, first_match, lemma_first_match_matches, matches_at, str_eq, string_from_range, trim, trim_range};

verus! {

/// An event of a streamed chat completion.
#[derive(Debug, Clone)]
pub enum StreamEvent {
    TextChunk { text: String },
    ThoughtChunk { text: String, title: Option<String>, signature: Option<String> },
    ToolCallUpdate { stream_key: String, id: Option<String>, name: String, arguments: String, signature: Option<String> },
    ToolCallRequest { tool_call: ToolCall },
    ToolCallResult { tool_call_id: String, result: String, is_error: bool },
    UsageUpdate { usage: TokenUsage },
    Error { message: String },
    Retrying { attempt: u32, max_attempts: u32 },
    Done { finish_reason: Option<String> },
}

pub open spec fn opt_view(o: Option<String>) -> Option<Seq<char>> {
    match o {
        Some(s) => Some(s@),
        None => None,
    }
}

/// A stream event as text.
pub enum EventView {
    TextChunk { text: Seq<char> },
    ThoughtChunk { text: Seq<char>, title: Option<Seq<char>>, signature: Option<Seq<char>> },
    ToolCallUpdate {
        stream_key: Seq<char>,
        id: Option<Seq<char>>,
        name: Seq<char>,
        arguments: Seq<char>,
        signature: Option<Seq<char>>,
    },
    ToolCallRequest { tool_call: ToolCallView },
    ToolCallResult { tool_call_id: Seq<char>, result: Seq<char>, is_error: bool },
    UsageUpdate { usage: TokenUsage },
    Error { message: Seq<char> },
    Retrying { attempt: u32, max_attempts: u32 },
    Done { finish_reason: Option<Seq<char>> },
}

impl View for StreamEvent {
    type V = EventView;

    open spec fn view(&self) -> EventView {
        match self {
            StreamEvent::TextChunk { text } => EventView::TextChunk { text: text@ },
            StreamEvent::ThoughtChunk { text, title, signature } => EventView::ThoughtChunk {
                text: text@,
                title: opt_view(*title),
                signature: opt_view(*signature),
            },
            StreamEvent::ToolCallUpdate { stream_key, id, name, arguments, signature } => EventView::ToolCallUpdate {
                stream_key: stream_key@,
                id: opt_view(*id),
                name: name@,
                arguments: arguments@,
                signature: opt_view(*signature),
            },
            StreamEvent::ToolCallRequest { tool_call } => EventView::ToolCallRequest { tool_call: tool_call@ },
            StreamEvent::ToolCallResult { tool_call_id, result, is_error } => EventView::ToolCallResult {
                tool_call_id: tool_call_id@,
                result: result@,
                is_error: *is_error,
            },
            StreamEvent::UsageUpdate { usage } => EventView::UsageUpdate { usage: *usage },
            StreamEvent::Error { message } => EventView::Error { message: message@ },
            StreamEvent::Retrying { attempt, max_attempts } => EventView::Retrying {
                attempt: *attempt,
                max_attempts: *max_attempts,
            },
            StreamEvent::Done { finish_reason } => EventView::Done { finish_reason: opt_view(*finish_reason) },
        }
    }
}

pub open spec fn events_view(v: Seq<StreamEvent>) -> Seq<EventView> {
    v.map_values(|e: StreamEvent| e@)
}

/// A complete (non-streamed) chat answer.
#[derive(Debug, Clone)]
pub struct ChatResponse {
    pub content: String,
    pub tool_calls: Vec<ToolCall>,
    pub usage: TokenUsage,
    pub model: String,
    pub finish_reason: Option<String>,
}

/// A piece of a streamed answer in the simple form.
#[derive(Debug, Clone)]
pub enum ChatChunk {
    Text { text: String },
    ToolCall { tool_call: ToolCall },
    Usage { usage: TokenUsage },
    Done { finish_reason: Option<String> },
}

/// Usage figures as an OpenAI-compatible payload states them; absent or
/// non-integer fields are `None`.
#[derive(Debug, Clone, Copy)]
pub struct RawUsage {
    pub prompt_tokens: Option<u64>,
    pub completion_tokens: Option<u64>,
    pub total_tokens: Option<u64>,
    pub cached_tokens: Option<u64>,
    pub reasoning_tokens: Option<u64>,
    pub prompt_cache_hit_tokens: Option<u64>,
    pub prompt_cache_miss_tokens: Option<u64>,
}

/// The low 32 bits of `x`, as `as u32` keeps them.
pub open spec fn low32(x: u64) -> u32 {
    (x % 0x1_0000_0000) as u32
}

fn truncate_u32(x: u64) -> (r: u32)
    ensures
        r == low32(x),
{
    (x % 0x1_0000_0000) as u32
}

pub open spec fn low32_or_zero(x: Option<u64>) -> u32 {
    match x {
        Some(v) => low32(v),
        None => 0,
    }
}

pub open spec fn low32_opt(x: Option<u64>) -> Option<u32> {
    match x {
        Some(v) => Some(low32(v)),
        None => None,
    }
}

fn low32_opt_exec(x: Option<u64>) -> (r: Option<u32>)
    ensures
        r == low32_opt(x),
{
    match x {
        Some(v) => Some(truncate_u32(v)),
        None => None,
    }
}

/// The token usage a payload states: missing counts are zero, and each
/// count keeps its low 32 bits.
pub open spec fn usage_of(u: RawUsage) -> TokenUsage {
    TokenUsage {
        prompt_tokens: low32_or_zero(u.prompt_tokens),
        completion_tokens: low32_or_zero(u.completion_tokens),
        total_tokens: low32_or_zero(u.total_tokens),
        prompt_tokens_details: match u.cached_tokens {
            Some(c) => Some(PromptTokensDetails { cached_tokens: Some(low32(c)) }),
            None => None,
        },
        prompt_cache_hit_tokens: low32_opt(u.prompt_cache_hit_tokens),
        prompt_cache_miss_tokens: low32_opt(u.prompt_cache_miss_tokens),
        completion_tokens_details: match u.reasoning_tokens {
            Some(r) => Some(CompletionTokensDetails { reasoning_tokens: Some(low32(r)) }),
            None => None,
        },
    }
}

/// A payload's usage keeps each reported count that fits in 32 bits as it
/// is, and a missing count is zero.
pub proof fn lemma_usage_keeps_reported_counts(u: RawUsage)
    ensures
        u.prompt_tokens is None ==> usage_of(u).prompt_tokens == 0,
        u.completion_tokens is None ==> usage_of(u).completion_tokens == 0,
        u.total_tokens is None ==> usage_of(u).total_tokens == 0,
        u.prompt_tokens is Some && u.prompt_tokens->0 <= u32::MAX ==> usage_of(u).prompt_tokens == u.prompt_tokens->0,
        u.completion_tokens is Some && u.completion_tokens->0 <= u32::MAX ==> usage_of(u).completion_tokens
            == u.completion_tokens->0,
        u.total_tokens is Some && u.total_tokens->0 <= u32::MAX ==> usage_of(u).total_tokens == u.total_tokens->0,
{
}

pub fn parse_usage(u: &RawUsage) -> (t: TokenUsage)
    ensures
        t == usage_of(*u),
{
    let prompt_tokens_details = match u.cached_tokens {
        Some(c) => Some(PromptTokensDetails { cached_tokens: Some(truncate_u32(c)) }),
        None => None,
    };
    let completion_tokens_details = match u.reasoning_tokens {
        Some(r) => Some(CompletionTokensDetails { reasoning_tokens: Some(truncate_u32(r)) }),
        None => None,
    };
    TokenUsage {
        prompt_tokens: match u.prompt_tokens {
            Some(v) => truncate_u32(v),
            None => 0,
        },
        completion_tokens: match u.completion_tokens {
            Some(v) => truncate_u32(v),
            None => 0,
        },
        total_tokens: match u.total_tokens {
            Some(v) => truncate_u32(v),
            None => 0,
        },
        prompt_tokens_details,
        prompt_cache_hit_tokens: low32_opt_exec(u.prompt_cache_hit_tokens),
        prompt_cache_miss_tokens: low32_opt_exec(u.prompt_cache_miss_tokens),
        completion_tokens_details,
    }
}

/// Bytes received but not yet cut into lines.
pub struct SseBuffer {
    buffer: Vec<char>,
}

impl View for SseBuffer {
    type V = Seq<char>;

    closed spec fn view(&self) -> Seq<char> {
        self.buffer@
    }
}

impl SseBuffer {
    pub fn new() -> (b: Self)
        ensures
            b@ == Seq::<char>::empty(),
    {
        SseBuffer { buffer: Vec::new() }
    }

    /// Appends a received piece of text.
    pub fn push_str(&mut self, chunk: &str)
        ensures
            final(self)@ == old(self)@ + chunk@,
    {
        let c = chars_of(chunk);
        let mut i: usize = 0;
        while i < c.len()
            invariant
                0 <= i <= c@.len(),
                c@ == chunk@,
                self@ == old(self)@ + c@.take(i as int),
            decreases c@.len() - i,
        {
            self.buffer.push(c[i]);
            assert(c@.take(i + 1) =~= c@.take(i as int).push(c@[i as int]));
            i = i + 1;
        }
        assert(c@.take(c@.len() as int) =~= c@);
    }

    /// Cuts off the first complete line: the text before the first newline,
    /// trimmed. `None` (and no change) while no newline has arrived.
    pub fn next_line(&mut self) -> (r: Option<String>)
        ensures
            match first_match(old(self)@, seq!['\n']) {
                Some(p) => r matches Some(line) && line@ == trim(old(self)@.subrange(0, p))
                    && final(self)@ == old(self)@.subrange(p + 1, old(self)@.len() as int),
                None => r is None && final(self)@ == old(self)@,
            },
    {
        let nl = chars_of("\n");
        proof {
            reveal_strlit("\n");
            assert(nl@ =~= seq!['\n']);
            lemma_first_match_matches(self@, seq!['\n']);
            assert(self.buffer@.subrange(0, self.buffer@.len() as int) =~= self.buffer@);
        }
        let blen = self.buffer.len();
        match find_from(&self.buffer, &nl, 0) {
            None => None,
            Some(pos) => {
                let (a, b) = trim_range(&self.buffer, 0, pos);
                let line = string_from_range(&self.buffer, a, b);
                let mut rest: Vec<char> = Vec::new();
                let mut i = pos + 1;
                while i < self.buffer.len()
                    invariant
                        pos + 1 <= i <= self.buffer@.len(),
                        rest@ == self.buffer@.subrange(pos + 1, i as int),
                    decreases self.buffer@.len() - i,
                {
                    rest.push(self.buffer[i]);
                    assert(rest@ =~= self.buffer@.subrange(pos + 1, i + 1));
                    i = i + 1;
                }
                self.buffer = rest;
                Some(line)
            },
        }
    }
}

/// The payload of a `data: ` line; other lines (empty, comments, other
/// fields) carry none.
pub open spec fn data_payload_spec(line: Seq<char>) -> Option<Seq<char>> {
    if line.len() >= 6 && line.subrange(0, 6) == "data: "@ {
        Some(line.subrange(6, line.len() as int))
    } else {
        None
    }
}

pub fn data_payload(line: &str) -> (r: Option<String>)
    ensures
        match data_payload_spec(line@) {
            Some(p) => r matches Some(s) && s@ == p,
            None => r is None,
        },
{
    let v = chars_of(line);
    let prefix = chars_of("data: ");
    proof {
        reveal_strlit("data: ");
    }
    if v.len() < 6 {
        return None;
    }
    let mut k: usize = 0;
    while k < 6
        invariant
            v@ == line@,
            v@.len() >= 6,
            prefix@ == "data: "@,
            prefix@.len() == 6,
            0 <= k <= 6,
            forall|j: int| 0 <= j < k ==> v@[j] == prefix@[j],
        decreases 6 - k,
    {
        if v[k] != prefix[k] {
            assert(v@.subrange(0, 6)[k as int] != prefix@[k as int]);
            return None;
        }
        k = k + 1;
    }
    assert(v@.subrange(0, 6) =~= prefix@);
    Some(string_from_range(&v, 6, v.len()))
}

/// The `usage` part of an Anthropic `message_start` event.
#[derive(Debug, Clone, Copy)]
pub struct AnthropicUsageStart {
    pub input_tokens: u32,
}

#[derive(Debug, Clone, Copy)]
pub struct AnthropicMessageStart {
    pub usage: Option<AnthropicUsageStart>,
}

#[derive(Debug, Clone)]
pub struct AnthropicDelta {
    pub text: Option<String>,
    pub stop_reason: Option<String>,
}

#[derive(Debug, Clone)]
pub struct AnthropicContentBlock {
    pub block_type: String,
    pub id: Option<String>,
    pub name: Option<String>,
}

/// One parsed Anthropic stream event.
#[derive(Debug, Clone)]
pub struct AnthropicStreamEvent {
    pub event_type: String,
    pub delta: Option<AnthropicDelta>,
    pub message: Option<AnthropicMessageStart>,
    pub content_block: Option<AnthropicContentBlock>,
    pub partial_json: Option<String>,
}

/// The tool use being streamed: id, name and the arguments so far.
pub struct AnthropicDecoder {
    tool_id: String,
    tool_name: String,
    tool_args: String,
}

/// The decoder's state as text.
pub struct AnthropicState {
    pub tool_id: Seq<char>,
    pub tool_name: Seq<char>,
    pub tool_args: Seq<char>,
}

impl View for AnthropicDecoder {
    type V = AnthropicState;

    closed spec fn view(&self) -> AnthropicState {
        AnthropicState { tool_id: self.tool_id@, tool_name: self.tool_name@, tool_args: self.tool_args@ }
    }
}

pub open spec fn or_empty(o: Option<String>) -> Seq<char> {
    match o {
        Some(s) => s@,
        None => Seq::empty(),
    }
}

pub open spec fn empty_state() -> AnthropicState {
    AnthropicState { tool_id: Seq::empty(), tool_name: Seq::empty(), tool_args: Seq::empty() }
}

/// What one Anthropic event does to the decoder and which events it yields.
pub open spec fn anthropic_step(s: AnthropicState, e: AnthropicStreamEvent) -> (AnthropicState, Seq<EventView>) {
    let t = e.event_type@;
    if t == "message_start"@ {
        match e.message {
            Some(m) => match m.usage {
                Some(u) => (
                    s,
                    seq![EventView::UsageUpdate {
                        usage: TokenUsage { prompt_tokens: u.input_tokens, completion_tokens: 0, total_tokens: u.input_tokens, ..TokenUsage::zero() },
                    }],
                ),
                None => (s, Seq::empty()),
            },
            None => (s, Seq::empty()),
        }
    } else if t == "content_block_start"@ {
        match e.content_block {
            Some(b) => if b.block_type@ == "tool_use"@ {
                (AnthropicState { tool_id: or_empty(b.id), tool_name: or_empty(b.name), tool_args: Seq::empty() }, Seq::empty())
            } else {
                (s, Seq::empty())
            },
            None => (s, Seq::empty()),
        }
    } else if t == "content_block_delta"@ {
        let evs = match e.delta {
            Some(d) => match d.text {
                Some(x) => if x@.len() > 0 { seq![EventView::TextChunk { text: x@ }] } else { Seq::empty() },
                None => Seq::empty(),
            },
            None => Seq::empty(),
        };
        let s2 = match e.partial_json {
            Some(pj) => AnthropicState { tool_args: s.tool_args + pj@, ..s },
            None => s,
        };
        (s2, evs)
    } else if t == "content_block_stop"@ {
        if s.tool_name.len() > 0 {
            (
                empty_state(),
                seq![EventView::ToolCallRequest {
                    tool_call: ToolCallView { id: s.tool_id, call_type: "function"@, name: s.tool_name, arguments: s.tool_args },
                }],
            )
        } else {
            (s, Seq::empty())
        }
    } else if t == "message_delta"@ {
        match e.delta {
            Some(d) => match d.stop_reason {
                Some(r) => (s, seq![EventView::Done { finish_reason: Some(r@) }]),
                None => (s, Seq::empty()),
            },
            None => (s, Seq::empty()),
        }
    } else {
        (s, Seq::empty())
    }
}

/// A `message_start` event that carries usage reports the input tokens as
/// the prompt and as the total, with no completion tokens; and whatever the
/// event, every usage the Anthropic decoder reports has prompt plus
/// completion equal to the total.
pub proof fn lemma_anthropic_usage_is_consistent(s: AnthropicState, e: AnthropicStreamEvent)
    ensures
        e.event_type@ == "message_start"@ && e.message is Some && e.message->0.usage is Some ==> {
            let u = e.message->0.usage->0;
            let evs = anthropic_step(s, e).1;
            &&& evs.len() == 1
            &&& evs[0] is UsageUpdate
            &&& evs[0]->usage.prompt_tokens == u.input_tokens
            &&& evs[0]->usage.completion_tokens == 0
            &&& evs[0]->usage.total_tokens == u.input_tokens
        },
        forall|i: int|
            0 <= i < anthropic_step(s, e).1.len() && (#[trigger] anthropic_step(s, e).1[i]) is UsageUpdate ==> {
                let u = anthropic_step(s, e).1[i]->usage;
                u.prompt_tokens + u.completion_tokens == u.total_tokens
            },
{
}

impl AnthropicDecoder {
    pub fn new() -> (d: Self)
        ensures
            d@ == empty_state(),
    {
        AnthropicDecoder { tool_id: String::new(), tool_name: String::new(), tool_args: String::new() }
    }

    /// Handles one parsed event.
    pub fn on_event(&mut self, e: &AnthropicStreamEvent) -> (evs: Vec<StreamEvent>)
        ensures
            (final(self)@, events_view(evs@)) == anthropic_step(old(self)@, *e),
    {
        proof {
            reveal_strlit("message_start");
            reveal_strlit("content_block_start");
            reveal_strlit("content_block_delta");
            reveal_strlit("content_block_stop");
            reveal_strlit("message_delta");
            assert("message_start"@.len() != "content_block_start"@.len());
            assert("message_start"@.len() != "content_block_delta"@.len());
            assert("message_start"@.len() != "content_block_stop"@.len());
            assert("message_start"@[0] != "message_delta"@[0] || "message_start"@[8] != "message_delta"@[8]);
            assert("content_block_start"@[14] != "content_block_delta"@[14]);
            assert("content_block_start"@.len() != "content_block_stop"@.len());
            assert("content_block_start"@.len() != "message_delta"@.len());
            assert("content_block_delta"@.len() != "content_block_stop"@.len());
            assert("content_block_delta"@.len() != "message_delta"@.len());
            assert("content_block_stop"@.len() != "message_delta"@.len());
        }
        let mut evs: Vec<StreamEvent> = Vec::new();
        let t = e.event_type.as_str();
        if str_eq(t, "message_start") {
            if let Some(m) = &e.message {
                if let Some(u) = &m.usage {
                    evs.push(StreamEvent::UsageUpdate { usage: TokenUsage::counts(u.input_tokens, 0, u.input_tokens) });
                }
            }
        } else if str_eq(t, "content_block_start") {
            if let Some(b) = &e.content_block {
                if str_eq(b.block_type.as_str(), "tool_use") {
                    self.tool_id = match &b.id {
                        Some(x) => x.clone(),
                        None => String::new(),
                    };
                    self.tool_name = match &b.name {
                        Some(x) => x.clone(),
                        None => String::new(),
                    };
                    self.tool_args = String::new();
                }
            }
        } else if str_eq(t, "content_block_delta") {
            if let Some(d) = &e.delta {
                if let Some(x) = &d.text {
                    if x.as_str().unicode_len() > 0 {
                        evs.push(StreamEvent::TextChunk { text: x.clone() });
                    }
                }
            }
            if let Some(pj) = &e.partial_json {
                self.tool_args.append(pj.as_str());
            }
        } else if str_eq(t, "content_block_stop") {
            if self.tool_name.as_str().unicode_len() > 0 {
                let call = ToolCall::function_call(self.tool_id.clone(), self.tool_name.clone(), self.tool_args.clone());
                evs.push(StreamEvent::ToolCallRequest { tool_call: call });
                self.tool_id = String::new();
                self.tool_name = String::new();
                self.tool_args = String::new();
            }
        } else if str_eq(t, "message_delta") {
            if let Some(d) = &e.delta {
                if let Some(r) = &d.stop_reason {
                    evs.push(StreamEvent::Done { finish_reason: Some(r.clone()) });
                }
            }
        }
        proof {
            assert(events_view(evs@) =~= anthropic_step(old(self)@, *e).1);
        }
        evs
    }
}

/// The `function` part of a streamed tool-call delta.
#[derive(Debug, Clone)]
pub struct OpenAiFunctionDelta {
    pub name: Option<String>,
    pub arguments: Option<String>,
}

/// One entry of `delta.tool_calls`.
#[derive(Debug, Clone)]
pub struct OpenAiToolCallDelta {
    pub index: Option<u64>,
    pub id: Option<String>,
    pub function: Option<OpenAiFunctionDelta>,
}

/// The `delta` of a streamed choice; `reasoning_details` holds the `text`
/// of each detail (`None` where a detail has no text).
#[derive(Debug, Clone)]
pub struct OpenAiDelta {
    pub content: Option<String>,
    pub reasoning_content: Option<String>,
    pub reasoning: Option<String>,
    pub reasoning_details: Option<Vec<Option<String>>>,
    pub tool_calls: Option<Vec<OpenAiToolCallDelta>>,
}

#[derive(Debug, Clone)]
pub struct OpenAiChoiceDelta {
    pub delta: Option<OpenAiDelta>,
    pub finish_reason: Option<String>,
}

/// One parsed OpenAI-compatible stream payload: the fields the decoder reads.
#[derive(Debug, Clone)]
pub struct OpenAiStreamChunk {
    pub outcome: Option<String>,
    pub error_message: Option<String>,
    pub choices: Option<Vec<OpenAiChoiceDelta>>,
    pub usage: Option<RawUsage>,
}

/// Tool calls being assembled: in the order their arguments first arrived,
/// each with its index, name and arguments so far; and the ids and names
/// seen per index.
pub struct OpenAiDecoder {
    calls: Vec<(u32, String, String)>,
    ids: HashMap<u32, String>,
    names: HashMap<u32, String>,
}

pub struct OpenAiState {
    pub calls: Seq<(u32, Seq<char>, Seq<char>)>,
    pub ids: Map<u32, Seq<char>>,
    pub names: Map<u32, Seq<char>>,
}

pub open spec fn str_map(m: Map<u32, String>) -> Map<u32, Seq<char>> {
    m.map_values(|s: String| s@)
}

pub open spec fn calls_view(c: Seq<(u32, String, String)>) -> Seq<(u32, Seq<char>, Seq<char>)> {
    c.map_values(|t: (u32, String, String)| (t.0, t.1@, t.2@))
}

impl View for OpenAiDecoder {
    type V = OpenAiState;

    closed spec fn view(&self) -> OpenAiState {
        OpenAiState { calls: calls_view(self.calls@), ids: str_map(self.ids@), names: str_map(self.names@) }
    }
}

/// Position of the call with index `idx`.
pub open spec fn call_pos(calls: Seq<(u32, Seq<char>, Seq<char>)>, idx: u32) -> Option<int> {
    if exists|i: int| 0 <= i < calls.len() && calls[i].0 == idx {
        Some(choose|i: int| 0 <= i < calls.len() && calls[i].0 == idx)
    } else {
        None
    }
}

pub open spec fn unique_indices(calls: Seq<(u32, Seq<char>, Seq<char>)>) -> bool {
    forall|i: int, j: int| 0 <= i < calls.len() && 0 <= j < calls.len() && i != j ==> calls[i].0 != calls[j].0
}

pub open spec fn name_or_empty(m: Map<u32, Seq<char>>, idx: u32) -> Seq<char> {
    if m.dom().contains(idx) {
        m[idx]
    } else {
        Seq::empty()
    }
}

/// One tool-call delta: records its id and name, and appends its arguments
/// to the call with its index (created, with the name known so far, when new).
pub open spec fn apply_tool_delta(s: OpenAiState, tc: OpenAiToolCallDelta) -> OpenAiState {
    let idx = match tc.index {
        Some(i) => low32(i),
        None => 0,
    };
    let s1 = match tc.id {
        Some(id) => OpenAiState { ids: s.ids.insert(idx, id@), ..s },
        None => s,
    };
    match tc.function {
        None => s1,
        Some(f) => {
            let s2 = match f.name {
                Some(n) => OpenAiState { names: s1.names.insert(idx, n@), ..s1 },
                None => s1,
            };
            match f.arguments {
                None => s2,
                Some(a) => {
                    let name = name_or_empty(s2.names, idx);
                    match call_pos(s2.calls, idx) {
                        Some(p) => OpenAiState { calls: s2.calls.update(p, (idx, name, s2.calls[p].2 + a@)), ..s2 },
                        None => OpenAiState { calls: s2.calls.push((idx, name, a@)), ..s2 },
                    }
                },
            }
        },
    }
}

pub open spec fn apply_tool_deltas(s: OpenAiState, tcs: Seq<OpenAiToolCallDelta>) -> OpenAiState
    decreases tcs.len(),
{
    if tcs.len() == 0 {
        s
    } else {
        apply_tool_delta(apply_tool_deltas(s, tcs.drop_last()), tcs.last())
    }
}

pub open spec fn thought(t: Seq<char>) -> EventView {
    EventView::ThoughtChunk { text: t, title: None, signature: None }
}

/// A thought for a non-empty text.
pub open spec fn thought_if(o: Option<String>) -> Seq<EventView> {
    match o {
        Some(t) => if t@.len() > 0 { seq![thought(t@)] } else { Seq::empty() },
        None => Seq::empty(),
    }
}

pub open spec fn details_events(ds: Seq<Option<String>>) -> Seq<EventView>
    decreases ds.len(),
{
    if ds.len() == 0 {
        Seq::empty()
    } else {
        details_events(ds.drop_last()) + thought_if(ds.last())
    }
}

/// The text and thought events of a delta, in the order content,
/// reasoning_content, reasoning, reasoning_details.
pub open spec fn delta_events(d: OpenAiDelta) -> Seq<EventView> {
    let text = match d.content {
        Some(t) => if t@.len() > 0 { seq![EventView::TextChunk { text: t@ }] } else { Seq::empty() },
        None => Seq::empty(),
    };
    let details = match d.reasoning_details {
        Some(ds) => details_events(ds@),
        None => Seq::empty(),
    };
    text + thought_if(d.reasoning_content) + thought_if(d.reasoning) + details
}

/// Whether an optional text is present and not empty.
pub open spec fn nonempty(o: Option<String>) -> bool {
    o is Some && o->0@.len() > 0
}

/// The texts of a delta each give one event, in order: a non-empty
/// `content` a text chunk with exactly that text, then a non-empty
/// `reasoning_content` and then a non-empty `reasoning` each a thought with
/// exactly that text and no title or signature; the reasoning details'
/// thoughts come after them.
pub proof fn lemma_delta_texts_each_give_an_event(d: OpenAiDelta)
    ensures
        ({
            let evs = delta_events(d);
            let a: int = if nonempty(d.content) { 1 } else { 0 };
            let b: int = if nonempty(d.reasoning_content) { 1 } else { 0 };
            let c: int = if nonempty(d.reasoning) { 1 } else { 0 };
            &&& evs.len() >= a + b + c
            &&& d.reasoning_details is None ==> evs.len() == a + b + c
            &&& nonempty(d.content) ==> evs[0] == EventView::TextChunk { text: d.content->0@ }
            &&& nonempty(d.reasoning_content) ==> evs[a] == EventView::ThoughtChunk {
                text: d.reasoning_content->0@,
                title: None,
                signature: None,
            }
            &&& nonempty(d.reasoning) ==> evs[a + b] == EventView::ThoughtChunk {
                text: d.reasoning->0@,
                title: None,
                signature: None,
            }
        }),
{
}

/// A payload with one choice that has a delta and no finish reason, and
/// with no outcome, error or usage, yields exactly the events of its delta
/// and leaves the calls being assembled as the delta's tool calls make them.
pub proof fn lemma_single_delta_payload(s: OpenAiState, ch: OpenAiStreamChunk)
    requires
        ch.outcome is None,
        ch.error_message is None,
        ch.usage is None,
        ch.choices is Some,
        ch.choices->0@.len() == 1,
        ch.choices->0@[0].delta is Some,
        ch.choices->0@[0].finish_reason is None,
    ensures
        openai_step(s, ch).1 == delta_events(ch.choices->0@[0].delta->0),
{
    let cs = ch.choices->0@;
    assert(cs.drop_last() =~= Seq::<OpenAiChoiceDelta>::empty());
    assert(choices_step(s, cs.drop_last()) == (s, Seq::<EventView>::empty()));
    let ev = choices_step(s, cs).1;
    assert(ev =~= Seq::<EventView>::empty() + choice_step(s, cs[0]).1);
    assert(openai_step(s, ch).1 =~= ev);
}

/// The id a finished call carries: the one received, else `call_<index>`.
pub open spec fn call_id(ids: Map<u32, Seq<char>>, idx: u32) -> Seq<char> {
    if ids.dom().contains(idx) {
        ids[idx]
    } else {
        "call_"@ + decimal(idx as nat)
    }
}

/// The requests for every call being assembled, in order.
pub open spec fn flush_events(s: OpenAiState) -> Seq<EventView> {
    s.calls.map_values(|c: (u32, Seq<char>, Seq<char>)|
        EventView::ToolCallRequest {
            tool_call: ToolCallView { id: call_id(s.ids, c.0), call_type: "function"@, name: c.1, arguments: c.2 },
        }
    )
}

pub open spec fn finishes(f: Option<String>) -> bool {
    match f {
        Some(x) => x@.len() > 0 && x@ != "null"@,
        None => false,
    }
}

/// One choice: its delta's events and tool calls, then, when it carries a
/// finish reason, the assembled calls and `Done`.
pub open spec fn choice_step(s: OpenAiState, c: OpenAiChoiceDelta) -> (OpenAiState, Seq<EventView>) {
    let (s1, ev1) = match c.delta {
        Some(d) => (
            match d.tool_calls {
                Some(tcs) => apply_tool_deltas(s, tcs@),
                None => s,
            },
            delta_events(d),
        ),
        None => (s, Seq::empty()),
    };
    if finishes(c.finish_reason) {
        (
            OpenAiState { calls: Seq::empty(), ..s1 },
            ev1 + flush_events(s1) + seq![EventView::Done { finish_reason: Some(c.finish_reason->0@) }],
        )
    } else {
        (s1, ev1)
    }
}

pub open spec fn choices_step(s: OpenAiState, cs: Seq<OpenAiChoiceDelta>) -> (OpenAiState, Seq<EventView>)
    decreases cs.len(),
{
    if cs.len() == 0 {
        (s, Seq::empty())
    } else {
        let (s1, ev1) = choices_step(s, cs.drop_last());
        let (s2, ev2) = choice_step(s1, cs.last());
        (s2, ev1 + ev2)
    }
}

/// An error for an outcome other than empty or `success`.
pub open spec fn outcome_events(o: Option<String>) -> Seq<EventView> {
    match o {
        Some(o) => if o@.len() > 0 && o@ != "success"@ {
            seq![EventView::Error { message: "upstream outcome: "@ + o@ }]
        } else {
            Seq::empty()
        },
        None => Seq::empty(),
    }
}

pub open spec fn error_events(m: Option<String>) -> Seq<EventView> {
    match m {
        Some(m) => seq![EventView::Error { message: m@ }],
        None => Seq::empty(),
    }
}

pub open spec fn usage_events(u: Option<RawUsage>) -> Seq<EventView> {
    match u {
        Some(u) => seq![EventView::UsageUpdate { usage: usage_of(u) }],
        None => Seq::empty(),
    }
}

/// One payload: an error for a failed outcome, the upstream error message,
/// the choices, then the usage.
pub open spec fn openai_step(s: OpenAiState, ch: OpenAiStreamChunk) -> (OpenAiState, Seq<EventView>) {
    let (s2, ev2) = match ch.choices {
        Some(cs) => choices_step(s, cs@),
        None => (s, Seq::empty()),
    };
    (s2, outcome_events(ch.outcome) + error_events(ch.error_message) + ev2 + usage_events(ch.usage))
}

/// What the `[DONE]` payload yields: the assembled calls, then `Done("stop")`.
pub open spec fn openai_done(s: OpenAiState) -> Seq<EventView> {
    flush_events(s) + seq![EventView::Done { finish_reason: Some("stop"@) }]
}

pub open spec fn openai_wf(s: OpenAiState) -> bool {
    unique_indices(s.calls)
}

fn text_event_if(o: &Option<String>, v: &mut Vec<StreamEvent>)
    ensures
        events_view(final(v)@) == events_view(old(v)@) + match *o {
            Some(t) => if t@.len() > 0 { seq![EventView::TextChunk { text: t@ }] } else { Seq::empty() },
            None => Seq::<EventView>::empty(),
        },
{
    if let Some(t) = o {
        if t.as_str().unicode_len() > 0 {
            v.push(StreamEvent::TextChunk { text: t.clone() });
        }
    }
    assert(events_view(final(v)@) =~= events_view(old(v)@) + match *o {
        Some(t) => if t@.len() > 0 { seq![EventView::TextChunk { text: t@ }] } else { Seq::empty() },
        None => Seq::<EventView>::empty(),
    });
}

fn thought_event_if(o: &Option<String>, v: &mut Vec<StreamEvent>)
    ensures
        events_view(final(v)@) == events_view(old(v)@) + thought_if(*o),
{
    if let Some(t) = o {
        if t.as_str().unicode_len() > 0 {
            v.push(StreamEvent::ThoughtChunk { text: t.clone(), title: None, signature: None });
        }
    }
    assert(events_view(final(v)@) =~= events_view(old(v)@) + thought_if(*o));
}

impl OpenAiDecoder {
    pub closed spec fn wf(&self) -> bool {
        openai_wf(self@)
    }

    pub fn new() -> (d: Self)
        ensures
            d.wf(),
            d@.calls == Seq::<(u32, Seq<char>, Seq<char>)>::empty(),
            d@.ids == Map::<u32, Seq<char>>::empty(),
            d@.names == Map::<u32, Seq<char>>::empty(),
    {
        broadcast use vstd::std_specs::hash::group_hash_axioms;
        let d = OpenAiDecoder { calls: Vec::new(), ids: HashMap::new(), names: HashMap::new() };
        assert(d@.calls =~= Seq::<(u32, Seq<char>, Seq<char>)>::empty());
        assert(d@.ids =~= Map::<u32, Seq<char>>::empty());
        assert(d@.names =~= Map::<u32, Seq<char>>::empty());
        d
    }

    fn find_call(&self, idx: u32) -> (r: Option<usize>)
        requires
            self.wf(),
        ensures
            match call_pos(self@.calls, idx) {
                Some(p) => r == Some(p as usize),
                None => r is None,
            },
            r matches Some(p) ==> p < self@.calls.len() && self@.calls[p as int].0 == idx,
    {
        let n = self.calls.len();
        let mut i: usize = 0;
        while i < n
            invariant
                self.wf(),
                n == self.calls@.len(),
                0 <= i <= n,
                forall|j: int| 0 <= j < i ==> self.calls@[j].0 != idx,
            decreases n - i,
        {
            if self.calls[i].0 == idx {
                proof {
                    assert(self@.calls[i as int].0 == self.calls@[i as int].0);
                    assert(0 <= i < self@.calls.len() && self@.calls[i as int].0 == idx);
                    let p = choose|p: int| 0 <= p < self@.calls.len() && self@.calls[p].0 == idx;
                    assert(self@.calls[p].0 == self.calls@[p].0);
                    if p != i {
                        assert(self@.calls[p].0 != self@.calls[i as int].0);
                    }
                }
                return Some(i);
            }
            i = i + 1;
        }
        proof {
            assert(!exists|j: int| 0 <= j < self@.calls.len() && self@.calls[j].0 == idx) by {
                assert forall|j: int| 0 <= j < self@.calls.len() implies self@.calls[j].0 != idx by {
                    assert(self.calls@[j].0 != idx);
                    assert(self@.calls[j].0 == self.calls@[j].0);
                }
            }
        }
        None
    }

    fn apply_delta(&mut self, tc: &OpenAiToolCallDelta)
        requires
            old(self).wf(),
        ensures
            final(self).wf(),
            final(self)@ == apply_tool_delta(old(self)@, *tc),
    {
        broadcast use vstd::std_specs::hash::group_hash_axioms;
        let idx: u32 = match tc.index {
            Some(i) => truncate_u32(i),
            None => 0,
        };
        if let Some(id) = &tc.id {
            self.ids.insert(idx, id.clone());
            assert(str_map(self.ids@) =~= str_map(old(self).ids@).insert(idx, id@));
        }
        let ghost s1 = self@;
        if let Some(f) = &tc.function {
            if let Some(n) = &f.name {
                let ghost before = self.names@;
                self.names.insert(idx, n.clone());
                assert(str_map(self.names@) =~= str_map(before).insert(idx, n@));
            }
            let ghost s2 = self@;
            if let Some(a) = &f.arguments {
                let name = match self.names.get(&idx) {
                    Some(x) => x.clone(),
                    None => String::new(),
                };
                assert(name@ == name_or_empty(s2.names, idx));
                match self.find_call(idx) {
                    Some(p) => {
                        let mut args = self.calls[p].2.clone();
                        args.append(a.as_str());
                        let ghost before = self.calls@;
                        self.calls.set(p, (idx, name, args));
                        assert(calls_view(self.calls@) =~= s2.calls.update(p as int, (idx, name_or_empty(s2.names, idx), s2.calls[p as int].2 + a@)));
                        assert(unique_indices(self@.calls)) by {
                            assert forall|i: int, j: int| 0 <= i < self@.calls.len() && 0 <= j < self@.calls.len() && i != j
                                implies self@.calls[i].0 != self@.calls[j].0 by {
                                assert(self@.calls[i].0 == s2.calls[i].0);
                                assert(self@.calls[j].0 == s2.calls[j].0);
                            }
                        }
                    },
                    None => {
                        self.calls.push((idx, name, a.clone()));
                        assert(calls_view(self.calls@) =~= s2.calls.push((idx, name_or_empty(s2.names, idx), a@)));
                        assert(unique_indices(self@.calls)) by {
                            assert forall|i: int, j: int| 0 <= i < self@.calls.len() && 0 <= j < self@.calls.len() && i != j
                                implies self@.calls[i].0 != self@.calls[j].0 by {
                                if i < s2.calls.len() && j < s2.calls.len() {
                                    assert(s2.calls[i].0 != s2.calls[j].0);
                                } else if i < s2.calls.len() {
                                    assert(s2.calls[i].0 != idx);
                                } else if j < s2.calls.len() {
                                    assert(s2.calls[j].0 != idx);
                                }
                            }
                        }
                    },
                }
            }
        }
    }

    /// The request events for the calls assembled so far.
    fn flush(&self, v: &mut Vec<StreamEvent>)
        ensures
            events_view(final(v)@) == events_view(old(v)@) + flush_events(self@),
    {
        broadcast use vstd::std_specs::hash::group_hash_axioms;
        let n = self.calls.len();
        let mut i: usize = 0;
        while i < n
            invariant
                n == self.calls@.len(),
                0 <= i <= n,
                events_view(v@) == events_view(old(v)@) + flush_events(self@).take(i as int),
            decreases n - i,
        {
            let idx = self.calls[i].0;
            let id = match self.ids.get(&idx) {
                Some(x) => x.clone(),
                None => join2("call_", u64_to_decimal(idx as u64).as_str()),
            };
            assert(id@ == call_id(self@.ids, idx));
            let call = ToolCall::function_call(id, self.calls[i].1.clone(), self.calls[i].2.clone());
            let ghost prev = v@;
            v.push(StreamEvent::ToolCallRequest { tool_call: call });
            proof {
                let c = self@.calls[i as int];
                assert(c == (self.calls@[i as int].0, self.calls@[i as int].1@, self.calls@[i as int].2@));
                assert(flush_events(self@)[i as int] == EventView::ToolCallRequest {
                    tool_call: ToolCallView { id: call_id(self@.ids, c.0), call_type: "function"@, name: c.1, arguments: c.2 },
                });
                assert(v@.last()@ == flush_events(self@)[i as int]);
                assert(events_view(v@) =~= events_view(prev).push(flush_events(self@)[i as int]));
                assert(flush_events(self@).take(i + 1) =~= flush_events(self@).take(i as int).push(flush_events(self@)[i as int]));
            }
            i = i + 1;
        }
        assert(flush_events(self@).take(n as int) =~= flush_events(self@));
    }

    /// Handles one payload (other than `[DONE]`).
    pub fn on_chunk(&mut self, ch: &OpenAiStreamChunk) -> (evs: Vec<StreamEvent>)
        requires
            old(self).wf(),
        ensures
            final(self).wf(),
            (final(self)@, events_view(evs@)) == openai_step(old(self)@, *ch),
    {
        let mut evs: Vec<StreamEvent> = Vec::new();
        proof {
            reveal_strlit("success");
        }
        if let Some(o) = &ch.outcome {
            if o.as_str().unicode_len() > 0 && !str_eq(o.as_str(), "success") {
                evs.push(StreamEvent::Error { message: join2("upstream outcome: ", o.as_str()) });
            }
        }
        assert(events_view(evs@) =~= outcome_events(ch.outcome));
        if let Some(m) = &ch.error_message {
            evs.push(StreamEvent::Error { message: m.clone() });
        }
        let ghost ev01 = outcome_events(ch.outcome) + error_events(ch.error_message);
        assert(events_view(evs@) =~= ev01);
        let ghost start = self@;
        if let Some(cs) = &ch.choices {
            let n = cs.len();
            let mut i: usize = 0;
            assert(cs@.take(0) =~= Seq::<OpenAiChoiceDelta>::empty());
            assert(ev01 + Seq::<EventView>::empty() =~= ev01);
            while i < n
                invariant
                    n == cs@.len(),
                    0 <= i <= n,
                    self.wf(),
                    self@ == choices_step(start, cs@.take(i as int)).0,
                    events_view(evs@) == ev01 + choices_step(start, cs@.take(i as int)).1,
                decreases n - i,
            {
                let ghost before_evs = events_view(evs@);
                self.on_choice(&cs[i], &mut evs);
                proof {
                    assert(cs@.take(i + 1).drop_last() =~= cs@.take(i as int));
                    assert(cs@.take(i + 1).last() == cs@[i as int]);
                    let prev = choices_step(start, cs@.take(i as int));
                    assert(choices_step(start, cs@.take(i + 1)).1 == prev.1 + choice_step(prev.0, cs@[i as int]).1);
                    assert(events_view(evs@) =~= ev01 + choices_step(start, cs@.take(i + 1)).1);
                }
                i = i + 1;
            }
            assert(cs@.take(n as int) =~= cs@);
        } else {
            assert(ev01 + Seq::<EventView>::empty() =~= ev01);
        }
        let ghost ev012 = events_view(evs@);
        if let Some(u) = &ch.usage {
            evs.push(StreamEvent::UsageUpdate { usage: parse_usage(u) });
        }
        assert(events_view(evs@) =~= ev012 + usage_events(ch.usage));
        evs
    }

    fn on_delta(&mut self, d: &OpenAiDelta, evs: &mut Vec<StreamEvent>)
        requires
            old(self).wf(),
        ensures
            final(self).wf(),
            final(self)@ == match d.tool_calls {
                Some(tcs) => apply_tool_deltas(old(self)@, tcs@),
                None => old(self)@,
            },
            events_view(final(evs)@) == events_view(old(evs)@) + delta_events(*d),
    {
        text_event_if(&d.content, evs);
        thought_event_if(&d.reasoning_content, evs);
        thought_event_if(&d.reasoning, evs);
        let ghost base = events_view(evs@);
        if let Some(ds) = &d.reasoning_details {
            let n = ds.len();
            let mut i: usize = 0;
            assert(details_events(ds@.take(0)) =~= Seq::<EventView>::empty());
            assert(base + details_events(ds@.take(0)) =~= base);
            while i < n
                invariant
                    n == ds@.len(),
                    0 <= i <= n,
                    events_view(evs@) == base + details_events(ds@.take(i as int)),
                decreases n - i,
            {
                thought_event_if(&ds[i], evs);
                proof {
                    assert(ds@.take(i + 1).drop_last() =~= ds@.take(i as int));
                    assert(events_view(evs@) =~= base + details_events(ds@.take(i + 1)));
                }
                i = i + 1;
            }
            assert(ds@.take(n as int) =~= ds@);
        } else {
            assert(base + Seq::<EventView>::empty() =~= base);
        }
        if let Some(tcs) = &d.tool_calls {
            let n = tcs.len();
            let mut i: usize = 0;
            let ghost start = self@;
            assert(tcs@.take(0) =~= Seq::<OpenAiToolCallDelta>::empty());
            while i < n
                invariant
                    n == tcs@.len(),
                    0 <= i <= n,
                    self.wf(),
                    self@ == apply_tool_deltas(start, tcs@.take(i as int)),
                decreases n - i,
            {
                self.apply_delta(&tcs[i]);
                proof {
                    assert(tcs@.take(i + 1).drop_last() =~= tcs@.take(i as int));
                }
                i = i + 1;
            }
            assert(tcs@.take(n as int) =~= tcs@);
        }
        assert(events_view(evs@) =~= events_view(old(evs)@) + delta_events(*d));
    }

    fn on_choice(&mut self, c: &OpenAiChoiceDelta, evs: &mut Vec<StreamEvent>)
        requires
            old(self).wf(),
        ensures
            final(self).wf(),
            final(self)@ == choice_step(old(self)@, *c).0,
            events_view(final(evs)@) == events_view(old(evs)@) + choice_step(old(self)@, *c).1,
    {
        if let Some(d) = &c.delta {
            self.on_delta(d, evs);
        } else {
            assert(events_view(evs@) =~= events_view(old(evs)@) + Seq::<EventView>::empty());
        }
        let ghost s1 = self@;
        let ghost mid = events_view(evs@);
        let mut finished = false;
        if let Some(f) = &c.finish_reason {
            proof {
                reveal_strlit("null");
            }
            if f.as_str().unicode_len() > 0 && !str_eq(f.as_str(), "null") {
                finished = true;
                self.flush(evs);
                self.calls = Vec::new();
                evs.push(StreamEvent::Done { finish_reason: Some(f.clone()) });
                assert(self@.calls =~= Seq::<(u32, Seq<char>, Seq<char>)>::empty());
                assert(self@ == OpenAiState { calls: Seq::empty(), ..s1 });
                assert(events_view(evs@) =~= mid + flush_events(s1) + seq![EventView::Done { finish_reason: Some(f@) }]);
            }
        }
        assert(finished == finishes(c.finish_reason));
    }

    /// What the `[DONE]` payload yields.
    pub fn on_done(&self) -> (evs: Vec<StreamEvent>)
        ensures
            events_view(evs@) == openai_done(self@),
    {
        let mut evs: Vec<StreamEvent> = Vec::new();
        self.flush(&mut evs);
        evs.push(StreamEvent::Done { finish_reason: Some(String::from_str("stop")) });
        assert(events_view(evs@) =~= openai_done(self@));
        evs
    }
}

} // verus!
