//! Running an agent: the decisions of the generation loop, and what an
//! invocation keeps of the events it sees.
//!
//! The loop alternates with outside work (asking the gateway, running a
//! tool); the caller performs that work and hands each result to the state
//! machines here, which say what to emit and what comes next.

use vstd::prelude::*;
use crate::clock::utc_now_secs;
use crate::error::{error_text, join2, join3, AxonError};
use crate::models::{
    calls_view, copy_tool_calls, messages_view, opt_calls, opt_str, AgentDefinition, ChatMessage, ChatMessageView,
    TokenUsage, ToolCall, ToolCallFunction, ToolCallView,
};
use crate::store::{random_uuid, MessageRecord, UsageRecord};
use crate::stream::{events_view, EventView, StreamEvent};
use crate::text::{decimal, str_eq, u64_to_decimal};

verus! {

/// The conversation history as chat messages, `system` records left out.
pub open spec fn history_view(h: Seq<MessageRecord>) -> Seq<ChatMessageView>
    decreases h.len(),
{
    if h.len() == 0 {
        Seq::empty()
    } else {
        let m = h.last();
        if m.role@ == "system"@ {
            history_view(h.drop_last())
        } else {
            history_view(h.drop_last()).push(
                ChatMessageView {
                    role: m.role@,
                    content: m.content@,
                    tool_calls: opt_calls(m.tool_calls),
                    tool_call_id: opt_str(m.tool_call_id),
                    name: None,
                },
            )
        }
    }
}

pub open spec fn system_view(prompt: Seq<char>) -> ChatMessageView {
    ChatMessageView { role: "system"@, content: prompt, tool_calls: None, tool_call_id: None, name: None }
}

/// The messages an agent run starts from: the agent's system prompt, then
/// the stored history without its `system` records.
pub fn history_messages(system_prompt: &str, history: Vec<MessageRecord>) -> (v: Vec<ChatMessage>)
    ensures
        messages_view(v@) == seq![system_view(system_prompt@)] + history_view(history@),
{
    broadcast use vstd::std_specs::vec::axiom_spec_into_iter;
    proof {
        reveal_strlit("system");
    }
    let ghost all = history@;
    let mut v: Vec<ChatMessage> = Vec::new();
    v.push(ChatMessage::system(system_prompt));
    assert(messages_view(v@) =~= seq![system_view(system_prompt@)] + history_view(all.take(0)));
    for m in it: history.into_iter()
        invariant
            it.seq() == all,
            messages_view(v@) == seq![system_view(system_prompt@)] + history_view(all.take(it.index() as int)),
    {
        let ghost i = it.index() as int;
        let ghost before = v@;
        assert(all.take(i + 1).drop_last() =~= all.take(i));
        assert(all.take(i + 1).last() == m);
        if !str_eq(m.role.as_str(), "system") {
            let msg = ChatMessage {
                role: m.role,
                content: m.content,
                tool_calls: m.tool_calls,
                tool_call_id: m.tool_call_id,
                name: None,
            };
            v.push(msg);
            assert(messages_view(v@) =~= messages_view(before).push(msg@));
        }
    }
    assert(all.take(all.len() as int) =~= all);
    v
}

/// The three counts of `b` can be added to those of `a`.
pub open spec fn counts_fit(a: TokenUsage, b: TokenUsage) -> bool {
    &&& a.prompt_tokens + b.prompt_tokens <= u32::MAX
    &&& a.completion_tokens + b.completion_tokens <= u32::MAX
    &&& a.total_tokens + b.total_tokens <= u32::MAX
}

/// `a` with the three counts of `b` added; its other fields stay.
pub open spec fn add_counts(a: TokenUsage, b: TokenUsage) -> TokenUsage {
    TokenUsage {
        prompt_tokens: (a.prompt_tokens + b.prompt_tokens) as u32,
        completion_tokens: (a.completion_tokens + b.completion_tokens) as u32,
        total_tokens: (a.total_tokens + b.total_tokens) as u32,
        ..a
    }
}

fn add_counts_exec(a: TokenUsage, b: TokenUsage) -> (r: TokenUsage)
    requires
        counts_fit(a, b),
    ensures
        r == add_counts(a, b),
{
    TokenUsage {
        prompt_tokens: a.prompt_tokens + b.prompt_tokens,
        completion_tokens: a.completion_tokens + b.completion_tokens,
        total_tokens: a.total_tokens + b.total_tokens,
        ..a
    }
}

/// A tool call made during an invocation, with the result it got.
#[derive(Debug, Clone)]
pub struct ToolCallRecord {
    pub id: String,
    pub name: String,
    pub arguments: String,
    pub result: String,
    pub tool_call_id: String,
}

/// The answer of a completed invocation.
#[derive(Debug, Clone)]
pub struct InvokeResult {
    pub output: String,
    pub conversation_id: String,
    pub usage: TokenUsage,
    pub iterations: u32,
    pub tool_calls: Vec<ToolCallRecord>,
}

/// A tool call record as text: id, name, arguments, result, answered id.
pub type RecordView = (Seq<char>, Seq<char>, Seq<char>, Seq<char>, Seq<char>);

impl View for ToolCallRecord {
    type V = RecordView;

    open spec fn view(&self) -> RecordView {
        (self.id@, self.name@, self.arguments@, self.result@, self.tool_call_id@)
    }
}

pub open spec fn records_view(v: Seq<ToolCallRecord>) -> Seq<RecordView> {
    v.map_values(|r: ToolCallRecord| r@)
}

/// What an invocation has gathered so far.
pub struct InvokeView {
    pub output: Seq<char>,
    pub usage: TokenUsage,
    pub iterations: u32,
    pub calls: Seq<RecordView>,
    pub seen_tool_in_round: bool,
}

/// What an event means for the invocation: go on, finished, or failed with
/// an internal error of this detail.
pub enum InvokeOutcome {
    Continue,
    Finished,
    Failed(Seq<char>),
}

/// The event can be taken without a count overflowing.
pub open spec fn invoke_fits(s: InvokeView, e: EventView) -> bool {
    match e {
        EventView::UsageUpdate { usage } => counts_fit(s.usage, usage),
        EventView::ToolCallRequest { .. } => !s.seen_tool_in_round ==> s.iterations < u32::MAX,
        _ => true,
    }
}

/// One event of the agent's stream: text is collected, usage counted, each
/// requested call recorded (the first of a round counting an iteration),
/// a result filed with the latest call; an error fails the invocation and
/// `Done` finishes it, with at least one iteration.
pub open spec fn invoke_step(s: InvokeView, e: EventView) -> (InvokeView, InvokeOutcome) {
    match e {
        EventView::TextChunk { text } => (InvokeView { output: s.output + text, ..s }, InvokeOutcome::Continue),
        EventView::UsageUpdate { usage } => (InvokeView { usage: add_counts(s.usage, usage), ..s }, InvokeOutcome::Continue),
        EventView::ToolCallRequest { tool_call } => (
            InvokeView {
                iterations: if s.seen_tool_in_round { s.iterations } else { (s.iterations + 1) as u32 },
                seen_tool_in_round: true,
                calls: s.calls.push((tool_call.id, tool_call.name, tool_call.arguments, Seq::empty(), Seq::empty())),
                ..s
            },
            InvokeOutcome::Continue,
        ),
        EventView::ToolCallResult { tool_call_id, result, .. } => (
            InvokeView {
                calls: if s.calls.len() > 0 {
                    let l = s.calls.last();
                    s.calls.update(s.calls.len() - 1, (l.0, l.1, l.2, result, tool_call_id))
                } else {
                    s.calls
                },
                seen_tool_in_round: false,
                ..s
            },
            InvokeOutcome::Continue,
        ),
        EventView::Error { message } => (s, InvokeOutcome::Failed("agent execution error: "@ + message)),
        EventView::Done { .. } => (
            InvokeView { iterations: if s.iterations == 0 { 1 } else { s.iterations }, ..s },
            InvokeOutcome::Finished,
        ),
        _ => (s, InvokeOutcome::Continue),
    }
}

/// Usage adds up over an invocation: after a usage event the prompt,
/// completion and total counts are each the count before plus the event's,
/// and the output, the calls and the iterations stay; two usage events in a
/// row add both.
pub proof fn lemma_usage_counts_add_up(s: InvokeView, u1: TokenUsage, u2: TokenUsage)
    requires
        s.usage.prompt_tokens + u1.prompt_tokens + u2.prompt_tokens <= u32::MAX,
        s.usage.completion_tokens + u1.completion_tokens + u2.completion_tokens <= u32::MAX,
        s.usage.total_tokens + u1.total_tokens + u2.total_tokens <= u32::MAX,
    ensures
        ({
            let (t, o) = invoke_step(s, EventView::UsageUpdate { usage: u1 });
            &&& o == InvokeOutcome::Continue
            &&& t.usage.prompt_tokens == s.usage.prompt_tokens + u1.prompt_tokens
            &&& t.usage.completion_tokens == s.usage.completion_tokens + u1.completion_tokens
            &&& t.usage.total_tokens == s.usage.total_tokens + u1.total_tokens
            &&& t.output == s.output
            &&& t.calls == s.calls
            &&& t.iterations == s.iterations
        }),
        ({
            let t = invoke_step(invoke_step(s, EventView::UsageUpdate { usage: u1 }).0, EventView::UsageUpdate { usage: u2 }).0;
            &&& t.usage.prompt_tokens == s.usage.prompt_tokens + u1.prompt_tokens + u2.prompt_tokens
            &&& t.usage.completion_tokens == s.usage.completion_tokens + u1.completion_tokens + u2.completion_tokens
            &&& t.usage.total_tokens == s.usage.total_tokens + u1.total_tokens + u2.total_tokens
        }),
{
}

/// A finished invocation reports at least one iteration, and each tool
/// call request adds exactly one record, the request's call.
pub proof fn lemma_invoke_step_records(s: InvokeView, e: EventView)
    ensures
        e is Done ==> invoke_step(s, e).0.iterations >= 1 && invoke_step(s, e).1 is Finished,
        e matches EventView::ToolCallRequest { tool_call } ==> {
            &&& invoke_step(s, e).0.calls.len() == s.calls.len() + 1
            &&& invoke_step(s, e).0.calls.last().0 == tool_call.id
            &&& invoke_step(s, e).0.calls.last().1 == tool_call.name
            &&& invoke_step(s, e).0.calls.last().2 == tool_call.arguments
        },
        !(e is ToolCallRequest) ==> invoke_step(s, e).0.calls.len() == s.calls.len(),
        e is Error ==> invoke_step(s, e).1 is Failed,
{
}

/// What to do after an event of an invocation's stream.
#[derive(Debug)]
pub enum InvokeStep {
    Continue,
    Finished,
    Failed(AxonError),
}

pub open spec fn step_view(s: InvokeStep) -> InvokeOutcome {
    match s {
        InvokeStep::Continue => InvokeOutcome::Continue,
        InvokeStep::Finished => InvokeOutcome::Finished,
        InvokeStep::Failed(AxonError::Internal(m)) => InvokeOutcome::Failed(m@),
        InvokeStep::Failed(_) => InvokeOutcome::Failed(Seq::empty()),
    }
}

/// What a (non-streaming) invocation gathers from the agent's events.
pub struct InvokeAccumulator {
    output: String,
    usage: TokenUsage,
    iterations: u32,
    tool_calls: Vec<ToolCallRecord>,
    seen_tool_in_round: bool,
}

impl View for InvokeAccumulator {
    type V = InvokeView;

    closed spec fn view(&self) -> InvokeView {
        InvokeView {
            output: self.output@,
            usage: self.usage,
            iterations: self.iterations,
            calls: records_view(self.tool_calls@),
            seen_tool_in_round: self.seen_tool_in_round,
        }
    }
}

impl InvokeAccumulator {
    /// Nothing gathered yet.
    pub fn new() -> (a: InvokeAccumulator)
        ensures
            a@.output == Seq::<char>::empty(),
            a@.usage == TokenUsage::zero(),
            a@.iterations == 0,
            a@.calls == Seq::<RecordView>::empty(),
            !a@.seen_tool_in_round,
    {
        let a = InvokeAccumulator {
            output: String::new(),
            usage: TokenUsage::default(),
            iterations: 0,
            tool_calls: Vec::new(),
            seen_tool_in_round: false,
        };
        assert(a@.calls =~= Seq::<RecordView>::empty());
        a
    }

    /// Whether the event can be taken without a count overflowing.
    pub fn accepts(&self, ev: &StreamEvent) -> (b: bool)
        ensures
            b == invoke_fits(self@, ev@),
    {
        match ev {
            StreamEvent::UsageUpdate { usage } => {
                self.usage.prompt_tokens as u64 + usage.prompt_tokens as u64 <= 0xffff_ffff
                    && self.usage.completion_tokens as u64 + usage.completion_tokens as u64 <= 0xffff_ffff
                    && self.usage.total_tokens as u64 + usage.total_tokens as u64 <= 0xffff_ffff
            },
            StreamEvent::ToolCallRequest { .. } => self.seen_tool_in_round || self.iterations < 0xffff_ffff,
            _ => true,
        }
    }

    /// Takes one event of the agent's stream.
    pub fn on_event(&mut self, ev: StreamEvent) -> (step: InvokeStep)
        requires
            invoke_fits(old(self)@, ev@),
        ensures
            (final(self)@, step_view(step)) == invoke_step(old(self)@, ev@),
            step matches InvokeStep::Failed(e) ==> e is Internal,
    {
        let ghost e = ev@;
        match ev {
            StreamEvent::TextChunk { text } => {
                self.output.append(text.as_str());
                InvokeStep::Continue
            },
            StreamEvent::UsageUpdate { usage } => {
                self.usage = add_counts_exec(self.usage, usage);
                InvokeStep::Continue
            },
            StreamEvent::ToolCallRequest { tool_call } => {
                if !self.seen_tool_in_round {
                    self.iterations = self.iterations + 1;
                    self.seen_tool_in_round = true;
                }
                let ghost before = self.tool_calls@;
                let rec = ToolCallRecord {
                    id: tool_call.id,
                    name: tool_call.function.name,
                    arguments: tool_call.function.arguments,
                    result: String::new(),
                    tool_call_id: String::new(),
                };
                self.tool_calls.push(rec);
                assert(records_view(self.tool_calls@) =~= records_view(before).push(rec@));
                InvokeStep::Continue
            },
            StreamEvent::ToolCallResult { tool_call_id, result, .. } => {
                let ghost before = self.tool_calls@;
                if self.tool_calls.len() > 0 {
                    let mut last = self.tool_calls.pop().unwrap();
                    last.result = result;
                    last.tool_call_id = tool_call_id;
                    self.tool_calls.push(last);
                    assert(records_view(self.tool_calls@) =~= records_view(before).update(
                        before.len() - 1,
                        last@,
                    ));
                }
                self.seen_tool_in_round = false;
                InvokeStep::Continue
            },
            StreamEvent::Error { message } => InvokeStep::Failed(
                AxonError::Internal(join2("agent execution error: ", message.as_str())),
            ),
            StreamEvent::Done { .. } => {
                if self.iterations == 0 {
                    self.iterations = 1;
                }
                InvokeStep::Finished
            },
            _ => InvokeStep::Continue,
        }
    }

    /// The tool calls to store with the assistant's message: none when no
    /// call was made, else a `function` call per record, in order.
    pub fn message_tool_calls(&self) -> (r: Option<Vec<ToolCall>>)
        ensures
            self@.calls.len() == 0 <==> r is None,
            r matches Some(v) ==> v@.len() == self@.calls.len() && forall|i: int| 0 <= i < v@.len() ==> {
                let c = (#[trigger] v@[i])@;
                let rec = self@.calls[i];
                c.id == rec.0 && c.call_type == "function"@ && c.name == rec.1 && c.arguments == rec.2
            },
    {
        let n = self.tool_calls.len();
        if n == 0 {
            return None;
        }
        let mut v: Vec<ToolCall> = Vec::new();
        let mut i: usize = 0;
        while i < n
            invariant
                n == self.tool_calls@.len(),
                0 <= i <= n,
                v@.len() == i,
                forall|j: int| 0 <= j < i ==> {
                    let c = (#[trigger] v@[j])@;
                    let rec = records_view(self.tool_calls@)[j];
                    c.id == rec.0 && c.call_type == "function"@ && c.name == rec.1 && c.arguments == rec.2
                },
            decreases n - i,
        {
            let r = &self.tool_calls[i];
            v.push(ToolCall::function_call(r.id.clone(), r.name.clone(), r.arguments.clone()));
            i = i + 1;
        }
        Some(v)
    }

    /// The text gathered so far.
    pub fn output(&self) -> (s: &String)
        ensures
            s@ == self@.output,
    {
        &self.output
    }

    /// The usage counted so far.
    pub fn usage(&self) -> (u: TokenUsage)
        ensures
            u == self@.usage,
    {
        self.usage
    }

    /// The answer of the invocation in conversation `conversation_id`.
    pub fn into_result(self, conversation_id: String) -> (r: InvokeResult)
        ensures
            r.output@ == self@.output,
            r.conversation_id == conversation_id,
            r.usage == self@.usage,
            r.iterations == self@.iterations,
            records_view(r.tool_calls@) == self@.calls,
    {
        InvokeResult {
            output: self.output,
            conversation_id,
            usage: self.usage,
            iterations: self.iterations,
            tool_calls: self.tool_calls,
        }
    }
}

/// What a streaming invocation gathers while it passes the events on.
pub struct StreamSummary {
    output: String,
    usage: TokenUsage,
    tool_calls: Vec<ToolCall>,
}

/// A streaming invocation's gathered text, usage and requested calls.
pub struct SummaryView {
    pub output: Seq<char>,
    pub usage: TokenUsage,
    pub calls: Seq<ToolCallView>,
}

impl View for StreamSummary {
    type V = SummaryView;

    closed spec fn view(&self) -> SummaryView {
        SummaryView { output: self.output@, usage: self.usage, calls: calls_view(self.tool_calls@) }
    }
}

pub open spec fn summary_fits(s: SummaryView, e: EventView) -> bool {
    match e {
        EventView::UsageUpdate { usage } => counts_fit(s.usage, usage),
        _ => true,
    }
}

/// Text is collected, usage counted and requested calls kept; other events
/// change nothing.
pub open spec fn summary_step(s: SummaryView, e: EventView) -> SummaryView {
    match e {
        EventView::TextChunk { text } => SummaryView { output: s.output + text, ..s },
        EventView::UsageUpdate { usage } => SummaryView { usage: add_counts(s.usage, usage), ..s },
        EventView::ToolCallRequest { tool_call } => SummaryView { calls: s.calls.push(tool_call), ..s },
        _ => s,
    }
}

/// A stream's summary adds usage up: after a usage event the prompt,
/// completion and total counts are each the count before plus the event's,
/// and the output and the calls stay.
pub proof fn lemma_summary_usage_adds_up(s: SummaryView, u: TokenUsage)
    requires
        s.usage.prompt_tokens + u.prompt_tokens <= u32::MAX,
        s.usage.completion_tokens + u.completion_tokens <= u32::MAX,
        s.usage.total_tokens + u.total_tokens <= u32::MAX,
    ensures
        ({
            let t = summary_step(s, EventView::UsageUpdate { usage: u });
            &&& t.usage.prompt_tokens == s.usage.prompt_tokens + u.prompt_tokens
            &&& t.usage.completion_tokens == s.usage.completion_tokens + u.completion_tokens
            &&& t.usage.total_tokens == s.usage.total_tokens + u.total_tokens
            &&& t.output == s.output
            &&& t.calls == s.calls
        }),
{
}

impl StreamSummary {
    pub fn new() -> (s: StreamSummary)
        ensures
            s@.output == Seq::<char>::empty(),
            s@.usage == TokenUsage::zero(),
            s@.calls == Seq::<ToolCallView>::empty(),
    {
        let s = StreamSummary { output: String::new(), usage: TokenUsage::default(), tool_calls: Vec::new() };
        assert(s@.calls =~= Seq::<ToolCallView>::empty());
        s
    }

    pub fn accepts(&self, ev: &StreamEvent) -> (b: bool)
        ensures
            b == summary_fits(self@, ev@),
    {
        match ev {
            StreamEvent::UsageUpdate { usage } => {
                self.usage.prompt_tokens as u64 + usage.prompt_tokens as u64 <= 0xffff_ffff
                    && self.usage.completion_tokens as u64 + usage.completion_tokens as u64 <= 0xffff_ffff
                    && self.usage.total_tokens as u64 + usage.total_tokens as u64 <= 0xffff_ffff
            },
            _ => true,
        }
    }

    /// Notes one event that is passed on to the client.
    pub fn on_event(&mut self, ev: &StreamEvent)
        requires
            summary_fits(old(self)@, ev@),
        ensures
            final(self)@ == summary_step(old(self)@, ev@),
    {
        match ev {
            StreamEvent::TextChunk { text } => {
                self.output.append(text.as_str());
            },
            StreamEvent::UsageUpdate { usage } => {
                self.usage = add_counts_exec(self.usage, *usage);
            },
            StreamEvent::ToolCallRequest { tool_call } => {
                let ghost before = self.tool_calls@;
                let c = tool_call.duplicate();
                self.tool_calls.push(c);
                assert(calls_view(self.tool_calls@) =~= calls_view(before).push(c@));
            },
            _ => {},
        }
    }

    /// The text, usage and calls gathered, for the assistant's message.
    pub fn into_parts(self) -> (r: (String, TokenUsage, Option<Vec<ToolCall>>))
        ensures
            r.0@ == self@.output,
            r.1 == self@.usage,
            self@.calls.len() == 0 <==> r.2 is None,
            r.2 matches Some(v) ==> calls_view(v@) == self@.calls,
    {
        let calls = if self.tool_calls.len() == 0 {
            None
        } else {
            Some(self.tool_calls)
        };
        (self.output, self.usage, calls)
    }
}

/// The assistant's message that closes an agent run: a fresh id, the
/// user's message as parent, and the current time.
pub fn assistant_record(
    conversation_id: &str,
    parent_id: &str,
    content: String,
    tool_calls: Option<Vec<ToolCall>>,
    model: &str,
    usage: TokenUsage,
) -> (m: MessageRecord)
    ensures
        m.conversation_id@ == conversation_id@,
        opt_str(m.parent_id) == Some(parent_id@),
        m.role@ == "assistant"@,
        m.content == content,
        m.tool_calls == tool_calls,
        m.tool_call_id is None,
        opt_str(m.model) == Some(model@),
        m.usage == Some(usage),
{
    MessageRecord {
        id: random_uuid(),
        conversation_id: String::from_str(conversation_id),
        parent_id: Some(String::from_str(parent_id)),
        role: String::from_str("assistant"),
        content,
        tool_calls,
        tool_call_id: None,
        model: Some(String::from_str(model)),
        usage: Some(usage),
        created_at: utc_now_secs(),
    }
}

/// The usage record of an agent run, stamped with the current time.
pub fn run_usage_record(conversation_id: &str, agent_id: &str, model: &str, usage: &TokenUsage) -> (r: UsageRecord)
    ensures
        opt_str(r.conversation_id) == Some(conversation_id@),
        opt_str(r.agent_id) == Some(agent_id@),
        opt_str(r.model) == Some(model@),
        r.prompt_tokens == usage.prompt_tokens,
        r.completion_tokens == usage.completion_tokens,
        r.total_tokens == usage.total_tokens,
        r.duration_ms == 0,
{
    UsageRecord {
        conversation_id: Some(String::from_str(conversation_id)),
        agent_id: Some(String::from_str(agent_id)),
        model: Some(String::from_str(model)),
        prompt_tokens: usage.prompt_tokens,
        completion_tokens: usage.completion_tokens,
        total_tokens: usage.total_tokens,
        duration_ms: 0,
        timestamp: utc_now_secs(),
    }
}

/// The generation loop of one agent run, as a state machine: it holds the
/// conversation sent to the model and the current round's gathered answer.
pub struct GenerationPipeline {
    messages: Vec<ChatMessage>,
    max_iterations: u32,
    iterations: u32,
    rounds: u32,
    text: String,
    calls: Vec<ToolCall>,
    usage: TokenUsage,
    finish_reason: Option<String>,
}

/// The loop's state as text.
pub struct PipelineView {
    pub messages: Seq<ChatMessageView>,
    pub max_iterations: u32,
    pub rounds: u32,
    pub text: Seq<char>,
    pub calls: Seq<ToolCallView>,
    pub usage: TokenUsage,
    pub finish_reason: Option<Seq<char>>,
}

impl View for GenerationPipeline {
    type V = PipelineView;

    closed spec fn view(&self) -> PipelineView {
        PipelineView {
            messages: messages_view(self.messages@),
            max_iterations: self.max_iterations,
            rounds: self.rounds,
            text: self.text@,
            calls: calls_view(self.calls@),
            usage: self.usage,
            finish_reason: opt_str(self.finish_reason),
        }
    }
}

/// The events that end a run that used up its rounds.
pub open spec fn exhausted_events(max: u32) -> Seq<EventView> {
    seq![
        EventView::Error { message: "max iterations ("@ + decimal(max as nat) + ") reached"@ },
        EventView::Done { finish_reason: Some("max_iterations"@) },
    ]
}

pub open spec fn upstream_fits(p: PipelineView, e: EventView) -> bool {
    match e {
        EventView::UsageUpdate { usage } => counts_fit(p.usage, usage),
        _ => true,
    }
}

/// One event from the model during a round: what the round keeps of it,
/// and what is passed on (text, usage and errors are; calls wait for the
/// round's end; the finish reason is kept).
pub open spec fn upstream_step(p: PipelineView, e: EventView) -> (PipelineView, Option<EventView>) {
    match e {
        EventView::TextChunk { text } => (PipelineView { text: p.text + text, ..p }, Some(e)),
        EventView::ToolCallRequest { tool_call } => (PipelineView { calls: p.calls.push(tool_call), ..p }, None),
        EventView::UsageUpdate { usage } => (PipelineView { usage: add_counts(p.usage, usage), ..p }, Some(e)),
        EventView::Done { finish_reason } => (PipelineView { finish_reason, ..p }, None),
        EventView::Error { .. } => (p, Some(e)),
        _ => (p, None),
    }
}

/// A round adds up the model's usage and passes each usage event on: after
/// a usage event the round's prompt, completion and total counts are each
/// the count before plus the event's; text is appended and passed on.
pub proof fn lemma_round_usage_adds_up(p: PipelineView, u: TokenUsage, text: Seq<char>)
    requires
        p.usage.prompt_tokens + u.prompt_tokens <= u32::MAX,
        p.usage.completion_tokens + u.completion_tokens <= u32::MAX,
        p.usage.total_tokens + u.total_tokens <= u32::MAX,
    ensures
        ({
            let (t, out) = upstream_step(p, EventView::UsageUpdate { usage: u });
            &&& t.usage.prompt_tokens == p.usage.prompt_tokens + u.prompt_tokens
            &&& t.usage.completion_tokens == p.usage.completion_tokens + u.completion_tokens
            &&& t.usage.total_tokens == p.usage.total_tokens + u.total_tokens
            &&& t.text == p.text
            &&& out == Some(EventView::UsageUpdate { usage: u })
        }),
        ({
            let (t, out) = upstream_step(p, EventView::TextChunk { text });
            &&& t.text == p.text + text
            &&& t.usage == p.usage
            &&& out == Some(EventView::TextChunk { text })
        }),
{
}

/// The assistant message a round adds to the conversation.
pub open spec fn round_message(p: PipelineView) -> ChatMessageView {
    ChatMessageView {
        role: "assistant"@,
        content: p.text,
        tool_calls: if p.calls.len() == 0 { None } else { Some(p.calls) },
        tool_call_id: None,
        name: None,
    }
}

/// What a round's end emits: the round's usage when it counted any prompt
/// or completion tokens, and `Done` when the model asked for no tool.
pub open spec fn round_end_events(p: PipelineView) -> Seq<EventView> {
    let usage = if p.usage.prompt_tokens > 0 || p.usage.completion_tokens > 0 {
        seq![EventView::UsageUpdate { usage: p.usage }]
    } else {
        Seq::empty()
    };
    if p.calls.len() == 0 {
        usage.push(EventView::Done { finish_reason: p.finish_reason })
    } else {
        usage
    }
}

/// `evs` ends a run: its last event is a `Done`, and the only one.
pub open spec fn ends_run(evs: Seq<EventView>) -> bool {
    &&& evs.len() > 0
    &&& evs.last() is Done
    &&& forall|i: int| 0 <= i < evs.len() - 1 ==> !(#[trigger] evs[i] is Done)
}

/// `evs` holds no `Done`.
pub open spec fn has_no_done(evs: Seq<EventView>) -> bool {
    forall|i: int| 0 <= i < evs.len() ==> !(#[trigger] evs[i] is Done)
}

/// A run emits exactly one `Done`, as its last event: the events of each
/// step that ends a run (rounds used up, a refused request, a round whose
/// answer asked for no tool) end with the only `Done` they hold, while a
/// round that asked for tools emits none and the model's own `Done` is
/// kept as the finish reason, not passed on.
pub proof fn lemma_done_only_ends_a_run(max: u32, p: PipelineView, e: EventView, err: AxonError)
    ensures
        ends_run(exhausted_events(max)),
        ends_run(
            seq![
                EventView::Error { message: error_text(err) },
                EventView::Done { finish_reason: Some("error"@) },
            ],
        ),
        p.calls.len() == 0 ==> ends_run(round_end_events(p)),
        p.calls.len() > 0 ==> has_no_done(round_end_events(p)),
        !(upstream_step(p, e).1 matches Some(o) && o is Done),
{
    let usage = if p.usage.prompt_tokens > 0 || p.usage.completion_tokens > 0 {
        seq![EventView::UsageUpdate { usage: p.usage }]
    } else {
        Seq::empty()
    };
    assert(has_no_done(usage));
    if p.calls.len() == 0 {
        assert(round_end_events(p) == usage.push(EventView::Done { finish_reason: p.finish_reason }));
    }
}

impl GenerationPipeline {
    pub closed spec fn wf(&self) -> bool {
        &&& self.iterations == 0
        &&& self.rounds <= self.max_iterations
    }

    /// A loop for an agent over the starting messages; no round has run.
    pub fn new(agent: &AgentDefinition, messages: Vec<ChatMessage>) -> (p: GenerationPipeline)
        ensures
            p.wf(),
            p@.messages == messages_view(messages@),
            p@.max_iterations == agent.max_iterations,
            p@.rounds == 0,
    {
        GenerationPipeline {
            messages,
            max_iterations: agent.max_iterations,
            iterations: 0,
            rounds: 0,
            text: String::new(),
            calls: Vec::new(),
            usage: TokenUsage::default(),
            finish_reason: None,
        }
    }

    /// The iteration count the loop reports, which it never advances: the
    /// rounds are counted inside the run.
    pub fn iterations(&self) -> (n: u32)
        requires
            self.wf(),
        ensures
            n == 0,
    {
        self.iterations
    }

    /// The conversation to send to the model.
    pub fn messages(&self) -> (m: &Vec<ChatMessage>)
        ensures
            messages_view(m@) == self@.messages,
    {
        &self.messages
    }

    /// The calls the current round's answer asked for.
    pub fn pending_calls(&self) -> (c: &Vec<ToolCall>)
        ensures
            calls_view(c@) == self@.calls,
    {
        &self.calls
    }

    /// Starts a round, or, when the rounds are used up, gives the events
    /// that end the run.
    pub fn begin_round(&mut self) -> (stop: Option<Vec<StreamEvent>>)
        requires
            old(self).wf(),
        ensures
            final(self).wf(),
            final(self)@.messages == old(self)@.messages,
            final(self)@.max_iterations == old(self)@.max_iterations,
            old(self)@.rounds >= old(self)@.max_iterations ==> {
                &&& stop matches Some(v) && events_view(v@) == exhausted_events(old(self)@.max_iterations)
                &&& final(self)@ == old(self)@
            },
            old(self)@.rounds < old(self)@.max_iterations ==> {
                &&& stop is None
                &&& final(self)@.rounds == old(self)@.rounds + 1
                &&& final(self)@.text == Seq::<char>::empty()
                &&& final(self)@.calls == Seq::<ToolCallView>::empty()
                &&& final(self)@.usage == TokenUsage::zero()
                &&& final(self)@.finish_reason is None
            },
    {
        if self.rounds >= self.max_iterations {
            let msg = join3("max iterations (", u64_to_decimal(self.max_iterations as u64).as_str(), ") reached");
            let mut v: Vec<StreamEvent> = Vec::new();
            v.push(StreamEvent::Error { message: msg });
            v.push(StreamEvent::Done { finish_reason: Some(String::from_str("max_iterations")) });
            assert(events_view(v@) =~= exhausted_events(self.max_iterations));
            return Some(v);
        }
        self.rounds = self.rounds + 1;
        self.text = String::new();
        self.calls = Vec::new();
        self.usage = TokenUsage::default();
        self.finish_reason = None;
        assert(calls_view(self.calls@) =~= Seq::<ToolCallView>::empty());
        None
    }

    /// The events that end the run when the gateway refused the request.
    pub fn gateway_failed(&self, e: &AxonError) -> (v: Vec<StreamEvent>)
        ensures
            events_view(v@) == seq![
                EventView::Error { message: error_text(*e) },
                EventView::Done { finish_reason: Some("error"@) },
            ],
    {
        let mut v: Vec<StreamEvent> = Vec::new();
        v.push(StreamEvent::Error { message: e.to_display_string() });
        v.push(StreamEvent::Done { finish_reason: Some(String::from_str("error")) });
        assert(events_view(v@) =~= seq![
            EventView::Error { message: error_text(*e) },
            EventView::Done { finish_reason: Some("error"@) },
        ]);
        v
    }

    /// Whether the event can be taken without a count overflowing.
    pub fn accepts(&self, ev: &StreamEvent) -> (b: bool)
        ensures
            b == upstream_fits(self@, ev@),
    {
        match ev {
            StreamEvent::UsageUpdate { usage } => {
                self.usage.prompt_tokens as u64 + usage.prompt_tokens as u64 <= 0xffff_ffff
                    && self.usage.completion_tokens as u64 + usage.completion_tokens as u64 <= 0xffff_ffff
                    && self.usage.total_tokens as u64 + usage.total_tokens as u64 <= 0xffff_ffff
            },
            _ => true,
        }
    }

    /// Takes one event of the model's answer; returns the event to pass on.
    pub fn on_upstream(&mut self, ev: StreamEvent) -> (out: Option<StreamEvent>)
        requires
            old(self).wf(),
            upstream_fits(old(self)@, ev@),
        ensures
            final(self).wf(),
            (final(self)@, match out {
                Some(o) => Some(o@),
                None => None::<EventView>,
            }) == upstream_step(old(self)@, ev@),
    {
        let ghost e = ev@;
        match ev {
            StreamEvent::TextChunk { text } => {
                self.text.append(text.as_str());
                Some(StreamEvent::TextChunk { text })
            },
            StreamEvent::ToolCallRequest { tool_call } => {
                let ghost before = self.calls@;
                let ghost c = tool_call@;
                self.calls.push(tool_call);
                assert(calls_view(self.calls@) =~= calls_view(before).push(c));
                None
            },
            StreamEvent::UsageUpdate { usage } => {
                self.usage = add_counts_exec(self.usage, usage);
                Some(StreamEvent::UsageUpdate { usage })
            },
            StreamEvent::Done { finish_reason } => {
                self.finish_reason = finish_reason;
                None
            },
            StreamEvent::Error { message } => Some(StreamEvent::Error { message }),
            _ => None,
        }
    }

    /// Ends the round: adds the assistant's message to the conversation and
    /// gives the events to emit; `true` when the run is over because no tool
    /// was asked for.
    pub fn end_round(&mut self) -> (r: (Vec<StreamEvent>, bool))
        requires
            old(self).wf(),
        ensures
            final(self).wf(),
            final(self)@ == (PipelineView { messages: old(self)@.messages.push(round_message(old(self)@)), ..old(self)@ }),
            events_view(r.0@) == round_end_events(old(self)@),
            r.1 == (old(self)@.calls.len() == 0),
    {
        let mut v: Vec<StreamEvent> = Vec::new();
        if self.usage.prompt_tokens > 0 || self.usage.completion_tokens > 0 {
            v.push(StreamEvent::UsageUpdate { usage: self.usage });
        }
        let ghost before = self.messages@;
        let msg = ChatMessage {
            role: String::from_str("assistant"),
            content: self.text.clone(),
            tool_calls: if self.calls.len() == 0 {
                None
            } else {
                Some(copy_tool_calls(&self.calls))
            },
            tool_call_id: None,
            name: None,
        };
        self.messages.push(msg);
        assert(messages_view(self.messages@) =~= messages_view(before).push(msg@));
        let finished = self.calls.len() == 0;
        if finished {
            let fr = match &self.finish_reason {
                Some(f) => Some(f.clone()),
                None => None,
            };
            v.push(StreamEvent::Done { finish_reason: fr });
        }
        assert(events_view(v@) =~= round_end_events(old(self)@));
        (v, finished)
    }

    /// The event announcing the `i`-th pending call, emitted before it runs.
    pub fn tool_request(&self, i: usize) -> (ev: StreamEvent)
        requires
            i < self@.calls.len(),
        ensures
            ev@ == (EventView::ToolCallRequest { tool_call: self@.calls[i as int] }),
    {
        StreamEvent::ToolCallRequest { tool_call: self.calls[i].duplicate() }
    }

    /// Files the result of the `i`-th pending call: a `tool` message
    /// answering the call's id joins the conversation, and the result event
    /// to emit is returned.
    pub fn on_tool_result(&mut self, i: usize, content: String, is_error: bool) -> (ev: StreamEvent)
        requires
            old(self).wf(),
            i < old(self)@.calls.len(),
        ensures
            final(self).wf(),
            final(self)@ == (PipelineView {
                messages: old(self)@.messages.push(
                    ChatMessageView {
                        role: "tool"@,
                        content: content@,
                        tool_calls: None,
                        tool_call_id: Some(old(self)@.calls[i as int].id),
                        name: None,
                    },
                ),
                ..old(self)@
            }),
            ev@ == (EventView::ToolCallResult {
                tool_call_id: old(self)@.calls[i as int].id,
                result: content@,
                is_error,
            }),
    {
        let id = self.calls[i].id.clone();
        let ghost before = self.messages@;
        let msg = ChatMessage::tool(content.as_str(), id.as_str());
        self.messages.push(msg);
        assert(messages_view(self.messages@) =~= messages_view(before).push(msg@));
        StreamEvent::ToolCallResult { tool_call_id: id, result: content, is_error }
    }
}

} // verus!
