//! Upstream model providers as plain data: which wire protocol a provider
//! speaks, where its requests go and with which headers, how a request is
//! shaped, and how a complete answer becomes a `ChatResponse`.
//!
//! Sending the HTTP request and (de)serialising JSON belong to the caller.

use vstd::prelude::*;
use crate::error::{join2, join3, AxonError};
use crate::models::{ChatMessage, CompletionTokensDetails, PromptTokensDetails, TokenUsage, ToolCall};
use crate::stream::ChatResponse;
use crate::text::{chars_of, str_eq, string_from_range};

verus! {

/// The wire protocol of a provider.
#[derive(Debug, Clone, Copy, PartialEq, Eq, Structural)]
pub enum ProviderKind {
    OpenAi,
    Anthropic,
}

/// The protocol behind a provider type name, if it is a known one.
pub open spec fn kind_of(provider_type: Seq<char>) -> Option<ProviderKind> {
    if provider_type == "openai"@ || provider_type == "vertex"@ {
        Some(ProviderKind::OpenAi)
    } else if provider_type == "anthropic"@ {
        Some(ProviderKind::Anthropic)
    } else {
        None
    }
}

/// `s` without the `c` characters at its end.
pub open spec fn strip_trailing(s: Seq<char>, c: char) -> Seq<char>
    decreases s.len(),
{
    if s.len() > 0 && s.last() == c {
        strip_trailing(s.drop_last(), c)
    } else {
        s
    }
}

/// A configured provider: its protocol, its base URL without trailing
/// slashes, and its API key.
#[derive(Debug, Clone)]
pub struct ProviderEndpoint {
    pub kind: ProviderKind,
    pub api_base: String,
    pub api_key: String,
}

/// `s` with every trailing `/` removed.
pub fn trim_trailing_slashes(s: &str) -> (r: String)
    ensures
        r@ == strip_trailing(s@, '/'),
{
    let v = chars_of(s);
    let mut end = v.len();
    assert(v@.subrange(0, end as int) =~= s@);
    while end > 0 && v[end - 1] == '/'
        invariant
            v@ == s@,
            end <= v@.len(),
            strip_trailing(v@.subrange(0, end as int), '/') == strip_trailing(s@, '/'),
        decreases end,
    {
        assert(v@.subrange(0, end as int).drop_last() =~= v@.subrange(0, end - 1));
        end = end - 1;
    }
    string_from_range(&v, 0, end)
}

/// A provider for a provider type name, base URL and key; an unknown type
/// is a configuration error.
pub fn create_provider(provider_type: &str, api_base: &str, api_key: &str) -> (r: Result<ProviderEndpoint, AxonError>)
    ensures
        match kind_of(provider_type@) {
            Some(k) => r matches Ok(p) && p.kind == k && p.api_base@ == strip_trailing(api_base@, '/')
                && p.api_key@ == api_key@,
            None => r matches Err(AxonError::Config(m)) && m@ == "unknown provider type: "@ + provider_type@,
        },
{
    let kind = if str_eq(provider_type, "openai") || str_eq(provider_type, "vertex") {
        ProviderKind::OpenAi
    } else if str_eq(provider_type, "anthropic") {
        ProviderKind::Anthropic
    } else {
        return Err(AxonError::Config(join2("unknown provider type: ", provider_type)));
    };
    Ok(ProviderEndpoint { kind, api_base: trim_trailing_slashes(api_base), api_key: String::from_str(api_key) })
}

/// The path a provider's chat requests go to, below its base URL.
pub open spec fn chat_path(kind: ProviderKind) -> Seq<char> {
    match kind {
        ProviderKind::OpenAi => "/chat/completions"@,
        ProviderKind::Anthropic => "/v1/messages"@,
    }
}

/// The headers that authenticate a request, as (name, value) pairs.
pub open spec fn auth_headers(kind: ProviderKind, key: Seq<char>) -> Seq<(Seq<char>, Seq<char>)> {
    match kind {
        ProviderKind::OpenAi => seq![("Authorization"@, "Bearer "@ + key)],
        ProviderKind::Anthropic => seq![("x-api-key"@, key), ("anthropic-version"@, "2023-06-01"@)],
    }
}

impl ProviderEndpoint {
    /// The URL chat requests are posted to.
    pub fn chat_url(&self) -> (u: String)
        ensures
            u@ == self.api_base@ + chat_path(self.kind),
    {
        match self.kind {
            ProviderKind::OpenAi => join2(self.api_base.as_str(), "/chat/completions"),
            ProviderKind::Anthropic => join2(self.api_base.as_str(), "/v1/messages"),
        }
    }

    /// The headers sent with every request.
    pub fn headers(&self) -> (h: Vec<(String, String)>)
        ensures
            h@.len() == auth_headers(self.kind, self.api_key@).len(),
            forall|i: int| 0 <= i < h@.len() ==> (#[trigger] h@[i]).0@ == auth_headers(self.kind, self.api_key@)[i].0
                && h@[i].1@ == auth_headers(self.kind, self.api_key@)[i].1,
    {
        let mut h: Vec<(String, String)> = Vec::new();
        match self.kind {
            ProviderKind::OpenAi => {
                h.push((String::from_str("Authorization"), join2("Bearer ", self.api_key.as_str())));
            },
            ProviderKind::Anthropic => {
                h.push((String::from_str("x-api-key"), self.api_key.clone()));
                h.push((String::from_str("anthropic-version"), String::from_str("2023-06-01")));
            },
        }
        h
    }

    /// The error for an answer whose HTTP status is not a success:
    /// `<provider> [stream ]<status>: <body>`.
    pub fn status_error(&self, streaming: bool, status: &str, body: &str) -> (e: AxonError)
        ensures
            e matches AxonError::Upstream(m) && m@ == provider_label(self.kind, streaming) + " "@ + status@ + ": "@ + body@,
    {
        let label = match self.kind {
            ProviderKind::OpenAi => if streaming { "openai stream" } else { "openai" },
            ProviderKind::Anthropic => if streaming { "anthropic stream" } else { "anthropic" },
        };
        let head = join3(label, " ", status);
        AxonError::Upstream(join3(head.as_str(), ": ", body))
    }

    /// The error for a request that could not be sent:
    /// `<provider> [stream ]request: <detail>`.
    pub fn request_error(&self, streaming: bool, detail: &str) -> (e: AxonError)
        ensures
            e matches AxonError::Upstream(m) && m@ == provider_label(self.kind, streaming) + " request: "@ + detail@,
    {
        let label = match self.kind {
            ProviderKind::OpenAi => if streaming { "openai stream" } else { "openai" },
            ProviderKind::Anthropic => if streaming { "anthropic stream" } else { "anthropic" },
        };
        AxonError::Upstream(join3(label, " request: ", detail))
    }

    /// The error for an answer body that did not parse: `<provider> parse: <detail>`.
    pub fn parse_error(&self, detail: &str) -> (e: AxonError)
        ensures
            e matches AxonError::Upstream(m) && m@ == provider_label(self.kind, false) + " parse: "@ + detail@,
    {
        let label = match self.kind {
            ProviderKind::OpenAi => "openai",
            ProviderKind::Anthropic => "anthropic",
        };
        AxonError::Upstream(join3(label, " parse: ", detail))
    }
}

/// How errors name a provider.
pub open spec fn provider_label(kind: ProviderKind, streaming: bool) -> Seq<char> {
    match kind {
        ProviderKind::OpenAi => if streaming { "openai stream"@ } else { "openai"@ },
        ProviderKind::Anthropic => if streaming { "anthropic stream"@ } else { "anthropic"@ },
    }
}

/// The system prompt of an Anthropic request: the contents of the `system`
/// messages, in order, joined by newlines (none is put after an empty start).
pub open spec fn system_text(ms: Seq<ChatMessage>) -> Seq<char>
    decreases ms.len(),
{
    if ms.len() == 0 {
        Seq::empty()
    } else {
        let s = system_text(ms.drop_last());
        let m = ms.last();
        if m.role@ == "system"@ {
            if s.len() == 0 {
                m.content@
            } else {
                s + "\n"@ + m.content@
            }
        } else {
            s
        }
    }
}

/// The messages other than `system` ones, in order.
pub open spec fn non_system(ms: Seq<ChatMessage>) -> Seq<ChatMessage>
    decreases ms.len(),
{
    if ms.len() == 0 {
        Seq::empty()
    } else if ms.last().role@ == "system"@ {
        non_system(ms.drop_last())
    } else {
        non_system(ms.drop_last()).push(ms.last())
    }
}

/// The messages sent besides the system prompt hold no `system` message,
/// and every message that is not `system` is among them.
pub proof fn lemma_non_system_keeps_the_rest(ms: Seq<ChatMessage>)
    ensures
        forall|i: int| 0 <= i < non_system(ms).len() ==> (#[trigger] non_system(ms)[i]).role@ != "system"@,
        non_system(ms).len() + count_system(ms) == ms.len(),
    decreases ms.len(),
{
    if ms.len() > 0 {
        lemma_non_system_keeps_the_rest(ms.drop_last());
    }
}

/// How many of the messages are `system` ones.
pub open spec fn count_system(ms: Seq<ChatMessage>) -> nat
    decreases ms.len(),
{
    if ms.len() == 0 {
        0
    } else {
        count_system(ms.drop_last()) + if ms.last().role@ == "system"@ { 1nat } else { 0nat }
    }
}

/// Trimming trailing slashes leaves none, and trimming again changes nothing.
pub proof fn lemma_strip_trailing_idempotent(s: Seq<char>, c: char)
    ensures
        strip_trailing(s, c).len() == 0 || strip_trailing(s, c).last() != c,
        strip_trailing(strip_trailing(s, c), c) == strip_trailing(s, c),
    decreases s.len(),
{
    if s.len() > 0 && s.last() == c {
        lemma_strip_trailing_idempotent(s.drop_last(), c);
    }
}

/// Splits messages for an Anthropic request: the system prompt, and the
/// other messages.
pub fn split_system(messages: Vec<ChatMessage>) -> (r: (String, Vec<ChatMessage>))
    ensures
        r.0@ == system_text(messages@),
        r.1@ == non_system(messages@),
{
    proof {
        reveal_strlit("system");
        reveal_strlit("\n");
    }
    broadcast use vstd::std_specs::vec::axiom_spec_into_iter;
    let ghost all = messages@;
    let mut sys = String::new();
    let mut msgs: Vec<ChatMessage> = Vec::new();
    for m in it: messages.into_iter()
        invariant
            it.seq() == all,
            sys@ == system_text(all.take(it.index() as int)),
            msgs@ == non_system(all.take(it.index() as int)),
    {
        let ghost i = it.index() as int;
        assert(all.take(i + 1).drop_last() =~= all.take(i));
        assert(all.take(i + 1).last() == m);
        if str_eq(m.role.as_str(), "system") {
            if sys.unicode_len() > 0 {
                sys.append("\n");
            }
            sys.append(m.content.as_str());
        } else {
            msgs.push(m);
        }
    }
    let ghost n = all.len();
    assert(all.take(n as int) =~= all);
    (sys, msgs)
}

/// The `max_tokens` of an Anthropic request: the requested one, else 4096.
pub fn anthropic_max_tokens(requested: Option<u32>) -> (n: u32)
    ensures
        n == match requested {
            Some(m) => m,
            None => 4096,
        },
{
    match requested {
        Some(m) => m,
        None => 4096,
    }
}

/// Usage as an OpenAI-compatible answer states it.
#[derive(Debug, Clone, Copy, Default)]
pub struct OpenAiUsage {
    pub prompt_tokens: u32,
    pub completion_tokens: u32,
    pub total_tokens: u32,
    pub cached_tokens: Option<Option<u32>>,
    pub prompt_cache_hit_tokens: Option<u32>,
    pub prompt_cache_miss_tokens: Option<u32>,
    pub reasoning_tokens: Option<Option<u32>>,
}

impl OpenAiUsage {
    /// The usage with the same figures; a details object present in the
    /// answer is kept even where its inner figure is absent.
    pub fn to_token_usage(&self) -> (u: TokenUsage)
        ensures
            u.prompt_tokens == self.prompt_tokens,
            u.completion_tokens == self.completion_tokens,
            u.total_tokens == self.total_tokens,
            u.prompt_tokens_details == match self.cached_tokens {
                Some(c) => Some(PromptTokensDetails { cached_tokens: c }),
                None => None,
            },
            u.prompt_cache_hit_tokens == self.prompt_cache_hit_tokens,
            u.prompt_cache_miss_tokens == self.prompt_cache_miss_tokens,
            u.completion_tokens_details == match self.reasoning_tokens {
                Some(r) => Some(CompletionTokensDetails { reasoning_tokens: r }),
                None => None,
            },
    {
        TokenUsage {
            prompt_tokens: self.prompt_tokens,
            completion_tokens: self.completion_tokens,
            total_tokens: self.total_tokens,
            prompt_tokens_details: match self.cached_tokens {
                Some(c) => Some(PromptTokensDetails { cached_tokens: c }),
                None => None,
            },
            prompt_cache_hit_tokens: self.prompt_cache_hit_tokens,
            prompt_cache_miss_tokens: self.prompt_cache_miss_tokens,
            completion_tokens_details: match self.reasoning_tokens {
                Some(r) => Some(CompletionTokensDetails { reasoning_tokens: r }),
                None => None,
            },
        }
    }
}

/// One choice of a complete OpenAI-compatible answer.
#[derive(Debug, Clone)]
pub struct OpenAiReplyChoice {
    pub content: Option<String>,
    pub tool_calls: Option<Vec<ToolCall>>,
    pub finish_reason: Option<String>,
}

/// A complete OpenAI-compatible answer.
#[derive(Debug, Clone)]
pub struct OpenAiReply {
    pub choices: Vec<OpenAiReplyChoice>,
    pub usage: OpenAiUsage,
    pub model: String,
}

/// The response of a complete OpenAI-compatible answer: its first choice,
/// or an upstream error when it has none.
pub fn openai_chat_response(reply: OpenAiReply) -> (r: Result<ChatResponse, AxonError>)
    ensures
        reply.choices@.len() == 0 <==> r is Err,
        r matches Err(AxonError::Upstream(m)) ==> m@ == "openai: no choices in response"@,
        r is Err ==> r matches Err(AxonError::Upstream(_)),
        r matches Ok(resp) ==> {
            let c = reply.choices@[0];
            &&& resp.content@ == match c.content {
                Some(t) => t@,
                None => Seq::<char>::empty(),
            }
            &&& resp.tool_calls@ == match c.tool_calls {
                Some(v) => v@,
                None => Seq::<ToolCall>::empty(),
            }
            &&& resp.model == reply.model
            &&& resp.finish_reason == c.finish_reason
            &&& resp.usage.prompt_tokens == reply.usage.prompt_tokens
            &&& resp.usage.completion_tokens == reply.usage.completion_tokens
            &&& resp.usage.total_tokens == reply.usage.total_tokens
            &&& resp.usage.prompt_cache_hit_tokens == reply.usage.prompt_cache_hit_tokens
            &&& resp.usage.prompt_cache_miss_tokens == reply.usage.prompt_cache_miss_tokens
        },
{
    let usage = reply.usage.to_token_usage();
    let model = reply.model;
    let mut choices = reply.choices;
    if choices.len() == 0 {
        return Err(AxonError::Upstream(String::from_str("openai: no choices in response")));
    }
    let ghost first = choices@[0];
    let c = choices.swap_remove(0);
    assert(c == first);
    let content = match c.content {
        Some(t) => t,
        None => String::new(),
    };
    let tool_calls = match c.tool_calls {
        Some(v) => v,
        None => Vec::new(),
    };
    Ok(ChatResponse { content, tool_calls, usage, model, finish_reason: c.finish_reason })
}

/// A content block of a complete Anthropic answer; a tool use carries its
/// input already rendered as JSON text.
#[derive(Debug, Clone)]
pub enum AnthropicBlock {
    Text { text: String },
    ToolUse { id: String, name: String, arguments: String },
}

/// The text of the answer: the text blocks, concatenated.
pub open spec fn blocks_text(bs: Seq<AnthropicBlock>) -> Seq<char>
    decreases bs.len(),
{
    if bs.len() == 0 {
        Seq::empty()
    } else {
        match bs.last() {
            AnthropicBlock::Text { text } => blocks_text(bs.drop_last()) + text@,
            _ => blocks_text(bs.drop_last()),
        }
    }
}

/// The tool calls of the answer: one `function` call per tool use, in order.
pub open spec fn blocks_calls(bs: Seq<AnthropicBlock>) -> Seq<(Seq<char>, Seq<char>, Seq<char>)>
    decreases bs.len(),
{
    if bs.len() == 0 {
        Seq::empty()
    } else {
        match bs.last() {
            AnthropicBlock::ToolUse { id, name, arguments } => blocks_calls(bs.drop_last()).push(
                (id@, name@, arguments@),
            ),
            _ => blocks_calls(bs.drop_last()),
        }
    }
}

/// The response of a complete Anthropic answer: the text blocks joined, a
/// `function` call per tool use, and the total as input plus output tokens.
pub fn anthropic_chat_response(
    blocks: Vec<AnthropicBlock>,
    input_tokens: u32,
    output_tokens: u32,
    model: String,
    stop_reason: Option<String>,
) -> (r: ChatResponse)
    requires
        input_tokens + output_tokens <= u32::MAX,
    ensures
        r.content@ == blocks_text(blocks@),
        r.tool_calls@.len() == blocks_calls(blocks@).len(),
        forall|i: int| 0 <= i < r.tool_calls@.len() ==> {
            let c = #[trigger] r.tool_calls@[i];
            let b = blocks_calls(blocks@)[i];
            c.id@ == b.0 && c.call_type@ == "function"@ && c.function.name@ == b.1 && c.function.arguments@ == b.2
        },
        r.usage == (TokenUsage {
            prompt_tokens: input_tokens,
            completion_tokens: output_tokens,
            total_tokens: (input_tokens + output_tokens) as u32,
            ..TokenUsage::zero()
        }),
        r.model == model,
        r.finish_reason == stop_reason,
{
    broadcast use vstd::std_specs::vec::axiom_spec_into_iter;
    let ghost all = blocks@;
    let mut content = String::new();
    let mut tool_calls: Vec<ToolCall> = Vec::new();
    for b in it: blocks.into_iter()
        invariant
            it.seq() == all,
            content@ == blocks_text(all.take(it.index() as int)),
            tool_calls@.len() == blocks_calls(all.take(it.index() as int)).len(),
            forall|k: int| 0 <= k < tool_calls@.len() ==> {
                let c = #[trigger] tool_calls@[k];
                let b = blocks_calls(all.take(it.index() as int))[k];
                c.id@ == b.0 && c.call_type@ == "function"@ && c.function.name@ == b.1 && c.function.arguments@ == b.2
            },
    {
        let ghost i = it.index() as int;
        assert(all.take(i + 1).drop_last() =~= all.take(i));
        assert(all.take(i + 1).last() == b);
        match b {
            AnthropicBlock::Text { text } => {
                content.append(text.as_str());
            },
            AnthropicBlock::ToolUse { id, name, arguments } => {
                tool_calls.push(ToolCall::function_call(id, name, arguments));
            },
        }
    }
    let ghost n = all.len();
    assert(all.take(n as int) =~= all);
    ChatResponse {
        content,
        tool_calls,
        usage: TokenUsage::counts(input_tokens, output_tokens, input_tokens + output_tokens),
        model,
        finish_reason: stop_reason,
    }
}

} // verus!
