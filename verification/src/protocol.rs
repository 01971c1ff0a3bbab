//! The HTTP API's request and response bodies, and how they are made from
//! the platform's records.

use vstd::prelude::*;
use crate::error::{error_text, join2, join3, AxonError};
use crate::rate_store::RateLimitError;
use crate::text::{decimal, u64_to_decimal};
use crate::models::{
    copy_opt_calls, copy_opt_string, copy_strings, opt_calls, opt_str, strings_view, AgentDefinition, TokenUsage,
    ToolCall,
};
use crate::runtime::{records_view, InvokeResult, RecordView};
use crate::store::{Conversation, MessageRecord, ModelUsage, UsageStats};

verus! {

#[derive(Debug, Clone)]
pub struct InvokeAgentRequest {
    pub input: String,
    pub conversation_id: Option<String>,
    pub stream: bool,
}

/// A tool call of an invocation, as the API shows it.
#[derive(Debug, Clone)]
pub struct ToolCallRecord {
    pub id: String,
    pub name: String,
    pub arguments: String,
    pub result: String,
    pub tool_call_id: String,
}

#[derive(Debug, Clone)]
pub struct InvokeAgentResponse {
    pub output: String,
    pub conversation_id: String,
    pub usage: TokenUsage,
    pub iterations: u32,
    pub tool_calls: Vec<ToolCallRecord>,
}

pub open spec fn api_records_view(v: Seq<ToolCallRecord>) -> Seq<RecordView> {
    v.map_values(|r: ToolCallRecord| (r.id@, r.name@, r.arguments@, r.result@, r.tool_call_id@))
}

impl InvokeAgentResponse {
    /// The response for a completed invocation: the same fields and records.
    pub fn from_result(r: InvokeResult) -> (resp: InvokeAgentResponse)
        ensures
            resp.output == r.output,
            resp.conversation_id == r.conversation_id,
            resp.usage == r.usage,
            resp.iterations == r.iterations,
            api_records_view(resp.tool_calls@) == records_view(r.tool_calls@),
    {
        broadcast use vstd::std_specs::vec::axiom_spec_into_iter;
        let ghost all = r.tool_calls@;
        let mut calls: Vec<ToolCallRecord> = Vec::new();
        for t in it: r.tool_calls.into_iter()
            invariant
                it.seq() == all,
                calls@.len() == it.index(),
                forall|k: int| 0 <= k < calls@.len() ==> api_records_view(calls@)[k] == records_view(all)[k],
        {
            let ghost before = calls@;
            let ghost i = it.index() as int;
            let rec = ToolCallRecord {
                id: t.id,
                name: t.name,
                arguments: t.arguments,
                result: t.result,
                tool_call_id: t.tool_call_id,
            };
            calls.push(rec);
            assert forall|k: int| 0 <= k < calls@.len() implies api_records_view(calls@)[k] == records_view(all)[k] by {
                if k < i {
                    assert(api_records_view(before)[k] == records_view(all)[k]);
                }
            }
        }
        assert(api_records_view(calls@) =~= records_view(all));
        InvokeAgentResponse {
            output: r.output,
            conversation_id: r.conversation_id,
            usage: r.usage,
            iterations: r.iterations,
            tool_calls: calls,
        }
    }
}

/// What the API shows of an agent.
#[derive(Debug, Clone)]
pub struct AgentInfo {
    pub id: String,
    pub name: String,
    pub description: String,
    pub model: String,
    pub tools: Vec<String>,
    pub max_iterations: u32,
}

impl AgentInfo {
    pub fn from_definition(def: &AgentDefinition) -> (a: AgentInfo)
        ensures
            a.id@ == def.id@,
            a.name@ == def.name@,
            a.description@ == def.description@,
            a.model@ == def.model@,
            strings_view(a.tools@) == strings_view(def.tools@),
            a.max_iterations == def.max_iterations,
    {
        AgentInfo {
            id: def.id.clone(),
            name: def.name.clone(),
            description: def.description.clone(),
            model: def.model.clone(),
            tools: copy_strings(&def.tools),
            max_iterations: def.max_iterations,
        }
    }
}

#[derive(Debug, Clone)]
pub struct CreateConversationRequest {
    pub agent_id: String,
    pub title: Option<String>,
}

#[derive(Debug, Clone)]
pub struct ConversationResponse {
    pub id: String,
    pub agent_id: String,
    pub title: Option<String>,
    pub created_at: i64,
    pub updated_at: i64,
}

impl ConversationResponse {
    pub fn from_conv(c: &Conversation) -> (r: ConversationResponse)
        ensures
            r.id@ == c.id@,
            r.agent_id@ == c.agent_id@,
            opt_str(r.title) == opt_str(c.title),
            r.created_at == c.created_at,
            r.updated_at == c.updated_at,
    {
        ConversationResponse {
            id: c.id.clone(),
            agent_id: c.agent_id.clone(),
            title: copy_opt_string(&c.title),
            created_at: c.created_at,
            updated_at: c.updated_at,
        }
    }
}

#[derive(Debug, Clone)]
pub struct MessageResponse {
    pub id: String,
    pub role: String,
    pub content: String,
    pub tool_calls: Option<Vec<ToolCall>>,
    pub tool_call_id: Option<String>,
    pub model: Option<String>,
    pub usage: Option<TokenUsage>,
    pub created_at: i64,
}

impl MessageResponse {
    pub fn from_record(r: &MessageRecord) -> (m: MessageResponse)
        ensures
            m.id@ == r.id@,
            m.role@ == r.role@,
            m.content@ == r.content@,
            opt_calls(m.tool_calls) == opt_calls(r.tool_calls),
            opt_str(m.tool_call_id) == opt_str(r.tool_call_id),
            opt_str(m.model) == opt_str(r.model),
            m.usage == r.usage,
            m.created_at == r.created_at,
    {
        MessageResponse {
            id: r.id.clone(),
            role: r.role.clone(),
            content: r.content.clone(),
            tool_calls: copy_opt_calls(&r.tool_calls),
            tool_call_id: copy_opt_string(&r.tool_call_id),
            model: copy_opt_string(&r.model),
            usage: r.usage,
            created_at: r.created_at,
        }
    }
}

#[derive(Debug, Clone)]
pub struct HealthResponse {
    pub status: String,
    pub version: String,
}

#[derive(Debug, Clone)]
pub struct StatusResponse {
    pub status: String,
    pub version: String,
    pub uptime_secs: u64,
    pub models: usize,
    pub agents: usize,
    pub routes: usize,
}

#[derive(Debug, Clone)]
pub struct UsageStatsResponse {
    pub total_requests: u64,
    pub total_tokens: u64,
    pub total_duration_ms: u64,
    pub by_model: Vec<ModelUsageResponse>,
}

#[derive(Debug, Clone)]
pub struct ModelUsageResponse {
    pub model: String,
    pub requests: i64,
    pub tokens: i64,
}

pub open spec fn model_usage_view(v: Seq<ModelUsage>) -> Seq<(Seq<char>, i64, i64)> {
    v.map_values(|m: ModelUsage| (m.model@, m.requests, m.tokens))
}

pub open spec fn model_usage_response_view(v: Seq<ModelUsageResponse>) -> Seq<(Seq<char>, i64, i64)> {
    v.map_values(|m: ModelUsageResponse| (m.model@, m.requests, m.tokens))
}

impl UsageStatsResponse {
    pub fn from_stats(s: &UsageStats) -> (r: UsageStatsResponse)
        ensures
            r.total_requests == s.total_requests,
            r.total_tokens == s.total_tokens,
            r.total_duration_ms == s.total_duration_ms,
            model_usage_response_view(r.by_model@) == model_usage_view(s.by_model@),
    {
        let mut by_model: Vec<ModelUsageResponse> = Vec::new();
        let n = s.by_model.len();
        let mut i: usize = 0;
        while i < n
            invariant
                n == s.by_model@.len(),
                0 <= i <= n,
                by_model@.len() == i,
                forall|k: int| 0 <= k < i ==> {
                    &&& (#[trigger] by_model@[k]).model@ == s.by_model@[k].model@
                    &&& by_model@[k].requests == s.by_model@[k].requests
                    &&& by_model@[k].tokens == s.by_model@[k].tokens
                },
            decreases n - i,
        {
            let m = &s.by_model[i];
            by_model.push(ModelUsageResponse { model: m.model.clone(), requests: m.requests, tokens: m.tokens });
            i = i + 1;
        }
        assert(model_usage_response_view(by_model@) =~= model_usage_view(s.by_model@));
        UsageStatsResponse {
            total_requests: s.total_requests,
            total_tokens: s.total_tokens,
            total_duration_ms: s.total_duration_ms,
            by_model,
        }
    }
}

#[derive(Debug, Clone)]
pub struct ErrorDetail {
    pub message: String,
    pub code: Option<String>,
}

/// Why a rate limit refused a request.
pub open spec fn refusal_reason(e: RateLimitError) -> Seq<char> {
    match e {
        RateLimitError::Concurrency => "too many concurrent requests"@,
        RateLimitError::Requests { retry_after_secs, .. } => "too many requests, retry after "@ + decimal(
            retry_after_secs as nat,
        ) + "s"@,
        RateLimitError::Tokens { retry_after_secs, .. } => "too many tokens, retry after "@ + decimal(
            retry_after_secs as nat,
        ) + "s"@,
    }
}

#[derive(Debug, Clone)]
pub struct ErrorResponse {
    pub error: ErrorDetail,
}

impl ErrorResponse {
    /// The body of a failed request: the error's text and no code.
    pub fn internal(e: &AxonError) -> (r: ErrorResponse)
        ensures
            r.error.message@ == error_text(*e),
            r.error.code is None,
    {
        ErrorResponse { error: ErrorDetail { message: e.to_display_string(), code: None } }
    }

    /// The body for a request that a model's rate limit refused, code
    /// `rate_limited`.
    pub fn rate_limited(model: &str, e: &RateLimitError) -> (r: ErrorResponse)
        ensures
            r.error.message@ == "rate limit exceeded for model '"@ + model@ + "': "@ + refusal_reason(*e),
            opt_str(r.error.code) == Some("rate_limited"@),
    {
        let reason = match e {
            RateLimitError::Concurrency => String::from_str("too many concurrent requests"),
            RateLimitError::Requests { retry_after_secs, .. } => {
                let head = join2("too many requests, retry after ", u64_to_decimal(*retry_after_secs).as_str());
                join2(head.as_str(), "s")
            },
            RateLimitError::Tokens { retry_after_secs, .. } => {
                let head = join2("too many tokens, retry after ", u64_to_decimal(*retry_after_secs).as_str());
                join2(head.as_str(), "s")
            },
        };
        let head = join3("rate limit exceeded for model '", model, "': ");
        ErrorResponse {
            error: ErrorDetail {
                message: join2(head.as_str(), reason.as_str()),
                code: Some(String::from_str("rate_limited")),
            },
        }
    }

    /// The body for a missing object: `<what> '<id>' not found`, code `not_found`.
    pub fn not_found(what: &str, id: &str) -> (r: ErrorResponse)
        ensures
            r.error.message@ == what@ + " '"@ + id@ + "' not found"@,
            opt_str(r.error.code) == Some("not_found"@),
    {
        let head = join3(what, " '", id);
        let message = join2(head.as_str(), "' not found");
        ErrorResponse {
            error: ErrorDetail {
                message,
                code: Some(String::from_str("not_found")),
            },
        }
    }
}

} // verus!
