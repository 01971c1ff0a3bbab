//! The records the platform keeps: conversations, their messages, usage
//! records and memory entries, and the values made for new ones.
//!
//! Reading and writing them in the database belongs to the caller.

use vstd::prelude::*;
use crate::clock::utc_now_secs;
use crate::models::{opt_str, TokenUsage, ToolCall};

verus! {

/// A fresh random identifier in UUID hyphenated form.
/// Trusted: `uuid::Uuid::new_v4` rendered by `to_string`; the value is
/// random, so nothing is claimed of it.
#[verifier::external_body]
pub(crate) fn random_uuid() -> String {
    uuid::Uuid::new_v4().to_string()
}

#[derive(Debug, Clone)]
pub struct Conversation {
    pub id: String,
    pub agent_id: String,
    pub title: Option<String>,
    pub created_at: i64,
    pub updated_at: i64,
}

impl Conversation {
    /// A new conversation of an agent: a fresh random id, and the current
    /// time as both creation and update time.
    pub fn create(agent_id: &str, title: Option<&str>) -> (c: Conversation)
        ensures
            c.agent_id@ == agent_id@,
            opt_str(c.title) == match title {
                Some(t) => Some(t@),
                None => None::<Seq<char>>,
            },
            c.created_at == c.updated_at,
    {
        let now = utc_now_secs();
        Conversation {
            id: random_uuid(),
            agent_id: String::from_str(agent_id),
            title: match title {
                Some(t) => Some(String::from_str(t)),
                None => None,
            },
            created_at: now,
            updated_at: now,
        }
    }
}

/// One message of a conversation.
#[derive(Debug, Clone)]
pub struct MessageRecord {
    pub id: String,
    pub conversation_id: String,
    pub parent_id: Option<String>,
    pub role: String,
    pub content: String,
    pub tool_calls: Option<Vec<ToolCall>>,
    pub tool_call_id: Option<String>,
    pub model: Option<String>,
    pub usage: Option<TokenUsage>,
    pub created_at: i64,
}

impl MessageRecord {
    /// A plain message with a fresh random id, stamped with the current time.
    pub fn new(conversation_id: &str, parent_id: Option<&str>, role: &str, content: &str) -> (m: MessageRecord)
        ensures
            m.conversation_id@ == conversation_id@,
            opt_str(m.parent_id) == match parent_id {
                Some(p) => Some(p@),
                None => None::<Seq<char>>,
            },
            m.role@ == role@,
            m.content@ == content@,
            m.tool_calls is None,
            m.tool_call_id is None,
            m.model is None,
            m.usage is None,
    {
        MessageRecord {
            id: random_uuid(),
            conversation_id: String::from_str(conversation_id),
            parent_id: match parent_id {
                Some(p) => Some(String::from_str(p)),
                None => None,
            },
            role: String::from_str(role),
            content: String::from_str(content),
            tool_calls: None,
            tool_call_id: None,
            model: None,
            usage: None,
            created_at: utc_now_secs(),
        }
    }
}

/// The token usage of one agent run.
#[derive(Debug, Clone)]
pub struct UsageRecord {
    pub conversation_id: Option<String>,
    pub agent_id: Option<String>,
    pub model: Option<String>,
    pub prompt_tokens: u32,
    pub completion_tokens: u32,
    pub total_tokens: u32,
    pub duration_ms: u64,
    pub timestamp: i64,
}

/// Usage totals over all records.
#[derive(Debug, Clone)]
pub struct UsageStats {
    pub total_requests: u64,
    pub total_tokens: u64,
    pub total_duration_ms: u64,
    pub by_model: Vec<ModelUsage>,
}

/// Usage totals of one model.
#[derive(Debug, Clone)]
pub struct ModelUsage {
    pub model: String,
    pub requests: i64,
    pub tokens: i64,
}

impl ModelUsage {
    /// The totals of one model as the database groups them; records without
    /// a model are grouped under the empty name.
    pub fn from_row(model: Option<String>, requests: i64, tokens: i64) -> (u: ModelUsage)
        ensures
            u.model@ == match model {
                Some(m) => m@,
                None => Seq::<char>::empty(),
            },
            u.requests == requests,
            u.tokens == tokens,
    {
        ModelUsage {
            model: match model {
                Some(m) => m,
                None => String::new(),
            },
            requests,
            tokens,
        }
    }
}

impl UsageStats {
    /// The totals as the database sums them (signed), taken as unsigned
    /// numbers the way `as u64` takes them.
    pub fn from_totals(total_requests: i64, total_tokens: i64, total_duration_ms: i64, by_model: Vec<ModelUsage>) -> (s: UsageStats)
        ensures
            s.total_requests == total_requests as u64,
            s.total_tokens == total_tokens as u64,
            s.total_duration_ms == total_duration_ms as u64,
            s.by_model == by_model,
    {
        UsageStats {
            total_requests: total_requests as u64,
            total_tokens: total_tokens as u64,
            total_duration_ms: total_duration_ms as u64,
            by_model,
        }
    }
}

/// A value kept in the memory store.
#[derive(Debug, Clone)]
pub struct MemoryEntry {
    pub key: String,
    pub value: String,
    pub updated_at: i64,
}

} // verus!
