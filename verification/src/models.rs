//! Resource models: agents, models, routes, tools, chat messages, usage.

use vstd::prelude::*;
use crate::error::join2;

verus! {

/// An agent as configured. Sampling temperature and free-form metadata are
/// carried by the application layer.
#[derive(Debug, Clone)]
pub struct AgentDefinition {
    pub id: String,
    pub name: String,
    pub description: String,
    pub system_prompt: String,
    pub model: String,
    pub tools: Vec<String>,
    pub max_iterations: u32,
    pub max_tokens: Option<u32>,
}

/// The number of LLM/tool rounds an agent gets when it names none.
pub fn default_max_iterations() -> (n: u32)
    ensures
        n == 1,
{
    1
}

/// Limits of one rate-limited key; `None` disables a dimension.
#[derive(Debug, Clone, Copy)]
pub struct RateLimitConfig {
    pub rps: Option<u64>,
    pub rpm: Option<u64>,
    pub rph: Option<u64>,
    pub rpd: Option<u64>,
    pub tpm: Option<u64>,
    pub tpd: Option<u64>,
    pub concurrency: Option<u32>,
}

impl RateLimitConfig {
    pub open spec fn unlimited() -> RateLimitConfig {
        RateLimitConfig {
            rps: None,
            rpm: None,
            rph: None,
            rpd: None,
            tpm: None,
            tpd: None,
            concurrency: None,
        }
    }
}

impl Default for RateLimitConfig {
    fn default() -> (c: Self)
        ensures
            c == RateLimitConfig::unlimited(),
    {
        RateLimitConfig {
            rps: None,
            rpm: None,
            rph: None,
            rpd: None,
            tpm: None,
            tpd: None,
            concurrency: None,
        }
    }
}

/// A concrete upstream model.
#[derive(Debug, Clone)]
pub struct ModelDefinition {
    pub name: String,
    pub provider: String,
    pub model_name: String,
    pub api_key: Option<String>,
    pub api_key_env: Option<String>,
    pub api_base: Option<String>,
    pub max_concurrency: Option<u32>,
    pub rate_limit: Option<RateLimitConfig>,
}

/// The base URL used for a provider when the model names none.
pub open spec fn provider_default_base(provider: Seq<char>) -> Seq<char> {
    if provider == "anthropic"@ {
        "https://api.anthropic.com"@
    } else if provider == "vertex"@ {
        "https://generativelanguage.googleapis.com/v1beta"@
    } else {
        "https://api.openai.com/v1"@
    }
}

impl ModelDefinition {
    /// The base URL requests go to: the configured one, else the provider's default.
    pub fn resolve_api_base(&self) -> (s: String)
        ensures
            s@ == match self.api_base {
                Some(b) => b@,
                None => provider_default_base(self.provider@),
            },
    {
        if let Some(base) = &self.api_base {
            return base.clone();
        }
        let p = self.provider.as_str();
        proof {
            reveal_strlit("openai");
            reveal_strlit("anthropic");
            reveal_strlit("vertex");
            assert("openai"@[0] != "vertex"@[0]);
            assert("openai"@.len() != "anthropic"@.len());
        }
        if crate::text::str_eq(p, "openai") {
            String::from_str("https://api.openai.com/v1")
        } else if crate::text::str_eq(p, "anthropic") {
            String::from_str("https://api.anthropic.com")
        } else if crate::text::str_eq(p, "vertex") {
            String::from_str("https://generativelanguage.googleapis.com/v1beta")
        } else {
            String::from_str("https://api.openai.com/v1")
        }
    }

    /// The API key: the configured one, else the value of the environment
    /// variable named by `api_key_env`, looked up by the caller and handed in
    /// as `env_value` (`None` when unset or when no variable is named).
    pub fn resolve_api_key_with(&self, env_value: Option<String>) -> (k: Option<String>)
        ensures
            k == match self.api_key {
                Some(key) => Some(key),
                None => match self.api_key_env {
                    Some(_) => env_value,
                    None => None,
                },
            },
    {
        if let Some(key) = &self.api_key {
            return Some(key.clone());
        }
        if self.api_key_env.is_some() {
            return env_value;
        }
        None
    }
}

/// A named route over several target models.
#[derive(Debug, Clone)]
pub struct RouteDefinition {
    pub name: String,
    pub strategy: String,
    pub targets: Vec<RouteTarget>,
}

/// The routing strategy of a route that names none.
pub fn default_strategy() -> (s: String)
    ensures
        s@ == "failover"@,
{
    String::from_str("failover")
}

#[derive(Debug, Clone)]
pub struct RouteTarget {
    pub model: String,
    pub weight: u32,
    pub tags: Vec<String>,
}

/// The weight of a route target that names none.
pub fn default_weight() -> (w: u32)
    ensures
        w == 1,
{
    1
}

/// A route target as text.
pub struct RouteTargetView {
    pub model: Seq<char>,
    pub weight: u32,
    pub tags: Seq<Seq<char>>,
}

/// A route as text.
pub struct RouteView {
    pub name: Seq<char>,
    pub strategy: Seq<char>,
    pub targets: Seq<RouteTargetView>,
}

pub open spec fn strings_view(v: Seq<String>) -> Seq<Seq<char>> {
    v.map_values(|t: String| t@)
}

pub open spec fn targets_view(v: Seq<RouteTarget>) -> Seq<RouteTargetView> {
    v.map_values(|t: RouteTarget| t@)
}

impl View for RouteTarget {
    type V = RouteTargetView;

    open spec fn view(&self) -> RouteTargetView {
        RouteTargetView { model: self.model@, weight: self.weight, tags: strings_view(self.tags@) }
    }
}

impl View for RouteDefinition {
    type V = RouteView;

    open spec fn view(&self) -> RouteView {
        RouteView {
            name: self.name@,
            strategy: self.strategy@,
            targets: targets_view(self.targets@),
        }
    }
}

/// A copy of a list of strings.
pub fn copy_strings(v: &Vec<String>) -> (r: Vec<String>)
    ensures
        strings_view(r@) == strings_view(v@),
{
    let mut r: Vec<String> = Vec::new();
    let n = v.len();
    let mut i: usize = 0;
    while i < n
        invariant
            n == v@.len(),
            0 <= i <= n,
            r@.len() == i,
            forall|k: int| 0 <= k < i ==> (#[trigger] r@[k])@ == v@[k]@,
        decreases n - i,
    {
        r.push(v[i].clone());
        i = i + 1;
    }
    assert(strings_view(r@) =~= strings_view(v@));
    r
}

impl RouteDefinition {
    /// A copy with the same name, strategy and targets.
    pub fn duplicate(&self) -> (r: RouteDefinition)
        ensures
            r@ == self@,
    {
        let mut targets: Vec<RouteTarget> = Vec::new();
        let n = self.targets.len();
        let mut i: usize = 0;
        while i < n
            invariant
                n == self.targets@.len(),
                0 <= i <= n,
                targets@.len() == i,
                forall|k: int| 0 <= k < i ==> (#[trigger] targets@[k])@ == self.targets@[k]@,
            decreases n - i,
        {
            let t = &self.targets[i];
            targets.push(RouteTarget { model: t.model.clone(), weight: t.weight, tags: copy_strings(&t.tags) });
            i = i + 1;
        }
        assert(targets_view(targets@) =~= targets_view(self.targets@));
        RouteDefinition { name: self.name.clone(), strategy: self.strategy.clone(), targets }
    }
}

/// The settings a built-in tool reads from its configuration, as plain values.
#[derive(Debug, Clone)]
pub struct ToolConfig {
    pub max_results: Option<u64>,
    pub timeout_ms: Option<u64>,
    pub allowed_commands: Option<Vec<String>>,
    pub namespace: Option<String>,
    pub max_response_chars: Option<u64>,
    pub max_output_chars: Option<u64>,
    pub allowed_languages: Option<Vec<String>>,
}

#[derive(Debug, Clone)]
pub struct ToolDefinition {
    pub name: String,
    pub kind: String,
    pub config: ToolConfig,
}

/// A chat message in the OpenAI shape.
#[derive(Debug, Clone)]
pub struct ChatMessage {
    pub role: String,
    pub content: String,
    pub tool_calls: Option<Vec<ToolCall>>,
    pub tool_call_id: Option<String>,
    pub name: Option<String>,
}

impl ChatMessage {
    pub open spec fn plain(role: Seq<char>, content: Seq<char>, m: ChatMessage) -> bool {
        &&& m.role@ == role
        &&& m.content@ == content
        &&& m.tool_calls is None
        &&& m.tool_call_id is None
        &&& m.name is None
    }

    pub fn system(content: &str) -> (m: ChatMessage)
        ensures
            ChatMessage::plain("system"@, content@, m),
    {
        ChatMessage {
            role: String::from_str("system"),
            content: String::from_str(content),
            tool_calls: None,
            tool_call_id: None,
            name: None,
        }
    }

    pub fn user(content: &str) -> (m: ChatMessage)
        ensures
            ChatMessage::plain("user"@, content@, m),
    {
        ChatMessage {
            role: String::from_str("user"),
            content: String::from_str(content),
            tool_calls: None,
            tool_call_id: None,
            name: None,
        }
    }

    pub fn assistant(content: &str) -> (m: ChatMessage)
        ensures
            ChatMessage::plain("assistant"@, content@, m),
    {
        ChatMessage {
            role: String::from_str("assistant"),
            content: String::from_str(content),
            tool_calls: None,
            tool_call_id: None,
            name: None,
        }
    }

    /// A tool result answering the call `tool_call_id`.
    pub fn tool(content: &str, tool_call_id: &str) -> (m: ChatMessage)
        ensures
            m.role@ == "tool"@,
            m.content@ == content@,
            m.tool_calls is None,
            m.tool_call_id matches Some(id) && id@ == tool_call_id@,
            m.name is None,
    {
        ChatMessage {
            role: String::from_str("tool"),
            content: String::from_str(content),
            tool_calls: None,
            tool_call_id: Some(String::from_str(tool_call_id)),
            name: None,
        }
    }
}

/// A function call requested by the model.
#[derive(Debug, Clone)]
pub struct ToolCall {
    pub id: String,
    pub call_type: String,
    pub function: ToolCallFunction,
}

#[derive(Debug, Clone)]
pub struct ToolCallFunction {
    pub name: String,
    pub arguments: String,
}

/// A tool call as text.
pub struct ToolCallView {
    pub id: Seq<char>,
    pub call_type: Seq<char>,
    pub name: Seq<char>,
    pub arguments: Seq<char>,
}

impl View for ToolCall {
    type V = ToolCallView;

    open spec fn view(&self) -> ToolCallView {
        ToolCallView {
            id: self.id@,
            call_type: self.call_type@,
            name: self.function.name@,
            arguments: self.function.arguments@,
        }
    }
}

impl ToolCall {
    /// A call of type `function`.
    pub fn function_call(id: String, name: String, arguments: String) -> (c: ToolCall)
        ensures
            c.id == id,
            c.call_type@ == "function"@,
            c.function.name == name,
            c.function.arguments == arguments,
    {
        ToolCall { id, call_type: String::from_str("function"), function: ToolCallFunction { name, arguments } }
    }
}

pub open spec fn calls_view(v: Seq<ToolCall>) -> Seq<ToolCallView> {
    v.map_values(|c: ToolCall| c@)
}

impl ToolCall {
    /// A copy with the same id, type, name and arguments.
    pub fn duplicate(&self) -> (c: ToolCall)
        ensures
            c@ == self@,
    {
        ToolCall {
            id: self.id.clone(),
            call_type: self.call_type.clone(),
            function: ToolCallFunction { name: self.function.name.clone(), arguments: self.function.arguments.clone() },
        }
    }
}

/// A copy of a list of tool calls.
pub fn copy_tool_calls(v: &Vec<ToolCall>) -> (r: Vec<ToolCall>)
    ensures
        calls_view(r@) == calls_view(v@),
{
    let mut r: Vec<ToolCall> = Vec::new();
    let n = v.len();
    let mut i: usize = 0;
    while i < n
        invariant
            n == v@.len(),
            0 <= i <= n,
            r@.len() == i,
            forall|k: int| 0 <= k < i ==> (#[trigger] r@[k])@ == v@[k]@,
        decreases n - i,
    {
        r.push(v[i].duplicate());
        i = i + 1;
    }
    assert(calls_view(r@) =~= calls_view(v@));
    r
}

/// A chat message as text.
pub struct ChatMessageView {
    pub role: Seq<char>,
    pub content: Seq<char>,
    pub tool_calls: Option<Seq<ToolCallView>>,
    pub tool_call_id: Option<Seq<char>>,
    pub name: Option<Seq<char>>,
}

pub open spec fn opt_str(o: Option<String>) -> Option<Seq<char>> {
    match o {
        Some(s) => Some(s@),
        None => None,
    }
}

pub open spec fn opt_calls(o: Option<Vec<ToolCall>>) -> Option<Seq<ToolCallView>> {
    match o {
        Some(v) => Some(calls_view(v@)),
        None => None,
    }
}

/// A copy of an optional string.
pub fn copy_opt_string(o: &Option<String>) -> (r: Option<String>)
    ensures
        opt_str(r) == opt_str(*o),
{
    match o {
        Some(s) => Some(s.clone()),
        None => None,
    }
}

/// A copy of an optional list of tool calls.
pub fn copy_opt_calls(o: &Option<Vec<ToolCall>>) -> (r: Option<Vec<ToolCall>>)
    ensures
        opt_calls(r) == opt_calls(*o),
{
    match o {
        Some(v) => Some(copy_tool_calls(v)),
        None => None,
    }
}

impl View for ChatMessage {
    type V = ChatMessageView;

    open spec fn view(&self) -> ChatMessageView {
        ChatMessageView {
            role: self.role@,
            content: self.content@,
            tool_calls: opt_calls(self.tool_calls),
            tool_call_id: opt_str(self.tool_call_id),
            name: opt_str(self.name),
        }
    }
}

pub open spec fn messages_view(v: Seq<ChatMessage>) -> Seq<ChatMessageView> {
    v.map_values(|m: ChatMessage| m@)
}

#[derive(Debug, Clone, Copy, PartialEq, Eq, Structural)]
pub struct PromptTokensDetails {
    pub cached_tokens: Option<u32>,
}

#[derive(Debug, Clone, Copy, PartialEq, Eq, Structural)]
pub struct CompletionTokensDetails {
    pub reasoning_tokens: Option<u32>,
}

/// Token counts of one or more model calls.
#[derive(Debug, Clone, Copy, PartialEq, Eq, Structural)]
pub struct TokenUsage {
    pub prompt_tokens: u32,
    pub completion_tokens: u32,
    pub total_tokens: u32,
    pub prompt_tokens_details: Option<PromptTokensDetails>,
    pub prompt_cache_hit_tokens: Option<u32>,
    pub prompt_cache_miss_tokens: Option<u32>,
    pub completion_tokens_details: Option<CompletionTokensDetails>,
}

impl TokenUsage {
    pub open spec fn zero() -> TokenUsage {
        TokenUsage {
            prompt_tokens: 0,
            completion_tokens: 0,
            total_tokens: 0,
            prompt_tokens_details: None,
            prompt_cache_hit_tokens: None,
            prompt_cache_miss_tokens: None,
            completion_tokens_details: None,
        }
    }

    /// Counts with only the three totals set.
    pub fn counts(prompt_tokens: u32, completion_tokens: u32, total_tokens: u32) -> (u: TokenUsage)
        ensures
            u == (TokenUsage { prompt_tokens, completion_tokens, total_tokens, ..TokenUsage::zero() }),
    {
        TokenUsage {
            prompt_tokens,
            completion_tokens,
            total_tokens,
            prompt_tokens_details: None,
            prompt_cache_hit_tokens: None,
            prompt_cache_miss_tokens: None,
            completion_tokens_details: None,
        }
    }
}

impl Default for TokenUsage {
    fn default() -> (u: Self)
        ensures
            u == TokenUsage::zero(),
    {
        TokenUsage::counts(0, 0, 0)
    }
}

} // verus!
