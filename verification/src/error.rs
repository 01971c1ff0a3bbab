//! The library's error type.

use vstd::prelude::*;

verus! {

/// Errors of the platform, each with a human readable detail.
#[derive(Debug, Clone)]
pub enum AxonError {
    Config(String),
    NotFound(String),
    Validation(String),
    Gateway(String),
    Upstream(String),
    Storage(String),
    Tool(String),
    Http(String),
    Internal(String),
}

/// The text an error is shown as: a fixed prefix for its kind, then its detail.
pub open spec fn error_text(e: AxonError) -> Seq<char> {
    match e {
        AxonError::Config(m) => "config error: "@ + m@,
        AxonError::NotFound(m) => "not found: "@ + m@,
        AxonError::Validation(m) => "validation error: "@ + m@,
        AxonError::Gateway(m) => "gateway error: "@ + m@,
        AxonError::Upstream(m) => "upstream error: "@ + m@,
        AxonError::Storage(m) => "storage error: "@ + m@,
        AxonError::Tool(m) => "tool error: "@ + m@,
        AxonError::Http(m) => "http error: "@ + m@,
        AxonError::Internal(m) => "internal error: "@ + m@,
    }
}

/// `prefix` followed by `rest`, as a new string.
pub fn join2(prefix: &str, rest: &str) -> (s: String)
    ensures
        s@ == prefix@ + rest@,
{
    let mut s = String::from_str(prefix);
    s.append(rest);
    s
}

/// `a`, `b` and `c` one after the other, as a new string.
pub fn join3(a: &str, b: &str, c: &str) -> (s: String)
    ensures
        s@ == a@ + b@ + c@,
{
    let mut s = String::from_str(a);
    s.append(b);
    s.append(c);
    s
}

impl AxonError {
    /// The error's display text.
    pub fn to_display_string(&self) -> (s: String)
        ensures
            s@ == error_text(*self),
    {
        match self {
            AxonError::Config(m) => join2("config error: ", m.as_str()),
            AxonError::NotFound(m) => join2("not found: ", m.as_str()),
            AxonError::Validation(m) => join2("validation error: ", m.as_str()),
            AxonError::Gateway(m) => join2("gateway error: ", m.as_str()),
            AxonError::Upstream(m) => join2("upstream error: ", m.as_str()),
            AxonError::Storage(m) => join2("storage error: ", m.as_str()),
            AxonError::Tool(m) => join2("tool error: ", m.as_str()),
            AxonError::Http(m) => join2("http error: ", m.as_str()),
            AxonError::Internal(m) => join2("internal error: ", m.as_str()),
        }
    }

    /// A configuration error for text that did not parse as JSON.
    pub fn from_json_message(detail: &str) -> (e: AxonError)
        ensures
            e matches AxonError::Config(m) && m@ == "json: "@ + detail@,
    {
        AxonError::Config(join2("json: ", detail))
    }

    /// A configuration error for text that did not parse as YAML.
    pub fn from_yaml_message(detail: &str) -> (e: AxonError)
        ensures
            e matches AxonError::Config(m) && m@ == "yaml: "@ + detail@,
    {
        AxonError::Config(join2("yaml: ", detail))
    }

    /// A storage error for a failed database call.
    pub fn from_sqlite_message(detail: &str) -> (e: AxonError)
        ensures
            e matches AxonError::Storage(m) && m@ == "sqlite: "@ + detail@,
    {
        AxonError::Storage(join2("sqlite: ", detail))
    }

    /// An internal error for a failed read or write.
    pub fn from_io_message(detail: &str) -> (e: AxonError)
        ensures
            e matches AxonError::Internal(m) && m@ == "io: "@ + detail@,
    {
        AxonError::Internal(join2("io: ", detail))
    }
}

} // verus!
