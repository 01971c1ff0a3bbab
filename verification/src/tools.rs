//! The built-in tools' decisions and texts: which requests they refuse, how
//! their outputs are combined and cut, the answers of the memory tool, and
//! the registry built from the configuration.
//!
//! Running processes, sending HTTP requests and reading the memory store
//! belong to the caller, which hands the outcomes back here.

use vstd::prelude::*;
use crate::error::{join2, join3, AxonError};
use crate::models::{copy_strings, strings_view, ToolDefinition};
use crate::store::MemoryEntry;
use crate::strmap::StrMap;
use crate::web_search::{web_search_description, WebSearchTool};
use crate::text::{
    byte_len, byte_offset, char_width, chars_of, decimal, lemma_byte_len_encoding, lemma_byte_offset_mono, lemma_byte_offset_take,
    str_eq, string_from_range, u64_to_decimal, utf8_width,
};

verus! {

/// Facts about a tool's run, shown beside its content.
#[derive(Debug, Clone)]
pub enum ToolMetadata {
    Null,
    Process { exit_code: i32, command: String },
    Code { exit_code: i32, language: String },
    Http { status: u16, content_type: String, truncated: bool, original_length: usize },
    MemorySet { key: String, bytes: usize },
    Count { count: usize },
    Search { result_count: usize, query: String },
}

/// What a tool answers.
#[derive(Debug, Clone)]
pub struct ToolResult {
    pub content: String,
    pub metadata: ToolMetadata,
    pub is_error: bool,
}

impl ToolResult {
    /// A successful answer with no metadata.
    pub fn ok(content: String) -> (r: ToolResult)
        ensures
            r.content == content,
            r.metadata is Null,
            !r.is_error,
    {
        ToolResult { content, metadata: ToolMetadata::Null, is_error: false }
    }

    /// A failed answer with no metadata.
    pub fn err(content: String) -> (r: ToolResult)
        ensures
            r.content == content,
            r.metadata is Null,
            r.is_error,
    {
        ToolResult { content, metadata: ToolMetadata::Null, is_error: true }
    }
}

/// Who runs a tool and where.
#[derive(Debug, Clone)]
pub struct ToolContext {
    pub agent_id: String,
    pub conversation_id: String,
    pub working_dir: String,
}

/// A process's output: its standard output, and its error output after a
/// marker line when there is any.
pub open spec fn combined(stdout: Seq<char>, stderr: Seq<char>) -> Seq<char> {
    if stderr.len() == 0 {
        stdout
    } else {
        stdout + "\n[stderr]\n"@ + stderr
    }
}

pub fn combine_output(stdout: String, stderr: &str) -> (s: String)
    ensures
        s@ == combined(stdout@, stderr@),
{
    if stderr.unicode_len() == 0 {
        stdout
    } else {
        let mut s = stdout;
        s.append("\n[stderr]\n");
        s.append(stderr);
        proof {
            reveal_strlit("\n[stderr]\n");
        }
        s
    }
}

/// `x` is in `v`.
pub open spec fn listed(v: Seq<Seq<char>>, x: Seq<char>) -> bool {
    exists|i: int| 0 <= i < v.len() && v[i] == x
}

fn contains_str(v: &Vec<String>, x: &str) -> (b: bool)
    ensures
        b == listed(strings_view(v@), x@),
{
    let n = v.len();
    let mut i: usize = 0;
    while i < n
        invariant
            n == v@.len(),
            0 <= i <= n,
            forall|j: int| 0 <= j < i ==> strings_view(v@)[j] != x@,
        decreases n - i,
    {
        if str_eq(v[i].as_str(), x) {
            assert(strings_view(v@)[i as int] == x@);
            return true;
        }
        i = i + 1;
    }
    false
}

/// Runs commands, optionally only those of an allow-list.
#[derive(Debug)]
pub struct ShellTool {
    timeout_ms: u64,
    allowed_commands: Vec<String>,
}

impl ShellTool {
    pub closed spec fn timeout(&self) -> u64 {
        self.timeout_ms
    }

    /// The allowed commands; empty allows any.
    pub closed spec fn allowed(&self) -> Seq<Seq<char>> {
        strings_view(self.allowed_commands@)
    }

    pub fn new(timeout_ms: u64, allowed_commands: Vec<String>) -> (t: ShellTool)
        ensures
            t.timeout() == timeout_ms,
            t.allowed() == strings_view(allowed_commands@),
    {
        ShellTool { timeout_ms, allowed_commands }
    }

    /// A shell tool that runs any command.
    pub fn unrestricted(timeout_ms: u64) -> (t: ShellTool)
        ensures
            t.timeout() == timeout_ms,
            t.allowed() == Seq::<Seq<char>>::empty(),
    {
        let t = ShellTool { timeout_ms, allowed_commands: Vec::new() };
        assert(t.allowed() =~= Seq::<Seq<char>>::empty());
        t
    }

    pub fn timeout_ms(&self) -> (n: u64)
        ensures
            n == self.timeout(),
    {
        self.timeout_ms
    }

    pub fn name(&self) -> (s: &'static str)
        ensures
            s@ == "shell"@,
    {
        "shell"
    }

    pub fn description(&self) -> (s: &'static str)
        ensures
            s@ == shell_description(),
    {
        "Execute a shell command and return stdout/stderr. Input: { \"command\": string, \"args\"?: string[] }"
    }

    /// Checks a request's command: missing is an error; one outside a
    /// non-empty allow-list is refused with a failed answer; `None` lets
    /// it run.
    pub fn check_command(&self, command: Option<&str>) -> (r: Result<Option<ToolResult>, AxonError>)
        ensures
            match command {
                None => r matches Err(AxonError::Tool(m)) && m@ == "shell: missing 'command' field"@,
                Some(c) => if self.allowed().len() > 0 && !listed(self.allowed(), c@) {
                    r matches Ok(Some(t)) && t.is_error && t.metadata is Null && t.content@ == "command '"@ + c@
                        + "' is not in the allowed list"@
                } else {
                    r matches Ok(None)
                },
            },
    {
        match command {
            None => Err(AxonError::Tool(String::from_str("shell: missing 'command' field"))),
            Some(c) => {
                if self.allowed_commands.len() > 0 && !contains_str(&self.allowed_commands, c) {
                    Ok(Some(ToolResult::err(join3("command '", c, "' is not in the allowed list"))))
                } else {
                    Ok(None)
                }
            },
        }
    }

    /// The error of a command that outlived the timeout.
    pub fn timed_out(&self) -> (e: AxonError)
        ensures
            e matches AxonError::Tool(m) && m@ == "shell command timed out after "@ + decimal(self.timeout() as nat)
                + "ms"@,
    {
        AxonError::Tool(join3("shell command timed out after ", u64_to_decimal(self.timeout_ms).as_str(), "ms"))
    }

    /// The answer for a finished command: its combined output, its exit code
    /// (-1 when it has none) and the command; failed unless it exited well.
    pub fn finish(&self, command: &str, stdout: String, stderr: &str, exit_code: Option<i32>, success: bool) -> (r: ToolResult)
        ensures
            r.content@ == combined(stdout@, stderr@),
            r.metadata matches ToolMetadata::Process { exit_code: c, command: cmd } && c == match exit_code {
                Some(x) => x,
                None => -1i32,
            } && cmd@ == command@,
            r.is_error == !success,
    {
        ToolResult {
            content: combine_output(stdout, stderr),
            metadata: ToolMetadata::Process {
                exit_code: match exit_code {
                    Some(x) => x,
                    None => -1,
                },
                command: String::from_str(command),
            },
            is_error: !success,
        }
    }
}

/// The error of a process that could not be started or waited for:
/// `<tool> <stage>: <detail>`.
pub fn process_error(tool: &str, stage: &str, detail: &str) -> (e: AxonError)
    ensures
        e matches AxonError::Tool(m) && m@ == tool@ + " "@ + stage@ + ": "@ + detail@,
{
    let head = join3(tool, " ", stage);
    AxonError::Tool(join3(head.as_str(), ": ", detail))
}

/// The number of characters of `s`, from `k` on, that end within `max` bytes.
pub open spec fn chars_within(s: Seq<char>, max: int, k: int) -> int
    decreases s.len() - k,
{
    if 0 <= k < s.len() && byte_offset(s, k + 1) <= max {
        chars_within(s, max, k + 1)
    } else {
        k
    }
}

/// From a prefix of `k` characters that fits in `max` bytes, `chars_within`
/// reaches the longest prefix that fits.
proof fn lemma_chars_within_from(s: Seq<char>, max: int, k: int)
    requires
        0 <= k <= s.len(),
        byte_offset(s, k) <= max,
    ensures
        k <= chars_within(s, max, k) <= s.len(),
        byte_offset(s, chars_within(s, max, k)) <= max,
        chars_within(s, max, k) < s.len() ==> byte_offset(s, chars_within(s, max, k) + 1) > max,
    decreases s.len() - k,
{
    if k < s.len() && byte_offset(s, k + 1) <= max {
        lemma_chars_within_from(s, max, k + 1);
    }
}

/// The prefix that a cut to `max` bytes keeps is the longest one made of
/// whole characters whose UTF-8 length is at most `max`.
pub proof fn lemma_cut_is_longest_fitting_prefix(s: Seq<char>, max: int)
    requires
        0 <= max,
    ensures
        chars_within(s, max, 0) <= s.len(),
        byte_len(s.take(chars_within(s, max, 0))) <= max,
        forall|j: int|
            chars_within(s, max, 0) < j <= s.len() ==> #[trigger] byte_len(s.take(j)) > max,
{
    lemma_chars_within_from(s, max, 0);
    let k = chars_within(s, max, 0);
    lemma_byte_offset_take(s, k);
    assert forall|j: int| k < j <= s.len() implies #[trigger] byte_len(s.take(j)) > max by {
        lemma_byte_offset_take(s, j);
        lemma_byte_offset_mono(s, k + 1, j);
    }
}

/// Byte `i` of `s` is where a character starts, or the end.
pub open spec fn at_char_boundary(s: Seq<char>, i: int) -> bool {
    exists|j: int| 0 <= j <= s.len() && byte_offset(s, j) == i
}

/// The UTF-8 length of `s` in bytes, as `str::len` gives it.
pub fn utf8_len(s: &str) -> (n: usize)
    requires
        byte_len(s@) <= usize::MAX,
    ensures
        n == byte_len(s@),
{
    proof {
        lemma_byte_len_encoding(s@);
    }
    s.len()
}

/// Whether byte `i` of `s` starts a character or ends `s`.
pub fn is_char_boundary_at(s: &str, i: usize) -> (b: bool)
    ensures
        b == at_char_boundary(s@, i as int),
{
    let v = chars_of(s);
    let n = v.len();
    let mut k: usize = 0;
    let mut off: usize = 0;
    while k < n
        invariant
            v@ == s@,
            n == v@.len(),
            0 <= k <= n,
            off == byte_offset(s@, k as int),
            off <= i,
            forall|j: int| 0 <= j < k ==> byte_offset(s@, j) < i,
        decreases n - k,
    {
        if off == i {
            return true;
        }
        let w = char_width(v[k]);
        if w > i - off {
            proof {
                assert forall|j: int| 0 <= j <= s@.len() implies byte_offset(s@, j) != i by {
                    if j > k {
                        lemma_byte_offset_mono(s@, k + 1, j);
                    }
                }
            }
            return false;
        }
        off = off + w;
        k = k + 1;
    }
    if off == i {
        return true;
    }
    proof {
        assert forall|j: int| 0 <= j <= s@.len() implies byte_offset(s@, j) != i by {
            if j == n {
            } else {
                assert(byte_offset(s@, j) < i);
            }
        }
    }
    false
}

/// The first `count` characters of `v`, as a string.
fn prefix_string(v: &Vec<char>, count: usize) -> (s: String)
    requires
        count <= v@.len(),
    ensures
        s@ == v@.take(count as int),
{
    string_from_range(v, 0, count)
}

/// Runs snippets of code in the allowed languages.
#[derive(Debug)]
pub struct CodeExecTool {
    timeout_ms: u64,
    max_output_chars: usize,
    allowed_languages: Vec<String>,
}

/// The interpreter a snippet runs under.
#[derive(Debug, Clone, Copy, PartialEq, Eq, Structural)]
pub enum CodeRunner {
    Python,
    JavaScript,
}

/// What to do with a code request: refuse it with this answer, or run it.
#[derive(Debug)]
pub enum CodeDecision {
    Refuse(ToolResult),
    Run(CodeRunner),
}

/// The text `format!("{:?}", ..)` gives for a list of strings.
pub uninterp spec fn debug_list(v: Seq<Seq<char>>) -> Seq<char>;

/// The list as Rust's `Debug` shows it (brackets, quoted and escaped items).
/// Trusted: `<Vec<String> as Debug>::fmt`, called through `format!`; its
/// result depends on the list alone and is named `debug_list`.
#[verifier::external_body]
fn debug_strings(v: &Vec<String>) -> (s: String)
    ensures
        s@ == debug_list(strings_view(v@)),
{
    format!("{:?}", v)
}

/// The refusal of a language outside the allow-list, given the list as
/// `Debug` shows it.
pub fn language_refusal(language: &str, allowed_text: &str) -> (r: ToolResult)
    ensures
        r.is_error,
        r.metadata is Null,
        r.content@ == "language '"@ + language@ + "' is not allowed. Allowed: "@ + allowed_text@,
{
    let head = join3("language '", language, "' is not allowed. Allowed: ");
    ToolResult::err(join2(head.as_str(), allowed_text))
}

/// The marker put after output cut to the limit.
pub open spec fn output_cut_marker() -> Seq<char> {
    "\n... [output truncated]"@
}

impl CodeExecTool {
    pub closed spec fn timeout(&self) -> u64 {
        self.timeout_ms
    }

    pub closed spec fn max_output(&self) -> usize {
        self.max_output_chars
    }

    /// The allowed languages; empty allows any supported one.
    pub closed spec fn languages(&self) -> Seq<Seq<char>> {
        strings_view(self.allowed_languages@)
    }

    pub fn new(timeout_ms: u64, max_output_chars: usize, allowed_languages: Vec<String>) -> (t: CodeExecTool)
        ensures
            t.timeout() == timeout_ms,
            t.max_output() == max_output_chars,
            t.languages() == strings_view(allowed_languages@),
    {
        CodeExecTool { timeout_ms, max_output_chars, allowed_languages }
    }

    /// Ten seconds, ten thousand bytes of output, Python and JavaScript.
    pub fn default_config() -> (t: CodeExecTool)
        ensures
            t.timeout() == 10000,
            t.max_output() == 10000,
            t.languages() == seq!["python"@, "javascript"@],
    {
        let mut langs: Vec<String> = Vec::new();
        langs.push(String::from_str("python"));
        langs.push(String::from_str("javascript"));
        let t = CodeExecTool { timeout_ms: 10000, max_output_chars: 10000, allowed_languages: langs };
        assert(t.languages() =~= seq!["python"@, "javascript"@]);
        t
    }

    pub fn timeout_ms(&self) -> (n: u64)
        ensures
            n == self.timeout(),
    {
        self.timeout_ms
    }

    pub fn name(&self) -> (s: &'static str)
        ensures
            s@ == "code_exec"@,
    {
        "code_exec"
    }

    pub fn description(&self) -> (s: &'static str)
        ensures
            s@ == code_exec_description(),
    {
        "Execute code in a supported language and return the output. Input: { \"language\": string, \"code\": string }"
    }

    /// Decides a request: a missing language or code is an error; a
    /// language outside a non-empty allow-list, or one that is not
    /// supported, is refused; `python` runs under Python, `javascript` and
    /// `js` under Node.
    pub fn decide(&self, language: Option<&str>, code: Option<&str>) -> (r: Result<CodeDecision, AxonError>)
        ensures
            match language {
                None => r matches Err(AxonError::Tool(m)) && m@ == "code_exec: missing 'language'"@,
                Some(l) => match code {
                    None => r matches Err(AxonError::Tool(m)) && m@ == "code_exec: missing 'code'"@,
                    Some(_) => if self.languages().len() > 0 && !listed(self.languages(), l@) {
                        r matches Ok(CodeDecision::Refuse(t)) && t.is_error && t.content@ == "language '"@ + l@
                            + "' is not allowed. Allowed: "@ + debug_list(self.languages())
                    } else if l@ == "python"@ {
                        r matches Ok(CodeDecision::Run(CodeRunner::Python))
                    } else if l@ == "javascript"@ || l@ == "js"@ {
                        r matches Ok(CodeDecision::Run(CodeRunner::JavaScript))
                    } else {
                        r matches Ok(CodeDecision::Refuse(t)) && t.is_error && t.content@ == "unsupported language: "@
                            + l@
                    },
                },
            },
    {
        let l = match language {
            None => {
                return Err(AxonError::Tool(String::from_str("code_exec: missing 'language'")));
            },
            Some(l) => l,
        };
        if code.is_none() {
            return Err(AxonError::Tool(String::from_str("code_exec: missing 'code'")));
        }
        if self.allowed_languages.len() > 0 && !contains_str(&self.allowed_languages, l) {
            let allowed_text = debug_strings(&self.allowed_languages);
            return Ok(CodeDecision::Refuse(language_refusal(l, allowed_text.as_str())));
        }
        if str_eq(l, "python") {
            Ok(CodeDecision::Run(CodeRunner::Python))
        } else if str_eq(l, "javascript") || str_eq(l, "js") {
            Ok(CodeDecision::Run(CodeRunner::JavaScript))
        } else {
            Ok(CodeDecision::Refuse(ToolResult::err(join2("unsupported language: ", l))))
        }
    }

    /// The error of a snippet that outlived the timeout.
    pub fn timed_out(&self) -> (e: AxonError)
        ensures
            e matches AxonError::Tool(m) && m@ == "code_exec timed out after "@ + decimal(self.timeout() as nat)
                + "ms"@,
    {
        AxonError::Tool(join3("code_exec timed out after ", u64_to_decimal(self.timeout_ms).as_str(), "ms"))
    }

    /// Whether output of this text can be cut to the limit: it fits, or the
    /// limit falls where a character starts.
    pub fn can_cut(&self, content: &str) -> (b: bool)
        requires
            byte_len(content@) <= usize::MAX,
        ensures
            b == (byte_len(content@) <= self.max_output() || at_char_boundary(content@, self.max_output() as int)),
    {
        utf8_len(content) <= self.max_output_chars || is_char_boundary_at(content, self.max_output_chars)
    }

    /// The answer for a finished snippet: its output (the combined text),
    /// cut to the byte limit with a marker when longer, its exit code (-1
    /// when it has none) and language; failed unless it exited well.
    pub fn finish(&self, runner: CodeRunner, content: String, exit_code: Option<i32>, success: bool) -> (r: ToolResult)
        requires
            byte_len(content@) <= usize::MAX,
            byte_len(content@) > self.max_output() ==> at_char_boundary(content@, self.max_output() as int),
        ensures
            byte_len(content@) <= self.max_output() ==> r.content@ == content@,
            byte_len(content@) > self.max_output() ==> {
                let k = chars_within(content@, self.max_output() as int, 0);
                &&& r.content@ == content@.take(k) + output_cut_marker()
                &&& byte_offset(content@, k) == self.max_output()
            },
            r.metadata matches ToolMetadata::Code { exit_code: c, language: lang } && c == match exit_code {
                Some(x) => x,
                None => -1i32,
            } && lang@ == match runner {
                CodeRunner::Python => "python"@,
                CodeRunner::JavaScript => "javascript"@,
            },
            r.is_error == !success,
    {
        let max = self.max_output_chars;
        let text = if utf8_len(content.as_str()) > max {
            let v = chars_of(content.as_str());
            let k = count_within(&v, max);
            proof {
                let s = content@;
                let j0 = choose|j: int| 0 <= j <= s.len() && byte_offset(s, j) == max;
                if byte_offset(s, k as int) < max {
                    if k < s.len() {
                        assert(byte_offset(s, k + 1) > max);
                        if j0 > k {
                            lemma_byte_offset_mono(s, k + 1, j0);
                        } else {
                            lemma_byte_offset_mono(s, j0, k as int);
                        }
                    } else {
                        lemma_byte_offset_mono(s, j0, k as int);
                    }
                }
            }
            let mut t = prefix_string(&v, k);
            t.append("\n... [output truncated]");
            proof {
                reveal_strlit("\n... [output truncated]");
            }
            t
        } else {
            content
        };
        ToolResult {
            content: text,
            metadata: ToolMetadata::Code {
                exit_code: match exit_code {
                    Some(x) => x,
                    None => -1,
                },
                language: match runner {
                    CodeRunner::Python => String::from_str("python"),
                    CodeRunner::JavaScript => String::from_str("javascript"),
                },
            },
            is_error: !success,
        }
    }
}

/// How many leading characters of `v` end within `max` bytes.
fn count_within(v: &Vec<char>, max: usize) -> (k: usize)
    ensures
        k == chars_within(v@, max as int, 0),
        k <= v@.len(),
        byte_offset(v@, k as int) <= max,
        k < v@.len() ==> byte_offset(v@, k + 1) > max,
{
    let n = v.len();
    let mut k: usize = 0;
    let mut off: usize = 0;
    while k < n
        invariant
            n == v@.len(),
            0 <= k <= n,
            off == byte_offset(v@, k as int),
            off <= max,
            chars_within(v@, max as int, 0) == chars_within(v@, max as int, k as int),
        decreases n - k,
    {
        let w = char_width(v[k]);
        if w > max - off {
            return k;
        }
        off = off + w;
        k = k + 1;
    }
    k
}

/// Fetches URLs, cutting long answers.
#[derive(Debug, Clone, Copy)]
pub struct HttpFetchTool {
    pub timeout_ms: u64,
    pub max_response_chars: usize,
}

/// The method of an HTTP request.
#[derive(Debug, Clone, Copy, PartialEq, Eq, Structural)]
pub enum HttpMethod {
    Get,
    Post,
    Put,
    Delete,
    Patch,
    Head,
}

/// The text `str::to_uppercase` gives for a string.
pub uninterp spec fn uppercase_of(s: Seq<char>) -> Seq<char>;

/// The string in upper case, by Unicode's full case mapping.
/// Trusted: `str::to_uppercase`; its result depends on the string alone and
/// is named `uppercase_of`.
#[verifier::external_body]
fn to_uppercase(s: &str) -> (u: String)
    ensures
        u@ == uppercase_of(s@),
{
    s.to_uppercase()
}

/// The method an upper-cased method name names, or the refusal of an
/// unsupported one.
pub fn method_from_upper(upper: &str) -> (r: Result<HttpMethod, ToolResult>)
    ensures
        upper@ == "GET"@ ==> r == Ok::<HttpMethod, ToolResult>(HttpMethod::Get),
        upper@ == "POST"@ ==> r == Ok::<HttpMethod, ToolResult>(HttpMethod::Post),
        upper@ == "PUT"@ ==> r == Ok::<HttpMethod, ToolResult>(HttpMethod::Put),
        upper@ == "DELETE"@ ==> r == Ok::<HttpMethod, ToolResult>(HttpMethod::Delete),
        upper@ == "PATCH"@ ==> r == Ok::<HttpMethod, ToolResult>(HttpMethod::Patch),
        upper@ == "HEAD"@ ==> r == Ok::<HttpMethod, ToolResult>(HttpMethod::Head),
        !(upper@ == "GET"@ || upper@ == "POST"@ || upper@ == "PUT"@ || upper@ == "DELETE"@ || upper@ == "PATCH"@
            || upper@ == "HEAD"@) ==> (r matches Err(t) && t.is_error && t.metadata is Null && t.content@
            == "unsupported method: "@ + upper@),
{
    proof {
        reveal_strlit("GET");
        reveal_strlit("POST");
        reveal_strlit("PUT");
        reveal_strlit("DELETE");
        reveal_strlit("PATCH");
        reveal_strlit("HEAD");
        assert("GET"@.len() != "POST"@.len());
        assert("GET"@[0] != "PUT"@[0]);
        assert("POST"@.len() != "PUT"@.len());
        assert("DELETE"@.len() != "GET"@.len());
        assert("DELETE"@.len() != "POST"@.len());
        assert("DELETE"@.len() != "PUT"@.len());
        assert("PATCH"@.len() != "GET"@.len());
        assert("PATCH"@.len() != "POST"@.len());
        assert("PATCH"@.len() != "PUT"@.len());
        assert("PATCH"@.len() != "DELETE"@.len());
        assert("HEAD"@.len() != "GET"@.len());
        assert("HEAD"@[0] != "POST"@[0]);
        assert("HEAD"@.len() != "PUT"@.len());
        assert("HEAD"@.len() != "DELETE"@.len());
        assert("HEAD"@.len() != "PATCH"@.len());
    }
    if str_eq(upper, "GET") {
        Ok(HttpMethod::Get)
    } else if str_eq(upper, "POST") {
        Ok(HttpMethod::Post)
    } else if str_eq(upper, "PUT") {
        Ok(HttpMethod::Put)
    } else if str_eq(upper, "DELETE") {
        Ok(HttpMethod::Delete)
    } else if str_eq(upper, "PATCH") {
        Ok(HttpMethod::Patch)
    } else if str_eq(upper, "HEAD") {
        Ok(HttpMethod::Head)
    } else {
        Err(ToolResult::err(join2("unsupported method: ", upper)))
    }
}

/// The marker put after an answer cut to the limit.
pub open spec fn fetch_cut_marker() -> Seq<char> {
    "... [truncated]"@
}

impl HttpFetchTool {
    pub fn new(timeout_ms: u64, max_response_chars: usize) -> (t: HttpFetchTool)
        ensures
            t.timeout_ms == timeout_ms,
            t.max_response_chars == max_response_chars,
    {
        HttpFetchTool { timeout_ms, max_response_chars }
    }

    pub fn name(&self) -> (s: &'static str)
        ensures
            s@ == "http_fetch"@,
    {
        "http_fetch"
    }

    pub fn description(&self) -> (s: &'static str)
        ensures
            s@ == http_fetch_description(),
    {
        "Fetch content from an HTTP/HTTPS URL. Input: { \"url\": string, \"method\"?: string, \"headers\"?: object, \"body\"?: string }"
    }

    /// The URL a request names; missing is an error.
    pub fn require_url<'a>(&self, url: Option<&'a str>) -> (r: Result<&'a str, AxonError>)
        ensures
            match url {
                Some(u) => r == Ok::<&str, AxonError>(u),
                None => r matches Err(AxonError::Tool(m)) && m@ == "http_fetch: missing 'url' field"@,
            },
    {
        match url {
            Some(u) => Ok(u),
            None => Err(AxonError::Tool(String::from_str("http_fetch: missing 'url' field"))),
        }
    }

    /// The method a request names (GET when it names none), compared in
    /// upper case; an unsupported one is refused.
    pub fn method(&self, method: Option<&str>) -> (r: Result<HttpMethod, ToolResult>)
        ensures
            ({
                let upper = match method {
                    Some(m) => uppercase_of(m@),
                    None => uppercase_of("GET"@),
                };
                &&& upper == "GET"@ ==> r == Ok::<HttpMethod, ToolResult>(HttpMethod::Get)
                &&& upper == "POST"@ ==> r == Ok::<HttpMethod, ToolResult>(HttpMethod::Post)
                &&& upper == "PUT"@ ==> r == Ok::<HttpMethod, ToolResult>(HttpMethod::Put)
                &&& upper == "DELETE"@ ==> r == Ok::<HttpMethod, ToolResult>(HttpMethod::Delete)
                &&& upper == "PATCH"@ ==> r == Ok::<HttpMethod, ToolResult>(HttpMethod::Patch)
                &&& upper == "HEAD"@ ==> r == Ok::<HttpMethod, ToolResult>(HttpMethod::Head)
                &&& !(upper == "GET"@ || upper == "POST"@ || upper == "PUT"@ || upper == "DELETE"@ || upper
                    == "PATCH"@ || upper == "HEAD"@) ==> (r matches Err(t) && t.is_error && t.content@
                    == "unsupported method: "@ + upper)
            }),
    {
        let name = match method {
            Some(m) => m,
            None => "GET",
        };
        let upper = to_uppercase(name);
        method_from_upper(upper.as_str())
    }

    /// The answer for a received response: the body, cut to its longest
    /// prefix of whole characters within the limit in bytes and marked when
    /// it is longer than the limit, with the status, content type, whether it
    /// was cut and its byte length; failed unless the status is a success.
    pub fn finish(&self, status: u16, success: bool, content_type: String, body: String) -> (r: ToolResult)
        requires
            byte_len(body@) <= usize::MAX,
        ensures
            byte_len(body@) <= self.max_response_chars ==> r.content@ == body@,
            byte_len(body@) > self.max_response_chars ==> r.content@ == body@.take(
                chars_within(body@, self.max_response_chars as int, 0),
            ) + fetch_cut_marker(),
            r.metadata matches ToolMetadata::Http { status: s, content_type: ct, truncated: t, original_length: n }
                && s == status && ct == content_type && t == (byte_len(body@) > self.max_response_chars) && n
                == byte_len(body@),
            r.is_error == !success,
    {
        let original_length = utf8_len(body.as_str());
        let max = self.max_response_chars;
        let truncated = original_length > max;
        let text = if truncated {
            let v = chars_of(body.as_str());
            let k = count_within(&v, max);
            let mut t = prefix_string(&v, k);
            t.append("... [truncated]");
            proof {
                reveal_strlit("... [truncated]");
            }
            t
        } else {
            body
        };
        ToolResult {
            content: text,
            metadata: ToolMetadata::Http { status, content_type, truncated, original_length },
            is_error: !success,
        }
    }
}

/// A memory operation a request asks for.
#[derive(Debug)]
pub enum MemoryAction {
    Get { key: String },
    Put { key: String, value: String },
    Delete { key: String },
    List,
    Unknown(ToolResult),
}

/// Reads and writes the memory store within one namespace.
#[derive(Debug, Clone)]
pub struct MemoryTool {
    pub namespace: String,
}

impl MemoryTool {
    pub fn new(namespace: String) -> (t: MemoryTool)
        ensures
            t.namespace == namespace,
    {
        MemoryTool { namespace }
    }

    pub fn name(&self) -> (s: &'static str)
        ensures
            s@ == "memory"@,
    {
        "memory"
    }

    pub fn description(&self) -> (s: &'static str)
        ensures
            s@ == memory_description(),
    {
        "Read or write persistent memory (key-value store). Input: { \"action\": \"get\"|\"set\"|\"delete\"|\"list\", \"key\"?: string, \"value\"?: string }"
    }

    /// The operation a request asks for; a missing action, or a missing key
    /// or value the action needs, is an error; an unknown action is refused.
    pub fn action(&self, action: Option<&str>, key: Option<&str>, value: Option<&str>) -> (r: Result<MemoryAction, AxonError>)
        ensures
            match action {
                None => r matches Err(AxonError::Tool(m)) && m@ == "memory: missing 'action' field"@,
                Some(a) => if a@ == "get"@ || a@ == "delete"@ {
                    match key {
                        None => r matches Err(AxonError::Tool(m)) && m@ == "memory: missing 'key'"@,
                        Some(k) => if a@ == "get"@ {
                            r matches Ok(MemoryAction::Get { key: kk }) && kk@ == k@
                        } else {
                            r matches Ok(MemoryAction::Delete { key: kk }) && kk@ == k@
                        },
                    }
                } else if a@ == "set"@ {
                    match key {
                        None => r matches Err(AxonError::Tool(m)) && m@ == "memory: missing 'key'"@,
                        Some(k) => match value {
                            None => r matches Err(AxonError::Tool(m)) && m@ == "memory: missing 'value'"@,
                            Some(v) => r matches Ok(MemoryAction::Put { key: kk, value: vv }) && kk@ == k@ && vv@
                                == v@,
                        },
                    }
                } else if a@ == "list"@ {
                    r matches Ok(MemoryAction::List)
                } else {
                    r matches Ok(MemoryAction::Unknown(t)) && t.is_error && t.content@ == "unknown action: "@ + a@
                },
            },
    {
        proof {
            reveal_strlit("get");
            reveal_strlit("set");
            reveal_strlit("delete");
            reveal_strlit("list");
        }
        let a = match action {
            None => {
                return Err(AxonError::Tool(String::from_str("memory: missing 'action' field")));
            },
            Some(a) => a,
        };
        if str_eq(a, "get") || str_eq(a, "delete") {
            let k = match key {
                None => {
                    return Err(AxonError::Tool(String::from_str("memory: missing 'key'")));
                },
                Some(k) => k,
            };
            if str_eq(a, "get") {
                Ok(MemoryAction::Get { key: String::from_str(k) })
            } else {
                Ok(MemoryAction::Delete { key: String::from_str(k) })
            }
        } else if str_eq(a, "set") {
            let k = match key {
                None => {
                    return Err(AxonError::Tool(String::from_str("memory: missing 'key'")));
                },
                Some(k) => k,
            };
            let v = match value {
                None => {
                    return Err(AxonError::Tool(String::from_str("memory: missing 'value'")));
                },
                Some(v) => v,
            };
            Ok(MemoryAction::Put { key: String::from_str(k), value: String::from_str(v) })
        } else if str_eq(a, "list") {
            Ok(MemoryAction::List)
        } else {
            Ok(MemoryAction::Unknown(ToolResult::err(join2("unknown action: ", a))))
        }
    }

    /// The answer to a read: the value, or a note that there is none.
    pub fn get_answer(&self, key: &str, found: Option<String>) -> (r: ToolResult)
        ensures
            !r.is_error,
            r.metadata is Null,
            r.content@ == match found {
                Some(v) => v@,
                None => "(no value for key '"@ + key@ + "')"@,
            },
    {
        match found {
            Some(v) => ToolResult::ok(v),
            None => ToolResult::ok(join3("(no value for key '", key, "')")),
        }
    }

    /// The answer to a write, with the key and the value's byte length.
    pub fn set_answer(&self, key: &str, value: &str) -> (r: ToolResult)
        requires
            byte_len(value@) <= usize::MAX,
        ensures
            !r.is_error,
            r.content@ == "OK: set '"@ + key@ + "'"@,
            r.metadata matches ToolMetadata::MemorySet { key: k, bytes: b } && k@ == key@ && b == byte_len(value@),
    {
        ToolResult {
            content: join3("OK: set '", key, "'"),
            metadata: ToolMetadata::MemorySet { key: String::from_str(key), bytes: utf8_len(value) },
            is_error: false,
        }
    }

    /// The answer to a deletion.
    pub fn delete_answer(&self, key: &str) -> (r: ToolResult)
        ensures
            !r.is_error,
            r.metadata is Null,
            r.content@ == "OK: deleted '"@ + key@ + "'"@,
    {
        ToolResult::ok(join3("OK: deleted '", key, "'"))
    }

    /// The answer to a listing: a note when empty, else a `key: value` line
    /// per entry, with the count.
    pub fn list_answer(&self, entries: &Vec<MemoryEntry>) -> (r: ToolResult)
        ensures
            !r.is_error,
            entries@.len() == 0 ==> r.content@ == "(memory is empty)"@ && r.metadata is Null,
            entries@.len() > 0 ==> r.content@ == memory_lines(entries@),
            entries@.len() > 0 ==> (r.metadata matches ToolMetadata::Count { count: c } && c == entries@.len()),
    {
        let n = entries.len();
        if n == 0 {
            return ToolResult::ok(String::from_str("(memory is empty)"));
        }
        let mut out = String::new();
        let mut i: usize = 0;
        assert(entries@.take(0) =~= Seq::<MemoryEntry>::empty());
        while i < n
            invariant
                n == entries@.len(),
                0 <= i <= n,
                out@ == memory_lines(entries@.take(i as int)),
            decreases n - i,
        {
            let e = &entries[i];
            out.append(e.key.as_str());
            out.append(": ");
            out.append(e.value.as_str());
            out.append("\n");
            proof {
                reveal_strlit(": ");
                reveal_strlit("\n");
                assert(entries@.take(i + 1).drop_last() =~= entries@.take(i as int));
                assert(entries@.take(i + 1).last() == *e);
                assert(out@ =~= memory_lines(entries@.take(i + 1)));
            }
            i = i + 1;
        }
        assert(entries@.take(n as int) =~= entries@);
        ToolResult { content: out, metadata: ToolMetadata::Count { count: n }, is_error: false }
    }
}

/// The listing of memory entries: `key: value` per line.
pub open spec fn memory_lines(es: Seq<MemoryEntry>) -> Seq<char>
    decreases es.len(),
{
    if es.len() == 0 {
        Seq::empty()
    } else {
        memory_lines(es.drop_last()) + es.last().key@ + ": "@ + es.last().value@ + "\n"@
    }
}

/// A built-in tool with its settings.
#[derive(Debug)]
pub enum ToolSpec {
    WebSearch(WebSearchTool),
    Shell(ShellTool),
    Memory(MemoryTool),
    HttpFetch(HttpFetchTool),
    CodeExec(CodeExecTool),
}

/// A built-in tool's settings as plain values.
pub enum ToolSpecView {
    WebSearch { max_results: usize },
    Shell { timeout_ms: u64, allowed: Seq<Seq<char>> },
    Memory { namespace: Seq<char> },
    HttpFetch { timeout_ms: u64, max_chars: usize },
    CodeExec { timeout_ms: u64, max_output: usize, languages: Seq<Seq<char>> },
}

impl View for ToolSpec {
    type V = ToolSpecView;

    open spec fn view(&self) -> ToolSpecView {
        match self {
            ToolSpec::WebSearch(t) => ToolSpecView::WebSearch { max_results: t.max_results },
            ToolSpec::Shell(t) => ToolSpecView::Shell { timeout_ms: t.timeout(), allowed: t.allowed() },
            ToolSpec::Memory(t) => ToolSpecView::Memory { namespace: t.namespace@ },
            ToolSpec::HttpFetch(t) => ToolSpecView::HttpFetch { timeout_ms: t.timeout_ms, max_chars: t.max_response_chars },
            ToolSpec::CodeExec(t) => ToolSpecView::CodeExec {
                timeout_ms: t.timeout(),
                max_output: t.max_output(),
                languages: t.languages(),
            },
        }
    }
}

/// The description the `shell` tool offers the model.
pub open spec fn shell_description() -> Seq<char> {
    "Execute a shell command and return stdout/stderr. Input: { \"command\": string, \"args\"?: string[] }"@
}

/// The description the `code_exec` tool offers the model.
pub open spec fn code_exec_description() -> Seq<char> {
    "Execute code in a supported language and return the output. Input: { \"language\": string, \"code\": string }"@
}

/// The description the `http_fetch` tool offers the model.
pub open spec fn http_fetch_description() -> Seq<char> {
    "Fetch content from an HTTP/HTTPS URL. Input: { \"url\": string, \"method\"?: string, \"headers\"?: object, \"body\"?: string }"@
}

/// The description the `memory` tool offers the model.
pub open spec fn memory_description() -> Seq<char> {
    "Read or write persistent memory (key-value store). Input: { \"action\": \"get\"|\"set\"|\"delete\"|\"list\", \"key\"?: string, \"value\"?: string }"@
}

/// The description a tool offers the model.
pub open spec fn tool_description(v: ToolSpecView) -> Seq<char> {
    match v {
        ToolSpecView::WebSearch { .. } => web_search_description(),
        ToolSpecView::Shell { .. } => shell_description(),
        ToolSpecView::Memory { .. } => memory_description(),
        ToolSpecView::HttpFetch { .. } => http_fetch_description(),
        ToolSpecView::CodeExec { .. } => code_exec_description(),
    }
}

/// The name a tool registers under.
pub open spec fn tool_key(v: ToolSpecView) -> Seq<char> {
    match v {
        ToolSpecView::WebSearch { .. } => "web_search"@,
        ToolSpecView::Shell { .. } => "shell"@,
        ToolSpecView::Memory { .. } => "memory"@,
        ToolSpecView::HttpFetch { .. } => "http_fetch"@,
        ToolSpecView::CodeExec { .. } => "code_exec"@,
    }
}

impl ToolSpec {
    /// The tool's name.
    pub fn name(&self) -> (s: &'static str)
        ensures
            s@ == tool_key(self@),
    {
        match self {
            ToolSpec::WebSearch(t) => t.name(),
            ToolSpec::Shell(t) => t.name(),
            ToolSpec::Memory(t) => t.name(),
            ToolSpec::HttpFetch(t) => t.name(),
            ToolSpec::CodeExec(t) => t.name(),
        }
    }

    /// The tool's description, as offered to the model.
    pub fn description(&self) -> (s: &'static str)
        ensures
            s@ == tool_description(self@),
    {
        match self {
            ToolSpec::WebSearch(t) => t.description(),
            ToolSpec::Shell(t) => t.description(),
            ToolSpec::Memory(t) => t.description(),
            ToolSpec::HttpFetch(t) => t.description(),
            ToolSpec::CodeExec(t) => t.description(),
        }
    }
}

/// The tool a configured definition makes, if its kind is a built-in one,
/// with the defaults for the settings it leaves out.
pub open spec fn definition_tool(d: ToolDefinition) -> Option<ToolSpecView> {
    let c = d.config;
    if d.kind@ == "web_search"@ {
        Some(ToolSpecView::WebSearch { max_results: match c.max_results { Some(m) => m as usize, None => 5 } })
    } else if d.kind@ == "shell"@ {
        Some(ToolSpecView::Shell {
            timeout_ms: match c.timeout_ms { Some(t) => t, None => 30000 },
            allowed: match c.allowed_commands { Some(v) => strings_view(v@), None => Seq::empty() },
        })
    } else if d.kind@ == "memory"@ {
        Some(ToolSpecView::Memory { namespace: match c.namespace { Some(n) => n@, None => "default"@ } })
    } else if d.kind@ == "http_fetch"@ {
        Some(ToolSpecView::HttpFetch {
            timeout_ms: match c.timeout_ms { Some(t) => t, None => 15000 },
            max_chars: match c.max_response_chars { Some(m) => m as usize, None => 50000 },
        })
    } else if d.kind@ == "code_exec"@ {
        Some(ToolSpecView::CodeExec {
            timeout_ms: match c.timeout_ms { Some(t) => t, None => 10000 },
            max_output: match c.max_output_chars { Some(m) => m as usize, None => 10000 },
            languages: match c.allowed_languages {
                Some(v) => strings_view(v@),
                None => seq!["python"@, "javascript"@],
            },
        })
    } else {
        None
    }
}

/// The registry after the first `n` definitions: each built-in tool under
/// its name, a later one replacing an earlier one of the same kind.
pub open spec fn registry_table(defs: Seq<ToolDefinition>, n: nat) -> Map<Seq<char>, ToolSpecView>
    decreases n,
{
    if n == 0 {
        Map::empty()
    } else {
        let prev = registry_table(defs, (n - 1) as nat);
        match definition_tool(defs[n - 1]) {
            Some(t) => prev.insert(tool_key(t), t),
            None => prev,
        }
    }
}

/// The tools of `names` that the table has, in the order of `names`.
pub open spec fn tools_for(names: Seq<Seq<char>>, table: Map<Seq<char>, ToolSpecView>) -> Seq<ToolSpecView>
    decreases names.len(),
{
    if names.len() == 0 {
        Seq::empty()
    } else {
        let prev = tools_for(names.drop_last(), table);
        if table.dom().contains(names.last()) {
            prev.push(table[names.last()])
        } else {
            prev
        }
    }
}

/// The tools available to agents, by name.
pub struct ToolRegistry {
    tools: StrMap<ToolSpec>,
}

pub open spec fn specs_view(v: Seq<&ToolSpec>) -> Seq<ToolSpecView> {
    v.map_values(|t: &ToolSpec| t@)
}

impl ToolRegistry {
    pub closed spec fn wf(&self) -> bool {
        self.tools.wf()
    }

    /// The registered tools by name.
    pub closed spec fn table(&self) -> Map<Seq<char>, ToolSpecView> {
        self.tools.map().map_values(|t: ToolSpec| t@)
    }

    /// The order in which listings show the tools.
    pub closed spec fn order(&self) -> Seq<Seq<char>> {
        self.tools.key_seq()
    }

    pub fn new() -> (r: ToolRegistry)
        ensures
            r.wf(),
            r.table() == Map::<Seq<char>, ToolSpecView>::empty(),
            r.order() == Seq::<Seq<char>>::empty(),
    {
        let r = ToolRegistry { tools: StrMap::new() };
        assert(r.table() =~= Map::<Seq<char>, ToolSpecView>::empty());
        r
    }

    /// Adds a tool under its name, replacing one of the same name.
    pub fn register(&mut self, tool: ToolSpec)
        requires
            old(self).wf(),
        ensures
            final(self).wf(),
            final(self).table() == old(self).table().insert(tool_key(tool@), tool@),
    {
        let ghost tv = tool@;
        let ghost before = self.tools.map();
        let name = String::from_str(tool.name());
        self.tools.insert(name, tool);
        assert(self.table() =~= before.map_values(|t: ToolSpec| t@).insert(tool_key(tv), tv));
    }

    /// The tool of this name, if registered.
    pub fn get(&self, name: &str) -> (r: Option<&ToolSpec>)
        requires
            self.wf(),
        ensures
            match r {
                Some(t) => self.table().dom().contains(name@) && t@ == self.table()[name@],
                None => !self.table().dom().contains(name@),
            },
    {
        self.tools.get(name)
    }

    /// The tool a call names, or the not-found error the call fails with.
    pub fn find(&self, name: &str) -> (r: Result<&ToolSpec, AxonError>)
        requires
            self.wf(),
        ensures
            match r {
                Ok(t) => self.table().dom().contains(name@) && t@ == self.table()[name@],
                Err(e) => !self.table().dom().contains(name@) && (e matches AxonError::NotFound(m) && m@ == "tool '"@
                    + name@ + "' not found"@),
            },
    {
        match self.tools.get(name) {
            Some(t) => Ok(t),
            None => Err(AxonError::NotFound(join3("tool '", name, "' not found"))),
        }
    }

    /// The registered tools, in listing order.
    pub fn list(&self) -> (v: Vec<&ToolSpec>)
        requires
            self.wf(),
        ensures
            self.order().no_duplicates(),
            self.order().to_set() == self.table().dom(),
            v@.len() == self.order().len(),
            forall|i: int| 0 <= i < v@.len() ==> (#[trigger] v@[i])@ == self.table()[self.order()[i]],
    {
        proof {
            self.tools.lemma_keys();
        }
        let n = self.tools.len();
        let mut v: Vec<&ToolSpec> = Vec::new();
        let mut i: usize = 0;
        while i < n
            invariant
                self.wf(),
                n == self.order().len(),
                0 <= i <= n,
                v@.len() == i,
                forall|j: int| 0 <= j < i ==> (#[trigger] v@[j])@ == self.table()[self.order()[j]],
            decreases n - i,
        {
            let (_k, t) = self.tools.entry(i);
            v.push(t);
            i = i + 1;
        }
        v
    }

    /// The registered tools among `names`, in the order of `names`.
    pub fn schemas_for(&self, names: &Vec<String>) -> (v: Vec<&ToolSpec>)
        requires
            self.wf(),
        ensures
            specs_view(v@) == tools_for(strings_view(names@), self.table()),
    {
        let n = names.len();
        let mut v: Vec<&ToolSpec> = Vec::new();
        let mut i: usize = 0;
        assert(strings_view(names@).take(0) =~= Seq::<Seq<char>>::empty());
        while i < n
            invariant
                self.wf(),
                n == names@.len(),
                0 <= i <= n,
                specs_view(v@) == tools_for(strings_view(names@).take(i as int), self.table()),
            decreases n - i,
        {
            let ghost before = v@;
            proof {
                let ns = strings_view(names@);
                assert(ns.take(i + 1).drop_last() =~= ns.take(i as int));
                assert(ns.take(i + 1).last() == names@[i as int]@);
            }
            match self.tools.get(names[i].as_str()) {
                Some(t) => {
                    v.push(t);
                    assert(specs_view(v@) =~= specs_view(before).push(t@));
                },
                None => {},
            }
            i = i + 1;
        }
        assert(strings_view(names@).take(n as int) =~= strings_view(names@));
        v
    }
}

impl Default for ToolRegistry {
    fn default() -> (r: Self)
        ensures
            r.wf(),
            r.table() == Map::<Seq<char>, ToolSpecView>::empty(),
    {
        ToolRegistry::new()
    }
}

fn or_default_usize(m: Option<u64>, d: usize) -> (r: usize)
    ensures
        r == match m {
            Some(x) => x as usize,
            None => d,
        },
{
    match m {
        Some(x) => x as usize,
        None => d,
    }
}

/// The tool a definition makes, if its kind is a built-in one.
pub fn tool_for_definition(def: &ToolDefinition) -> (r: Option<ToolSpec>)
    ensures
        match r {
            Some(t) => definition_tool(*def) == Some(t@),
            None => definition_tool(*def) is None,
        },
{
    proof {
        reveal_strlit("web_search");
        reveal_strlit("shell");
        reveal_strlit("memory");
        reveal_strlit("http_fetch");
        reveal_strlit("code_exec");
        assert("web_search"@.len() != "shell"@.len());
        assert("web_search"@.len() != "memory"@.len());
        assert("web_search"@[0] != "http_fetch"@[0]);
        assert("web_search"@.len() != "code_exec"@.len());
        assert("shell"@.len() != "memory"@.len());
        assert("shell"@.len() != "http_fetch"@.len());
        assert("shell"@.len() != "code_exec"@.len());
        assert("memory"@.len() != "http_fetch"@.len());
        assert("memory"@.len() != "code_exec"@.len());
        assert("http_fetch"@.len() != "code_exec"@.len());
    }
    let c = &def.config;
    let k = def.kind.as_str();
    if str_eq(k, "web_search") {
        Some(ToolSpec::WebSearch(WebSearchTool::new(or_default_usize(c.max_results, 5))))
    } else if str_eq(k, "shell") {
        let timeout = match c.timeout_ms {
            Some(t) => t,
            None => 30000,
        };
        let allowed = match &c.allowed_commands {
            Some(v) => copy_strings(v),
            None => Vec::new(),
        };
        let t = ShellTool::new(timeout, allowed);
        proof {
            if c.allowed_commands is None {
                assert(t.allowed() =~= Seq::<Seq<char>>::empty());
            }
        }
        Some(ToolSpec::Shell(t))
    } else if str_eq(k, "memory") {
        let ns = match &c.namespace {
            Some(n) => n.clone(),
            None => String::from_str("default"),
        };
        Some(ToolSpec::Memory(MemoryTool::new(ns)))
    } else if str_eq(k, "http_fetch") {
        let timeout = match c.timeout_ms {
            Some(t) => t,
            None => 15000,
        };
        Some(ToolSpec::HttpFetch(HttpFetchTool::new(timeout, or_default_usize(c.max_response_chars, 50000))))
    } else if str_eq(k, "code_exec") {
        let timeout = match c.timeout_ms {
            Some(t) => t,
            None => 10000,
        };
        let t = match &c.allowed_languages {
            Some(v) => CodeExecTool::new(timeout, or_default_usize(c.max_output_chars, 10000), copy_strings(v)),
            None => {
                let d = CodeExecTool::default_config();
                CodeExecTool::new(timeout, or_default_usize(c.max_output_chars, 10000), d.allowed_languages)
            },
        };
        Some(ToolSpec::CodeExec(t))
    } else {
        None
    }
}

/// The registry for the configured tool definitions; kinds that are not
/// built in are skipped.
pub fn build_registry(definitions: &Vec<ToolDefinition>) -> (r: ToolRegistry)
    ensures
        r.wf(),
        r.table() == registry_table(definitions@, definitions@.len()),
{
    let mut reg = ToolRegistry::new();
    let n = definitions.len();
    let mut i: usize = 0;
    while i < n
        invariant
            n == definitions@.len(),
            0 <= i <= n,
            reg.wf(),
            reg.table() == registry_table(definitions@, i as nat),
        decreases n - i,
    {
        match tool_for_definition(&definitions[i]) {
            Some(t) => {
                reg.register(t);
            },
            None => {},
        }
        i = i + 1;
    }
    reg
}

} // verus!
