//! The text side of the web-search tool: building the DuckDuckGo query URL,
//! cutting results out of the HTML page and laying them out as text.

use vstd::prelude::*;
use crate::error::{join2, AxonError};
use crate::tools::{ToolMetadata, ToolResult};
use crate::text::{
    decimal, push_decimal,
    chars_of, find_from, first_match, lemma_first_match_matches, matches_at, replace_all, replace_range, slice_vec,
    split_parts, string_from_range, trim, trim_range,
};

verus! {

/// One search hit.
#[derive(Debug, Clone)]
pub struct ParsedResult {
    pub title: String,
    pub href: String,
    pub body: String,
}

/// The text after the first `start` and before the next `end` (all the rest
/// when `end` is empty).
pub open spec fn between_spec(s: Seq<char>, start: Seq<char>, end: Seq<char>) -> Option<Seq<char>> {
    match first_match(s, start) {
        None => None,
        Some(i) => {
            let rest = s.subrange(i + start.len(), s.len() as int);
            if end.len() == 0 {
                Some(rest)
            } else {
                match first_match(rest, end) {
                    Some(j) => Some(rest.subrange(0, j)),
                    None => None,
                }
            }
        },
    }
}

/// The text after the first `marker`.
pub open spec fn after_spec(s: Seq<char>, marker: Seq<char>) -> Option<Seq<char>> {
    match first_match(s, marker) {
        Some(i) => Some(s.subrange(i + marker.len(), s.len() as int)),
        None => None,
    }
}

proof fn lemma_first_match_is_at(h: Seq<char>, n: Seq<char>, i: int)
    requires
        matches_at(h, n, i),
        forall|j: int| 0 <= j < i ==> !matches_at(h, n, j),
    ensures
        first_match(h, n) == Some(i),
{
    lemma_first_match_matches(h, n);
    if first_match(h, n) is None {
        assert(!matches_at(h, n, i));
    } else {
        let k = first_match(h, n)->0;
        if k < i {
            assert(!matches_at(h, n, k));
        } else if i < k {
            assert(!matches_at(h, n, i));
        }
    }
}

/// Bounds within `v` of `between_spec(v, start, end)`.
fn between_range(v: &Vec<char>, start: &Vec<char>, end: &Vec<char>) -> (r: Option<(usize, usize)>)
    ensures
        match between_spec(v@, start@, end@) {
            Some(x) => r matches Some((a, b)) && a <= b <= v@.len() && v@.subrange(a as int, b as int) == x,
            None => r is None,
        },
{
    let vlen = v.len();
    proof {
        lemma_first_match_matches(v@, start@);
        assert(v@.subrange(0, v@.len() as int) =~= v@);
    }
    let f = find_from(v, start, 0);
    match f {
        None => None,
        Some(i) => {
            let ghost k = first_match(v@, start@)->0;
            assert(matches_at(v@, start@, k));
            assert(i as int == k);
            let a = i + start.len();
            let ghost rest = v@.subrange(a as int, v@.len() as int);
            if end.len() == 0 {
                return Some((a, v.len()));
            }
            proof {
                lemma_first_match_matches(rest, end@);
            }
            match find_from(v, end, a) {
                Some(j) => {
                    let ghost k2 = first_match(rest, end@)->0;
                    assert(matches_at(rest, end@, k2));
                    assert(j as int == k2 + a);
                    assert(rest.subrange(0, j - a) =~= v@.subrange(a as int, j as int));
                    Some((a, j))
                },
                None => None,
            }
        },
    }
}

/// Bounds within `v` of `after_spec(v, marker)`.
fn after_range(v: &Vec<char>, marker: &Vec<char>) -> (r: Option<usize>)
    ensures
        match after_spec(v@, marker@) {
            Some(x) => r matches Some(a) && a <= v@.len() && v@.subrange(a as int, v@.len() as int) == x,
            None => r is None,
        },
{
    let vlen = v.len();
    proof {
        lemma_first_match_matches(v@, marker@);
        assert(v@.subrange(0, v@.len() as int) =~= v@);
    }
    match find_from(v, marker, 0) {
        None => None,
        Some(i) => {
            let ghost k = first_match(v@, marker@)->0;
            assert(matches_at(v@, marker@, k));
            assert(i as int == k);
            Some(i + marker.len())
        },
    }
}

/// The text between the first `start` and the next `end`; an empty `start`
/// means the beginning, an empty `end` the rest of the text.
pub fn extract_between<'a>(s: &'a str, start: &str, end: &str) -> (r: Option<&'a str>)
    ensures
        match between_spec(s@, start@, end@) {
            Some(x) => r matches Some(t) && t@ == x,
            None => r is None,
        },
{
    let v = chars_of(s);
    let sv = chars_of(start);
    let ev = chars_of(end);
    match between_range(&v, &sv, &ev) {
        Some((a, b)) => Some(s.substring_char(a, b)),
        None => None,
    }
}

/// The text after the first `marker`.
pub fn extract_after<'a>(s: &'a str, marker: &str) -> (r: Option<&'a str>)
    ensures
        match after_spec(s@, marker@) {
            Some(x) => r matches Some(t) && t@ == x,
            None => r is None,
        },
{
    let v = chars_of(s);
    let mv = chars_of(marker);
    match after_range(&v, &mv) {
        Some(a) => Some(s.substring_char(a, v.len())),
        None => None,
    }
}

pub open spec fn result_sep() -> Seq<char> {
    "class=\"result__a\""@
}

pub open spec fn redirect_prefix() -> Seq<char> {
    "https://duckduckgo.com/l/?uddg="@
}

/// The title of a result block: the link text, trimmed.
pub open spec fn part_title(p: Seq<char>) -> Seq<char> {
    match between_spec(p, ">"@, "</a>"@) {
        Some(x) => trim(x),
        None => Seq::empty(),
    }
}

/// The link of a result block, with DuckDuckGo's redirect prefix removed.
pub open spec fn part_href(p: Seq<char>) -> Seq<char> {
    match between_spec(p, "href=\""@, "\""@) {
        Some(x) => replace_all(x, redirect_prefix(), Seq::empty()),
        None => Seq::empty(),
    }
}

/// The snippet of a result block, trimmed.
pub open spec fn part_body(p: Seq<char>) -> Seq<char> {
    match after_spec(p, "class=\"result__snippet\">"@) {
        Some(x) => match between_spec(x, Seq::empty(), "<"@) {
            Some(y) => trim(y),
            None => Seq::empty(),
        },
        None => Seq::empty(),
    }
}

/// The hits of the given result blocks: those with a title, in order.
pub open spec fn ddg_results(parts: Seq<Seq<char>>) -> Seq<(Seq<char>, Seq<char>, Seq<char>)>
    decreases parts.len(),
{
    if parts.len() == 0 {
        Seq::empty()
    } else {
        let prev = ddg_results(parts.drop_last());
        let p = parts.last();
        if part_title(p).len() > 0 {
            prev.push((part_title(p), part_href(p), part_body(p)))
        } else {
            prev
        }
    }
}

pub open spec fn results_view(rs: Seq<ParsedResult>) -> Seq<(Seq<char>, Seq<char>, Seq<char>)> {
    rs.map_values(|r: ParsedResult| (r.title@, r.href@, r.body@))
}

/// At most the first `n` elements.
pub open spec fn take_up_to<A>(s: Seq<A>, n: int) -> Seq<A> {
    if n < s.len() {
        s.take(n)
    } else {
        s
    }
}

/// The hits of a DuckDuckGo HTML page: of the blocks that follow each
/// `class="result__a"`, the first `max`, keeping those with a title.
pub open spec fn parse_ddg_spec(html: Seq<char>, max: int) -> Seq<(Seq<char>, Seq<char>, Seq<char>)> {
    ddg_results(take_up_to(split_parts(html, result_sep()).drop_first(), max))
}

proof fn lemma_split_step(s: Seq<char>, p: Seq<char>)
    requires
        p.len() > 0,
    ensures
        match first_match(s, p) {
            Some(k) => split_parts(s, p) == seq![s.subrange(0, k)] + split_parts(
                s.subrange(k + p.len(), s.len() as int),
                p,
            ) && 0 <= k && k + p.len() <= s.len(),
            None => split_parts(s, p) == seq![s],
        },
{
    lemma_first_match_matches(s, p);
    reveal(split_parts);
}

fn parse_part(p: &Vec<char>) -> (r: ParsedResult)
    ensures
        r.title@ == part_title(p@),
        r.href@ == part_href(p@),
        r.body@ == part_body(p@),
{
    let href_open = chars_of("href=\"");
    let quote = chars_of("\"");
    let gt = chars_of(">");
    let close_a = chars_of("</a>");
    let snippet = chars_of("class=\"result__snippet\">");
    let empty: Vec<char> = Vec::new();
    let lt = chars_of("<");
    let redirect = chars_of("https://duckduckgo.com/l/?uddg=");
    proof {
        reveal_strlit("https://duckduckgo.com/l/?uddg=");
        reveal_strlit("");
        assert(empty@ =~= Seq::<char>::empty());
        assert(""@ =~= Seq::<char>::empty());
    }
    let href = match between_range(p, &href_open, &quote) {
        Some((a, b)) => replace_range(p, a, b, &redirect, ""),
        None => String::new(),
    };
    let title = match between_range(p, &gt, &close_a) {
        Some((a, b)) => {
            let (x, y) = trim_range(p, a, b);
            string_from_range(p, x, y)
        },
        None => String::new(),
    };
    let body = match after_range(p, &snippet) {
        Some(a) => {
            let tail = slice_vec(p, a, p.len());
            match between_range(&tail, &empty, &lt) {
                Some((x, y)) => {
                    let (x2, y2) = trim_range(&tail, x, y);
                    string_from_range(&tail, x2, y2)
                },
                None => String::new(),
            }
        },
        None => String::new(),
    };
    ParsedResult { title, href, body }
}

/// The hits of a DuckDuckGo HTML results page, at most `max` blocks looked at.
pub fn parse_ddg_html(html: &str, max: usize) -> (rs: Vec<ParsedResult>)
    ensures
        results_view(rs@) == parse_ddg_spec(html@, max as int),
{
    let h = chars_of(html);
    let hlen = h.len();
    let sep = chars_of("class=\"result__a\"");
    proof {
        reveal_strlit("class=\"result__a\"");
        assert(h@.subrange(0, h@.len() as int) =~= h@);
        lemma_split_step(h@, sep@);
    }
    let ghost all = split_parts(h@, sep@).drop_first();
    let ghost mut consumed: Seq<Seq<char>> = Seq::empty();
    let mut results: Vec<ParsedResult> = Vec::new();
    let mut next = find_from(&h, &sep, 0);
    let mut count: usize = 0;
    proof {
        match first_match(h@, sep@) {
            Some(k) => {
                assert(next == Some(k as usize));
                assert((seq![h@.subrange(0, k)] + split_parts(h@.subrange(k + sep@.len(), h@.len() as int), sep@)).drop_first()
                    =~= split_parts(h@.subrange(k + sep@.len(), h@.len() as int), sep@));
            },
            None => {
                assert(next is None);
                assert(seq![h@].drop_first() =~= Seq::<Seq<char>>::empty());
            },
        }
        assert(all =~= consumed + match next {
            Some(i) => split_parts(h@.subrange(i + sep@.len(), h@.len() as int), sep@),
            None => Seq::<Seq<char>>::empty(),
        });
        assert(results_view(results@) =~= ddg_results(consumed));
    }
    while count < max
        invariant
            count <= max,
            hlen == h@.len(),
            sep@ == result_sep(),
            sep@.len() > 0,
            consumed.len() == count,
            next matches Some(i) ==> i + sep@.len() <= h@.len(),
            all == consumed + match next {
                Some(i) => split_parts(h@.subrange(i + sep@.len(), h@.len() as int), sep@),
                None => Seq::<Seq<char>>::empty(),
            },
            results_view(results@) == ddg_results(consumed),
        ensures
            count == max || next is None,
        decreases max - count,
    {
        match next {
            None => {
                break;
            },
            Some(i) => {
                let start = i + sep.len();
                let ghost s = h@.subrange(start as int, h@.len() as int);
                proof {
                    lemma_split_step(s, sep@);
                }
                let j = find_from(&h, &sep, start);
                proof {
                    if let Some(jj) = j {
                        let k2 = first_match(s, sep@)->0;
                        assert(jj as int == k2 + start);
                    }
                }
                let end = match j {
                    Some(j) => j,
                    None => h.len(),
                };
                let part = slice_vec(&h, start, end);
                let r = parse_part(&part);
                let ghost prev_results = results@;
                if r.title.as_str().unicode_len() > 0 {
                    results.push(r);
                }
                proof {
                    match j {
                        Some(jj) => {
                            assert(s.subrange(0, jj - start) =~= part@);
                            assert(s.subrange(jj - start + sep@.len(), s.len() as int) =~= h@.subrange(
                                jj + sep@.len(),
                                h@.len() as int,
                            ));
                        },
                        None => {
                            assert(s =~= part@);
                        },
                    }
                    let old_consumed = consumed;
                    consumed = consumed.push(part@);
                    assert(consumed.drop_last() =~= old_consumed);
                    assert(all =~= consumed + match j {
                        Some(jj) => split_parts(h@.subrange(jj + sep@.len(), h@.len() as int), sep@),
                        None => Seq::<Seq<char>>::empty(),
                    });
                    assert(results_view(results@) =~= ddg_results(consumed));
                }
                next = j;
                count = count + 1;
            },
        }
    }
    proof {
        if count == max {
            assert(consumed =~= take_up_to(all, max as int)) by {
                if (max as int) < all.len() {
                    assert(all.take(max as int) =~= consumed);
                }
            }
        } else {
            assert(all =~= consumed);
            assert(take_up_to(all, max as int) == all);
        }
        assert(consumed == take_up_to(all, max as int));
        assert(h@ == html@);
        assert(sep@ == result_sep());
    }
    results
}

/// A character that stands for itself in the query string.
pub open spec fn is_unreserved(c: char) -> bool {
    ('A' <= c && c <= 'Z') || ('a' <= c && c <= 'z') || ('0' <= c && c <= '9') || c == '-' || c == '_' || c == '.'
        || c == '~'
}

/// The upper-case hexadecimal digit for `d` (0 to 15).
pub open spec fn hex_digit(d: nat) -> char {
    "0123456789ABCDEF"@[d as int]
}

/// The upper-case hexadecimal digits of `n`, without leading zeros.
pub open spec fn hex(n: nat) -> Seq<char>
    decreases n,
{
    if n < 16 {
        seq![hex_digit(n)]
    } else {
        hex(n / 16).push(hex_digit(n % 16))
    }
}

/// At least two hexadecimal digits, as `{:02X}` writes them.
pub open spec fn hex2(n: nat) -> Seq<char> {
    if n < 16 {
        seq!['0', hex_digit(n)]
    } else {
        hex(n)
    }
}

/// How a query character is written in the URL: unreserved ones as they
/// are, a space as `+`, any other as `%` and its code point in hex.
pub open spec fn encode_char(c: char) -> Seq<char> {
    if is_unreserved(c) {
        seq![c]
    } else if c == ' ' {
        seq!['+']
    } else {
        seq!['%'] + hex2((c as u32) as nat)
    }
}

pub open spec fn encode_text(s: Seq<char>) -> Seq<char>
    decreases s.len(),
{
    if s.len() == 0 {
        Seq::empty()
    } else {
        encode_text(s.drop_last()) + encode_char(s.last())
    }
}

fn push_hex(out: &mut String, n: u32, digits: &Vec<char>)
    requires
        digits@ == "0123456789ABCDEF"@,
    ensures
        final(out)@ == old(out)@ + hex(n as nat),
    decreases n,
{
    proof {
        reveal_strlit("0123456789ABCDEF");
    }
    if n < 16 {
        crate::text::push_char(out, digits[n as usize]);
        assert(final(out)@ =~= old(out)@ + hex(n as nat));
    } else {
        push_hex(out, n / 16, digits);
        crate::text::push_char(out, digits[(n % 16) as usize]);
        assert(hex(n as nat) == hex((n / 16) as nat).push(hex_digit((n % 16) as nat)));
        assert(final(out)@ =~= old(out)@ + hex(n as nat));
    }
}

/// The query as DuckDuckGo's URL carries it.
pub fn encode_query(q: &str) -> (e: String)
    ensures
        e@ == encode_text(q@),
{
    proof {
        reveal_strlit("0123456789ABCDEF");
    }
    let digits = chars_of("0123456789ABCDEF");
    assert(digits@.len() == 16);
    let v = chars_of(q);
    let n = v.len();
    let mut out = String::new();
    let mut i: usize = 0;
    assert(v@.take(0) =~= Seq::<char>::empty());
    while i < n
        invariant
            v@ == q@,
            n == v@.len(),
            digits@ == "0123456789ABCDEF"@,
            digits@.len() == 16,
            0 <= i <= n,
            out@ == encode_text(v@.take(i as int)),
        decreases n - i,
    {
        let c = v[i];
        let ghost before = out@;
        if ('A' <= c && c <= 'Z') || ('a' <= c && c <= 'z') || ('0' <= c && c <= '9') || c == '-' || c == '_'
            || c == '.' || c == '~' {
            crate::text::push_char(&mut out, c);
        } else if c == ' ' {
            crate::text::push_char(&mut out, '+');
        } else {
            crate::text::push_char(&mut out, '%');
            let code = c as u32;
            if code < 16 {
                crate::text::push_char(&mut out, '0');
                crate::text::push_char(&mut out, digits[code as usize]);
                assert(hex2(code as nat) == seq!['0', hex_digit(code as nat)]);
            } else {
                push_hex(&mut out, code, &digits);
            }
        }
        proof {
            assert(out@ =~= before + encode_char(c));
            assert(v@.take(i + 1).drop_last() =~= v@.take(i as int));
            assert(v@.take(i + 1).last() == c);
        }
        i = i + 1;
    }
    assert(v@.take(n as int) =~= v@);
    out
}

/// A character that may stand in an encoded query.
pub open spec fn url_safe(c: char) -> bool {
    is_unreserved(c) || c == '+' || c == '%'
}

proof fn lemma_hex_digit_safe(d: nat)
    requires
        d < 16,
    ensures
        is_unreserved(hex_digit(d)),
{
    reveal_strlit("0123456789ABCDEF");
    let lit = "0123456789ABCDEF"@;
    assert(lit == seq!['0', '1', '2', '3', '4', '5', '6', '7', '8', '9', 'A', 'B', 'C', 'D', 'E', 'F']);
    assert(d == 0 || d == 1 || d == 2 || d == 3 || d == 4 || d == 5 || d == 6 || d == 7 || d == 8 || d == 9
        || d == 10 || d == 11 || d == 12 || d == 13 || d == 14 || d == 15);
}

proof fn lemma_hex_safe(n: nat)
    ensures
        forall|i: int| 0 <= i < hex(n).len() ==> is_unreserved(#[trigger] hex(n)[i]),
    decreases n,
{
    if n < 16 {
        lemma_hex_digit_safe(n);
    } else {
        lemma_hex_safe(n / 16);
        lemma_hex_digit_safe(n % 16);
        let prev = hex(n / 16);
        assert forall|i: int| 0 <= i < hex(n).len() implies is_unreserved(#[trigger] hex(n)[i]) by {
            if i < prev.len() {
                assert(hex(n)[i] == prev[i]);
            }
        }
    }
}

/// An encoded query holds only unreserved characters, `+` and `%`.
pub proof fn lemma_encoded_query_is_url_safe(s: Seq<char>)
    ensures
        forall|i: int| 0 <= i < encode_text(s).len() ==> url_safe(#[trigger] encode_text(s)[i]),
    decreases s.len(),
{
    if s.len() > 0 {
        lemma_encoded_query_is_url_safe(s.drop_last());
        let c = s.last();
        let n = (c as u32) as nat;
        lemma_hex_safe(n);
        if n < 16 {
            lemma_hex_digit_safe(n);
        }
        let e = encode_char(c);
        assert forall|i: int| 0 <= i < e.len() implies url_safe(#[trigger] e[i]) by {
            if !is_unreserved(c) && c != ' ' && i > 0 {
                assert(e[i] == hex2(n)[i - 1]);
            }
        }
        let prev = encode_text(s.drop_last());
        assert forall|i: int| 0 <= i < encode_text(s).len() implies url_safe(#[trigger] encode_text(s)[i]) by {
            if i < prev.len() {
                assert(encode_text(s)[i] == prev[i]);
            } else {
                assert(encode_text(s)[i] == e[i - prev.len()]);
            }
        }
    }
}

/// The DuckDuckGo HTML search URL for a query.
pub fn search_url(q: &str) -> (u: String)
    ensures
        u@ == "https://html.duckduckgo.com/html/?q="@ + encode_text(q@),
{
    let e = encode_query(q);
    join2("https://html.duckduckgo.com/html/?q=", e.as_str())
}

/// One hit as the tool lists it: its number, title, snippet and link.
pub open spec fn result_block(i: nat, r: (Seq<char>, Seq<char>, Seq<char>)) -> Seq<char> {
    decimal(i + 1) + ". "@ + r.0 + "\n   "@ + r.2 + "\n   "@ + r.1 + "\n\n"@
}

pub open spec fn results_text(rs: Seq<(Seq<char>, Seq<char>, Seq<char>)>) -> Seq<char>
    decreases rs.len(),
{
    if rs.len() == 0 {
        Seq::empty()
    } else {
        results_text(rs.drop_last()) + result_block((rs.len() - 1) as nat, rs.last())
    }
}

/// Searches the web through DuckDuckGo.
#[derive(Debug, Clone, Copy)]
pub struct WebSearchTool {
    pub max_results: usize,
}

/// The description the `web_search` tool offers the model.
pub open spec fn web_search_description() -> Seq<char> {
    "Search the web using DuckDuckGo and return relevant results. Input: { \"query\": string, \"max_results\"?: number }"@
}

impl WebSearchTool {
    pub fn new(max_results: usize) -> (t: WebSearchTool)
        ensures
            t.max_results == max_results,
    {
        WebSearchTool { max_results }
    }

    pub fn name(&self) -> (s: &'static str)
        ensures
            s@ == "web_search"@,
    {
        "web_search"
    }

    pub fn description(&self) -> (s: &'static str)
        ensures
            s@ == web_search_description(),
    {
        "Search the web using DuckDuckGo and return relevant results. Input: { \"query\": string, \"max_results\"?: number }"
    }

    /// The query of a request; missing is an error.
    pub fn require_query<'a>(&self, query: Option<&'a str>) -> (r: Result<&'a str, AxonError>)
        ensures
            match query {
                Some(q) => r == Ok::<&str, AxonError>(q),
                None => r matches Err(AxonError::Tool(m)) && m@ == "web_search: missing 'query' field"@,
            },
    {
        match query {
            Some(q) => Ok(q),
            None => Err(AxonError::Tool(String::from_str("web_search: missing 'query' field"))),
        }
    }

    /// How many hits to keep: the requested number, else the configured one.
    pub fn limit(&self, requested: Option<u64>) -> (n: usize)
        ensures
            n == match requested {
                Some(m) => m as usize,
                None => self.max_results,
            },
    {
        match requested {
            Some(m) => m as usize,
            None => self.max_results,
        }
    }

    /// The answer for the hits of a query: a note when there are none, else
    /// the numbered hits, with their count and the query.
    pub fn answer(&self, query: &str, results: &Vec<ParsedResult>) -> (r: ToolResult)
        ensures
            !r.is_error,
            results@.len() == 0 ==> r.content@ == "No results found for: "@ + query@ && r.metadata is Null,
            results@.len() > 0 ==> r.content@ == results_text(results_view(results@)),
            results@.len() > 0 ==> (r.metadata matches ToolMetadata::Search { result_count: c, query: q } && c
                == results@.len() && q@ == query@),
    {
        let n = results.len();
        if n == 0 {
            return ToolResult::ok(join2("No results found for: ", query));
        }
        let mut out = String::new();
        let mut i: usize = 0;
        assert(results_view(results@).take(0) =~= Seq::<(Seq<char>, Seq<char>, Seq<char>)>::empty());
        while i < n
            invariant
                n == results@.len(),
                0 <= i <= n,
                out@ == results_text(results_view(results@).take(i as int)),
            decreases n - i,
        {
            let r = &results[i];
            push_block(&mut out, i, r);
            proof {
                let rv = results_view(results@);
                assert(rv.take(i + 1).drop_last() =~= rv.take(i as int));
                assert(rv.take(i + 1).last() == rv[i as int]);
                assert(out@ =~= results_text(rv.take(i + 1)));
            }
            i = i + 1;
        }
        assert(results_view(results@).take(n as int) =~= results_view(results@));
        ToolResult {
            content: out,
            metadata: ToolMetadata::Search { result_count: n, query: String::from_str(query) },
            is_error: false,
        }
    }
}

fn push_block(out: &mut String, i: usize, r: &ParsedResult)
    requires
        i < usize::MAX,
    ensures
        final(out)@ == old(out)@ + result_block(i as nat, (r.title@, r.href@, r.body@)),
{
    proof {
        reveal_strlit(". ");
        reveal_strlit("\n   ");
        reveal_strlit("\n\n");
    }
    push_decimal(out, (i as u64) + 1);
    out.append(". ");
    out.append(r.title.as_str());
    out.append("\n   ");
    out.append(r.body.as_str());
    out.append("\n   ");
    out.append(r.href.as_str());
    out.append("\n\n");
    assert(final(out)@ =~= old(out)@ + result_block(i as nat, (r.title@, r.href@, r.body@)));
}

} // verus!
