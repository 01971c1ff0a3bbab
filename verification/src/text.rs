//! Text helpers over `str` and `String`, stated over their character views.

use vstd::prelude::*;

verus! {

/// Equality of two string slices, compared character by character.
/// Trusted: `<str as PartialEq>::eq`, which std documents as equality of the contents.
#[verifier::external_body]
pub fn str_eq(a: &str, b: &str) -> (r: bool)
    ensures
        r == (a@ == b@),
{
    a == b
}

/// The ASCII digit for `d` (0 to 9).
pub open spec fn digit_char(d: nat) -> char {
    if d == 0 { '0' }
    else if d == 1 { '1' }
    else if d == 2 { '2' }
    else if d == 3 { '3' }
    else if d == 4 { '4' }
    else if d == 5 { '5' }
    else if d == 6 { '6' }
    else if d == 7 { '7' }
    else if d == 8 { '8' }
    else { '9' }
}

/// The decimal digits of `n`, most significant first, without leading zeros
/// ("0" for zero).
pub open spec fn decimal(n: nat) -> Seq<char>
    decreases n,
{
    if n < 10 {
        seq![digit_char(n)]
    } else {
        decimal(n / 10).push(digit_char(n % 10))
    }
}

fn digit_str(d: u64) -> (s: &'static str)
    requires
        d < 10,
    ensures
        s@ == seq![digit_char(d as nat)],
{
    proof {
        reveal_strlit("0");
        reveal_strlit("1");
        reveal_strlit("2");
        reveal_strlit("3");
        reveal_strlit("4");
        reveal_strlit("5");
        reveal_strlit("6");
        reveal_strlit("7");
        reveal_strlit("8");
        reveal_strlit("9");
    }
    let s = if d == 0 { "0" }
    else if d == 1 { "1" }
    else if d == 2 { "2" }
    else if d == 3 { "3" }
    else if d == 4 { "4" }
    else if d == 5 { "5" }
    else if d == 6 { "6" }
    else if d == 7 { "7" }
    else if d == 8 { "8" }
    else { "9" };
    assert(s@ =~= seq![digit_char(d as nat)]);
    s
}

/// Appends the decimal digits of `n` to `out`.
pub fn push_decimal(out: &mut String, n: u64)
    ensures
        final(out)@ == old(out)@ + decimal(n as nat),
    decreases n,
{
    if n < 10 {
        out.append(digit_str(n));
    } else {
        push_decimal(out, n / 10);
        out.append(digit_str(n % 10));
        proof {
            assert(decimal(n as nat) == decimal((n / 10) as nat).push(digit_char((n % 10) as nat)));
        }
    }
    assert(final(out)@ =~= old(out)@ + decimal(n as nat));
}

/// The decimal text of `n`.
pub fn u64_to_decimal(n: u64) -> (s: String)
    ensures
        s@ == decimal(n as nat),
{
    let mut s = String::new();
    push_decimal(&mut s, n);
    assert(s@ =~= decimal(n as nat));
    s
}

/// The decimal text of a signed number: a minus sign before negative ones.
pub open spec fn signed_decimal(n: int) -> Seq<char> {
    if n < 0 {
        "-"@ + decimal((-n) as nat)
    } else {
        decimal(n as nat)
    }
}

/// The decimal text of `n`, with a minus sign when negative.
pub fn i64_to_decimal(n: i64) -> (s: String)
    ensures
        s@ == signed_decimal(n as int),
{
    if n < 0 {
        let m: u64 = (0i128 - n as i128) as u64;
        let mut s = String::from_str("-");
        proof {
            reveal_strlit("-");
        }
        push_decimal(&mut s, m);
        s
    } else {
        u64_to_decimal(n as u64)
    }
}

/// The number of bytes of `c` in UTF-8.
pub open spec fn utf8_width(c: char) -> nat {
    let v = c as u32;
    if v <= 0x7F {
        1
    } else if v <= 0x7FF {
        2
    } else if v <= 0xFFFF {
        3
    } else {
        4
    }
}

/// The number of UTF-8 bytes of the first `k` characters of `s`: where the
/// `k`-th character starts.
pub open spec fn byte_offset(s: Seq<char>, k: int) -> nat
    decreases k,
{
    if k <= 0 {
        0
    } else {
        byte_offset(s, k - 1) + utf8_width(s[k - 1])
    }
}

/// The number of UTF-8 bytes of `s`.
pub open spec fn byte_len(s: Seq<char>) -> nat {
    byte_offset(s, s.len() as int)
}

proof fn lemma_byte_offset_shift(s: Seq<char>, k: int)
    requires
        1 <= k <= s.len(),
    ensures
        byte_offset(s, k) == utf8_width(s[0]) + byte_offset(s.drop_first(), k - 1),
    decreases k,
{
    assert(byte_offset(s, 0) == 0);
    assert(byte_offset(s.drop_first(), 0) == 0);
    if k > 1 {
        lemma_byte_offset_shift(s, k - 1);
        assert(s.drop_first()[k - 2] == s[k - 1]);
    }
}

/// `byte_len` is the length of the UTF-8 encoding, the byte length of a `str`.
pub proof fn lemma_byte_len_encoding(s: Seq<char>)
    ensures
        vstd::utf8::encode_utf8(s).len() == byte_len(s),
    decreases s.len(),
{
    if s.len() > 0 {
        lemma_byte_len_encoding(s.drop_first());
        lemma_byte_offset_shift(s, s.len() as int);
        vstd::utf8::char_is_scalar(s[0]);
        assert(vstd::utf8::encode_scalar(s[0] as u32).len() == utf8_width(s[0]));
    }
}

/// The first `k` characters of `s` take as many bytes as they do in `s`.
pub proof fn lemma_byte_offset_take(s: Seq<char>, k: int)
    requires
        0 <= k <= s.len(),
    ensures
        byte_len(s.take(k)) == byte_offset(s, k),
{
    assert forall|i: int| 0 <= i <= k implies byte_offset(s.take(k), i) == byte_offset(s, i) by {
        lemma_byte_offset_prefix(s, k, i);
    }
}

proof fn lemma_byte_offset_prefix(s: Seq<char>, k: int, i: int)
    requires
        0 <= i <= k <= s.len(),
    ensures
        byte_offset(s.take(k), i) == byte_offset(s, i),
    decreases i,
{
    if i > 0 {
        lemma_byte_offset_prefix(s, k, i - 1);
        assert(s.take(k)[i - 1] == s[i - 1]);
    }
}

/// Where characters start is increasing.
pub proof fn lemma_byte_offset_mono(s: Seq<char>, a: int, b: int)
    requires
        a <= b,
    ensures
        byte_offset(s, a) <= byte_offset(s, b),
    decreases b - a,
{
    if a < b {
        lemma_byte_offset_mono(s, a, b - 1);
    }
}

/// The UTF-8 width of a character.
pub fn char_width(c: char) -> (w: usize)
    ensures
        w == utf8_width(c),
        1 <= w <= 4,
{
    let v = c as u32;
    if v <= 0x7F {
        1
    } else if v <= 0x7FF {
        2
    } else if v <= 0xFFFF {
        3
    } else {
        4
    }
}

/// The characters of `s`.
pub fn chars_of(s: &str) -> (v: Vec<char>)
    ensures
        v@ == s@,
{
    broadcast use vstd::string::group_string_axioms;
    let mut v: Vec<char> = Vec::new();
    for c in it: s.chars()
        invariant
            v@ == it.seq().take(it.index() as int),
            it.seq() == s@,
    {
        v.push(c);
    }
    assert(v@ =~= s@);
    v
}

/// Appends one character.
/// Trusted: `String::push`, which std documents as appending the character.
#[verifier::external_body]
pub fn push_char(s: &mut String, c: char)
    ensures
        final(s)@ == old(s)@.push(c),
{
    s.push(c);
}

/// The characters `v[a..b]` as a new string.
pub fn string_from_range(v: &Vec<char>, a: usize, b: usize) -> (s: String)
    requires
        a <= b <= v@.len(),
    ensures
        s@ == v@.subrange(a as int, b as int),
{
    let mut s = String::new();
    let mut i = a;
    while i < b
        invariant
            a <= i <= b <= v@.len(),
            s@ == v@.subrange(a as int, i as int),
        decreases b - i,
    {
        push_char(&mut s, v[i]);
        assert(s@ =~= v@.subrange(a as int, i + 1));
        i = i + 1;
    }
    s
}

/// `n` occurs in `h` at position `i`.
pub open spec fn matches_at(h: Seq<char>, n: Seq<char>, i: int) -> bool {
    0 <= i && i + n.len() <= h.len() && h.subrange(i, i + n.len()) == n
}

/// Position of the first occurrence of `n` in `h` (an empty `n` occurs at 0).
#[verifier::opaque]
pub open spec fn first_match(h: Seq<char>, n: Seq<char>) -> Option<int> {
    if exists|i: int| matches_at(h, n, i) {
        Some(choose|i: int| matches_at(h, n, i) && forall|j: int| 0 <= j < i ==> !matches_at(h, n, j))
    } else {
        None
    }
}

proof fn lemma_first_match_is(h: Seq<char>, n: Seq<char>, i: int)
    requires
        matches_at(h, n, i),
        forall|j: int| 0 <= j < i ==> !matches_at(h, n, j),
    ensures
        first_match(h, n) == Some(i),
{
    reveal(first_match);
    let k = choose|k: int| matches_at(h, n, k) && forall|j: int| 0 <= j < k ==> !matches_at(h, n, j);
    assert(matches_at(h, n, i) && forall|j: int| 0 <= j < i ==> !matches_at(h, n, j));
    if k < i {
        assert(!matches_at(h, n, k));
    } else if i < k {
        assert(!matches_at(h, n, i));
    }
}

fn matches_at_exec(h: &Vec<char>, n: &Vec<char>, i: usize) -> (b: bool)
    requires
        i <= h@.len(),
    ensures
        b == matches_at(h@, n@, i as int),
{
    if n.len() > h.len() - i {
        return false;
    }
    let mut k: usize = 0;
    while k < n.len()
        invariant
            i + n@.len() <= h.len(),
            0 <= k <= n@.len(),
            forall|j: int| 0 <= j < k ==> h@[i + j] == n@[j],
        decreases n@.len() - k,
    {
        if h[i + k] != n[k] {
            assert(h@.subrange(i as int, i + n@.len())[k as int] != n@[k as int]);
            return false;
        }
        k = k + 1;
    }
    assert(h@.subrange(i as int, i + n@.len()) =~= n@);
    true
}

/// The first occurrence of `n` in `h` at or after `from`.
pub fn find_from(h: &Vec<char>, n: &Vec<char>, from: usize) -> (r: Option<usize>)
    requires
        from <= h@.len(),
    ensures
        r == match first_match(h@.subrange(from as int, h@.len() as int), n@) {
            Some(i) => Some((i + from) as usize),
            None => None::<usize>,
        },
{
    let ghost rest = h@.subrange(from as int, h@.len() as int);
    let mut i = from;
    loop
        invariant
            from <= i <= h@.len(),
            rest == h@.subrange(from as int, h@.len() as int),
            forall|j: int| 0 <= j < i - from ==> !matches_at(rest, n@, j),
        decreases h@.len() - i,
    {
        let m = matches_at_exec(h, n, i);
        proof {
            assert(rest.subrange(i - from, rest.len() as int) =~= h@.subrange(i as int, h@.len() as int));
            if matches_at(h@, n@, i as int) || matches_at(rest, n@, i - from) {
                assert(rest.subrange(i - from, i - from + n@.len()) =~= h@.subrange(i as int, i + n@.len()));
            }
        }
        if m {
            proof {
                lemma_first_match_is(rest, n@, i - from);
            }
            return Some(i);
        }
        if i == h.len() {
            proof {
                assert forall|j: int| !matches_at(rest, n@, j) by {
                    if 0 <= j && j < i - from {
                    }
                }
                lemma_first_match_matches(rest, n@);
            }
            return None;
        }
        i = i + 1;
    }
}

/// Unicode `White_Space`, the set `char::is_whitespace` tests for.
pub open spec fn is_ws(c: char) -> bool {
    let u = c as u32;
    (0x9 <= u <= 0xd) || u == 0x20 || u == 0x85 || u == 0xa0 || u == 0x1680 || (0x2000 <= u <= 0x200a)
        || u == 0x2028 || u == 0x2029 || u == 0x202f || u == 0x205f || u == 0x3000
}

pub fn is_whitespace(c: char) -> (b: bool)
    ensures
        b == is_ws(c),
{
    let u = c as u32;
    (0x9 <= u && u <= 0xd) || u == 0x20 || u == 0x85 || u == 0xa0 || u == 0x1680 || (0x2000 <= u && u <= 0x200a)
        || u == 0x2028 || u == 0x2029 || u == 0x202f || u == 0x205f || u == 0x3000
}

/// `s` without its leading whitespace.
pub open spec fn trim_front(s: Seq<char>) -> Seq<char>
    decreases s.len(),
{
    if s.len() > 0 && is_ws(s[0]) {
        trim_front(s.drop_first())
    } else {
        s
    }
}

/// `s` without its trailing whitespace.
pub open spec fn trim_back(s: Seq<char>) -> Seq<char>
    decreases s.len(),
{
    if s.len() > 0 && is_ws(s.last()) {
        trim_back(s.drop_last())
    } else {
        s
    }
}

/// `s` without leading and trailing whitespace (what `str::trim` gives).
pub open spec fn trim(s: Seq<char>) -> Seq<char> {
    trim_back(trim_front(s))
}

/// The bounds of `v[a..b]` once trimmed.
pub fn trim_range(v: &Vec<char>, a: usize, b: usize) -> (r: (usize, usize))
    requires
        a <= b <= v@.len(),
    ensures
        a <= r.0 <= r.1 <= b,
        v@.subrange(r.0 as int, r.1 as int) == trim(v@.subrange(a as int, b as int)),
{
    let mut i = a;
    while i < b && is_whitespace(v[i])
        invariant
            a <= i <= b <= v@.len(),
            trim_front(v@.subrange(i as int, b as int)) == trim_front(v@.subrange(a as int, b as int)),
        decreases b - i,
    {
        assert(v@.subrange(i as int, b as int).drop_first() =~= v@.subrange(i + 1, b as int));
        i = i + 1;
    }
    let mut j = b;
    while j > i && is_whitespace(v[j - 1])
        invariant
            a <= i <= j <= b <= v@.len(),
            trim_front(v@.subrange(i as int, b as int)) == trim_front(v@.subrange(a as int, b as int)),
            trim_front(v@.subrange(i as int, b as int)) == v@.subrange(i as int, b as int),
            trim_back(v@.subrange(i as int, j as int)) == trim_back(v@.subrange(i as int, b as int)),
        decreases j - i,
    {
        assert(v@.subrange(i as int, j as int).drop_last() =~= v@.subrange(i as int, j - 1));
        j = j - 1;
    }
    (i, j)
}

/// `h` with every non-overlapping occurrence of `p`, from the left, replaced by `r`.
#[verifier::opaque]
pub open spec fn replace_all(h: Seq<char>, p: Seq<char>, r: Seq<char>) -> Seq<char>
    decreases h.len(),
{
    if p.len() == 0 {
        h
    } else {
        match first_match(h, p) {
            Some(i) => if matches_at(h, p, i) {
                h.subrange(0, i) + r + replace_all(h.subrange(i + p.len(), h.len() as int), p, r)
            } else {
                h
            },
            None => h,
        }
    }
}

/// `h` cut at every non-overlapping occurrence of the separator `p`, from the left.
#[verifier::opaque]
pub open spec fn split_parts(h: Seq<char>, p: Seq<char>) -> Seq<Seq<char>>
    decreases h.len(),
{
    if p.len() == 0 {
        seq![h]
    } else {
        match first_match(h, p) {
            Some(i) => if matches_at(h, p, i) {
                seq![h.subrange(0, i)] + split_parts(h.subrange(i + p.len(), h.len() as int), p)
            } else {
                seq![h]
            },
            None => seq![h],
        }
    }
}

proof fn lemma_least_match(h: Seq<char>, n: Seq<char>, i: int)
    requires
        matches_at(h, n, i),
    ensures
        exists|k: int| matches_at(h, n, k) && forall|j: int| 0 <= j < k ==> !matches_at(h, n, j),
    decreases i,
{
    if exists|j: int| 0 <= j < i && matches_at(h, n, j) {
        let j = choose|j: int| 0 <= j < i && matches_at(h, n, j);
        lemma_least_match(h, n, j);
    } else {
        assert(matches_at(h, n, i) && forall|j: int| 0 <= j < i ==> !matches_at(h, n, j));
    }
}

/// The first match is a match, and nothing before it matches.
pub proof fn lemma_first_match_matches(h: Seq<char>, n: Seq<char>)
    ensures
        first_match(h, n) matches Some(i) ==> matches_at(h, n, i) && forall|j: int| 0 <= j < i ==> !matches_at(h, n, j),
        first_match(h, n) is None ==> forall|j: int| !matches_at(h, n, j),
        (forall|j: int| !matches_at(h, n, j)) ==> first_match(h, n) is None,
{
    reveal(first_match);
    if exists|i: int| matches_at(h, n, i) {
        let i = choose|i: int| matches_at(h, n, i);
        lemma_least_match(h, n, i);
    }
}

proof fn lemma_replace_step(s: Seq<char>, p: Seq<char>, r: Seq<char>)
    requires
        p.len() > 0,
    ensures
        match first_match(s, p) {
            Some(k) => replace_all(s, p, r) == s.subrange(0, k) + r + replace_all(s.subrange(k + p.len(), s.len() as int), p, r)
                && 0 <= k && k + p.len() <= s.len(),
            None => replace_all(s, p, r) == s,
        },
{
    lemma_first_match_matches(s, p);
    reveal(replace_all);
}

/// `v[a..b]` with every occurrence of `p` replaced by `r`, as a new string.
pub fn replace_range(v: &Vec<char>, a: usize, b: usize, p: &Vec<char>, r: &str) -> (s: String)
    requires
        a <= b <= v@.len(),
        p@.len() > 0,
    ensures
        s@ == replace_all(v@.subrange(a as int, b as int), p@, r@),
{
    let ghost whole = v@.subrange(a as int, b as int);
    let sub = slice_vec(v, a, b);
    let mut out = String::new();
    let mut pos: usize = 0;
    assert(sub@.subrange(0, sub@.len() as int) =~= sub@);
    assert(out@ + replace_all(sub@, p@, r@) =~= replace_all(whole, p@, r@));
    loop
        invariant
            sub@ == whole,
            whole == v@.subrange(a as int, b as int),
            a <= b <= v@.len(),
            p@.len() > 0,
            0 <= pos <= sub@.len(),
            out@ + replace_all(sub@.subrange(pos as int, sub@.len() as int), p@, r@) == replace_all(whole, p@, r@),
        decreases sub@.len() - pos,
    {
        let ghost rest = sub@.subrange(pos as int, sub@.len() as int);
        let f = find_from(&sub, p, pos);
        proof {
            lemma_replace_step(rest, p@, r@);
        }
        match f {
            Some(i) => {
                assert(first_match(rest, p@) is Some);
                let ghost k = first_match(rest, p@)->0;
                assert(0 <= k && k + p@.len() <= rest.len());
                assert(i == k + pos);
                assert(pos <= i && i + p@.len() <= sub@.len());
                let piece = string_from_range(&sub, pos, i);
                let ghost before = out@;
                out.append(piece.as_str());
                out.append(r);
                proof {
                    assert(rest.subrange(0, i - pos) =~= sub@.subrange(pos as int, i as int));
                    assert(rest.subrange(i - pos + p@.len(), rest.len() as int) =~= sub@.subrange(
                        i + p@.len(),
                        sub@.len() as int,
                    ));
                    assert(out@ =~= before + rest.subrange(0, i - pos) + r@);
                }
                pos = i + p.len();
            },
            None => {
                let piece = string_from_range(&sub, pos, sub.len());
                let ghost before = out@;
                out.append(piece.as_str());
                assert(out@ =~= before + rest);
                return out;
            },
        }
    }
}

/// `v[a..b]` as a new vector.
pub fn slice_vec(v: &Vec<char>, a: usize, b: usize) -> (s: Vec<char>)
    requires
        a <= b <= v@.len(),
    ensures
        s@ == v@.subrange(a as int, b as int),
{
    let mut s: Vec<char> = Vec::new();
    let mut i = a;
    while i < b
        invariant
            a <= i <= b <= v@.len(),
            s@ == v@.subrange(a as int, i as int),
        decreases b - i,
    {
        s.push(v[i]);
        assert(s@ =~= v@.subrange(a as int, i + 1));
        i = i + 1;
    }
    s
}

} // verus!
