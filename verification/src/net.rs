//! Request handling rules of the local HTTP services (OCR and peer transfer): response
//! bodies, authorization headers, tokens and access addresses; and version comparison.
use vstd::prelude::*;

use crate::crypto::{hex_lower, sha256};
use crate::text::{
    chars_of, decimal, digit_char, is_digit, push_chars, push_str, split_chars, split_on,
    string_from_chars, trim, trim_chars,
};

verus! {

/// Body of a peer-transfer API response.
#[derive(Debug, Clone)]
pub struct ApiResponse<T> {
    pub success: bool,
    pub data: Option<T>,
    pub error: Option<String>,
}

impl<T> ApiResponse<T> {
    /// A successful response carrying data.
    pub fn success(data: T) -> (r: Self)
        ensures
            r.success && r.data == Some(data) && r.error is None,
    {
        ApiResponse { success: true, data: Some(data), error: None }
    }
}

/// A failed response carrying a message.
pub fn api_error(msg: String) -> (r: ApiResponse<()>)
    ensures
        !r.success && r.data is None && r.error == Some(msg),
{
    ApiResponse { success: false, data: None, error: Some(msg) }
}

/// Body of an OCR API response.
#[derive(Debug, Clone)]
pub struct OcrResponse {
    pub success: bool,
    pub expression: Option<String>,
    pub result: Option<i32>,
    pub model_version: Option<String>,
    pub duration_ms: Option<u128>,
    pub error: Option<String>,
}

impl OcrResponse {
    /// A recognised captcha: its expression, value, model and time taken.
    pub fn success(expr: String, result: i32, model_version: String, ms: u128) -> (r: Self)
        ensures
            r.success && r.expression == Some(expr) && r.result == Some(result)
                && r.model_version == Some(model_version) && r.duration_ms == Some(ms) && r.error is None,
    {
        OcrResponse {
            success: true,
            expression: Some(expr),
            result: Some(result),
            model_version: Some(model_version),
            duration_ms: Some(ms),
            error: None,
        }
    }

    /// A failure with a message.
    pub fn error(msg: String) -> (r: Self)
        ensures
            !r.success && r.expression is None && r.result is None && r.model_version is None
                && r.duration_ms is None && r.error == Some(msg),
    {
        OcrResponse {
            success: false,
            expression: None,
            result: None,
            model_version: None,
            duration_ms: None,
            error: Some(msg),
        }
    }
}

/// Code of the ASCII lower case of a character.
pub open spec fn ascii_lower(c: char) -> u32 {
    if 'A' <= c && c <= 'Z' { ((c as u32) + 32) as u32 } else { c as u32 }
}

/// The first `prefix.len()` characters of `s` equal `prefix` up to ASCII case.
pub open spec fn starts_with_ignore_case(s: Seq<char>, prefix: Seq<char>) -> bool {
    prefix.len() <= s.len() && forall|i: int| 0 <= i < prefix.len() ==> ascii_lower(#[trigger] s[i]) == ascii_lower(prefix[i])
}

pub(crate) fn ascii_lower_exec(c: char) -> (r: u32)
    ensures
        r == ascii_lower(c),
{
    if 'A' <= c && c <= 'Z' {
        (c as u32) + 32
    } else {
        c as u32
    }
}

fn starts_with_ignore_case_exec(s: &Vec<char>, prefix: &Vec<char>) -> (b: bool)
    ensures
        b == starts_with_ignore_case(s@, prefix@),
{
    if prefix.len() > s.len() {
        return false;
    }
    let mut i: usize = 0;
    while i < prefix.len()
        invariant
            i <= prefix.len() <= s.len(),
            forall|j: int| 0 <= j < i ==> ascii_lower(#[trigger] s@[j]) == ascii_lower(prefix@[j]),
        decreases prefix.len() - i,
    {
        if ascii_lower_exec(s[i]) != ascii_lower_exec(prefix[i]) {
            return false;
        }
        i = i + 1;
    }
    true
}

/// All characters are ASCII (header values as HTTP hands them over).
pub open spec fn all_ascii(s: Seq<char>) -> bool {
    forall|i: int| 0 <= i < s.len() ==> (#[trigger] s[i] as u32) < 128
}

/// The token of a `Bearer` authorization header equals the expected one; an empty
/// expected token authorizes nothing.
pub open spec fn bearer_authorized(header: Option<Seq<char>>, expected: Seq<char>) -> bool {
    expected.len() > 0 && match header {
        Some(h) => h.len() > 7 && starts_with_ignore_case(h, "Bearer "@) && trim(h.skip(7)) == expected,
        None => false,
    }
}

/// The key of a `P2P-Key` authorization header, when present and not blank.
pub open spec fn p2p_key_of(header: Option<Seq<char>>) -> Option<Seq<char>> {
    match header {
        Some(h) => if h.len() > 8 && starts_with_ignore_case(h, "P2P-Key "@) && trim(h.skip(8)).len() > 0 {
            Some(trim(h.skip(8)))
        } else {
            None
        },
        None => None,
    }
}

/// View of an optional string slice.
pub open spec fn oview(o: Option<&str>) -> Option<Seq<char>> {
    match o {
        Some(s) => Some(s@),
        None => None,
    }
}

/// Whether the authorization header carries the expected bearer token.
pub fn is_authorized(header: Option<&str>, expected: &str) -> (b: bool)
    requires
        header matches Some(h) ==> all_ascii(h@),
    ensures
        b == bearer_authorized(oview(header), expected@),
{
    let ev = chars_of(expected);
    if ev.len() == 0 {
        return false;
    }
    let h = match header {
        Some(s) => s,
        None => {
            return false;
        },
    };
    let hv = chars_of(h);
    let prefix = chars_of("Bearer ");
    proof {
        reveal_strlit("Bearer ");
    }
    if hv.len() > 7 && starts_with_ignore_case_exec(&hv, &prefix) {
        let rest = crate::text::slice_chars(&hv, 7, hv.len());
        assert(rest@ =~= hv@.skip(7));
        let t = trim_chars(&rest);
        crate::text::chars_eq(&t, &ev)
    } else {
        false
    }
}

/// The key of a `P2P-Key` authorization header.
pub fn extract_p2p_key(header: Option<&str>) -> (r: Option<String>)
    requires
        header matches Some(h) ==> all_ascii(h@),
    ensures
        match p2p_key_of(oview(header)) {
            Some(k) => r matches Some(s) && s@ == k,
            None => r is None,
        },
{
    let h = match header {
        Some(s) => s,
        None => {
            return None;
        },
    };
    let hv = chars_of(h);
    let prefix = chars_of("P2P-Key ");
    proof {
        reveal_strlit("P2P-Key ");
    }
    if hv.len() > 8 && starts_with_ignore_case_exec(&hv, &prefix) {
        let rest = crate::text::slice_chars(&hv, 8, hv.len());
        assert(rest@ =~= hv@.skip(8));
        let t = trim_chars(&rest);
        if t.len() == 0 { None } else { Some(string_from_chars(t.as_slice())) }
    } else {
        None
    }
}

/// A uniformly drawn index below `n` (`rand::thread_rng().gen_range(0..n)`); nothing
/// else is promised of it.
#[verifier::external_body]
fn random_index(n: usize) -> (r: usize)
    requires
        n > 0,
    ensures
        r < n,
{
    rand::Rng::gen_range(&mut rand::thread_rng(), 0..n)
}

/// `len` characters drawn from `charset`.
pub fn random_string(charset: &Vec<char>, len: usize) -> (r: String)
    requires
        charset.len() > 0,
    ensures
        r@.len() == len,
        forall|i: int| 0 <= i < len ==> charset@.contains(#[trigger] r@[i]),
{
    let mut v: Vec<char> = Vec::new();
    let mut i: usize = 0;
    while i < len
        invariant
            i <= len,
            charset.len() > 0,
            v@.len() == i,
            forall|k: int| 0 <= k < i ==> charset@.contains(#[trigger] v@[k]),
        decreases len - i,
    {
        let k = random_index(charset.len());
        v.push(charset[k]);
        assert(charset@.contains(v@[i as int]));
        i = i + 1;
    }
    string_from_chars(v.as_slice())
}

/// Characters of OCR service tokens: ASCII letters and digits.
pub open spec fn token_charset() -> Seq<char> {
    "ABCDEFGHIJKLMNOPQRSTUVWXYZabcdefghijklmnopqrstuvwxyz0123456789"@
}

/// Characters of peer pairing codes and keys: upper-case letters and digits without the
/// easily confused `I`, `O`, `0` and `1`.
pub open spec fn key_charset() -> Seq<char> {
    "ABCDEFGHJKLMNPQRSTUVWXYZ23456789"@
}

/// A random 24-character OCR service token.
pub fn generate_token() -> (r: String)
    ensures
        r@.len() == 24,
        forall|i: int| 0 <= i < 24 ==> token_charset().contains(#[trigger] r@[i]),
{
    let cs = chars_of("ABCDEFGHIJKLMNOPQRSTUVWXYZabcdefghijklmnopqrstuvwxyz0123456789");
    proof {
        reveal_strlit("ABCDEFGHIJKLMNOPQRSTUVWXYZabcdefghijklmnopqrstuvwxyz0123456789");
    }
    random_string(&cs, 24)
}

/// A random 6-character pairing code.
pub fn generate_pair_code() -> (r: String)
    ensures
        r@.len() == 6,
        forall|i: int| 0 <= i < 6 ==> key_charset().contains(#[trigger] r@[i]),
{
    let cs = chars_of("ABCDEFGHJKLMNPQRSTUVWXYZ23456789");
    proof {
        reveal_strlit("ABCDEFGHJKLMNPQRSTUVWXYZ23456789");
    }
    random_string(&cs, 6)
}

/// A random 32-character peer key.
pub fn generate_peer_key() -> (r: String)
    ensures
        r@.len() == 32,
        forall|i: int| 0 <= i < 32 ==> key_charset().contains(#[trigger] r@[i]),
{
    let cs = chars_of("ABCDEFGHJKLMNPQRSTUVWXYZ23456789");
    proof {
        reveal_strlit("ABCDEFGHJKLMNPQRSTUVWXYZ23456789");
    }
    random_string(&cs, 32)
}

/// Hex of the first eight bytes of the SHA-256 of the data.
pub fn short_sha256(data: &[u8]) -> (r: String)
    ensures
        r@ == hex_lower(sha256(data@).take(8)),
{
    let digest = crate::crypto::sha256_digest(data);
    let mut first: Vec<u8> = Vec::new();
    let mut i: usize = 0;
    while i < 8
        invariant
            i <= 8,
            digest@.len() == 32,
            first@ == digest@.take(i as int),
        decreases 8 - i,
    {
        first.push(digest[i]);
        i = i + 1;
        assert(first@ =~= digest@.take(i as int));
    }
    crate::crypto::hex_encode(first.as_slice())
}

/// Who may reach the OCR service.
#[derive(Debug, Clone, Copy, PartialEq, Eq)]
pub enum OcrServerScope {
    LoopbackOnly,
    Lan,
    CustomIp,
}

/// The access address shown for the OCR service.
pub open spec fn access_url(scope: OcrServerScope, ips: Seq<String>, port: u16, token: Seq<char>) -> Option<Seq<char>> {
    match scope {
        OcrServerScope::LoopbackOnly => Some("http://127.0.0.1:"@ + decimal(port as nat) + "/?token="@ + token),
        _ => if ips.len() > 0 {
            Some("http://"@ + ips[0]@ + ":"@ + decimal(port as nat) + "/?token="@ + token)
        } else {
            None
        },
    }
}

/// The most useful address of the OCR service for its reach: the loopback address, or
/// the first LAN address.
pub fn pick_access_url(scope: &OcrServerScope, ips: &[String], port: u16, token: &str) -> (r: Option<String>)
    ensures
        match access_url(*scope, ips@, port, token@) {
            Some(u) => r matches Some(s) && s@ == u,
            None => r is None,
        },
{
    let mut v: Vec<char> = Vec::new();
    match scope {
        OcrServerScope::LoopbackOnly => {
            push_str(&mut v, "http://127.0.0.1:");
        },
        _ => {
            if ips.len() == 0 {
                return None;
            }
            push_str(&mut v, "http://");
            push_str(&mut v, ips[0].as_str());
            push_str(&mut v, ":");
        },
    }
    let d = crate::text::decimal_chars(port as u64);
    push_chars(&mut v, &d);
    push_str(&mut v, "/?token=");
    push_str(&mut v, token);
    Some(string_from_chars(v.as_slice()))
}

/// The stored status text of a bill-type filter.
pub open spec fn bill_type_status(bill_type: Seq<char>) -> Option<Seq<char>> {
    if bill_type == "success"@ {
        Some("交易成功"@)
    } else if bill_type == "not_paid"@ {
        Some("#waitfor"@)
    } else if bill_type == "failure"@ {
        Some("#fail"@)
    } else {
        None
    }
}

/// Maps a frontend bill-type filter to the stored status text.
pub fn normalize_bill_type_status(bill_type: &str) -> (r: Option<&'static str>)
    ensures
        match bill_type_status(bill_type@) {
            Some(s) => r matches Some(t) && t@ == s,
            None => r is None,
        },
{
    if crate::text::str_eq(bill_type, "success") {
        Some("交易成功")
    } else if crate::text::str_eq(bill_type, "not_paid") {
        Some("#waitfor")
    } else if crate::text::str_eq(bill_type, "failure") {
        Some("#fail")
    } else {
        None
    }
}

/// Value of a string of decimal digits.
pub open spec fn digits_value(s: Seq<char>) -> int
    decreases s.len(),
{
    if s.len() == 0 {
        0
    } else {
        digits_value(s.drop_last()) * 10 + ((s.last() as int) - ('0' as int))
    }
}

proof fn lemma_digits_value_nonneg(s: Seq<char>)
    requires
        all_digits(s),
    ensures
        digits_value(s) >= 0,
    decreases s.len(),
{
    if s.len() > 0 {
        assert(all_digits(s.drop_last())) by {
            assert forall|i: int| 0 <= i < s.drop_last().len() implies is_digit(#[trigger] s.drop_last()[i]) by {
                assert(s.drop_last()[i] == s[i]);
            }
        }
        lemma_digits_value_nonneg(s.drop_last());
        assert(is_digit(s[s.len() - 1]));
    }
}

/// All characters are ASCII digits.
pub open spec fn all_digits(s: Seq<char>) -> bool {
    forall|i: int| 0 <= i < s.len() ==> is_digit(#[trigger] s[i])
}

/// `str::parse::<u32>`: an optional `+`, then one or more ASCII digits whose value fits.
pub open spec fn parse_u32(s: Seq<char>) -> Option<u32> {
    let body = if s.len() > 0 && s[0] == '+' { s.drop_first() } else { s };
    if body.len() > 0 && all_digits(body) && digits_value(body) <= u32::MAX {
        Some(digits_value(body) as u32)
    } else {
        None
    }
}

/// Parses a `u32` as `str::parse` does.
pub fn parse_u32_chars(s: &Vec<char>) -> (r: Option<u32>)
    ensures
        r == parse_u32(s@),
{
    let start: usize = if s.len() > 0 && s[0] == '+' { 1 } else { 0 };
    let ghost body = if s@.len() > 0 && s@[0] == '+' { s@.drop_first() } else { s@ };
    assert(body =~= s@.skip(start as int));
    if start >= s.len() {
        return None;
    }
    let mut value: u64 = 0;
    let mut i: usize = start;
    while i < s.len()
        invariant
            start <= i <= s.len(),
            body == s@.skip(start as int),
            body == (if s@.len() > 0 && s@[0] == '+' { s@.drop_first() } else { s@ }),
            body.len() > 0,
            all_digits(body.take(i - start)),
            value == digits_value(body.take(i - start)),
            value <= u32::MAX,
        decreases s.len() - i,
    {
        assert(body.take(i - start + 1).drop_last() =~= body.take(i - start));
        assert(body.take(i - start + 1).last() == s@[i as int]);
        let c = s[i];
        if !('0' <= c && c <= '9') {
            assert(!all_digits(body)) by {
                assert(body[i - start] == c);
            }
            return None;
        }
        let d = (c as u64) - ('0' as u64);
        let next = value * 10 + d;
        assert(all_digits(body.take(i - start + 1))) by {
            assert forall|k: int| 0 <= k < i - start + 1 implies is_digit(#[trigger] body.take(i - start + 1)[k]) by {
                if k < i - start {
                    assert(body.take(i - start + 1)[k] == body.take(i - start)[k]);
                }
            }
        }
        if next > 4294967295 {
            proof {
                if all_digits(body) {
                    lemma_digits_value_prefix_monotone(body, i - start + 1);
                }
            }
            return None;
        }
        value = next;
        i = i + 1;
    }
    assert(body.take(s.len() - start) =~= body);
    Some(value as u32)
}

/// `str::parse::<u64>`: an optional `+`, then one or more ASCII digits whose value fits.
pub open spec fn parse_u64(s: Seq<char>) -> Option<u64> {
    let body = if s.len() > 0 && s[0] == '+' { s.drop_first() } else { s };
    if body.len() > 0 && all_digits(body) && digits_value(body) <= u64::MAX {
        Some(digits_value(body) as u64)
    } else {
        None
    }
}

/// Parses a `u64` as `str::parse` does.
pub fn parse_u64_chars(s: &Vec<char>) -> (r: Option<u64>)
    ensures
        r == parse_u64(s@),
{
    let start: usize = if s.len() > 0 && s[0] == '+' { 1 } else { 0 };
    let ghost body = if s@.len() > 0 && s@[0] == '+' { s@.drop_first() } else { s@ };
    assert(body =~= s@.skip(start as int));
    if start >= s.len() {
        return None;
    }
    let mut value: u128 = 0;
    let mut i: usize = start;
    while i < s.len()
        invariant
            start <= i <= s.len(),
            body == s@.skip(start as int),
            body == (if s@.len() > 0 && s@[0] == '+' { s@.drop_first() } else { s@ }),
            body.len() > 0,
            all_digits(body.take(i - start)),
            value == digits_value(body.take(i - start)),
            value <= u64::MAX,
        decreases s.len() - i,
    {
        assert(body.take(i - start + 1).drop_last() =~= body.take(i - start));
        assert(body.take(i - start + 1).last() == s@[i as int]);
        let c = s[i];
        if !('0' <= c && c <= '9') {
            assert(!all_digits(body)) by {
                assert(body[i - start] == c);
            }
            return None;
        }
        let d = (c as u128) - ('0' as u128);
        let next = value * 10 + d;
        assert(all_digits(body.take(i - start + 1))) by {
            assert forall|k: int| 0 <= k < i - start + 1 implies is_digit(#[trigger] body.take(i - start + 1)[k]) by {
                if k < i - start {
                    assert(body.take(i - start + 1)[k] == body.take(i - start)[k]);
                }
            }
        }
        if next > 18446744073709551615 {
            proof {
                if all_digits(body) {
                    lemma_digits_value_prefix_monotone(body, i - start + 1);
                }
            }
            return None;
        }
        value = next;
        i = i + 1;
    }
    assert(body.take(s.len() - start) =~= body);
    Some(value as u64)
}

pub proof fn lemma_digits_value_prefix_monotone(body: Seq<char>, k: int)
    requires
        0 <= k <= body.len(),
        all_digits(body),
    ensures
        digits_value(body.take(k)) <= digits_value(body),
    decreases body.len() - k,
{
    if k < body.len() {
        lemma_digits_value_prefix_monotone(body, k + 1);
        assert(body.take(k + 1).drop_last() =~= body.take(k));
        assert(is_digit(body[k]));
        assert(all_digits(body.take(k))) by {
            assert forall|i: int| 0 <= i < body.take(k).len() implies is_digit(#[trigger] body.take(k)[i]) by {
                assert(body.take(k)[i] == body[i]);
            }
        }
        lemma_digits_value_nonneg(body.take(k));
        assert(body.take(k + 1).last() == body[k]);
    } else {
        assert(body.take(k) =~= body);
    }
}

/// The numeric parts of a dotted version (parts that do not parse are skipped).
pub open spec fn version_parts(v: Seq<char>) -> Seq<u32> {
    parsed_parts(split_on(v, '.'))
}

/// The parts that parse, in order.
pub open spec fn parsed_parts(ps: Seq<Seq<char>>) -> Seq<u32>
    decreases ps.len(),
{
    if ps.len() == 0 {
        Seq::empty()
    } else {
        match parse_u32(ps.last()) {
            Some(n) => parsed_parts(ps.drop_last()).push(n),
            None => parsed_parts(ps.drop_last()),
        }
    }
}

/// Part `i` of a version, 0 beyond its end.
pub open spec fn part_at(p: Seq<u32>, i: int) -> u32 {
    if 0 <= i < p.len() { p[i] } else { 0 }
}

/// The first index from `i` on where the versions differ, if any.
pub open spec fn first_difference(p1: Seq<u32>, p2: Seq<u32>, i: int) -> Option<int>
    decreases (if p1.len() > p2.len() { p1.len() } else { p2.len() }) - i,
{
    let n = if p1.len() > p2.len() { p1.len() } else { p2.len() };
    if i >= n || i < 0 {
        None
    } else if part_at(p1, i) != part_at(p2, i) {
        Some(i)
    } else {
        first_difference(p1, p2, i + 1)
    }
}

/// Order of two versions, compared part by part as numbers: 1 when the first differing
/// part of `v1` is larger, -1 when it is smaller, 0 when all parts are equal.
pub open spec fn version_difference(v1: Seq<char>, v2: Seq<char>) -> int {
    let p1 = version_parts(v1);
    let p2 = version_parts(v2);
    match first_difference(p1, p2, 0) {
        Some(i) => if part_at(p1, i) > part_at(p2, i) { 1 } else { -1 },
        None => 0,
    }
}

fn version_parts_exec(v: &str) -> (r: Vec<u32>)
    ensures
        r@ == version_parts(v@),
{
    let cv = chars_of(v);
    let parts = split_chars(&cv, '.');
    let ghost ps = split_on(cv@, '.');
    let mut out: Vec<u32> = Vec::new();
    let mut i: usize = 0;
    while i < parts.len()
        invariant
            i <= parts.len(),
            parts@.len() == ps.len(),
            forall|k: int| 0 <= k < parts@.len() ==> #[trigger] parts@[k]@ == ps[k],
            out@ == parsed_parts(ps.take(i as int)),
        decreases parts.len() - i,
    {
        assert(ps.take(i + 1).drop_last() =~= ps.take(i as int));
        assert(ps.take(i + 1).last() == parts@[i as int]@);
        if let Some(n) = parse_u32_chars(&parts[i]) {
            out.push(n);
        }
        i = i + 1;
    }
    assert(ps.take(parts.len() as int) =~= ps);
    out
}

/// Compares two dotted versions part by part (missing parts count as 0): positive when
/// `v1` is newer, negative when older, 0 when equal.
pub fn compare_versions(v1: &str, v2: &str) -> (r: i32)
    ensures
        r == version_difference(v1@, v2@),
{
    let p1 = version_parts_exec(v1);
    let p2 = version_parts_exec(v2);
    let max_len = if p1.len() > p2.len() { p1.len() } else { p2.len() };
    let mut i: usize = 0;
    while i < max_len
        invariant
            i <= max_len,
            max_len == (if p1@.len() > p2@.len() { p1@.len() } else { p2@.len() }),
            first_difference(p1@, p2@, 0) == first_difference(p1@, p2@, i as int),
            p1@ == version_parts(v1@),
            p2@ == version_parts(v2@),
        decreases max_len - i,
    {
        let a: u32 = if i < p1.len() { p1[i] } else { 0 };
        let b: u32 = if i < p2.len() { p2[i] } else { 0 };
        assert(a == part_at(p1@, i as int) && b == part_at(p2@, i as int));
        if a != b {
            return if a > b { 1 } else { -1 };
        }
        i = i + 1;
    }
    0
}

} // verus!
