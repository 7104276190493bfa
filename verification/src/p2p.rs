//! Peer-to-peer transfer service: the messages of its protocol, pairing by code, the
//! paired sessions (keyed by peer key), and which requests are let through. The HTTP
//! server, the archive and the event channels run outside.
use vstd::prelude::*;

use crate::error::concat_str;
use crate::net::{all_ascii, ascii_lower, ascii_lower_exec, extract_p2p_key, oview, p2p_key_of};
use crate::text::{chars_of, is_digit, owned, str_eq};

verus! {

/// A discovery request.
#[derive(Debug, Clone)]
pub struct P2PRestDiscoverRequest {
    pub device_name: String,
}

/// What discovery answers: this device, its addresses, port and current pair code.
#[derive(Debug, Clone)]
pub struct P2PRestDiscoverData {
    pub device_name: String,
    pub ips: Vec<String>,
    pub port: u16,
    pub pair_code: String,
}

/// A pairing request.
#[derive(Debug, Clone)]
pub struct P2PRestPairRequest {
    pub pair_code: String,
    pub device_name: String,
    pub listen_port: u16,
    pub listen_ips: Vec<String>,
}

/// What an accepted pairing answers.
#[derive(Debug, Clone)]
pub struct P2PRestPairResponseData {
    pub session_id: String,
    pub device_name: String,
    pub peer_key: String,
}

/// What an accepted upload answers.
#[derive(Debug, Clone)]
pub struct P2PRestTransferResponseData {
    pub received: bool,
    pub bill_count: i32,
    pub checksum: String,
}

/// A paired peer.
#[derive(Debug, Clone)]
pub struct P2PHTTPSession {
    pub session_id: String,
    pub peer_key: String,
    pub remote_device_name: String,
    pub remote_ips: Vec<String>,
    pub remote_port: u16,
    pub pair_code: String,
    pub created_at: i64,
}

/// A received transfer, handed on to the application.
#[derive(Debug, Clone)]
pub struct P2PTransferEvent {
    pub session_id: String,
    pub device_name: String,
    pub data: Vec<u8>,
    pub bill_count: i32,
    pub checksum: String,
}

/// An accepted pairing, handed on to the application.
#[derive(Debug, Clone)]
pub struct P2PPairEvent {
    pub session_id: String,
    pub remote_device_name: String,
    pub remote_ips: Vec<String>,
    pub remote_port: u16,
    pub peer_key: String,
}

/// Two texts are equal up to ASCII case (`str::eq_ignore_ascii_case`).
pub open spec fn eq_ignore_case(a: Seq<char>, b: Seq<char>) -> bool {
    a.len() == b.len() && forall|i: int| 0 <= i < a.len() ==> ascii_lower(#[trigger] a[i]) == ascii_lower(b[i])
}

fn eq_ignore_case_exec(a: &str, b: &str) -> (r: bool)
    ensures
        r == eq_ignore_case(a@, b@),
{
    let va = chars_of(a);
    let vb = chars_of(b);
    if va.len() != vb.len() {
        return false;
    }
    let mut i: usize = 0;
    while i < va.len()
        invariant
            i <= va.len(),
            va.len() == vb.len(),
            va@ == a@,
            vb@ == b@,
            forall|j: int| 0 <= j < i ==> ascii_lower(#[trigger] va@[j]) == ascii_lower(vb@[j]),
        decreases va.len() - i,
    {
        if ascii_lower_exec(va[i]) != ascii_lower_exec(vb[i]) {
            assert(ascii_lower(va@[i as int]) != ascii_lower(vb@[i as int]));
            return false;
        }
        i = i + 1;
    }
    true
}

/// Why a pairing is refused, with its HTTP status: no code (400), or not the current
/// code up to ASCII case (403).
pub open spec fn pair_refusal(given: Seq<char>, current: Seq<char>) -> Option<(u16, Seq<char>)> {
    if given.len() == 0 {
        Some((400u16, "pair_code is required"@))
    } else if !eq_ignore_case(given, current) {
        Some((403u16, "配对码不正确"@))
    } else {
        None
    }
}

/// Checks the pair code of a pairing request against the current one.
pub fn check_pair_code(given: &str, current: &str) -> (r: Result<(), (u16, String)>)
    ensures
        match pair_refusal(given@, current@) {
            Some((code, m)) => r matches Err((c, t)) && c == code && t@ == m,
            None => r is Ok,
        },
{
    if crate::text::str_is_empty(given) {
        return Err((400, owned("pair_code is required")));
    }
    if !eq_ignore_case_exec(given, current) {
        return Err((403, owned("配对码不正确")));
    }
    Ok(())
}

/// `str::parse::<i32>`: an optional sign, then one or more ASCII digits whose value fits.
pub open spec fn parse_i32(s: Seq<char>) -> Option<i32> {
    let neg = s.len() > 0 && s[0] == '-';
    let body = if s.len() > 0 && (s[0] == '+' || s[0] == '-') { s.drop_first() } else { s };
    if body.len() > 0 && crate::net::all_digits(body) {
        let v = if neg { -crate::net::digits_value(body) } else { crate::net::digits_value(body) };
        if i32::MIN <= v <= i32::MAX { Some(v as i32) } else { None }
    } else {
        None
    }
}

/// Parses an `i32` as `str::parse` does.
pub fn parse_i32_str(text: &str) -> (r: Option<i32>)
    ensures
        r == parse_i32(text@),
{
    let s = chars_of(text);
    let neg = s.len() > 0 && s[0] == '-';
    let start: usize = if s.len() > 0 && (s[0] == '+' || s[0] == '-') { 1 } else { 0 };
    let ghost body = if s@.len() > 0 && (s@[0] == '+' || s@[0] == '-') { s@.drop_first() } else { s@ };
    assert(body =~= s@.skip(start as int));
    if start >= s.len() {
        return None;
    }
    let mut value: i64 = 0;
    let mut i: usize = start;
    while i < s.len()
        invariant
            start <= i <= s.len(),
            s@ == text@,
            body == s@.skip(start as int),
            body == (if s@.len() > 0 && (s@[0] == '+' || s@[0] == '-') { s@.drop_first() } else { s@ }),
            neg == (s@.len() > 0 && s@[0] == '-'),
            body.len() > 0,
            crate::net::all_digits(body.take(i - start)),
            value == crate::net::digits_value(body.take(i - start)),
            0 <= value <= 2147483648,
        decreases s.len() - i,
    {
        assert(body.take(i - start + 1).drop_last() =~= body.take(i - start));
        assert(body.take(i - start + 1).last() == s@[i as int]);
        let c = s[i];
        if !('0' <= c && c <= '9') {
            assert(!crate::net::all_digits(body)) by {
                assert(body[i - start] == c);
            }
            return None;
        }
        let d = (c as i64) - ('0' as i64);
        let next = value * 10 + d;
        assert(crate::net::all_digits(body.take(i - start + 1))) by {
            assert forall|k: int| 0 <= k < i - start + 1 implies is_digit(#[trigger] body.take(i - start + 1)[k]) by {
                if k < i - start {
                    assert(body.take(i - start + 1)[k] == body.take(i - start)[k]);
                }
            }
        }
        if next > 2147483648 {
            proof {
                if crate::net::all_digits(body) {
                    crate::net::lemma_digits_value_prefix_monotone(body, i - start + 1);
                }
            }
            return None;
        }
        value = next;
        i = i + 1;
    }
    assert(body.take(s.len() - start) =~= body);
    if neg {
        Some((-value) as i32)
    } else if value > 2147483647 {
        None
    } else {
        Some(value as i32)
    }
}

/// The paired sessions, keyed by peer key (no key twice).
#[derive(Debug)]
pub struct P2PSessions {
    sessions: Vec<P2PHTTPSession>,
}

/// Position of the session with peer key `key`, if any.
pub open spec fn position_of_key(e: Seq<P2PHTTPSession>, key: Seq<char>) -> Option<int>
    decreases e.len(),
{
    if e.len() == 0 {
        None
    } else if e[0].peer_key@ == key {
        Some(0)
    } else {
        match position_of_key(e.drop_first(), key) {
            Some(k) => Some(k + 1),
            None => None,
        }
    }
}

proof fn lemma_position_of_key(e: Seq<P2PHTTPSession>, key: Seq<char>)
    ensures
        match position_of_key(e, key) {
            Some(i) => 0 <= i < e.len() && e[i].peer_key@ == key
                && forall|j: int| 0 <= j < i ==> (#[trigger] e[j]).peer_key@ != key,
            None => forall|j: int| 0 <= j < e.len() ==> (#[trigger] e[j]).peer_key@ != key,
        },
    decreases e.len(),
{
    if e.len() > 0 && e[0].peer_key@ != key {
        lemma_position_of_key(e.drop_first(), key);
        assert forall|j: int| 0 < j < e.len() implies (#[trigger] e[j]) == e.drop_first()[j - 1] by {}
    }
}

/// The sessions after pairing `s`: it replaces the session of its peer key, or is added
/// last.
pub open spec fn with_peer(e: Seq<P2PHTTPSession>, s: P2PHTTPSession) -> Seq<P2PHTTPSession> {
    match position_of_key(e, s.peer_key@) {
        Some(i) => e.update(i, s),
        None => e.push(s),
    }
}

/// A session has the pairing identifier `id`.
pub open spec fn has_session_id(e: Seq<P2PHTTPSession>, id: Seq<char>) -> bool {
    exists|i: int| 0 <= i < e.len() && (#[trigger] e[i]).session_id@ == id
}

impl P2PSessions {
    /// The sessions in order of pairing.
    pub closed spec fn entries(&self) -> Seq<P2PHTTPSession> {
        self.sessions@
    }

    /// No sessions.
    pub fn new() -> (r: Self)
        ensures
            r.entries().len() == 0,
    {
        P2PSessions { sessions: Vec::new() }
    }

    fn find(&self, key: &str) -> (r: Option<usize>)
        ensures
            match r {
                Some(i) => position_of_key(self.entries(), key@) == Some(i as int) && i < self.entries().len(),
                None => position_of_key(self.entries(), key@) is None,
            },
    {
        proof {
            lemma_position_of_key(self.sessions@, key@);
        }
        let mut i: usize = 0;
        while i < self.sessions.len()
            invariant
                i <= self.sessions.len(),
                forall|j: int| 0 <= j < i ==> (#[trigger] self.sessions@[j]).peer_key@ != key@,
                match position_of_key(self.sessions@, key@) {
                    Some(p) => 0 <= p < self.sessions@.len() && self.sessions@[p].peer_key@ == key@
                        && forall|j: int| 0 <= j < p ==> (#[trigger] self.sessions@[j]).peer_key@ != key@,
                    None => forall|j: int| 0 <= j < self.sessions@.len() ==> (#[trigger] self.sessions@[j]).peer_key@ != key@,
                },
            decreases self.sessions.len() - i,
        {
            if str_eq(self.sessions[i].peer_key.as_str(), key) {
                return Some(i);
            }
            i = i + 1;
        }
        None
    }

    /// Records a pairing under its peer key.
    pub fn insert(&mut self, s: P2PHTTPSession)
        ensures
            final(self).entries() == with_peer(old(self).entries(), s),
    {
        match self.find(s.peer_key.as_str()) {
            Some(i) => {
                self.sessions.set(i, s);
            },
            None => {
                self.sessions.push(s);
            },
        }
    }

    /// Whether a peer key is paired.
    pub fn contains_key(&self, key: &str) -> (b: bool)
        ensures
            b == (position_of_key(self.entries(), key@) is Some),
    {
        self.find(key).is_some()
    }

    /// The device name of the peer with key `key`, if paired.
    pub fn device_name_of(&self, key: &str) -> (r: Option<String>)
        ensures
            match position_of_key(self.entries(), key@) {
                Some(i) => r matches Some(n) && n@ == self.entries()[i].remote_device_name@,
                None => r is None,
            },
    {
        match self.find(key) {
            Some(i) => Some(self.sessions[i].remote_device_name.clone()),
            None => None,
        }
    }

    /// Whether a pairing has the identifier `id`.
    pub fn has_session(&self, id: &str) -> (b: bool)
        ensures
            b == has_session_id(self.entries(), id@),
    {
        let mut i: usize = 0;
        while i < self.sessions.len()
            invariant
                i <= self.sessions.len(),
                forall|j: int| 0 <= j < i ==> (#[trigger] self.sessions@[j]).session_id@ != id@,
            decreases self.sessions.len() - i,
        {
            if str_eq(self.sessions[i].session_id.as_str(), id) {
                return true;
            }
            i = i + 1;
        }
        false
    }

    /// Forgets every pairing (when the server stops).
    pub fn clear(&mut self)
        ensures
            final(self).entries().len() == 0,
    {
        self.sessions = Vec::new();
    }
}

/// A pairing and then a lookup of its peer key finds it.
pub proof fn lemma_paired_key_found(e: Seq<P2PHTTPSession>, s: P2PHTTPSession)
    ensures
        position_of_key(with_peer(e, s), s.peer_key@) matches Some(i) && with_peer(e, s)[i] == s,
{
    lemma_position_of_key(e, s.peer_key@);
    let f = with_peer(e, s);
    lemma_position_of_key(f, s.peer_key@);
    match position_of_key(e, s.peer_key@) {
        Some(i) => {
            assert(f[i].peer_key@ == s.peer_key@);
            match position_of_key(f, s.peer_key@) {
                Some(k) => {
                    if k < i {
                        assert(f[k] == e[k]);
                    } else if k > i {
                        assert(f[i].peer_key@ == s.peer_key@);
                    }
                },
                None => {},
            }
        },
        None => {
            assert(f[e.len() as int].peer_key@ == s.peer_key@);
            match position_of_key(f, s.peer_key@) {
                Some(k) => {
                    if k < e.len() {
                        assert(f[k] == e[k]);
                    }
                },
                None => {},
            }
        },
    }
}

/// Who a transfer request comes from: the key of its `P2P-Key` header, which must be
/// present (else 401, missing) and paired (else 401, invalid).
pub fn authorize_upload(header: Option<&str>, sessions: &P2PSessions) -> (r: Result<String, (u16, String)>)
    requires
        header matches Some(h) ==> all_ascii(h@),
    ensures
        match p2p_key_of(oview(header)) {
            None => r matches Err((c, m)) && c == 401 && m@ == "Unauthorized - P2P-Key missing"@,
            Some(k) => if position_of_key(sessions.entries(), k) is Some {
                r matches Ok(key) && key@ == k
            } else {
                r matches Err((c, m)) && c == 401 && m@ == "Unauthorized - P2P-Key invalid"@
            },
        },
{
    let key = match extract_p2p_key(header) {
        Some(k) => k,
        None => {
            return Err((401, owned("Unauthorized - P2P-Key missing")));
        },
    };
    if !sessions.contains_key(key.as_str()) {
        return Err((401, owned("Unauthorized - P2P-Key invalid")));
    }
    Ok(key)
}

/// The bill count of an upload form: its text read as an `i32`, 0 when absent or
/// unreadable.
pub fn upload_bill_count(text: Option<&str>) -> (r: i32)
    ensures
        r == match text {
            Some(t) => match parse_i32(t@) { Some(v) => v, None => 0 },
            None => 0,
        },
{
    match text {
        Some(t) => match parse_i32_str(t) {
            Some(v) => v,
            None => 0,
        },
        None => 0,
    }
}

/// Whether a download of pairing `session_id` may proceed: it needs a `P2P-Key` header
/// (else 401, missing) whose key is paired (else 401, invalid), and a pairing with that
/// identifier (else 404).
pub fn authorize_download(header: Option<&str>, sessions: &P2PSessions, session_id: &str) -> (r: Result<(), (u16, String)>)
    requires
        header matches Some(h) ==> all_ascii(h@),
    ensures
        match p2p_key_of(oview(header)) {
            None => r matches Err((c, m)) && c == 401 && m@ == "Unauthorized - P2P-Key missing"@,
            Some(k) => if position_of_key(sessions.entries(), k) is None {
                r matches Err((c, m)) && c == 401 && m@ == "Unauthorized - P2P-Key invalid"@
            } else if !has_session_id(sessions.entries(), session_id@) {
                r matches Err((c, m)) && c == 404 && m@ == "Pair session not found: "@ + session_id@
            } else {
                r is Ok
            },
        },
{
    match authorize_upload(header, sessions) {
        Ok(_) => {},
        Err(e) => {
            return Err(e);
        },
    }
    if !sessions.has_session(session_id) {
        return Err((404, concat_str("Pair session not found: ", session_id)));
    }
    Ok(())
}

} // verus!
