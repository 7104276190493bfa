//! Remote access to paired devices: base URL checks, endpoint addresses, the errors of a
//! remote call, and the registry of open sessions. The HTTP calls happen outside.
use vstd::prelude::*;

use crate::error::concat_str;
use crate::text::{chars_of, decimal, decimal_string, owned, push_str, str_eq, string_from_chars};

verus! {

/// A session with a paired device.
#[derive(Debug, Clone)]
pub struct RemoteSession {
    pub session_id: String,
    pub base_url: String,
    pub device_name: String,
    pub token: String,
}

/// A session as the frontend sees it.
#[derive(Debug, Clone)]
pub struct RemoteSessionFrontend {
    pub session_id: String,
    pub base_url: String,
    pub device_name: String,
    pub has_token: bool,
}

/// Failure of a remote call.
#[derive(Debug, Clone)]
pub enum RemoteError {
    Network(String),
    Http(u16, String),
    Parse(String),
    InvalidUrl(String),
}

/// The text a remote error is shown as.
pub open spec fn remote_error_text(e: RemoteError) -> Seq<char> {
    match e {
        RemoteError::Network(d) => "网络错误: "@ + d@,
        RemoteError::Http(code, _) => "HTTP "@ + decimal(code as nat),
        RemoteError::Parse(d) => "解析错误: "@ + d@,
        RemoteError::InvalidUrl(d) => "无效 URL: "@ + d@,
    }
}

impl RemoteError {
    /// The text the error is shown as.
    pub fn message(&self) -> (r: String)
        ensures
            r@ == remote_error_text(*self),
    {
        match self {
            RemoteError::Network(d) => concat_str("网络错误: ", d.as_str()),
            RemoteError::Http(code, _) => {
                let n = decimal_string(*code as u64);
                concat_str("HTTP ", n.as_str())
            },
            RemoteError::Parse(d) => concat_str("解析错误: ", d.as_str()),
            RemoteError::InvalidUrl(d) => concat_str("无效 URL: ", d.as_str()),
        }
    }
}

/// `s` starts with `p`.
pub open spec fn has_prefix(s: Seq<char>, p: Seq<char>) -> bool {
    p.len() <= s.len() && s.take(p.len() as int) == p
}

/// `s` without every leading repetition of `p` (`str::trim_start_matches`).
pub open spec fn strip_leading(s: Seq<char>, p: Seq<char>) -> Seq<char>
    decreases s.len(),
{
    if p.len() > 0 && has_prefix(s, p) { strip_leading(s.skip(p.len() as int), p) } else { s }
}

/// `s` without its trailing `c`s (`str::trim_end_matches` with a character).
pub open spec fn strip_trailing(s: Seq<char>, c: char) -> Seq<char>
    decreases s.len(),
{
    if s.len() > 0 && s.last() == c { strip_trailing(s.drop_last(), c) } else { s }
}

pub(crate) fn has_prefix_exec(s: &Vec<char>, p: &Vec<char>) -> (b: bool)
    ensures
        b == has_prefix(s@, p@),
{
    if p.len() > s.len() {
        return false;
    }
    let mut i: usize = 0;
    while i < p.len()
        invariant
            i <= p.len() <= s.len(),
            forall|j: int| 0 <= j < i ==> s@[j] == p@[j],
        decreases p.len() - i,
    {
        if s[i] != p[i] {
            assert(s@.take(p.len() as int)[i as int] != p@[i as int]);
            return false;
        }
        i = i + 1;
    }
    assert(s@.take(p.len() as int) =~= p@);
    true
}

pub(crate) fn strip_leading_exec(s: &Vec<char>, p: &Vec<char>) -> (r: Vec<char>)
    ensures
        r@ == strip_leading(s@, p@),
{
    let mut cur = crate::text::slice_chars(s, 0, s.len());
    assert(cur@ =~= s@);
    if p.len() == 0 {
        return cur;
    }
    while has_prefix_exec(&cur, p)
        invariant
            p.len() > 0,
            strip_leading(cur@, p@) == strip_leading(s@, p@),
        decreases cur.len(),
    {
        let next = crate::text::slice_chars(&cur, p.len(), cur.len());
        assert(next@ =~= cur@.skip(p.len() as int));
        cur = next;
    }
    cur
}

pub(crate) fn strip_trailing_exec(s: &Vec<char>, c: char) -> (r: Vec<char>)
    ensures
        r@ == strip_trailing(s@, c),
{
    let mut n = s.len();
    assert(s@.take(n as int) =~= s@);
    while n > 0 && s[n - 1] == c
        invariant
            n <= s.len(),
            strip_trailing(s@.take(n as int), c) == strip_trailing(s@, c),
        decreases n,
    {
        assert(s@.take(n as int).drop_last() =~= s@.take(n - 1));
        n = n - 1;
    }
    assert(s@.take(s.len() as int) =~= s@);
    crate::text::slice_chars(s, 0, n)
}

/// What is left of a base URL once its scheme prefixes are taken off.
pub open spec fn url_rest(url: Seq<char>) -> Seq<char> {
    strip_leading(strip_leading(url, "http://"@), "https://"@)
}

/// Why a base URL is refused, if it is: it must start with `http://` or `https://` and
/// then name a host, that is, something before any `/` or `:` that follows.
pub open spec fn base_url_problem(url: Seq<char>) -> Option<Seq<char>> {
    if !has_prefix(url, "http://"@) && !has_prefix(url, "https://"@) {
        Some("scheme must be http/https"@)
    } else if url_rest(url).len() == 0 || url_rest(url)[0] == '/' || url_rest(url)[0] == ':' {
        Some("missing host"@)
    } else {
        None
    }
}

/// Checks a base URL before it is called.
pub fn validate_base_url(url: &str) -> (r: Result<(), RemoteError>)
    ensures
        match base_url_problem(url@) {
            Some(p) => r matches Err(RemoteError::InvalidUrl(m)) && m@ == p,
            None => r is Ok,
        },
{
    let u = chars_of(url);
    let http = chars_of("http://");
    let https = chars_of("https://");
    if !has_prefix_exec(&u, &http) && !has_prefix_exec(&u, &https) {
        return Err(RemoteError::InvalidUrl(owned("scheme must be http/https")));
    }
    proof {
        reveal_strlit("http://");
        reveal_strlit("https://");
    }
    let a = strip_leading_exec(&u, &http);
    let rest = strip_leading_exec(&a, &https);
    if rest.len() == 0 || rest[0] == '/' || rest[0] == ':' {
        return Err(RemoteError::InvalidUrl(owned("missing host")));
    }
    Ok(())
}

/// Address of an endpoint: the base URL without trailing slashes, then the path.
pub open spec fn endpoint(base_url: Seq<char>, path: Seq<char>) -> Seq<char> {
    strip_trailing(base_url, '/') + path
}

/// The address of endpoint `path` (such as `/api/info`) of a device.
pub fn endpoint_url(base_url: &str, path: &str) -> (r: String)
    ensures
        r@ == endpoint(base_url@, path@),
{
    let mut v = strip_trailing_exec(&chars_of(base_url), '/');
    push_str(&mut v, path);
    string_from_chars(v.as_slice())
}

/// `key=value` pairs joined by `&`.
pub open spec fn query_string(pairs: Seq<(String, String)>) -> Seq<char>
    decreases pairs.len(),
{
    if pairs.len() == 0 {
        Seq::empty()
    } else if pairs.len() == 1 {
        pairs[0].0@ + "="@ + pairs[0].1@
    } else {
        query_string(pairs.drop_last()) + "&"@ + pairs.last().0@ + "="@ + pairs.last().1@
    }
}

/// The bill list address of a device, with the query pairs when there are any.
pub fn bills_url(base_url: &str, query: &Vec<(String, String)>) -> (r: String)
    ensures
        r@ == if query@.len() == 0 {
            endpoint(base_url@, "/api/bills"@)
        } else {
            endpoint(base_url@, "/api/bills"@) + "?"@ + query_string(query@)
        },
{
    let mut v = strip_trailing_exec(&chars_of(base_url), '/');
    push_str(&mut v, "/api/bills");
    if query.len() > 0 {
        push_str(&mut v, "?");
        let ghost head = v@;
        let mut i: usize = 0;
        while i < query.len()
            invariant
                i <= query.len(),
                query@.len() > 0,
                i == 0 ==> v@ == head,
                i > 0 ==> v@ == head + query_string(query@.take(i as int)),
            decreases query.len() - i,
        {
            assert(query@.take(i + 1).drop_last() =~= query@.take(i as int));
            assert(query@.take(i + 1).last() == query@[i as int]);
            if i > 0 {
                push_str(&mut v, "&");
            }
            push_str(&mut v, query[i].0.as_str());
            push_str(&mut v, "=");
            push_str(&mut v, query[i].1.as_str());
            proof {
                if i == 0 {
                    assert(query@.take(1)[0] == query@[0]);
                    assert(v@ =~= head + query_string(query@.take(1)));
                } else {
                    assert(v@ =~= head + query_string(query@.take(i + 1)));
                }
            }
            i = i + 1;
        }
        assert(query@.take(query.len() as int) =~= query@);
    }
    string_from_chars(v.as_slice())
}

/// The device name a device reports, `Remote` when it reports none.
pub fn device_name_or_default(reported: Option<&str>) -> (r: String)
    ensures
        r@ == match reported { Some(n) => n@, None => "Remote"@ },
{
    match reported {
        Some(n) => owned(n),
        None => owned("Remote"),
    }
}

/// The identifier of a session opened at `nanos` nanoseconds after the epoch.
pub fn session_id_at(nanos: u64) -> (r: String)
    ensures
        r@ == "rs-"@ + decimal(nanos as nat),
{
    let n = decimal_string(nanos);
    concat_str("rs-", n.as_str())
}

impl RemoteSessionFrontend {
    /// The frontend form of a session; a session always has a token.
    pub fn from_session(s: RemoteSession) -> (r: Self)
        ensures
            r.session_id == s.session_id,
            r.base_url == s.base_url,
            r.device_name == s.device_name,
            r.has_token,
    {
        RemoteSessionFrontend { session_id: s.session_id, base_url: s.base_url, device_name: s.device_name, has_token: true }
    }
}

/// A session by its texts.
pub open spec fn session_view(s: RemoteSession) -> (Seq<char>, Seq<char>, Seq<char>, Seq<char>) {
    (s.session_id@, s.base_url@, s.device_name@, s.token@)
}

/// Position of the session with identifier `id`, if any.
pub open spec fn position_of_id(e: Seq<RemoteSession>, id: Seq<char>) -> Option<int>
    decreases e.len(),
{
    if e.len() == 0 {
        None
    } else if e[0].session_id@ == id {
        Some(0)
    } else {
        match position_of_id(e.drop_first(), id) {
            Some(k) => Some(k + 1),
            None => None,
        }
    }
}

/// The sessions after opening `s`: it replaces the session with its identifier, or is
/// added last.
pub open spec fn with_session(e: Seq<RemoteSession>, s: RemoteSession) -> Seq<RemoteSession> {
    match position_of_id(e, s.session_id@) {
        Some(i) => e.update(i, s),
        None => e.push(s),
    }
}

/// The sessions after closing `id`.
pub open spec fn without_session(e: Seq<RemoteSession>, id: Seq<char>) -> Seq<RemoteSession> {
    match position_of_id(e, id) {
        Some(i) => e.remove(i),
        None => e,
    }
}

/// The session with identifier `id`, if open.
pub open spec fn session_lookup(e: Seq<RemoteSession>, id: Seq<char>) -> Option<RemoteSession> {
    match position_of_id(e, id) {
        Some(i) => Some(e[i]),
        None => None,
    }
}

/// No identifier occurs twice.
pub open spec fn ids_distinct(e: Seq<RemoteSession>) -> bool {
    forall|i: int, j: int| 0 <= i < j < e.len() ==> (#[trigger] e[i]).session_id@ != (#[trigger] e[j]).session_id@
}

/// What the position of an identifier says.
pub proof fn lemma_position_of_id(e: Seq<RemoteSession>, id: Seq<char>)
    ensures
        match position_of_id(e, id) {
            Some(i) => 0 <= i < e.len() && e[i].session_id@ == id
                && forall|j: int| 0 <= j < i ==> (#[trigger] e[j]).session_id@ != id,
            None => forall|j: int| 0 <= j < e.len() ==> (#[trigger] e[j]).session_id@ != id,
        },
    decreases e.len(),
{
    if e.len() > 0 && e[0].session_id@ != id {
        lemma_position_of_id(e.drop_first(), id);
        match position_of_id(e.drop_first(), id) {
            Some(k) => {
                assert forall|j: int| 0 <= j < k + 1 implies (#[trigger] e[j]).session_id@ != id by {
                    if j > 0 {
                        assert(e[j] == e.drop_first()[j - 1]);
                    }
                }
            },
            None => {
                assert forall|j: int| 0 <= j < e.len() implies (#[trigger] e[j]).session_id@ != id by {
                    if j > 0 {
                        assert(e[j] == e.drop_first()[j - 1]);
                    }
                }
            },
        }
    }
}

/// Opening a session and then looking its identifier up finds it.
pub proof fn lemma_lookup_after_open(e: Seq<RemoteSession>, s: RemoteSession)
    ensures
        session_lookup(with_session(e, s), s.session_id@) == Some(s),
{
    lemma_position_of_id(e, s.session_id@);
    lemma_position_of_id(with_session(e, s), s.session_id@);
    match position_of_id(e, s.session_id@) {
        Some(i) => {
            let f = with_session(e, s);
            match position_of_id(f, s.session_id@) {
                Some(k) => {
                    if k < i {
                        assert(f[k] == e[k]);
                    } else if k > i {
                        assert(f[i].session_id@ == s.session_id@);
                    }
                },
                None => {
                    assert(f[i].session_id@ == s.session_id@);
                },
            }
        },
        None => {
            let f = with_session(e, s);
            match position_of_id(f, s.session_id@) {
                Some(k) => {
                    if k < e.len() {
                        assert(f[k] == e[k]);
                    }
                },
                None => {
                    assert(f[e.len() as int].session_id@ == s.session_id@);
                },
            }
        },
    }
}

/// Closing a session of distinct identifiers leaves none with its identifier.
pub proof fn lemma_lookup_after_close(e: Seq<RemoteSession>, id: Seq<char>)
    requires
        ids_distinct(e),
    ensures
        session_lookup(without_session(e, id), id) is None,
{
    lemma_position_of_id(e, id);
    let f = without_session(e, id);
    lemma_position_of_id(f, id);
    match position_of_id(f, id) {
        Some(k) => {
            match position_of_id(e, id) {
                Some(i) => {
                    if k < i {
                        assert(f[k] == e[k]);
                    } else {
                        assert(f[k] == e[k + 1]);
                        assert(e[i].session_id@ == e[k + 1].session_id@);
                    }
                },
                None => {
                    assert(f[k] == e[k]);
                },
            }
        },
        None => {},
    }
}

/// Opening and closing keep the identifiers distinct.
pub proof fn lemma_registry_distinct(e: Seq<RemoteSession>, s: RemoteSession, id: Seq<char>)
    requires
        ids_distinct(e),
    ensures
        ids_distinct(with_session(e, s)),
        ids_distinct(without_session(e, id)),
{
    lemma_position_of_id(e, s.session_id@);
    lemma_position_of_id(e, id);
    let f = with_session(e, s);
    assert forall|i: int, j: int| 0 <= i < j < f.len() implies (#[trigger] f[i]).session_id@ != (#[trigger] f[j]).session_id@ by {
        match position_of_id(e, s.session_id@) {
            Some(p) => {
                if i == p {
                    assert(e[j].session_id@ != e[p].session_id@);
                } else if j == p {
                    assert(e[i].session_id@ != e[p].session_id@);
                } else {
                    assert(f[i] == e[i] && f[j] == e[j]);
                }
            },
            None => {
                if j == e.len() {
                    assert(f[i] == e[i]);
                } else {
                    assert(f[i] == e[i] && f[j] == e[j]);
                }
            },
        }
    }
    let g = without_session(e, id);
    assert forall|i: int, j: int| 0 <= i < j < g.len() implies (#[trigger] g[i]).session_id@ != (#[trigger] g[j]).session_id@ by {
        match position_of_id(e, id) {
            Some(p) => {
                let a = if i < p { i } else { i + 1 };
                let b = if j < p { j } else { j + 1 };
                assert(g[i] == e[a]);
                assert(g[j] == e[b]);
            },
            None => {},
        }
    }
}

/// The open sessions, with distinct identifiers, in the order they were first opened.
#[derive(Debug)]
pub struct RemoteSessions {
    sessions: Vec<RemoteSession>,
}

impl RemoteSessions {
    /// The open sessions in order.
    pub closed spec fn entries(&self) -> Seq<RemoteSession> {
        self.sessions@
    }

    /// No identifier occurs twice.
    pub closed spec fn wf(&self) -> bool {
        ids_distinct(self.sessions@)
    }

    /// No session open.
    pub fn new() -> (r: Self)
        ensures
            r.wf(),
            r.entries().len() == 0,
    {
        RemoteSessions { sessions: Vec::new() }
    }

    fn find(&self, id: &str) -> (r: Option<usize>)
        ensures
            match r {
                Some(i) => position_of_id(self.entries(), id@) == Some(i as int),
                None => position_of_id(self.entries(), id@) is None,
            },
    {
        proof {
            lemma_position_of_id(self.sessions@, id@);
        }
        let mut i: usize = 0;
        while i < self.sessions.len()
            invariant
                i <= self.sessions.len(),
                forall|j: int| 0 <= j < i ==> (#[trigger] self.sessions@[j]).session_id@ != id@,
                match position_of_id(self.sessions@, id@) {
                    Some(p) => 0 <= p < self.sessions@.len() && self.sessions@[p].session_id@ == id@
                        && forall|j: int| 0 <= j < p ==> (#[trigger] self.sessions@[j]).session_id@ != id@,
                    None => forall|j: int| 0 <= j < self.sessions@.len() ==> (#[trigger] self.sessions@[j]).session_id@ != id@,
                },
            decreases self.sessions.len() - i,
        {
            if str_eq(self.sessions[i].session_id.as_str(), id) {
                return Some(i);
            }
            i = i + 1;
        }
        None
    }

    /// Records an opened session, replacing the one with the same identifier.
    pub fn insert(&mut self, s: RemoteSession)
        requires
            old(self).wf(),
        ensures
            final(self).wf(),
            final(self).entries() == with_session(old(self).entries(), s),
    {
        proof {
            lemma_registry_distinct(self.sessions@, s, s.session_id@);
            lemma_position_of_id(self.sessions@, s.session_id@);
        }
        match self.find(s.session_id.as_str()) {
            Some(i) => {
                self.sessions.set(i, s);
            },
            None => {
                self.sessions.push(s);
            },
        }
    }

    /// Closes the session with identifier `id`, if open.
    pub fn remove(&mut self, id: &str)
        requires
            old(self).wf(),
        ensures
            final(self).wf(),
            final(self).entries() == without_session(old(self).entries(), id@),
    {
        proof {
            lemma_position_of_id(self.sessions@, id@);
            if self.sessions@.len() > 0 {
                lemma_registry_distinct(self.sessions@, self.sessions@[0], id@);
            }
        }
        match self.find(id) {
            Some(i) => {
                self.sessions.remove(i);
            },
            None => {},
        }
    }

    /// The session with identifier `id`; an unknown identifier is a parse error naming it.
    pub fn get(&self, id: &str) -> (r: Result<RemoteSession, RemoteError>)
        ensures
            match session_lookup(self.entries(), id@) {
                Some(s) => r matches Ok(t) && session_view(t) == session_view(s),
                None => r matches Err(RemoteError::Parse(m)) && m@ == "session not found: "@ + id@,
            },
    {
        proof {
            lemma_position_of_id(self.sessions@, id@);
        }
        match self.find(id) {
            Some(i) => {
                let s = &self.sessions[i];
                Ok(RemoteSession {
                    session_id: s.session_id.clone(),
                    base_url: s.base_url.clone(),
                    device_name: s.device_name.clone(),
                    token: s.token.clone(),
                })
            },
            None => Err(RemoteError::Parse(concat_str("session not found: ", id))),
        }
    }

    /// The open sessions, in order.
    pub fn list(&self) -> (r: Vec<RemoteSession>)
        ensures
            r@.len() == self.entries().len(),
            forall|i: int| 0 <= i < r@.len() ==> session_view(#[trigger] r@[i]) == session_view(self.entries()[i]),
    {
        let mut out: Vec<RemoteSession> = Vec::new();
        let mut i: usize = 0;
        while i < self.sessions.len()
            invariant
                i <= self.sessions.len(),
                out@.len() == i,
                forall|j: int| 0 <= j < i ==> session_view(#[trigger] out@[j]) == session_view(self.sessions@[j]),
            decreases self.sessions.len() - i,
        {
            let s = &self.sessions[i];
            out.push(RemoteSession {
                session_id: s.session_id.clone(),
                base_url: s.base_url.clone(),
                device_name: s.device_name.clone(),
                token: s.token.clone(),
            });
            i = i + 1;
        }
        out
    }
}

/// An HTTP status of success: 200 to 299.
pub open spec fn is_success_status(code: u16) -> bool {
    200 <= code && code <= 299
}

/// Accepts a successful HTTP status; any other is an `Http` error with the status and the
/// message naming the request that failed.
pub fn check_http_status(code: u16, failure: &str) -> (r: Result<(), RemoteError>)
    ensures
        is_success_status(code) ==> r is Ok,
        !is_success_status(code) ==> (r matches Err(RemoteError::Http(c, m)) && c == code && m@ == failure@),
{
    if 200 <= code && code <= 299 {
        Ok(())
    } else {
        Err(RemoteError::Http(code, failure.to_string()))
    }
}

/// Accepts a reply whose `success` flag is set; otherwise the server reported a failure.
pub fn check_success_flag(success: bool, failure: &str) -> (r: Result<(), RemoteError>)
    ensures
        success ==> r is Ok,
        !success ==> (r matches Err(RemoteError::Parse(m)) && m@ == failure@),
{
    if success {
        Ok(())
    } else {
        Err(RemoteError::Parse(failure.to_string()))
    }
}

} // verus!
