//! The local OCR HTTP service: which requests reach the model, the service counters,
//! and the bodies of its health and info answers. Serving HTTP, loading the model and
//! predicting happen outside.
use vstd::prelude::*;

use crate::crypto::{base64_bytes, base64_decode};
use crate::error::concat_str;
use crate::net::{all_ascii, bearer_authorized, is_authorized, oview};
use crate::text::{contains, owned, str_contains, str_is_empty, trim, trim_str};

verus! {

/// Body of an OCR request: the captcha image in Base64 under either field name, and
/// an optional model version.
#[derive(Debug, Clone)]
#[allow(non_snake_case)]
pub struct OcrRequest {
    pub image_base64: String,
    pub imageBase64: String,
    pub model_version: Option<String>,
}

/// Answer of the health endpoint.
#[derive(Debug, Clone)]
pub struct HealthResponse {
    pub status: String,
    pub models_loaded: bool,
    pub model_version: Option<String>,
    pub server: String,
}

/// Answer of the info endpoint.
#[derive(Debug, Clone)]
pub struct InfoResponse {
    pub device_name: String,
    pub ips: Vec<String>,
    pub port: u16,
    pub token: String,
    pub protocol_version: String,
    pub server: String,
}

/// The OCR service settings of the configuration, with the current token.
#[derive(Debug, Clone)]
pub struct OcrServerConfigSnapshot {
    pub enabled: bool,
    pub port: u16,
    pub token: String,
}

/// The image text of a request: `image_base64` unless empty, else `imageBase64` unless
/// empty.
pub open spec fn request_image(req: OcrRequest) -> Option<Seq<char>> {
    if req.image_base64@.len() > 0 {
        Some(req.image_base64@)
    } else if req.imageBase64@.len() > 0 {
        Some(req.imageBase64@)
    } else {
        None
    }
}

/// Message of a request without a valid token.
pub open spec fn unauthorized_message() -> Seq<char> {
    "Unauthorized - token invalid or missing"@
}

/// Message of a request without an image.
pub open spec fn missing_image_message() -> Seq<char> {
    "image_base64 / imageBase64 is empty"@
}

/// Message of an image that decodes to nothing.
pub open spec fn empty_image_message() -> Seq<char> {
    "image bytes empty"@
}

/// Checks an OCR request before the model is used: the bearer token must be the
/// expected one (else 401), an image must be given (else 400), and its trimmed text must
/// decode as Base64 (else 400, with the decoder's message) to some bytes (else 400). On
/// success the decoded image bytes are returned.
pub fn check_ocr_request(header: Option<&str>, expected: &str, req: &OcrRequest) -> (r: Result<Vec<u8>, (u16, String)>)
    requires
        header matches Some(h) ==> all_ascii(h@),
    ensures
        !bearer_authorized(oview(header), expected@) ==> (r matches Err((code, m)) && code == 401 && m@ == unauthorized_message()),
        bearer_authorized(oview(header), expected@) ==> match request_image(*req) {
            None => (r matches Err((code, m)) && code == 400 && m@ == missing_image_message()),
            Some(img) => match base64_bytes(trim(img)) {
                None => (r matches Err((code, m)) && code == 400 && m@.len() >= 15 && m@.subrange(0, 15) == "base64 decode: "@),
                Some(b) => if b.len() == 0 {
                    (r matches Err((code, m)) && code == 400 && m@ == empty_image_message())
                } else {
                    (r matches Ok(bytes) && bytes@ == b)
                },
            },
        },
{
    if !is_authorized(header, expected) {
        return Err((401, owned("Unauthorized - token invalid or missing")));
    }
    let image: &str = if !str_is_empty(req.image_base64.as_str()) {
        req.image_base64.as_str()
    } else if !str_is_empty(req.imageBase64.as_str()) {
        req.imageBase64.as_str()
    } else {
        return Err((400, owned("image_base64 / imageBase64 is empty")));
    };
    let t = trim_str(image);
    match base64_decode(t.as_str()) {
        Ok(bytes) => {
            if bytes.len() == 0 {
                Err((400, owned("image bytes empty")))
            } else {
                Ok(bytes)
            }
        },
        Err(e) => {
            let m = concat_str("base64 decode: ", e.as_str());
            proof {
                reveal_strlit("base64 decode: ");
                assert(m@.subrange(0, 15) =~= "base64 decode: "@);
            }
            Err((400, m))
        },
    }
}

/// Counters of the OCR service (atomic in the service, so they wrap).
#[derive(Debug, Clone, Copy)]
pub struct OcrCounters {
    pub total_requests: u64,
    pub success_count: u64,
    pub failure_count: u64,
    pub total_response_ms: u64,
}

/// `a + b` wrapping at 2^64.
pub open spec fn wrap_add(a: u64, b: u64) -> u64 {
    if a + b > u64::MAX { (a + b - u64::MAX - 1) as u64 } else { (a + b) as u64 }
}

impl OcrCounters {
    /// All counters at zero.
    pub fn new() -> (c: Self)
        ensures
            c.total_requests == 0 && c.success_count == 0 && c.failure_count == 0 && c.total_response_ms == 0,
    {
        OcrCounters { total_requests: 0, success_count: 0, failure_count: 0, total_response_ms: 0 }
    }

    /// Counts a request refused before the model ran.
    pub fn record_refused(&mut self)
        ensures
            final(self).total_requests == wrap_add(old(self).total_requests, 1),
            final(self).failure_count == wrap_add(old(self).failure_count, 1),
            final(self).success_count == old(self).success_count,
            final(self).total_response_ms == old(self).total_response_ms,
    {
        self.total_requests = self.total_requests.wrapping_add(1);
        self.failure_count = self.failure_count.wrapping_add(1);
    }

    /// Counts a request that ran the model for `elapsed_ms`, successfully or not.
    pub fn record_predicted(&mut self, elapsed_ms: u64, success: bool)
        ensures
            final(self).total_requests == wrap_add(old(self).total_requests, 1),
            final(self).total_response_ms == wrap_add(old(self).total_response_ms, elapsed_ms),
            final(self).success_count == if success { wrap_add(old(self).success_count, 1) } else { old(self).success_count },
            final(self).failure_count == if success { old(self).failure_count } else { wrap_add(old(self).failure_count, 1) },
    {
        self.total_requests = self.total_requests.wrapping_add(1);
        self.total_response_ms = self.total_response_ms.wrapping_add(elapsed_ms);
        if success {
            self.success_count = self.success_count.wrapping_add(1);
        } else {
            self.failure_count = self.failure_count.wrapping_add(1);
        }
    }
}

/// Name the service gives itself.
pub open spec fn server_name() -> Seq<char> {
    "tauri-shmtu-ocr"@
}

/// The health answer: `healthy` once the model is loaded, else `loading`.
pub fn health_response(models_loaded: bool, model_version: Option<String>) -> (r: HealthResponse)
    ensures
        r.status@ == (if models_loaded { "healthy"@ } else { "loading"@ }),
        r.models_loaded == models_loaded,
        r.model_version == model_version,
        r.server@ == server_name(),
{
    HealthResponse {
        status: if models_loaded { owned("healthy") } else { owned("loading") },
        models_loaded,
        model_version,
        server: owned("tauri-shmtu-ocr"),
    }
}

/// The info answer, for protocol version 1.0.
pub fn info_response(device_name: String, ips: Vec<String>, port: u16, token: String) -> (r: InfoResponse)
    ensures
        r.device_name == device_name,
        r.ips == ips,
        r.port == port,
        r.token == token,
        r.protocol_version@ == "1.0"@,
        r.server@ == server_name(),
{
    InfoResponse { device_name, ips, port, token, protocol_version: owned("1.0"), server: owned("tauri-shmtu-ocr") }
}

/// The IPv4 addresses of the interfaces that are not loopback, in order.
pub open spec fn external_ipv4(ifaces: Seq<(String, bool)>) -> Seq<Seq<char>>
    decreases ifaces.len(),
{
    if ifaces.len() == 0 {
        Seq::empty()
    } else {
        let prev = external_ipv4(ifaces.drop_last());
        let (ip, loopback) = ifaces.last();
        if !loopback && !contains(ip@, ":"@) { prev.push(ip@) } else { prev }
    }
}

/// The addresses the service announces, from each interface's address text and whether
/// it is loopback: the IPv4 addresses of the other interfaces, or `127.0.0.1` when there
/// are none.
pub fn announced_ips(ifaces: Vec<(String, bool)>) -> (r: Vec<String>)
    ensures
        crate::numbers::strings_view(r@) == (if external_ipv4(ifaces@).len() == 0 {
            seq!["127.0.0.1"@]
        } else {
            external_ipv4(ifaces@)
        }),
{
    let mut rest = ifaces;
    let ghost all = rest@;
    let n = rest.len();
    let mut out: Vec<String> = Vec::new();
    let mut i: usize = 0;
    while i < n
        invariant
            i <= n,
            n == all.len(),
            rest@ == all.skip(i as int),
            crate::numbers::strings_view(out@) == external_ipv4(all.take(i as int)),
        decreases n - i,
    {
        assert(all.take(i + 1).drop_last() =~= all.take(i as int));
        assert(all.take(i + 1).last() == all[i as int]);
        let (ip, loopback) = rest.remove(0);
        assert(rest@ =~= all.skip(i + 1));
        if !loopback && !str_contains(ip.as_str(), ":") {
            let ghost before = out@;
            out.push(ip);
            assert(crate::numbers::strings_view(out@) =~= crate::numbers::strings_view(before).push(all[i as int].0@));
        }
        i = i + 1;
    }
    assert(all.take(n as int) =~= all);
    if out.len() == 0 {
        out.push(owned("127.0.0.1"));
        assert(crate::numbers::strings_view(out@) =~= seq!["127.0.0.1"@]);
    }
    out
}

} // verus!
