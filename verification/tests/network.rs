use shmtu_terminal::net::{
    api_error, compare_versions, extract_p2p_key, generate_pair_code, generate_peer_key, generate_token,
    is_authorized, normalize_bill_type_status, pick_access_url, short_sha256, ApiResponse, OcrResponse, OcrServerScope,
};
use shmtu_terminal::ocr::{announced_ips, check_ocr_request, health_response, info_response, OcrCounters, OcrRequest};
use shmtu_terminal::p2p::{
    authorize_download, authorize_upload, check_pair_code, parse_i32_str, upload_bill_count, P2PHTTPSession, P2PSessions,
};
use shmtu_terminal::remote::{
    bills_url, device_name_or_default, endpoint_url, session_id_at, validate_base_url, RemoteError, RemoteSession,
    RemoteSessionFrontend, RemoteSessions, check_http_status, check_success_flag,
};

#[test]
fn bearer_tokens() {
    assert!(is_authorized(Some("Bearer abc"), "abc"));
    assert!(is_authorized(Some("bearer   abc  "), "abc"));
    assert!(!is_authorized(Some("Bearer abd"), "abc"));
    assert!(!is_authorized(Some("Bearer "), ""));
    assert!(!is_authorized(None, "abc"));
    assert!(!is_authorized(Some("Basic abc"), "abc"));
}

#[test]
fn peer_keys_in_headers() {
    assert_eq!(extract_p2p_key(Some("P2P-Key  k1 ")), Some("k1".to_string()));
    assert_eq!(extract_p2p_key(Some("p2p-key k1")), Some("k1".to_string()));
    assert_eq!(extract_p2p_key(Some("P2P-Key    ")), None);
    assert_eq!(extract_p2p_key(Some("Bearer k1")), None);
}

#[test]
fn random_codes_have_their_lengths_and_alphabets() {
    let t = generate_token();
    assert_eq!(t.chars().count(), 24);
    assert!(t.chars().all(|c| c.is_ascii_alphanumeric()));
    let p = generate_pair_code();
    assert_eq!(p.chars().count(), 6);
    assert!(p.chars().all(|c| "ABCDEFGHJKLMNPQRSTUVWXYZ23456789".contains(c)));
    assert_eq!(generate_peer_key().chars().count(), 32);
}

#[test]
fn short_checksum_is_first_eight_bytes_of_sha256() {
    assert_eq!(short_sha256(b"abc"), "ba7816bf8f01cfea");
}

#[test]
fn responses() {
    let r = ApiResponse::success(5);
    assert!(r.success && r.data == Some(5) && r.error.is_none());
    let e = api_error("bad".to_string());
    assert!(!e.success && e.error.as_deref() == Some("bad"));
    let o = OcrResponse::success("3+5".to_string(), 8, "v2".to_string(), 12);
    assert_eq!(o.result, Some(8));
    assert_eq!(OcrResponse::error("x".to_string()).error.as_deref(), Some("x"));
}

#[test]
fn access_urls() {
    let ips = vec!["192.168.1.2".to_string()];
    assert_eq!(
        pick_access_url(&OcrServerScope::LoopbackOnly, &ips, 8080, "tk"),
        Some("http://127.0.0.1:8080/?token=tk".to_string())
    );
    assert_eq!(pick_access_url(&OcrServerScope::Lan, &ips, 8080, "tk"), Some("http://192.168.1.2:8080/?token=tk".to_string()));
    assert_eq!(pick_access_url(&OcrServerScope::Lan, &[], 8080, "tk"), None);
}

#[test]
fn bill_type_filters() {
    assert_eq!(normalize_bill_type_status("success"), Some("交易成功"));
    assert_eq!(normalize_bill_type_status("not_paid"), Some("#waitfor"));
    assert_eq!(normalize_bill_type_status("failure"), Some("#fail"));
    assert_eq!(normalize_bill_type_status("all"), None);
}

#[test]
fn version_comparison() {
    assert!(compare_versions("1.2.10", "1.2.9") > 0);
    assert!(compare_versions("3000000000", "1") > 0);
    assert!(compare_versions("1", "3000000000") < 0);
    assert!(compare_versions("0.9", "1.0") < 0);
    assert_eq!(compare_versions("1.0", "1.0.0"), 0);
    assert!(compare_versions("1.2", "1.2.1") < 0);
    assert_eq!(compare_versions("1.2.0", "1.2"), 0);
    assert_eq!(compare_versions("2.x.1", "2.1"), 0);
}

fn request(a: &str, b: &str) -> OcrRequest {
    OcrRequest { image_base64: a.to_string(), imageBase64: b.to_string(), model_version: None }
}

#[test]
fn ocr_requests_are_checked_in_order() {
    assert_eq!(
        check_ocr_request(Some("Bearer x"), "tok", &request("aGk=", "")),
        Err((401, "Unauthorized - token invalid or missing".to_string()))
    );
    assert_eq!(
        check_ocr_request(Some("Bearer tok"), "tok", &request("", "")),
        Err((400, "image_base64 / imageBase64 is empty".to_string()))
    );
    assert_eq!(check_ocr_request(Some("Bearer tok"), "tok", &request("", " aGk= ")), Ok(b"hi".to_vec()));
    let bad = check_ocr_request(Some("Bearer tok"), "tok", &request("@@@", "")).unwrap_err();
    assert_eq!(bad.0, 400);
    assert!(bad.1.starts_with("base64 decode: "));
}

#[test]
fn ocr_counters_wrap() {
    let mut c = OcrCounters::new();
    c.record_refused();
    c.record_predicted(30, true);
    c.record_predicted(10, false);
    assert_eq!((c.total_requests, c.success_count, c.failure_count, c.total_response_ms), (3, 1, 2, 40));
    let mut full = OcrCounters { total_requests: u64::MAX, success_count: 0, failure_count: 0, total_response_ms: 0 };
    full.record_refused();
    assert_eq!(full.total_requests, 0);
}

#[test]
fn ocr_health_info_and_ips() {
    assert_eq!(health_response(true, None).status, "healthy");
    assert_eq!(health_response(false, None).status, "loading");
    let i = info_response("dev".to_string(), vec![], 9, "t".to_string());
    assert_eq!((i.protocol_version.as_str(), i.server.as_str()), ("1.0", "tauri-shmtu-ocr"));
    let ips = announced_ips(vec![
        ("127.0.0.1".to_string(), true),
        ("fe80::1".to_string(), false),
        ("10.0.0.5".to_string(), false),
    ]);
    assert_eq!(ips, vec!["10.0.0.5".to_string()]);
    assert_eq!(announced_ips(vec![]), vec!["127.0.0.1".to_string()]);
}

#[test]
fn base_urls() {
    assert!(validate_base_url("http://192.168.1.5:8080").is_ok());
    assert!(validate_base_url("https://host/").is_ok());
    assert!(matches!(validate_base_url("ftp://x"), Err(RemoteError::InvalidUrl(m)) if m == "scheme must be http/https"));
    assert!(matches!(validate_base_url("http://"), Err(RemoteError::InvalidUrl(m)) if m == "missing host"));
    assert!(validate_base_url("http://example.com").is_ok());
    assert!(matches!(validate_base_url("http:///x"), Err(RemoteError::InvalidUrl(m)) if m == "missing host"));
    assert!(matches!(validate_base_url("https://:80"), Err(RemoteError::InvalidUrl(m)) if m == "missing host"));
}

#[test]
fn remote_addresses_and_errors() {
    assert_eq!(endpoint_url("http://h:1//", "/api/info"), "http://h:1/api/info");
    assert_eq!(bills_url("http://h:1/", &vec![]), "http://h:1/api/bills");
    assert_eq!(
        bills_url("http://h:1", &vec![("page".to_string(), "2".to_string()), ("size".to_string(), "5".to_string())]),
        "http://h:1/api/bills?page=2&size=5"
    );
    assert_eq!(device_name_or_default(None), "Remote");
    assert_eq!(session_id_at(42), "rs-42");
    assert_eq!(RemoteError::Http(404, "x".to_string()).message(), "HTTP 404");
    assert_eq!(RemoteError::Network("down".to_string()).message(), "网络错误: down");
}

fn session(id: &str, token: &str) -> RemoteSession {
    RemoteSession { session_id: id.to_string(), base_url: "http://h:1".to_string(), device_name: "phone".to_string(), token: token.to_string() }
}

#[test]
fn session_registry_reads_what_was_written() {
    let mut reg = RemoteSessions::new();
    reg.insert(session("s1", "t1"));
    reg.insert(session("s2", "t2"));
    reg.insert(session("s1", "t3"));
    assert_eq!(reg.get("s1").unwrap().token, "t3");
    assert_eq!(reg.list().len(), 2);
    reg.remove("s1");
    assert!(matches!(reg.get("s1"), Err(RemoteError::Parse(m)) if m == "session not found: s1"));
    assert_eq!(reg.get("s2").unwrap().token, "t2");
    let f = RemoteSessionFrontend::from_session(session("s9", "t"));
    assert!(f.has_token);
}

fn peer(key: &str, id: &str) -> P2PHTTPSession {
    P2PHTTPSession {
        session_id: id.to_string(),
        peer_key: key.to_string(),
        remote_device_name: format!("dev-{}", key),
        remote_ips: vec![],
        remote_port: 1,
        pair_code: "ABC123".to_string(),
        created_at: 0,
    }
}

#[test]
fn pairing_codes() {
    assert_eq!(check_pair_code("", "ABC123"), Err((400, "pair_code is required".to_string())));
    assert_eq!(check_pair_code("abc123", "ABC123"), Ok(()));
    assert_eq!(check_pair_code("abc124", "ABC123"), Err((403, "配对码不正确".to_string())));
}

#[test]
fn peer_sessions_and_requests() {
    let mut sessions = P2PSessions::new();
    sessions.insert(peer("k1", "s1"));
    assert!(sessions.contains_key("k1"));
    assert_eq!(sessions.device_name_of("k1"), Some("dev-k1".to_string()));
    assert_eq!(authorize_upload(Some("P2P-Key k1"), &sessions), Ok("k1".to_string()));
    assert_eq!(authorize_upload(Some("P2P-Key k2"), &sessions), Err((401, "Unauthorized - P2P-Key invalid".to_string())));
    assert_eq!(authorize_upload(None, &sessions), Err((401, "Unauthorized - P2P-Key missing".to_string())));
    assert_eq!(authorize_download(Some("P2P-Key k1"), &sessions, "s1"), Ok(()));
    assert_eq!(
        authorize_download(Some("P2P-Key any"), &sessions, "s1"),
        Err((401, "Unauthorized - P2P-Key invalid".to_string()))
    );
    assert_eq!(authorize_download(None, &sessions, "s1"), Err((401, "Unauthorized - P2P-Key missing".to_string())));
    assert_eq!(
        authorize_download(Some("P2P-Key k1"), &sessions, "s2"),
        Err((404, "Pair session not found: s2".to_string()))
    );
    sessions.clear();
    assert!(!sessions.has_session("s1"));
}

#[test]
fn bill_counts_parse_like_i32() {
    assert_eq!(upload_bill_count(Some("42")), 42);
    assert_eq!(upload_bill_count(Some("-7")), -7);
    assert_eq!(upload_bill_count(Some("x")), 0);
    assert_eq!(upload_bill_count(None), 0);
    assert_eq!(parse_i32_str("2147483647"), Some(i32::MAX));
    assert_eq!(parse_i32_str("-2147483648"), Some(i32::MIN));
    assert_eq!(parse_i32_str("2147483648"), None);
    assert_eq!(parse_i32_str("+5"), Some(5));
    assert_eq!(parse_i32_str("-"), None);
}

#[test]
fn remote_replies_are_checked() {
    assert!(check_http_status(200, "auth failed").is_ok());
    assert!(check_http_status(204, "auth failed").is_ok());
    match check_http_status(401, "auth failed") {
        Err(RemoteError::Http(code, m)) => {
            assert_eq!(code, 401);
            assert_eq!(m, "auth failed");
        }
        _ => panic!("expected an HTTP error"),
    }
    assert!(check_http_status(300, "x").is_err());
    assert!(check_success_flag(true, "server returned failure").is_ok());
    match check_success_flag(false, "server returned failure") {
        Err(RemoteError::Parse(m)) => assert_eq!(m, "server returned failure"),
        _ => panic!("expected a parse error"),
    }
}
