//! What the settings, data and debug pages exchange with the application: update
//! information, export parameters, snapshot entries, cloud backup schedule, OCR service
//! start arguments, peer server status and the cookie clearing summary.
use vstd::prelude::*;

use crate::error::concat_str;
use crate::export::{ExportFormat, ExportOptions, SnapshotInfo};
use crate::net::{compare_versions, version_difference, OcrServerScope};
use crate::remote::{strip_leading, strip_leading_exec};
use crate::text::{chars_of, contains, owned, str_contains, str_eq, string_from_chars};

verus! {

/// A release found by the update check.
#[derive(Debug, Clone)]
pub struct UpdateInfo {
    pub version: String,
    pub release_notes: String,
    pub download_url: String,
    pub is_newer: bool,
}

/// An asset of a release: its file name and download address.
#[derive(Debug, Clone)]
pub struct ReleaseAsset {
    pub name: String,
    pub browser_download_url: String,
}

/// The asset offered for download: a Linux `.deb` or `.AppImage` package.
pub open spec fn linux_package(name: Seq<char>) -> bool {
    contains(name, "linux"@) && (contains(name, ".deb"@) || contains(name, ".AppImage"@))
}

/// Position of the first Linux package among the assets, if any.
pub open spec fn first_linux_package(assets: Seq<ReleaseAsset>) -> Option<int>
    decreases assets.len(),
{
    if assets.len() == 0 {
        None
    } else {
        match first_linux_package(assets.drop_last()) {
            Some(i) => Some(i),
            None => if linux_package(assets.last().name@) { Some(assets.len() - 1) } else { None },
        }
    }
}

/// The update information of a release: its tag without leading `v`s, the first 500
/// characters of its notes, the download address of its first Linux package (empty when
/// none), and whether it is newer than `current_version`.
pub fn update_info(tag_name: &str, body: Option<&str>, assets: &Vec<ReleaseAsset>, current_version: &str) -> (r: UpdateInfo)
    ensures
        r.version@ == strip_leading(tag_name@, "v"@),
        r.is_newer == (version_difference(strip_leading(tag_name@, "v"@), current_version@) > 0),
        r.release_notes@ == (match body { Some(b) => if b@.len() > 500 { b@.take(500) } else { b@ }, None => Seq::empty() }),
        r.download_url@ == (match first_linux_package(assets@) { Some(i) => assets@[i].browser_download_url@, None => Seq::empty() }),
{
    let v = chars_of("v");
    let version_chars = strip_leading_exec(&chars_of(tag_name), &v);
    let version = string_from_chars(version_chars.as_slice());
    let is_newer = compare_versions(version.as_str(), current_version) > 0;
    let notes = match body {
        Some(b) => {
            let bv = chars_of(b);
            if bv.len() > 500 {
                let t = crate::text::slice_chars(&bv, 0, 500);
                assert(t@ =~= bv@.take(500));
                string_from_chars(t.as_slice())
            } else {
                owned(b)
            }
        },
        None => String::new(),
    };
    let mut url = String::new();
    let mut i: usize = 0;
    let mut found = false;
    while i < assets.len()
        invariant
            i <= assets.len(),
            found ==> first_linux_package(assets@.take(i as int)) is Some,
            found == (first_linux_package(assets@.take(i as int)) is Some),
            match first_linux_package(assets@.take(i as int)) {
                Some(k) => 0 <= k < i && url@ == assets@[k].browser_download_url@,
                None => url@.len() == 0,
            },
        decreases assets.len() - i,
    {
        assert(assets@.take(i + 1).drop_last() =~= assets@.take(i as int));
        assert(assets@.take(i + 1).last() == assets@[i as int]);
        if !found {
            let n = assets[i].name.as_str();
            if str_contains(n, "linux") && (str_contains(n, ".deb") || str_contains(n, ".AppImage")) {
                url = assets[i].browser_download_url.clone();
                found = true;
            }
        }
        i = i + 1;
    }
    assert(assets@.take(assets.len() as int) =~= assets@);
    UpdateInfo { version, release_notes: notes, download_url: url, is_newer }
}

/// Export parameters sent by the frontend.
#[derive(Debug, Clone)]
pub struct ExportParamsFrontend {
    pub identity_id: i64,
    pub format: String,
    pub source_type: String,
    pub file_path: String,
    pub date_start: Option<String>,
    pub date_end: Option<String>,
}

/// The export format a name selects.
pub open spec fn format_named(name: Seq<char>) -> Option<ExportFormat> {
    if name == "csv"@ {
        Some(ExportFormat::Csv)
    } else if name == "json"@ {
        Some(ExportFormat::Json)
    } else if name == "qianji"@ {
        Some(ExportFormat::Qianji)
    } else {
        None
    }
}

/// Reads the export format of the parameters; an unknown name is refused with a message
/// naming it.
pub fn export_format_from(name: &str) -> (r: Result<ExportFormat, String>)
    ensures
        match format_named(name@) {
            Some(f) => r == Ok::<ExportFormat, String>(f),
            None => r matches Err(e) && e@ == "不支持的导出格式: "@ + name@,
        },
{
    if str_eq(name, "csv") {
        Ok(ExportFormat::Csv)
    } else if str_eq(name, "json") {
        Ok(ExportFormat::Json)
    } else if str_eq(name, "qianji") {
        Ok(ExportFormat::Qianji)
    } else {
        Err(concat_str("不支持的导出格式: ", name))
    }
}

/// The timestamp of a date bound of an export, parsed with
/// `chrono::NaiveDateTime::parse_from_str(text, "%Y-%m-%d")` at UTC. That format sets no
/// hour or minute, and chrono builds a date-time only from a full time or a timestamp
/// field, so the parse never succeeds and there is never a bound.
#[verifier::external_body]
fn export_bound_timestamp(text: &str) -> (r: Option<i64>)
    ensures
        r is None,
{
    chrono::NaiveDateTime::parse_from_str(text, "%Y-%m-%d").ok().map(|dt| dt.and_utc().timestamp())
}

fn bound_of(date: &Option<String>) -> (r: Option<i64>)
    ensures
        r is None,
{
    match date {
        Some(d) => export_bound_timestamp(d.as_str()),
        None => None,
    }
}

/// The export options of the frontend's parameters: the named format (an unknown name is
/// refused as [`export_format_from`] refuses it), written to the given file, with the
/// classification. The date bounds, given as `YYYY-MM-DD`, never parse as date-times, so
/// no time range is set.
pub fn export_options_from(params: &ExportParamsFrontend) -> (r: Result<ExportOptions, String>)
    ensures
        match format_named(params.format@) {
            Some(f) => r matches Ok(o) && o.format == f && o.output_path == params.file_path
                && o.include_classification && o.start_timestamp is None && o.end_timestamp is None,
            None => r matches Err(e) && e@ == "不支持的导出格式: "@ + params.format@,
        },
{
    let format = match export_format_from(params.format.as_str()) {
        Ok(f) => f,
        Err(e) => {
            return Err(e);
        },
    };
    Ok(ExportOptions {
        format,
        output_path: params.file_path.clone(),
        include_classification: true,
        start_timestamp: bound_of(&params.date_start),
        end_timestamp: bound_of(&params.date_end),
    })
}

/// Whether an export takes the original bills of the identity's first account (else the
/// merged bills of the identity).
pub fn exports_original(params: &ExportParamsFrontend) -> (b: bool)
    ensures
        b == (params.source_type@ == "original"@),
{
    str_eq(params.source_type.as_str(), "original")
}

/// A snapshot as the frontend lists it.
#[derive(Debug, Clone)]
pub struct SnapshotInfoFrontend {
    pub filename: String,
    pub created_at: String,
    pub size_bytes: u64,
}

/// The `YYYY-MM-DD HH:MM:SS` text (UTC) of a time in seconds since the epoch, as chrono
/// formats it; `None` where chrono has no such time.
pub uninterp spec fn utc_text(seconds: i64) -> Option<Seq<char>>;

/// Formats a time with `chrono::DateTime::from_timestamp(seconds, 0)` and
/// `format("%Y-%m-%d %H:%M:%S")`; the contract names the result.
#[verifier::external_body]
fn format_utc_seconds(seconds: i64) -> (r: Option<String>)
    ensures
        crate::numbers::opt_str_view(r) == utc_text(seconds),
{
    chrono::DateTime::from_timestamp(seconds, 0).map(|dt| dt.format("%Y-%m-%d %H:%M:%S").to_string())
}

impl SnapshotInfoFrontend {
    /// The frontend entry of a snapshot: its name, creation time as text (empty when
    /// unknown) and size.
    pub fn from_snapshot(s: SnapshotInfo) -> (r: Self)
        ensures
            r.filename == s.name,
            r.size_bytes == s.size,
            r.created_at@ == (match s.created_at {
                Some(t) => match utc_text(t) { Some(x) => x, None => Seq::empty() },
                None => Seq::empty(),
            }),
    {
        let created = match s.created_at {
            Some(t) => match format_utc_seconds(t) {
                Some(x) => x,
                None => String::new(),
            },
            None => String::new(),
        };
        SnapshotInfoFrontend { filename: s.name, created_at: created, size_bytes: s.size }
    }
}

/// Automatic cloud backup settings.
#[derive(Debug, Clone, Copy)]
pub struct CloudBackupAutoConfig {
    pub auto_enabled: bool,
    pub auto_interval_minutes: u64,
    pub max_keep: usize,
}

/// The backup interval as stored: at least 15 minutes.
pub fn backup_interval_minutes(minutes: u64) -> (r: u64)
    ensures
        r == if minutes > 15 { minutes } else { 15 },
{
    if minutes > 15 { minutes } else { 15 }
}

/// The number of backups kept as stored: between 1 and 100.
pub fn backup_keep_count(count: usize) -> (r: usize)
    ensures
        r == if count < 1 { 1 } else if count > 100 { 100 } else { count },
{
    if count < 1 { 1 } else if count > 100 { 100 } else { count }
}

/// Arguments of starting the OCR service, each falling back on the configuration.
#[derive(Debug, Clone)]
pub struct OcrServerStartArgs {
    pub port: Option<u16>,
    pub scope: Option<OcrServerScope>,
    pub bind_addr: Option<String>,
}

/// The port, scope and bind address the OCR service starts with: those given, else the
/// configured ones.
pub fn resolve_start_args(args: Option<OcrServerStartArgs>, port: u16, scope: OcrServerScope, bind_addr: String) -> (r: (u16, OcrServerScope, String))
    ensures
        r.0 == (match args { Some(a) => match a.port { Some(p) => p, None => port }, None => port }),
        r.1 == (match args { Some(a) => match a.scope { Some(s) => s, None => scope }, None => scope }),
        r.2 == (match args { Some(a) => match a.bind_addr { Some(b) => b, None => bind_addr }, None => bind_addr }),
{
    match args {
        Some(a) => {
            let p = match a.port {
                Some(p) => p,
                None => port,
            };
            let s = match a.scope {
                Some(s) => s,
                None => scope,
            };
            let b = match a.bind_addr {
                Some(b) => b,
                None => bind_addr,
            };
            (p, s, b)
        },
        None => (port, scope, bind_addr),
    }
}

/// State of the peer transfer server as the frontend shows it.
#[derive(Debug, Clone)]
pub struct P2PServerStatus {
    pub running: bool,
    pub port: u16,
    pub device_name: String,
    pub pair_code: String,
}

/// What clearing every stored login did.
#[derive(Debug, Clone, Copy)]
pub struct ClearCookiesSummary {
    pub accounts_visited: u32,
    pub sessions_cleared: u32,
    pub caches_cleared: u32,
}

/// Number of `true` first components.
pub open spec fn count_first(rs: Seq<(bool, bool)>) -> int
    decreases rs.len(),
{
    if rs.len() == 0 { 0 } else { count_first(rs.drop_last()) + if rs.last().0 { 1int } else { 0int } }
}

/// Number of `true` second components.
pub open spec fn count_second(rs: Seq<(bool, bool)>) -> int
    decreases rs.len(),
{
    if rs.len() == 0 { 0 } else { count_second(rs.drop_last()) + if rs.last().1 { 1int } else { 0int } }
}

proof fn lemma_counts_bound(rs: Seq<(bool, bool)>)
    ensures
        0 <= count_first(rs) <= rs.len(),
        0 <= count_second(rs) <= rs.len(),
    decreases rs.len(),
{
    if rs.len() > 0 {
        lemma_counts_bound(rs.drop_last());
    }
}

/// Counts the clearing of each account's login: whether its session and its cached
/// account data were deleted.
pub fn tally_cookie_clearing(results: &Vec<(bool, bool)>) -> (r: ClearCookiesSummary)
    requires
        results@.len() <= u32::MAX,
    ensures
        r.accounts_visited == results@.len(),
        r.sessions_cleared == count_first(results@),
        r.caches_cleared == count_second(results@),
{
    let mut sessions: u32 = 0;
    let mut caches: u32 = 0;
    let mut i: usize = 0;
    while i < results.len()
        invariant
            i <= results.len() <= u32::MAX,
            sessions == count_first(results@.take(i as int)),
            caches == count_second(results@.take(i as int)),
        decreases results.len() - i,
    {
        assert(results@.take(i + 1).drop_last() =~= results@.take(i as int));
        assert(results@.take(i + 1).last() == results@[i as int]);
        proof {
            lemma_counts_bound(results@.take(i as int));
        }
        let (s, c) = results[i];
        if s {
            sessions = sessions + 1;
        }
        if c {
            caches = caches + 1;
        }
        i = i + 1;
    }
    assert(results@.take(results.len() as int) =~= results@);
    ClearCookiesSummary { accounts_visited: results.len() as u32, sessions_cleared: sessions, caches_cleared: caches }
}

} // verus!
