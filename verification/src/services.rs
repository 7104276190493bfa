//! Background services: the automatic sync and the session expiry check. The timers,
//! the sync itself and the login probes run outside; what is decided between them
//! (the next interval, whether to run, how outcomes are counted) is here.
use vstd::prelude::*;

use crate::config::{CaptchaMode, SyncRangePresetConfig};
use crate::models::Account;
use crate::sync::SyncRangePreset;

verus! {

/// Seconds since the Unix epoch in nanoseconds, truncated to 64 bits; used as a cheap
/// source of jitter.
#[verifier::external_body]
pub(crate) fn rand_simple() -> u64 {
    let d = std::time::SystemTime::now().duration_since(std::time::UNIX_EPOCH).unwrap_or_default();
    d.as_nanos() as u64
}

/// The jitter of a run in minutes: `rng % 3 - 1`, that is -1, 0 or 1.
pub open spec fn jitter_minutes(rng: u64) -> int {
    (rng % 3) as int - 1
}

/// Seconds until the next run: the base interval, plus one minute when the jitter is
/// positive (a negative jitter counts as none), and never under `floor_seconds`.
pub open spec fn next_interval(base_minutes: int, rng: u64, floor_seconds: int) -> int {
    let extra = if jitter_minutes(rng) * 60 > 0 { jitter_minutes(rng) * 60 } else { 0 };
    let v = base_minutes * 60 + extra;
    if v > floor_seconds { v } else { floor_seconds }
}

/// The sleep before the next run of a periodic service.
pub fn next_interval_seconds(base_minutes: u64, rng: u64, floor_seconds: u64) -> (r: u64)
    requires
        base_minutes * 60 + 60 <= i64::MAX,
        floor_seconds <= i64::MAX,
    ensures
        r == next_interval(base_minutes as int, rng, floor_seconds as int),
{
    let jitter: i64 = (rng % 3) as i64 - 1;
    let extra: u64 = if jitter * 60 > 0 { (jitter * 60) as u64 } else { 0 };
    let v: u64 = base_minutes * 60 + extra;
    if v > floor_seconds { v } else { floor_seconds }
}

/// The sleep before the next run of a periodic service, with the jitter drawn from the
/// clock: the base interval or one minute more, never under `floor_seconds`.
pub fn next_interval_now(base_minutes: u64, floor_seconds: u64) -> (r: u64)
    requires
        base_minutes * 60 + 60 <= i64::MAX,
        floor_seconds <= i64::MAX,
    ensures
        exists|rng: u64| r == next_interval(base_minutes as int, rng, floor_seconds as int),
        r >= floor_seconds,
        r >= base_minutes * 60,
        r == floor_seconds || r == base_minutes * 60 || r == base_minutes * 60 + 60,
{
    let rng = rand_simple();
    let r = next_interval_seconds(base_minutes, rng, floor_seconds);
    assert(r == next_interval(base_minutes as int, rng, floor_seconds as int));
    r
}

/// Shortest interval between automatic syncs, in seconds.
pub const AUTO_SYNC_FLOOR_SECONDS: u64 = 300;

/// Shortest interval between session checks, in seconds.
pub const SESSION_CHECK_FLOOR_SECONDS: u64 = 60;

/// The configured auto-sync interval, at least five minutes.
pub fn auto_sync_interval_minutes(configured: u64) -> (r: u64)
    ensures
        r == if configured > 5 { configured } else { 5 },
{
    if configured > 5 { configured } else { 5 }
}

/// The sync range of the configuration.
pub open spec fn preset_of(c: SyncRangePresetConfig) -> SyncRangePreset {
    match c {
        SyncRangePresetConfig::Week => SyncRangePreset::Week,
        SyncRangePresetConfig::HalfMonth => SyncRangePreset::HalfMonth,
        SyncRangePresetConfig::Month => SyncRangePreset::Month,
        SyncRangePresetConfig::HalfYear => SyncRangePreset::HalfYear,
        SyncRangePresetConfig::Year => SyncRangePreset::Year,
        SyncRangePresetConfig::All => SyncRangePreset::All,
    }
}

/// Converts the configured range into a sync range.
pub fn sync_range_preset(c: &SyncRangePresetConfig) -> (r: SyncRangePreset)
    ensures
        r == preset_of(*c),
{
    match c {
        SyncRangePresetConfig::Week => SyncRangePreset::Week,
        SyncRangePresetConfig::HalfMonth => SyncRangePreset::HalfMonth,
        SyncRangePresetConfig::Month => SyncRangePreset::Month,
        SyncRangePresetConfig::HalfYear => SyncRangePreset::HalfYear,
        SyncRangePresetConfig::Year => SyncRangePreset::Year,
        SyncRangePresetConfig::All => SyncRangePreset::All,
    }
}

/// What a tick of the automatic sync does: sync the default identity over the configured
/// range, or nothing when no default identity is set or captchas are entered by hand.
pub fn auto_sync_plan(identity_id: i64, mode: &CaptchaMode, range: &SyncRangePresetConfig) -> (r: Option<(i64, SyncRangePreset)>)
    ensures
        r == (if identity_id == 0 || *mode == CaptchaMode::Manual {
            None
        } else {
            Some((identity_id, preset_of(*range)))
        }),
{
    if identity_id == 0 {
        return None;
    }
    match mode {
        CaptchaMode::Manual => None,
        _ => Some((identity_id, sync_range_preset(range))),
    }
}

/// What the automatic sync reports about itself.
#[derive(Debug, Clone)]
pub struct AutoSyncStatus {
    pub is_running: bool,
    pub last_run_seconds_ago: Option<u64>,
    pub next_run_in_seconds: Option<u64>,
    pub total_runs: u64,
    pub success_runs: u64,
    pub failed_runs: u64,
}

/// State of the automatic sync; instants are seconds on a monotonic clock.
#[derive(Debug, Clone)]
pub struct AutoSyncState {
    pub is_running: bool,
    pub last_run: Option<u64>,
    pub next_run: Option<u64>,
    pub total_runs: u64,
    pub success_runs: u64,
    pub failed_runs: u64,
}

/// Every recorded run was either a success or a failure.
pub open spec fn runs_balanced(s: AutoSyncState) -> bool {
    s.total_runs == s.success_runs + s.failed_runs
}

/// Seconds from `from` to `to`, zero when `to` is earlier.
pub open spec fn seconds_between(from: u64, to: u64) -> u64 {
    if to >= from { (to - from) as u64 } else { 0 }
}

impl AutoSyncState {
    /// A stopped service that has never run.
    pub fn new() -> (s: Self)
        ensures
            !s.is_running,
            s.last_run is None,
            s.next_run is None,
            s.total_runs == 0,
            s.success_runs == 0,
            s.failed_runs == 0,
    {
        AutoSyncState { is_running: false, last_run: None, next_run: None, total_runs: 0, success_runs: 0, failed_runs: 0 }
    }

    /// Marks the service running; `false`, and no change, when it already was.
    pub fn begin(&mut self) -> (started: bool)
        ensures
            started == !old(self).is_running,
            final(self).is_running,
            final(self).last_run == old(self).last_run,
            final(self).next_run == old(self).next_run,
            final(self).total_runs == old(self).total_runs,
            final(self).success_runs == old(self).success_runs,
            final(self).failed_runs == old(self).failed_runs,
    {
        if self.is_running {
            false
        } else {
            self.is_running = true;
            true
        }
    }

    /// Marks the service stopped, with no run planned.
    pub fn stop(&mut self)
        ensures
            !final(self).is_running,
            final(self).next_run is None,
            final(self).last_run == old(self).last_run,
            final(self).total_runs == old(self).total_runs,
            final(self).success_runs == old(self).success_runs,
            final(self).failed_runs == old(self).failed_runs,
    {
        self.is_running = false;
        self.next_run = None;
    }

    /// Plans the next run at instant `at`.
    pub fn schedule(&mut self, at: u64)
        ensures
            *final(self) == (AutoSyncState { next_run: Some(at), ..*old(self) }),
    {
        self.next_run = Some(at);
    }

    /// Counts a finished run at instant `now`, successful or not.
    pub fn record_run(&mut self, now: u64, success: bool)
        requires
            old(self).total_runs < u64::MAX,
            old(self).success_runs < u64::MAX,
            old(self).failed_runs < u64::MAX,
        ensures
            final(self).is_running == old(self).is_running,
            final(self).last_run == Some(now),
            final(self).next_run is None,
            final(self).total_runs == old(self).total_runs + 1,
            final(self).success_runs == old(self).success_runs + if success { 1int } else { 0int },
            final(self).failed_runs == old(self).failed_runs + if success { 0int } else { 1int },
            runs_balanced(*old(self)) ==> runs_balanced(*final(self)),
    {
        self.last_run = Some(now);
        self.next_run = None;
        self.total_runs = self.total_runs + 1;
        if success {
            self.success_runs = self.success_runs + 1;
        } else {
            self.failed_runs = self.failed_runs + 1;
        }
    }

    /// The status at instant `now`.
    pub fn status(&self, now: u64) -> (r: AutoSyncStatus)
        ensures
            r.is_running == self.is_running,
            r.last_run_seconds_ago == (match self.last_run { Some(t) => Some(seconds_between(t, now)), None => None::<u64> }),
            r.next_run_in_seconds == (match self.next_run { Some(t) => Some(seconds_between(now, t)), None => None::<u64> }),
            r.total_runs == self.total_runs,
            r.success_runs == self.success_runs,
            r.failed_runs == self.failed_runs,
    {
        let last = match self.last_run {
            Some(t) => Some(if now >= t { now - t } else { 0 }),
            None => None,
        };
        let next = match self.next_run {
            Some(t) => Some(if t >= now { t - now } else { 0 }),
            None => None,
        };
        AutoSyncStatus {
            is_running: self.is_running,
            last_run_seconds_ago: last,
            next_run_in_seconds: next,
            total_runs: self.total_runs,
            success_runs: self.success_runs,
            failed_runs: self.failed_runs,
        }
    }
}

/// What a login probe of a saved session found.
#[derive(Debug, Clone)]
pub enum SessionProbe {
    /// No session is saved for the account.
    NoSession,
    /// The saved session could not be read.
    LoadFailed(String),
    /// The payment client could not be created.
    ClientFailed(String),
    /// The saved cookies could not be restored.
    RestoreFailed(String),
    /// The session is still logged in.
    LoggedIn,
    /// The session needs a new login (it has been marked invalid).
    NeedLogin,
    /// The probe itself failed.
    ProbeFailed(String),
}

/// Result of checking one account.
#[derive(Debug, Clone)]
pub struct AccountExpirationResult {
    pub account_id: String,
    pub is_valid: bool,
    pub status: String,
    pub was_invalidated: bool,
    pub error_message: Option<String>,
}

/// Result of one check over the enabled accounts of the default identity.
#[derive(Debug, Clone)]
pub struct SessionExpirationResult {
    pub total_accounts: usize,
    pub valid_count: usize,
    pub expired_count: usize,
    pub results: Vec<AccountExpirationResult>,
}

/// What the session check reports about itself.
#[derive(Debug, Clone)]
pub struct SessionExpirationStatus {
    pub is_running: bool,
    pub last_check: Option<u64>,
    pub total_checks: u64,
    pub valid_count: u64,
    pub expired_count: u64,
}

/// The status word of a probe outcome.
pub open spec fn probe_status(p: SessionProbe) -> Seq<char> {
    match p {
        SessionProbe::NoSession => "no_session"@,
        SessionProbe::LoadFailed(_) => "error"@,
        SessionProbe::ClientFailed(_) => "error"@,
        SessionProbe::RestoreFailed(_) => "restore_failed"@,
        SessionProbe::LoggedIn => "valid"@,
        SessionProbe::NeedLogin => "expired"@,
        SessionProbe::ProbeFailed(_) => "probe_error"@,
    }
}

/// The error text a probe outcome carries, if any.
pub open spec fn probe_error(p: SessionProbe) -> Option<Seq<char>> {
    match p {
        SessionProbe::LoadFailed(e) => Some(e@),
        SessionProbe::ClientFailed(e) => Some(e@),
        SessionProbe::RestoreFailed(e) => Some(e@),
        SessionProbe::ProbeFailed(e) => Some(e@),
        _ => None,
    }
}

/// What a sync does with an account's saved session, from what probing it found.
#[derive(Debug, Clone)]
pub enum SavedSessionStep {
    /// The saved session is still logged in: the bills are fetched with it, with no login.
    SyncWithSession,
    /// There is no session that is still logged in: the account logs in as usual.
    Login,
    /// The saved session could not be read or restored: the sync fails with this error.
    Fail(String),
}

/// The decision of reusing a saved session before logging in: a session that is still
/// logged in is used at once; a missing one, an expired one, or a probe that failed leads to
/// a normal login; a session that cannot be read or restored fails the sync.
pub fn saved_session_step(probe: SessionProbe) -> (r: SavedSessionStep)
    ensures
        (r is SyncWithSession) <==> (probe is LoggedIn),
        (r is Login) <==> (probe is NoSession || probe is NeedLogin || probe is ProbeFailed),
        (r is Fail) <==> (probe is LoadFailed || probe is ClientFailed || probe is RestoreFailed),
        r matches SavedSessionStep::Fail(e) ==> probe_error(probe) == Some(e@),
{
    match probe {
        SessionProbe::LoggedIn => SavedSessionStep::SyncWithSession,
        SessionProbe::NoSession => SavedSessionStep::Login,
        SessionProbe::NeedLogin => SavedSessionStep::Login,
        SessionProbe::ProbeFailed(_) => SavedSessionStep::Login,
        SessionProbe::LoadFailed(e) => SavedSessionStep::Fail(e),
        SessionProbe::ClientFailed(e) => SavedSessionStep::Fail(e),
        SessionProbe::RestoreFailed(e) => SavedSessionStep::Fail(e),
    }
}

/// The result of checking one account from what its probe found: valid only when still
/// logged in, invalidated only when a new login is needed.
pub fn account_expiration_result(account_id: String, probe: SessionProbe) -> (r: AccountExpirationResult)
    ensures
        r.account_id@ == account_id@,
        r.is_valid == (probe is LoggedIn),
        r.was_invalidated == (probe is NeedLogin),
        r.status@ == probe_status(probe),
        crate::classification::opt_view(r.error_message) == probe_error(probe),
{
    let ghost p = probe;
    match probe {
        SessionProbe::NoSession => AccountExpirationResult {
            account_id, is_valid: false, status: "no_session".to_string(), was_invalidated: false, error_message: None,
        },
        SessionProbe::LoadFailed(e) => AccountExpirationResult {
            account_id, is_valid: false, status: "error".to_string(), was_invalidated: false, error_message: Some(e),
        },
        SessionProbe::ClientFailed(e) => AccountExpirationResult {
            account_id, is_valid: false, status: "error".to_string(), was_invalidated: false, error_message: Some(e),
        },
        SessionProbe::RestoreFailed(e) => AccountExpirationResult {
            account_id, is_valid: false, status: "restore_failed".to_string(), was_invalidated: false, error_message: Some(e),
        },
        SessionProbe::LoggedIn => AccountExpirationResult {
            account_id, is_valid: true, status: "valid".to_string(), was_invalidated: false, error_message: None,
        },
        SessionProbe::NeedLogin => AccountExpirationResult {
            account_id, is_valid: false, status: "expired".to_string(), was_invalidated: true, error_message: None,
        },
        SessionProbe::ProbeFailed(e) => AccountExpirationResult {
            account_id, is_valid: false, status: "probe_error".to_string(), was_invalidated: false, error_message: Some(e),
        },
    }
}

/// Number of valid results.
pub open spec fn valid_results(rs: Seq<AccountExpirationResult>) -> int
    decreases rs.len(),
{
    if rs.len() == 0 { 0 } else { valid_results(rs.drop_last()) + if rs.last().is_valid { 1int } else { 0int } }
}

proof fn lemma_valid_results_bound(rs: Seq<AccountExpirationResult>)
    ensures
        0 <= valid_results(rs) <= rs.len(),
    decreases rs.len(),
{
    if rs.len() > 0 {
        lemma_valid_results_bound(rs.drop_last());
    }
}

/// The check that found nothing to check.
pub fn empty_expiration_result() -> (r: SessionExpirationResult)
    ensures
        r.total_accounts == 0,
        r.valid_count == 0,
        r.expired_count == 0,
        r.results@.len() == 0,
{
    SessionExpirationResult { total_accounts: 0, valid_count: 0, expired_count: 0, results: Vec::new() }
}

/// Gathers the per-account results of a check: every account counted once, as valid or
/// as expired.
pub fn tally_expiration(results: Vec<AccountExpirationResult>) -> (r: SessionExpirationResult)
    ensures
        r.results@ == results@,
        r.total_accounts == results@.len(),
        r.valid_count == valid_results(results@),
        r.expired_count == results@.len() - valid_results(results@),
{
    let n = results.len();
    let mut valid: usize = 0;
    let mut i: usize = 0;
    while i < n
        invariant
            i <= n,
            n == results@.len(),
            valid == valid_results(results@.take(i as int)),
        decreases n - i,
    {
        assert(results@.take(i + 1).drop_last() =~= results@.take(i as int));
        proof {
            lemma_valid_results_bound(results@.take(i as int));
        }
        if results[i].is_valid {
            valid = valid + 1;
        }
        i = i + 1;
    }
    assert(results@.take(n as int) =~= results@);
    proof {
        lemma_valid_results_bound(results@);
    }
    SessionExpirationResult { total_accounts: n, valid_count: valid, expired_count: n - valid, results }
}

/// The enabled accounts, in order.
pub open spec fn enabled_accounts(accounts: Seq<Account>) -> Seq<Account>
    decreases accounts.len(),
{
    if accounts.len() == 0 {
        Seq::empty()
    } else {
        let prev = enabled_accounts(accounts.drop_last());
        if accounts.last().enable { prev.push(accounts.last()) } else { prev }
    }
}

/// Keeps the enabled accounts, whose sessions a check probes.
pub fn accounts_to_check(accounts: Vec<Account>) -> (r: Vec<Account>)
    ensures
        r@ == enabled_accounts(accounts@),
{
    let mut rest = accounts;
    let ghost all = rest@;
    let n = rest.len();
    let mut out: Vec<Account> = Vec::new();
    let mut i: usize = 0;
    while i < n
        invariant
            i <= n,
            n == all.len(),
            rest@ == all.skip(i as int),
            out@ == enabled_accounts(all.take(i as int)),
        decreases n - i,
    {
        assert(all.take(i + 1).drop_last() =~= all.take(i as int));
        assert(all.take(i + 1).last() == all[i as int]);
        let a = rest.remove(0);
        assert(rest@ =~= all.skip(i + 1));
        if a.enable {
            out.push(a);
        }
        i = i + 1;
    }
    assert(all.take(n as int) =~= all);
    out
}

/// State of the session check; instants are seconds on a monotonic clock.
#[derive(Debug, Clone)]
pub struct SessionExpirationState {
    pub is_running: bool,
    pub last_check: Option<u64>,
    pub total_checks: u64,
    pub valid_count: u64,
    pub expired_count: u64,
}

impl SessionExpirationState {
    /// A stopped service that has never checked.
    pub fn new() -> (s: Self)
        ensures
            !s.is_running,
            s.last_check is None,
            s.total_checks == 0,
            s.valid_count == 0,
            s.expired_count == 0,
    {
        SessionExpirationState { is_running: false, last_check: None, total_checks: 0, valid_count: 0, expired_count: 0 }
    }

    /// Marks the service running; `false`, and no change, when it already was.
    pub fn begin(&mut self) -> (started: bool)
        ensures
            started == !old(self).is_running,
            *final(self) == (SessionExpirationState { is_running: true, ..*old(self) }),
    {
        if self.is_running {
            false
        } else {
            self.is_running = true;
            true
        }
    }

    /// Marks the service stopped.
    pub fn stop(&mut self)
        ensures
            *final(self) == (SessionExpirationState { is_running: false, ..*old(self) }),
    {
        self.is_running = false;
    }

    /// Adds a finished check at instant `now` to the totals.
    pub fn record_check(&mut self, now: u64, result: &SessionExpirationResult)
        requires
            old(self).total_checks < u64::MAX,
            old(self).valid_count + result.valid_count <= u64::MAX,
            old(self).expired_count + result.expired_count <= u64::MAX,
        ensures
            final(self).is_running == old(self).is_running,
            final(self).last_check == Some(now),
            final(self).total_checks == old(self).total_checks + 1,
            final(self).valid_count == old(self).valid_count + result.valid_count,
            final(self).expired_count == old(self).expired_count + result.expired_count,
    {
        self.last_check = Some(now);
        self.total_checks = self.total_checks + 1;
        self.valid_count = self.valid_count + result.valid_count as u64;
        self.expired_count = self.expired_count + result.expired_count as u64;
    }

    /// The status at instant `now`.
    pub fn status(&self, now: u64) -> (r: SessionExpirationStatus)
        ensures
            r.is_running == self.is_running,
            r.last_check == (match self.last_check { Some(t) => Some(seconds_between(t, now)), None => None::<u64> }),
            r.total_checks == self.total_checks,
            r.valid_count == self.valid_count,
            r.expired_count == self.expired_count,
    {
        let last = match self.last_check {
            Some(t) => Some(if now >= t { now - t } else { 0 }),
            None => None,
        };
        SessionExpirationStatus {
            is_running: self.is_running,
            last_check: last,
            total_checks: self.total_checks,
            valid_count: self.valid_count,
            expired_count: self.expired_count,
        }
    }
}

} // verus!
