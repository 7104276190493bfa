//! Bill synchronisation: sync ranges and options, account selection, progress reports
//! and their frontend form, and the manual-captcha hand-off.
use vstd::prelude::*;

use vstd::string::StrSliceExecFns;

use crate::captcha::LoginSubmitOutcome;
use crate::config::CaptchaMode;
use crate::error::{concat_str, error_text, AppError, AppResult};
use crate::models::Account;
use crate::text::{
    is_digit, chars_of, decimal, decimal_chars, find_chars, find_first, lex_lt, push_chars, push_str,
    string_from_chars, trim, trim_str, str_le, str_eq,
};

verus! {

/// How far back a sync reaches.
#[derive(Debug, Clone, Copy, PartialEq, Eq)]
pub enum SyncRangePreset {
    Week,
    HalfMonth,
    Month,
    HalfYear,
    Year,
    All,
}

/// Paging and stopping options of one sync run (all bill types are fetched).
#[derive(Debug, Clone, Copy)]
pub struct SyncOptions {
    pub start_page: u32,
    pub max_pages: u32,
    pub early_stop_threshold: u32,
    pub since_timestamp: Option<i64>,
}

/// Phase of the sync of one account.
#[derive(Debug, Clone)]
pub enum SyncStatus {
    ProbingLogin,
    GettingCaptcha,
    LoggingIn,
    Syncing { page: u32, total: u32 },
    Persisting,
    Completed,
    Failed(String),
}

/// A progress report.
#[derive(Debug, Clone)]
pub struct SyncProgress {
    pub account_id: String,
    pub current_account: String,
    pub account_index: usize,
    pub total_accounts: usize,
    pub new_count: usize,
    pub pages_fetched: u32,
    pub total_new_count: usize,
    pub status: SyncStatus,
}

/// Outcome of syncing one account.
#[derive(Debug, Clone)]
pub struct AccountSyncResult {
    pub account_id: String,
    pub account_name: String,
    pub new_count: usize,
    pub pages_fetched: u32,
    pub early_stopped: bool,
    pub error: Option<String>,
}

/// Outcome of syncing an identity.
#[derive(Debug, Clone)]
pub struct IdentitySyncResult {
    pub results: Vec<AccountSyncResult>,
    pub total_new_count: usize,
}

/// The account a progress report is about.
#[derive(Debug, Clone)]
pub struct AccountProgressContext {
    pub account_id: String,
    pub account_name: String,
    pub account_index: usize,
    pub total_accounts: usize,
}

/// A sync waiting for a manually entered captcha: the accounts still to do and the
/// results so far (the login handle stays with the caller).
#[derive(Debug, Clone)]
pub struct PendingManualSync {
    pub identity_id: i64,
    pub total_accounts: usize,
    pub sync_options: SyncOptions,
    pub current_account: Account,
    pub remaining_accounts: Vec<Account>,
    pub results: Vec<AccountSyncResult>,
    pub total_new_count: usize,
    pub execution: String,
}

/// Days covered by a range, `None` for all time.
pub open spec fn range_days(r: SyncRangePreset) -> Option<int> {
    match r {
        SyncRangePreset::Week => Some(7),
        SyncRangePreset::HalfMonth => Some(15),
        SyncRangePreset::Month => Some(30),
        SyncRangePreset::HalfYear => Some(183),
        SyncRangePreset::Year => Some(365),
        SyncRangePreset::All => None,
    }
}

/// Start of a range that ends at `now`, in Unix seconds; `None` for all time.
pub open spec fn range_start(r: SyncRangePreset, now: int) -> Option<int> {
    match range_days(r) {
        Some(d) => Some(now - d * 86400),
        None => None,
    }
}

/// Largest magnitude of a timestamp that chrono represents (about 262 000 years).
pub const MAX_CLOCK_SECONDS: i64 = 9_000_000_000_000;

/// The current Unix time in seconds (`chrono::Local::now().timestamp()`); it depends on
/// the clock and is only known to lie within chrono's range.
#[verifier::external_body]
fn now_timestamp() -> (r: i64)
    ensures
        -MAX_CLOCK_SECONDS <= r <= MAX_CLOCK_SECONDS,
{
    chrono::Local::now().timestamp()
}

/// A date as chrono writes the current local date with `%Y-%m-%d`: a four-digit year, then
/// a two-digit month and day, no earlier than 1969-12-31 (the clock is read through
/// `Utc::now`, which stops at dates before the Unix epoch, and a local date lies at most a
/// day before the UTC one); a year past 9999 is written with a leading `+`.
pub open spec fn clock_date_text(t: Seq<char>) -> bool {
    ||| {
        &&& t.len() == 10
        &&& is_digit(t[0]) && is_digit(t[1]) && is_digit(t[2]) && is_digit(t[3])
        &&& t[4] == '-' && is_digit(t[5]) && is_digit(t[6])
        &&& t[7] == '-' && is_digit(t[8]) && is_digit(t[9])
        &&& !lex_lt(t, seq!['1', '9', '6', '9', '-', '1', '2', '-', '3', '1'])
    }
    ||| t.len() > 10 && t[0] == '+'
}

/// The current local date as `YYYY-MM-DD` (`chrono::Local::now()` formatted with
/// `%Y-%m-%d`). Which date it is depends on the clock and is not stated; what is stated is
/// the form chrono writes it in.
#[verifier::external_body]
fn today_text() -> (r: String)
    ensures
        clock_date_text(r@),
{
    chrono::Local::now().format("%Y-%m-%d").to_string()
}

/// Start of the range that ends at `now`.
pub fn range_since(sync_range: SyncRangePreset, now: i64) -> (r: Option<i64>)
    requires
        -MAX_CLOCK_SECONDS <= now <= MAX_CLOCK_SECONDS,
    ensures
        match range_start(sync_range, now as int) {
            Some(t) => r == Some(t as i64),
            None => r is None,
        },
{
    match sync_range {
        SyncRangePreset::Week => Some(now - 7 * 86400),
        SyncRangePreset::HalfMonth => Some(now - 15 * 86400),
        SyncRangePreset::Month => Some(now - 30 * 86400),
        SyncRangePreset::HalfYear => Some(now - 183 * 86400),
        SyncRangePreset::Year => Some(now - 365 * 86400),
        SyncRangePreset::All => None,
    }
}

/// Start of the range that ends now: `None` exactly for all time.
pub fn range_since_timestamp(sync_range: SyncRangePreset) -> (r: Option<i64>)
    ensures
        (r is None) == (sync_range == SyncRangePreset::All),
        r matches Some(t) ==> exists|now: int| -MAX_CLOCK_SECONDS <= now <= MAX_CLOCK_SECONDS
            && range_start(sync_range, now) == Some(t as int),
{
    let now = now_timestamp();
    range_since(sync_range, now)
}

/// Options of an incremental sync: from page 1, at most 100 pages, stop after 10 pages of
/// known bills.
pub fn incremental_sync_options(since_timestamp: Option<i64>) -> (o: SyncOptions)
    ensures
        o.start_page == 1 && o.max_pages == 100 && o.early_stop_threshold == 10
            && o.since_timestamp == since_timestamp,
{
    SyncOptions { start_page: 1, max_pages: 100, early_stop_threshold: 10, since_timestamp }
}

/// Options of a full sync: from page 1, at most 1000 pages, never stopping early.
pub fn full_sync_options(since_timestamp: Option<i64>) -> (o: SyncOptions)
    ensures
        o.start_page == 1 && o.max_pages == 1000 && o.early_stop_threshold == u32::MAX
            && o.since_timestamp == since_timestamp,
{
    SyncOptions { start_page: 1, max_pages: 1000, early_stop_threshold: u32::MAX, since_timestamp }
}

/// Options of an incremental sync over a range that ends now.
pub fn default_incremental_sync_options(sync_range: SyncRangePreset) -> (o: SyncOptions)
    ensures
        o.start_page == 1 && o.max_pages == 100 && o.early_stop_threshold == 10,
        (o.since_timestamp is None) == (sync_range == SyncRangePreset::All),
{
    incremental_sync_options(range_since_timestamp(sync_range))
}

/// An account has graduated when its graduation date, trimmed and not blank, is earlier
/// than today (both `YYYY-MM-DD` text).
pub open spec fn graduated(account: Account, today: Seq<char>) -> bool {
    match account.graduation_date {
        Some(g) => trim(g@).len() > 0 && lex_lt(trim(g@), today),
        None => false,
    }
}

/// Whether the account's graduation date lies before `today`.
pub fn is_account_graduated(account: &Account, today: &str) -> (b: bool)
    ensures
        b == graduated(*account, today@),
{
    match &account.graduation_date {
        Some(g) => {
            let t = trim_str(g.as_str());
            if crate::text::str_is_empty(t.as_str()) {
                false
            } else {
                str_le(t.as_str(), today) && !str_eq(t.as_str(), today)
            }
        },
        None => false,
    }
}

/// An account takes part in a sync: enabled, updates enabled, and not graduated unless
/// graduated accounts are included.
pub open spec fn syncable(a: Account, skip_graduated: bool, today: Seq<char>) -> bool {
    a.enable && a.enable_update && (!skip_graduated || !graduated(a, today))
}

/// The accounts that take part in a sync, in order.
pub open spec fn syncable_accounts(accounts: Seq<Account>, skip_graduated: bool, today: Seq<char>) -> Seq<Account>
    decreases accounts.len(),
{
    if accounts.len() == 0 {
        Seq::empty()
    } else {
        let prev = syncable_accounts(accounts.drop_last(), skip_graduated, today);
        if syncable(accounts.last(), skip_graduated, today) { prev.push(accounts.last()) } else { prev }
    }
}

/// Keeps the accounts that take part in a sync.
pub fn filter_syncable_accounts(accounts: Vec<Account>, skip_graduated: bool, today: &str) -> (r: Vec<Account>)
    ensures
        r@ == syncable_accounts(accounts@, skip_graduated, today@),
{
    let mut rest = accounts;
    let ghost all = rest@;
    let n = rest.len();
    let mut out: Vec<Account> = Vec::new();
    let mut i: usize = 0;
    while i < n
        invariant
            i <= n,
            n == all.len(),
            rest@ == all.skip(i as int),
            out@ == syncable_accounts(all.take(i as int), skip_graduated, today@),
        decreases n - i,
    {
        assert(all.take(i + 1).drop_last() =~= all.take(i as int));
        assert(all.take(i + 1).last() == all[i as int]);
        let a = rest.remove(0);
        assert(rest@ =~= all.skip(i + 1));
        let keep = a.enable && a.enable_update && (!skip_graduated || !is_account_graduated(&a, today));
        if keep {
            out.push(a);
        }
        i = i + 1;
    }
    assert(all.take(n as int) =~= all);
    out
}

/// The account's graduation date, trimmed and not blank, lies before `today` (compared
/// as text).
pub open spec fn graduation_before(a: Account, today: Seq<char>) -> bool {
    a.graduation_date matches Some(g) && trim(g@).len() > 0 && lex_lt(trim(g@), today)
}

/// The accounts kept for a sync on `today` are the enabled ones that allow updates and,
/// when graduated accounts are skipped, whose graduation date is not before `today`: each
/// kept account is such an account of the input, and each such account is kept.
pub proof fn lemma_syncable_accounts_fields(accounts: Seq<Account>, skip_graduated: bool, today: Seq<char>)
    ensures
        forall|i: int| 0 <= i < syncable_accounts(accounts, skip_graduated, today).len() ==> {
            let a = #[trigger] syncable_accounts(accounts, skip_graduated, today)[i];
            &&& accounts.contains(a)
            &&& a.enable && a.enable_update
            &&& skip_graduated ==> !graduation_before(a, today)
        },
        forall|j: int| 0 <= j < accounts.len() && (#[trigger] accounts[j]).enable && accounts[j].enable_update
            && (!skip_graduated || !graduation_before(accounts[j], today))
            ==> syncable_accounts(accounts, skip_graduated, today).contains(accounts[j]),
    decreases accounts.len(),
{
    if accounts.len() > 0 {
        let p = accounts.drop_last();
        lemma_syncable_accounts_fields(p, skip_graduated, today);
        let prev = syncable_accounts(p, skip_graduated, today);
        let cur = syncable_accounts(accounts, skip_graduated, today);
        assert forall|i: int| 0 <= i < cur.len() implies accounts.contains(#[trigger] cur[i]) by {
            if i < prev.len() {
                assert(cur[i] == prev[i]);
                assert(p.contains(prev[i]));
                let q = choose|q: int| 0 <= q < p.len() && p[q] == prev[i];
                assert(accounts[q] == prev[i]);
            } else {
                assert(accounts[accounts.len() - 1] == accounts.last());
            }
        }
        assert forall|j: int| 0 <= j < accounts.len() && (#[trigger] accounts[j]).enable && accounts[j].enable_update
            && (!skip_graduated || !graduation_before(accounts[j], today))
            implies cur.contains(accounts[j]) by {
            if j < accounts.len() - 1 {
                assert(p[j] == accounts[j]);
                assert(prev.contains(p[j]));
                let q = choose|q: int| 0 <= q < prev.len() && prev[q] == p[j];
                assert(cur[q] == prev[q]);
            } else {
                assert(accounts[j] == accounts.last());
                assert(cur == prev.push(accounts.last()));
                assert(cur[prev.len() as int] == accounts[j]);
            }
        }
    }
}

/// The accounts of an identity that take part in a sync today.
pub fn enabled_accounts_today(accounts: Vec<Account>, skip_graduated: bool) -> (r: Vec<Account>)
    ensures
        exists|today: Seq<char>| {
            &&& clock_date_text(today)
            &&& r@ == #[trigger] syncable_accounts(accounts@, skip_graduated, today)
            &&& forall|i: int| 0 <= i < r@.len() ==>
                    accounts@.contains(#[trigger] r@[i]) && r@[i].enable && r@[i].enable_update
                    && (skip_graduated ==> !graduation_before(r@[i], today))
            &&& forall|j: int| 0 <= j < accounts@.len() && (#[trigger] accounts@[j]).enable && accounts@[j].enable_update
                    && (!skip_graduated || !graduation_before(accounts@[j], today))
                    ==> r@.contains(accounts@[j])
        },
        !skip_graduated ==> r@ == syncable_accounts(accounts@, false, Seq::empty()),
        r@.len() <= accounts@.len(),
        forall|i: int| 0 <= i < r@.len() ==> (#[trigger] r@[i]).enable && r@[i].enable_update,
{
    let today = today_text();
    let r = filter_syncable_accounts(accounts, skip_graduated, today.as_str());
    proof {
        lemma_syncable_accounts_props(accounts@, skip_graduated, today@);
        lemma_syncable_accounts_fields(accounts@, skip_graduated, today@);
        if !skip_graduated {
            lemma_syncable_ignores_date(accounts@, today@);
        }
    }
    r
}

/// Without the graduation check the date plays no part in the filter.
proof fn lemma_syncable_ignores_date(accounts: Seq<Account>, today: Seq<char>)
    ensures
        syncable_accounts(accounts, false, today) == syncable_accounts(accounts, false, Seq::empty()),
    decreases accounts.len(),
{
    if accounts.len() > 0 {
        lemma_syncable_ignores_date(accounts.drop_last(), today);
    }
}

proof fn lemma_syncable_accounts_props(accounts: Seq<Account>, skip_graduated: bool, today: Seq<char>)
    ensures
        syncable_accounts(accounts, skip_graduated, today).len() <= accounts.len(),
        forall|i: int| 0 <= i < syncable_accounts(accounts, skip_graduated, today).len()
            ==> syncable(#[trigger] syncable_accounts(accounts, skip_graduated, today)[i], skip_graduated, today),
    decreases accounts.len(),
{
    if accounts.len() > 0 {
        lemma_syncable_accounts_props(accounts.drop_last(), skip_graduated, today);
    }
}

impl AccountProgressContext {
    /// The progress context of an account at a position in the run.
    pub fn new(account: &Account, account_index: usize, total_accounts: usize) -> (c: Self)
        ensures
            c.account_id == account.account_id,
            c.account_name == account.account_name,
            c.account_index == account_index,
            c.total_accounts == total_accounts,
    {
        AccountProgressContext {
            account_id: account.account_id.clone(),
            account_name: account.account_name.clone(),
            account_index,
            total_accounts,
        }
    }

    /// A progress report for this account.
    pub fn progress(&self, new_count: usize, pages_fetched: u32, total_new_count: usize, status: SyncStatus) -> (p: SyncProgress)
        ensures
            p.account_id == self.account_id,
            p.current_account == self.account_name,
            p.account_index == self.account_index,
            p.total_accounts == self.total_accounts,
            p.new_count == new_count,
            p.pages_fetched == pages_fetched,
            p.total_new_count == total_new_count,
            p.status == status,
    {
        SyncProgress {
            account_id: self.account_id.clone(),
            current_account: self.account_name.clone(),
            account_index: self.account_index,
            total_accounts: self.total_accounts,
            new_count,
            pages_fetched,
            total_new_count,
            status,
        }
    }
}

/// Sum of the new-bill counts of the results.
pub open spec fn sum_new(results: Seq<AccountSyncResult>) -> int
    decreases results.len(),
{
    if results.len() == 0 { 0 } else { sum_new(results.drop_last()) + results.last().new_count }
}

impl PendingManualSync {
    /// Records the result of one account and adds its new bills to the total.
    pub fn push_result(&mut self, result: AccountSyncResult)
        requires
            old(self).total_new_count + result.new_count <= usize::MAX,
        ensures
            final(self).results@ == old(self).results@.push(result),
            final(self).total_new_count == old(self).total_new_count + result.new_count,
            final(self).identity_id == old(self).identity_id,
            final(self).total_accounts == old(self).total_accounts,
            final(self).remaining_accounts == old(self).remaining_accounts,
            final(self).current_account == old(self).current_account,
            final(self).execution == old(self).execution,
    {
        self.total_new_count = self.total_new_count + result.new_count;
        self.results.push(result);
    }

    /// A manual-captcha run that waits for the captcha of `current_account`, with the
    /// accounts still to do, the results so far and their total of new bills.
    pub fn new(
        identity_id: i64,
        total_accounts: usize,
        sync_options: SyncOptions,
        current_account: Account,
        remaining_accounts: Vec<Account>,
        results: Vec<AccountSyncResult>,
        total_new_count: usize,
        execution: String,
    ) -> (p: Self)
        ensures
            p.identity_id == identity_id,
            p.total_accounts == total_accounts,
            p.sync_options == sync_options,
            p.current_account == current_account,
            p.remaining_accounts == remaining_accounts,
            p.results == results,
            p.total_new_count == total_new_count,
            p.execution == execution,
    {
        PendingManualSync {
            identity_id,
            total_accounts,
            sync_options,
            current_account,
            remaining_accounts,
            results,
            total_new_count,
            execution,
        }
    }

    /// Takes the next account to sync, the first of those still to do; `None` when the run
    /// is through.
    pub fn next_account(&mut self) -> (r: Option<Account>)
        ensures
            old(self).remaining_accounts@.len() == 0 ==> r is None && *final(self) == *old(self),
            old(self).remaining_accounts@.len() > 0 ==> r == Some(old(self).remaining_accounts@[0])
                && final(self).remaining_accounts@ == old(self).remaining_accounts@.drop_first(),
            final(self).results == old(self).results,
            final(self).total_new_count == old(self).total_new_count,
            final(self).identity_id == old(self).identity_id,
            final(self).total_accounts == old(self).total_accounts,
            final(self).current_account == old(self).current_account,
            final(self).execution == old(self).execution,
    {
        if self.remaining_accounts.len() == 0 {
            None
        } else {
            let a = self.remaining_accounts.remove(0);
            assert(self.remaining_accounts@ =~= old(self).remaining_accounts@.drop_first());
            Some(a)
        }
    }

    /// Puts the run on hold until the captcha of `account` is typed in, for the challenge
    /// with `execution`.
    pub fn await_captcha(&mut self, account: Account, execution: String)
        ensures
            final(self).current_account == account,
            final(self).execution == execution,
            final(self).remaining_accounts == old(self).remaining_accounts,
            final(self).results == old(self).results,
            final(self).total_new_count == old(self).total_new_count,
            final(self).identity_id == old(self).identity_id,
            final(self).total_accounts == old(self).total_accounts,
    {
        self.current_account = account;
        self.execution = execution;
    }

    /// The position of the account in hand: the number of accounts already done.
    pub fn progress_index(&self) -> (r: usize)
        ensures
            r == self.results@.len(),
    {
        self.results.len()
    }

    /// The outcome of the finished run: its results and their total of new bills.
    pub fn finish(self) -> (r: IdentitySyncResult)
        ensures
            r.results == self.results,
            r.total_new_count == self.total_new_count,
    {
        IdentitySyncResult { results: self.results, total_new_count: self.total_new_count }
    }

    /// One step of a manual-captcha run, on what happened to the account in hand: a synced
    /// account's result is recorded, and the run goes on with the next account or is
    /// finished; an account that needs a captcha puts the run on hold for it and stops the
    /// sync with the error that carries the challenge. The running total stays the sum of
    /// the results.
    pub fn step(&mut self, event: ManualRunEvent) -> (action: ManualRunAction)
        requires
            event matches ManualRunEvent::Synced(r) ==> old(self).total_new_count + r.new_count <= usize::MAX,
        ensures
            final(self).identity_id == old(self).identity_id,
            final(self).total_accounts == old(self).total_accounts,
            old(self).total_new_count == sum_new(old(self).results@)
                ==> final(self).total_new_count == sum_new(final(self).results@),
            match event {
                ManualRunEvent::Synced(r) => {
                    &&& final(self).results@ == old(self).results@.push(r)
                    &&& final(self).total_new_count == old(self).total_new_count + r.new_count
                    &&& if old(self).remaining_accounts@.len() == 0 {
                        action is Finished && final(self).remaining_accounts@ == old(self).remaining_accounts@
                    } else {
                        action == ManualRunAction::SyncAccount(old(self).remaining_accounts@[0])
                            && final(self).remaining_accounts@ == old(self).remaining_accounts@.drop_first()
                    }
                },
                ManualRunEvent::NeedsCaptcha { account, image, execution } => {
                    &&& final(self).current_account == account
                    &&& final(self).execution == execution
                    &&& final(self).results == old(self).results
                    &&& final(self).total_new_count == old(self).total_new_count
                    &&& final(self).remaining_accounts == old(self).remaining_accounts
                    &&& action matches ManualRunAction::StopForCaptcha(AppError::Sync(m))
                        && m@ == manual_captcha_text(image@, execution@)
                },
            },
    {
        match event {
            ManualRunEvent::Synced(r) => {
                proof {
                    if old(self).total_new_count == sum_new(old(self).results@) {
                        lemma_push_result_keeps_total(old(self).results@, old(self).total_new_count as int, r);
                    }
                }
                self.push_result(r);
                match self.next_account() {
                    Some(a) => ManualRunAction::SyncAccount(a),
                    None => ManualRunAction::Finished,
                }
            },
            ManualRunEvent::NeedsCaptcha { account, image, execution } => {
                let e = manual_captcha_error(image.as_str(), execution.as_str());
                self.await_captcha(account, execution);
                ManualRunAction::StopForCaptcha(e)
            },
        }
    }
}

/// What happened to the account in hand of a manual-captcha run.
#[derive(Debug, Clone)]
pub enum ManualRunEvent {
    /// It was synced, with this result.
    Synced(AccountSyncResult),
    /// It needs a captcha typed by hand: the challenge's image and execution token.
    NeedsCaptcha { account: Account, image: String, execution: String },
}

/// What a manual-captcha run does next.
#[derive(Debug, Clone)]
pub enum ManualRunAction {
    /// Sync this account next.
    SyncAccount(Account),
    /// Every account is done: hand back the outcome.
    Finished,
    /// Stop the sync with this error until the captcha is typed in.
    StopForCaptcha(AppError),
}

/// The running total of new bills stays the sum of the recorded results.
pub proof fn lemma_push_result_keeps_total(results: Seq<AccountSyncResult>, total: int, r: AccountSyncResult)
    requires
        total == sum_new(results),
    ensures
        total + r.new_count == sum_new(results.push(r)),
{
    assert(results.push(r).drop_last() =~= results);
}

/// Progress as the frontend shows it.
#[derive(Debug, Clone)]
pub struct SyncProgressFrontend {
    pub account_id: String,
    pub current_account: String,
    pub account_index: u32,
    pub total_accounts: u32,
    pub current_page: u32,
    pub total_pages: u32,
    pub new_items: usize,
    pub is_running: bool,
    pub status: String,
    pub message: Option<String>,
    pub error: Option<String>,
    pub captcha_required: bool,
    pub captcha_image: Option<String>,
    pub execution: Option<String>,
}

/// View of an optional string.
pub open spec fn ov(o: Option<String>) -> Option<Seq<char>> {
    match o {
        Some(s) => Some(s@),
        None => None,
    }
}

/// `"（i/n）"` with `i` counted from one.
pub open spec fn position_text(index: usize, total: usize) -> Seq<char> {
    "（"@ + decimal((index + 1) as nat) + "/"@ + decimal(total as nat) + "）"@
}

/// The frontend message for a runtime progress report.
pub open spec fn runtime_message(p: SyncProgress) -> Seq<char> {
    let name = p.current_account@;
    let pos = position_text(p.account_index, p.total_accounts);
    match p.status {
        SyncStatus::ProbingLogin => "正在检查账号 "@ + name + " 的登录状态"@ + pos + "..."@,
        SyncStatus::GettingCaptcha => "账号 "@ + name + " 需要验证码"@ + pos,
        SyncStatus::LoggingIn => "账号 "@ + name + " 已通过登录检查，正在准备拉取账单"@ + pos + "..."@,
        SyncStatus::Syncing { page, total } => "账号 "@ + name + " 正在从校园平台拉取账单第 "@ + decimal(page as nat) + "/"@
            + decimal(total as nat) + " 页，当前账号新增 "@ + decimal(p.new_count as nat) + " 条，累计新增 "@
            + decimal(p.total_new_count as nat) + " 条"@ + pos + "..."@,
        SyncStatus::Persisting => "账号 "@ + name + " 已拉取完成，正在写入原始账单并合并到身份：新增 "@
            + decimal(p.new_count as nat) + " 条，拉取 "@ + decimal(p.pages_fetched as nat) + " 页，累计新增 "@
            + decimal(p.total_new_count as nat) + " 条"@ + pos,
        SyncStatus::Completed => "账号 "@ + name + " 拉取完成并已写入原始账单、合并到身份：新增 "@
            + decimal(p.new_count as nat) + " 条，拉取 "@ + decimal(p.pages_fetched as nat) + " 页，累计新增 "@
            + decimal(p.total_new_count as nat) + " 条"@ + pos,
        SyncStatus::Failed(err) => err@,
    }
}

fn push_position(v: &mut Vec<char>, index: usize, total: usize)
    requires
        index < usize::MAX,
    ensures
        final(v)@ == old(v)@ + position_text(index, total),
{
    push_str(v, "（");
    let a = decimal_chars((index + 1) as u64);
    push_chars(v, &a);
    push_str(v, "/");
    let b = decimal_chars(total as u64);
    push_chars(v, &b);
    push_str(v, "）");
    assert(final(v)@ =~= old(v)@ + position_text(index, total));
}

fn push_decimal(v: &mut Vec<char>, n: u64)
    ensures
        final(v)@ == old(v)@ + decimal(n as nat),
{
    let d = decimal_chars(n);
    push_chars(v, &d);
}

/// The frontend message for a runtime progress report.
pub fn runtime_message_text(p: &SyncProgress) -> (r: String)
    requires
        p.account_index < usize::MAX,
    ensures
        r@ == runtime_message(*p),
{
    let mut v: Vec<char> = Vec::new();
    let name = p.current_account.as_str();
    match &p.status {
        SyncStatus::ProbingLogin => {
            push_str(&mut v, "正在检查账号 ");
            push_str(&mut v, name);
            push_str(&mut v, " 的登录状态");
            push_position(&mut v, p.account_index, p.total_accounts);
            push_str(&mut v, "...");
        },
        SyncStatus::GettingCaptcha => {
            push_str(&mut v, "账号 ");
            push_str(&mut v, name);
            push_str(&mut v, " 需要验证码");
            push_position(&mut v, p.account_index, p.total_accounts);
        },
        SyncStatus::LoggingIn => {
            push_str(&mut v, "账号 ");
            push_str(&mut v, name);
            push_str(&mut v, " 已通过登录检查，正在准备拉取账单");
            push_position(&mut v, p.account_index, p.total_accounts);
            push_str(&mut v, "...");
        },
        SyncStatus::Syncing { page, total } => {
            push_str(&mut v, "账号 ");
            push_str(&mut v, name);
            push_str(&mut v, " 正在从校园平台拉取账单第 ");
            push_decimal(&mut v, *page as u64);
            push_str(&mut v, "/");
            push_decimal(&mut v, *total as u64);
            push_str(&mut v, " 页，当前账号新增 ");
            push_decimal(&mut v, p.new_count as u64);
            push_str(&mut v, " 条，累计新增 ");
            push_decimal(&mut v, p.total_new_count as u64);
            push_str(&mut v, " 条");
            push_position(&mut v, p.account_index, p.total_accounts);
            push_str(&mut v, "...");
        },
        SyncStatus::Persisting => {
            push_str(&mut v, "账号 ");
            push_str(&mut v, name);
            push_str(&mut v, " 已拉取完成，正在写入原始账单并合并到身份：新增 ");
            push_decimal(&mut v, p.new_count as u64);
            push_str(&mut v, " 条，拉取 ");
            push_decimal(&mut v, p.pages_fetched as u64);
            push_str(&mut v, " 页，累计新增 ");
            push_decimal(&mut v, p.total_new_count as u64);
            push_str(&mut v, " 条");
            push_position(&mut v, p.account_index, p.total_accounts);
        },
        SyncStatus::Completed => {
            push_str(&mut v, "账号 ");
            push_str(&mut v, name);
            push_str(&mut v, " 拉取完成并已写入原始账单、合并到身份：新增 ");
            push_decimal(&mut v, p.new_count as u64);
            push_str(&mut v, " 条，拉取 ");
            push_decimal(&mut v, p.pages_fetched as u64);
            push_str(&mut v, " 页，累计新增 ");
            push_decimal(&mut v, p.total_new_count as u64);
            push_str(&mut v, " 条");
            push_position(&mut v, p.account_index, p.total_accounts);
        },
        SyncStatus::Failed(err) => {
            push_str(&mut v, err.as_str());
        },
    }
    assert(v@ =~= runtime_message(*p));
    string_from_chars(v.as_slice())
}

/// The frontend status word of a phase.
pub open spec fn status_word(s: SyncStatus) -> Seq<char> {
    match s {
        SyncStatus::GettingCaptcha => "captcha_required"@,
        SyncStatus::Failed(_) => "error"@,
        _ => "running"@,
    }
}

impl SyncProgressFrontend {
    /// No sync is running.
    pub fn idle() -> (r: Self)
        ensures
            r.account_id@.len() == 0 && r.current_account@.len() == 0 && r.account_index == 0
                && r.total_accounts == 0 && r.current_page == 0 && r.total_pages == 0 && r.new_items == 0
                && !r.is_running && r.status@ == "idle"@ && r.message is None && r.error is None
                && !r.captcha_required && r.captcha_image is None && r.execution is None,
    {
        SyncProgressFrontend {
            account_id: String::new(),
            current_account: String::new(),
            account_index: 0,
            total_accounts: 0,
            current_page: 0,
            total_pages: 0,
            new_items: 0,
            is_running: false,
            status: "idle".to_string(),
            message: None,
            error: None,
            captcha_required: false,
            captcha_image: None,
            execution: None,
        }
    }

    /// A captcha must be entered: carries the image and execution token.
    pub fn captcha_required(image: String, execution: String, message: &str) -> (r: Self)
        ensures
            r.account_id@.len() == 0 && r.current_account@.len() == 0 && r.account_index == 0
                && r.total_accounts == 0 && r.current_page == 0 && r.total_pages == 0 && r.new_items == 0
                && !r.is_running && r.status@ == "captcha_required"@ && ov(r.message) == Some(message@)
                && ov(r.error) == Some(message@) && r.captcha_required && r.captcha_image == Some(image)
                && r.execution == Some(execution),
    {
        SyncProgressFrontend {
            account_id: String::new(),
            current_account: String::new(),
            account_index: 0,
            total_accounts: 0,
            current_page: 0,
            total_pages: 0,
            new_items: 0,
            is_running: false,
            status: "captcha_required".to_string(),
            message: Some(message.to_string()),
            error: Some(message.to_string()),
            captcha_required: true,
            captcha_image: Some(image),
            execution: Some(execution),
        }
    }

    /// A finished sync with the number of new bills.
    pub fn success(new_items: usize) -> (r: Self)
        ensures
            r.account_id@.len() == 0 && r.current_account@.len() == 0 && r.account_index == 0
                && r.total_accounts == 0 && r.current_page == 0 && r.total_pages == 0
                && r.new_items == new_items && !r.is_running && r.status@ == "completed"@
                && ov(r.message) == Some("同步完成，本次新增 "@ + decimal(new_items as nat) + " 条记录"@)
                && r.error is None && !r.captcha_required && r.captcha_image is None && r.execution is None,
    {
        let mut v: Vec<char> = Vec::new();
        push_str(&mut v, "同步完成，本次新增 ");
        push_decimal(&mut v, new_items as u64);
        push_str(&mut v, " 条记录");
        SyncProgressFrontend {
            account_id: String::new(),
            current_account: String::new(),
            account_index: 0,
            total_accounts: 0,
            current_page: 0,
            total_pages: 0,
            new_items,
            is_running: false,
            status: "completed".to_string(),
            message: Some(string_from_chars(v.as_slice())),
            error: None,
            captcha_required: false,
            captcha_image: None,
            execution: None,
        }
    }

    /// The frontend form of a runtime progress report.
    pub fn from_runtime(progress: SyncProgress) -> (r: Self)
        requires
            progress.account_index < usize::MAX,
        ensures
            r.account_id == progress.account_id,
            r.current_account == progress.current_account,
            r.account_index == progress.account_index as u32,
            r.total_accounts == progress.total_accounts as u32,
            r.status@ == status_word(progress.status),
            ov(r.message) == Some(runtime_message(progress)),
            !r.captcha_required && r.captcha_image is None && r.execution is None,
            match progress.status {
                SyncStatus::Syncing { page, total } => r.current_page == page && r.total_pages == total
                    && r.is_running && r.new_items == progress.new_count && r.error is None,
                SyncStatus::Persisting => r.current_page == progress.pages_fetched
                    && r.total_pages == progress.pages_fetched && r.is_running
                    && r.new_items == progress.new_count && r.error is None,
                SyncStatus::Completed => r.current_page == progress.pages_fetched
                    && r.total_pages == progress.pages_fetched && r.is_running
                    && r.new_items == progress.total_new_count && r.error is None,
                SyncStatus::GettingCaptcha => r.current_page == 0 && r.total_pages == 0 && !r.is_running
                    && r.new_items == progress.total_new_count && ov(r.error) == Some("请输入验证码"@),
                SyncStatus::Failed(err) => r.current_page == 0 && r.total_pages == 0 && !r.is_running
                    && r.new_items == progress.total_new_count && ov(r.error) == Some(err@),
                _ => r.current_page == 0 && r.total_pages == 0 && r.is_running
                    && r.new_items == progress.total_new_count && r.error is None,
            },
    {
        let message = runtime_message_text(&progress);
        let (status, current_page, total_pages, is_running, new_items, error): (String, u32, u32, bool, usize, Option<String>) =
            match &progress.status {
                SyncStatus::ProbingLogin => ("running".to_string(), 0, 0, true, progress.total_new_count, None),
                SyncStatus::GettingCaptcha => (
                    "captcha_required".to_string(),
                    0,
                    0,
                    false,
                    progress.total_new_count,
                    Some("请输入验证码".to_string()),
                ),
                SyncStatus::LoggingIn => ("running".to_string(), 0, 0, true, progress.total_new_count, None),
                SyncStatus::Syncing { page, total } => ("running".to_string(), *page, *total, true, progress.new_count, None),
                SyncStatus::Persisting => (
                    "running".to_string(),
                    progress.pages_fetched,
                    progress.pages_fetched,
                    true,
                    progress.new_count,
                    None,
                ),
                SyncStatus::Completed => (
                    "running".to_string(),
                    progress.pages_fetched,
                    progress.pages_fetched,
                    true,
                    progress.total_new_count,
                    None,
                ),
                SyncStatus::Failed(err) => ("error".to_string(), 0, 0, false, progress.total_new_count, Some(err.clone())),
            };
        SyncProgressFrontend {
            account_id: progress.account_id,
            current_account: progress.current_account,
            account_index: progress.account_index as u32,
            total_accounts: progress.total_accounts as u32,
            current_page,
            total_pages,
            new_items,
            is_running,
            status,
            message: Some(message),
            error,
            captcha_required: false,
            captcha_image: None,
            execution: None,
        }
    }
}

/// The image and execution token in an error text after `marker`, split at the first `|`.
pub open spec fn captcha_marker_parts(error: Seq<char>, marker: Seq<char>) -> Option<(Seq<char>, Seq<char>)> {
    match find_first(error, marker) {
        Some(i) => {
            let payload = error.skip(i + marker.len());
            match find_first(payload, "|"@) {
                Some(j) => Some((payload.take(j), payload.skip(j + 1))),
                None => None,
            }
        },
        None => None,
    }
}

fn marker_positions(ev: &Vec<char>, mv: &Vec<char>) -> (r: Option<(usize, usize)>)
    ensures
        match captcha_marker_parts(ev@, mv@) {
            Some((img, exe)) => r matches Some((from, j)) && from + j < ev@.len()
                && ev@.subrange(from as int, from + j) == img && ev@.subrange(from + j + 1, ev@.len() as int) == exe,
            None => r is None,
        },
        r matches Some((from, j)) ==> from + j < ev@.len(),
{
    let found = find_chars(ev, mv);
    if found.is_none() {
        return None;
    }
    let start = found.unwrap();
    let n = ev.len();
    assert(start + mv@.len() <= n);
    let from = start + mv.len();
    let payload = crate::text::slice_chars(ev, from, ev.len());
    assert(payload@ =~= ev@.skip(from as int));
    let mut bar: Vec<char> = Vec::new();
    bar.push('|');
    proof {
        reveal_strlit("|");
        assert(bar@ =~= "|"@);
    }
    let found_bar = find_chars(&payload, &bar);
    if found_bar.is_none() {
        return None;
    }
    let j = found_bar.unwrap();
    assert(j + 1 <= payload@.len());
    assert(ev@.subrange(from as int, from + j) =~= payload@.take(j as int));
    assert(ev@.subrange(from + j + 1, ev@.len() as int) =~= payload@.skip(j + 1));
    Some((from, j))
}

/// Extracts the captcha image and execution token from an error that carries the marker:
/// the text after the marker up to the first `|`, and the text after that `|`.
pub fn parse_captcha_marker<'a>(error: &'a str, marker: &str) -> (r: Option<(&'a str, &'a str)>)
    ensures
        match captcha_marker_parts(error@, marker@) {
            Some((img, exe)) => r matches Some((a, b)) && a@ == img && b@ == exe,
            None => r is None,
        },
{
    let ev = chars_of(error);
    let mv = chars_of(marker);
    let n = ev.len();
    match marker_positions(&ev, &mv) {
        Some((from, j)) => {
            assert(from + j < n);
            let image = error.substring_char(from, from + j);
            let execution = error.substring_char(from + j + 1, ev.len());
            Some((image, execution))
        },
        None => None,
    }
}

/// The marker that a sync error carries when a captcha must be typed in by hand.
pub open spec fn manual_captcha_marker() -> Seq<char> {
    "MANUAL_CAPTCHA_REQUIRED|"@
}

/// The finished-sync progress with `n` new bills, as [`SyncProgressFrontend::success`] makes it.
pub open spec fn is_success_progress(p: SyncProgressFrontend, n: usize) -> bool {
    p.account_id@.len() == 0 && p.current_account@.len() == 0 && p.account_index == 0
        && p.total_accounts == 0 && p.current_page == 0 && p.total_pages == 0
        && p.new_items == n && !p.is_running && p.status@ == "completed"@
        && ov(p.message) == Some("同步完成，本次新增 "@ + decimal(n as nat) + " 条记录"@)
        && p.error is None && !p.captcha_required && p.captcha_image is None && p.execution is None
}

/// The progress that asks for a captcha, as [`SyncProgressFrontend::captcha_required`] makes it.
pub open spec fn is_captcha_progress(p: SyncProgressFrontend, image: Seq<char>, execution: Seq<char>, message: Seq<char>) -> bool {
    p.account_id@.len() == 0 && p.current_account@.len() == 0 && p.account_index == 0
        && p.total_accounts == 0 && p.current_page == 0 && p.total_pages == 0 && p.new_items == 0
        && !p.is_running && p.status@ == "captcha_required"@ && ov(p.message) == Some(message)
        && ov(p.error) == Some(message) && p.captcha_required && ov(p.captcha_image) == Some(image)
        && ov(p.execution) == Some(execution)
}

/// What a sync command answers for the outcome of a sync: with `n` new bills, the finished
/// progress; for an error that carries the manual captcha marker, the progress that asks
/// for the captcha shown in it; for any other error, its text.
pub fn sync_command_answer(outcome: Result<usize, String>) -> (r: Result<SyncProgressFrontend, String>)
    ensures
        match outcome {
            Ok(n) => r matches Ok(p) && is_success_progress(p, n),
            Err(e) => match captcha_marker_parts(e@, manual_captcha_marker()) {
                Some((img, exe)) => r matches Ok(p) && is_captcha_progress(p, img, exe, "请输入验证码"@),
                None => r matches Err(t) && t@ == e@,
            },
        },
{
    match outcome {
        Ok(n) => Ok(SyncProgressFrontend::success(n)),
        Err(e) => {
            proof {
                reveal_strlit("MANUAL_CAPTCHA_REQUIRED|");
            }
            let parts = parse_captcha_marker(e.as_str(), "MANUAL_CAPTCHA_REQUIRED|");
            match parts {
                Some((image, execution)) => {
                    let image = image.to_string();
                    let execution = execution.to_string();
                    Ok(SyncProgressFrontend::captcha_required(image, execution, "请输入验证码"))
                },
                None => Err(e),
            }
        },
    }
}

/// The marker that a sync error carries when a typed captcha was wrong.
pub open spec fn wrong_captcha_marker() -> Seq<char> {
    "CAPTCHA_WRONG|"@
}

/// What the command that submits a typed captcha answers for the outcome of the sync: as
/// [`sync_command_answer`], except that an error carrying the wrong-captcha marker asks
/// again for the fresh captcha shown in it.
pub fn captcha_sync_command_answer(outcome: Result<usize, String>) -> (r: Result<SyncProgressFrontend, String>)
    ensures
        match outcome {
            Ok(n) => r matches Ok(p) && is_success_progress(p, n),
            Err(e) => match captcha_marker_parts(e@, wrong_captcha_marker()) {
                Some((img, exe)) => r matches Ok(p) && is_captcha_progress(p, img, exe, "验证码错误，请重新输入"@),
                None => match captcha_marker_parts(e@, manual_captcha_marker()) {
                    Some((img, exe)) => r matches Ok(p) && is_captcha_progress(p, img, exe, "请输入验证码"@),
                    None => r matches Err(t) && t@ == e@,
                },
            },
        },
{
    if let Err(e) = &outcome {
        proof {
            reveal_strlit("CAPTCHA_WRONG|");
        }
        if let Some((image, execution)) = parse_captcha_marker(e.as_str(), "CAPTCHA_WRONG|") {
            let image = image.to_string();
            let execution = execution.to_string();
            return Ok(SyncProgressFrontend::captcha_required(image, execution, "验证码错误，请重新输入"));
        }
    }
    sync_command_answer(outcome)
}

/// The error text of a wrong typed captcha, carrying the fresh challenge.
pub open spec fn wrong_captcha_text(image: Seq<char>, execution: Seq<char>) -> Seq<char> {
    wrong_captcha_marker() + image + "|"@ + execution
}

/// The error that ends a sync whose typed captcha was wrong: it carries the fresh
/// challenge's image and execution token.
pub fn wrong_captcha_error(image: &str, execution: &str) -> (e: AppError)
    ensures
        e matches AppError::Sync(m) && m@ == wrong_captcha_text(image@, execution@),
{
    proof {
        reveal_strlit("CAPTCHA_WRONG|");
        reveal_strlit("|");
    }
    let head = concat_str("CAPTCHA_WRONG|", image);
    let head = concat_str(head.as_str(), "|");
    let text = concat_str(head.as_str(), execution);
    AppError::Sync(text)
}

/// Whether a typed captcha can be taken for `identity_id`: refused when no login waits for
/// one, and when the waiting login belongs to another identity.
pub fn check_pending_captcha(pending_identity: Option<i64>, identity_id: i64) -> (r: AppResult<()>)
    ensures
        match pending_identity {
            None => r matches Err(AppError::Sync(m)) && m@ == "当前没有待处理的验证码登录"@,
            Some(p) => if p == identity_id {
                r is Ok
            } else {
                r matches Err(AppError::Sync(m)) && m@ == "待处理的验证码身份不匹配，请重新开始同步"@
            },
        },
{
    match pending_identity {
        None => Err(AppError::Sync("当前没有待处理的验证码登录".to_string())),
        Some(p) => if p == identity_id {
            Ok(())
        } else {
            Err(AppError::Sync("待处理的验证码身份不匹配，请重新开始同步".to_string()))
        },
    }
}

/// The error that a refused login ends the sync with: wrong credentials, or the login's own
/// message. `None` when the login went through or only the captcha was refused.
pub fn login_refusal_error(outcome: &LoginSubmitOutcome) -> (r: Option<AppError>)
    ensures
        match *outcome {
            LoginSubmitOutcome::PasswordError => r matches Some(AppError::Sync(m)) && m@ == "用户名或密码错误"@,
            LoginSubmitOutcome::Failure(msg) => r matches Some(AppError::Sync(m)) && m@ == "登录失败: "@ + msg@,
            _ => r is None,
        },
{
    match outcome {
        LoginSubmitOutcome::PasswordError => Some(AppError::Sync("用户名或密码错误".to_string())),
        LoginSubmitOutcome::Failure(msg) => Some(AppError::Sync(concat_str("登录失败: ", msg.as_str()))),
        _ => None,
    }
}

/// The error text of a login that waits for a captcha typed by hand, carrying the challenge.
pub open spec fn manual_captcha_text(image: Seq<char>, execution: Seq<char>) -> Seq<char> {
    manual_captcha_marker() + image + "|"@ + execution
}

/// The error that stops a sync until a captcha is typed by hand: it carries the challenge's
/// image and execution token.
pub fn manual_captcha_error(image: &str, execution: &str) -> (e: AppError)
    ensures
        e matches AppError::Sync(m) && m@ == manual_captcha_text(image@, execution@),
{
    proof {
        reveal_strlit("MANUAL_CAPTCHA_REQUIRED|");
        reveal_strlit("|");
    }
    let head = concat_str("MANUAL_CAPTCHA_REQUIRED|", image);
    let head = concat_str(head.as_str(), "|");
    let text = concat_str(head.as_str(), execution);
    AppError::Sync(text)
}

proof fn lemma_marker_parts_of_sync_error(marker: Seq<char>, image: Seq<char>, execution: Seq<char>, text: String)
    requires
        marker == wrong_captcha_marker() || marker == manual_captcha_marker(),
        forall|i: int| 0 <= i < image.len() ==> image[i] != '|',
        text@ == marker + image + "|"@ + execution,
    ensures
        captcha_marker_parts(error_text(AppError::Sync(text)), marker) == Some((image, execution)),
{
    reveal_strlit("同步错误: ");
    reveal_strlit("CAPTCHA_WRONG|");
    reveal_strlit("MANUAL_CAPTCHA_REQUIRED|");
    reveal_strlit("|");
    let prefix = "同步错误: "@;
    let hay = error_text(AppError::Sync(text));
    assert(hay == prefix + text@);
    let p = prefix.len() as int;
    assert(hay.subrange(p, p + marker.len()) =~= marker);
    assert forall|j: int| 0 <= j < p implies !crate::text::occurs_at(hay, marker, j) by {
        assert(hay.subrange(j, j + marker.len())[0] == hay[j]);
        assert(marker[0] == 'C' || marker[0] == 'M');
    }
    crate::text::lemma_find_first_witness(hay, marker, p);
    let payload = hay.skip(p + marker.len());
    assert(payload =~= image + "|"@ + execution);
    let bar = "|"@;
    let k = image.len() as int;
    assert(payload.subrange(k, k + 1) =~= bar);
    assert forall|j: int| 0 <= j < k implies !crate::text::occurs_at(payload, bar, j) by {
        assert(payload.subrange(j, j + 1)[0] == payload[j]);
        assert(payload[j] == image[j]);
    }
    crate::text::lemma_find_first_witness(payload, bar, k);
    assert(payload.take(k) =~= image);
    assert(payload.skip(k + 1) =~= execution);
}

/// A captcha challenge that stops a sync reaches the frontend intact: the shown text of the
/// error from [`wrong_captcha_error`] or [`manual_captcha_error`] yields, after its marker,
/// exactly that image and execution token (for an image without `|`, as base64 text is).
pub proof fn lemma_captcha_error_comes_back(image: Seq<char>, execution: Seq<char>, text: String)
    requires
        forall|i: int| 0 <= i < image.len() ==> image[i] != '|',
    ensures
        text@ == wrong_captcha_text(image, execution)
            ==> captcha_marker_parts(error_text(AppError::Sync(text)), wrong_captcha_marker()) == Some((image, execution)),
        text@ == manual_captcha_text(image, execution)
            ==> captcha_marker_parts(error_text(AppError::Sync(text)), manual_captcha_marker()) == Some((image, execution)),
{
    if text@ == wrong_captcha_text(image, execution) {
        lemma_marker_parts_of_sync_error(wrong_captcha_marker(), image, execution, text);
    }
    if text@ == manual_captcha_text(image, execution) {
        lemma_marker_parts_of_sync_error(manual_captcha_marker(), image, execution, text);
    }
}

/// Where an automatic login sends a captcha to be recognised.
#[derive(Debug, Clone)]
pub enum OcrTarget {
    /// The remote OCR server over TCP.
    Tcp { host: String, port: u16 },
    /// The remote OCR server over HTTP.
    Http { url: String },
}

/// The recogniser an automatic login uses: the TCP server in remote OCR mode, the RESTful
/// one in remote OCR over HTTP mode. Refused when that server is not configured, and in the
/// manual and local modes, which cannot log in unattended.
pub fn auto_login_ocr_target(mode: &CaptchaMode, host: &str, port: u16, http_url: &str) -> (r: AppResult<OcrTarget>)
    ensures
        match *mode {
            CaptchaMode::RemoteOcr => if host@.len() == 0 || port == 0 {
                r matches Err(AppError::Sync(m)) && m@ == "未配置远程OCR服务器"@
            } else {
                r matches Ok(OcrTarget::Tcp { host: h, port: p }) && h@ == host@ && p == port
            },
            CaptchaMode::RemoteOcrHttp => if http_url@.len() == 0 {
                r matches Err(AppError::Sync(m)) && m@ == "未配置RESTful OCR服务器地址"@
            } else {
                r matches Ok(OcrTarget::Http { url }) && url@ == http_url@
            },
            _ => r matches Err(AppError::Sync(m)) && m@ == "当前验证码模式不支持自动登录"@,
        },
{
    match mode {
        CaptchaMode::RemoteOcr => {
            if crate::text::str_is_empty(host) || port == 0 {
                Err(AppError::Sync("未配置远程OCR服务器".to_string()))
            } else {
                Ok(OcrTarget::Tcp { host: host.to_string(), port })
            }
        },
        CaptchaMode::RemoteOcrHttp => {
            if crate::text::str_is_empty(http_url) {
                Err(AppError::Sync("未配置RESTful OCR服务器地址".to_string()))
            } else {
                Ok(OcrTarget::Http { url: http_url.to_string() })
            }
        },
        _ => Err(AppError::Sync("当前验证码模式不支持自动登录".to_string())),
    }
}

/// Attempts an automatic login makes: the configured retry count, at least one.
pub fn login_attempts(retry_count: usize) -> (r: usize)
    ensures
        r == if retry_count == 0 { 1 } else { retry_count },
{
    if retry_count == 0 { 1 } else { retry_count }
}

/// What an automatic login does next.
#[derive(Debug, Clone)]
pub enum AutoLoginDecision {
    /// The login went through.
    LoggedIn,
    /// Try again with a fresh captcha.
    Retry,
    /// Give up with this error.
    Fail(AppError),
}

/// What an automatic login does after attempt `attempt` of `max_attempts` (counted from
/// one), given the login's answer and whether a probe afterwards found the session logged
/// in: a confirmed login is done; a refused captcha, or a login that the probe did not
/// confirm, is tried again while attempts remain; wrong credentials and other failures
/// end it.
pub fn auto_login_decision(attempt: usize, max_attempts: usize, outcome: &LoginSubmitOutcome, confirmed: bool) -> (r: AutoLoginDecision)
    ensures
        match *outcome {
            LoginSubmitOutcome::Success => if confirmed {
                r is LoggedIn
            } else if attempt < max_attempts {
                r is Retry
            } else {
                r matches AutoLoginDecision::Fail(AppError::Sync(m)) && m@ == "登录重试次数耗尽"@
            },
            LoginSubmitOutcome::ValidateCodeError => if attempt < max_attempts {
                r is Retry
            } else {
                r matches AutoLoginDecision::Fail(AppError::Sync(m)) && m@ == "验证码识别多次失败"@
            },
            LoginSubmitOutcome::PasswordError => r matches AutoLoginDecision::Fail(AppError::Sync(m)) && m@ == "用户名或密码错误"@,
            LoginSubmitOutcome::Failure(msg) => r matches AutoLoginDecision::Fail(AppError::Sync(m)) && m@ == "登录失败: "@ + msg@,
        },
{
    match outcome {
        LoginSubmitOutcome::Success => {
            if confirmed {
                AutoLoginDecision::LoggedIn
            } else if attempt < max_attempts {
                AutoLoginDecision::Retry
            } else {
                AutoLoginDecision::Fail(AppError::Sync("登录重试次数耗尽".to_string()))
            }
        },
        LoginSubmitOutcome::ValidateCodeError => {
            if attempt < max_attempts {
                AutoLoginDecision::Retry
            } else {
                AutoLoginDecision::Fail(AppError::Sync("验证码识别多次失败".to_string()))
            }
        },
        _ => match login_refusal_error(outcome) {
            Some(e) => AutoLoginDecision::Fail(e),
            None => AutoLoginDecision::Retry,
        },
    }
}

fn account_copy(a: &Account) -> (r: Account)
    ensures
        r == *a,
{
    Account {
        id: a.id,
        identity_id: a.identity_id,
        account_name: a.account_name.clone(),
        account_id: a.account_id.clone(),
        password: a.password.clone(),
        enable: a.enable,
        enable_update: a.enable_update,
        admission_date: match &a.admission_date {
            Some(d) => Some(d.clone()),
            None => None,
        },
        graduation_date: match &a.graduation_date {
            Some(d) => Some(d.clone()),
            None => None,
        },
        expire_date: a.expire_date.clone(),
        last_update_time: a.last_update_time.clone(),
        created_at: a.created_at.clone(),
        updated_at: a.updated_at.clone(),
    }
}

/// The first of the enabled accounts with the given student id; refused when none has it.
pub fn find_enabled_account(accounts: &Vec<Account>, account_id: &str) -> (r: AppResult<Account>)
    ensures
        match r {
            Ok(a) => exists|i: int| 0 <= i < accounts@.len() && accounts@[i] == a
                && a.account_id@ == account_id@
                && forall|j: int| 0 <= j < i ==> (#[trigger] accounts@[j]).account_id@ != account_id@,
            Err(e) => (e matches AppError::Sync(m) && m@ == "账号 "@ + account_id@ + " 不存在或已禁用"@)
                && forall|j: int| 0 <= j < accounts@.len() ==> (#[trigger] accounts@[j]).account_id@ != account_id@,
        },
{
    let mut i: usize = 0;
    while i < accounts.len()
        invariant
            i <= accounts.len(),
            forall|j: int| 0 <= j < i ==> (#[trigger] accounts@[j]).account_id@ != account_id@,
        decreases accounts.len() - i,
    {
        if str_eq(accounts[i].account_id.as_str(), account_id) {
            let a = account_copy(&accounts[i]);
            assert(accounts@[i as int] == a);
            return Ok(a);
        }
        i = i + 1;
    }
    proof {
        reveal_strlit("账号 ");
        reveal_strlit(" 不存在或已禁用");
    }
    let head = concat_str("账号 ", account_id);
    Err(AppError::Sync(concat_str(head.as_str(), " 不存在或已禁用")))
}

/// The result of syncing one account: the counts of the fetch when it went through, or no
/// counts and the fetch's error after `同步失败: `.
pub fn account_sync_result(account: &Account, fetched: Result<(usize, u32, bool), String>) -> (r: AccountSyncResult)
    ensures
        r.account_id == account.account_id,
        r.account_name == account.account_name,
        match fetched {
            Ok((n, pages, early)) => r.new_count == n && r.pages_fetched == pages && r.early_stopped == early && r.error is None,
            Err(e) => r.new_count == 0 && r.pages_fetched == 0 && !r.early_stopped
                && ov(r.error) == Some("同步失败: "@ + e@),
        },
{
    match fetched {
        Ok((n, pages, early)) => AccountSyncResult {
            account_id: account.account_id.clone(),
            account_name: account.account_name.clone(),
            new_count: n,
            pages_fetched: pages,
            early_stopped: early,
            error: None,
        },
        Err(e) => AccountSyncResult {
            account_id: account.account_id.clone(),
            account_name: account.account_name.clone(),
            new_count: 0,
            pages_fetched: 0,
            early_stopped: false,
            error: Some(concat_str("同步失败: ", e.as_str())),
        },
    }
}

/// The captcha image as the frontend receives it: its bytes in standard Base64.
pub fn encode_captcha_image(image: &[u8]) -> (r: String)
    ensures
        r@ == crate::crypto::base64_text(image@),
{
    crate::crypto::base64_encode(image)
}

} // verus!
