//! Cloud backups and transfer archives: the archive content of each identity, the
//! password encryption of archives (a PBKDF2-HMAC-SHA256 key and AES-256-GCM), backup
//! file names and the restore decision. Zipping, JSON and WebDAV happen outside.
use vstd::prelude::*;

use vstd::utf8::encode_utf8;

use crate::crypto::{aead_seal, aes_gcm_decrypt, aes_gcm_encrypt, aes_gcm_max_plaintext, hmac_sha256, hmac_sha256_tag, random_nonce, random_salt};
use crate::error::concat_str;
use crate::models::{AccountRow, IdentityRow};
use crate::numbers::opt_str_view;
use crate::remote::{has_prefix, strip_leading, strip_leading_exec};
use crate::store::MergedBillRecord;
use crate::text::{chars_of, owned, push_str, slice_u8, string_from_chars};

verus! {

/// Counts of a restored archive.
#[derive(Debug, Clone, Copy)]
pub struct RestoreReport {
    pub identity_count: usize,
    pub account_count: usize,
    pub bill_count: usize,
}

/// An identity in an archive.
#[derive(Debug, Clone)]
pub struct IdentityInfo {
    pub name: String,
    pub enable: bool,
    pub birthday: Option<String>,
    pub created_at: String,
}

/// An account in an archive.
#[derive(Debug, Clone)]
pub struct AccountInfo {
    pub account_name: String,
    pub account_id: String,
    pub enable: bool,
    pub created_at: String,
}

/// An account in an archive, with its (stored) password.
#[derive(Debug, Clone)]
pub struct AccountBundle {
    pub entity: AccountInfo,
    pub password: String,
}

/// A bill in an archive; the amount is the bit pattern of its `f64` value.
#[derive(Debug, Clone)]
pub struct BillInfo {
    pub date_time_formatted: Option<String>,
    pub item_type: Option<String>,
    pub number: Option<String>,
    pub target_user: Option<String>,
    pub money_str: Option<String>,
    pub money_bits: Option<u64>,
    pub method: Option<String>,
    pub status_str: Option<String>,
    pub is_combined: bool,
    pub source_account_id: Option<String>,
    pub position: Option<String>,
    pub category: Option<String>,
    pub notes: Option<String>,
}

/// An identity with its accounts and bills.
#[derive(Debug, Clone)]
pub struct IdentityBundle {
    pub identity: IdentityInfo,
    pub accounts: Vec<AccountBundle>,
    pub bills: Vec<BillInfo>,
}

/// Version of the archive schema written.
pub const ARCHIVE_SCHEMA_VERSION: u32 = 2;

/// Number of accounts over the bundles of an archive.
pub open spec fn total_accounts(bs: Seq<IdentityBundle>) -> int
    decreases bs.len(),
{
    if bs.len() == 0 { 0 } else { total_accounts(bs.drop_last()) + bs.last().accounts@.len() }
}

/// Number of bills over the bundles of an archive.
pub open spec fn total_bills(bs: Seq<IdentityBundle>) -> int
    decreases bs.len(),
{
    if bs.len() == 0 { 0 } else { total_bills(bs.drop_last()) + bs.last().bills@.len() }
}

proof fn lemma_totals_nonneg(bs: Seq<IdentityBundle>)
    ensures
        0 <= total_accounts(bs),
        0 <= total_bills(bs),
    decreases bs.len(),
{
    if bs.len() > 0 {
        lemma_totals_nonneg(bs.drop_last());
    }
}

proof fn lemma_totals_grow(bs: Seq<IdentityBundle>, i: int)
    requires
        0 <= i <= bs.len(),
    ensures
        total_accounts(bs.take(i)) <= total_accounts(bs),
        total_bills(bs.take(i)) <= total_bills(bs),
        0 <= total_accounts(bs.take(i)),
        0 <= total_bills(bs.take(i)),
    decreases bs.len() - i,
{
    lemma_totals_nonneg(bs.take(i));
    if i < bs.len() {
        lemma_totals_grow(bs, i + 1);
        assert(bs.take(i + 1).drop_last() =~= bs.take(i));
    } else {
        assert(bs.take(i) =~= bs);
    }
}

/// What restoring an archive reports: every identity it carries, with all their accounts
/// and bills.
pub fn import_transfer_archive(bundles: &Vec<IdentityBundle>) -> (r: RestoreReport)
    requires
        total_accounts(bundles@) <= usize::MAX,
        total_bills(bundles@) <= usize::MAX,
    ensures
        r.identity_count == bundles@.len(),
        r.account_count == total_accounts(bundles@),
        r.bill_count == total_bills(bundles@),
{
    let mut accounts: usize = 0;
    let mut bills: usize = 0;
    let mut i: usize = 0;
    while i < bundles.len()
        invariant
            i <= bundles.len(),
            total_accounts(bundles@) <= usize::MAX,
            total_bills(bundles@) <= usize::MAX,
            accounts == total_accounts(bundles@.take(i as int)),
            bills == total_bills(bundles@.take(i as int)),
        decreases bundles.len() - i,
    {
        proof {
            lemma_totals_grow(bundles@, i + 1);
            assert(bundles@.take(i + 1).drop_last() =~= bundles@.take(i as int));
        }
        accounts = accounts + bundles[i].accounts.len();
        bills = bills + bundles[i].bills.len();
        i = i + 1;
    }
    assert(bundles@.take(bundles.len() as int) =~= bundles@);
    RestoreReport { identity_count: bundles.len(), account_count: accounts, bill_count: bills }
}

/// The identities that a backup of identity `identity_id` holds: those rows with that id.
pub open spec fn identities_with_id(rows: Seq<IdentityRow>, identity_id: i64) -> Seq<IdentityRow>
    decreases rows.len(),
{
    if rows.len() == 0 {
        Seq::empty()
    } else {
        let prev = identities_with_id(rows.drop_last(), identity_id);
        if rows.last().id == identity_id { prev.push(rows.last()) } else { prev }
    }
}

/// The archive bundles of a backup of identity `identity_id`: that identity with its
/// accounts and merged bills.
pub fn backup_bundles(identity_id: i64, identities: &Vec<IdentityRow>, accounts: &Vec<AccountRow>, bills: &Vec<MergedBillRecord>) -> (r: Vec<IdentityBundle>)
    ensures
        r@.len() == identities_with_id(identities@, identity_id).len(),
        forall|k: int| 0 <= k < r@.len() ==> bundle_of(#[trigger] r@[k], identities_with_id(identities@, identity_id)[k], accounts@, bills@),
        forall|k: int, j: int| 0 <= k < r@.len() && 0 <= j < (#[trigger] r@[k]).bills@.len()
            ==> (#[trigger] r@[k].bills@[j]).money_bits == bills_of(bills@, identity_id)[j].money_bits,
{
    let mut chosen: Vec<IdentityRow> = Vec::new();
    let mut i: usize = 0;
    while i < identities.len()
        invariant
            i <= identities.len(),
            chosen@ == identities_with_id(identities@.take(i as int), identity_id),
        decreases identities.len() - i,
    {
        assert(identities@.take(i + 1).drop_last() =~= identities@.take(i as int));
        if identities[i].id == identity_id {
            chosen.push(identity_row_copy(&identities[i]));
        }
        i = i + 1;
    }
    assert(identities@.take(identities.len() as int) =~= identities@);
    proof {
        lemma_identities_with_id(identities@, identity_id);
    }
    identity_bundles(&chosen, accounts, bills)
}

/// Accounts of the given identities, counted.
pub open spec fn accounts_of_all(ids: Seq<IdentityRow>, accounts: Seq<AccountRow>) -> int
    decreases ids.len(),
{
    if ids.len() == 0 { 0 } else { accounts_of_all(ids.drop_last(), accounts) + accounts_of(accounts, ids.last().id).len() }
}

/// Merged bills of the given identities, counted.
pub open spec fn bills_of_all(ids: Seq<IdentityRow>, bills: Seq<MergedBillRecord>) -> int
    decreases ids.len(),
{
    if ids.len() == 0 { 0 } else { bills_of_all(ids.drop_last(), bills) + bills_of(bills, ids.last().id).len() }
}

/// Restoring gives back what was backed up: an archive made of the bundles of some
/// identities reports exactly those identities, all their accounts and all their bills.
pub proof fn lemma_restore_reports_backup(
    bs: Seq<IdentityBundle>,
    ids: Seq<IdentityRow>,
    accounts: Seq<AccountRow>,
    bills: Seq<MergedBillRecord>,
)
    requires
        bs.len() == ids.len(),
        forall|k: int| 0 <= k < bs.len() ==> bundle_of(#[trigger] bs[k], ids[k], accounts, bills),
    ensures
        total_accounts(bs) == accounts_of_all(ids, accounts),
        total_bills(bs) == bills_of_all(ids, bills),
    decreases bs.len(),
{
    if bs.len() > 0 {
        let n = bs.len() - 1;
        assert forall|k: int| 0 <= k < bs.drop_last().len() implies bundle_of(#[trigger] bs.drop_last()[k], ids.drop_last()[k], accounts, bills) by {
            assert(bs.drop_last()[k] == bs[k]);
            assert(ids.drop_last()[k] == ids[k]);
            assert(bundle_of(bs[k], ids[k], accounts, bills));
        }
        lemma_restore_reports_backup(bs.drop_last(), ids.drop_last(), accounts, bills);
        assert(bundle_of(bs[n], ids[n], accounts, bills));
    }
}

proof fn lemma_identities_with_id(rows: Seq<IdentityRow>, identity_id: i64)
    ensures
        forall|k: int| 0 <= k < identities_with_id(rows, identity_id).len()
            ==> (#[trigger] identities_with_id(rows, identity_id)[k]).id == identity_id,
        forall|k: int| 0 <= k < rows.len() && rows[k].id == identity_id
            ==> identities_with_id(rows, identity_id).contains(#[trigger] rows[k]),
    decreases rows.len(),
{
    if rows.len() > 0 {
        let p = rows.drop_last();
        lemma_identities_with_id(p, identity_id);
        let prev = identities_with_id(p, identity_id);
        assert forall|k: int| 0 <= k < rows.len() && rows[k].id == identity_id
            implies identities_with_id(rows, identity_id).contains(#[trigger] rows[k]) by {
            if k < rows.len() - 1 {
                assert(p[k] == rows[k]);
                assert(prev.contains(rows[k]));
                let q = choose|q: int| 0 <= q < prev.len() && prev[q] == rows[k];
                assert(identities_with_id(rows, identity_id)[q] == rows[k]);
            } else {
                assert(identities_with_id(rows, identity_id) == prev.push(rows.last()));
                assert(identities_with_id(rows, identity_id)[prev.len() as int] == rows[k]);
            }
        }
    }
}

/// A backup restores what it backed up: when exactly one stored identity has the id that
/// was backed up, the bundles of the backup (as [`backup_bundles`] makes them) are that
/// identity, and restoring them (as [`import_transfer_archive`] counts them) reports one
/// identity with all its accounts and all its merged bills.
pub proof fn lemma_backup_restore_round_trip(
    identity_id: i64,
    identities: Seq<IdentityRow>,
    accounts: Seq<AccountRow>,
    bills: Seq<MergedBillRecord>,
    bs: Seq<IdentityBundle>,
)
    requires
        identities_with_id(identities, identity_id).len() == 1,
        bs.len() == identities_with_id(identities, identity_id).len(),
        forall|k: int| 0 <= k < bs.len() ==> bundle_of(#[trigger] bs[k], identities_with_id(identities, identity_id)[k], accounts, bills),
    ensures
        bs.len() == 1,
        identities.contains(identities_with_id(identities, identity_id)[0]),
        identities_with_id(identities, identity_id)[0].id == identity_id,
        identity_info_of(bs[0].identity, identities_with_id(identities, identity_id)[0]),
        total_accounts(bs) == accounts_of(accounts, identity_id).len(),
        total_bills(bs) == bills_of(bills, identity_id).len(),
        forall|k: int| 0 <= k < bs[0].accounts@.len()
            ==> account_bundle_of(#[trigger] bs[0].accounts@[k], accounts_of(accounts, identity_id)[k]),
        forall|k: int| 0 <= k < bs[0].bills@.len()
            ==> bill_info_of(#[trigger] bs[0].bills@[k], bills_of(bills, identity_id)[k]),
{
    let ids = identities_with_id(identities, identity_id);
    lemma_identities_with_id(identities, identity_id);
    lemma_identities_with_id_members(identities, identity_id);
    lemma_restore_reports_backup(bs, ids, accounts, bills);
    assert(ids[0].id == identity_id);
    assert(ids.drop_last().len() == 0);
    assert(bs.drop_last().len() == 0);
    assert(ids.last() == ids[0]);
    assert(bs.last() == bs[0]);
    assert(accounts_of_all(ids.drop_last(), accounts) == 0);
    assert(bills_of_all(ids.drop_last(), bills) == 0);
    assert(total_accounts(bs.drop_last()) == 0);
    assert(total_bills(bs.drop_last()) == 0);
    assert(bundle_of(bs[0], ids[0], accounts, bills));
}

proof fn lemma_identities_with_id_members(rows: Seq<IdentityRow>, identity_id: i64)
    ensures
        forall|k: int| 0 <= k < identities_with_id(rows, identity_id).len()
            ==> rows.contains(#[trigger] identities_with_id(rows, identity_id)[k]),
    decreases rows.len(),
{
    if rows.len() > 0 {
        let p = rows.drop_last();
        lemma_identities_with_id_members(p, identity_id);
        let prev = identities_with_id(p, identity_id);
        assert forall|k: int| 0 <= k < identities_with_id(rows, identity_id).len()
            implies rows.contains(#[trigger] identities_with_id(rows, identity_id)[k]) by {
            if k < prev.len() {
                assert(identities_with_id(rows, identity_id)[k] == prev[k]);
                assert(p.contains(prev[k]));
                let q = choose|q: int| 0 <= q < p.len() && p[q] == prev[k];
                assert(rows[q] == prev[k]);
            } else {
                assert(identities_with_id(rows, identity_id)[k] == rows.last());
                assert(rows[rows.len() - 1] == rows.last());
            }
        }
    }
}

fn identity_row_copy(r: &IdentityRow) -> (c: IdentityRow)
    ensures
        c == *r,
{
    IdentityRow {
        id: r.id,
        name: r.name.clone(),
        enable: r.enable,
        enable_update: r.enable_update,
        birthday: match &r.birthday {
            Some(b) => Some(b.clone()),
            None => None,
        },
        default_remember: r.default_remember,
        created_at: r.created_at.clone(),
        updated_at: r.updated_at.clone(),
    }
}

fn opt_clone(o: &Option<String>) -> (r: Option<String>)
    ensures
        opt_str_view(r) == opt_str_view(*o),
{
    match o {
        Some(s) => Some(s.clone()),
        None => None,
    }
}

/// The archive entry holds the identity's name, state, birthday and creation time.
pub open spec fn identity_info_of(i: IdentityInfo, row: IdentityRow) -> bool {
    i.name@ == row.name@ && i.enable == row.enable && opt_str_view(i.birthday) == opt_str_view(row.birthday)
        && i.created_at@ == row.created_at@
}

/// The archive entry holds the account's name, number, state, creation time and password.
pub open spec fn account_bundle_of(b: AccountBundle, row: AccountRow) -> bool {
    b.entity.account_name@ == row.account_name@ && b.entity.account_id@ == row.account_id@
        && b.entity.enable == row.enable && b.entity.created_at@ == row.created_at@ && b.password@ == row.password@
}

/// The archive entry holds the bill's exported fields.
pub open spec fn bill_info_of(b: BillInfo, m: MergedBillRecord) -> bool {
    &&& opt_str_view(b.date_time_formatted) == opt_str_view(m.date_time_formatted)
    &&& opt_str_view(b.item_type) == opt_str_view(m.item_type)
    &&& opt_str_view(b.number) == opt_str_view(m.number)
    &&& opt_str_view(b.target_user) == opt_str_view(m.target_user)
    &&& opt_str_view(b.money_str) == opt_str_view(m.money_str)
    &&& b.money_bits == m.money_bits
    &&& opt_str_view(b.method) == opt_str_view(m.method)
    &&& opt_str_view(b.status_str) == opt_str_view(m.status_str)
    &&& b.is_combined == m.is_combined
    &&& opt_str_view(b.source_account_id) == opt_str_view(m.source_account_id)
    &&& opt_str_view(b.position) == opt_str_view(m.position)
    &&& opt_str_view(b.category) == opt_str_view(m.category)
    &&& opt_str_view(b.notes) == opt_str_view(m.notes)
}

/// The accounts of identity `id`, in order.
pub open spec fn accounts_of(accounts: Seq<AccountRow>, id: i64) -> Seq<AccountRow>
    decreases accounts.len(),
{
    if accounts.len() == 0 {
        Seq::empty()
    } else {
        let prev = accounts_of(accounts.drop_last(), id);
        if accounts.last().identity_id == id { prev.push(accounts.last()) } else { prev }
    }
}

/// The bills of identity `id`, in order.
pub open spec fn bills_of(bills: Seq<MergedBillRecord>, id: i64) -> Seq<MergedBillRecord>
    decreases bills.len(),
{
    if bills.len() == 0 {
        Seq::empty()
    } else {
        let prev = bills_of(bills.drop_last(), id);
        if bills.last().identity_id == id { prev.push(bills.last()) } else { prev }
    }
}

/// The bundle of an identity holds it, and its accounts and bills in order.
pub open spec fn bundle_of(b: IdentityBundle, row: IdentityRow, accounts: Seq<AccountRow>, bills: Seq<MergedBillRecord>) -> bool {
    &&& identity_info_of(b.identity, row)
    &&& b.accounts@.len() == accounts_of(accounts, row.id).len()
    &&& forall|k: int| 0 <= k < b.accounts@.len() ==> account_bundle_of(#[trigger] b.accounts@[k], accounts_of(accounts, row.id)[k])
    &&& b.bills@.len() == bills_of(bills, row.id).len()
    &&& forall|k: int| 0 <= k < b.bills@.len() ==> bill_info_of(#[trigger] b.bills@[k], bills_of(bills, row.id)[k])
}

/// A bundle keeps the amount of every bill: the bill entries of the bundle of an identity
/// carry, in order, the amount (its bits and its text), the number and the time of the
/// stored bills of that identity.
pub proof fn lemma_bundle_keeps_amounts(b: IdentityBundle, row: IdentityRow, accounts: Seq<AccountRow>, bills: Seq<MergedBillRecord>)
    requires
        bundle_of(b, row, accounts, bills),
    ensures
        b.bills@.len() == bills_of(bills, row.id).len(),
        forall|k: int| 0 <= k < b.bills@.len() ==> {
            let e = #[trigger] b.bills@[k];
            let m = bills_of(bills, row.id)[k];
            &&& e.money_bits == m.money_bits
            &&& opt_str_view(e.money_str) == opt_str_view(m.money_str)
            &&& opt_str_view(e.number) == opt_str_view(m.number)
            &&& opt_str_view(e.date_time_formatted) == opt_str_view(m.date_time_formatted)
        },
{
    assert forall|k: int| 0 <= k < b.bills@.len() implies {
        let e = #[trigger] b.bills@[k];
        let m = bills_of(bills, row.id)[k];
        &&& e.money_bits == m.money_bits
        &&& opt_str_view(e.money_str) == opt_str_view(m.money_str)
        &&& opt_str_view(e.number) == opt_str_view(m.number)
        &&& opt_str_view(e.date_time_formatted) == opt_str_view(m.date_time_formatted)
    } by {
        assert(bill_info_of(b.bills@[k], bills_of(bills, row.id)[k]));
    }
}

fn account_bundle(a: &AccountRow) -> (r: AccountBundle)
    ensures
        account_bundle_of(r, *a),
{
    AccountBundle {
        entity: AccountInfo {
            account_name: a.account_name.clone(),
            account_id: a.account_id.clone(),
            enable: a.enable,
            created_at: a.created_at.clone(),
        },
        password: a.password.clone(),
    }
}

fn bill_info(m: &MergedBillRecord) -> (r: BillInfo)
    ensures
        bill_info_of(r, *m),
        r.money_bits == m.money_bits,
        opt_str_view(r.money_str) == opt_str_view(m.money_str),
        opt_str_view(r.number) == opt_str_view(m.number),
        opt_str_view(r.date_time_formatted) == opt_str_view(m.date_time_formatted),
{
    BillInfo {
        date_time_formatted: opt_clone(&m.date_time_formatted),
        item_type: opt_clone(&m.item_type),
        number: opt_clone(&m.number),
        target_user: opt_clone(&m.target_user),
        money_str: opt_clone(&m.money_str),
        money_bits: m.money_bits,
        method: opt_clone(&m.method),
        status_str: opt_clone(&m.status_str),
        is_combined: m.is_combined,
        source_account_id: opt_clone(&m.source_account_id),
        position: opt_clone(&m.position),
        category: opt_clone(&m.category),
        notes: opt_clone(&m.notes),
    }
}

fn bundle_identity(row: &IdentityRow, accounts: &Vec<AccountRow>, bills: &Vec<MergedBillRecord>) -> (r: IdentityBundle)
    ensures
        bundle_of(r, *row, accounts@, bills@),
{
    let mut acc: Vec<AccountBundle> = Vec::new();
    let mut i: usize = 0;
    while i < accounts.len()
        invariant
            i <= accounts.len(),
            acc@.len() == accounts_of(accounts@.take(i as int), row.id).len(),
            forall|k: int| 0 <= k < acc@.len() ==> account_bundle_of(#[trigger] acc@[k], accounts_of(accounts@.take(i as int), row.id)[k]),
        decreases accounts.len() - i,
    {
        assert(accounts@.take(i + 1).drop_last() =~= accounts@.take(i as int));
        assert(accounts@.take(i + 1).last() == accounts@[i as int]);
        if accounts[i].identity_id == row.id {
            acc.push(account_bundle(&accounts[i]));
        }
        i = i + 1;
    }
    assert(accounts@.take(accounts.len() as int) =~= accounts@);
    let mut bs: Vec<BillInfo> = Vec::new();
    let mut j: usize = 0;
    while j < bills.len()
        invariant
            j <= bills.len(),
            bs@.len() == bills_of(bills@.take(j as int), row.id).len(),
            forall|k: int| 0 <= k < bs@.len() ==> bill_info_of(#[trigger] bs@[k], bills_of(bills@.take(j as int), row.id)[k]),
        decreases bills.len() - j,
    {
        assert(bills@.take(j + 1).drop_last() =~= bills@.take(j as int));
        assert(bills@.take(j + 1).last() == bills@[j as int]);
        if bills[j].identity_id == row.id {
            bs.push(bill_info(&bills[j]));
        }
        j = j + 1;
    }
    assert(bills@.take(bills.len() as int) =~= bills@);
    IdentityBundle {
        identity: IdentityInfo {
            name: row.name.clone(),
            enable: row.enable,
            birthday: opt_clone(&row.birthday),
            created_at: row.created_at.clone(),
        },
        accounts: acc,
        bills: bs,
    }
}

/// The content of a transfer archive: for each identity, in order, its accounts and its
/// merged bills.
pub fn identity_bundles(identities: &Vec<IdentityRow>, accounts: &Vec<AccountRow>, bills: &Vec<MergedBillRecord>) -> (r: Vec<IdentityBundle>)
    ensures
        r@.len() == identities@.len(),
        forall|k: int| 0 <= k < r@.len() ==> bundle_of(#[trigger] r@[k], identities@[k], accounts@, bills@),
        forall|k: int, j: int| 0 <= k < r@.len() && 0 <= j < (#[trigger] r@[k]).bills@.len()
            ==> (#[trigger] r@[k].bills@[j]).money_bits == bills_of(bills@, identities@[k].id)[j].money_bits,
{
    let mut out: Vec<IdentityBundle> = Vec::new();
    let mut i: usize = 0;
    while i < identities.len()
        invariant
            i <= identities.len(),
            out@.len() == i,
            forall|k: int| 0 <= k < i ==> bundle_of(#[trigger] out@[k], identities@[k], accounts@, bills@),
        decreases identities.len() - i,
    {
        out.push(bundle_identity(&identities[i], accounts, bills));
        i = i + 1;
    }
    assert forall|k: int, j: int| 0 <= k < out@.len() && 0 <= j < (#[trigger] out@[k]).bills@.len()
        implies (#[trigger] out@[k].bills@[j]).money_bits == bills_of(bills@, identities@[k].id)[j].money_bits by {
        lemma_bundle_keeps_amounts(out@[k], identities@[k], accounts@, bills@);
    }
    out
}

/// Number of iterations of the key derivation.
pub const PBKDF2_ITERATIONS: u32 = 100000;

/// The `i`-th PBKDF2 block value (from 1) for the first output block.
pub open spec fn pbkdf2_u(password: Seq<u8>, salt: Seq<u8>, i: nat) -> Seq<u8>
    decreases i,
{
    if i <= 1 {
        hmac_sha256(password, salt + seq![0u8, 0u8, 0u8, 1u8])
    } else {
        hmac_sha256(password, pbkdf2_u(password, salt, (i - 1) as nat))
    }
}

/// Byte-wise exclusive or.
pub open spec fn xor_bytes(a: Seq<u8>, b: Seq<u8>) -> Seq<u8> {
    Seq::new(a.len(), |k: int| a[k] ^ b[k])
}

/// The first PBKDF2 output block after `c` iterations: the exclusive or of the block
/// values 1 to `c`.
pub open spec fn pbkdf2_block(password: Seq<u8>, salt: Seq<u8>, c: nat) -> Seq<u8>
    decreases c,
{
    if c <= 1 {
        pbkdf2_u(password, salt, 1)
    } else {
        xor_bytes(pbkdf2_block(password, salt, (c - 1) as nat), pbkdf2_u(password, salt, c))
    }
}

/// The archive key of a password and salt: PBKDF2-HMAC-SHA256 with 100000 iterations,
/// 32 bytes.
pub open spec fn archive_key(password: Seq<char>, salt: Seq<u8>) -> Seq<u8> {
    pbkdf2_block(encode_utf8(password), salt, 100000)
}

/// Derives the 32-byte archive key of a password and salt.
pub fn derive_key(password: &str, salt: &[u8]) -> (r: [u8; 32])
    ensures
        r@ == archive_key(password@, salt@),
{
    let pw = password.as_bytes();
    let mut msg: Vec<u8> = Vec::new();
    let mut k: usize = 0;
    while k < salt.len()
        invariant
            k <= salt.len(),
            msg@ == salt@.take(k as int),
        decreases salt.len() - k,
    {
        msg.push(salt[k]);
        k = k + 1;
        assert(msg@ =~= salt@.take(k as int));
    }
    msg.push(0);
    msg.push(0);
    msg.push(0);
    msg.push(1);
    assert(msg@ =~= salt@ + seq![0u8, 0u8, 0u8, 1u8]);
    let mut u = hmac_sha256_tag(pw, msg.as_slice());
    let mut acc = hmac_sha256_tag(pw, msg.as_slice());
    let mut i: u32 = 1;
    while i < PBKDF2_ITERATIONS
        invariant
            1 <= i <= 100000,
            pw@ == encode_utf8(password@),
            u@ == pbkdf2_u(pw@, salt@, i as nat),
            acc@ == pbkdf2_block(pw@, salt@, i as nat),
            u@.len() == 32,
            acc@.len() == 32,
        decreases 100000 - i,
    {
        let next = hmac_sha256_tag(pw, u.as_slice());
        let mut mixed: Vec<u8> = Vec::new();
        let mut j: usize = 0;
        while j < 32
            invariant
                j <= 32,
                acc@.len() == 32,
                next@.len() == 32,
                mixed@ =~= xor_bytes(acc@, next@).take(j as int),
            decreases 32 - j,
        {
            mixed.push(acc[j] ^ next[j]);
            j = j + 1;
        }
        assert(mixed@ =~= xor_bytes(acc@, next@));
        u = next;
        acc = mixed;
        i = i + 1;
    }
    let mut key = [0u8; 32];
    let mut t: usize = 0;
    while t < 32
        invariant
            t <= 32,
            acc@.len() == 32,
            forall|q: int| 0 <= q < t ==> key@[q] == acc@[q],
        decreases 32 - t,
    {
        key[t] = acc[t];
        t = t + 1;
    }
    assert(key@ =~= acc@);
    key
}

/// `out` is a password-encrypted archive of `data`: a 16-byte salt, a 12-byte nonce and
/// the AES-256-GCM encryption (with its 16-byte tag) of `data` under the archive key of
/// the password and salt.
pub open spec fn archive_sealed(password: Seq<char>, data: Seq<u8>, out: Seq<u8>) -> bool {
    exists|salt: Seq<u8>, iv: Seq<u8>, ct: Seq<u8>|
        #![trigger aead_seal(archive_key(password, salt), iv, data), salt + iv + ct]
        salt.len() == 16 && iv.len() == 12 && ct.len() >= 16
            && aead_seal(archive_key(password, salt), iv, data) == Some(ct) && out == salt + iv + ct
}

/// Encrypts an archive with a password, under a fresh random salt and nonce. Any archive
/// of at most `P_MAX` (2^36) bytes is encrypted; a longer one is refused with the cipher's
/// message after `加密失败: `.
pub fn encrypt_archive(data: &[u8], password: &str) -> (r: Result<Vec<u8>, String>)
    ensures
        r matches Ok(out) ==> archive_sealed(password@, data@, out@),
        r is Ok <==> data@.len() <= aes_gcm_max_plaintext(),
        r matches Err(e) ==> exists|d: Seq<char>| e@ == "加密失败: "@ + d,
{
    let salt = random_salt();
    let iv = random_nonce();
    let key = derive_key(password, &salt);
    match aes_gcm_encrypt(&key, &iv, data) {
        Ok(ct) => {
            let mut out: Vec<u8> = Vec::new();
            let mut i: usize = 0;
            while i < 16
                invariant
                    i <= 16,
                    salt@.len() == 16,
                    out@ =~= salt@.take(i as int),
                decreases 16 - i,
            {
                out.push(salt[i]);
                i = i + 1;
            }
            let mut j: usize = 0;
            while j < 12
                invariant
                    j <= 12,
                    salt@.len() == 16,
                    iv@.len() == 12,
                    out@ =~= salt@ + iv@.take(j as int),
                decreases 12 - j,
            {
                out.push(iv[j]);
                j = j + 1;
            }
            let mut k: usize = 0;
            while k < ct.len()
                invariant
                    k <= ct.len(),
                    salt@.len() == 16,
                    iv@.len() == 12,
                    out@ =~= salt@ + iv@ + ct@.take(k as int),
                decreases ct.len() - k,
            {
                out.push(ct[k]);
                k = k + 1;
            }
            assert(ct@.take(ct.len() as int) =~= ct@);
            assert(aead_seal(archive_key(password@, salt@), iv@, data@) == Some(ct@));
            assert(archive_sealed(password@, data@, out@));
            Ok(out)
        },
        Err(e) => Err(concat_str("加密失败: ", e.as_str())),
    }
}

/// Smallest encrypted archive: salt, nonce and tag.
pub const MIN_SEALED_LEN: usize = 44;

/// Decrypts a password-encrypted archive. Data shorter than salt, nonce and tag is
/// refused as too short; an archive encrypted with the password decrypts to its data.
pub fn decrypt_archive(data: &[u8], password: &str) -> (r: Result<Vec<u8>, String>)
    ensures
        data@.len() < 44 ==> (r matches Err(e) && e@ == "加密数据过短"@),
        forall|p: Seq<u8>| archive_sealed(password@, p, data@) ==> (r matches Ok(q) && q@ == p),
{
    if data.len() < 44 {
        proof {
            assert forall|p: Seq<u8>| !archive_sealed(password@, p, data@) by {
                if archive_sealed(password@, p, data@) {
                    let (s, n, c) = choose|s: Seq<u8>, n: Seq<u8>, c: Seq<u8>| s.len() == 16 && n.len() == 12 && c.len() >= 16
                        && aead_seal(archive_key(password@, s), n, p) == Some(c) && data@ == s + n + c;
                    assert((s + n + c).len() == s.len() + n.len() + c.len());
                }
            }
        }
        return Err(owned("加密数据过短"));
    }
    let v = slice_to_vec(data);
    let salt = slice_u8(&v, 0, 16);
    let iv = slice_u8(&v, 16, 28);
    let ct = slice_u8(&v, 28, v.len());
    let key = derive_key(password, salt.as_slice());
    let res = aes_gcm_decrypt(&key, iv.as_slice(), ct.as_slice());
    proof {
        assert forall|p: Seq<u8>| archive_sealed(password@, p, data@) implies (res matches Ok(q) && q@ == p) by {
            let (s, n, c) = choose|s: Seq<u8>, n: Seq<u8>, c: Seq<u8>| s.len() == 16 && n.len() == 12 && c.len() >= 16
                && aead_seal(archive_key(password@, s), n, p) == Some(c) && data@ == s + n + c;
            assert(salt@ =~= s);
            assert(iv@ =~= n);
            assert(ct@ =~= c);
            assert(aead_seal(key@, iv@, p) == Some(ct@));
        }
    }
    match res {
        Ok(p) => Ok(p),
        Err(e) => Err(concat_str("解密失败: ", e.as_str())),
    }
}

fn slice_to_vec(s: &[u8]) -> (r: Vec<u8>)
    ensures
        r@ == s@,
{
    let mut out: Vec<u8> = Vec::new();
    let mut i: usize = 0;
    while i < s.len()
        invariant
            i <= s.len(),
            out@ =~= s@.take(i as int),
        decreases s.len() - i,
    {
        out.push(s[i]);
        i = i + 1;
    }
    assert(s@.take(s.len() as int) =~= s@);
    out
}

/// Name of a backup file made at `timestamp` (`YYYY-MM-DD_HH-MM-SS`).
pub open spec fn backup_name(timestamp: Seq<char>, encrypted: bool) -> Seq<char> {
    "shmtu-backup-"@ + timestamp + if encrypted { ".zip.enc"@ } else { ".zip"@ }
}

/// The remote path of a backup file under the backup root (leading slashes dropped).
pub open spec fn backup_path(root: Seq<char>, name: Seq<char>) -> Seq<char> {
    strip_leading(root, "/"@) + "/"@ + name
}

/// Where a backup made at `timestamp` is uploaded.
pub fn backup_remote_path(root: &str, timestamp: &str, encrypted: bool) -> (r: String)
    ensures
        r@ == backup_path(root@, backup_name(timestamp@, encrypted)),
{
    let slash = chars_of("/");
    let mut v = strip_leading_exec(&chars_of(root), &slash);
    push_str(&mut v, "/");
    push_str(&mut v, "shmtu-backup-");
    push_str(&mut v, timestamp);
    if encrypted {
        push_str(&mut v, ".zip.enc");
    } else {
        push_str(&mut v, ".zip");
    }
    string_from_chars(v.as_slice())
}

/// A backup is encrypted when its path ends with `.enc`.
pub open spec fn encrypted_backup(path: Seq<char>) -> bool {
    path.len() >= 4 && path.skip(path.len() - 4) == ".enc"@
}

/// Whether the backup at `path` is encrypted.
pub fn is_encrypted_backup(path: &str) -> (b: bool)
    ensures
        b == encrypted_backup(path@),
{
    let v = chars_of(path);
    proof {
        reveal_strlit(".enc");
    }
    if v.len() < 4 {
        return false;
    }
    let n = v.len();
    let r = v[n - 4] == '.' && v[n - 3] == 'e' && v[n - 2] == 'n' && v[n - 1] == 'c';
    proof {
        if r {
            assert(v@.skip(n - 4) =~= ".enc"@);
        } else {
            if v@.skip(n - 4) == ".enc"@ {
                assert(v@.skip(n - 4)[0] == v@[n - 4]);
                assert(v@.skip(n - 4)[1] == v@[n - 3]);
                assert(v@.skip(n - 4)[2] == v@[n - 2]);
                assert(v@.skip(n - 4)[3] == v@[n - 1]);
            }
        }
    }
    r
}

/// The archive bytes of a downloaded backup: decrypted with the password when the backup
/// is encrypted (which needs one), else as downloaded.
pub fn restore_bytes(remote_path: &str, password: Option<&str>, downloaded: Vec<u8>) -> (r: Result<Vec<u8>, String>)
    ensures
        !encrypted_backup(remote_path@) ==> (r matches Ok(b) && b@ == downloaded@),
        encrypted_backup(remote_path@) && password is None ==> (r matches Err(e) && e@ == "备份已加密，请提供密码"@),
        encrypted_backup(remote_path@) ==> (password matches Some(p) ==> forall|d: Seq<u8>| archive_sealed(p@, d, downloaded@) ==> (r matches Ok(q) && q@ == d)),
{
    if is_encrypted_backup(remote_path) {
        match password {
            Some(p) => decrypt_archive(downloaded.as_slice(), p),
            None => Err(owned("备份已加密，请提供密码")),
        }
    } else {
        Ok(downloaded)
    }
}

} // verus!
