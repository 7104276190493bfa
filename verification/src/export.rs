//! Data export and import: which bills an export takes, the CSV text, the entries of the
//! JSON and Qianji exports, the records an import creates, and snapshot names. Files,
//! JSON text and zipping are handled outside.
use vstd::prelude::*;

use crate::classification::{opt_view, ClassificationResult};
use crate::numbers::{
    json_of_string_list, json_string_list, opt_str_view, parse_string_list_json, string_list_to_json, strings_view,
};
use crate::store::MergedBillRecord;
use crate::text::{
    chars_of, contains, lemma_lex_le_refl, lemma_lex_le_total, lemma_lex_le_trans, lex_le, lex_lt, owned, push_str,
    str_contains, str_eq, str_le, string_from_chars,
};

verus! {

/// Export file formats.
#[derive(Debug, Clone, Copy, PartialEq, Eq)]
pub enum ExportFormat {
    Csv,
    Json,
    Qianji,
}

/// What an export writes, where, and for which time range.
#[derive(Debug, Clone)]
pub struct ExportOptions {
    pub format: ExportFormat,
    pub output_path: String,
    pub include_classification: bool,
    pub start_timestamp: Option<i64>,
    pub end_timestamp: Option<i64>,
}

/// A data snapshot file.
#[derive(Debug, Clone)]
pub struct SnapshotInfo {
    pub name: String,
    pub path: String,
    pub size: u64,
    pub created_at: Option<i64>,
}

/// A bill of the JSON export; the amount is the bit pattern of its `f64` value.
#[derive(Debug, Clone)]
pub struct JsonBillItem {
    pub date_time_formatted: Option<String>,
    pub time_str_formatted: Option<String>,
    pub item_type: Option<String>,
    pub number: Option<String>,
    pub number_list: Option<Vec<String>>,
    pub target_user: Option<String>,
    pub money_str: Option<String>,
    pub money_bits: Option<u64>,
    pub method: Option<String>,
    pub status_str: Option<String>,
    pub is_combined: bool,
    pub classification: Option<ClassificationResult>,
}

/// A bill lies in the export range: bills without a timestamp always do, others not
/// before the start nor after the end where these are set.
pub open spec fn in_export_range(ts: Option<i64>, start: Option<i64>, end: Option<i64>) -> bool {
    match ts {
        Some(t) => (match start { Some(s) => t >= s, None => true }) && (match end { Some(e) => t <= e, None => true }),
        None => true,
    }
}

/// The bills of an export, in order.
pub open spec fn export_selection(bills: Seq<MergedBillRecord>, start: Option<i64>, end: Option<i64>) -> Seq<MergedBillRecord>
    decreases bills.len(),
{
    if bills.len() == 0 {
        Seq::empty()
    } else {
        let prev = export_selection(bills.drop_last(), start, end);
        if in_export_range(bills.last().timestamp, start, end) { prev.push(bills.last()) } else { prev }
    }
}

/// Keeps the bills in the export's time range.
pub fn select_for_export(bills: Vec<MergedBillRecord>, options: &ExportOptions) -> (r: Vec<MergedBillRecord>)
    ensures
        r@ == export_selection(bills@, options.start_timestamp, options.end_timestamp),
{
    let mut rest = bills;
    let ghost all = rest@;
    let n = rest.len();
    let mut out: Vec<MergedBillRecord> = Vec::new();
    let mut i: usize = 0;
    while i < n
        invariant
            i <= n,
            n == all.len(),
            rest@ == all.skip(i as int),
            out@ == export_selection(all.take(i as int), options.start_timestamp, options.end_timestamp),
        decreases n - i,
    {
        assert(all.take(i + 1).drop_last() =~= all.take(i as int));
        assert(all.take(i + 1).last() == all[i as int]);
        let m = rest.remove(0);
        assert(rest@ =~= all.skip(i + 1));
        let keep = match m.timestamp {
            Some(t) => {
                let after = match options.start_timestamp {
                    Some(s) => t >= s,
                    None => true,
                };
                let before = match options.end_timestamp {
                    Some(e) => t <= e,
                    None => true,
                };
                after && before
            },
            None => true,
        };
        if keep {
            out.push(m);
        }
        i = i + 1;
    }
    assert(all.take(n as int) =~= all);
    out
}

/// The header line of the CSV export.
pub open spec fn csv_header() -> Seq<char> {
    "日期时间,交易名称,交易号,对方账户,金额,支付方式,状态"@
}

/// Text of an optional field, empty when absent.
pub open spec fn field_text(o: Option<String>) -> Seq<char> {
    match o {
        Some(s) => s@,
        None => Seq::empty(),
    }
}

/// The CSV line of a bill: time, type, number list, counterparty, amount text, method and
/// status, separated by commas and written as they are.
pub open spec fn csv_line(m: MergedBillRecord) -> Seq<char> {
    field_text(m.date_time_formatted) + ","@ + field_text(m.item_type) + ","@ + field_text(m.number_list) + ","@
        + field_text(m.target_user) + ","@ + field_text(m.money_str) + ","@ + field_text(m.method) + ","@
        + field_text(m.status_str)
}

/// The lines of the CSV export after the header, each ending in a newline.
pub open spec fn csv_rows(bills: Seq<MergedBillRecord>) -> Seq<char>
    decreases bills.len(),
{
    if bills.len() == 0 { Seq::empty() } else { csv_rows(bills.drop_last()) + csv_line(bills.last()) + "\n"@ }
}

fn push_field(v: &mut Vec<char>, o: &Option<String>)
    ensures
        final(v)@ == old(v)@ + field_text(*o),
{
    match o {
        Some(s) => push_str(v, s.as_str()),
        None => {
            assert(old(v)@ + Seq::<char>::empty() =~= old(v)@);
        },
    }
}

fn push_csv_line(v: &mut Vec<char>, b: &MergedBillRecord)
    ensures
        final(v)@ == old(v)@ + csv_line(*b) + "\n"@,
{
    let ghost start = v@;
    push_field(v, &b.date_time_formatted);
    push_str(v, ",");
    push_field(v, &b.item_type);
    push_str(v, ",");
    push_field(v, &b.number_list);
    push_str(v, ",");
    let ghost mid = v@;
    assert(mid =~= start + field_text(b.date_time_formatted) + ","@ + field_text(b.item_type) + ","@ + field_text(b.number_list) + ","@);
    push_field(v, &b.target_user);
    push_str(v, ",");
    push_field(v, &b.money_str);
    push_str(v, ",");
    push_field(v, &b.method);
    push_str(v, ",");
    push_field(v, &b.status_str);
    push_str(v, "\n");
    assert(v@ =~= mid + field_text(b.target_user) + ","@ + field_text(b.money_str) + ","@ + field_text(b.method) + ","@
        + field_text(b.status_str) + "\n"@);
    assert(v@ =~= start + csv_line(*b) + "\n"@);
}

/// The text of the CSV export (the file starts with a UTF-8 byte order mark, written by
/// the caller): the header line, then one line per bill.
pub fn csv_content(bills: &Vec<MergedBillRecord>) -> (r: String)
    ensures
        r@ == csv_header() + "\n"@ + csv_rows(bills@),
{
    let mut v: Vec<char> = Vec::new();
    push_str(&mut v, "日期时间,交易名称,交易号,对方账户,金额,支付方式,状态");
    push_str(&mut v, "\n");
    let ghost head = v@;
    assert(head =~= csv_header() + "\n"@);
    let mut i: usize = 0;
    while i < bills.len()
        invariant
            i <= bills.len(),
            head == csv_header() + "\n"@,
            v@ == head + csv_rows(bills@.take(i as int)),
        decreases bills.len() - i,
    {
        assert(bills@.take(i + 1).drop_last() =~= bills@.take(i as int));
        assert(bills@.take(i + 1).last() == bills@[i as int]);
        push_csv_line(&mut v, &bills[i]);
        assert(v@ =~= head + csv_rows(bills@.take(i + 1)));
        i = i + 1;
    }
    assert(bills@.take(bills.len() as int) =~= bills@);
    string_from_chars(v.as_slice())
}

/// The classification written with a bill: none when neither type, building nor meal is
/// known.
pub open spec fn kept_classification(c: ClassificationResult) -> Option<ClassificationResult> {
    if c.type_label is None && c.building is None && c.meal is None { None } else { Some(c) }
}

/// The classification an export writes for a bill.
pub fn export_classification(c: ClassificationResult) -> (r: Option<ClassificationResult>)
    ensures
        r == kept_classification(c),
{
    if c.type_label.is_none() && c.building.is_none() && c.meal.is_none() {
        None
    } else {
        Some(c)
    }
}

fn opt_clone(o: &Option<String>) -> (r: Option<String>)
    ensures
        opt_str_view(r) == opt_str_view(*o),
{
    match o {
        Some(s) => Some(s.clone()),
        None => None,
    }
}

/// The number list written with a bill: the stored JSON list read back, none when absent
/// or unreadable.
pub open spec fn exported_numbers(stored: Option<String>) -> Option<Seq<Seq<char>>> {
    match stored {
        Some(s) => json_string_list(s@),
        None => None,
    }
}

/// The JSON export entry of a bill, with its classification.
pub fn json_bill_item(m: &MergedBillRecord, classification: Option<ClassificationResult>) -> (r: JsonBillItem)
    ensures
        opt_str_view(r.date_time_formatted) == opt_str_view(m.date_time_formatted),
        opt_str_view(r.time_str_formatted) == opt_str_view(m.time_str_formatted),
        opt_str_view(r.item_type) == opt_str_view(m.item_type),
        opt_str_view(r.number) == opt_str_view(m.number),
        (match r.number_list { Some(v) => Some(strings_view(v@)), None => None::<Seq<Seq<char>>> }) == exported_numbers(m.number_list),
        opt_str_view(r.target_user) == opt_str_view(m.target_user),
        opt_str_view(r.money_str) == opt_str_view(m.money_str),
        r.money_bits == m.money_bits,
        opt_str_view(r.method) == opt_str_view(m.method),
        opt_str_view(r.status_str) == opt_str_view(m.status_str),
        r.is_combined == m.is_combined,
        r.classification == classification,
{
    let number_list = match &m.number_list {
        Some(s) => parse_string_list_json(s.as_str()),
        None => None,
    };
    JsonBillItem {
        date_time_formatted: opt_clone(&m.date_time_formatted),
        time_str_formatted: opt_clone(&m.time_str_formatted),
        item_type: opt_clone(&m.item_type),
        number: opt_clone(&m.number),
        number_list,
        target_user: opt_clone(&m.target_user),
        money_str: opt_clone(&m.money_str),
        money_bits: m.money_bits,
        method: opt_clone(&m.method),
        status_str: opt_clone(&m.status_str),
        is_combined: m.is_combined,
        classification,
    }
}

/// Category of a Qianji entry: income for a non-negative amount; else food at canteens
/// and restaurants, income again for deposits (when `deposits_are_income`), and other
/// spending otherwise.
pub open spec fn qianji_category_of(non_negative: bool, target: Seq<char>, item_type: Seq<char>, deposits_are_income: bool) -> Seq<char> {
    if non_negative {
        "其他收入"@
    } else if contains(target, "食堂"@) || contains(target, "餐厅"@) {
        "餐饮"@
    } else if deposits_are_income && contains(item_type, "充值"@) {
        "其他收入"@
    } else {
        "其他支出"@
    }
}

/// The Qianji category of a bill whose amount is (or is not) non-negative; merged bills
/// count deposits as income, original bills do not.
pub fn qianji_category(non_negative: bool, target: &str, item_type: &str, deposits_are_income: bool) -> (r: &'static str)
    ensures
        r@ == qianji_category_of(non_negative, target@, item_type@, deposits_are_income),
{
    if non_negative {
        "其他收入"
    } else if str_contains(target, "食堂") || str_contains(target, "餐厅") {
        "餐饮"
    } else if deposits_are_income && str_contains(item_type, "充值") {
        "其他收入"
    } else {
        "其他支出"
    }
}

/// The remark of a Qianji entry: counterparty, a dash, and item type.
pub fn qianji_remark(target: &str, item_type: &str) -> (r: String)
    ensures
        r@ == target@ + "-"@ + item_type@,
{
    let mut v = chars_of(target);
    push_str(&mut v, "-");
    push_str(&mut v, item_type);
    string_from_chars(v.as_slice())
}

/// The account every Qianji entry is booked on.
pub fn qianji_account() -> (r: &'static str)
    ensures
        r@ == "校园卡"@,
{
    "校园卡"
}

/// The time of a Qianji entry: its timestamp; bills without one (or at 0) are left out.
pub fn qianji_time(timestamp: Option<i64>) -> (r: Option<i64>)
    ensures
        r == (match timestamp { Some(t) => if t == 0 { None } else { Some(t) }, None => None::<i64> }),
{
    match timestamp {
        Some(t) => if t == 0 { None } else { Some(t) },
        None => None,
    }
}

/// The stored number list of an imported bill: the JSON of its list, none when absent or
/// when it writes as nothing.
pub open spec fn imported_number_list(list: Option<Seq<Seq<char>>>) -> Option<Seq<char>> {
    match list {
        Some(l) => match json_of_string_list(l) {
            Some(t) => if t.len() > 0 { Some(t) } else { None },
            None => None,
        },
        None => None,
    }
}

/// The merged record an imported bill becomes for identity `identity_id`: a manual bill
/// without date text or account, at timestamp 0, synced at `now`, with its time and type
/// text (empty when absent) and its other fields as imported.
pub fn imported_record(bill: &JsonBillItem, identity_id: i64, now: &str) -> (r: MergedBillRecord)
    ensures
        r.id == 0,
        r.identity_id == identity_id,
        r.date_str@.len() == 0 && r.time_str@.len() == 0,
        opt_str_view(r.time_str_formatted) == Some(field_text(bill.time_str_formatted)),
        opt_str_view(r.date_time_formatted) == opt_str_view(bill.date_time_formatted),
        r.timestamp == Some(0i64),
        opt_str_view(r.item_type) == Some(field_text(bill.item_type)),
        opt_str_view(r.number) == opt_str_view(bill.number),
        opt_str_view(r.number_list) == imported_number_list(match bill.number_list { Some(v) => Some(strings_view(v@)), None => None }),
        opt_str_view(r.target_user) == opt_str_view(bill.target_user),
        opt_str_view(r.money_str) == opt_str_view(bill.money_str),
        r.money_bits == bill.money_bits,
        opt_str_view(r.method) == opt_str_view(bill.method),
        opt_str_view(r.status_str) == opt_str_view(bill.status_str),
        r.is_combined == bill.is_combined,
        r.source_account_id is None,
        r.is_manual,
        opt_str_view(r.synced_at) == Some(now@),
        r.end_timestamp is None && r.position is None && r.room is None && r.category is None && r.notes is None
            && r.end_date_time_formatted is None,
{
    let number_list = match &bill.number_list {
        Some(l) => match string_list_to_json(l) {
            Some(t) => if !crate::text::str_is_empty(t.as_str()) { Some(t) } else { None },
            None => None,
        },
        None => None,
    };
    let tsf = match &bill.time_str_formatted {
        Some(s) => s.clone(),
        None => String::new(),
    };
    let it = match &bill.item_type {
        Some(s) => s.clone(),
        None => String::new(),
    };
    MergedBillRecord {
        id: 0,
        identity_id,
        date_str: String::new(),
        time_str: String::new(),
        time_str_formatted: Some(tsf),
        date_time_formatted: opt_clone(&bill.date_time_formatted),
        end_date_time_formatted: None,
        timestamp: Some(0),
        end_timestamp: None,
        item_type: Some(it),
        number: opt_clone(&bill.number),
        number_list,
        target_user: opt_clone(&bill.target_user),
        money_str: opt_clone(&bill.money_str),
        money_bits: bill.money_bits,
        method: opt_clone(&bill.method),
        status_str: opt_clone(&bill.status_str),
        is_combined: bill.is_combined,
        source_account_id: None,
        is_manual: true,
        position: None,
        room: None,
        category: None,
        notes: None,
        synced_at: Some(owned(now)),
    }
}

/// File name of a snapshot taken at `timestamp` (`YYYY-MM-DD_HH-MM-SS`).
pub fn snapshot_file_name(timestamp: &str) -> (r: String)
    ensures
        r@ == timestamp@ + ".zip"@,
{
    let mut v = chars_of(timestamp);
    push_str(&mut v, ".zip");
    string_from_chars(v.as_slice())
}

/// The directories a snapshot leaves out.
pub open spec fn snapshot_excluded() -> Seq<Seq<char>> {
    seq!["snapshot"@, "models"@, "export"@]
}

/// Whether a directory of the data directory is left out of snapshots.
pub fn snapshot_skips_dir(name: &str) -> (b: bool)
    ensures
        b == snapshot_excluded().contains(name@),
{
    let r = crate::text::str_eq(name, "snapshot") || crate::text::str_eq(name, "models") || crate::text::str_eq(name, "export");
    proof {
        if snapshot_excluded().contains(name@) {
            let k = choose|k: int| 0 <= k < 3 && snapshot_excluded()[k] == name@;
            assert(k == 0 || k == 1 || k == 2);
        }
        if r {
            if name@ == "snapshot"@ {
                assert(snapshot_excluded()[0] == name@);
            } else if name@ == "models"@ {
                assert(snapshot_excluded()[1] == name@);
            } else {
                assert(snapshot_excluded()[2] == name@);
            }
        }
    }
    r
}

/// Inserts a snapshot into a list ordered by name, greatest first, after every entry
/// whose name is not smaller.
pub open spec fn insert_snapshot_desc(s: Seq<SnapshotInfo>, x: SnapshotInfo) -> Seq<SnapshotInfo>
    decreases s.len(),
{
    if s.len() == 0 {
        seq![x]
    } else if lex_lt(s.last().name@, x.name@) {
        insert_snapshot_desc(s.drop_last(), x).push(s.last())
    } else {
        s.push(x)
    }
}

/// The snapshots ordered by name, greatest (newest) first; entries of equal name keep
/// their order (a stable sort).
pub open spec fn snapshots_by_name_desc(s: Seq<SnapshotInfo>) -> Seq<SnapshotInfo>
    decreases s.len(),
{
    if s.len() == 0 { Seq::empty() } else { insert_snapshot_desc(snapshots_by_name_desc(s.drop_last()), s.last()) }
}

/// Names never increase along the list.
pub open spec fn snapshot_names_descending(s: Seq<SnapshotInfo>) -> bool {
    forall|i: int, j: int| 0 <= i < j < s.len() ==> lex_le((#[trigger] s[j]).name@, (#[trigger] s[i]).name@)
}

proof fn lemma_lex_not_lt_snapshot(a: Seq<char>, b: Seq<char>)
    ensures
        !lex_lt(a, b) ==> lex_le(b, a),
        lex_lt(a, b) ==> lex_le(a, b),
{
    lemma_lex_le_total(a, b);
    if !lex_lt(a, b) && !lex_le(b, a) {
        assert(lex_le(a, b));
        assert(a == b);
        lemma_lex_le_refl(a);
    }
}

proof fn lemma_insert_snapshot_desc(s: Seq<SnapshotInfo>, x: SnapshotInfo)
    requires
        snapshot_names_descending(s),
    ensures
        snapshot_names_descending(insert_snapshot_desc(s, x)),
        insert_snapshot_desc(s, x).to_multiset() =~= s.to_multiset().insert(x),
        insert_snapshot_desc(s, x).len() == s.len() + 1,
    decreases s.len(),
{
    broadcast use vstd::seq_lib::group_seq_properties, vstd::multiset::group_multiset_properties;
    if s.len() == 0 {
        assert(seq![x].to_multiset() =~= vstd::multiset::Multiset::<SnapshotInfo>::empty().insert(x)) by {
            assert(seq![x] =~= Seq::<SnapshotInfo>::empty().push(x));
        }
    } else if lex_lt(s.last().name@, x.name@) {
        let prev = s.drop_last();
        assert(snapshot_names_descending(prev)) by {
            assert forall|i: int, j: int| 0 <= i < j < prev.len() implies lex_le((#[trigger] prev[j]).name@, (#[trigger] prev[i]).name@) by {
                assert(prev[i] == s[i] && prev[j] == s[j]);
            }
        }
        lemma_insert_snapshot_desc(prev, x);
        let t = insert_snapshot_desc(prev, x);
        let r = t.push(s.last());
        assert forall|i: int, j: int| 0 <= i < j < r.len() implies lex_le((#[trigger] r[j]).name@, (#[trigger] r[i]).name@) by {
            if j == r.len() - 1 {
                assert(r[j] == s.last());
                // every element of t is x or an element of prev, all not below s.last()
                assert(t.to_multiset().count(r[i]) > 0) by {
                    assert(t.contains(r[i])) by { assert(t[i] == r[i]); }
                }
                assert(prev.to_multiset().insert(x).count(r[i]) > 0);
                if r[i] == x {
                    lemma_lex_not_lt_snapshot(s.last().name@, x.name@);
                } else {
                    assert(prev.to_multiset().count(r[i]) > 0);
                    assert(prev.contains(r[i]));
                    let k = choose|k: int| 0 <= k < prev.len() && prev[k] == r[i];
                    assert(s[k] == prev[k]);
                    assert(lex_le(s[s.len() - 1].name@, s[k].name@));
                }
            } else {
                assert(r[i] == t[i] && r[j] == t[j]);
            }
        }
        assert(s =~= prev.push(s.last()));
    } else {
        let r = s.push(x);
        assert forall|i: int, j: int| 0 <= i < j < r.len() implies lex_le((#[trigger] r[j]).name@, (#[trigger] r[i]).name@) by {
            if j == s.len() {
                lemma_lex_not_lt_snapshot(s.last().name@, x.name@);
                if i < s.len() - 1 {
                    assert(lex_le(s[s.len() - 1].name@, s[i].name@));
                    lemma_lex_le_trans(x.name@, s[s.len() - 1].name@, s[i].name@);
                }
            } else {
                assert(r[i] == s[i] && r[j] == s[j]);
            }
        }
    }
}

/// The stable sort by name, greatest first, orders the snapshots and keeps each of them.
pub proof fn lemma_snapshots_by_name_desc(s: Seq<SnapshotInfo>)
    ensures
        snapshot_names_descending(snapshots_by_name_desc(s)),
        snapshots_by_name_desc(s).to_multiset() =~= s.to_multiset(),
        snapshots_by_name_desc(s).len() == s.len(),
    decreases s.len(),
{
    broadcast use vstd::seq_lib::group_seq_properties, vstd::multiset::group_multiset_properties;
    if s.len() > 0 {
        lemma_snapshots_by_name_desc(s.drop_last());
        lemma_insert_snapshot_desc(snapshots_by_name_desc(s.drop_last()), s.last());
        assert(s =~= s.drop_last().push(s.last()));
    }
}

fn str_lt_snapshot(a: &str, b: &str) -> (r: bool)
    ensures
        r == lex_lt(a@, b@),
{
    str_le(a, b) && !str_eq(a, b)
}

/// The snapshots in listing order: by name, newest (greatest) first.
pub fn order_snapshots(list: Vec<SnapshotInfo>) -> (r: Vec<SnapshotInfo>)
    ensures
        r@ == snapshots_by_name_desc(list@),
        snapshot_names_descending(r@),
        r@.to_multiset() =~= list@.to_multiset(),
{
    let n = list.len();
    let mut rest = list;
    let ghost all = rest@;
    let mut sorted: Vec<SnapshotInfo> = Vec::new();
    let mut i: usize = 0;
    while i < n
        invariant
            i <= n,
            n == all.len(),
            rest@ == all.skip(i as int),
            sorted@ == snapshots_by_name_desc(all.take(i as int)),
        decreases n - i,
    {
        assert(all.take(i + 1).drop_last() =~= all.take(i as int));
        assert(all.take(i + 1).last() == all[i as int]);
        let x = rest.remove(0);
        assert(rest@ =~= all.skip(i + 1));
        let ghost before = sorted@;
        let mut p: usize = sorted.len();
        assert(before.take(p as int) =~= before);
        assert(before.skip(p as int) =~= Seq::<SnapshotInfo>::empty());
        while p > 0 && str_lt_snapshot(sorted[p - 1].name.as_str(), x.name.as_str())
            invariant
                p <= sorted@.len(),
                sorted@ == before,
                insert_snapshot_desc(before, x) == insert_snapshot_desc(before.take(p as int), x) + before.skip(p as int),
            decreases p,
        {
            assert(before.take(p as int).drop_last() =~= before.take(p - 1));
            assert(before.take(p as int).last() == before[p - 1]);
            assert(before.skip(p - 1) =~= seq![before[p - 1]] + before.skip(p as int));
            assert(insert_snapshot_desc(before.take(p - 1), x) + before.skip(p - 1)
                =~= insert_snapshot_desc(before.take(p - 1), x).push(before[p - 1]) + before.skip(p as int));
            p = p - 1;
        }
        proof {
            if p > 0 {
                assert(before.take(p as int).last() == before[p - 1]);
            } else {
                assert(before.take(0) =~= Seq::<SnapshotInfo>::empty());
            }
        }
        sorted.insert(p, x);
        assert(sorted@ =~= insert_snapshot_desc(before, x));
        i = i + 1;
    }
    assert(all.take(n as int) =~= all);
    proof {
        lemma_snapshots_by_name_desc(all);
    }
    sorted
}

/// The snapshots that cleaning up deletes to keep `max_keep`: when there are more, all
/// but the first `max_keep` in listing order.
pub fn snapshots_to_remove(ordered: Vec<SnapshotInfo>, max_keep: usize) -> (r: Vec<SnapshotInfo>)
    ensures
        ordered@.len() <= max_keep ==> r@.len() == 0,
        ordered@.len() > max_keep ==> r@ == ordered@.skip(max_keep as int),
{
    let n = ordered.len();
    if n <= max_keep {
        return Vec::new();
    }
    let ghost sv = ordered@;
    let mut tail = ordered;
    let mut out: Vec<SnapshotInfo> = Vec::new();
    let mut k: usize = 0;
    while k < n
        invariant
            k <= n,
            sv.len() == n,
            tail@ == sv.skip(k as int),
            k <= max_keep ==> out@.len() == 0,
            k > max_keep ==> out@ == sv.subrange(max_keep as int, k as int),
        decreases n - k,
    {
        let m = tail.remove(0);
        assert(tail@ =~= sv.skip(k + 1));
        if k >= max_keep {
            out.push(m);
            assert(out@ =~= sv.subrange(max_keep as int, k + 1));
        }
        k = k + 1;
    }
    assert(sv.subrange(max_keep as int, n as int) =~= sv.skip(max_keep as int));
    out
}

} // verus!
