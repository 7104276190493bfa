//! The bill list query: which merged bills a query selects and which page of them is
//! shown. The bills come from the store newest first (by timestamp, then id).
use vstd::prelude::*;

use crate::net::{ascii_lower, ascii_lower_exec, bill_type_status, normalize_bill_type_status};
use crate::store::MergedBillRecord;
use crate::text::{chars_of, lex_le, str_eq, str_le, string_from_chars, trim, trim_str};

verus! {

/// Parameters of the bill list query.
#[derive(Debug, Clone)]
pub struct BillQueryParams {
    pub identity_id: Option<i64>,
    pub account_id: Option<String>,
    pub bill_type: String,
    pub page: u32,
    pub page_size: u32,
    pub keyword: Option<String>,
    pub date_start: Option<String>,
    pub date_end: Option<String>,
}

/// One page of the bill list and the number of bills the query selects.
#[derive(Debug, Clone)]
pub struct BillQueryPage {
    pub items: Vec<MergedBillRecord>,
    pub total: u32,
    pub page: u32,
    pub page_size: u32,
}

/// Counts of a de-duplication: records back-filled and records removed.
#[derive(Debug, Clone)]
pub struct DedupeResult {
    pub backfilled_count: usize,
    pub removed_count: usize,
}

/// A date bound as stored dates are written: `-` becomes `.`.
pub open spec fn dotted(s: Seq<char>) -> Seq<char> {
    s.map_values(|c: char| if c == '-' { '.' } else { c })
}

fn dotted_exec(s: &str) -> (r: String)
    ensures
        r@ == dotted(s@),
{
    let v = chars_of(s);
    let mut out: Vec<char> = Vec::new();
    let mut i: usize = 0;
    while i < v.len()
        invariant
            i <= v.len(),
            v@ == s@,
            out@ =~= dotted(v@.take(i as int)),
        decreases v.len() - i,
    {
        let c = v[i];
        out.push(if c == '-' { '.' } else { c });
        i = i + 1;
    }
    assert(v@.take(v.len() as int) =~= v@);
    string_from_chars(out.as_slice())
}

/// `needle` occurs in `hay` at `i` up to ASCII case (how SQLite's `LIKE '%..%'` compares).
pub open spec fn like_at(hay: Seq<char>, needle: Seq<char>, i: int) -> bool {
    0 <= i && i + needle.len() <= hay.len() && forall|j: int| 0 <= j < needle.len() ==> ascii_lower(#[trigger] hay[i + j]) == ascii_lower(needle[j])
}

/// `needle` occurs in `hay` up to ASCII case.
pub open spec fn like_contains(hay: Seq<char>, needle: Seq<char>) -> bool {
    exists|i: int| like_at(hay, needle, i)
}

fn like_contains_exec(hay: &Vec<char>, needle: &Vec<char>) -> (b: bool)
    ensures
        b == like_contains(hay@, needle@),
{
    if needle.len() > hay.len() {
        return false;
    }
    let last = hay.len() - needle.len();
    let mut i: usize = 0;
    while i <= last
        invariant
            last + needle.len() == hay.len(),
            forall|k: int| 0 <= k < i ==> !like_at(hay@, needle@, k),
        decreases last + 1 - i,
    {
        let mut j: usize = 0;
        let mut ok = true;
        while j < needle.len()
            invariant
                i <= last,
                last + needle.len() == hay.len(),
                j <= needle.len(),
                ok ==> forall|t: int| 0 <= t < j ==> ascii_lower(#[trigger] hay@[i + t]) == ascii_lower(needle@[t]),
                !ok ==> !like_at(hay@, needle@, i as int),
            decreases needle.len() - j,
        {
            if ok && ascii_lower_exec(hay[i + j]) != ascii_lower_exec(needle[j]) {
                ok = false;
            }
            j = j + 1;
        }
        if ok {
            assert(like_at(hay@, needle@, i as int));
            return true;
        }
        i = i + 1;
    }
    proof {
        assert forall|k: int| !like_at(hay@, needle@, k) by {
            if 0 <= k < i {
            }
        }
    }
    false
}

/// An optional text field matches the keyword.
pub open spec fn field_like(field: Option<String>, keyword: Seq<char>) -> bool {
    match field {
        Some(s) => like_contains(s@, keyword),
        None => false,
    }
}

fn field_like_exec(field: &Option<String>, keyword: &Vec<char>) -> (b: bool)
    ensures
        b == field_like(*field, keyword@),
{
    match field {
        Some(s) => like_contains_exec(&chars_of(s.as_str()), keyword),
        None => false,
    }
}

/// The keyword of a query: trimmed, and none when blank.
pub open spec fn query_keyword(keyword: Option<String>) -> Option<Seq<char>> {
    match keyword {
        Some(k) => if trim(k@).len() > 0 { Some(trim(k@)) } else { None },
        None => None,
    }
}

/// A bill matches the keyword in its type, counterparty, number, number list, location,
/// room or notes.
pub open spec fn keyword_match(m: MergedBillRecord, k: Seq<char>) -> bool {
    field_like(m.item_type, k) || field_like(m.target_user, k) || field_like(m.number, k)
        || field_like(m.number_list, k) || field_like(m.position, k) || field_like(m.room, k)
        || field_like(m.notes, k)
}

/// The query selects the bill: it belongs to the identity, and to the account, has the
/// status of the bill type, lies between the date bounds (compared as text), and matches
/// the keyword, each condition only where the query sets it.
pub open spec fn matches_query(m: MergedBillRecord, identity_id: i64, p: BillQueryParams) -> bool {
    &&& m.identity_id == identity_id
    &&& match p.account_id {
        Some(a) => m.source_account_id matches Some(s) && s@ == a@,
        None => true,
    }
    &&& match bill_type_status(p.bill_type@) {
        Some(st) => m.status_str matches Some(s) && s@ == st,
        None => true,
    }
    &&& match p.date_start {
        Some(d) => lex_le(dotted(d@), m.date_str@),
        None => true,
    }
    &&& match p.date_end {
        Some(d) => lex_le(m.date_str@, dotted(d@)),
        None => true,
    }
    &&& match query_keyword(p.keyword) {
        Some(k) => keyword_match(m, k),
        None => true,
    }
}

fn opt_eq(field: &Option<String>, value: &str) -> (b: bool)
    ensures
        b == (field matches Some(s) && s@ == value@),
{
    match field {
        Some(s) => str_eq(s.as_str(), value),
        None => false,
    }
}

/// Every filter of the query but the keyword holds of the bill.
pub open spec fn other_filters_hold(m: MergedBillRecord, identity_id: i64, p: BillQueryParams) -> bool {
    &&& m.identity_id == identity_id
    &&& match p.account_id {
        Some(a) => m.source_account_id matches Some(s) && s@ == a@,
        None => true,
    }
    &&& match bill_type_status(p.bill_type@) {
        Some(st) => m.status_str matches Some(s) && s@ == st,
        None => true,
    }
    &&& match p.date_start {
        Some(d) => lex_le(dotted(d@), m.date_str@),
        None => true,
    }
    &&& match p.date_end {
        Some(d) => lex_le(m.date_str@, dotted(d@)),
        None => true,
    }
}

/// The keyword is searched in every text field of a bill: a query selects a bill exactly
/// when its other filters hold and, where a keyword is given, the trimmed keyword occurs
/// in the item type, the counterparty, the number, the number list, the building, the room
/// or the notes.
pub proof fn lemma_keyword_searches_all_fields(m: MergedBillRecord, identity_id: i64, p: BillQueryParams)
    ensures
        matches_query(m, identity_id, p) <==> other_filters_hold(m, identity_id, p) && match query_keyword(p.keyword) {
            Some(k) => field_like(m.item_type, k) || field_like(m.target_user, k) || field_like(m.number, k)
                || field_like(m.number_list, k) || field_like(m.position, k) || field_like(m.room, k)
                || field_like(m.notes, k),
            None => true,
        },
{
}

/// Whether the query selects the bill, for the identity `identity_id`.
pub fn bill_matches_query(m: &MergedBillRecord, identity_id: i64, p: &BillQueryParams) -> (b: bool)
    ensures
        b == matches_query(*m, identity_id, *p),
        b == (other_filters_hold(*m, identity_id, *p) && match query_keyword(p.keyword) {
            Some(k) => field_like(m.item_type, k) || field_like(m.target_user, k) || field_like(m.number, k)
                || field_like(m.number_list, k) || field_like(m.position, k) || field_like(m.room, k)
                || field_like(m.notes, k),
            None => true,
        }),
{
    proof {
        lemma_keyword_searches_all_fields(*m, identity_id, *p);
    }
    if m.identity_id != identity_id {
        return false;
    }
    if let Some(a) = &p.account_id {
        if !opt_eq(&m.source_account_id, a.as_str()) {
            return false;
        }
    }
    if let Some(st) = normalize_bill_type_status(p.bill_type.as_str()) {
        if !opt_eq(&m.status_str, st) {
            return false;
        }
    }
    if let Some(d) = &p.date_start {
        let b = dotted_exec(d.as_str());
        if !str_le(b.as_str(), m.date_str.as_str()) {
            return false;
        }
    }
    if let Some(d) = &p.date_end {
        let b = dotted_exec(d.as_str());
        if !str_le(m.date_str.as_str(), b.as_str()) {
            return false;
        }
    }
    if let Some(k) = &p.keyword {
        let t = trim_str(k.as_str());
        if !crate::text::str_is_empty(t.as_str()) {
            let kv = chars_of(t.as_str());
            let hit = field_like_exec(&m.item_type, &kv) || field_like_exec(&m.target_user, &kv)
                || field_like_exec(&m.number, &kv) || field_like_exec(&m.number_list, &kv)
                || field_like_exec(&m.position, &kv) || field_like_exec(&m.room, &kv)
                || field_like_exec(&m.notes, &kv);
            if !hit {
                return false;
            }
        }
    }
    true
}

/// The bills the query selects, in order.
pub open spec fn selected(ms: Seq<MergedBillRecord>, identity_id: i64, p: BillQueryParams) -> Seq<MergedBillRecord>
    decreases ms.len(),
{
    if ms.len() == 0 {
        Seq::empty()
    } else {
        let prev = selected(ms.drop_last(), identity_id, p);
        if matches_query(ms.last(), identity_id, p) { prev.push(ms.last()) } else { prev }
    }
}

proof fn lemma_selected_len(ms: Seq<MergedBillRecord>, identity_id: i64, p: BillQueryParams)
    ensures
        selected(ms, identity_id, p).len() <= ms.len(),
    decreases ms.len(),
{
    if ms.len() > 0 {
        lemma_selected_len(ms.drop_last(), identity_id, p);
    }
}

/// The timestamp of a bill as the database orders it: a missing one below every other.
pub open spec fn order_stamp(m: MergedBillRecord) -> int {
    match m.timestamp {
        Some(t) => t as int,
        None => i64::MIN - 1,
    }
}

/// `a` comes strictly before `b` in the list: a later timestamp, or the same one and a
/// larger id (newest first, as `ORDER BY timestamp DESC, id DESC` gives).
pub open spec fn listed_before(a: MergedBillRecord, b: MergedBillRecord) -> bool {
    order_stamp(a) > order_stamp(b) || (order_stamp(a) == order_stamp(b) && a.id > b.id)
}

/// The bills are listed newest first.
pub open spec fn newest_first(s: Seq<MergedBillRecord>) -> bool {
    forall|i: int, j: int| 0 <= i < j < s.len() ==> !listed_before(#[trigger] s[j], #[trigger] s[i])
}

/// Where `x` goes in a list: before the first bill it comes before, else at the end.
pub open spec fn list_position(s: Seq<MergedBillRecord>, x: MergedBillRecord) -> int
    decreases s.len(),
{
    if s.len() == 0 {
        0
    } else if listed_before(x, s[0]) {
        0
    } else {
        1 + list_position(s.drop_first(), x)
    }
}

/// The bills in list order: each put in before the first bill it comes before, so that
/// bills equal in timestamp and id keep their order.
pub open spec fn listed(s: Seq<MergedBillRecord>) -> Seq<MergedBillRecord>
    decreases s.len(),
{
    if s.len() == 0 {
        Seq::empty()
    } else {
        let prev = listed(s.drop_last());
        prev.insert(list_position(prev, s.last()), s.last())
    }
}

proof fn lemma_list_position(s: Seq<MergedBillRecord>, x: MergedBillRecord)
    ensures
        0 <= list_position(s, x) <= s.len(),
        forall|j: int| 0 <= j < list_position(s, x) ==> !listed_before(x, #[trigger] s[j]),
        list_position(s, x) < s.len() ==> listed_before(x, s[list_position(s, x)]),
    decreases s.len(),
{
    if s.len() > 0 && !listed_before(x, s[0]) {
        lemma_list_position(s.drop_first(), x);
        assert forall|j: int| 0 <= j < list_position(s, x) implies !listed_before(x, #[trigger] s[j]) by {
            if j > 0 {
                assert(s[j] == s.drop_first()[j - 1]);
            }
        }
        if list_position(s, x) < s.len() {
            assert(s[list_position(s, x)] == s.drop_first()[list_position(s.drop_first(), x)]);
        }
    }
}

/// Putting a bill in at its place keeps a list newest first.
proof fn lemma_insert_keeps_order(s: Seq<MergedBillRecord>, x: MergedBillRecord)
    requires
        newest_first(s),
    ensures
        newest_first(s.insert(list_position(s, x), x)),
        s.insert(list_position(s, x), x).len() == s.len() + 1,
{
    lemma_list_position(s, x);
    let p = list_position(s, x);
    let t = s.insert(p, x);
    assert(t.len() == s.len() + 1);
    assert forall|i: int, j: int| 0 <= i < j < t.len() implies !listed_before(#[trigger] t[j], #[trigger] t[i]) by {
        if j < p {
            assert(t[i] == s[i] && t[j] == s[j]);
        } else if j == p {
            assert(t[j] == x && t[i] == s[i]);
        } else if i < p {
            assert(t[i] == s[i] && t[j] == s[j - 1]);
            assert(!listed_before(s[j - 1], s[i]));
        } else if i == p {
            assert(t[i] == x && t[j] == s[j - 1]);
            if j - 1 > p {
                assert(!listed_before(s[j - 1], s[p]));
            }
        } else {
            assert(t[i] == s[i - 1] && t[j] == s[j - 1]);
        }
    }
}

/// The list order of any bills is newest first.
pub proof fn lemma_listed_newest_first(s: Seq<MergedBillRecord>)
    ensures
        newest_first(listed(s)),
        listed(s).len() == s.len(),
    decreases s.len(),
{
    if s.len() > 0 {
        lemma_listed_newest_first(s.drop_last());
        lemma_insert_keeps_order(listed(s.drop_last()), s.last());
    }
}

proof fn lemma_selected_members(ms: Seq<MergedBillRecord>, identity_id: i64, p: BillQueryParams)
    ensures
        forall|k: int| 0 <= k < selected(ms, identity_id, p).len() ==> ms.contains(#[trigger] selected(ms, identity_id, p)[k]),
    decreases ms.len(),
{
    if ms.len() > 0 {
        lemma_selected_members(ms.drop_last(), identity_id, p);
        let prev = selected(ms.drop_last(), identity_id, p);
        assert forall|k: int| 0 <= k < selected(ms, identity_id, p).len() implies ms.contains(#[trigger] selected(ms, identity_id, p)[k]) by {
            if k < prev.len() {
                assert(selected(ms, identity_id, p)[k] == prev[k]);
                assert(ms.drop_last().contains(prev[k]));
                let q = choose|q: int| 0 <= q < ms.drop_last().len() && ms.drop_last()[q] == prev[k];
                assert(ms[q] == prev[k]);
            } else {
                assert(selected(ms, identity_id, p)[k] == ms.last());
                assert(ms[ms.len() - 1] == ms.last());
            }
        }
    }
}

/// Selecting from a list newest first keeps it newest first.
proof fn lemma_selected_keeps_order(ms: Seq<MergedBillRecord>, identity_id: i64, p: BillQueryParams)
    requires
        newest_first(ms),
    ensures
        newest_first(selected(ms, identity_id, p)),
    decreases ms.len(),
{
    if ms.len() > 0 {
        let prev = selected(ms.drop_last(), identity_id, p);
        assert(newest_first(ms.drop_last())) by {
            assert forall|i: int, j: int| 0 <= i < j < ms.drop_last().len() implies !listed_before(#[trigger] ms.drop_last()[j], #[trigger] ms.drop_last()[i]) by {
                assert(ms.drop_last()[i] == ms[i] && ms.drop_last()[j] == ms[j]);
            }
        }
        lemma_selected_keeps_order(ms.drop_last(), identity_id, p);
        lemma_selected_members(ms.drop_last(), identity_id, p);
        if matches_query(ms.last(), identity_id, p) {
            let t = prev.push(ms.last());
            assert forall|i: int, j: int| 0 <= i < j < t.len() implies !listed_before(#[trigger] t[j], #[trigger] t[i]) by {
                if j < prev.len() {
                    assert(t[i] == prev[i] && t[j] == prev[j]);
                } else {
                    assert(t[j] == ms.last() && t[i] == prev[i]);
                    assert(ms.drop_last().contains(prev[i]));
                    let q = choose|q: int| 0 <= q < ms.drop_last().len() && ms.drop_last()[q] == prev[i];
                    assert(ms[q] == prev[i]);
                    assert(ms[ms.len() - 1] == ms.last());
                }
            }
        }
    }
}

fn before_in_list(a: &MergedBillRecord, b: &MergedBillRecord) -> (r: bool)
    ensures
        r == listed_before(*a, *b),
{
    match (a.timestamp, b.timestamp) {
        (Some(x), Some(y)) => x > y || (x == y && a.id > b.id),
        (Some(_), None) => true,
        (None, Some(_)) => false,
        (None, None) => a.id > b.id,
    }
}

/// Puts bills in list order, see [`listed`].
pub fn list_newest_first(models: Vec<MergedBillRecord>) -> (r: Vec<MergedBillRecord>)
    ensures
        r@ == listed(models@),
        newest_first(r@),
{
    let mut rest = models;
    let ghost all = rest@;
    let n = rest.len();
    let mut out: Vec<MergedBillRecord> = Vec::new();
    let mut i: usize = 0;
    while i < n
        invariant
            i <= n,
            n == all.len(),
            rest@ == all.skip(i as int),
            out@ == listed(all.take(i as int)),
        decreases n - i,
    {
        assert(all.take(i + 1).drop_last() =~= all.take(i as int));
        assert(all.take(i + 1).last() == all[i as int]);
        let m = rest.remove(0);
        assert(rest@ =~= all.skip(i + 1));
        let mut j: usize = 0;
        while j < out.len()
            invariant
                j <= out.len(),
                forall|k: int| 0 <= k < j ==> !listed_before(m, #[trigger] out@[k]),
            ensures
                j <= out.len(),
                forall|k: int| 0 <= k < j ==> !listed_before(m, #[trigger] out@[k]),
                j < out.len() ==> listed_before(m, out@[j as int]),
            decreases out.len() - j,
        {
            if before_in_list(&m, &out[j]) {
                break;
            }
            j = j + 1;
        }
        proof {
            lemma_list_position(out@, m);
            let p = list_position(out@, m);
            if p < j {
                assert(!listed_before(m, out@[p]));
            }
            if p > j {
                assert(!listed_before(m, out@[j as int]));
            }
            assert(p == j);
        }
        out.insert(j, m);
        i = i + 1;
    }
    assert(all.take(n as int) =~= all);
    proof {
        lemma_listed_newest_first(all);
    }
    out
}

/// The identity a query is for, 0 when none.
pub open spec fn query_identity(p: BillQueryParams) -> i64 {
    match p.identity_id {
        Some(id) => id,
        None => 0,
    }
}

/// Page number and size as used: at least 1.
pub open spec fn at_least_one(x: u32) -> u32 {
    if x > 0 { x } else { 1 }
}

/// The bills of page `page` (from 1) of `size` bills each.
pub open spec fn page_of(s: Seq<MergedBillRecord>, page: u32, size: u32) -> Seq<MergedBillRecord> {
    let start = (page - 1) * size;
    let lo = if start < s.len() { start } else { s.len() as int };
    let hi = if start + size < s.len() { start + size } else { s.len() as int };
    s.subrange(lo, hi)
}

/// The answer of the bill list query over the identity's bills, in any order: no
/// identity (none or 0) gives an empty page with the page and size as asked; else the
/// bills are put newest first (by timestamp, then id, both descending), the selected ones
/// are counted and page `page` of `page_size` is returned, both taken as at least 1.
pub fn query_page(models: Vec<MergedBillRecord>, params: &BillQueryParams) -> (r: BillQueryPage)
    requires
        models@.len() <= u32::MAX,
    ensures
        query_identity(*params) == 0 ==> r.items@.len() == 0 && r.total == 0 && r.page == params.page
            && r.page_size == params.page_size,
        query_identity(*params) != 0 ==> r.total == selected(listed(models@), query_identity(*params), *params).len()
            && r.page == at_least_one(params.page) && r.page_size == at_least_one(params.page_size)
            && r.items@ == page_of(selected(listed(models@), query_identity(*params), *params), r.page, r.page_size),
        newest_first(r.items@),
{
    proof {
        lemma_listed_newest_first(models@);
    }
    let models = list_newest_first(models);
    let identity_id: i64 = match params.identity_id {
        Some(id) => id,
        None => 0,
    };
    if identity_id == 0 {
        return BillQueryPage { items: Vec::new(), total: 0, page: params.page, page_size: params.page_size };
    }
    let mut rest = models;
    let ghost all = rest@;
    let n = rest.len();
    let mut sel: Vec<MergedBillRecord> = Vec::new();
    let mut i: usize = 0;
    while i < n
        invariant
            i <= n,
            n == all.len(),
            rest@ == all.skip(i as int),
            sel@ == selected(all.take(i as int), identity_id, *params),
        decreases n - i,
    {
        assert(all.take(i + 1).drop_last() =~= all.take(i as int));
        assert(all.take(i + 1).last() == all[i as int]);
        let m = rest.remove(0);
        assert(rest@ =~= all.skip(i + 1));
        if bill_matches_query(&m, identity_id, params) {
            sel.push(m);
        }
        i = i + 1;
    }
    assert(all.take(n as int) =~= all);
    proof {
        lemma_selected_len(all, identity_id, *params);
    }
    let page: u32 = if params.page > 0 { params.page } else { 1 };
    let size: u32 = if params.page_size > 0 { params.page_size } else { 1 };
    let total: u32 = sel.len() as u32;
    let pm: u64 = page as u64 - 1;
    let sz: u64 = size as u64;
    assert(pm * sz <= 0xffff_ffffu64 * 0xffff_ffffu64) by (nonlinear_arith)
        requires
            pm <= 0xffff_ffffu64,
            sz <= 0xffff_ffffu64,
    ;
    let start: u64 = pm * sz;
    let len: u64 = sel.len() as u64;
    let lo: u64 = if start < len { start } else { len };
    let hi: u64 = if start + size as u64 <= len { start + size as u64 } else { len };
    let ghost sv = sel@;
    let mut items: Vec<MergedBillRecord> = Vec::new();
    let mut rest2 = sel;
    let mut k: u64 = 0;
    while k < hi
        invariant
            lo <= hi <= len,
            len == sv.len(),
            k <= hi,
            k <= lo ==> items@.len() == 0,
            k >= lo ==> items@ == sv.subrange(lo as int, k as int),
            rest2@ == sv.skip(k as int),
        decreases hi - k,
    {
        let m = rest2.remove(0);
        assert(rest2@ =~= sv.skip(k + 1));
        if k >= lo {
            let ghost before = items@;
            items.push(m);
            assert(items@ =~= sv.subrange(lo as int, k + 1));
        }
        k = k + 1;
    }
    assert(items@ =~= sv.subrange(lo as int, hi as int));
    proof {
        lemma_selected_keeps_order(all, identity_id, *params);
        assert forall|a: int, b: int| 0 <= a < b < items@.len() implies !listed_before(#[trigger] items@[b], #[trigger] items@[a]) by {
            assert(items@[a] == sv[lo + a] && items@[b] == sv[lo + b]);
        }
    }
    BillQueryPage { items, total, page, page_size: size }
}

} // verus!
