//! Bill records and the in-memory rules of the bill store: completeness ranking,
//! de-duplication by transaction number, metadata back-filling and the set of known numbers.
use vstd::prelude::*;

use crate::numbers::{
    candidate_bill_numbers, candidate_numbers, normalize_item_type, normalize_number,
    normalize_number_list_json, normalized_item_type, normalized_list_json, normalized_number, opt_slice_view, opt_str_view, strings_view,
    json_of_string_list, string_list_to_json, numbers_from_fields, normalized_numbers_from_fields,
};
use crate::error::{concat_str, AppError, AppResult};
use crate::models::{operation_text, OperationLogRow, OperationType};
use crate::text::{chars_of, digits, digits_only, is_blank, push_str, signed_decimal, signed_decimal_string, str_eq, string_from_chars, trim, trim_str};

verus! {

/// A merged bill of an identity, as stored. The amount is held as the bit pattern of its
/// `f64` value.
#[derive(Debug, Clone)]
pub struct MergedBillRecord {
    pub id: i64,
    pub identity_id: i64,
    pub date_str: String,
    pub time_str: String,
    pub time_str_formatted: Option<String>,
    pub date_time_formatted: Option<String>,
    pub end_date_time_formatted: Option<String>,
    pub timestamp: Option<i64>,
    pub end_timestamp: Option<i64>,
    pub item_type: Option<String>,
    pub number: Option<String>,
    pub number_list: Option<String>,
    pub target_user: Option<String>,
    pub money_str: Option<String>,
    pub money_bits: Option<u64>,
    pub method: Option<String>,
    pub status_str: Option<String>,
    pub is_combined: bool,
    pub source_account_id: Option<String>,
    pub is_manual: bool,
    pub position: Option<String>,
    pub room: Option<String>,
    pub category: Option<String>,
    pub notes: Option<String>,
    pub synced_at: Option<String>,
}

/// An original bill of an account, as stored. The amount is held as the bit pattern of its
/// `f64` value.
#[derive(Debug, Clone)]
pub struct OriginalBillRecord {
    pub id: i64,
    pub date_str: String,
    pub time_str: String,
    pub time_str_formatted: Option<String>,
    pub date_time_formatted: Option<String>,
    pub end_date_time_formatted: Option<String>,
    pub timestamp: Option<i64>,
    pub end_timestamp: Option<i64>,
    pub item_type: Option<String>,
    pub number: Option<String>,
    pub number_list: Option<String>,
    pub target_user: Option<String>,
    pub money_str: Option<String>,
    pub money_bits: Option<u64>,
    pub method: Option<String>,
    pub status_str: Option<String>,
    pub is_combined: bool,
    pub account_id: String,
    pub synced_at: Option<String>,
}

/// A bill as fetched from the campus platform. The amount is held as the bit pattern of
/// its `f64` value.
#[derive(Debug, Clone)]
pub struct SyncedBill {
    pub date_str: String,
    pub time_str: String,
    pub time_str_formatted: String,
    pub date_time_formatted: String,
    pub end_date_time_formatted: String,
    pub timestamp: i64,
    pub end_timestamp: i64,
    pub item_type: String,
    pub number: String,
    pub number_list: Vec<String>,
    pub target_user: String,
    pub money_str: String,
    pub money_bits: u64,
    pub method: String,
    pub status_str: String,
    pub is_combined: bool,
}

/// 1 when the field holds text that is not blank, else 0.
pub open spec fn filled(value: Option<String>) -> int {
    match value {
        Some(s) => if !is_blank(s@) { 1 } else { 0 },
        None => 0,
    }
}

/// Whether an optional field holds text that is not blank, scored 1 or 0.
pub fn option_filled_score(value: &Option<String>) -> (r: i32)
    ensures
        r == filled(*value),
{
    match value {
        Some(s) => {
            let t = trim_str(s.as_str());
            if crate::text::str_is_empty(t.as_str()) { 0 } else { 1 }
        },
        None => 0,
    }
}

/// Completeness of a merged bill: one point per filled field among number, position,
/// room, notes, counterparty, item type, sync time and source account.
pub open spec fn merged_completeness(m: MergedBillRecord) -> int {
    filled(m.number) + filled(m.position) + filled(m.room) + filled(m.notes) + filled(m.target_user)
        + filled(m.item_type) + filled(m.synced_at) + filled(m.source_account_id)
}

/// Completeness of an original bill over number, counterparty, item type and sync time.
pub open spec fn original_completeness(m: OriginalBillRecord) -> int {
    filled(m.number) + filled(m.target_user) + filled(m.item_type) + filled(m.synced_at)
}

/// Keep rank of a merged bill: (completeness, notes bonus, id). Ranks are compared by
/// [`preferred`], not as tuples: the higher completeness, then the notes bonus, and of
/// equally complete records the one with the smaller id (the earlier one) is kept.
pub fn merged_keep_rank(model: &MergedBillRecord) -> (r: (i32, i32, i64))
    ensures
        r.0 == merged_completeness(*model),
        r.1 == filled(model.notes),
        r.2 == model.id,
{
    let completeness = option_filled_score(&model.number) + option_filled_score(&model.position)
        + option_filled_score(&model.room) + option_filled_score(&model.notes)
        + option_filled_score(&model.target_user) + option_filled_score(&model.item_type)
        + option_filled_score(&model.synced_at) + option_filled_score(&model.source_account_id);
    let note_bonus = option_filled_score(&model.notes);
    (completeness, note_bonus, model.id)
}

/// Keep rank of an original bill: (completeness, id). As with merged bills, the higher
/// completeness is kept, and of equally complete records the one with the smaller id.
pub fn original_keep_rank(model: &OriginalBillRecord) -> (r: (i32, i64))
    ensures
        r.0 == original_completeness(*model),
        r.1 == model.id,
{
    let completeness = option_filled_score(&model.number) + option_filled_score(
        &model.target_user,
    ) + option_filled_score(&model.item_type) + option_filled_score(&model.synced_at);
    (completeness, model.id)
}

/// A record reduced to what de-duplication reads: its score pair and its id.
pub type Rank = (int, int, int);

/// `a` is kept in preference to `b`: a higher score, or an equal score and a smaller id.
pub open spec fn preferred(a: Rank, b: Rank) -> bool {
    a.0 > b.0 || (a.0 == b.0 && (a.1 > b.1 || (a.1 == b.1 && a.2 < b.2)))
}

/// Index of the record kept from a group: the first most preferred one.
pub open spec fn keeper(rs: Seq<Rank>) -> int
    decreases rs.len(),
{
    if rs.len() <= 1 {
        0
    } else {
        let k = keeper(rs.drop_last());
        if preferred(rs.last(), rs[k]) { rs.len() - 1 } else { k }
    }
}

/// Ids of the first `n` records except the one at index `k`, in order.
pub open spec fn ids_except(rs: Seq<Rank>, k: int, n: int) -> Seq<int>
    decreases n,
{
    if n <= 0 {
        Seq::empty()
    } else if n - 1 == k {
        ids_except(rs, k, n - 1)
    } else {
        ids_except(rs, k, n - 1).push(rs[n - 1].2)
    }
}

/// Ids to delete from a group of records sharing a number: all but the kept one.
pub open spec fn duplicate_ids(rs: Seq<Rank>) -> Seq<int> {
    if rs.len() <= 1 {
        Seq::empty()
    } else {
        ids_except(rs, keeper(rs), rs.len() as int)
    }
}

proof fn lemma_keeper_bounds(rs: Seq<Rank>)
    requires
        rs.len() >= 1,
    ensures
        0 <= keeper(rs) < rs.len(),
        forall|j: int| 0 <= j < rs.len() && j != keeper(rs) ==> !preferred(rs[j], rs[keeper(rs)]),
    decreases rs.len(),
{
    if rs.len() > 1 {
        let p = rs.drop_last();
        lemma_keeper_bounds(p);
        let k = keeper(p);
        assert forall|j: int| 0 <= j < rs.len() && j != keeper(rs) implies !preferred(rs[j], rs[keeper(rs)]) by {
            if j < rs.len() - 1 {
                assert(rs[j] == p[j]);
                if j != k {
                    assert(!preferred(p[j], p[k]));
                }
            }
        }
    }
}

/// The kept record of a group is at least as preferred as every other one, and all other
/// ids are deleted: the group shrinks to exactly one record.
pub proof fn lemma_dedupe_keeps_one(rs: Seq<Rank>)
    requires
        rs.len() >= 1,
    ensures
        0 <= keeper(rs) < rs.len(),
        forall|j: int| 0 <= j < rs.len() && j != keeper(rs) ==> !preferred(rs[j], rs[keeper(rs)]),
        duplicate_ids(rs).len() == rs.len() - 1,
{
    lemma_keeper_bounds(rs);
    if rs.len() > 1 {
        lemma_ids_except_len(rs, keeper(rs), rs.len() as int);
    }
}

/// Of duplicates equally complete (and equal in notes), the record with the smaller id is
/// never the one deleted in favour of the larger: the later record is not kept over an
/// earlier one.
pub proof fn lemma_ties_keep_earlier(ms: Seq<MergedBillRecord>, i: int, j: int)
    requires
        0 <= i < ms.len(),
        0 <= j < ms.len(),
        merged_completeness(ms[i]) == merged_completeness(ms[j]),
        filled(ms[i].notes) == filled(ms[j].notes),
        ms[i].id < ms[j].id,
    ensures
        keeper(merged_ranks(ms)) != j,
{
    let rs = merged_ranks(ms);
    lemma_keeper_bounds(rs);
    assert(rs[i] == (merged_completeness(ms[i]), filled(ms[i].notes), ms[i].id as int));
    assert(rs[j] == (merged_completeness(ms[j]), filled(ms[j].notes), ms[j].id as int));
    assert(preferred(rs[i], rs[j]));
}

proof fn lemma_ids_except_len(rs: Seq<Rank>, k: int, n: int)
    requires
        0 <= k < n <= rs.len(),
    ensures
        ids_except(rs, k, n).len() == n - 1,
    decreases n,
{
    if n - 1 != k {
        lemma_ids_except_len(rs, k, n - 1);
        assert(ids_except(rs, k, n) == ids_except(rs, k, n - 1).push(rs[n - 1].2));
    } else {
        lemma_ids_except_len0(rs, k, n - 1);
        assert(ids_except(rs, k, n) == ids_except(rs, k, n - 1));
    }
}

proof fn lemma_ids_except_len0(rs: Seq<Rank>, k: int, n: int)
    requires
        0 <= n <= k,
        n <= rs.len(),
    ensures
        ids_except(rs, k, n).len() == n,
    decreases n,
{
    if n > 0 {
        lemma_ids_except_len0(rs, k, n - 1);
    }
}

/// The spec rank of an executable rank triple.
pub open spec fn rank_of(r: (i32, i32, i64)) -> Rank {
    (r.0 as int, r.1 as int, r.2 as int)
}

/// Ranks of a sequence of executable rank triples.
pub open spec fn ranks_of(rs: Seq<(i32, i32, i64)>) -> Seq<Rank> {
    rs.map_values(|r: (i32, i32, i64)| rank_of(r))
}

/// Ids of the records of one group that are to be deleted, see [`duplicate_ids`].
pub fn duplicate_ids_of_ranks(rs: &Vec<(i32, i32, i64)>) -> (r: Vec<i64>)
    ensures
        r@.map_values(|x: i64| x as int) == duplicate_ids(ranks_of(rs@)),
{
    let ghost rv = ranks_of(rs@);
    if rs.len() <= 1 {
        let r: Vec<i64> = Vec::new();
        assert(r@.map_values(|x: i64| x as int) =~= Seq::<int>::empty());
        return r;
    }
    let mut k: usize = 0;
    let mut i: usize = 1;
    assert(rv.take(1).len() == 1);
    while i < rs.len()
        invariant
            1 <= i <= rs.len(),
            rv == ranks_of(rs@),
            k < i,
            k == keeper(rv.take(i as int)),
        decreases rs.len() - i,
    {
        assert(rv.take(i + 1).drop_last() =~= rv.take(i as int));
        let (a0, a1, a2) = rs[i];
        let (b0, b1, b2) = rs[k];
        assert(rv.take(i + 1).last() == rank_of(rs@[i as int]));
        assert(rv.take(i + 1)[k as int] == rank_of(rs@[k as int]));
        if a0 > b0 || (a0 == b0 && (a1 > b1 || (a1 == b1 && a2 < b2))) {
            k = i;
        }
        i = i + 1;
    }
    assert(rv.take(rs.len() as int) =~= rv);
    let mut out: Vec<i64> = Vec::new();
    let mut j: usize = 0;
    while j < rs.len()
        invariant
            j <= rs.len(),
            rv == ranks_of(rs@),
            rs.len() > 1,
            k == keeper(rv),
            out@.map_values(|x: i64| x as int) == ids_except(rv, k as int, j as int),
        decreases rs.len() - j,
    {
        if j != k {
            let ghost before = out@;
            out.push(rs[j].2);
            assert(out@.map_values(|x: i64| x as int) =~= before.map_values(|x: i64| x as int).push(
                rv[j as int].2,
            ));
        }
        j = j + 1;
    }
    out
}

/// Ranks of merged records.
pub open spec fn merged_ranks(ms: Seq<MergedBillRecord>) -> Seq<Rank> {
    ms.map_values(|m: MergedBillRecord| (merged_completeness(m), filled(m.notes), m.id as int))
}

/// Ranks of original records (no notes bonus).
pub open spec fn original_ranks(ms: Seq<OriginalBillRecord>) -> Seq<Rank> {
    ms.map_values(|m: OriginalBillRecord| (original_completeness(m), 0int, m.id as int))
}

/// Of merged records sharing one transaction number, the ids to delete: all but the most
/// complete record (ties keep the smaller id), in input order.
pub fn duplicate_merged_ids(models: Vec<MergedBillRecord>) -> (r: Vec<i64>)
    ensures
        r@.map_values(|x: i64| x as int) == duplicate_ids(merged_ranks(models@)),
{
    let mut ranks: Vec<(i32, i32, i64)> = Vec::new();
    let mut i: usize = 0;
    while i < models.len()
        invariant
            i <= models.len(),
            ranks_of(ranks@) == merged_ranks(models@).take(i as int),
        decreases models.len() - i,
    {
        let rk = merged_keep_rank(&models[i]);
        let ghost before = ranks@;
        ranks.push(rk);
        assert(ranks_of(ranks@) =~= ranks_of(before).push(rank_of(rk)));
        i = i + 1;
        assert(ranks_of(ranks@) =~= merged_ranks(models@).take(i as int));
    }
    assert(merged_ranks(models@).take(models.len() as int) =~= merged_ranks(models@));
    duplicate_ids_of_ranks(&ranks)
}

/// Of original records sharing one transaction number, the ids to delete: all but the most
/// complete record (ties keep the smaller id), in input order.
pub fn duplicate_original_ids(models: Vec<OriginalBillRecord>) -> (r: Vec<i64>)
    ensures
        r@.map_values(|x: i64| x as int) == duplicate_ids(original_ranks(models@)),
{
    let mut ranks: Vec<(i32, i32, i64)> = Vec::new();
    let mut i: usize = 0;
    while i < models.len()
        invariant
            i <= models.len(),
            ranks_of(ranks@) == original_ranks(models@).take(i as int),
        decreases models.len() - i,
    {
        let (c, id) = original_keep_rank(&models[i]);
        let ghost before = ranks@;
        ranks.push((c, 0, id));
        assert(ranks_of(ranks@) =~= ranks_of(before).push(rank_of((c, 0i32, id))));
        i = i + 1;
        assert(ranks_of(ranks@) =~= original_ranks(models@).take(i as int));
    }
    assert(original_ranks(models@).take(models.len() as int) =~= original_ranks(models@));
    duplicate_ids_of_ranks(&ranks)
}

/// The de-duplication key of a record: the digits of its number, when there are any.
pub open spec fn number_key(number: Option<String>) -> Option<Seq<char>> {
    match number {
        Some(n) => if digits(n@).len() > 0 { Some(digits(n@)) } else { None },
        None => None,
    }
}

/// The distinct keys, in order of first occurrence.
pub open spec fn distinct_keys(keys: Seq<Option<Seq<char>>>) -> Seq<Seq<char>>
    decreases keys.len(),
{
    if keys.len() == 0 {
        Seq::empty()
    } else {
        let prev = distinct_keys(keys.drop_last());
        match keys.last() {
            Some(k) => if prev.contains(k) { prev } else { prev.push(k) },
            None => prev,
        }
    }
}

/// No key occurs twice among the distinct keys, and each occurs among the keys.
pub proof fn lemma_distinct_keys(keys: Seq<Option<Seq<char>>>)
    ensures
        distinct_keys(keys).no_duplicates(),
        forall|i: int| 0 <= i < keys.len() && keys[i] is Some ==> distinct_keys(keys).contains(#[trigger] keys[i]->0),
        forall|j: int| 0 <= j < distinct_keys(keys).len() ==> keys.contains(Some(#[trigger] distinct_keys(keys)[j])),
    decreases keys.len(),
{
    if keys.len() > 0 {
        let prev = distinct_keys(keys.drop_last());
        lemma_distinct_keys(keys.drop_last());
        assert forall|i: int| 0 <= i < keys.len() && keys[i] is Some implies distinct_keys(keys).contains(#[trigger] keys[i]->0) by {
            if i < keys.len() - 1 {
                assert(keys.drop_last()[i] == keys[i]);
                let j = choose|j: int| 0 <= j < prev.len() && prev[j] == keys[i]->0;
                match keys.last() {
                    Some(k) => {
                        if !prev.contains(k) {
                            assert(prev.push(k)[j] == prev[j]);
                        }
                    },
                    None => {},
                }
            } else {
                match keys.last() {
                    Some(k) => {
                        if !prev.contains(k) {
                            assert(prev.push(k)[prev.len() as int] == k);
                        }
                    },
                    None => {},
                }
            }
        }
        assert forall|j: int| 0 <= j < distinct_keys(keys).len() implies keys.contains(Some(#[trigger] distinct_keys(keys)[j])) by {
            if j < prev.len() {
                assert(distinct_keys(keys)[j] == prev[j]);
                let i = choose|i: int| 0 <= i < keys.drop_last().len() && keys.drop_last()[i] == Some(prev[j]);
                assert(keys[i] == Some(prev[j]));
            } else {
                assert(keys[keys.len() - 1] == Some(distinct_keys(keys)[j]));
            }
        }
    }
}

/// Ranks of the records whose key is `k`, in order.
pub open spec fn group_ranks(keys: Seq<Option<Seq<char>>>, ranks: Seq<Rank>, k: Seq<char>) -> Seq<Rank>
    decreases keys.len(),
{
    if keys.len() == 0 || ranks.len() == 0 {
        Seq::empty()
    } else {
        let prev = group_ranks(keys.drop_last(), ranks.drop_last(), k);
        if keys.last() == Some(k) { prev.push(ranks.last()) } else { prev }
    }
}

/// Ids to delete for the groups of the first keys in `ks`, group after group.
pub open spec fn plan_for(ks: Seq<Seq<char>>, keys: Seq<Option<Seq<char>>>, ranks: Seq<Rank>) -> Seq<int>
    decreases ks.len(),
{
    if ks.len() == 0 {
        Seq::empty()
    } else {
        plan_for(ks.drop_last(), keys, ranks) + duplicate_ids(group_ranks(keys, ranks, ks.last()))
    }
}

/// Ids to delete so that each transaction number keeps one record: for each number, in order
/// of first occurrence, all records of its group but the kept one.
pub open spec fn dedupe_plan(keys: Seq<Option<Seq<char>>>, ranks: Seq<Rank>) -> Seq<int> {
    plan_for(distinct_keys(keys), keys, ranks)
}

fn key_of(number: &Option<String>) -> (r: Option<String>)
    ensures
        opt_str_view(r) == number_key(*number),
{
    match number {
        Some(n) => {
            let d = digits_only(n.as_str());
            if crate::text::str_is_empty(d.as_str()) { None } else { Some(d) }
        },
        None => None,
    }
}

fn seq_contains_key(ks: &Vec<String>, k: &String) -> (b: bool)
    ensures
        b == strings_view(ks@).contains(k@),
{
    let mut i: usize = 0;
    while i < ks.len()
        invariant
            i <= ks.len(),
            forall|j: int| 0 <= j < i ==> ks@[j]@ != k@,
        decreases ks.len() - i,
    {
        if str_eq(ks[i].as_str(), k.as_str()) {
            assert(strings_view(ks@)[i as int] == k@);
            return true;
        }
        i = i + 1;
    }
    proof {
        if strings_view(ks@).contains(k@) {
            let j = choose|j: int| 0 <= j < strings_view(ks@).len() && strings_view(ks@)[j] == k@;
            assert(ks@[j]@ == k@);
        }
    }
    false
}

/// Views of optional keys.
pub open spec fn keys_view(keys: Seq<Option<String>>) -> Seq<Option<Seq<char>>> {
    keys.map_values(|k: Option<String>| opt_str_view(k))
}

fn opt_key_eq(a: &Option<String>, k: &String) -> (b: bool)
    ensures
        b == (opt_str_view(*a) == Some(k@)),
{
    match a {
        Some(x) => str_eq(x.as_str(), k.as_str()),
        None => false,
    }
}

/// Ids to delete, see [`dedupe_plan`].
pub fn dedupe_plan_exec(keys: &Vec<Option<String>>, ranks: &Vec<(i32, i32, i64)>) -> (r: Vec<i64>)
    requires
        keys.len() == ranks.len(),
    ensures
        r@.map_values(|x: i64| x as int) == dedupe_plan(keys_view(keys@), ranks_of(ranks@)),
{
    let ghost kv = keys_view(keys@);
    let ghost rv = ranks_of(ranks@);
    let mut distinct: Vec<String> = Vec::new();
    let mut i: usize = 0;
    while i < keys.len()
        invariant
            i <= keys.len(),
            kv == keys_view(keys@),
            strings_view(distinct@) == distinct_keys(kv.take(i as int)),
        decreases keys.len() - i,
    {
        assert(kv.take(i + 1).drop_last() =~= kv.take(i as int));
        assert(kv.take(i + 1).last() == opt_str_view(keys@[i as int]));
        match &keys[i] {
            Some(k) => {
                if !seq_contains_key(&distinct, k) {
                    let ghost before = distinct@;
                    distinct.push(k.clone());
                    assert(strings_view(distinct@) =~= strings_view(before).push(k@));
                }
            },
            None => {},
        }
        i = i + 1;
    }
    assert(kv.take(keys.len() as int) =~= kv);
    let ghost ks = strings_view(distinct@);
    let mut out: Vec<i64> = Vec::new();
    let mut g: usize = 0;
    while g < distinct.len()
        invariant
            g <= distinct.len(),
            keys.len() == ranks.len(),
            kv == keys_view(keys@),
            rv == ranks_of(ranks@),
            ks == strings_view(distinct@),
            ks == distinct_keys(kv),
            out@.map_values(|x: i64| x as int) == plan_for(ks.take(g as int), kv, rv),
        decreases distinct.len() - g,
    {
        let k = &distinct[g];
        let mut group: Vec<(i32, i32, i64)> = Vec::new();
        let mut j: usize = 0;
        while j < keys.len()
            invariant
                j <= keys.len(),
                keys.len() == ranks.len(),
                kv == keys_view(keys@),
                rv == ranks_of(ranks@),
                ranks_of(group@) == group_ranks(kv.take(j as int), rv.take(j as int), k@),
            decreases keys.len() - j,
        {
            assert(kv.take(j + 1).drop_last() =~= kv.take(j as int));
            assert(rv.take(j + 1).drop_last() =~= rv.take(j as int));
            assert(kv.take(j + 1).last() == opt_str_view(keys@[j as int]));
            assert(rv.take(j + 1).last() == rank_of(ranks@[j as int]));
            if opt_key_eq(&keys[j], k) {
                let ghost before = group@;
                group.push(ranks[j]);
                assert(ranks_of(group@) =~= ranks_of(before).push(rank_of(ranks@[j as int])));
            }
            j = j + 1;
        }
        assert(kv.take(keys.len() as int) =~= kv);
        assert(rv.take(keys.len() as int) =~= rv);
        let mut ids = duplicate_ids_of_ranks(&group);
        let ghost before = out@;
        let ghost idv = ids@;
        out.append(&mut ids);
        assert(out@ == before + idv);
        assert(out@.map_values(|x: i64| x as int) =~= before.map_values(|x: i64| x as int)
            + idv.map_values(|x: i64| x as int));
        assert(ks.take(g + 1).drop_last() =~= ks.take(g as int));
        assert(ks.take(g + 1).last() == k@);
        g = g + 1;
    }
    assert(ks.take(distinct.len() as int) =~= ks);
    out
}

/// Keys of merged records.
pub open spec fn merged_keys(ms: Seq<MergedBillRecord>) -> Seq<Option<Seq<char>>> {
    ms.map_values(|m: MergedBillRecord| number_key(m.number))
}

/// Keys of original records.
pub open spec fn original_keys(ms: Seq<OriginalBillRecord>) -> Seq<Option<Seq<char>>> {
    ms.map_values(|m: OriginalBillRecord| number_key(m.number))
}

/// Ids of merged records to delete so that every transaction number keeps exactly its most
/// complete record; records without digits in their number are never deleted.
pub fn merged_duplicates_by_number(models: &Vec<MergedBillRecord>) -> (r: Vec<i64>)
    ensures
        r@.map_values(|x: i64| x as int) == dedupe_plan(merged_keys(models@), merged_ranks(models@)),
{
    let mut keys: Vec<Option<String>> = Vec::new();
    let mut ranks: Vec<(i32, i32, i64)> = Vec::new();
    let mut i: usize = 0;
    while i < models.len()
        invariant
            i <= models.len(),
            keys.len() == i,
            ranks.len() == i,
            keys_view(keys@) == merged_keys(models@).take(i as int),
            ranks_of(ranks@) == merged_ranks(models@).take(i as int),
        decreases models.len() - i,
    {
        let ghost kb = keys@;
        let ghost rb = ranks@;
        keys.push(key_of(&models[i].number));
        ranks.push(merged_keep_rank(&models[i]));
        i = i + 1;
        assert(keys_view(keys@) =~= merged_keys(models@).take(i as int));
        assert(ranks_of(ranks@) =~= merged_ranks(models@).take(i as int));
    }
    assert(merged_keys(models@).take(models.len() as int) =~= merged_keys(models@));
    assert(merged_ranks(models@).take(models.len() as int) =~= merged_ranks(models@));
    dedupe_plan_exec(&keys, &ranks)
}

/// Ids of original records to delete so that every transaction number keeps exactly its
/// most complete record; records without digits in their number are never deleted.
pub fn original_duplicates_by_number(models: &Vec<OriginalBillRecord>) -> (r: Vec<i64>)
    ensures
        r@.map_values(|x: i64| x as int) == dedupe_plan(original_keys(models@), original_ranks(models@)),
{
    let mut keys: Vec<Option<String>> = Vec::new();
    let mut ranks: Vec<(i32, i32, i64)> = Vec::new();
    let mut i: usize = 0;
    while i < models.len()
        invariant
            i <= models.len(),
            keys.len() == i,
            ranks.len() == i,
            keys_view(keys@) == original_keys(models@).take(i as int),
            ranks_of(ranks@) == original_ranks(models@).take(i as int),
        decreases models.len() - i,
    {
        keys.push(key_of(&models[i].number));
        let (c, id) = original_keep_rank(&models[i]);
        ranks.push((c, 0, id));
        i = i + 1;
        assert(keys_view(keys@) =~= original_keys(models@).take(i as int));
        assert(ranks_of(ranks@) =~= original_ranks(models@).take(i as int));
    }
    assert(original_keys(models@).take(models.len() as int) =~= original_keys(models@));
    assert(original_ranks(models@).take(models.len() as int) =~= original_ranks(models@));
    dedupe_plan_exec(&keys, &ranks)
}

/// Candidate numbers of a synced bill.
pub open spec fn bill_candidates(b: SyncedBill) -> Seq<Seq<char>> {
    candidate_numbers(strings_view(b.number_list@), b.number@)
}

/// The bill has candidate numbers and one of them is already known.
pub open spec fn already_known(known: Set<Seq<char>>, ns: Seq<Seq<char>>) -> bool {
    ns.len() > 0 && exists|i: int| 0 <= i < ns.len() && known.contains(#[trigger] ns[i])
}

/// Known numbers and pending bills after merging `bills`, one after the other: a bill
/// with an already known number is dropped; any other bill is kept and its numbers
/// become known.
pub open spec fn merge_all(known: Set<Seq<char>>, pending: Seq<SyncedBill>, bills: Seq<SyncedBill>) -> (Set<Seq<char>>, Seq<SyncedBill>)
    decreases bills.len(),
{
    if bills.len() == 0 {
        (known, pending)
    } else {
        let (k, p) = merge_all(known, pending, bills.drop_last());
        let ns = bill_candidates(bills.last());
        if already_known(k, ns) {
            (k, p)
        } else {
            (k.union(ns.to_set()), p.push(bills.last()))
        }
    }
}

/// The in-memory side of the bill store of one account: the transaction numbers already
/// stored and the new bills waiting to be written.
pub struct BillStoreImpl {
    account_id: String,
    identity_id: i64,
    known_numbers: Vec<String>,
    pending_bills: Vec<SyncedBill>,
}

impl BillStoreImpl {
    /// The known transaction numbers.
    pub closed spec fn known(&self) -> Set<Seq<char>> {
        strings_view(self.known_numbers@).to_set()
    }

    /// The bills waiting to be written, in order.
    pub closed spec fn pending(&self) -> Seq<SyncedBill> {
        self.pending_bills@
    }

    /// The account the store belongs to.
    pub closed spec fn account(&self) -> Seq<char> {
        self.account_id@
    }

    /// The identity the store belongs to.
    pub closed spec fn identity(&self) -> i64 {
        self.identity_id
    }

    /// A store for an account and identity that knows the given numbers.
    pub fn new(account_id: &str, identity_id: i64, known_numbers: Vec<String>) -> (s: Self)
        ensures
            s.known() == strings_view(known_numbers@).to_set(),
            s.pending() == Seq::<SyncedBill>::empty(),
            s.account() == account_id@,
            s.identity() == identity_id,
    {
        BillStoreImpl {
            account_id: account_id.to_string(),
            identity_id,
            known_numbers,
            pending_bills: Vec::new(),
        }
    }

    /// The account id.
    pub fn account_id(&self) -> (r: &str)
        ensures
            r@ == self.account(),
    {
        self.account_id.as_str()
    }

    /// The identity id.
    pub fn identity_id(&self) -> (r: i64)
        ensures
            r == self.identity(),
    {
        self.identity_id
    }

    /// The number is already known.
    pub fn contains(&self, number: &str) -> (b: bool)
        ensures
            b == self.known().contains(number@),
    {
        let mut i: usize = 0;
        while i < self.known_numbers.len()
            invariant
                i <= self.known_numbers.len(),
                forall|j: int| 0 <= j < i ==> self.known_numbers@[j]@ != number@,
            decreases self.known_numbers.len() - i,
        {
            if str_eq(self.known_numbers[i].as_str(), number) {
                assert(strings_view(self.known_numbers@)[i as int] == number@);
                return true;
            }
            i = i + 1;
        }
        proof {
            if self.known().contains(number@) {
                let j = choose|j: int| 0 <= j < strings_view(self.known_numbers@).len() && strings_view(self.known_numbers@)[j] == number@;
                assert(self.known_numbers@[j]@ == number@);
            }
        }
        false
    }

    fn insert_number(&mut self, number: String)
        ensures
            final(self).known() == old(self).known().insert(number@),
            final(self).pending() == old(self).pending(),
            final(self).account() == old(self).account(),
            final(self).identity() == old(self).identity(),
    {
        let ghost before = strings_view(self.known_numbers@);
        self.known_numbers.push(number);
        assert(strings_view(self.known_numbers@) =~= before.push(number@));
        proof {
            before.lemma_push_to_set_commute(number@);
        }
    }

    /// Merges newly fetched bills: a bill one of whose numbers is already known is a
    /// duplicate and dropped; every other bill is queued and its numbers become known.
    pub fn merge(&mut self, new_bills: Vec<SyncedBill>)
        ensures
            (final(self).known(), final(self).pending()) == merge_all(old(self).known(), old(self).pending(), new_bills@),
            final(self).account() == old(self).account(),
            final(self).identity() == old(self).identity(),
    {
        let mut bills = new_bills;
        let ghost all = bills@;
        let n = bills.len();
        let mut i: usize = 0;
        while i < n
            invariant
                i <= n,
                n == all.len(),
                bills@ == all.skip(i as int),
                (self.known(), self.pending()) == merge_all(old(self).known(), old(self).pending(), all.take(i as int)),
                self.account() == old(self).account(),
                self.identity() == old(self).identity(),
            decreases n - i,
        {
            assert(all.take(i + 1).drop_last() =~= all.take(i as int));
            assert(all.take(i + 1).last() == all[i as int]);
            let bill = bills.remove(0);
            assert(bills@ =~= all.skip(i + 1));
            let numbers = candidate_bill_numbers(&bill.number_list, bill.number.as_str());
            let ghost ns = strings_view(numbers@);
            let mut dup = false;
            let mut j: usize = 0;
            while j < numbers.len()
                invariant
                    j <= numbers.len(),
                    ns == strings_view(numbers@),
                    dup == exists|t: int| 0 <= t < j && self.known().contains(#[trigger] ns[t]),
                decreases numbers.len() - j,
            {
                assert(ns[j as int] == numbers@[j as int]@);
                if self.contains(numbers[j].as_str()) {
                    dup = true;
                    assert(self.known().contains(ns[j as int]));
                } else {
                    assert forall|t: int| 0 <= t < j + 1 && self.known().contains(#[trigger] ns[t]) implies 0 <= t < j by {
                    }
                }
                j = j + 1;
            }
            if numbers.len() > 0 && dup {
            } else {
                let ghost k0 = self.known();
                let mut t: usize = 0;
                assert(ns.take(0).to_set() =~= Set::<Seq<char>>::empty());
                while t < numbers.len()
                    invariant
                        t <= numbers.len(),
                        ns == strings_view(numbers@),
                        self.known() == k0.union(ns.take(t as int).to_set()),
                        self.pending() == merge_all(old(self).known(), old(self).pending(), all.take(i as int)).1,
                        self.account() == old(self).account(),
                        self.identity() == old(self).identity(),
                        self.pending_bills@ == self.pending(),
                    decreases numbers.len() - t,
                {
                    let ghost kb = self.known();
                    self.insert_number(numbers[t].clone());
                    assert(ns.take(t + 1) =~= ns.take(t as int).push(ns[t as int]));
                    assert(ns[t as int] == numbers@[t as int]@);
                    proof {
                        ns.take(t as int).lemma_push_to_set_commute(ns[t as int]);
                    }
                    assert(k0.union(ns.take(t + 1).to_set()) =~= kb.insert(ns[t as int]));
                    t = t + 1;
                }
                assert(ns.take(numbers.len() as int) =~= ns);
                self.pending_bills.push(bill);
            }
            i = i + 1;
        }
        assert(all.take(n as int) =~= all);
    }

    /// Hands out the queued bills and empties the queue.
    pub fn take_pending(&mut self) -> (r: Vec<SyncedBill>)
        ensures
            r@ == old(self).pending(),
            final(self).pending() == Seq::<SyncedBill>::empty(),
            final(self).known() == old(self).known(),
            final(self).account() == old(self).account(),
            final(self).identity() == old(self).identity(),
    {
        let mut out: Vec<SyncedBill> = Vec::new();
        std::mem::swap(&mut out, &mut self.pending_bills);
        out
    }
}

/// Merging never forgets a known number.
pub proof fn lemma_merge_known_grows(known: Set<Seq<char>>, pending: Seq<SyncedBill>, bills: Seq<SyncedBill>)
    ensures
        known.subset_of(merge_all(known, pending, bills).0),
        pending.len() <= merge_all(known, pending, bills).1.len(),
        merge_all(known, pending, bills).1.take(pending.len() as int) == pending,
    decreases bills.len(),
{
    if bills.len() > 0 {
        lemma_merge_known_grows(known, pending, bills.drop_last());
        let (k, p) = merge_all(known, pending, bills.drop_last());
        assert(p.push(bills.last()).take(pending.len() as int) =~= p.take(pending.len() as int));
    }
}

/// After a merge, every merged bill that carries numbers has one of them known.
pub proof fn lemma_merge_bills_recognised(known: Set<Seq<char>>, pending: Seq<SyncedBill>, bills: Seq<SyncedBill>)
    ensures
        forall|i: int| 0 <= i < bills.len() && (#[trigger] bill_candidates(bills[i])).len() > 0
            ==> already_known(merge_all(known, pending, bills).0, bill_candidates(bills[i])),
    decreases bills.len(),
{
    if bills.len() > 0 {
        let prefix = bills.drop_last();
        lemma_merge_bills_recognised(known, pending, prefix);
        let (k, p) = merge_all(known, pending, prefix);
        let kf = merge_all(known, pending, bills).0;
        let ns = bill_candidates(bills.last());
        assert(k.subset_of(kf));
        assert forall|i: int| 0 <= i < bills.len() && (#[trigger] bill_candidates(bills[i])).len() > 0
            implies already_known(kf, bill_candidates(bills[i])) by {
            if i < bills.len() - 1 {
                assert(bills[i] == prefix[i]);
                let ms = bill_candidates(prefix[i]);
                assert(already_known(k, ms));
                let t = choose|t: int| 0 <= t < ms.len() && k.contains(#[trigger] ms[t]);
                assert(kf.contains(ms[t]));
            } else {
                assert(bills[i] == bills.last());
                if !already_known(k, ns) {
                    assert(ns.to_set().contains(ns[0]));
                    assert(kf.contains(ns[0]));
                }
            }
        }
    }
}

/// A batch whose every bill has a number that is already known changes nothing.
pub proof fn lemma_merge_known_batch_unchanged(known: Set<Seq<char>>, pending: Seq<SyncedBill>, bills: Seq<SyncedBill>)
    requires
        forall|i: int| 0 <= i < bills.len() ==> already_known(known, #[trigger] bill_candidates(bills[i])),
    ensures
        merge_all(known, pending, bills) == (known, pending),
    decreases bills.len(),
{
    if bills.len() > 0 {
        let prefix = bills.drop_last();
        assert forall|i: int| 0 <= i < prefix.len() implies already_known(known, #[trigger] bill_candidates(prefix[i])) by {
            assert(prefix[i] == bills[i]);
        }
        lemma_merge_known_batch_unchanged(known, pending, prefix);
        assert(already_known(known, bill_candidates(bills[bills.len() - 1])));
    }
}

/// Merging a batch a second time queues none of its bills that carry a number.
pub proof fn lemma_merge_twice_adds_nothing(known: Set<Seq<char>>, pending: Seq<SyncedBill>, bills: Seq<SyncedBill>)
    requires
        forall|i: int| 0 <= i < bills.len() ==> (#[trigger] bill_candidates(bills[i])).len() > 0,
    ensures
        ({
            let (k1, p1) = merge_all(known, pending, bills);
            merge_all(k1, p1, bills) == (k1, p1)
        }),
{
    lemma_merge_bills_recognised(known, pending, bills);
    let (k1, p1) = merge_all(known, pending, bills);
    lemma_merge_known_batch_unchanged(k1, p1, bills);
}

/// The normalised item type of a record, `None` when nothing is left.
pub open spec fn backfilled_item_type(item_type: Option<String>) -> Option<Seq<char>> {
    match item_type {
        Some(s) => if normalized_item_type(s@).len() > 0 { Some(normalized_item_type(s@)) } else { None },
        None => None,
    }
}

/// The trimmed counterparty of a record, `None` when blank.
pub open spec fn backfilled_target(target_user: Option<String>) -> Option<Seq<char>> {
    match target_user {
        Some(s) => if trim(s@).len() > 0 { Some(trim(s@)) } else { None },
        None => None,
    }
}

/// Normalised metadata of a merged bill.
#[derive(Debug, Clone)]
pub struct MergedBackfill {
    pub item_type: Option<String>,
    pub number: Option<String>,
    pub number_list: Option<String>,
    pub target_user: Option<String>,
    pub position: Option<String>,
    pub room: Option<String>,
}

/// Normalised metadata of an original bill.
#[derive(Debug, Clone)]
pub struct OriginalBackfill {
    pub item_type: Option<String>,
    pub number: Option<String>,
    pub number_list: Option<String>,
}

/// The trimmed counterparty, `None` when blank.
pub fn normalized_target_user(target_user: &Option<String>) -> (r: Option<String>)
    ensures
        opt_str_view(r) == backfilled_target(*target_user),
{
    match target_user {
        Some(s) => {
            let t = trim_str(s.as_str());
            if crate::text::str_is_empty(t.as_str()) { None } else { Some(t) }
        },
        None => None,
    }
}

fn normalized_item_type_opt(item_type: &Option<String>) -> (r: Option<String>)
    ensures
        opt_str_view(r) == backfilled_item_type(*item_type),
{
    match item_type {
        Some(s) => {
            let t = normalize_item_type(s.as_str());
            if crate::text::str_is_empty(t.as_str()) { None } else { Some(t) }
        },
        None => None,
    }
}

fn opt_as_str(o: &Option<String>) -> (r: Option<&str>)
    ensures
        opt_slice_view(r) == opt_str_view(*o),
{
    match o {
        Some(s) => Some(s.as_str()),
        None => None,
    }
}

fn opt_eq(a: &Option<String>, b: &Option<String>) -> (r: bool)
    ensures
        r == (opt_str_view(*a) == opt_str_view(*b)),
{
    match (a, b) {
        (Some(x), Some(y)) => str_eq(x.as_str(), y.as_str()),
        (None, None) => true,
        _ => false,
    }
}

/// The normalised number of a record.
pub open spec fn record_number(item_type: Option<String>, number: Option<String>, number_list: Option<String>) -> Option<Seq<char>> {
    normalized_number(opt_str_view(number), opt_str_view(item_type), opt_str_view(number_list))
}

/// The normalised number list of a record.
pub open spec fn record_number_list(item_type: Option<String>, number: Option<String>, number_list: Option<String>) -> Option<Seq<char>> {
    normalized_list_json(opt_str_view(number_list), record_number(item_type, number, number_list))
}

/// Building of a location, if any.
pub open spec fn location_building(position_room: Option<(String, String)>) -> Option<Seq<char>> {
    match position_room { Some((p, _)) => Some(p@), None => None }
}

/// Room of a location, if any.
pub open spec fn location_room(position_room: Option<(String, String)>) -> Option<Seq<char>> {
    match position_room { Some((_, q)) => Some(q@), None => None }
}

/// The location a back-fill sets: the one given for the counterparty, none when the bill
/// has no counterparty once trimmed.
pub open spec fn used_location(m: MergedBillRecord, position_room: Option<(String, String)>) -> Option<(String, String)> {
    if backfilled_target(m.target_user) is None { None } else { position_room }
}

/// Back-filling a merged bill with a location changes something: its normalised item type,
/// number, number list or counterparty, or its building or room, differ from what is stored.
pub open spec fn backfill_changes(m: MergedBillRecord, position_room: Option<(String, String)>) -> bool {
    backfilled_item_type(m.item_type) != opt_str_view(m.item_type)
        || record_number(m.item_type, m.number, m.number_list) != opt_str_view(m.number)
        || record_number_list(m.item_type, m.number, m.number_list) != opt_str_view(m.number_list)
        || backfilled_target(m.target_user) != opt_str_view(m.target_user)
        || location_building(used_location(m, position_room)) != opt_str_view(m.position)
        || location_room(used_location(m, position_room)) != opt_str_view(m.room)
}

/// `b` holds the normalised metadata of `m` and the given location.
pub open spec fn backfill_values(b: MergedBackfill, m: MergedBillRecord, position_room: Option<(String, String)>) -> bool {
    &&& opt_str_view(b.item_type) == backfilled_item_type(m.item_type)
    &&& opt_str_view(b.number) == record_number(m.item_type, m.number, m.number_list)
    &&& opt_str_view(b.number_list) == record_number_list(m.item_type, m.number, m.number_list)
    &&& opt_str_view(b.target_user) == backfilled_target(m.target_user)
    &&& opt_str_view(b.position) == location_building(used_location(m, position_room))
    &&& opt_str_view(b.room) == location_room(used_location(m, position_room))
}

/// Text of an optional field is missing: absent or empty.
pub open spec fn missing_text(o: Option<String>) -> bool {
    match o {
        Some(s) => s@.len() == 0,
        None => true,
    }
}

/// A merged bill of identity `identity_id` that back-filling looks at: its number, building
/// or room is missing, or its item type still holds `交易号` (the older form).
pub open spec fn backfill_candidate(m: MergedBillRecord, identity_id: i64) -> bool {
    m.identity_id == identity_id && (missing_text(m.number) || missing_text(m.position) || missing_text(m.room)
        || (m.item_type matches Some(t) && crate::text::contains(t@, crate::numbers::marker())))
}

/// Positions of the bills, among the first `n`, that back-filling rewrites: the candidates
/// that the back-fill changes, in order.
pub open spec fn backfill_picks(ms: Seq<MergedBillRecord>, identity_id: i64, locations: Seq<Option<(String, String)>>, n: int) -> Seq<int>
    decreases n,
{
    if n <= 0 {
        Seq::empty()
    } else {
        let prev = backfill_picks(ms, identity_id, locations, n - 1);
        if backfill_candidate(ms[n - 1], identity_id) && backfill_changes(ms[n - 1], locations[n - 1]) {
            prev.push(n - 1)
        } else {
            prev
        }
    }
}

fn missing_text_exec(o: &Option<String>) -> (b: bool)
    ensures
        b == missing_text(*o),
{
    match o {
        Some(s) => crate::text::str_is_empty(s.as_str()),
        None => true,
    }
}

/// Whether back-filling looks at a merged bill, see [`backfill_candidate`].
pub fn is_backfill_candidate(m: &MergedBillRecord, identity_id: i64) -> (b: bool)
    ensures
        b == backfill_candidate(*m, identity_id),
{
    proof {
        reveal_strlit("交易号");
    }
    let old_form = match &m.item_type {
        Some(t) => crate::text::str_contains(t.as_str(), "交易号"),
        None => false,
    };
    proof {
        assert("交易号"@ =~= crate::numbers::marker());
    }
    m.identity_id == identity_id && (missing_text_exec(&m.number) || missing_text_exec(&m.position)
        || missing_text_exec(&m.room) || old_form)
}

/// `e` is the rewrite of bill `p`: its id and the metadata back-filled with its location.
pub open spec fn backfill_entry(e: (i64, MergedBackfill), ms: Seq<MergedBillRecord>, locations: Seq<Option<(String, String)>>, p: int) -> bool {
    e.0 == ms[p].id && backfill_values(e.1, ms[p], locations[p])
}

fn location_clone(o: &Option<(String, String)>) -> (r: Option<(String, String)>)
    ensures
        r == *o,
{
    match o {
        Some((p, q)) => Some((p.clone(), q.clone())),
        None => None,
    }
}

/// The rewrites of back-filling the merged bills of identity `identity_id`, each bill with
/// the location of its counterparty: for each candidate that the back-fill changes, in
/// order, its id and its new metadata. Their number is the number of records updated.
pub fn backfill_updates(
    models: &Vec<MergedBillRecord>,
    identity_id: i64,
    locations: &Vec<Option<(String, String)>>,
) -> (r: Vec<(i64, MergedBackfill)>)
    requires
        locations@.len() == models@.len(),
    ensures
        ({
            let picks = backfill_picks(models@, identity_id, locations@, models@.len() as int);
            &&& r@.len() == picks.len()
            &&& forall|k: int| 0 <= k < r@.len() ==> backfill_entry(#[trigger] r@[k], models@, locations@, picks[k])
        }),
{
    let mut out: Vec<(i64, MergedBackfill)> = Vec::new();
    let mut i: usize = 0;
    while i < models.len()
        invariant
            i <= models.len(),
            locations@.len() == models@.len(),
            out@.len() == backfill_picks(models@, identity_id, locations@, i as int).len(),
            forall|k: int| 0 <= k < out@.len() ==> backfill_entry(#[trigger] out@[k], models@, locations@,
                backfill_picks(models@, identity_id, locations@, i as int)[k]),
        decreases models.len() - i,
    {
        let ghost before = out@;
        let ghost prev = backfill_picks(models@, identity_id, locations@, i as int);
        let m = &models[i];
        if is_backfill_candidate(m, identity_id) {
            match merged_backfill(m, location_clone(&locations[i])) {
                Some(b) => {
                    out.push((m.id, b));
                    proof {
                        let picks = backfill_picks(models@, identity_id, locations@, i + 1);
                        assert(picks == prev.push(i as int));
                        assert forall|k: int| 0 <= k < out@.len() implies backfill_entry(#[trigger] out@[k], models@, locations@, picks[k]) by {
                            if k < before.len() {
                                assert(out@[k] == before[k]);
                                assert(picks[k] == prev[k]);
                                assert(backfill_entry(before[k], models@, locations@, prev[k]));
                            } else {
                                assert(picks[k] == i);
                            }
                        }
                    }
                },
                None => {
                    assert(backfill_picks(models@, identity_id, locations@, i + 1) == prev);
                },
            }
        } else {
            assert(backfill_picks(models@, identity_id, locations@, i + 1) == prev);
        }
        i = i + 1;
    }
    out
}

/// Back-fills the metadata of a merged bill: item type, number, number list and
/// counterparty normalised, building and room set from `position_room` (the location of
/// the normalised counterparty), or cleared when there is no counterparty. `None` when
/// nothing would change.
pub fn merged_backfill(model: &MergedBillRecord, position_room: Option<(String, String)>) -> (r: Option<MergedBackfill>)
    ensures
        match r {
            Some(b) => backfill_changes(*model, position_room) && backfill_values(b, *model, position_room),
            None => !backfill_changes(*model, position_room),
        },
{
    let item_type = normalized_item_type_opt(&model.item_type);
    let number = normalize_number(
        opt_as_str(&model.number),
        opt_as_str(&model.item_type),
        opt_as_str(&model.number_list),
    );
    let number_list = normalize_number_list_json(opt_as_str(&model.number_list), opt_as_str(&number));
    let target_user = normalized_target_user(&model.target_user);
    let position_room = if target_user.is_none() { None } else { position_room };
    let (position, room) = match position_room {
        Some((p, q)) => (Some(p), Some(q)),
        None => (None, None),
    };
    let changed = !opt_eq(&item_type, &model.item_type) || !opt_eq(&number, &model.number)
        || !opt_eq(&number_list, &model.number_list) || !opt_eq(&target_user, &model.target_user)
        || !opt_eq(&position, &model.position) || !opt_eq(&room, &model.room);
    if changed {
        Some(MergedBackfill { item_type, number, number_list, target_user, position, room })
    } else {
        None
    }
}

/// Back-fills the metadata of an original bill: item type, number and number list
/// normalised. `None` when nothing would change.
pub fn original_backfill(model: &OriginalBillRecord) -> (r: Option<OriginalBackfill>)
    ensures
        ({
            let it = backfilled_item_type(model.item_type);
            let n = record_number(model.item_type, model.number, model.number_list);
            let nl = record_number_list(model.item_type, model.number, model.number_list);
            let changed = it != opt_str_view(model.item_type) || n != opt_str_view(model.number)
                || nl != opt_str_view(model.number_list);
            match r {
                Some(b) => changed && opt_str_view(b.item_type) == it && opt_str_view(b.number) == n
                    && opt_str_view(b.number_list) == nl,
                None => !changed,
            }
        }),
{
    let item_type = normalized_item_type_opt(&model.item_type);
    let number = normalize_number(
        opt_as_str(&model.number),
        opt_as_str(&model.item_type),
        opt_as_str(&model.number_list),
    );
    let number_list = normalize_number_list_json(opt_as_str(&model.number_list), opt_as_str(&number));
    let changed = !opt_eq(&item_type, &model.item_type) || !opt_eq(&number, &model.number)
        || !opt_eq(&number_list, &model.number_list);
    if changed {
        Some(OriginalBackfill { item_type, number, number_list })
    } else {
        None
    }
}

fn opt_clone(o: &Option<String>) -> (r: Option<String>)
    ensures
        r == *o,
{
    match o {
        Some(s) => Some(s.clone()),
        None => None,
    }
}

/// The original-table record of a fetched bill of account `account_id`, written at `now`:
/// every field as fetched, the number list as its JSON text. The id is 0 until the record
/// is stored.
pub open spec fn original_entry(bill: SyncedBill, account_id: Seq<char>, now: Seq<char>, list_json: Seq<char>, r: OriginalBillRecord) -> bool {
    &&& r.id == 0
    &&& r.date_str == bill.date_str
    &&& r.time_str == bill.time_str
    &&& r.time_str_formatted == Some(bill.time_str_formatted)
    &&& r.date_time_formatted == Some(bill.date_time_formatted)
    &&& r.end_date_time_formatted == Some(bill.end_date_time_formatted)
    &&& r.timestamp == Some(bill.timestamp)
    &&& r.end_timestamp == Some(bill.end_timestamp)
    &&& r.item_type == Some(bill.item_type)
    &&& r.number == Some(bill.number)
    &&& opt_str_view(r.number_list) == Some(list_json)
    &&& r.target_user == Some(bill.target_user)
    &&& r.money_str == Some(bill.money_str)
    &&& r.money_bits == Some(bill.money_bits)
    &&& r.method == Some(bill.method)
    &&& r.status_str == Some(bill.status_str)
    &&& r.is_combined == bill.is_combined
    &&& r.account_id@ == account_id
    &&& opt_str_view(r.synced_at) == Some(now)
}

/// The original-table record of a fetched bill, see [`original_entry`]; `None` when its
/// number list cannot be written as JSON.
pub fn original_record_of(bill: &SyncedBill, account_id: &str, now: &str) -> (r: Option<OriginalBillRecord>)
    ensures
        match json_of_string_list(strings_view(bill.number_list@)) {
            Some(j) => r is Some && original_entry(*bill, account_id@, now@, j, r.unwrap()),
            None => r is None,
        },
{
    let list_json = match string_list_to_json(&bill.number_list) {
        Some(j) => j,
        None => return None,
    };
    Some(OriginalBillRecord {
        id: 0,
        date_str: bill.date_str.clone(),
        time_str: bill.time_str.clone(),
        time_str_formatted: Some(bill.time_str_formatted.clone()),
        date_time_formatted: Some(bill.date_time_formatted.clone()),
        end_date_time_formatted: Some(bill.end_date_time_formatted.clone()),
        timestamp: Some(bill.timestamp),
        end_timestamp: Some(bill.end_timestamp),
        item_type: Some(bill.item_type.clone()),
        number: Some(bill.number.clone()),
        number_list: Some(list_json),
        target_user: Some(bill.target_user.clone()),
        money_str: Some(bill.money_str.clone()),
        money_bits: Some(bill.money_bits),
        method: Some(bill.method.clone()),
        status_str: Some(bill.status_str.clone()),
        is_combined: bill.is_combined,
        account_id: account_id.to_string(),
        synced_at: Some(now.to_string()),
    })
}

/// The merged-table record of a bill for identity `identity_id`: every field as given,
/// the number list as its JSON text, building and room as located, no category or
/// notes. The id is 0 until the record is stored.
pub open spec fn merged_entry(
    bill: SyncedBill,
    identity_id: i64,
    source_account_id: Option<Seq<char>>,
    is_manual: bool,
    position: Seq<char>,
    room: Seq<char>,
    now: Seq<char>,
    list_json: Seq<char>,
    r: MergedBillRecord,
) -> bool {
    &&& r.id == 0
    &&& r.identity_id == identity_id
    &&& r.date_str == bill.date_str
    &&& r.time_str == bill.time_str
    &&& r.time_str_formatted == Some(bill.time_str_formatted)
    &&& r.date_time_formatted == Some(bill.date_time_formatted)
    &&& r.end_date_time_formatted == Some(bill.end_date_time_formatted)
    &&& r.timestamp == Some(bill.timestamp)
    &&& r.end_timestamp == Some(bill.end_timestamp)
    &&& r.item_type == Some(bill.item_type)
    &&& r.number == Some(bill.number)
    &&& opt_str_view(r.number_list) == Some(list_json)
    &&& r.target_user == Some(bill.target_user)
    &&& r.money_str == Some(bill.money_str)
    &&& r.money_bits == Some(bill.money_bits)
    &&& r.method == Some(bill.method)
    &&& r.status_str == Some(bill.status_str)
    &&& r.is_combined == bill.is_combined
    &&& opt_str_view(r.source_account_id) == source_account_id
    &&& r.is_manual == is_manual
    &&& opt_str_view(r.position) == Some(position)
    &&& opt_str_view(r.room) == Some(room)
    &&& r.category is None
    &&& r.notes is None
    &&& opt_str_view(r.synced_at) == Some(now)
}

fn merged_entry_of(
    bill: &SyncedBill,
    identity_id: i64,
    source_account_id: Option<String>,
    is_manual: bool,
    position: String,
    room: String,
    now: &str,
) -> (r: Option<MergedBillRecord>)
    ensures
        match json_of_string_list(strings_view(bill.number_list@)) {
            Some(j) => r is Some && merged_entry(*bill, identity_id, opt_str_view(source_account_id), is_manual, position@, room@, now@, j, r.unwrap()),
            None => r is None,
        },
{
    let list_json = match string_list_to_json(&bill.number_list) {
        Some(j) => j,
        None => return None,
    };
    Some(MergedBillRecord {
        id: 0,
        identity_id,
        date_str: bill.date_str.clone(),
        time_str: bill.time_str.clone(),
        time_str_formatted: Some(bill.time_str_formatted.clone()),
        date_time_formatted: Some(bill.date_time_formatted.clone()),
        end_date_time_formatted: Some(bill.end_date_time_formatted.clone()),
        timestamp: Some(bill.timestamp),
        end_timestamp: Some(bill.end_timestamp),
        item_type: Some(bill.item_type.clone()),
        number: Some(bill.number.clone()),
        number_list: Some(list_json),
        target_user: Some(bill.target_user.clone()),
        money_str: Some(bill.money_str.clone()),
        money_bits: Some(bill.money_bits),
        method: Some(bill.method.clone()),
        status_str: Some(bill.status_str.clone()),
        is_combined: bill.is_combined,
        source_account_id,
        is_manual,
        position: Some(position),
        room: Some(room),
        category: None,
        notes: None,
        synced_at: Some(now.to_string()),
    })
}

/// The merged-table record of a bill fetched for account `account_id`: not manual, from
/// that account, see [`merged_entry`]; `None` when its number list cannot be written as JSON.
pub fn synced_merged_record(
    bill: &SyncedBill,
    identity_id: i64,
    account_id: &str,
    position: String,
    room: String,
    now: &str,
) -> (r: Option<MergedBillRecord>)
    ensures
        match json_of_string_list(strings_view(bill.number_list@)) {
            Some(j) => r is Some && merged_entry(*bill, identity_id, Some(account_id@), false, position@, room@, now@, j, r.unwrap()),
            None => r is None,
        },
{
    merged_entry_of(bill, identity_id, Some(account_id.to_string()), false, position, room, now)
}

/// The merged-table record of a bill entered by hand: manual, from no account, see
/// [`merged_entry`]; `None` when its number list cannot be written as JSON.
pub fn manual_merged_record(
    identity_id: i64,
    bill: &SyncedBill,
    position: String,
    room: String,
    now: &str,
) -> (r: Option<MergedBillRecord>)
    ensures
        match json_of_string_list(strings_view(bill.number_list@)) {
            Some(j) => r is Some && merged_entry(*bill, identity_id, None, true, position@, room@, now@, j, r.unwrap()),
            None => r is None,
        },
{
    merged_entry_of(bill, identity_id, None, true, position, room, now)
}

/// The merged-table record rebuilt from an original record of account `account_id`:
/// the stored fields as they are, combined, not manual, from that account, building and
/// room as located, no category or notes. The id is 0 until the record is stored.
pub fn merged_from_original(
    orig: &OriginalBillRecord,
    identity_id: i64,
    account_id: &str,
    position: String,
    room: String,
    now: &str,
) -> (r: MergedBillRecord)
    ensures
        r.id == 0,
        r.identity_id == identity_id,
        r.date_str == orig.date_str,
        r.time_str == orig.time_str,
        r.time_str_formatted == orig.time_str_formatted,
        r.date_time_formatted == orig.date_time_formatted,
        r.end_date_time_formatted == orig.end_date_time_formatted,
        r.timestamp == orig.timestamp,
        r.end_timestamp == orig.end_timestamp,
        r.item_type == orig.item_type,
        r.number == orig.number,
        r.number_list == orig.number_list,
        r.target_user == orig.target_user,
        r.money_str == orig.money_str,
        r.money_bits == orig.money_bits,
        r.method == orig.method,
        r.status_str == orig.status_str,
        r.is_combined,
        opt_str_view(r.source_account_id) == Some(account_id@),
        !r.is_manual,
        opt_str_view(r.position) == Some(position@),
        opt_str_view(r.room) == Some(room@),
        r.category is None,
        r.notes is None,
        opt_str_view(r.synced_at) == Some(now@),
{
    MergedBillRecord {
        id: 0,
        identity_id,
        date_str: orig.date_str.clone(),
        time_str: orig.time_str.clone(),
        time_str_formatted: opt_clone(&orig.time_str_formatted),
        date_time_formatted: opt_clone(&orig.date_time_formatted),
        end_date_time_formatted: opt_clone(&orig.end_date_time_formatted),
        timestamp: orig.timestamp,
        end_timestamp: orig.end_timestamp,
        item_type: opt_clone(&orig.item_type),
        number: opt_clone(&orig.number),
        number_list: opt_clone(&orig.number_list),
        target_user: opt_clone(&orig.target_user),
        money_str: opt_clone(&orig.money_str),
        money_bits: orig.money_bits,
        method: opt_clone(&orig.method),
        status_str: opt_clone(&orig.status_str),
        is_combined: true,
        source_account_id: Some(account_id.to_string()),
        is_manual: false,
        position: Some(position),
        room: Some(room),
        category: None,
        notes: None,
        synced_at: Some(now.to_string()),
    }
}

/// Number of pages of `page_size` items that hold `total` items; 1 when the page size
/// is 0.
pub fn page_count(total: u32, page_size: u32) -> (r: u32)
    ensures
        page_size == 0 ==> r == 1,
        page_size > 0 ==> r as int == (total as int + page_size - 1) / (page_size as int),
{
    if page_size == 0 {
        1
    } else {
        let q = total / page_size;
        proof {
            vstd::arithmetic::div_mod::lemma_fundamental_div_mod(total as int, page_size as int);
        }
        if total % page_size == 0 {
            proof {
                assert((total as int + page_size - 1) / (page_size as int) == q) by (nonlinear_arith)
                    requires
                        page_size > 0,
                        total as int == page_size * q + total % page_size,
                        total % page_size == 0;
            }
            q
        } else {
            proof {
                assert((total as int + page_size - 1) / (page_size as int) == q + 1) by (nonlinear_arith)
                    requires
                        page_size > 0,
                        total as int == page_size * q + total % page_size,
                        0 < total % page_size < page_size;
                assert(q + 1 <= total) by (nonlinear_arith)
                    requires
                        page_size > 0,
                        total as int == page_size * q + total % page_size,
                        0 < total % page_size < page_size;
            }
            q + 1
        }
    }
}

/// The normalised numbers of an original record.
pub open spec fn original_numbers(r: OriginalBillRecord) -> Seq<Seq<char>> {
    numbers_from_fields(opt_str_view(r.number), opt_str_view(r.item_type), opt_str_view(r.number_list))
}

/// The normalised numbers of a merged record.
pub open spec fn merged_numbers(r: MergedBillRecord) -> Seq<Seq<char>> {
    numbers_from_fields(opt_str_view(r.number), opt_str_view(r.item_type), opt_str_view(r.number_list))
}

/// Every normalised number of the original records of an account and the merged records
/// of its identity.
pub open spec fn stored_numbers(originals: Seq<OriginalBillRecord>, merged: Seq<MergedBillRecord>) -> Set<Seq<char>> {
    Set::new(|x: Seq<char>|
        (exists|i: int| 0 <= i < originals.len() && #[trigger] original_numbers(originals[i]).contains(x))
        || (exists|i: int| 0 <= i < merged.len() && #[trigger] merged_numbers(merged[i]).contains(x)))
}

/// The known numbers of a store: every normalised number of the stored records, each once.
pub fn load_known_numbers(originals: &Vec<OriginalBillRecord>, merged: &Vec<MergedBillRecord>) -> (r: Vec<String>)
    ensures
        strings_view(r@).to_set() == stored_numbers(originals@, merged@),
        forall|i: int, j: int| 0 <= i < j < r@.len() ==> r@[i]@ != r@[j]@,
{
    let mut out: Vec<String> = Vec::new();
    let mut i: usize = 0;
    while i < originals.len()
        invariant
            i <= originals.len(),
            forall|a: int, b: int| 0 <= a < b < out@.len() ==> out@[a]@ != out@[b]@,
            forall|x: Seq<char>| strings_view(out@).contains(x) <==>
                (exists|k: int| 0 <= k < i && #[trigger] original_numbers(originals@[k]).contains(x)),
        decreases originals.len() - i,
    {
        let o = &originals[i];
        let ns = normalized_numbers_from_fields(opt_as_str(&o.number), opt_as_str(&o.item_type), opt_as_str(&o.number_list));
        assert(strings_view(ns@) == original_numbers(originals@[i as int]));
        add_all_new(&mut out, &ns);
        proof {
            assert forall|x: Seq<char>| strings_view(out@).contains(x) <==>
                (exists|k: int| 0 <= k < i + 1 && #[trigger] original_numbers(originals@[k]).contains(x)) by {
                if strings_view(ns@).contains(x) {
                    assert(original_numbers(originals@[i as int]).contains(x));
                }
                if exists|k: int| 0 <= k < i + 1 && #[trigger] original_numbers(originals@[k]).contains(x) {
                    let k = choose|k: int| 0 <= k < i + 1 && #[trigger] original_numbers(originals@[k]).contains(x);
                    if k == i {
                        assert(strings_view(ns@).contains(x));
                    }
                }
            }
        }
        i = i + 1;
    }
    let mut j: usize = 0;
    while j < merged.len()
        invariant
            i == originals.len(),
            j <= merged.len(),
            forall|a: int, b: int| 0 <= a < b < out@.len() ==> out@[a]@ != out@[b]@,
            forall|x: Seq<char>| strings_view(out@).contains(x) <==>
                ((exists|k: int| 0 <= k < originals@.len() && #[trigger] original_numbers(originals@[k]).contains(x))
                || (exists|k: int| 0 <= k < j && #[trigger] merged_numbers(merged@[k]).contains(x))),
        decreases merged.len() - j,
    {
        let m = &merged[j];
        let ns = normalized_numbers_from_fields(opt_as_str(&m.number), opt_as_str(&m.item_type), opt_as_str(&m.number_list));
        assert(strings_view(ns@) == merged_numbers(merged@[j as int]));
        add_all_new(&mut out, &ns);
        proof {
            assert forall|x: Seq<char>| strings_view(out@).contains(x) <==>
                ((exists|k: int| 0 <= k < originals@.len() && #[trigger] original_numbers(originals@[k]).contains(x))
                || (exists|k: int| 0 <= k < j + 1 && #[trigger] merged_numbers(merged@[k]).contains(x))) by {
                if strings_view(ns@).contains(x) {
                    assert(merged_numbers(merged@[j as int]).contains(x));
                }
                if exists|k: int| 0 <= k < j + 1 && #[trigger] merged_numbers(merged@[k]).contains(x) {
                    let k = choose|k: int| 0 <= k < j + 1 && #[trigger] merged_numbers(merged@[k]).contains(x);
                    if k == j {
                        assert(strings_view(ns@).contains(x));
                    }
                }
            }
        }
        j = j + 1;
    }
    assert(strings_view(out@).to_set() =~= stored_numbers(originals@, merged@));
    out
}

/// Appends the numbers of `ns` that `out` does not hold yet.
#[verifier::spinoff_prover]
fn add_all_new(out: &mut Vec<String>, ns: &Vec<String>)
    requires
        forall|a: int, b: int| 0 <= a < b < old(out)@.len() ==> old(out)@[a]@ != old(out)@[b]@,
    ensures
        forall|a: int, b: int| 0 <= a < b < final(out)@.len() ==> final(out)@[a]@ != final(out)@[b]@,
        forall|x: Seq<char>| strings_view(final(out)@).contains(x) <==>
            (strings_view(old(out)@).contains(x) || strings_view(ns@).contains(x)),
{
    let ghost start = strings_view(out@);
    let mut k: usize = 0;
    while k < ns.len()
        invariant
            k <= ns.len(),
            forall|a: int, b: int| 0 <= a < b < out@.len() ==> out@[a]@ != out@[b]@,
            forall|x: Seq<char>| strings_view(out@).contains(x) <==>
                (start.contains(x) || strings_view(ns@).take(k as int).contains(x)),
        decreases ns.len() - k,
    {
        let n = &ns[k];
        let ghost before = out@;
        assert(forall|x: Seq<char>| #[trigger] strings_view(before).contains(x) <==>
            (start.contains(x) || strings_view(ns@).take(k as int).contains(x)));
        let mut found = false;
        let mut t: usize = 0;
        while t < out.len()
            invariant
                out@ == before,
                t <= out.len(),
                found <==> exists|q: int| 0 <= q < t && out@[q]@ == n@,
            decreases out.len() - t,
        {
            if str_eq(out[t].as_str(), n.as_str()) {
                found = true;
            }
            t = t + 1;
        }
        if !found {
            out.push(n.clone());
        }
        let ghost tk1 = strings_view(ns@).take(k + 1);
        proof {
            assert(tk1 =~= strings_view(ns@).take(k as int).push(n@));
            assert forall|x: Seq<char>| #[trigger] strings_view(out@).contains(x) <==>
                (start.contains(x) || tk1.contains(x)) by {
                let tk = strings_view(ns@).take(k as int);
                if tk1.contains(x) && !tk.contains(x) {
                    let q = choose|q: int| 0 <= q < tk1.len() && tk1[q] == x;
                    if q < k {
                        assert(tk[q] == x);
                    }
                    assert(x == n@);
                    if found {
                        let q2 = choose|q2: int| 0 <= q2 < before.len() && before[q2]@ == n@;
                        assert(strings_view(out@)[q2] == x);
                    } else {
                        assert(strings_view(out@)[before.len() as int] == x);
                    }
                }
                if tk.contains(x) {
                    let q = choose|q: int| 0 <= q < k && tk[q] == x;
                    assert(tk1[q] == x);
                }
                if strings_view(out@).contains(x) {
                    let q = choose|q: int| 0 <= q < out@.len() && strings_view(out@)[q] == x;
                    if q < before.len() {
                        assert(strings_view(before)[q] == x);
                    } else {
                        assert(tk1[k as int] == x);
                    }
                }
                if start.contains(x) || tk.contains(x) {
                    assert(strings_view(before).contains(x));
                    let q = choose|q: int| 0 <= q < before.len() && strings_view(before)[q] == x;
                    assert(strings_view(out@)[q] == x);
                }
            }
        }
        k = k + 1;
        assert(strings_view(ns@).take(k as int) == tk1);
    }
    proof {
        let all = strings_view(ns@);
        assert(all.take(ns.len() as int) =~= all);
        assert forall|x: Seq<char>| strings_view(out@).contains(x) <==> (start.contains(x) || all.contains(x)) by {
            assert(all.take(ns.len() as int) == all);
        }
    }
}

/// The log description of a bill deleted by hand.
pub fn deletion_description(bill_id: i64) -> (r: String)
    ensures
        r@ == "手动删除账单 ID="@ + signed_decimal(bill_id as int),
{
    let id = signed_decimal_string(bill_id);
    concat_str("手动删除账单 ID=", id.as_str())
}

/// The log description of a bill added by hand: its time and type.
pub fn manual_addition_description(bill: &SyncedBill) -> (r: String)
    ensures
        r@ == "手动添加账单: "@ + bill.date_time_formatted@ + " "@ + bill.item_type@,
{
    let mut v: Vec<char> = Vec::new();
    push_str(&mut v, "手动添加账单: ");
    push_str(&mut v, bill.date_time_formatted.as_str());
    push_str(&mut v, " ");
    push_str(&mut v, bill.item_type.as_str());
    string_from_chars(v.as_slice())
}

/// The log row of an operation of identity `identity_id` at `now`. The id is 0 until the
/// row is stored.
pub fn operation_log_row(
    identity_id: i64,
    kind: OperationType,
    record_numbers: &str,
    description: String,
    account_id: Option<String>,
    now: String,
) -> (r: OperationLogRow)
    ensures
        r.id == 0,
        r.identity_id == identity_id,
        r.operation_type@ == operation_text(kind),
        opt_str_view(r.record_numbers) == Some(record_numbers@),
        r.operation_time == now,
        r.description == Some(description),
        r.account_id == account_id,
{
    OperationLogRow {
        id: 0,
        identity_id,
        operation_type: kind.as_str().to_string(),
        record_numbers: Some(record_numbers.to_string()),
        operation_time: now,
        description: Some(description),
        account_id,
    }
}

/// The stored bill with its notes replaced; a bill that is not stored is refused.
pub fn with_notes(found: Option<MergedBillRecord>, notes: Option<String>) -> (r: AppResult<MergedBillRecord>)
    ensures
        match found {
            Some(m) => r matches Ok(u) && u == (MergedBillRecord { notes, ..m }),
            None => r matches Err(AppError::Database(e)) && e@ == "账单不存在"@,
        },
{
    match found {
        Some(m) => Ok(MergedBillRecord { notes, ..m }),
        None => Err(AppError::Database("账单不存在".to_string())),
    }
}

} // verus!
