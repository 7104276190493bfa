//! Re-classification of stored bills: how the outcome of each bill is counted. The
//! location translator and the type classifier run outside; their answers come in here.
use vstd::prelude::*;

use crate::store::MergedBillRecord;
use crate::text::str_eq;

verus! {

/// Location of a counterparty, as the translator gives it.
#[derive(Debug, Clone)]
pub struct TranslationResult {
    pub position: String,
    pub room: String,
}

/// Counts of a re-classification run.
#[derive(Debug, Clone)]
pub struct ReclassifyResult {
    pub total_scanned: u32,
    /// Bills whose location was found and rewritten.
    pub translated: u32,
    /// Bills whose category was unset or `other` and is now a specific one.
    pub category_updated: u32,
    /// Bills with a counterparty that the translator did not know.
    pub missed: u32,
    pub duration_ms: u64,
}

/// What re-classifying one bill gave.
#[derive(Debug, Clone)]
pub struct ReclassifiedBill {
    /// The counterparty as stored (empty when none).
    pub target_user: String,
    /// Whether the translator knew the counterparty.
    pub location_found: bool,
    /// The category stored before.
    pub old_category: Option<String>,
    /// The category computed now (lower case).
    pub new_category: String,
}

/// The location of a bill with a counterparty was found.
pub open spec fn counts_translated(b: ReclassifiedBill) -> bool {
    b.location_found && b.target_user@.len() > 0
}

/// The location of a bill with a counterparty was not found.
pub open spec fn counts_missed(b: ReclassifiedBill) -> bool {
    !b.location_found && b.target_user@.len() > 0
}

/// A category that was unset, empty or `other` became a specific one.
pub open spec fn counts_category_update(b: ReclassifiedBill) -> bool {
    let was_unset = match b.old_category {
        Some(c) => c@.len() == 0 || c@ == "other"@,
        None => true,
    };
    was_unset && b.new_category@ != "other"@
}

/// Number of bills satisfying a predicate.
pub open spec fn count_where(bs: Seq<ReclassifiedBill>, p: spec_fn(ReclassifiedBill) -> bool) -> int
    decreases bs.len(),
{
    if bs.len() == 0 { 0 } else { count_where(bs.drop_last(), p) + if p(bs.last()) { 1int } else { 0int } }
}

proof fn lemma_count_where_bound(bs: Seq<ReclassifiedBill>, p: spec_fn(ReclassifiedBill) -> bool)
    ensures
        0 <= count_where(bs, p) <= bs.len(),
    decreases bs.len(),
{
    if bs.len() > 0 {
        lemma_count_where_bound(bs.drop_last(), p);
    }
}

fn category_update(b: &ReclassifiedBill) -> (r: bool)
    ensures
        r == counts_category_update(*b),
{
    let was_unset = match &b.old_category {
        Some(c) => crate::text::str_is_empty(c.as_str()) || str_eq(c.as_str(), "other"),
        None => true,
    };
    was_unset && !str_eq(b.new_category.as_str(), "other")
}

/// Counts the outcome of a run over `bills`, which took `duration_ms`.
pub fn tally_reclassify(bills: &Vec<ReclassifiedBill>, duration_ms: u64) -> (r: ReclassifyResult)
    requires
        bills@.len() <= u32::MAX,
    ensures
        r.total_scanned == bills@.len(),
        r.translated == count_where(bills@, |b: ReclassifiedBill| counts_translated(b)),
        r.missed == count_where(bills@, |b: ReclassifiedBill| counts_missed(b)),
        r.category_updated == count_where(bills@, |b: ReclassifiedBill| counts_category_update(b)),
        r.duration_ms == duration_ms,
{
    let ghost pt = |b: ReclassifiedBill| counts_translated(b);
    let ghost pm = |b: ReclassifiedBill| counts_missed(b);
    let ghost pc = |b: ReclassifiedBill| counts_category_update(b);
    let mut translated: u32 = 0;
    let mut missed: u32 = 0;
    let mut updated: u32 = 0;
    let mut i: usize = 0;
    while i < bills.len()
        invariant
            i <= bills.len() <= u32::MAX,
            pt == (|b: ReclassifiedBill| counts_translated(b)),
            pm == (|b: ReclassifiedBill| counts_missed(b)),
            pc == (|b: ReclassifiedBill| counts_category_update(b)),
            translated == count_where(bills@.take(i as int), pt),
            missed == count_where(bills@.take(i as int), pm),
            updated == count_where(bills@.take(i as int), pc),
        decreases bills.len() - i,
    {
        assert(bills@.take(i + 1).drop_last() =~= bills@.take(i as int));
        assert(bills@.take(i + 1).last() == bills@[i as int]);
        proof {
            lemma_count_where_bound(bills@.take(i as int), pt);
            lemma_count_where_bound(bills@.take(i as int), pm);
            lemma_count_where_bound(bills@.take(i as int), pc);
        }
        let b = &bills[i];
        let has_target = !crate::text::str_is_empty(b.target_user.as_str());
        if has_target {
            if b.location_found {
                translated = translated + 1;
            } else {
                missed = missed + 1;
            }
        }
        if category_update(b) {
            updated = updated + 1;
        }
        i = i + 1;
    }
    assert(bills@.take(bills.len() as int) =~= bills@);
    ReclassifyResult {
        total_scanned: bills.len() as u32,
        translated,
        category_updated: updated,
        missed,
        duration_ms,
    }
}

/// A bill's counterparty is counted at most once, as translated or as missed.
pub proof fn lemma_translated_and_missed_disjoint(bs: Seq<ReclassifiedBill>)
    ensures
        count_where(bs, |b: ReclassifiedBill| counts_translated(b)) + count_where(bs, |b: ReclassifiedBill| counts_missed(b))
            == count_where(bs, |b: ReclassifiedBill| b.target_user@.len() > 0),
    decreases bs.len(),
{
    if bs.len() > 0 {
        lemma_translated_and_missed_disjoint(bs.drop_last());
    }
}

/// Text of an optional field, empty when absent.
pub open spec fn text_of(o: Option<String>) -> Seq<char> {
    match o {
        Some(s) => s@,
        None => Seq::empty(),
    }
}

/// Re-classifies one stored bill with the translator's answer for its counterparty and the
/// category computed now: building and room become the translated location (none when the
/// translator did not know it), the category becomes the new one (written back even when
/// it is `other`), and every other field stays. Also gives what the bill counts as.
pub fn reclassify_record(m: MergedBillRecord, location: Option<TranslationResult>, new_category: String) -> (r: (MergedBillRecord, ReclassifiedBill))
    ensures
        r.0 == (MergedBillRecord {
            position: match location { Some(l) => Some(l.position), None => None },
            room: match location { Some(l) => Some(l.room), None => None },
            category: Some(new_category),
            ..m
        }),
        r.1.target_user@ == text_of(m.target_user),
        r.1.location_found == (location is Some),
        r.1.old_category == m.category,
        r.1.new_category == new_category,
{
    let target_user = match &m.target_user {
        Some(t) => t.clone(),
        None => String::new(),
    };
    let old_category = match &m.category {
        Some(c) => Some(c.clone()),
        None => None,
    };
    let found = location.is_some();
    let (position, room) = match location {
        Some(l) => (Some(l.position), Some(l.room)),
        None => (None, None),
    };
    let outcome = ReclassifiedBill {
        target_user,
        location_found: found,
        old_category,
        new_category: new_category.clone(),
    };
    (MergedBillRecord { position, room, category: Some(new_category), ..m }, outcome)
}

} // verus!
