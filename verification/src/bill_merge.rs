//! Merging of adjacent bath / hot-water bills: bills of the same counterparty and status
//! whose times lie within the threshold are combined into one.
use vstd::prelude::*;

use crate::numbers::opt_str_view;
use crate::store::MergedBillRecord;
use crate::text::{
    chars_le, chars_of, chars_eq, contains, lex_le, lex_lt, owned, remove_whitespace,
    sorted_strict, split_chars, split_on, str_contains, str_eq, string_from_chars, without_ws,
};

verus! {

/// Default merge threshold, in minutes.
pub const DEFAULT_MERGE_THRESHOLD_MINUTES: i64 = 15;

/// The character that separates transaction numbers in a combined number list.
pub const LIST_SEPARATOR: char = '\u{1f}';

/// Merge settings.
#[derive(Debug, Clone)]
pub struct MergeConfig {
    pub threshold_minutes: i64,
}

impl MergeConfig {
    /// The default settings: a 15 minute threshold.
    pub fn default_config() -> (c: Self)
        ensures
            c.threshold_minutes == DEFAULT_MERGE_THRESHOLD_MINUTES,
    {
        MergeConfig { threshold_minutes: DEFAULT_MERGE_THRESHOLD_MINUTES }
    }
}

/// The lower-case form of a text, as `str::to_lowercase` gives it.
pub uninterp spec fn lowercase(s: Seq<char>) -> Seq<char>;

/// Lower-cases a text with `str::to_lowercase`; the contract names the result and states
/// nothing of the Unicode case tables.
#[verifier::external_body]
fn to_lowercase(s: &str) -> (r: String)
    ensures
        r@ == lowercase(s@),
{
    s.to_lowercase()
}

/// Keywords that mark a bath or hot-water bill.
pub open spec fn bath_keywords() -> Seq<Seq<char>> {
    seq!["浴"@, "洗澡"@, "热水"@, "淋浴"@, "水控"@, "洗浴"@, "bath"@, "shower"@, "wash"@]
}

fn bath_keyword_list() -> (v: Vec<String>)
    ensures
        v@.len() == bath_keywords().len(),
        forall|i: int| 0 <= i < v@.len() ==> #[trigger] v@[i]@ == bath_keywords()[i],
{
    let mut v: Vec<String> = Vec::new();
    v.push(owned("浴"));
    v.push(owned("洗澡"));
    v.push(owned("热水"));
    v.push(owned("淋浴"));
    v.push(owned("水控"));
    v.push(owned("洗浴"));
    v.push(owned("bath"));
    v.push(owned("shower"));
    v.push(owned("wash"));
    v
}

/// A bill is a bath bill when a keyword occurs in its lower-cased type or counterparty.
pub open spec fn is_bath(item_type: Seq<char>, target_user: Seq<char>) -> bool {
    exists|i: int| 0 <= i < bath_keywords().len() && (contains(lowercase(item_type), #[trigger] bath_keywords()[i])
        || contains(lowercase(target_user), bath_keywords()[i]))
}

/// Text of an optional field, empty when absent.
pub open spec fn text_or_empty(o: Option<String>) -> Seq<char> {
    match o {
        Some(s) => s@,
        None => Seq::empty(),
    }
}

/// The non-empty elements of `s`, in order.
pub open spec fn nonempty(s: Seq<Seq<char>>) -> Seq<Seq<char>>
    decreases s.len(),
{
    if s.len() == 0 {
        Seq::empty()
    } else if s.last().len() > 0 {
        nonempty(s.drop_last()).push(s.last())
    } else {
        nonempty(s.drop_last())
    }
}

/// The pieces of a combined number list, without empty ones.
pub open spec fn list_pieces(o: Option<String>) -> Seq<Seq<char>> {
    nonempty(split_on(text_or_empty(o), LIST_SEPARATOR))
}

/// Transaction numbers of a bill: the pieces of its list when combined, else its number.
pub open spec fn bill_txns(m: MergedBillRecord) -> Seq<Seq<char>> {
    if m.is_combined { list_pieces(m.number_list) } else { seq![text_or_empty(m.number)] }
}

/// Times of a bill: the pieces of its list when combined, else its formatted time.
pub open spec fn bill_times(m: MergedBillRecord) -> Seq<Seq<char>> {
    if m.is_combined { list_pieces(m.number_list) } else { seq![text_or_empty(m.date_time_formatted)] }
}

/// `s` without repeated elements, keeping first occurrences.
pub open spec fn dedup_first(s: Seq<Seq<char>>) -> Seq<Seq<char>>
    decreases s.len(),
{
    if s.len() == 0 {
        Seq::empty()
    } else {
        let prev = dedup_first(s.drop_last());
        if prev.contains(s.last()) { prev } else { prev.push(s.last()) }
    }
}

/// The pieces joined with a separator.
pub open spec fn join_with(pieces: Seq<Seq<char>>, sep: char) -> Seq<char>
    decreases pieces.len(),
{
    if pieces.len() == 0 {
        Seq::empty()
    } else if pieces.len() == 1 {
        pieces[0]
    } else {
        join_with(pieces.drop_last(), sep).push(sep) + pieces.last()
    }
}

/// Piece `k` of the text split at spaces, empty when there are fewer pieces.
pub open spec fn space_piece(s: Seq<char>, k: int) -> Seq<char> {
    let ps = split_on(s, ' ');
    if k < ps.len() { ps[k] } else { Seq::empty() }
}

/// The timestamp of a bill, 0 when absent.
pub open spec fn time_of(m: MergedBillRecord) -> int {
    match m.timestamp {
        Some(t) => t as int,
        None => 0,
    }
}

/// The search window of a new bill fits in `i64`.
pub open spec fn window_fits(new_bill: MergedBillRecord, config: MergeConfig) -> bool {
    let t = time_of(new_bill);
    let th = config.threshold_minutes as int;
    &&& i64::MIN <= (th + 1) * 60 <= i64::MAX
    &&& i64::MIN <= t - (th + 1) * 60 <= i64::MAX
    &&& t + 60 <= i64::MAX
    &&& i64::MIN <= th * 60 <= i64::MAX
}

/// A candidate can absorb the new bill: same status, same counterparty up to whitespace,
/// and less than the threshold earlier.
pub open spec fn mergeable_with(c: MergedBillRecord, new_bill: MergedBillRecord, config: MergeConfig) -> bool {
    let gap = time_of(new_bill) - time_of(c);
    &&& opt_str_view(c.status_str) == opt_str_view(new_bill.status_str)
    &&& without_ws(text_or_empty(c.target_user)) == without_ws(text_or_empty(new_bill.target_user))
    &&& 0 <= gap < config.threshold_minutes * 60
}

/// The gap between a candidate and the new bill.
pub open spec fn gap_of(c: MergedBillRecord, new_bill: MergedBillRecord) -> int {
    time_of(new_bill) - time_of(c)
}

/// Index of the first mergeable candidate with the smallest gap, among the first `n`.
pub open spec fn best_candidate(cs: Seq<MergedBillRecord>, new_bill: MergedBillRecord, config: MergeConfig, n: int) -> Option<int>
    decreases n,
{
    if n <= 0 {
        None
    } else {
        let prev = best_candidate(cs, new_bill, config, n - 1);
        if mergeable_with(cs[n - 1], new_bill, config) {
            match prev {
                Some(k) => if gap_of(cs[n - 1], new_bill) < gap_of(cs[k], new_bill) { Some(n - 1) } else { Some(k) },
                None => Some(n - 1),
            }
        } else {
            prev
        }
    }
}

proof fn lemma_best_candidate_range(cs: Seq<MergedBillRecord>, new_bill: MergedBillRecord, config: MergeConfig, n: int)
    ensures
        best_candidate(cs, new_bill, config, n) matches Some(k) ==> 0 <= k < n,
    decreases n,
{
    if n > 0 {
        lemma_best_candidate_range(cs, new_bill, config, n - 1);
    }
}

/// The candidate picked to absorb a new bill is one of the first `n` candidates, has the
/// same status and the same counterparty once whitespace is removed, and lies less than the
/// threshold earlier; no such candidate has a smaller gap, and one is picked whenever there
/// is such a candidate.
pub proof fn lemma_best_candidate_fields(cs: Seq<MergedBillRecord>, new_bill: MergedBillRecord, config: MergeConfig, n: int)
    requires
        0 <= n <= cs.len(),
    ensures
        best_candidate(cs, new_bill, config, n) matches Some(k) ==> {
            &&& 0 <= k < n
            &&& opt_str_view(cs[k].status_str) == opt_str_view(new_bill.status_str)
            &&& without_ws(text_or_empty(cs[k].target_user)) == without_ws(text_or_empty(new_bill.target_user))
            &&& 0 <= time_of(new_bill) - time_of(cs[k]) < config.threshold_minutes * 60
            &&& forall|j: int| 0 <= j < n
                    && opt_str_view((#[trigger] cs[j]).status_str) == opt_str_view(new_bill.status_str)
                    && without_ws(text_or_empty(cs[j].target_user)) == without_ws(text_or_empty(new_bill.target_user))
                    && 0 <= time_of(new_bill) - time_of(cs[j]) < config.threshold_minutes * 60
                    ==> time_of(new_bill) - time_of(cs[k]) <= time_of(new_bill) - time_of(cs[j])
        },
        best_candidate(cs, new_bill, config, n) is None ==> forall|j: int| 0 <= j < n ==> !{
            &&& opt_str_view((#[trigger] cs[j]).status_str) == opt_str_view(new_bill.status_str)
            &&& without_ws(text_or_empty(cs[j].target_user)) == without_ws(text_or_empty(new_bill.target_user))
            &&& 0 <= time_of(new_bill) - time_of(cs[j]) < config.threshold_minutes * 60
        },
    decreases n,
{
    if n > 0 {
        lemma_best_candidate_fields(cs, new_bill, config, n - 1);
    }
}

/// The record that results from merging `new_bill` into `existing`, with the summed
/// amount, its text and the sync time supplied by the caller.
pub open spec fn merged_record(
    existing: MergedBillRecord,
    new_bill: MergedBillRecord,
    money_bits: u64,
    money_str: Seq<char>,
    synced_at: Seq<char>,
    r: MergedBillRecord,
) -> bool {
    let txns = dedup_first(bill_txns(existing) + bill_txns(new_bill));
    let end_time = lex_max(bill_times(existing) + bill_times(new_bill));
    &&& r.id == new_bill.id
    &&& r.identity_id == new_bill.identity_id
    &&& r.date_str@ == space_piece(end_time, 0)
    &&& r.time_str@ == space_piece(end_time, 1)
    &&& opt_str_view(r.time_str_formatted) == Some(end_time)
    &&& opt_str_view(r.date_time_formatted) == Some(end_time)
    &&& opt_str_view(r.end_date_time_formatted) == Some(end_time)
    &&& r.timestamp == new_bill.timestamp
    &&& r.end_timestamp == new_bill.timestamp
    &&& r.item_type == new_bill.item_type
    &&& r.number == new_bill.number
    &&& opt_str_view(r.number_list) == Some(join_with(txns, LIST_SEPARATOR))
    &&& r.target_user == new_bill.target_user
    &&& opt_str_view(r.money_str) == Some(money_str)
    &&& r.money_bits == Some(money_bits)
    &&& r.method == new_bill.method
    &&& r.status_str == new_bill.status_str
    &&& r.is_combined
    &&& r.source_account_id == new_bill.source_account_id
    &&& r.is_manual == new_bill.is_manual
    &&& r.position == new_bill.position
    &&& r.room == new_bill.room
    &&& r.category == new_bill.category
    &&& r.notes == new_bill.notes
    &&& opt_str_view(r.synced_at) == Some(synced_at)
}

/// The greatest element of `s` in string order; empty when `s` is. It is the last of
/// the times once sorted and de-duplicated.
pub open spec fn lex_max(s: Seq<Seq<char>>) -> Seq<char>
    decreases s.len(),
{
    if s.len() == 0 {
        Seq::empty()
    } else if s.len() == 1 {
        s[0]
    } else {
        let m = lex_max(s.drop_last());
        if lex_le(m, s.last()) { s.last() } else { m }
    }
}

/// `lex_max` is an element of a non-empty sequence and no element exceeds it.
pub proof fn lemma_lex_max(s: Seq<Seq<char>>)
    requires
        s.len() > 0,
    ensures
        s.contains(lex_max(s)),
        forall|i: int| 0 <= i < s.len() ==> lex_le(#[trigger] s[i], lex_max(s)),
    decreases s.len(),
{
    if s.len() == 1 {
        assert(s[0] == lex_max(s));
        crate::text::lemma_lex_le_refl(s[0]);
    } else {
        let p = s.drop_last();
        lemma_lex_max(p);
        let m = lex_max(p);
        crate::text::lemma_lex_le_total(m, s.last());
        crate::text::lemma_lex_le_refl(s.last());
        assert forall|i: int| 0 <= i < s.len() implies lex_le(#[trigger] s[i], lex_max(s)) by {
            if i < s.len() - 1 {
                assert(s[i] == p[i]);
                if lex_le(m, s.last()) {
                    crate::text::lemma_lex_le_trans(s[i], m, s.last());
                }
            }
        }
        if !lex_le(m, s.last()) {
            let k = choose|k: int| 0 <= k < p.len() && p[k] == m;
            assert(s[k] == m);
        } else {
            assert(s[s.len() - 1] == s.last());
        }
    }
}

/// `dedup_first` keeps exactly the elements of its input, each once.
pub proof fn lemma_dedup_first(s: Seq<Seq<char>>)
    ensures
        forall|x: Seq<char>| dedup_first(s).contains(x) <==> s.contains(x),
        forall|i: int, j: int| 0 <= i < j < dedup_first(s).len() ==> dedup_first(s)[i] != dedup_first(s)[j],
    decreases s.len(),
{
    if s.len() > 0 {
        let p = s.drop_last();
        lemma_dedup_first(p);
        let d = dedup_first(p);
        assert forall|x: Seq<char>| dedup_first(s).contains(x) <==> s.contains(x) by {
            if s.contains(x) {
                let k = choose|k: int| 0 <= k < s.len() && s[k] == x;
                if k < s.len() - 1 {
                    assert(p[k] == x);
                    assert(p.contains(x));
                    if !d.contains(s.last()) {
                        let m = choose|m: int| 0 <= m < d.len() && d[m] == x;
                        assert(d.push(s.last())[m] == x);
                    }
                } else if !d.contains(s.last()) {
                    assert(d.push(s.last())[d.len() as int] == x);
                }
            }
            if dedup_first(s).contains(x) {
                let e = dedup_first(s);
                let m = choose|m: int| 0 <= m < e.len() && e[m] == x;
                if m < d.len() {
                    assert(e[m] == d[m]);
                    assert(d.contains(x));
                    assert(p.contains(x));
                    let k = choose|k: int| 0 <= k < p.len() && p[k] == x;
                    assert(s[k] == x);
                } else {
                    assert(e == d.push(s.last()));
                    assert(s[s.len() - 1] == x);
                }
            }
        }
    }
}

/// Merging keeps every transaction number of both bills, each once and nothing else, and
/// the merged end time is one of the two bills' times that none of them exceeds.
pub proof fn lemma_merge_keeps_numbers_and_latest_time(
    existing: MergedBillRecord,
    new_bill: MergedBillRecord,
    money_bits: u64,
    money_str: Seq<char>,
    synced_at: Seq<char>,
    r: MergedBillRecord,
)
    requires
        merged_record(existing, new_bill, money_bits, money_str, synced_at, r),
    ensures
        ({
            let txns = dedup_first(bill_txns(existing) + bill_txns(new_bill));
            &&& opt_str_view(r.number_list) == Some(join_with(txns, LIST_SEPARATOR))
            &&& forall|x: Seq<char>| txns.contains(x) <==> (bill_txns(existing).contains(x) || bill_txns(new_bill).contains(x))
            &&& forall|i: int, j: int| 0 <= i < j < txns.len() ==> txns[i] != txns[j]
        }),
        bill_times(existing).len() > 0 ==> ({
            let times = bill_times(existing) + bill_times(new_bill);
            &&& opt_str_view(r.end_date_time_formatted) == Some(lex_max(times))
            &&& times.contains(lex_max(times))
            &&& forall|i: int| 0 <= i < times.len() ==> lex_le(#[trigger] times[i], lex_max(times))
        }),
{
    let a = bill_txns(existing);
    let b = bill_txns(new_bill);
    lemma_dedup_first(a + b);
    assert forall|x: Seq<char>| (a + b).contains(x) <==> (a.contains(x) || b.contains(x)) by {
        if (a + b).contains(x) {
            let k = choose|k: int| 0 <= k < (a + b).len() && (a + b)[k] == x;
            if k < a.len() {
                assert(a[k] == x);
            } else {
                assert(b[k - a.len()] == x);
            }
        }
        if a.contains(x) {
            let k = choose|k: int| 0 <= k < a.len() && a[k] == x;
            assert((a + b)[k] == x);
        }
        if b.contains(x) {
            let k = choose|k: int| 0 <= k < b.len() && b[k] == x;
            assert((a + b)[a.len() + k] == x);
        }
    }
    let times = bill_times(existing) + bill_times(new_bill);
    if bill_times(existing).len() > 0 {
        lemma_lex_max(times);
    }
}

fn text_of(o: &Option<String>) -> (r: &str)
    ensures
        r@ == text_or_empty(*o),
{
    proof {
        reveal_strlit("");
    }
    match o {
        Some(s) => s.as_str(),
        None => "",
    }
}

fn pieces_of_list(o: &Option<String>) -> (r: Vec<String>)
    ensures
        r@.map_values(|x: String| x@) == list_pieces(*o),
{
    let text: Vec<char> = match o {
        Some(s) => chars_of(s.as_str()),
        None => Vec::new(),
    };
    assert(text@ == text_or_empty(*o));
    let parts = split_chars(&text, LIST_SEPARATOR);
    let ghost ps = split_on(text@, LIST_SEPARATOR);
    let mut out: Vec<String> = Vec::new();
    let mut i: usize = 0;
    while i < parts.len()
        invariant
            i <= parts.len(),
            parts@.len() == ps.len(),
            forall|k: int| 0 <= k < parts@.len() ==> #[trigger] parts@[k]@ == ps[k],
            out@.map_values(|x: String| x@) == nonempty(ps.take(i as int)),
        decreases parts.len() - i,
    {
        assert(ps.take(i + 1).drop_last() =~= ps.take(i as int));
        assert(ps.take(i + 1).last() == parts@[i as int]@);
        if parts[i].len() > 0 {
            let ghost before = out@;
            out.push(string_from_chars(parts[i].as_slice()));
            assert(out@.map_values(|x: String| x@) =~= before.map_values(|x: String| x@).push(ps[i as int]));
        }
        i = i + 1;
    }
    assert(ps.take(parts.len() as int) =~= ps);
    out
}

fn txns_of(m: &MergedBillRecord) -> (r: Vec<String>)
    ensures
        r@.map_values(|x: String| x@) == bill_txns(*m),
{
    if m.is_combined {
        pieces_of_list(&m.number_list)
    } else {
        let mut v: Vec<String> = Vec::new();
        let t = match &m.number {
            Some(n) => n.clone(),
            None => String::new(),
        };
        v.push(t);
        assert(v@.map_values(|x: String| x@) =~= seq![text_or_empty(m.number)]);
        v
    }
}

fn times_of(m: &MergedBillRecord) -> (r: Vec<String>)
    ensures
        r@.map_values(|x: String| x@) == bill_times(*m),
{
    if m.is_combined {
        pieces_of_list(&m.number_list)
    } else {
        let mut v: Vec<String> = Vec::new();
        let t = match &m.date_time_formatted {
            Some(n) => n.clone(),
            None => String::new(),
        };
        v.push(t);
        assert(v@.map_values(|x: String| x@) =~= seq![text_or_empty(m.date_time_formatted)]);
        v
    }
}

fn contains_text(v: &Vec<String>, s: &String) -> (b: bool)
    ensures
        b == v@.map_values(|x: String| x@).contains(s@),
{
    let ghost vv = v@.map_values(|x: String| x@);
    let mut i: usize = 0;
    while i < v.len()
        invariant
            i <= v.len(),
            vv == v@.map_values(|x: String| x@),
            forall|j: int| 0 <= j < i ==> vv[j] != s@,
        decreases v.len() - i,
    {
        if str_eq(v[i].as_str(), s.as_str()) {
            assert(vv[i as int] == s@);
            return true;
        }
        i = i + 1;
    }
    false
}

fn join_pieces(pieces: &Vec<String>, sep: char) -> (r: String)
    ensures
        r@ == join_with(pieces@.map_values(|x: String| x@), sep),
{
    let ghost pv = pieces@.map_values(|x: String| x@);
    let mut out: Vec<char> = Vec::new();
    let mut i: usize = 0;
    while i < pieces.len()
        invariant
            i <= pieces.len(),
            pv == pieces@.map_values(|x: String| x@),
            out@ == join_with(pv.take(i as int), sep),
        decreases pieces.len() - i,
    {
        assert(pv.take(i + 1).drop_last() =~= pv.take(i as int));
        assert(pv.take(i + 1).last() == pieces@[i as int]@);
        if i > 0 {
            out.push(sep);
        } else {
            assert(out@ =~= Seq::<char>::empty());
        }
        crate::text::push_str(&mut out, pieces[i].as_str());
        proof {
            if i == 0 {
                assert(pv.take(1)[0] == pieces@[0]@);
                assert(out@ =~= pv.take(1)[0]);
            }
        }
        i = i + 1;
    }
    assert(pv.take(pieces.len() as int) =~= pv);
    string_from_chars(out.as_slice())
}

fn space_piece_exec(s: &String, k: usize) -> (r: String)
    ensures
        r@ == space_piece(s@, k as int),
{
    let v = chars_of(s.as_str());
    let parts = split_chars(&v, ' ');
    if k < parts.len() {
        string_from_chars(parts[k].as_slice())
    } else {
        String::new()
    }
}

/// Merge decisions for bath and hot-water bills.
pub struct BillMergeService {
    config: MergeConfig,
}

impl BillMergeService {
    /// The settings in use.
    pub closed spec fn settings(&self) -> MergeConfig {
        self.config
    }

    /// A service with the given settings.
    pub fn new(config: MergeConfig) -> (s: Self)
        ensures
            s.settings() == config,
    {
        BillMergeService { config }
    }

    /// A service with the default 15 minute threshold.
    pub fn with_default_config() -> (s: Self)
        ensures
            s.settings().threshold_minutes == DEFAULT_MERGE_THRESHOLD_MINUTES,
    {
        Self::new(MergeConfig::default_config())
    }

    /// A bill is a bath bill when a bath keyword occurs in its lower-cased type or counterparty.
    pub fn is_bath_bill(item_type: &str, target_user: &str) -> (b: bool)
        ensures
            b == is_bath(item_type@, target_user@),
    {
        let type_lower = to_lowercase(item_type);
        let target_lower = to_lowercase(target_user);
        let kws = bath_keyword_list();
        let mut i: usize = 0;
        while i < kws.len()
            invariant
                i <= kws.len(),
                kws@.len() == bath_keywords().len(),
                forall|k: int| 0 <= k < kws@.len() ==> #[trigger] kws@[k]@ == bath_keywords()[k],
                type_lower@ == lowercase(item_type@),
                target_lower@ == lowercase(target_user@),
                forall|k: int| 0 <= k < i ==> !(contains(lowercase(item_type@), #[trigger] bath_keywords()[k])
                    || contains(lowercase(target_user@), bath_keywords()[k])),
            decreases kws.len() - i,
        {
            if str_contains(type_lower.as_str(), kws[i].as_str()) || str_contains(
                target_lower.as_str(),
                kws[i].as_str(),
            ) {
                assert(contains(lowercase(item_type@), bath_keywords()[i as int])
                    || contains(lowercase(target_user@), bath_keywords()[i as int]));
                return true;
            }
            i = i + 1;
        }
        false
    }

    /// A counterparty with all whitespace removed.
    pub fn normalize_target(s: &str) -> (r: String)
        ensures
            r@ == without_ws(s@),
    {
        remove_whitespace(s)
    }

    /// The timestamp range to search for a bill to merge with: from one minute beyond the
    /// threshold before the new bill to one minute after it. `None` for bills that are not
    /// bath bills, which are never merged.
    pub fn candidate_window(&self, new_bill: &MergedBillRecord) -> (r: Option<(i64, i64)>)
        requires
            window_fits(*new_bill, self.settings()),
        ensures
            !is_bath(text_or_empty(new_bill.item_type), text_or_empty(new_bill.target_user)) ==> r is None,
            is_bath(text_or_empty(new_bill.item_type), text_or_empty(new_bill.target_user)) ==> r == Some((
                (time_of(*new_bill) - (self.settings().threshold_minutes + 1) * 60) as i64,
                (time_of(*new_bill) + 60) as i64,
            )),
    {
        let it = text_of(&new_bill.item_type);
        let tu = text_of(&new_bill.target_user);
        if !Self::is_bath_bill(it, tu) {
            return None;
        }
        let new_time: i64 = match new_bill.timestamp {
            Some(t) => t,
            None => 0,
        };
        Some((new_time - (self.config.threshold_minutes + 1) * 60, new_time + 60))
    }

    /// Of the candidates found in the window, the one to merge with: same status, same
    /// counterparty up to whitespace, less than the threshold earlier; the smallest gap wins,
    /// the first one on ties.
    pub fn pick_mergeable(&self, new_bill: &MergedBillRecord, candidates: Vec<MergedBillRecord>) -> (r: Option<MergedBillRecord>)
        requires
            window_fits(*new_bill, self.settings()),
            forall|i: int| 0 <= i < candidates@.len() ==> i64::MIN <= time_of(*new_bill) - time_of(#[trigger] candidates@[i]) <= i64::MAX,
        ensures
            match best_candidate(candidates@, *new_bill, self.settings(), candidates@.len() as int) {
                Some(k) => r == Some(candidates@[k]),
                None => r is None,
            },
            r matches Some(c) ==> {
                &&& candidates@.contains(c)
                &&& opt_str_view(c.status_str) == opt_str_view(new_bill.status_str)
                &&& without_ws(text_or_empty(c.target_user)) == without_ws(text_or_empty(new_bill.target_user))
                &&& 0 <= time_of(*new_bill) - time_of(c) < self.settings().threshold_minutes * 60
                &&& forall|j: int| 0 <= j < candidates@.len()
                        && opt_str_view((#[trigger] candidates@[j]).status_str) == opt_str_view(new_bill.status_str)
                        && without_ws(text_or_empty(candidates@[j].target_user)) == without_ws(text_or_empty(new_bill.target_user))
                        && 0 <= time_of(*new_bill) - time_of(candidates@[j]) < self.settings().threshold_minutes * 60
                        ==> time_of(*new_bill) - time_of(c) <= time_of(*new_bill) - time_of(candidates@[j])
            },
            r is None ==> forall|j: int| 0 <= j < candidates@.len() ==> !{
                &&& opt_str_view((#[trigger] candidates@[j]).status_str) == opt_str_view(new_bill.status_str)
                &&& without_ws(text_or_empty(candidates@[j].target_user)) == without_ws(text_or_empty(new_bill.target_user))
                &&& 0 <= time_of(*new_bill) - time_of(candidates@[j]) < self.settings().threshold_minutes * 60
            },
    {
        let new_target = Self::normalize_target(text_of(&new_bill.target_user));
        let new_target_v = chars_of(new_target.as_str());
        let new_time: i64 = match new_bill.timestamp {
            Some(t) => t,
            None => 0,
        };
        let threshold_secs = self.config.threshold_minutes * 60;
        let mut best: Option<usize> = None;
        let mut best_gap: i64 = 0;
        let mut i: usize = 0;
        while i < candidates.len()
            invariant
                i <= candidates.len(),
                window_fits(*new_bill, self.settings()),
                forall|j: int| 0 <= j < candidates@.len() ==> i64::MIN <= time_of(*new_bill) - time_of(#[trigger] candidates@[j]) <= i64::MAX,
                new_target_v@ == without_ws(text_or_empty(new_bill.target_user)),
                new_time == time_of(*new_bill),
                threshold_secs == self.settings().threshold_minutes * 60,
                match best_candidate(candidates@, *new_bill, self.settings(), i as int) {
                    Some(k) => best == Some(k as usize),
                    None => best is None,
                },
                best matches Some(k) ==> k < i && best_gap == gap_of(candidates@[k as int], *new_bill),
            decreases candidates.len() - i,
        {
            proof {
                lemma_best_candidate_range(candidates@, *new_bill, self.settings(), i as int);
                lemma_best_candidate_range(candidates@, *new_bill, self.settings(), i + 1);
            }
            let c = &candidates[i];
            let ct: i64 = match c.timestamp {
                Some(t) => t,
                None => 0,
            };
            let gap = new_time - ct;
            let same_status = match (&c.status_str, &new_bill.status_str) {
                (Some(a), Some(b)) => str_eq(a.as_str(), b.as_str()),
                (None, None) => true,
                _ => false,
            };
            let ct_target = Self::normalize_target(text_of(&c.target_user));
            let ct_v = chars_of(ct_target.as_str());
            let ok = same_status && chars_eq(&ct_v, &new_target_v) && 0 <= gap && gap < threshold_secs;
            assert(ok == mergeable_with(candidates@[i as int], *new_bill, self.settings()));
            if ok {
                match best {
                    Some(k) => {
                        if gap < best_gap {
                            best = Some(i);
                            best_gap = gap;
                        }
                    },
                    None => {
                        best = Some(i);
                        best_gap = gap;
                    },
                }
            }
            i = i + 1;
        }
        proof {
            lemma_best_candidate_range(candidates@, *new_bill, self.settings(), candidates@.len() as int);
            lemma_best_candidate_fields(candidates@, *new_bill, self.settings(), candidates@.len() as int);
        }
        match best {
            Some(k) => {
                assert(candidates@.contains(candidates@[k as int]));
                let mut cs = candidates;
                Some(cs.swap_remove(k))
            },
            None => None,
        }
    }

    /// The record that merges `new_bill` into `existing`: transaction numbers united,
    /// end time the latest of both bills' times, the other fields taken from `new_bill`,
    /// and the summed amount, its text and the sync time as given.
    pub fn merge_bills(
        &self,
        existing: &MergedBillRecord,
        new_bill: &MergedBillRecord,
        money_bits: u64,
        money_str: String,
        synced_at: String,
    ) -> (r: MergedBillRecord)
        ensures
            merged_record(*existing, *new_bill, money_bits, money_str@, synced_at@, r),
    {
        let e_txns = txns_of(existing);
        let n_txns = txns_of(new_bill);
        let ghost all_txns = e_txns@.map_values(|x: String| x@) + n_txns@.map_values(|x: String| x@);
        let mut txns: Vec<String> = Vec::new();
        let ne = e_txns.len();
        let mut i: usize = 0;
        while i < ne
            invariant
                i <= ne,
                ne == e_txns.len(),
                all_txns == e_txns@.map_values(|x: String| x@) + n_txns@.map_values(|x: String| x@),
                txns@.map_values(|x: String| x@) == dedup_first(all_txns.take(i as int)),
            decreases ne - i,
        {
            assert(all_txns.take(i + 1).drop_last() =~= all_txns.take(i as int));
            let t = e_txns[i].clone();
            assert(all_txns.take(i + 1).last() == t@);
            if !contains_text(&txns, &t) {
                let ghost before = txns@;
                txns.push(t);
                assert(txns@.map_values(|x: String| x@) =~= before.map_values(|x: String| x@).push(all_txns[i as int]));
            }
            i = i + 1;
        }
        let mut i2: usize = 0;
        while i2 < n_txns.len()
            invariant
                i2 <= n_txns.len(),
                ne == e_txns.len(),
                all_txns == e_txns@.map_values(|x: String| x@) + n_txns@.map_values(|x: String| x@),
                txns@.map_values(|x: String| x@) == dedup_first(all_txns.take(ne + i2)),
            decreases n_txns.len() - i2,
        {
            assert(all_txns.take(ne + i2 + 1).drop_last() =~= all_txns.take(ne + i2));
            let t = n_txns[i2].clone();
            assert(all_txns.take(ne + i2 + 1).last() == t@);
            if !contains_text(&txns, &t) {
                let ghost before = txns@;
                txns.push(t);
                assert(txns@.map_values(|x: String| x@) =~= before.map_values(|x: String| x@).push(all_txns[ne + i2]));
            }
            i2 = i2 + 1;
        }
        assert(all_txns.take(ne + n_txns.len()) =~= all_txns);
        let number_list = join_pieces(&txns, LIST_SEPARATOR);

        let e_times = times_of(existing);
        let n_times = times_of(new_bill);
        let ghost all_times = e_times@.map_values(|x: String| x@) + n_times@.map_values(|x: String| x@);
        let te = e_times.len();
        let mut end_time = String::new();
        let mut j: usize = 0;
        while j < te
            invariant
                j <= te,
                te == e_times.len(),
                all_times == e_times@.map_values(|x: String| x@) + n_times@.map_values(|x: String| x@),
                end_time@ == lex_max(all_times.take(j as int)),
            decreases te - j,
        {
            assert(all_times.take(j + 1).drop_last() =~= all_times.take(j as int));
            let t = e_times[j].clone();
            assert(all_times.take(j + 1).last() == t@);
            if j == 0 {
                assert(all_times.take(1) =~= seq![t@]);
                end_time = t;
            } else {
                let a = chars_of(end_time.as_str());
                let b = chars_of(t.as_str());
                if chars_le(&a, &b) {
                    end_time = t;
                }
            }
            j = j + 1;
        }
        let mut j2: usize = 0;
        while j2 < n_times.len()
            invariant
                j2 <= n_times.len(),
                te == e_times.len(),
                all_times == e_times@.map_values(|x: String| x@) + n_times@.map_values(|x: String| x@),
                end_time@ == lex_max(all_times.take(te + j2)),
            decreases n_times.len() - j2,
        {
            assert(all_times.take(te + j2 + 1).drop_last() =~= all_times.take(te + j2));
            let t = n_times[j2].clone();
            assert(all_times.take(te + j2 + 1).last() == t@);
            if te == 0 && j2 == 0 {
                assert(all_times.take(1) =~= seq![t@]);
                end_time = t;
            } else {
                let a = chars_of(end_time.as_str());
                let b = chars_of(t.as_str());
                if chars_le(&a, &b) {
                    end_time = t;
                }
            }
            j2 = j2 + 1;
        }
        assert(all_times.take(te + n_times.len()) =~= all_times);

        MergedBillRecord {
            id: new_bill.id,
            identity_id: new_bill.identity_id,
            date_str: space_piece_exec(&end_time, 0),
            time_str: space_piece_exec(&end_time, 1),
            time_str_formatted: Some(end_time.clone()),
            date_time_formatted: Some(end_time.clone()),
            end_date_time_formatted: Some(end_time.clone()),
            timestamp: new_bill.timestamp,
            end_timestamp: new_bill.timestamp,
            item_type: new_bill.item_type.clone(),
            number: new_bill.number.clone(),
            number_list: Some(number_list),
            target_user: new_bill.target_user.clone(),
            money_str: Some(money_str),
            money_bits: Some(money_bits),
            method: new_bill.method.clone(),
            status_str: new_bill.status_str.clone(),
            is_combined: true,
            source_account_id: new_bill.source_account_id.clone(),
            is_manual: new_bill.is_manual,
            position: new_bill.position.clone(),
            room: new_bill.room.clone(),
            category: new_bill.category.clone(),
            notes: new_bill.notes.clone(),
            synced_at: Some(synced_at),
        }
    }
}

} // verus!
