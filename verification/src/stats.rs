//! The non-numeric side of the statistics: which bills count, as income or expense, in
//! which date range, category, meal period and merchant. Amounts are summed by the caller.
use vstd::prelude::*;

use crate::bill_merge::text_or_empty;
use crate::classification::{first_type_label, meal_of, opt_view, BillClassifier, CST_OFFSET_SECONDS, clock_at};
use crate::numbers::strings_view;
use crate::store::{distinct_keys, keys_view, lemma_distinct_keys, MergedBillRecord};
use crate::text::{contains, lex_le, lex_lt, lemma_lex_le_antisym, lemma_lex_le_total, lemma_lex_le_trans, owned, sorted_strict, str_contains, str_eq, str_le};

verus! {

/// Keywords that mark income (deposits, reversals, refunds, returns, compensation).
pub open spec fn income_keywords() -> Seq<Seq<char>> {
    seq!["充值"@, "冲正"@, "退款"@, "返还"@, "补偿"@]
}

/// A bill is income when an income keyword occurs in its type or counterparty.
pub open spec fn income(m: MergedBillRecord) -> bool {
    exists|i: int| 0 <= i < income_keywords().len() && (contains(text_or_empty(m.item_type), #[trigger] income_keywords()[i])
        || contains(text_or_empty(m.target_user), income_keywords()[i]))
}

fn text_of(o: &Option<String>) -> (r: &str)
    ensures
        r@ == text_or_empty(*o),
{
    proof {
        reveal_strlit("");
    }
    match o {
        Some(s) => s.as_str(),
        None => "",
    }
}

/// Whether a bill is income.
pub fn is_income(model: &MergedBillRecord) -> (b: bool)
    ensures
        b == income(*model),
{
    let item_type = text_of(&model.item_type);
    let target_user = text_of(&model.target_user);
    let mut kws: Vec<String> = Vec::new();
    kws.push(owned("充值"));
    kws.push(owned("冲正"));
    kws.push(owned("退款"));
    kws.push(owned("返还"));
    kws.push(owned("补偿"));
    let mut i: usize = 0;
    while i < kws.len()
        invariant
            i <= kws.len(),
            kws@.len() == income_keywords().len(),
            forall|k: int| 0 <= k < kws@.len() ==> #[trigger] kws@[k]@ == income_keywords()[k],
            item_type@ == text_or_empty(model.item_type),
            target_user@ == text_or_empty(model.target_user),
            forall|k: int| 0 <= k < i ==> !(contains(text_or_empty(model.item_type), #[trigger] income_keywords()[k])
                || contains(text_or_empty(model.target_user), income_keywords()[k])),
        decreases kws.len() - i,
    {
        if str_contains(item_type, kws[i].as_str()) || str_contains(target_user, kws[i].as_str()) {
            assert(contains(text_or_empty(model.item_type), income_keywords()[i as int])
                || contains(text_or_empty(model.target_user), income_keywords()[i as int]));
            return true;
        }
        i = i + 1;
    }
    false
}

/// The day number (days since 0001-01-01, counted from 1) of a date text read with a
/// chrono format, or `None` where chrono refuses it.
pub uninterp spec fn date_days(text: Seq<char>, format: Seq<char>) -> Option<int>;

/// Parses a date with `chrono::NaiveDate::parse_from_str` and gives its
/// `num_days_from_ce`; the contract names the result.
#[verifier::external_body]
pub(crate) fn parse_date_days(text: &str, format: &str) -> (r: Option<i32>)
    ensures
        match r {
            Some(d) => date_days(text@, format@) == Some(d as int),
            None => date_days(text@, format@) is None,
        },
{
    chrono::Datelike::num_days_from_ce(&chrono::NaiveDate::parse_from_str(text, format).ok()?).into()
}

/// Day number of a bill date in `YYYY.MM.DD`, `YYYY-MM-DD` or `YYYY/MM/DD` form, trying
/// the forms in that order.
pub open spec fn bill_date(s: Seq<char>) -> Option<int> {
    if date_days(s, "%Y.%m.%d"@) is Some {
        date_days(s, "%Y.%m.%d"@)
    } else if date_days(s, "%Y-%m-%d"@) is Some {
        date_days(s, "%Y-%m-%d"@)
    } else {
        date_days(s, "%Y/%m/%d"@)
    }
}

/// Parses a bill date, see [`bill_date`].
pub fn parse_bill_date(date_str: &str) -> (r: Option<i32>)
    ensures
        match r {
            Some(d) => bill_date(date_str@) == Some(d as int),
            None => bill_date(date_str@) is None,
        },
{
    match parse_date_days(date_str, "%Y.%m.%d") {
        Some(d) => Some(d),
        None => match parse_date_days(date_str, "%Y-%m-%d") {
            Some(d) => Some(d),
            None => parse_date_days(date_str, "%Y/%m/%d"),
        },
    }
}

/// Day number of an optional bound, `None` when absent or unreadable.
pub open spec fn bound_days(o: Option<String>) -> Option<int> {
    match o {
        Some(s) => bill_date(s@),
        None => None,
    }
}

/// A bill lies in the date range: its date reads, and is not before the start nor after
/// the end where these read.
pub open spec fn in_date_range(m: MergedBillRecord, start: Option<int>, end: Option<int>) -> bool {
    match bill_date(m.date_str@) {
        Some(d) => (match start { Some(s) => d >= s, None => true }) && (match end { Some(e) => d <= e, None => true }),
        None => false,
    }
}

/// The bills in the date range, in order.
pub open spec fn bills_in_range(ms: Seq<MergedBillRecord>, start: Option<int>, end: Option<int>) -> Seq<MergedBillRecord>
    decreases ms.len(),
{
    if ms.len() == 0 {
        Seq::empty()
    } else {
        let prev = bills_in_range(ms.drop_last(), start, end);
        if in_date_range(ms.last(), start, end) { prev.push(ms.last()) } else { prev }
    }
}

fn bound_of(o: &Option<String>) -> (r: Option<i32>)
    ensures
        match r {
            Some(d) => bound_days(*o) == Some(d as int),
            None => bound_days(*o) is None,
        },
{
    match o {
        Some(s) => parse_bill_date(s.as_str()),
        None => None,
    }
}

/// Keeps the bills whose date lies in the range given by two optional date texts.
pub fn filter_models_by_date(models: Vec<MergedBillRecord>, date_start: &Option<String>, date_end: &Option<String>) -> (r: Vec<MergedBillRecord>)
    ensures
        r@ == bills_in_range(models@, bound_days(*date_start), bound_days(*date_end)),
{
    let start = bound_of(date_start);
    let end = bound_of(date_end);
    let ghost sb = bound_days(*date_start);
    let ghost eb = bound_days(*date_end);
    let mut rest = models;
    let ghost all = rest@;
    let n = rest.len();
    let mut out: Vec<MergedBillRecord> = Vec::new();
    let mut i: usize = 0;
    while i < n
        invariant
            i <= n,
            n == all.len(),
            rest@ == all.skip(i as int),
            match start { Some(d) => sb == Some(d as int), None => sb is None },
            match end { Some(d) => eb == Some(d as int), None => eb is None },
            out@ == bills_in_range(all.take(i as int), sb, eb),
        decreases n - i,
    {
        assert(all.take(i + 1).drop_last() =~= all.take(i as int));
        assert(all.take(i + 1).last() == all[i as int]);
        let m = rest.remove(0);
        assert(rest@ =~= all.skip(i + 1));
        let keep = match parse_bill_date(m.date_str.as_str()) {
            Some(d) => {
                let after_start = match start {
                    Some(s) => d >= s,
                    None => true,
                };
                let before_end = match end {
                    Some(e) => d <= e,
                    None => true,
                };
                after_start && before_end
            },
            None => false,
        };
        if keep {
            out.push(m);
        }
        i = i + 1;
    }
    assert(all.take(n as int) =~= all);
    out
}

/// Category of a bill: its type by the rules, `other` when none applies or no rules are
/// loaded.
pub open spec fn category_of(rules: Option<crate::classification::ClassificationRules>, m: MergedBillRecord, other: Seq<char>) -> Seq<char> {
    match rules {
        Some(r) => match first_type_label(r.type_rules@, text_or_empty(m.item_type), text_or_empty(m.target_user)) {
            Some(l) => l,
            None => other,
        },
        None => other,
    }
}

/// The rules of an optional classifier.
pub open spec fn rules_of(c: Option<&BillClassifier>) -> Option<crate::classification::ClassificationRules> {
    match c {
        Some(cl) => Some(cl.rule_set()),
        None => None,
    }
}

/// Category label of a bill, `other` when none.
pub fn category_label(classifier: Option<&BillClassifier>, model: &MergedBillRecord, other: &str) -> (r: String)
    ensures
        r@ == category_of(rules_of(classifier), *model, other@),
{
    match classifier {
        Some(c) => match c.classify_type(text_of(&model.item_type), text_of(&model.target_user)) {
            Some(l) => l,
            None => owned(other),
        },
        None => owned(other),
    }
}

/// Meal period of a bill at campus time, `other` when none or no rules are loaded.
pub open spec fn meal_label_of(rules: Option<crate::classification::ClassificationRules>, m: MergedBillRecord, other: Seq<char>) -> Seq<char> {
    let ts: i64 = match m.timestamp { Some(t) => t, None => 0 };
    match rules {
        Some(r) => match clock_at(ts, CST_OFFSET_SECONDS) {
            Some((d, t)) => match meal_of(r.schedule@, d, t) {
                Some(l) => l,
                None => other,
            },
            None => other,
        },
        None => other,
    }
}

/// Meal label of a bill, `other` when none.
pub fn meal_label(classifier: Option<&BillClassifier>, model: &MergedBillRecord, other: &str) -> (r: String)
    ensures
        r@ == meal_label_of(rules_of(classifier), *model, other@),
{
    let ts: i64 = match model.timestamp {
        Some(t) => t,
        None => 0,
    };
    match classifier {
        Some(c) => match c.classify_meal(ts) {
            Some(l) => l,
            None => owned(other),
        },
        None => owned(other),
    }
}

/// A bath bill for the forgotten-card statistic: typed bath by the rules, or, with no
/// rules loaded, paid to a shower or hot-water counterparty.
pub open spec fn bath_category(rules: Option<crate::classification::ClassificationRules>, m: MergedBillRecord) -> bool {
    match rules {
        Some(_) => category_of(rules, m, Seq::empty()) == "洗澡"@,
        None => contains(text_or_empty(m.target_user), "淋浴"@) || contains(text_or_empty(m.target_user), "热水"@),
    }
}

/// Whether a bill counts as a bath bill for the forgotten-card statistic.
pub fn is_bath_category(classifier: Option<&BillClassifier>, model: &MergedBillRecord) -> (b: bool)
    ensures
        b == bath_category(rules_of(classifier), *model),
{
    match classifier {
        Some(_) => {
            let empty = String::new();
            let cat = category_label(classifier, model, empty.as_str());
            str_eq(cat.as_str(), "洗澡")
        },
        None => {
            let t = text_of(&model.target_user);
            str_contains(t, "淋浴") || str_contains(t, "热水")
        },
    }
}

/// Merchant of an expense: its counterparty, when not empty; income has none.
pub open spec fn merchant_of(m: MergedBillRecord) -> Option<Seq<char>> {
    if income(m) {
        None
    } else {
        match m.target_user {
            Some(t) => if t@.len() > 0 { Some(t@) } else { None },
            None => None,
        }
    }
}

/// The merchant a bill is ranked under, if any.
pub fn merchant_key(model: &MergedBillRecord) -> (r: Option<String>)
    ensures
        opt_view(r) == merchant_of(*model),
{
    if is_income(model) {
        return None;
    }
    match &model.target_user {
        Some(t) => if crate::text::str_is_empty(t.as_str()) { None } else { Some(t.clone()) },
        None => None,
    }
}

/// Number of income bills.
pub open spec fn income_count(ms: Seq<MergedBillRecord>) -> int
    decreases ms.len(),
{
    if ms.len() == 0 { 0 } else { income_count(ms.drop_last()) + if income(ms.last()) { 1int } else { 0int } }
}

/// Number of distinct dates (as text).
pub open spec fn distinct_dates(ms: Seq<MergedBillRecord>) -> Set<Seq<char>> {
    ms.map_values(|m: MergedBillRecord| m.date_str@).to_set()
}

/// Counts of a summary: expense bills, income bills, and distinct dates (at least one,
/// the divisor of the daily average).
pub fn summary_counts(models: &Vec<MergedBillRecord>) -> (r: (u32, u32, usize))
    requires
        models@.len() <= u32::MAX,
    ensures
        r.1 == income_count(models@),
        r.0 + r.1 == models@.len(),
        r.2 == if distinct_dates(models@).len() > 0 { distinct_dates(models@).len() } else { 1 },
{
    let mut expense: u32 = 0;
    let mut income_n: u32 = 0;
    let mut dates: Vec<String> = Vec::new();
    let mut i: usize = 0;
    proof {
        assert(models@.take(0).map_values(|m: MergedBillRecord| m.date_str@) =~= Seq::<Seq<char>>::empty());
        assert(Seq::<Seq<char>>::empty().to_set() =~= Set::<Seq<char>>::empty());
    }
    while i < models.len()
        invariant
            i <= models.len() <= u32::MAX,
            income_n == income_count(models@.take(i as int)),
            expense + income_n == i,
            dates@.map_values(|s: String| s@).no_duplicates(),
            dates@.map_values(|s: String| s@).to_set() == distinct_dates(models@.take(i as int)),
        decreases models.len() - i,
    {
        assert(models@.take(i + 1).drop_last() =~= models@.take(i as int));
        assert(models@.take(i + 1).last() == models@[i as int]);
        if is_income(&models[i]) {
            income_n = income_n + 1;
        } else {
            expense = expense + 1;
        }
        let d = &models[i].date_str;
        let ghost before = dates@.map_values(|s: String| s@);
        let mut found = false;
        let mut k: usize = 0;
        while k < dates.len()
            invariant
                k <= dates.len(),
                before == dates@.map_values(|s: String| s@),
                found == exists|j: int| 0 <= j < k && #[trigger] before[j] == d@,
            decreases dates.len() - k,
        {
            assert(before[k as int] == dates@[k as int]@);
            if str_eq(dates[k].as_str(), d.as_str()) {
                found = true;
            }
            k = k + 1;
        }
        proof {
            assert(models@.take(i + 1).map_values(|m: MergedBillRecord| m.date_str@)
                =~= models@.take(i as int).map_values(|m: MergedBillRecord| m.date_str@).push(d@));
            models@.take(i as int).map_values(|m: MergedBillRecord| m.date_str@).lemma_push_to_set_commute(d@);
        }
        if !found {
            dates.push(d.clone());
            proof {
                assert(dates@.map_values(|s: String| s@) =~= before.push(d@));
                before.lemma_push_to_set_commute(d@);
                assert forall|a: int, b: int| 0 <= a < b < before.push(d@).len() implies before.push(d@)[a] != before.push(d@)[b] by {
                    if b == before.len() {
                        assert(before[a] != d@);
                    }
                }
            }
        } else {
            proof {
                assert(before.to_set().insert(d@) =~= before.to_set());
            }
        }
        i = i + 1;
    }
    assert(models@.take(models.len() as int) =~= models@);
    proof {
        dates@.map_values(|s: String| s@).unique_seq_to_set();
    }
    let days = if dates.len() > 0 { dates.len() } else { 1 };
    (expense, income_n, days)
}

/// Parameters of the statistics queries.
#[derive(Debug, Clone)]
pub struct StatisticsParams {
    pub identity_id: i64,
    pub date_start: Option<String>,
    pub date_end: Option<String>,
}

/// Parameters of the statistics of one category.
#[derive(Debug, Clone)]
pub struct CategorySummaryParams {
    pub identity_id: i64,
    pub category: String,
    pub date_start: Option<String>,
    pub date_end: Option<String>,
}

/// Item `label` lies in group `g` of `keys`: none for no label, else the group whose key
/// is the label.
pub open spec fn grouped_under(keys: Seq<Seq<char>>, g: Option<usize>, label: Option<Seq<char>>) -> bool {
    match label {
        None => g is None,
        Some(k) => match g {
            Some(j) => j < keys.len() && keys[j as int] == k,
            None => false,
        },
    }
}

fn position_of_key(ks: &Vec<String>, k: &str) -> (r: Option<usize>)
    ensures
        match r {
            Some(j) => j < ks@.len() && ks@[j as int]@ == k@,
            None => !strings_view(ks@).contains(k@),
        },
{
    let mut i: usize = 0;
    while i < ks.len()
        invariant
            i <= ks.len(),
            forall|j: int| 0 <= j < i ==> ks@[j]@ != k@,
        decreases ks.len() - i,
    {
        if str_eq(ks[i].as_str(), k) {
            return Some(i);
        }
        i = i + 1;
    }
    proof {
        if strings_view(ks@).contains(k@) {
            let j = choose|j: int| 0 <= j < strings_view(ks@).len() && strings_view(ks@)[j] == k@;
            assert(ks@[j]@ == k@);
        }
    }
    None
}

/// Groups labelled items: the distinct labels in order of first occurrence (each once),
/// and for each item the group of its label, none for an unlabelled item.
pub fn group_labels(labels: &Vec<Option<String>>) -> (r: (Vec<String>, Vec<Option<usize>>))
    ensures
        strings_view(r.0@) == distinct_keys(keys_view(labels@)),
        strings_view(r.0@).no_duplicates(),
        r.1@.len() == labels@.len(),
        forall|i: int| 0 <= i < labels@.len() ==> grouped_under(strings_view(r.0@), #[trigger] r.1@[i], keys_view(labels@)[i]),
{
    let ghost kv = keys_view(labels@);
    let mut keys: Vec<String> = Vec::new();
    let mut groups: Vec<Option<usize>> = Vec::new();
    let mut i: usize = 0;
    while i < labels.len()
        invariant
            i <= labels.len(),
            kv == keys_view(labels@),
            strings_view(keys@) == distinct_keys(kv.take(i as int)),
            groups@.len() == i,
            forall|t: int| 0 <= t < i ==> grouped_under(strings_view(keys@), #[trigger] groups@[t], kv[t]),
        decreases labels.len() - i,
    {
        assert(kv.take(i + 1).drop_last() =~= kv.take(i as int));
        assert(kv.take(i + 1).last() == kv[i as int]);
        match &labels[i] {
            Some(k) => {
                match position_of_key(&keys, k.as_str()) {
                    Some(j) => {
                        assert(strings_view(keys@)[j as int] == k@);
                        groups.push(Some(j));
                    },
                    None => {
                        let ghost before = keys@;
                        keys.push(k.clone());
                        assert(strings_view(keys@) =~= strings_view(before).push(k@));
                        assert forall|t: int| 0 <= t < i implies grouped_under(strings_view(keys@), #[trigger] groups@[t], kv[t]) by {
                            assert(grouped_under(strings_view(before), groups@[t], kv[t]));
                        }
                        groups.push(Some(keys.len() - 1));
                    },
                }
            },
            None => {
                groups.push(None);
            },
        }
        i = i + 1;
    }
    assert(kv.take(labels.len() as int) =~= kv);
    proof {
        lemma_distinct_keys(kv);
    }
    (keys, groups)
}

/// Category of an expense under the category statistic (`其他` when unclassified); income
/// has none.
pub open spec fn expense_category(rules: Option<crate::classification::ClassificationRules>, m: MergedBillRecord) -> Option<Seq<char>> {
    if income(m) { None } else { Some(category_of(rules, m, "其他"@)) }
}

/// Meal period of an expense under the meal statistic (`非用餐时段` outside meals); income
/// has none.
pub open spec fn expense_meal(rules: Option<crate::classification::ClassificationRules>, m: MergedBillRecord) -> Option<Seq<char>> {
    if income(m) { None } else { Some(meal_label_of(rules, m, "非用餐时段"@)) }
}

/// Groups the expenses by category, for the category distribution: the categories in
/// order of first occurrence and the group of each bill (none for income). The amounts
/// of each group are summed by the caller.
pub fn category_groups(classifier: Option<&BillClassifier>, models: &Vec<MergedBillRecord>) -> (r: (Vec<String>, Vec<Option<usize>>))
    ensures
        strings_view(r.0@) == distinct_keys(models@.map_values(|m: MergedBillRecord| expense_category(rules_of(classifier), m))),
        strings_view(r.0@).no_duplicates(),
        r.1@.len() == models@.len(),
        forall|i: int| 0 <= i < models@.len() ==> grouped_under(strings_view(r.0@), #[trigger] r.1@[i], expense_category(rules_of(classifier), models@[i])),
{
    let ghost spec_labels = models@.map_values(|m: MergedBillRecord| expense_category(rules_of(classifier), m));
    let mut labels: Vec<Option<String>> = Vec::new();
    let mut i: usize = 0;
    while i < models.len()
        invariant
            i <= models.len(),
            spec_labels == models@.map_values(|m: MergedBillRecord| expense_category(rules_of(classifier), m)),
            keys_view(labels@) =~= spec_labels.take(i as int),
        decreases models.len() - i,
    {
        let l = if is_income(&models[i]) { None } else { Some(category_label(classifier, &models[i], "其他")) };
        let ghost before = labels@;
        labels.push(l);
        assert(keys_view(labels@) =~= keys_view(before).push(spec_labels[i as int]));
        i = i + 1;
    }
    assert(spec_labels.take(models.len() as int) =~= spec_labels);
    group_labels(&labels)
}

/// Groups the expenses by meal period, for the meal distribution (see [`category_groups`]).
pub fn meal_groups(classifier: Option<&BillClassifier>, models: &Vec<MergedBillRecord>) -> (r: (Vec<String>, Vec<Option<usize>>))
    ensures
        strings_view(r.0@) == distinct_keys(models@.map_values(|m: MergedBillRecord| expense_meal(rules_of(classifier), m))),
        strings_view(r.0@).no_duplicates(),
        r.1@.len() == models@.len(),
        forall|i: int| 0 <= i < models@.len() ==> grouped_under(strings_view(r.0@), #[trigger] r.1@[i], expense_meal(rules_of(classifier), models@[i])),
{
    let ghost spec_labels = models@.map_values(|m: MergedBillRecord| expense_meal(rules_of(classifier), m));
    let mut labels: Vec<Option<String>> = Vec::new();
    let mut i: usize = 0;
    while i < models.len()
        invariant
            i <= models.len(),
            spec_labels == models@.map_values(|m: MergedBillRecord| expense_meal(rules_of(classifier), m)),
            keys_view(labels@) =~= spec_labels.take(i as int),
        decreases models.len() - i,
    {
        let l = if is_income(&models[i]) { None } else { Some(meal_label(classifier, &models[i], "非用餐时段")) };
        let ghost before = labels@;
        labels.push(l);
        assert(keys_view(labels@) =~= keys_view(before).push(spec_labels[i as int]));
        i = i + 1;
    }
    assert(spec_labels.take(models.len() as int) =~= spec_labels);
    group_labels(&labels)
}

/// Groups the expenses by merchant, for the merchant ranking; bills without a merchant
/// and income are in no group.
pub fn merchant_groups(models: &Vec<MergedBillRecord>) -> (r: (Vec<String>, Vec<Option<usize>>))
    ensures
        strings_view(r.0@) == distinct_keys(models@.map_values(|m: MergedBillRecord| merchant_of(m))),
        strings_view(r.0@).no_duplicates(),
        r.1@.len() == models@.len(),
        forall|i: int| 0 <= i < models@.len() ==> grouped_under(strings_view(r.0@), #[trigger] r.1@[i], merchant_of(models@[i])),
{
    let ghost spec_labels = models@.map_values(|m: MergedBillRecord| merchant_of(m));
    let mut labels: Vec<Option<String>> = Vec::new();
    let mut i: usize = 0;
    while i < models.len()
        invariant
            i <= models.len(),
            spec_labels == models@.map_values(|m: MergedBillRecord| merchant_of(m)),
            keys_view(labels@) =~= spec_labels.take(i as int),
        decreases models.len() - i,
    {
        let l = merchant_key(&models[i]);
        let ghost before = labels@;
        labels.push(l);
        assert(keys_view(labels@) =~= keys_view(before).push(spec_labels[i as int]));
        i = i + 1;
    }
    assert(spec_labels.take(models.len() as int) =~= spec_labels);
    group_labels(&labels)
}

/// Positions of the expenses of a category (read with `other` for unclassified bills).
pub open spec fn category_positions(rules: Option<crate::classification::ClassificationRules>, ms: Seq<MergedBillRecord>, category: Seq<char>, other: Seq<char>) -> Seq<int>
    decreases ms.len(),
{
    if ms.len() == 0 {
        Seq::empty()
    } else {
        let prev = category_positions(rules, ms.drop_last(), category, other);
        let m = ms.last();
        if !income(m) && category_of(rules, m, other) == category { prev.push(ms.len() - 1) } else { prev }
    }
}

/// Positions, in order, of the expenses whose category is `category`; `other` names the
/// category of unclassified bills (`其他` for the category summary, empty for the category
/// bill list).
pub fn category_members(classifier: Option<&BillClassifier>, models: &Vec<MergedBillRecord>, category: &str, other: &str) -> (r: Vec<usize>)
    ensures
        r@.map_values(|x: usize| x as int) == category_positions(rules_of(classifier), models@, category@, other@),
{
    let mut out: Vec<usize> = Vec::new();
    let mut i: usize = 0;
    while i < models.len()
        invariant
            i <= models.len(),
            out@.map_values(|x: usize| x as int) == category_positions(rules_of(classifier), models@.take(i as int), category@, other@),
        decreases models.len() - i,
    {
        assert(models@.take(i + 1).drop_last() =~= models@.take(i as int));
        assert(models@.take(i + 1).last() == models@[i as int]);
        if !is_income(&models[i]) {
            let c = category_label(classifier, &models[i], other);
            if str_eq(c.as_str(), category) {
                let ghost before = out@;
                out.push(i);
                assert(out@.map_values(|x: usize| x as int) =~= before.map_values(|x: usize| x as int).push(i as int));
            }
        }
        i = i + 1;
    }
    assert(models@.take(models.len() as int) =~= models@);
    out
}

/// Positions of the bath expenses (the forgotten-card candidates).
pub open spec fn bath_positions(rules: Option<crate::classification::ClassificationRules>, ms: Seq<MergedBillRecord>) -> Seq<int>
    decreases ms.len(),
{
    if ms.len() == 0 {
        Seq::empty()
    } else {
        let prev = bath_positions(rules, ms.drop_last());
        if !income(ms.last()) && bath_category(rules, ms.last()) { prev.push(ms.len() - 1) } else { prev }
    }
}

/// Positions, in order, of the bath expenses; the caller keeps those of exactly five yuan
/// (a shower left running to its cap: the card was forgotten).
pub fn forgot_card_candidates(classifier: Option<&BillClassifier>, models: &Vec<MergedBillRecord>) -> (r: Vec<usize>)
    ensures
        r@.map_values(|x: usize| x as int) == bath_positions(rules_of(classifier), models@),
{
    let mut out: Vec<usize> = Vec::new();
    let mut i: usize = 0;
    while i < models.len()
        invariant
            i <= models.len(),
            out@.map_values(|x: usize| x as int) == bath_positions(rules_of(classifier), models@.take(i as int)),
        decreases models.len() - i,
    {
        assert(models@.take(i + 1).drop_last() =~= models@.take(i as int));
        assert(models@.take(i + 1).last() == models@[i as int]);
        if !is_income(&models[i]) && is_bath_category(classifier, &models[i]) {
            let ghost before = out@;
            out.push(i);
            assert(out@.map_values(|x: usize| x as int) =~= before.map_values(|x: usize| x as int).push(i as int));
        }
        i = i + 1;
    }
    assert(models@.take(models.len() as int) =~= models@);
    out
}

/// The colour of the category at a position of the distribution.
pub open spec fn category_colors() -> Seq<Seq<char>> {
    seq!["#5B8FF9"@, "#5AD8A6"@, "#F6BD16"@, "#E86452"@, "#6DC8EC"@, "#945FB9"@, "#FF9845"@, "#1E9493"@, "#FF99C3"@, "#269A99"@]
}

/// The colour given to the `index`-th category, cycling through ten colours.
pub fn category_color(index: usize) -> (r: &'static str)
    ensures
        r@ == category_colors()[(index % 10) as int],
{
    match index % 10 {
        0 => "#5B8FF9",
        1 => "#5AD8A6",
        2 => "#F6BD16",
        3 => "#E86452",
        4 => "#6DC8EC",
        5 => "#945FB9",
        6 => "#FF9845",
        7 => "#1E9493",
        8 => "#FF99C3",
        _ => "#269A99",
    }
}

proof fn lemma_lex_lt_trans(a: Seq<char>, b: Seq<char>, c: Seq<char>)
    requires
        lex_le(a, b),
        lex_lt(b, c),
    ensures
        lex_lt(a, c),
{
    lemma_lex_le_trans(a, b, c);
    if a == c {
        lemma_lex_le_antisym(b, c);
    }
}

/// The distinct dates of the bills.
pub open spec fn date_set(ms: Seq<MergedBillRecord>) -> Set<Seq<char>> {
    Set::new(|d: Seq<char>| exists|i: int| 0 <= i < ms.len() && (#[trigger] ms[i]).date_str@ == d)
}

fn str_lt(a: &str, b: &str) -> (r: bool)
    ensures
        r == lex_lt(a@, b@),
{
    str_le(a, b) && !str_eq(a, b)
}

/// Groups the bills by date, for the daily trend: the distinct dates in increasing
/// string order, and for each bill the position of its date.
pub fn daily_groups(models: &Vec<MergedBillRecord>) -> (r: (Vec<String>, Vec<usize>))
    ensures
        sorted_strict(strings_view(r.0@)),
        strings_view(r.0@).to_set() == date_set(models@),
        r.1@.len() == models@.len(),
        forall|i: int| 0 <= i < models@.len() ==> (#[trigger] r.1@[i]) < r.0@.len() && r.0@[r.1@[i] as int]@ == models@[i].date_str@,
{
    let mut keys: Vec<String> = Vec::new();
    let mut i: usize = 0;
    while i < models.len()
        invariant
            i <= models.len(),
            sorted_strict(strings_view(keys@)),
            strings_view(keys@).to_set() == date_set(models@.take(i as int)),
        decreases models.len() - i,
    {
        let d = models[i].date_str.as_str();
        let ghost before = strings_view(keys@);
        let mut p: usize = 0;
        while p < keys.len() && str_lt(keys[p].as_str(), d)
            invariant
                p <= keys.len(),
                before == strings_view(keys@),
                forall|a: int| 0 <= a < p ==> lex_lt(#[trigger] before[a], d@),
            decreases keys.len() - p,
        {
            p = p + 1;
        }
        let present = p < keys.len() && str_eq(keys[p].as_str(), d);
        proof {
            assert(models@.take(i + 1) =~= models@.take(i as int).push(models@[i as int]));
        }
        if !present {
            proof {
                if p < keys.len() {
                    lemma_lex_le_total(before[p as int], d@);
                    assert(lex_lt(d@, before[p as int]));
                }
            }
            keys.insert(p, models[i].date_str.clone());
            proof {
                let after = strings_view(keys@);
                assert(after =~= before.insert(p as int, d@));
                assert forall|a: int, b: int| 0 <= a < b < after.len() implies lex_lt(#[trigger] after[a], #[trigger] after[b]) by {
                    if b == p {
                        assert(lex_lt(before[a], d@));
                    } else if a == p {
                        assert(after[b] == before[b - 1]);
                        if b - 1 > p {
                            assert(lex_lt(before[p as int], before[b - 1]));
                            lemma_lex_lt_trans(d@, before[p as int], before[b - 1]);
                        }
                    } else if a < p && b > p {
                        assert(lex_lt(before[a], before[b - 1]));
                    } else if a > p {
                        assert(lex_lt(before[a - 1], before[b - 1]));
                    } else {
                        assert(lex_lt(before[a], before[b]));
                    }
                }
                assert forall|x: Seq<char>| after.to_set().contains(x) <==> date_set(models@.take(i + 1)).contains(x) by {
                    if after.to_set().contains(x) {
                        let k = choose|k: int| 0 <= k < after.len() && after[k] == x;
                        if k == p {
                            assert(models@.take(i + 1)[i as int].date_str@ == x);
                        } else if k < p {
                            assert(before.to_set().contains(before[k]));
                            let w = choose|w: int| 0 <= w < models@.take(i as int).len() && (#[trigger] models@.take(i as int)[w]).date_str@ == before[k];
                            assert(models@.take(i + 1)[w] == models@.take(i as int)[w]);
                        } else {
                            assert(before.to_set().contains(before[k - 1]));
                            let w = choose|w: int| 0 <= w < models@.take(i as int).len() && (#[trigger] models@.take(i as int)[w]).date_str@ == before[k - 1];
                            assert(models@.take(i + 1)[w] == models@.take(i as int)[w]);
                        }
                    }
                    if date_set(models@.take(i + 1)).contains(x) {
                        let w = choose|w: int| 0 <= w < models@.take(i + 1).len() && (#[trigger] models@.take(i + 1)[w]).date_str@ == x;
                        if w == i {
                            assert(after[p as int] == x);
                        } else {
                            assert(models@.take(i as int)[w] == models@.take(i + 1)[w]);
                            assert(date_set(models@.take(i as int)).contains(x));
                            assert(before.to_set().contains(x));
                            let k = choose|k: int| 0 <= k < before.len() && before[k] == x;
                            if k < p {
                                assert(after[k] == x);
                            } else {
                                assert(after[k + 1] == x);
                            }
                        }
                    }
                }
                assert(after.to_set() =~= date_set(models@.take(i + 1)));
            }
        } else {
            proof {
                assert forall|x: Seq<char>| before.to_set().contains(x) <==> date_set(models@.take(i + 1)).contains(x) by {
                    if before.to_set().contains(x) {
                        let w = choose|w: int| 0 <= w < models@.take(i as int).len() && (#[trigger] models@.take(i as int)[w]).date_str@ == x;
                        assert(models@.take(i + 1)[w] == models@.take(i as int)[w]);
                    }
                    if date_set(models@.take(i + 1)).contains(x) {
                        let w = choose|w: int| 0 <= w < models@.take(i + 1).len() && (#[trigger] models@.take(i + 1)[w]).date_str@ == x;
                        if w == i {
                            assert(before[p as int] == x);
                        } else {
                            assert(models@.take(i as int)[w] == models@.take(i + 1)[w]);
                            assert(date_set(models@.take(i as int)).contains(x));
                        }
                    }
                }
                assert(before.to_set() =~= date_set(models@.take(i + 1)));
            }
        }
        i = i + 1;
    }
    assert(models@.take(models.len() as int) =~= models@);
    let mut groups: Vec<usize> = Vec::new();
    let mut j: usize = 0;
    while j < models.len()
        invariant
            j <= models.len(),
            strings_view(keys@).to_set() == date_set(models@),
            groups@.len() == j,
            forall|t: int| 0 <= t < j ==> (#[trigger] groups@[t]) < keys@.len() && keys@[groups@[t] as int]@ == models@[t].date_str@,
        decreases models.len() - j,
    {
        proof {
            assert(date_set(models@).contains(models@[j as int].date_str@));
        }
        match position_of_key(&keys, models[j].date_str.as_str()) {
            Some(g) => {
                groups.push(g);
            },
            None => {
                proof {
                    assert(false);
                }
                groups.push(0);
            },
        }
        j = j + 1;
    }
    (keys, groups)
}

/// A bill counts in the statistics of an identity: it belongs to it and its transaction
/// succeeded.
pub open spec fn counted(m: MergedBillRecord, identity_id: i64) -> bool {
    m.identity_id == identity_id && (m.status_str matches Some(st) && st@ == "交易成功"@)
}

/// The bills that count, in order.
pub open spec fn counted_bills(ms: Seq<MergedBillRecord>, identity_id: i64) -> Seq<MergedBillRecord>
    decreases ms.len(),
{
    if ms.len() == 0 {
        Seq::empty()
    } else {
        let prev = counted_bills(ms.drop_last(), identity_id);
        if counted(ms.last(), identity_id) { prev.push(ms.last()) } else { prev }
    }
}

/// The statistics are made of exactly the successful bills of the identity: every bill
/// kept belongs to it and has the status `交易成功`, and every such bill is kept, in order.
pub proof fn lemma_counted_bills_fields(ms: Seq<MergedBillRecord>, identity_id: i64)
    ensures
        forall|i: int| 0 <= i < counted_bills(ms, identity_id).len() ==> {
            let m = #[trigger] counted_bills(ms, identity_id)[i];
            &&& ms.contains(m)
            &&& m.identity_id == identity_id
            &&& m.status_str matches Some(st) && st@ == "交易成功"@
        },
        forall|j: int| 0 <= j < ms.len() && (#[trigger] ms[j]).identity_id == identity_id
            && (ms[j].status_str matches Some(st) && st@ == "交易成功"@)
            ==> counted_bills(ms, identity_id).contains(ms[j]),
    decreases ms.len(),
{
    if ms.len() > 0 {
        let p = ms.drop_last();
        lemma_counted_bills_fields(p, identity_id);
        let prev = counted_bills(p, identity_id);
        let cur = counted_bills(ms, identity_id);
        assert forall|i: int| 0 <= i < cur.len() implies ms.contains(#[trigger] cur[i]) by {
            if i < prev.len() {
                assert(cur[i] == prev[i]);
                assert(p.contains(prev[i]));
                let q = choose|q: int| 0 <= q < p.len() && p[q] == prev[i];
                assert(ms[q] == prev[i]);
            } else {
                assert(ms[ms.len() - 1] == ms.last());
            }
        }
        assert forall|j: int| 0 <= j < ms.len() && (#[trigger] ms[j]).identity_id == identity_id
            && (ms[j].status_str matches Some(st) && st@ == "交易成功"@)
            implies cur.contains(ms[j]) by {
            if j < ms.len() - 1 {
                assert(p[j] == ms[j]);
                assert(prev.contains(p[j]));
                let q = choose|q: int| 0 <= q < prev.len() && prev[q] == p[j];
                assert(cur[q] == prev[q]);
            } else {
                assert(ms[j] == ms.last());
                assert(cur == prev.push(ms.last()));
                assert(cur[prev.len() as int] == ms[j]);
            }
        }
    }
}

/// Keeps the successful bills of an identity, which all statistics are made of.
pub fn successful_bills(models: Vec<MergedBillRecord>, identity_id: i64) -> (r: Vec<MergedBillRecord>)
    ensures
        r@ == counted_bills(models@, identity_id),
        forall|i: int| 0 <= i < r@.len() ==> models@.contains(#[trigger] r@[i])
            && r@[i].identity_id == identity_id
            && (r@[i].status_str matches Some(st) && st@ == "交易成功"@),
        forall|j: int| 0 <= j < models@.len() && (#[trigger] models@[j]).identity_id == identity_id
            && (models@[j].status_str matches Some(st) && st@ == "交易成功"@)
            ==> r@.contains(models@[j]),
{
    proof {
        lemma_counted_bills_fields(models@, identity_id);
    }
    let mut rest = models;
    let ghost all = rest@;
    let n = rest.len();
    let mut out: Vec<MergedBillRecord> = Vec::new();
    let mut i: usize = 0;
    while i < n
        invariant
            i <= n,
            n == all.len(),
            rest@ == all.skip(i as int),
            out@ == counted_bills(all.take(i as int), identity_id),
        decreases n - i,
    {
        assert(all.take(i + 1).drop_last() =~= all.take(i as int));
        assert(all.take(i + 1).last() == all[i as int]);
        let m = rest.remove(0);
        assert(rest@ =~= all.skip(i + 1));
        let ok = m.identity_id == identity_id && match &m.status_str {
            Some(st) => str_eq(st.as_str(), "交易成功"),
            None => false,
        };
        if ok {
            out.push(m);
        }
        i = i + 1;
    }
    assert(all.take(n as int) =~= all);
    out
}

/// Number of bills, among the first `n`, in group `g`.
pub open spec fn group_count(groups: Seq<Option<usize>>, g: int, n: int) -> int
    decreases n,
{
    if n <= 0 {
        0
    } else {
        group_count(groups, g, n - 1) + if groups[n - 1] == Some(g as usize) { 1int } else { 0int }
    }
}

proof fn lemma_group_count_bound(groups: Seq<Option<usize>>, g: int, n: int)
    requires
        0 <= n,
    ensures
        0 <= group_count(groups, g, n) <= n,
    decreases n,
{
    if n > 0 {
        lemma_group_count_bound(groups, g, n - 1);
    }
}

/// How many bills each of `n` groups holds, given the group of each bill (as the grouping
/// functions give it): entry `g` counts the bills in group `g`.
pub fn group_counts(groups: &Vec<Option<usize>>, n: usize) -> (r: Vec<u32>)
    requires
        groups@.len() <= u32::MAX,
    ensures
        r@.len() == n,
        forall|g: int| 0 <= g < n ==> #[trigger] r@[g] == group_count(groups@, g, groups@.len() as int),
{
    let mut counts: Vec<u32> = Vec::new();
    let mut j: usize = 0;
    while j < n
        invariant
            j <= n,
            counts@.len() == j,
            forall|g: int| 0 <= g < j ==> #[trigger] counts@[g] == 0,
        decreases n - j,
    {
        counts.push(0);
        j = j + 1;
    }
    let mut i: usize = 0;
    while i < groups.len()
        invariant
            i <= groups.len() <= u32::MAX,
            counts@.len() == n,
            forall|g: int| 0 <= g < n ==> #[trigger] counts@[g] == group_count(groups@, g, i as int),
        decreases groups.len() - i,
    {
        match groups[i] {
            Some(k) => {
                if k < n {
                    proof {
                        lemma_group_count_bound(groups@, k as int, i as int);
                    }
                    let c = counts[k];
                    counts.set(k, c + 1);
                }
            },
            None => {},
        }
        proof {
            assert forall|g: int| 0 <= g < n implies #[trigger] counts@[g] == group_count(groups@, g, i + 1) by {
                if groups@[i as int] == Some(g as usize) {
                    assert(groups@[i as int] matches Some(k) && k == g);
                }
            }
        }
        i = i + 1;
    }
    counts
}

} // verus!
