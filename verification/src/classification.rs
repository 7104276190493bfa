//! Bill classification: consumption type, location and meal period of a bill.
use vstd::prelude::*;

use crate::net::{parse_u32, parse_u32_chars};
use crate::stats::{date_days, parse_date_days};
use crate::text::{
    chars_of, contains, contains_chars, find_chars, find_first, lex_le, lex_lt, owned, slice_chars, str_eq, str_le,
};

verus! {

/// Result of classifying one bill.
#[derive(Debug, Clone)]
pub struct ClassificationResult {
    /// Consumption type (deposit, electricity, bath, ...).
    pub type_label: Option<String>,
    /// Building.
    pub building: Option<String>,
    /// Room or counter.
    pub room: Option<String>,
    /// Meal period.
    pub meal: Option<String>,
}

/// A type rule: a label and the texts that select it.
#[derive(Debug, Clone)]
pub struct TypeRule {
    pub name: String,
    /// `"item_type"` matches on the bill type, `"target_user"` or `"target"` on the counterparty.
    pub match_field: String,
    pub match_names: Vec<String>,
    pub match_targets: Vec<String>,
}

/// Building and room of a counterparty.
#[derive(Debug, Clone)]
pub struct PositionKeyword {
    pub building: String,
    pub room: String,
}

/// Location rules: counterparty name mapped to a building and room.
#[derive(Debug, Clone)]
pub struct PositionConfig {
    pub field: String,
    /// Entries keyed by the exact counterparty name.
    pub keywords: Vec<(String, PositionKeyword)>,
}

/// A meal period: `[start_time, end_time)` in `HH:MM` text.
#[derive(Debug, Clone)]
pub struct MealSlot {
    pub name: String,
    pub start_time: String,
    pub end_time: String,
}

/// The meal periods of one schedule.
#[derive(Debug, Clone)]
pub struct Timetable {
    pub breakfast: Option<MealSlot>,
    pub lunch: Option<MealSlot>,
    pub dinner: Option<MealSlot>,
    pub midnight_snack: Option<MealSlot>,
}

/// Validity range of a schedule; an `end_date` of `"now"` is open ended.
#[derive(Debug, Clone)]
pub struct ValidDate {
    pub start_date: String,
    pub end_date: String,
}

/// A timetable with the dates it applies to.
#[derive(Debug, Clone)]
pub struct ScheduleRule {
    pub valid_date: ValidDate,
    pub timetable: Timetable,
}

/// All classification rules.
#[derive(Debug, Clone)]
pub struct ClassificationRules {
    /// Type rules by key, in definition order.
    pub type_rules: Vec<(String, TypeRule)>,
    pub position: PositionConfig,
    pub schedule: Vec<ScheduleRule>,
}

/// The classification engine.
pub struct BillClassifier {
    rules: ClassificationRules,
}

/// Some element of `pats` occurs in `text`.
pub open spec fn any_occurs(pats: Seq<String>, text: Seq<char>) -> bool {
    exists|i: int| 0 <= i < pats.len() && contains(text, #[trigger] pats[i]@)
}

/// A type rule selects a bill with this type and counterparty.
pub open spec fn rule_matches(rule: TypeRule, item_type: Seq<char>, target_user: Seq<char>) -> bool {
    if rule.match_field@ == "item_type"@ {
        any_occurs(rule.match_names@, item_type)
    } else if rule.match_field@ == "target_user"@ || rule.match_field@ == "target"@ {
        any_occurs(rule.match_targets@, target_user)
    } else {
        false
    }
}

/// Name of the first rule, in order, that selects the bill.
pub open spec fn first_type_label(
    rules: Seq<(String, TypeRule)>,
    item_type: Seq<char>,
    target_user: Seq<char>,
) -> Option<Seq<char>>
    decreases rules.len(),
{
    if rules.len() == 0 {
        None
    } else if rule_matches(rules[0].1, item_type, target_user) {
        Some(rules[0].1.name@)
    } else {
        first_type_label(rules.drop_first(), item_type, target_user)
    }
}

/// Building and room of the first location entry whose key is exactly `target_user`.
pub open spec fn position_of(keywords: Seq<(String, PositionKeyword)>, target_user: Seq<char>) -> Option<(Seq<char>, Seq<char>)>
    decreases keywords.len(),
{
    if keywords.len() == 0 {
        None
    } else if keywords[0].0@ == target_user {
        Some((keywords[0].1.building@, keywords[0].1.room@))
    } else {
        position_of(keywords.drop_first(), target_user)
    }
}

/// The present slots of a timetable: breakfast, lunch, dinner, midnight snack.
pub open spec fn slots_of(t: Timetable) -> Seq<MealSlot> {
    let s0 = Seq::<MealSlot>::empty();
    let s1 = match t.breakfast { Some(s) => s0.push(s), None => s0 };
    let s2 = match t.lunch { Some(s) => s1.push(s), None => s1 };
    let s3 = match t.dinner { Some(s) => s2.push(s), None => s2 };
    match t.midnight_snack { Some(s) => s3.push(s), None => s3 }
}

/// `a` is on or before `b`: as calendar days where both read as `YYYY.M.D` dates (so that
/// `2019.9.1` comes before `2019.10.01`), else as text.
pub open spec fn date_le(a: Seq<char>, b: Seq<char>) -> bool {
    match (date_days(a, "%Y.%m.%d"@), date_days(b, "%Y.%m.%d"@)) {
        (Some(x), Some(y)) => x <= y,
        _ => lex_le(a, b),
    }
}

/// A date lies in the validity range, compared as calendar days; `"now"` leaves the end
/// open.
pub open spec fn date_valid(current: Seq<char>, v: ValidDate) -> bool {
    date_le(v.start_date@, current) && (v.end_date@ == "now"@ || date_le(current, v.end_date@))
}

/// Minutes since midnight of an `H:MM` clock time (hours and minutes as unsigned numbers
/// around the first `:`), if it reads as one.
pub open spec fn clock_minutes(t: Seq<char>) -> Option<int> {
    match find_first(t, ":"@) {
        Some(i) => match (parse_u32(t.take(i)), parse_u32(t.skip(i + 1))) {
            (Some(h), Some(m)) => Some(h * 60 + m),
            _ => None,
        },
        None => None,
    }
}

/// `a` is strictly before `b`: as clock times where both read as such (so that `6:30`
/// comes before `07:00`), else as text.
pub open spec fn clock_lt(a: Seq<char>, b: Seq<char>) -> bool {
    match (clock_minutes(a), clock_minutes(b)) {
        (Some(x), Some(y)) => x < y,
        _ => lex_lt(a, b),
    }
}

/// A time lies in `[start_time, end_time)`, compared as clock times.
pub open spec fn in_slot(time: Seq<char>, slot: MealSlot) -> bool {
    !clock_lt(time, slot.start_time@) && clock_lt(time, slot.end_time@)
}

/// Name of the first slot, in order, that contains the time.
pub open spec fn first_slot(slots: Seq<MealSlot>, time: Seq<char>) -> Option<Seq<char>>
    decreases slots.len(),
{
    if slots.len() == 0 {
        None
    } else if in_slot(time, slots[0]) {
        Some(slots[0].name@)
    } else {
        first_slot(slots.drop_first(), time)
    }
}

/// Meal of a date and time: the first slot that contains the time, in the first
/// valid schedule that has one.
pub open spec fn meal_of(schedule: Seq<ScheduleRule>, date: Seq<char>, time: Seq<char>) -> Option<Seq<char>>
    decreases schedule.len(),
{
    if schedule.len() == 0 {
        None
    } else if date_valid(date, schedule[0].valid_date) && first_slot(slots_of(schedule[0].timetable), time) is Some {
        first_slot(slots_of(schedule[0].timetable), time)
    } else {
        meal_of(schedule.drop_first(), date, time)
    }
}

/// View of an optional string.
pub open spec fn opt_view(o: Option<String>) -> Option<Seq<char>> {
    match o {
        Some(s) => Some(s@),
        None => None,
    }
}

/// Offset of China Standard Time from UTC, in seconds; bill times are campus times.
pub const CST_OFFSET_SECONDS: i32 = 28800;

/// The `YYYY.MM.DD` date and `HH:MM` time of a Unix timestamp at a fixed UTC offset,
/// as chrono formats them.
pub uninterp spec fn clock_at(timestamp: i64, offset_seconds: i32) -> Option<(Seq<char>, Seq<char>)>;

/// Formats a timestamp at a fixed offset with chrono (`FixedOffset::timestamp_opt`,
/// `format("%Y.%m.%d")`, `format("%H:%M")`). The contract only names the result; it says
/// nothing of the calendar arithmetic.
#[verifier::external_body]
fn clock_strings(timestamp: i64, offset_seconds: i32) -> (r: Option<(String, String)>)
    requires
        -86400 < offset_seconds < 86400,
    ensures
        match r {
            Some((d, t)) => clock_at(timestamp, offset_seconds) == Some((d@, t@)),
            None => clock_at(timestamp, offset_seconds) is None,
        },
{
    let tz = chrono::FixedOffset::east_opt(offset_seconds).unwrap();
    let dt = chrono::TimeZone::timestamp_opt(&tz, timestamp, 0).single()?;
    Some((dt.format("%Y.%m.%d").to_string(), dt.format("%H:%M").to_string()))
}

fn any_occurs_exec(pats: &Vec<String>, text: &Vec<char>) -> (b: bool)
    ensures
        b == any_occurs(pats@, text@),
{
    let mut i: usize = 0;
    while i < pats.len()
        invariant
            i <= pats.len(),
            forall|j: int| 0 <= j < i ==> !contains(text@, #[trigger] pats@[j]@),
        decreases pats.len() - i,
    {
        let p = chars_of(pats[i].as_str());
        if contains_chars(text, &p) {
            return true;
        }
        i = i + 1;
    }
    false
}

impl Timetable {
    /// The present slots, in the order breakfast, lunch, dinner, midnight snack.
    pub fn all_slots(&self) -> (v: Vec<&MealSlot>)
        ensures
            v@.len() == slots_of(*self).len(),
            forall|i: int| 0 <= i < v@.len() ==> *#[trigger] v@[i] == slots_of(*self)[i],
    {
        let mut slots: Vec<&MealSlot> = Vec::new();
        if let Some(ref s) = self.breakfast {
            slots.push(s);
        }
        if let Some(ref s) = self.lunch {
            slots.push(s);
        }
        if let Some(ref s) = self.dinner {
            slots.push(s);
        }
        if let Some(ref s) = self.midnight_snack {
            slots.push(s);
        }
        slots
    }
}

impl ClassificationResult {
    /// Fills in building and room when a location is known.
    pub fn with_position(self, pos: Option<(&str, &str)>) -> (r: Self)
        ensures
            r.type_label == self.type_label,
            r.meal == self.meal,
            match pos {
                Some((b, rm)) => opt_view(r.building) == Some(b@) && opt_view(r.room) == Some(rm@),
                None => r.building == self.building && r.room == self.room,
            },
    {
        let mut res = self;
        if let Some((building, room)) = pos {
            res.building = Some(owned(building));
            res.room = Some(owned(room));
        }
        res
    }
}

impl BillClassifier {
    /// A classifier over the given rules.
    pub fn new(rules: ClassificationRules) -> (c: Self)
        ensures
            c.rule_set() == rules,
    {
        BillClassifier { rules }
    }

    /// The rules this classifier applies.
    pub closed spec fn rule_set(&self) -> ClassificationRules {
        self.rules
    }

    /// Classifies one bill: type from the type rules, location from the exact
    /// counterparty name, meal period from the campus time of `timestamp`.
    pub fn classify(&self, item_type: &str, target_user: &str, timestamp: i64) -> (r: ClassificationResult)
        ensures
            opt_view(r.type_label) == first_type_label(self.rule_set().type_rules@, item_type@, target_user@),
            match position_of(self.rule_set().position.keywords@, target_user@) {
                Some((b, rm)) => opt_view(r.building) == Some(b) && opt_view(r.room) == Some(rm),
                None => r.building is None && r.room is None,
            },
            opt_view(r.meal) == (match clock_at(timestamp, CST_OFFSET_SECONDS) {
                Some((d, t)) => meal_of(self.rule_set().schedule@, d, t),
                None => None,
            }),
    {
        let base = ClassificationResult {
            type_label: self.classify_type(item_type, target_user),
            building: None,
            room: None,
            meal: self.classify_meal(timestamp),
        };
        base.with_position(self.classify_position(target_user))
    }

    /// Type of a bill: the name of the first type rule, in definition order, that selects it.
    pub fn classify_type(&self, item_type: &str, target_user: &str) -> (r: Option<String>)
        ensures
            opt_view(r) == first_type_label(self.rule_set().type_rules@, item_type@, target_user@),
    {
        let it = chars_of(item_type);
        let tu = chars_of(target_user);
        let rules = &self.rules.type_rules;
        let mut i: usize = 0;
        assert(rules@.skip(0) =~= rules@);
        while i < rules.len()
            invariant
                i <= rules.len(),
                rules@ == self.rule_set().type_rules@,
                it@ == item_type@,
                tu@ == target_user@,
                first_type_label(rules@, item_type@, target_user@)
                    == first_type_label(rules@.skip(i as int), item_type@, target_user@),
            decreases rules.len() - i,
        {
            let rule = &rules[i].1;
            assert(rules@.skip(i as int)[0] == rules@[i as int]);
            assert(rules@.skip(i as int).drop_first() =~= rules@.skip(i + 1));
            let matched = if str_eq(rule.match_field.as_str(), "item_type") {
                any_occurs_exec(&rule.match_names, &it)
            } else if str_eq(rule.match_field.as_str(), "target_user") || str_eq(
                rule.match_field.as_str(),
                "target",
            ) {
                any_occurs_exec(&rule.match_targets, &tu)
            } else {
                false
            };
            if matched {
                return Some(rule.name.clone());
            }
            i = i + 1;
        }
        None
    }

    /// Location of a counterparty: the entry whose key is exactly `target_user`.
    pub fn classify_position(&self, target_user: &str) -> (r: Option<(&str, &str)>)
        ensures
            match position_of(self.rule_set().position.keywords@, target_user@) {
                Some((b, rm)) => r matches Some((rb, rr)) && rb@ == b && rr@ == rm,
                None => r is None,
            },
    {
        let kws = &self.rules.position.keywords;
        let mut i: usize = 0;
        assert(kws@.skip(0) =~= kws@);
        while i < kws.len()
            invariant
                i <= kws.len(),
                kws@ == self.rule_set().position.keywords@,
                position_of(kws@, target_user@) == position_of(kws@.skip(i as int), target_user@),
            decreases kws.len() - i,
        {
            assert(kws@.skip(i as int)[0] == kws@[i as int]);
            assert(kws@.skip(i as int).drop_first() =~= kws@.skip(i + 1));
            if str_eq(kws[i].0.as_str(), target_user) {
                return Some((kws[i].1.building.as_str(), kws[i].1.room.as_str()));
            }
            i = i + 1;
        }
        None
    }

    /// Meal period of a timestamp, read at campus time (China Standard Time).
    pub fn classify_meal(&self, timestamp: i64) -> (r: Option<String>)
        ensures
            opt_view(r) == (match clock_at(timestamp, CST_OFFSET_SECONDS) {
                Some((d, t)) => meal_of(self.rule_set().schedule@, d, t),
                None => None,
            }),
    {
        match clock_strings(timestamp, CST_OFFSET_SECONDS) {
            Some((date, time)) => self.meal_at(date.as_str(), time.as_str()),
            None => None,
        }
    }

    /// Meal period of a `YYYY.MM.DD` date and `HH:MM` time.
    pub fn meal_at(&self, current_date: &str, time_str: &str) -> (r: Option<String>)
        ensures
            opt_view(r) == meal_of(self.rule_set().schedule@, current_date@, time_str@),
    {
        let schedule = &self.rules.schedule;
        let mut i: usize = 0;
        assert(schedule@.skip(0) =~= schedule@);
        while i < schedule.len()
            invariant
                i <= schedule.len(),
                schedule@ == self.rule_set().schedule@,
                meal_of(schedule@, current_date@, time_str@)
                    == meal_of(schedule@.skip(i as int), current_date@, time_str@),
            decreases schedule.len() - i,
        {
            let rule = &schedule[i];
            assert(schedule@.skip(i as int)[0] == schedule@[i as int]);
            assert(schedule@.skip(i as int).drop_first() =~= schedule@.skip(i + 1));
            if Self::is_date_valid(current_date, &rule.valid_date) {
                let slots = rule.timetable.all_slots();
                let ghost ss = slots_of(rule.timetable);
                let mut k: usize = 0;
                assert(ss.skip(0) =~= ss);
                while k < slots.len()
                    invariant
                        k <= slots.len(),
                        i < schedule.len(),
                        schedule@ == self.rule_set().schedule@,
                        meal_of(schedule@, current_date@, time_str@)
                            == meal_of(schedule@.skip(i as int), current_date@, time_str@),
                        schedule@.skip(i as int)[0] == schedule@[i as int],
                        date_valid(current_date@, schedule@[i as int].valid_date),
                        ss == slots_of(schedule@[i as int].timetable),
                        slots@.len() == ss.len(),
                        forall|j: int| 0 <= j < slots@.len() ==> *#[trigger] slots@[j] == ss[j],
                        first_slot(ss, time_str@) == first_slot(ss.skip(k as int), time_str@),
                    decreases slots.len() - k,
                {
                    let slot = slots[k];
                    assert(ss.skip(k as int)[0] == ss[k as int]);
                    assert(ss.skip(k as int).drop_first() =~= ss.skip(k + 1));
                    let after_start = !clock_before(time_str, slot.start_time.as_str());
                    let before_end = clock_before(time_str, slot.end_time.as_str());
                    if after_start && before_end {
                        return Some(slot.name.clone());
                    }
                    k = k + 1;
                }
                assert(ss.skip(k as int).len() == 0);
            }
            i = i + 1;
        }
        None
    }

    /// The date lies in the validity range; `"now"` leaves the end open.
    pub fn is_date_valid(current: &str, valid_date: &ValidDate) -> (b: bool)
        ensures
            b == date_valid(current@, *valid_date),
    {
        let start_ok = date_on_or_before(valid_date.start_date.as_str(), current);
        let end_ok = if str_eq(valid_date.end_date.as_str(), "now") {
            true
        } else {
            date_on_or_before(current, valid_date.end_date.as_str())
        };
        start_ok && end_ok
    }

    /// The rules this classifier applies.
    pub fn rules(&self) -> (r: &ClassificationRules)
        ensures
            *r == self.rule_set(),
    {
        &self.rules
    }
}

fn date_on_or_before(a: &str, b: &str) -> (r: bool)
    ensures
        r == date_le(a@, b@),
{
    proof {
        reveal_strlit("%Y.%m.%d");
    }
    match (parse_date_days(a, "%Y.%m.%d"), parse_date_days(b, "%Y.%m.%d")) {
        (Some(x), Some(y)) => x <= y,
        _ => str_le(a, b),
    }
}

fn clock_minutes_exec(t: &str) -> (r: Option<u64>)
    ensures
        match clock_minutes(t@) {
            Some(m) => r == Some(m as u64) && 0 <= m <= u64::MAX,
            None => r is None,
        },
{
    let v = chars_of(t);
    let colon = chars_of(":");
    proof {
        reveal_strlit(":");
        assert(colon@ =~= ":"@);
    }
    match find_chars(&v, &colon) {
        Some(i) => {
            let before = slice_chars(&v, 0, i);
            let after = slice_chars(&v, i + 1, v.len());
            assert(before@ =~= v@.take(i as int));
            assert(after@ =~= v@.skip(i + 1));
            match (parse_u32_chars(&before), parse_u32_chars(&after)) {
                (Some(h), Some(m)) => Some(h as u64 * 60 + m as u64),
                _ => None,
            }
        },
        None => None,
    }
}

fn clock_before(a: &str, b: &str) -> (r: bool)
    ensures
        r == clock_lt(a@, b@),
{
    match (clock_minutes_exec(a), clock_minutes_exec(b)) {
        (Some(x), Some(y)) => x < y,
        _ => str_le(a, b) && !str_eq(a, b),
    }
}

} // verus!
