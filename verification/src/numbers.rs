//! Transaction numbers: extraction, normalisation and the number lists stored with bills.
use vstd::prelude::*;

use crate::text::{
    chars_of, compact_whitespace, digits, digits_only, find_chars, find_first, compact_ws,
    slice_chars, string_from_chars, trim, trim_chars,
};

verus! {

/// The JSON array of strings that `serde_json::from_str::<Vec<String>>` reads from a text,
/// or `None` where it refuses the text.
pub uninterp spec fn json_string_list(text: Seq<char>) -> Option<Seq<Seq<char>>>;

/// What `serde_json::to_string` gives for a list of strings: the JSON text, or `None`
/// where it refuses.
pub uninterp spec fn json_of_string_list(items: Seq<Seq<char>>) -> Option<Seq<char>>;

/// View of a list of strings.
pub open spec fn strings_view(v: Seq<String>) -> Seq<Seq<char>> {
    v.map_values(|s: String| s@)
}

/// Parses a JSON array of strings with `serde_json::from_str::<Vec<String>>`.
#[verifier::external_body]
pub(crate) fn parse_string_list_json(text: &str) -> (r: Option<Vec<String>>)
    ensures
        match r {
            Some(v) => json_string_list(text@) == Some(strings_view(v@)),
            None => json_string_list(text@) is None,
        },
{
    serde_json::from_str::<Vec<String>>(text).ok()
}

/// Writes a list of strings as JSON with `serde_json::to_string`.
#[verifier::external_body]
pub(crate) fn string_list_to_json(items: &Vec<String>) -> (r: Option<String>)
    ensures
        opt_str_view(r) == json_of_string_list(strings_view(items@)),
{
    serde_json::to_string(items).ok()
}

/// The marker that precedes a transaction number in older item types.
pub open spec fn marker() -> Seq<char> {
    seq!['交', '易', '号']
}

fn marker_chars() -> (v: Vec<char>)
    ensures
        v@ == marker(),
{
    let mut v: Vec<char> = Vec::new();
    v.push('交');
    v.push('易');
    v.push('号');
    assert(v@ =~= marker());
    v
}

/// `s` without trailing `:` and `：` characters.
pub open spec fn strip_colons_end(s: Seq<char>) -> Seq<char>
    decreases s.len(),
{
    if s.len() > 0 && (s.last() == ':' || s.last() == '：') {
        strip_colons_end(s.drop_last())
    } else {
        s
    }
}

/// Item type with the transaction-number marker and all after it removed.
pub open spec fn normalized_item_type(raw: Seq<char>) -> Seq<char> {
    let compact = compact_ws(raw);
    let before = match find_first(compact, marker()) {
        Some(i) => compact.take(i),
        None => compact,
    };
    trim(strip_colons_end(trim(before)))
}

/// Normalises an item type: whitespace compacted, the text from `交易号` on dropped,
/// and trailing colons and whitespace removed.
pub fn normalize_item_type(raw: &str) -> (r: String)
    ensures
        r@ == normalized_item_type(raw@),
{
    let compact_s = compact_whitespace(raw);
    let compact = chars_of(compact_s.as_str());
    let m = marker_chars();
    let before = match find_chars(&compact, &m) {
        Some(i) => slice_chars(&compact, 0, i),
        None => compact.clone(),
    };
    assert(before@ =~= match find_first(compact@, marker()) {
        Some(i) => compact@.take(i),
        None => compact@,
    });
    let t1 = trim_chars(&before);
    let mut end = t1.len();
    assert(t1@.take(t1.len() as int) =~= t1@);
    while end > 0 && (t1[end - 1] == ':' || t1[end - 1] == '：')
        invariant
            end <= t1.len(),
            strip_colons_end(t1@) == strip_colons_end(t1@.take(end as int)),
        decreases end,
    {
        assert(t1@.take(end as int).drop_last() =~= t1@.take(end - 1));
        end = end - 1;
    }
    let stripped = slice_chars(&t1, 0, end);
    assert(stripped@ =~= t1@.take(end as int));
    let t2 = trim_chars(&stripped);
    string_from_chars(t2.as_slice())
}

/// Digits after the first transaction-number marker, when there are any.
pub open spec fn transaction_number_in(raw: Seq<char>) -> Option<Seq<char>> {
    match find_first(raw, marker()) {
        Some(i) => if digits(raw.skip(i)).len() > 0 { Some(digits(raw.skip(i))) } else { None },
        None => None,
    }
}

/// Extracts the digits that follow `交易号`, e.g. `"充值交易号123456"` gives `"123456"`.
pub fn extract_transaction_number(raw: &str) -> (r: Option<String>)
    ensures
        opt_str_view(r) == transaction_number_in(raw@),
{
    let v = chars_of(raw);
    let m = marker_chars();
    match find_chars(&v, &m) {
        Some(i) => {
            let rest = slice_chars(&v, i, v.len());
            assert(rest@ =~= v@.skip(i as int));
            let rest_s = string_from_chars(rest.as_slice());
            let number = digits_only(rest_s.as_str());
            if crate::text::str_is_empty(number.as_str()) {
                None
            } else {
                Some(number)
            }
        },
        None => None,
    }
}

/// View of an optional string.
pub open spec fn opt_str_view(o: Option<String>) -> Option<Seq<char>> {
    match o {
        Some(s) => Some(s@),
        None => None,
    }
}

/// The digits of the first item of `items` that has any.
pub open spec fn first_digits(items: Seq<Seq<char>>) -> Option<Seq<char>>
    decreases items.len(),
{
    if items.len() == 0 {
        None
    } else if digits(items[0]).len() > 0 {
        Some(digits(items[0]))
    } else {
        first_digits(items.drop_first())
    }
}

/// The first non-empty digit string of a JSON number list.
pub open spec fn first_number_in_list(raw: Seq<char>) -> Option<Seq<char>> {
    match json_string_list(raw) {
        Some(items) => first_digits(items),
        None => None,
    }
}

/// First non-empty all-digit transaction number of a JSON number list.
pub fn first_number_from_number_list(raw_number_list: &str) -> (r: Option<String>)
    ensures
        opt_str_view(r) == first_number_in_list(raw_number_list@),
{
    match parse_string_list_json(raw_number_list) {
        Some(list) => {
            let ghost items = strings_view(list@);
            let mut i: usize = 0;
            assert(items.skip(0) =~= items);
            while i < list.len()
                invariant
                    i <= list.len(),
                    items == strings_view(list@),
                    json_string_list(raw_number_list@) == Some(items),
                    first_digits(items) == first_digits(items.skip(i as int)),
                decreases list.len() - i,
            {
                assert(items.skip(i as int)[0] == list@[i as int]@);
                assert(items.skip(i as int).drop_first() =~= items.skip(i + 1));
                let d = digits_only(list[i].as_str());
                if !crate::text::str_is_empty(d.as_str()) {
                    assert(first_digits(items.skip(i as int)) == Some(d@));
                    return Some(d);
                }
                i = i + 1;
            }
            None
        },
        None => None,
    }
}

/// The transaction number of a record: digits of its number, else the number after the
/// marker in its item type, else the first number of its JSON number list.
pub open spec fn normalized_number(
    raw_number: Option<Seq<char>>,
    raw_item_type: Option<Seq<char>>,
    raw_number_list: Option<Seq<char>>,
) -> Option<Seq<char>> {
    let n = digits(match raw_number { Some(s) => s, None => Seq::empty() });
    if n.len() > 0 {
        Some(n)
    } else {
        let from_type = match raw_item_type { Some(t) => transaction_number_in(t), None => None };
        if from_type is Some {
            from_type
        } else {
            match raw_number_list { Some(l) => first_number_in_list(l), None => None }
        }
    }
}

/// View of an optional string slice.
pub open spec fn opt_slice_view(o: Option<&str>) -> Option<Seq<char>> {
    match o {
        Some(s) => Some(s@),
        None => None,
    }
}

/// Normalises a transaction number, see [`normalized_number`].
pub fn normalize_number(
    raw_number: Option<&str>,
    raw_item_type: Option<&str>,
    raw_number_list: Option<&str>,
) -> (r: Option<String>)
    ensures
        opt_str_view(r) == normalized_number(
            opt_slice_view(raw_number),
            opt_slice_view(raw_item_type),
            opt_slice_view(raw_number_list),
        ),
{
    let number = match raw_number {
        Some(s) => digits_only(s),
        None => String::new(),
    };
    if !crate::text::str_is_empty(number.as_str()) {
        return Some(number);
    }
    let from_type = match raw_item_type {
        Some(t) => extract_transaction_number(t),
        None => None,
    };
    if from_type.is_some() {
        return from_type;
    }
    match raw_number_list {
        Some(l) => first_number_from_number_list(l),
        None => None,
    }
}

/// Adds the digits of each item, skipping empty and already present ones.
pub open spec fn add_distinct_digits(acc: Seq<Seq<char>>, items: Seq<Seq<char>>) -> Seq<Seq<char>>
    decreases items.len(),
{
    if items.len() == 0 {
        acc
    } else {
        let d = digits(items.last());
        let prev = add_distinct_digits(acc, items.drop_last());
        if d.len() > 0 && !prev.contains(d) {
            prev.push(d)
        } else {
            prev
        }
    }
}

/// Appends `n` when it is non-empty and not present.
pub open spec fn push_new(acc: Seq<Seq<char>>, n: Seq<char>) -> Seq<Seq<char>> {
    if n.len() > 0 && !acc.contains(n) {
        acc.push(n)
    } else {
        acc
    }
}

fn contains_string(v: &Vec<String>, s: &String) -> (b: bool)
    ensures
        b == strings_view(v@).contains(s@),
{
    let mut i: usize = 0;
    while i < v.len()
        invariant
            i <= v.len(),
            forall|j: int| 0 <= j < i ==> v@[j]@ != s@,
        decreases v.len() - i,
    {
        if crate::text::str_eq(v[i].as_str(), s.as_str()) {
            assert(strings_view(v@)[i as int] == s@);
            return true;
        }
        i = i + 1;
    }
    proof {
        if strings_view(v@).contains(s@) {
            let k = choose|k: int| 0 <= k < strings_view(v@).len() && strings_view(v@)[k] == s@;
            assert(v@[k]@ == s@);
        }
    }
    false
}

/// Pushes `s` when it is non-empty and not already in `v`.
pub(crate) fn push_distinct(v: &mut Vec<String>, s: String)
    ensures
        strings_view(final(v)@) == push_new(strings_view(old(v)@), s@),
{
    if !crate::text::str_is_empty(s.as_str()) && !contains_string(v, &s) {
        let ghost before = v@;
        v.push(s);
        assert(strings_view(v@) =~= strings_view(before).push(s@));
    }
}

/// Adds the digits of each string in `items` to `v`, see [`add_distinct_digits`].
pub(crate) fn add_digits_of_all(v: &mut Vec<String>, items: &Vec<String>)
    ensures
        strings_view(final(v)@) == add_distinct_digits(strings_view(old(v)@), strings_view(items@)),
{
    let ghost start = strings_view(v@);
    let mut i: usize = 0;
    while i < items.len()
        invariant
            i <= items.len(),
            strings_view(v@) == add_distinct_digits(start, strings_view(items@).take(i as int)),
        decreases items.len() - i,
    {
        assert(strings_view(items@).take(i + 1).drop_last() =~= strings_view(items@).take(i as int));
        assert(strings_view(items@).take(i + 1).last() == items@[i as int]@);
        let d = digits_only(items[i].as_str());
        push_distinct(v, d);
        i = i + 1;
    }
    assert(strings_view(items@).take(items.len() as int) =~= strings_view(items@));
}

/// The normalised JSON number list: the distinct non-empty digit strings of the stored
/// list, then `number` if new; `None` when nothing remains.
pub open spec fn normalized_list_items(raw_number_list: Option<Seq<char>>, number: Option<Seq<char>>) -> Seq<Seq<char>> {
    let parsed = match raw_number_list {
        Some(l) => match json_string_list(l) {
            Some(items) => add_distinct_digits(Seq::empty(), items),
            None => Seq::empty(),
        },
        None => Seq::empty(),
    };
    match number {
        Some(n) => push_new(parsed, n),
        None => parsed,
    }
}

/// The normalised JSON number list: `None` when no number remains, else its JSON text.
pub open spec fn normalized_list_json(raw_number_list: Option<Seq<char>>, number: Option<Seq<char>>) -> Option<Seq<char>> {
    let items = normalized_list_items(raw_number_list, number);
    if items.len() == 0 { None } else { json_of_string_list(items) }
}

/// Normalises a JSON number list, see [`normalized_list_json`].
pub fn normalize_number_list_json(raw_number_list: Option<&str>, number: Option<&str>) -> (r: Option<String>)
    ensures
        opt_str_view(r) == normalized_list_json(opt_slice_view(raw_number_list), opt_slice_view(number)),
{
    let mut numbers: Vec<String> = Vec::new();
    assert(strings_view(numbers@) =~= Seq::<Seq<char>>::empty());
    if let Some(raw) = raw_number_list {
        if let Some(list) = parse_string_list_json(raw) {
            add_digits_of_all(&mut numbers, &list);
        }
    }
    if let Some(n) = number {
        push_distinct(&mut numbers, n.to_string());
    }
    if numbers.len() == 0 {
        None
    } else {
        string_list_to_json(&numbers)
    }
}

/// All normalised numbers of a record: its transaction number, then the distinct digit
/// strings of its JSON number list.
pub open spec fn numbers_from_fields(
    raw_number: Option<Seq<char>>,
    raw_item_type: Option<Seq<char>>,
    raw_number_list: Option<Seq<char>>,
) -> Seq<Seq<char>> {
    let first = match normalized_number(raw_number, raw_item_type, raw_number_list) {
        Some(n) => push_new(Seq::empty(), n),
        None => Seq::empty(),
    };
    match raw_number_list {
        Some(l) => match json_string_list(l) {
            Some(items) => add_distinct_digits(first, items),
            None => first,
        },
        None => first,
    }
}

/// Collects the normalised numbers of a record, see [`numbers_from_fields`].
pub fn normalized_numbers_from_fields(
    raw_number: Option<&str>,
    raw_item_type: Option<&str>,
    raw_number_list: Option<&str>,
) -> (r: Vec<String>)
    ensures
        strings_view(r@) == numbers_from_fields(
            opt_slice_view(raw_number),
            opt_slice_view(raw_item_type),
            opt_slice_view(raw_number_list),
        ),
{
    let mut numbers: Vec<String> = Vec::new();
    assert(strings_view(numbers@) =~= Seq::<Seq<char>>::empty());
    if let Some(n) = normalize_number(raw_number, raw_item_type, raw_number_list) {
        push_distinct(&mut numbers, n);
    }
    if let Some(raw) = raw_number_list {
        if let Some(list) = parse_string_list_json(raw) {
            add_digits_of_all(&mut numbers, &list);
        }
    }
    numbers
}

/// The non-empty digit strings of `items`, in order.
pub open spec fn nonempty_digits(items: Seq<Seq<char>>) -> Seq<Seq<char>>
    decreases items.len(),
{
    if items.len() == 0 {
        Seq::empty()
    } else {
        let prev = nonempty_digits(items.drop_last());
        let d = digits(items.last());
        if d.len() > 0 { prev.push(d) } else { prev }
    }
}

/// Candidate numbers of a synced bill: the non-empty digit strings of its number list,
/// then the digits of its number when new.
pub open spec fn candidate_numbers(number_list: Seq<Seq<char>>, number: Seq<char>) -> Seq<Seq<char>> {
    push_new(nonempty_digits(number_list), digits(number))
}

/// Candidate transaction numbers of a bill, used to recognise bills already stored.
pub fn candidate_bill_numbers(number_list: &Vec<String>, number: &str) -> (r: Vec<String>)
    ensures
        strings_view(r@) == candidate_numbers(strings_view(number_list@), number@),
{
    let mut numbers: Vec<String> = Vec::new();
    let mut i: usize = 0;
    while i < number_list.len()
        invariant
            i <= number_list.len(),
            strings_view(numbers@) == nonempty_digits(strings_view(number_list@).take(i as int)),
        decreases number_list.len() - i,
    {
        assert(strings_view(number_list@).take(i + 1).drop_last() =~= strings_view(number_list@).take(i as int));
        assert(strings_view(number_list@).take(i + 1).last() == number_list@[i as int]@);
        let d = digits_only(number_list[i].as_str());
        if !crate::text::str_is_empty(d.as_str()) {
            let ghost before = numbers@;
            numbers.push(d);
            assert(strings_view(numbers@) =~= strings_view(before).push(d@));
        }
        i = i + 1;
    }
    assert(strings_view(number_list@).take(number_list.len() as int) =~= strings_view(number_list@));
    let direct = digits_only(number);
    push_distinct(&mut numbers, direct);
    numbers
}

} // verus!
