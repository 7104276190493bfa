use shmtu_terminal::stats::group_counts;
use shmtu_terminal::classification::{
    BillClassifier, ClassificationRules, MealSlot, PositionConfig, ScheduleRule, Timetable, TypeRule, ValidDate,
};
use shmtu_terminal::query::{bill_matches_query, query_page, BillQueryParams};
use shmtu_terminal::stats::{
    category_color, category_groups, category_label, category_members, daily_groups, filter_models_by_date,
    forgot_card_candidates, group_labels, is_bath_category, is_income, meal_groups, merchant_groups, merchant_key,
    parse_bill_date, summary_counts,
};
use shmtu_terminal::store::MergedBillRecord;

fn s(x: &str) -> Option<String> {
    Some(x.to_string())
}

fn bill(id: i64, date: &str, item_type: &str, target: &str, ts: i64) -> MergedBillRecord {
    MergedBillRecord {
        id,
        identity_id: 1,
        date_str: date.to_string(),
        time_str: "12:00:00".to_string(),
        time_str_formatted: s("12:00"),
        date_time_formatted: s(&format!("{} 12:00:00", date)),
        end_date_time_formatted: None,
        timestamp: Some(ts),
        end_timestamp: None,
        item_type: s(item_type),
        number: s(&id.to_string()),
        number_list: None,
        target_user: s(target),
        money_str: s("-5.00"),
        money_bits: Some((-5.0f64).to_bits()),
        method: s("校园卡"),
        status_str: s("交易成功"),
        is_combined: false,
        source_account_id: s("2021001"),
        is_manual: false,
        position: None,
        room: None,
        category: None,
        notes: None,
        synced_at: None,
    }
}

fn classifier() -> BillClassifier {
    let rule = |name: &str, targets: &[&str]| TypeRule {
        name: name.to_string(),
        match_field: "target_user".to_string(),
        match_names: vec![],
        match_targets: targets.iter().map(|t| t.to_string()).collect(),
    };
    let slot = |n: &str, a: &str, b: &str| MealSlot { name: n.to_string(), start_time: a.to_string(), end_time: b.to_string() };
    BillClassifier::new(ClassificationRules {
        type_rules: vec![("bath".to_string(), rule("洗澡", &["淋浴", "热水"])), ("canteen".to_string(), rule("食堂", &["食堂"]))],
        position: PositionConfig { field: "target_user".to_string(), keywords: vec![] },
        schedule: vec![ScheduleRule {
            valid_date: ValidDate { start_date: "2019.9.1".to_string(), end_date: "now".to_string() },
            timetable: Timetable {
                breakfast: Some(slot("早餐", "6:30", "8:30")),
                lunch: Some(slot("午餐", "10:45", "12:30")),
                dinner: Some(slot("晚餐", "16:30", "18:15")),
                midnight_snack: None,
            },
        }],
    })
}

const NOON_CST: i64 = 1710475200;

#[test]
fn income_is_recognised_by_keyword() {
    assert!(is_income(&bill(1, "2024.03.15", "微信充值", "", 0)));
    assert!(is_income(&bill(2, "2024.03.15", "消费", "退款处理", 0)));
    assert!(!is_income(&bill(3, "2024.03.15", "消费", "食堂", 0)));
}

#[test]
fn bill_dates_in_three_forms() {
    let a = parse_bill_date("2024.03.15").unwrap();
    assert_eq!(parse_bill_date("2024-03-15"), Some(a));
    assert_eq!(parse_bill_date("2024/03/15"), Some(a));
    assert_eq!(parse_bill_date("2024.03.16"), Some(a + 1));
    assert_eq!(parse_bill_date("15/03/2024"), None);
}

#[test]
fn date_filter_keeps_range_and_drops_unreadable() {
    let bills = vec![
        bill(1, "2024.03.14", "消费", "食堂", 0),
        bill(2, "2024.03.15", "消费", "食堂", 0),
        bill(3, "2024.03.16", "消费", "食堂", 0),
        bill(4, "bad date", "消费", "食堂", 0),
    ];
    let kept = filter_models_by_date(bills.clone(), &s("2024-03-15"), &s("2024-03-16"));
    assert_eq!(kept.iter().map(|b| b.id).collect::<Vec<_>>(), vec![2, 3]);
    let all = filter_models_by_date(bills, &None, &s("unreadable"));
    assert_eq!(all.len(), 3);
}

#[test]
fn summary_counts_income_expense_and_days() {
    let bills = vec![
        bill(1, "2024.03.15", "消费", "食堂", 0),
        bill(2, "2024.03.15", "充值", "", 0),
        bill(3, "2024.03.16", "消费", "淋浴", 0),
    ];
    assert_eq!(summary_counts(&bills), (2, 1, 2));
    assert_eq!(summary_counts(&vec![]), (0, 0, 1));
}

#[test]
fn labels_of_bills() {
    let c = classifier();
    let b = bill(1, "2024.03.15", "消费", "1号淋浴", NOON_CST);
    assert_eq!(category_label(Some(&c), &b, "其他"), "洗澡");
    assert_eq!(category_label(None, &b, "其他"), "其他");
    assert!(is_bath_category(Some(&c), &b));
    assert!(is_bath_category(None, &b));
    assert_eq!(merchant_key(&b), s("1号淋浴"));
    assert_eq!(merchant_key(&bill(2, "2024.03.15", "充值", "银行", 0)), None);
}

#[test]
fn grouping_keeps_first_occurrence_order() {
    let labels = vec![s("b"), None, s("a"), s("b")];
    let (keys, groups) = group_labels(&labels);
    assert_eq!(keys, vec!["b".to_string(), "a".to_string()]);
    assert_eq!(groups, vec![Some(0), None, Some(1), Some(0)]);
}

#[test]
fn category_and_meal_groups_skip_income() {
    let c = classifier();
    let bills = vec![
        bill(1, "2024.03.15", "消费", "食堂", NOON_CST),
        bill(2, "2024.03.15", "充值", "", NOON_CST),
        bill(3, "2024.03.15", "消费", "淋浴", NOON_CST + 4 * 3600),
        bill(4, "2024.03.15", "消费", "超市", NOON_CST),
    ];
    let (keys, groups) = category_groups(Some(&c), &bills);
    assert_eq!(keys, vec!["食堂".to_string(), "洗澡".to_string(), "其他".to_string()]);
    assert_eq!(groups, vec![Some(0), None, Some(1), Some(2)]);
    let (meals, mg) = meal_groups(Some(&c), &bills);
    assert_eq!(meals, vec!["午餐".to_string(), "非用餐时段".to_string()]);
    assert_eq!(mg, vec![Some(0), None, Some(1), Some(0)]);
    let (merchants, _) = merchant_groups(&bills);
    assert_eq!(merchants, vec!["食堂".to_string(), "淋浴".to_string(), "超市".to_string()]);
}

#[test]
fn category_members_and_forgotten_cards() {
    let c = classifier();
    let bills = vec![
        bill(1, "2024.03.15", "消费", "淋浴", 0),
        bill(2, "2024.03.15", "消费", "食堂", 0),
        bill(3, "2024.03.15", "消费", "热水", 0),
        bill(4, "2024.03.15", "消费", "超市", 0),
    ];
    assert_eq!(category_members(Some(&c), &bills, "洗澡", "其他"), vec![0, 2]);
    assert_eq!(category_members(Some(&c), &bills, "其他", "其他"), vec![3]);
    assert_eq!(category_members(None, &bills, "", ""), vec![0, 1, 2, 3]);
    assert_eq!(forgot_card_candidates(Some(&c), &bills), vec![0, 2]);
}

#[test]
fn daily_groups_are_sorted_dates() {
    let bills = vec![
        bill(1, "2024.03.16", "消费", "a", 0),
        bill(2, "2024.03.15", "消费", "a", 0),
        bill(3, "2024.03.16", "充值", "a", 0),
    ];
    let (dates, groups) = daily_groups(&bills);
    assert_eq!(dates, vec!["2024.03.15".to_string(), "2024.03.16".to_string()]);
    assert_eq!(groups, vec![1, 0, 1]);
}

#[test]
fn category_colors_cycle() {
    assert_eq!(category_color(0), "#5B8FF9");
    assert_eq!(category_color(10), "#5B8FF9");
    assert_eq!(category_color(3), "#E86452");
}

fn params(identity: Option<i64>) -> BillQueryParams {
    BillQueryParams {
        identity_id: identity,
        account_id: None,
        bill_type: "all".to_string(),
        page: 1,
        page_size: 2,
        keyword: None,
        date_start: None,
        date_end: None,
    }
}

#[test]
fn query_without_identity_is_empty() {
    let r = query_page(vec![bill(1, "2024.03.15", "消费", "a", 0)], &params(None));
    assert!(r.items.is_empty());
    assert_eq!((r.total, r.page, r.page_size), (0, 1, 2));
    let mut p = params(Some(0));
    p.page = 0;
    let r = query_page(vec![], &p);
    assert_eq!(r.page, 0);
}

#[test]
fn query_pages_through_selection() {
    let bills: Vec<MergedBillRecord> = (1..=5).map(|i| bill(i, "2024.03.15", "消费", "食堂", 0)).collect();
    let mut p = params(Some(1));
    p.page = 2;
    let r = query_page(bills.clone(), &p);
    assert_eq!(r.total, 5);
    assert_eq!(r.items.iter().map(|b| b.id).collect::<Vec<_>>(), vec![3, 2]);
    p.page = 3;
    assert_eq!(query_page(bills.clone(), &p).items.len(), 1);
    p.page = 9;
    assert!(query_page(bills.clone(), &p).items.is_empty());
    p.page = 0;
    p.page_size = 0;
    let r = query_page(bills, &p);
    assert_eq!((r.page, r.page_size, r.items.len()), (1, 1, 1));
}

#[test]
fn query_filters() {
    let mut b = bill(1, "2024.03.15", "消费", "Shower Room", 0);
    b.status_str = s("#fail");
    let mut p = params(Some(1));
    p.keyword = Some("  shower ".to_string());
    assert!(bill_matches_query(&b, 1, &p));
    assert!(!bill_matches_query(&b, 2, &p));
    p.bill_type = "success".to_string();
    assert!(!bill_matches_query(&b, 1, &p));
    p.bill_type = "failure".to_string();
    assert!(bill_matches_query(&b, 1, &p));
    p.date_start = s("2024-03-16");
    assert!(!bill_matches_query(&b, 1, &p));
    p.date_start = s("2024-03-15");
    p.date_end = s("2024-03-15");
    assert!(bill_matches_query(&b, 1, &p));
    p.account_id = s("other");
    assert!(!bill_matches_query(&b, 1, &p));
}

#[test]
fn query_lists_newest_first() {
    let mut none = bill(9, "2024.03.15", "消费", "食堂", 0);
    none.timestamp = None;
    let bills = vec![bill(1, "2024.03.15", "消费", "食堂", 100), none, bill(2, "2024.03.15", "消费", "食堂", 300), bill(3, "2024.03.15", "消费", "食堂", 100)];
    let mut p = params(Some(1));
    p.page = 1;
    p.page_size = 10;
    let r = query_page(bills, &p);
    assert_eq!(r.items.iter().map(|b| b.id).collect::<Vec<_>>(), vec![2, 3, 1, 9]);
}

#[test]
fn group_counts_count_members() {
    assert_eq!(group_counts(&vec![Some(0), None, Some(1), Some(0), Some(5)], 3), vec![2, 1, 0]);
    assert_eq!(group_counts(&vec![], 2), vec![0, 0]);
}
