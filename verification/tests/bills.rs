use shmtu_terminal::store::{backfill_updates, is_backfill_candidate};
use shmtu_terminal::reclassify::{reclassify_record, TranslationResult};
use shmtu_terminal::bill_merge::{BillMergeService, MergeConfig, DEFAULT_MERGE_THRESHOLD_MINUTES};
use shmtu_terminal::numbers::{
    candidate_bill_numbers, extract_transaction_number, first_number_from_number_list, normalize_item_type,
    normalize_number, normalize_number_list_json, normalized_numbers_from_fields,
};
use shmtu_terminal::store::{
    duplicate_merged_ids, duplicate_original_ids, merged_backfill, merged_duplicates_by_number, merged_keep_rank,
    normalized_target_user, option_filled_score, original_backfill, original_duplicates_by_number, BillStoreImpl,
    MergedBillRecord, OriginalBillRecord, SyncedBill, load_known_numbers, manual_merged_record, merged_from_original,
    original_record_of, page_count, synced_merged_record, deletion_description, manual_addition_description,
    operation_log_row, with_notes,
};
use shmtu_terminal::models::OperationType;
use shmtu_terminal::error::AppError;

fn s(x: &str) -> Option<String> {
    Some(x.to_string())
}

fn merged(id: i64, number: &str, target: &str, ts: i64) -> MergedBillRecord {
    MergedBillRecord {
        id,
        identity_id: 1,
        date_str: "2024.03.15".to_string(),
        time_str: "12:00:00".to_string(),
        time_str_formatted: None,
        date_time_formatted: s("2024.03.15 12:00:00"),
        end_date_time_formatted: None,
        timestamp: Some(ts),
        end_timestamp: None,
        item_type: s("消费"),
        number: s(number),
        number_list: None,
        target_user: s(target),
        money_str: s("-2.00"),
        money_bits: Some((-2.0f64).to_bits()),
        method: s("校园卡"),
        status_str: s("交易成功"),
        is_combined: false,
        source_account_id: s("2021001"),
        is_manual: false,
        position: None,
        room: None,
        category: None,
        notes: None,
        synced_at: None,
    }
}

fn original(id: i64, number: &str) -> OriginalBillRecord {
    OriginalBillRecord {
        id,
        date_str: "2024.03.15".to_string(),
        time_str: "12:00:00".to_string(),
        time_str_formatted: None,
        date_time_formatted: None,
        end_date_time_formatted: None,
        timestamp: Some(1),
        end_timestamp: None,
        item_type: s("消费"),
        number: s(number),
        number_list: None,
        target_user: s("食堂"),
        money_str: None,
        money_bits: None,
        method: None,
        status_str: None,
        is_combined: false,
        account_id: "2021001".to_string(),
        synced_at: None,
    }
}

fn synced(number: &str) -> SyncedBill {
    SyncedBill {
        date_str: "2024.03.15".to_string(),
        time_str: "12:00:00".to_string(),
        time_str_formatted: "12:00".to_string(),
        date_time_formatted: "2024.03.15 12:00:00".to_string(),
        end_date_time_formatted: String::new(),
        timestamp: 1710475200,
        end_timestamp: 0,
        item_type: "消费".to_string(),
        number: number.to_string(),
        number_list: vec![],
        target_user: "食堂".to_string(),
        money_str: "-2.00".to_string(),
        money_bits: (-2.0f64).to_bits(),
        method: "校园卡".to_string(),
        status_str: "交易成功".to_string(),
        is_combined: false,
    }
}

#[test]
fn item_type_loses_transaction_number_and_colons() {
    assert_eq!(normalize_item_type("  充值  交易号：123456 "), "充值");
    assert_eq!(normalize_item_type("洗澡：："), "洗澡");
    assert_eq!(normalize_item_type("a   b"), "a b");
}

#[test]
fn transaction_number_is_read_after_marker() {
    assert_eq!(extract_transaction_number("充值交易号123456"), s("123456"));
    assert_eq!(extract_transaction_number("充值交易号：12 34"), s("1234"));
    assert_eq!(extract_transaction_number("交易号无"), None);
    assert_eq!(extract_transaction_number("充值"), None);
}

#[test]
fn first_number_of_json_list() {
    assert_eq!(first_number_from_number_list(r#"["", "x", "No.42", "7"]"#), s("42"));
    assert_eq!(first_number_from_number_list("not json"), None);
    assert_eq!(first_number_from_number_list("[]"), None);
}

#[test]
fn number_prefers_digits_then_type_then_list() {
    assert_eq!(normalize_number(Some("No. 12-34"), Some("交易号99"), None), s("1234"));
    assert_eq!(normalize_number(Some("none"), Some("充值交易号99"), Some(r#"["5"]"#)), s("99"));
    assert_eq!(normalize_number(None, Some("消费"), Some(r#"["a5"]"#)), s("5"));
    assert_eq!(normalize_number(None, None, None), None);
}

#[test]
fn number_list_json_keeps_distinct_digits_and_adds_number() {
    assert_eq!(normalize_number_list_json(Some(r#"["1","x1","2"]"#), Some("3")), s(r#"["1","2","3"]"#));
    assert_eq!(normalize_number_list_json(Some(r#"["1"]"#), Some("1")), s(r#"["1"]"#));
    assert_eq!(normalize_number_list_json(None, None), None);
}

#[test]
fn all_numbers_of_record() {
    let v = normalized_numbers_from_fields(Some("11"), None, Some(r#"["11","22"]"#));
    assert_eq!(v, vec!["11".to_string(), "22".to_string()]);
}

#[test]
fn candidate_numbers_of_bill() {
    let list = vec!["a1".to_string(), "".to_string(), "2".to_string()];
    assert_eq!(candidate_bill_numbers(&list, "3"), vec!["1".to_string(), "2".to_string(), "3".to_string()]);
    assert_eq!(candidate_bill_numbers(&list, "2"), vec!["1".to_string(), "2".to_string()]);
}

#[test]
fn filled_score_counts_non_blank() {
    assert_eq!(option_filled_score(&s("x")), 1);
    assert_eq!(option_filled_score(&s("  ")), 0);
    assert_eq!(option_filled_score(&None), 0);
}

#[test]
fn keep_rank_prefers_complete_records() {
    let mut a = merged(5, "1", "食堂", 1);
    let (score_a, notes_a, id_a) = merged_keep_rank(&a);
    a.position = s("海馨楼");
    a.room = s("1楼");
    a.notes = s("备注");
    let (score_b, notes_b, _) = merged_keep_rank(&a);
    assert_eq!(score_b, score_a + 3);
    assert_eq!((notes_a, notes_b), (0, 1));
    assert_eq!(id_a, 5);
}

#[test]
fn duplicates_keep_exactly_one_record() {
    let ids = duplicate_merged_ids(vec![merged(1, "7", "a", 1), merged(2, "7", "a", 1), merged(3, "7", "a", 1)]);
    assert_eq!(ids.len(), 2);
    let o = duplicate_original_ids(vec![original(4, "8"), original(9, "8")]);
    assert_eq!(o.len(), 1);
}

#[test]
fn duplicates_by_number_group_by_digits() {
    let bills = vec![merged(1, "No.7", "a", 1), merged(2, "7", "a", 1), merged(3, "8", "a", 1), merged(4, "", "a", 1)];
    let ids = merged_duplicates_by_number(&bills);
    assert_eq!(ids.len(), 1);
    assert!(ids[0] == 1 || ids[0] == 2);
    let originals = vec![original(1, "5"), original(2, "6"), original(3, "5")];
    assert_eq!(original_duplicates_by_number(&originals).len(), 1);
}

#[test]
fn store_merge_adds_only_new_numbers() {
    let mut store = BillStoreImpl::new("2021001", 3, vec!["100".to_string()]);
    assert_eq!(store.account_id(), "2021001");
    assert_eq!(store.identity_id(), 3);
    assert!(store.contains("100"));
    store.merge(vec![synced("100"), synced("200"), synced("200")]);
    assert!(store.contains("200"));
    let pending = store.take_pending();
    assert_eq!(pending.len(), 1);
    assert_eq!(pending[0].number, "200");
    assert!(store.take_pending().is_empty());
}

#[test]
fn store_merge_twice_adds_nothing() {
    let mut store = BillStoreImpl::new("a", 1, vec![]);
    store.merge(vec![synced("1"), synced("2")]);
    let first = store.take_pending().len();
    store.merge(vec![synced("1"), synced("2")]);
    assert_eq!(first, 2);
    assert!(store.take_pending().is_empty());
}

#[test]
fn target_user_normalisation() {
    assert_eq!(normalized_target_user(&s(" 海馨 1楼 ")), s("海馨 1楼"));
    assert_eq!(normalized_target_user(&s("   ")), None);
}

#[test]
fn backfill_of_complete_record_is_none() {
    let mut m = merged(1, "123", "食堂", 1);
    m.number_list = s(r#"["123"]"#);
    assert!(merged_backfill(&m, None).is_none());
    let b = merged_backfill(&m, Some(("海馨楼".to_string(), "1楼".to_string()))).unwrap();
    assert_eq!(b.position, s("海馨楼"));
    assert_eq!(b.room, s("1楼"));
    assert_eq!(b.number, s("123"));
}

#[test]
fn backfill_normalises_number_and_list() {
    let o = original(2, "No.5");
    let b = original_backfill(&o).unwrap();
    assert_eq!(b.number, s("5"));
    assert_eq!(b.number_list, s(r#"["5"]"#));
    assert_eq!(b.item_type, s("消费"));
}

#[test]
fn bath_bills_are_recognised() {
    assert!(BillMergeService::is_bath_bill("消费", "1号楼淋浴"));
    assert!(BillMergeService::is_bath_bill("Shower", ""));
    assert!(!BillMergeService::is_bath_bill("消费", "食堂"));
}

#[test]
fn merge_window_only_for_bath_bills() {
    let svc = BillMergeService::with_default_config();
    assert_eq!(DEFAULT_MERGE_THRESHOLD_MINUTES, 15);
    let bath = merged(1, "1", "淋浴", 10_000);
    assert_eq!(svc.candidate_window(&bath), Some((10_000 - 16 * 60, 10_060)));
    let food = merged(2, "2", "食堂", 10_000);
    assert_eq!(svc.candidate_window(&food), None);
}

#[test]
fn pick_mergeable_takes_closest_earlier_bill() {
    let svc = BillMergeService::new(MergeConfig { threshold_minutes: 15 });
    let new_bill = merged(9, "9", "淋 浴", 10_000);
    let far = merged(1, "1", "淋浴", 10_000 - 600);
    let near = merged(2, "2", "淋浴", 10_000 - 60);
    let later = merged(3, "3", "淋浴", 10_030);
    let picked = svc.pick_mergeable(&new_bill, vec![far, near, later]).unwrap();
    assert_eq!(picked.id, 2);
    let mut other_status = merged(4, "4", "淋浴", 10_000 - 10);
    other_status.status_str = s("#fail");
    assert!(svc.pick_mergeable(&new_bill, vec![other_status]).is_none());
    let at_threshold = merged(5, "5", "淋浴", 10_000 - 900);
    assert!(svc.pick_mergeable(&new_bill, vec![at_threshold]).is_none());
    let just_inside = merged(6, "6", "淋浴", 10_000 - 899);
    assert_eq!(svc.pick_mergeable(&new_bill, vec![just_inside]).unwrap().id, 6);
}

#[test]
fn merged_record_unites_numbers_and_takes_latest_time() {
    let svc = BillMergeService::with_default_config();
    let mut existing = merged(1, "111", "淋浴", 9_000);
    existing.date_time_formatted = s("2024.03.15 11:50:00");
    let mut new_bill = merged(2, "222", "淋浴", 9_500);
    new_bill.date_time_formatted = s("2024.03.15 11:58:00");
    let r = svc.merge_bills(&existing, &new_bill, (-4.0f64).to_bits(), "-4.00".to_string(), "now".to_string());
    assert_eq!(r.id, 2);
    assert!(r.is_combined);
    assert_eq!(r.number_list, s("111\u{1f}222"));
    assert_eq!(r.date_time_formatted, s("2024.03.15 11:58:00"));
    assert_eq!(r.date_str, "2024.03.15");
    assert_eq!(r.time_str, "11:58:00");
    assert_eq!(r.money_str, s("-4.00"));
    assert_eq!(r.synced_at, s("now"));
}

#[test]
fn normalize_target_removes_all_whitespace() {
    assert_eq!(BillMergeService::normalize_target(" a b\tc "), "abc");
}

#[test]
fn fetched_bill_becomes_original_record() {
    let mut b = synced("300");
    b.number_list = vec!["300".to_string(), "301".to_string()];
    let r = original_record_of(&b, "2021001", "2024-03-15 12:30:00").unwrap();
    assert_eq!(r.id, 0);
    assert_eq!(r.number, s("300"));
    assert_eq!(r.number_list, s("[\"300\",\"301\"]"));
    assert_eq!(r.account_id, "2021001");
    assert_eq!(r.timestamp, Some(1710475200));
    assert_eq!(r.synced_at, s("2024-03-15 12:30:00"));
    assert_eq!(r.money_bits, Some((-2.0f64).to_bits()));
}

#[test]
fn fetched_and_manual_bills_become_merged_records() {
    let b = synced("300");
    let r = synced_merged_record(&b, 7, "2021001", "奉浦".to_string(), "101".to_string(), "now").unwrap();
    assert_eq!(r.identity_id, 7);
    assert_eq!(r.number_list, s("[]"));
    assert_eq!(r.source_account_id, s("2021001"));
    assert!(!r.is_manual);
    assert_eq!(r.position, s("奉浦"));
    assert_eq!(r.room, s("101"));
    assert_eq!(r.notes, None);
    let m = manual_merged_record(7, &b, "临港".to_string(), String::new(), "later").unwrap();
    assert!(m.is_manual);
    assert_eq!(m.source_account_id, None);
    assert_eq!(m.synced_at, s("later"));
}

#[test]
fn merged_record_rebuilt_from_original() {
    let o = original(5, "77");
    let r = merged_from_original(&o, 2, "2021001", "p".to_string(), "r".to_string(), "t");
    assert_eq!(r.id, 0);
    assert_eq!(r.identity_id, 2);
    assert_eq!(r.number, s("77"));
    assert!(r.is_combined);
    assert!(!r.is_manual);
    assert_eq!(r.source_account_id, s("2021001"));
    assert_eq!(r.target_user, s("食堂"));
}

#[test]
fn page_counts() {
    assert_eq!(page_count(0, 10), 0);
    assert_eq!(page_count(10, 10), 1);
    assert_eq!(page_count(11, 10), 2);
    assert_eq!(page_count(5, 0), 1);
}

#[test]
fn known_numbers_come_from_both_tables_once() {
    let originals = vec![original(1, "100"), original(2, "200")];
    let merged_rows = vec![merged(3, "200", "食堂", 1), merged(4, "300", "食堂", 2)];
    let mut r = load_known_numbers(&originals, &merged_rows);
    r.sort();
    assert_eq!(r, vec!["100".to_string(), "200".to_string(), "300".to_string()]);
}

#[test]
fn operation_log_entries() {
    assert_eq!(deletion_description(42), "手动删除账单 ID=42");
    assert_eq!(deletion_description(-7), "手动删除账单 ID=-7");
    assert_eq!(deletion_description(i64::MIN), "手动删除账单 ID=-9223372036854775808");
    assert_eq!(manual_addition_description(&synced("1")), "手动添加账单: 2024.03.15 12:00:00 消费");
    let row = operation_log_row(3, OperationType::Delete, "[\"1\"]", "d".to_string(), None, "t".to_string());
    assert_eq!(row.operation_type, "delete");
    assert_eq!(row.identity_id, 3);
    assert_eq!(row.record_numbers, s("[\"1\"]"));
    assert_eq!(row.description, s("d"));
}

#[test]
fn notes_are_replaced_on_stored_bills_only() {
    let m = with_notes(Some(merged(1, "9", "食堂", 1)), s("早餐")).unwrap();
    assert_eq!(m.notes, s("早餐"));
    assert_eq!(m.number, s("9"));
    match with_notes(None, None) {
        Err(AppError::Database(e)) => assert_eq!(e, "账单不存在"),
        _ => panic!("expected a database error"),
    }
}

#[test]
fn reclassified_bill_gets_location_and_category() {
    let mut m = merged(3, "9", "A食堂1楼大餐厅", 1);
    m.category = s("other");
    m.position = s("old");
    let (r, outcome) = reclassify_record(
        m.clone(),
        Some(TranslationResult { position: "海馨楼".to_string(), room: "海馨第1食堂".to_string() }),
        "canteen".to_string(),
    );
    assert_eq!(r.position, s("海馨楼"));
    assert_eq!(r.room, s("海馨第1食堂"));
    assert_eq!(r.category, s("canteen"));
    assert_eq!(r.number, s("9"));
    assert!(outcome.location_found);
    assert_eq!(outcome.old_category, s("other"));
    let (r2, outcome2) = reclassify_record(m, None, "other".to_string());
    assert_eq!(r2.position, None);
    assert_eq!(r2.room, None);
    assert_eq!(r2.category, s("other"));
    assert!(!outcome2.location_found);
}

#[test]
fn backfill_rewrites_only_incomplete_candidates() {
    let mut complete = merged(1, "100", "食堂", 1);
    complete.position = s("海馨楼");
    complete.room = s("1楼");
    complete.number_list = s(r#"["100"]"#);
    let missing_room = merged(2, "200", "食堂", 2);
    let mut other_identity = merged(3, "", "食堂", 3);
    other_identity.identity_id = 9;
    let mut old_form = merged(4, "400", "食堂", 4);
    old_form.item_type = s("消费交易号:400");
    old_form.position = s("海馨楼");
    old_form.room = s("1楼");
    assert!(!is_backfill_candidate(&complete, 1));
    assert!(is_backfill_candidate(&missing_room, 1));
    assert!(!is_backfill_candidate(&other_identity, 1));
    assert!(is_backfill_candidate(&old_form, 1));
    let loc = Some(("海馨楼".to_string(), "1楼".to_string()));
    let models = vec![complete, missing_room, other_identity, old_form];
    let r = backfill_updates(&models, 1, &vec![loc.clone(), loc.clone(), loc.clone(), loc]);
    assert_eq!(r.iter().map(|e| e.0).collect::<Vec<_>>(), vec![2, 4]);
    assert_eq!(r[0].1.room, s("1楼"));
    assert_eq!(r[1].1.item_type, s("消费"));
}

#[test]
fn backfill_without_counterparty_sets_no_location() {
    let mut m = merged(7, "700", "  ", 1);
    m.position = s("海馨楼");
    m.room = s("1楼");
    let b = merged_backfill(&m, Some(("海琴楼".to_string(), "2楼".to_string()))).unwrap();
    assert_eq!(b.target_user, None);
    assert_eq!(b.position, None);
    assert_eq!(b.room, None);
    let m2 = merged(8, "800", "  ", 2);
    let r = backfill_updates(&vec![m2], 1, &vec![Some(("海琴楼".to_string(), "2楼".to_string()))]);
    assert_eq!(r.len(), 1);
    assert_eq!(r[0].0, 8);
    assert_eq!(r[0].1.position, None);
    assert_eq!(r[0].1.room, None);
}
