use shmtu_terminal::classification::{
    BillClassifier, ClassificationResult, ClassificationRules, MealSlot, PositionConfig, PositionKeyword,
    ScheduleRule, Timetable, TypeRule, ValidDate,
};

fn type_rule(name: &str, field: &str, names: &[&str], targets: &[&str]) -> TypeRule {
    TypeRule {
        name: name.to_string(),
        match_field: field.to_string(),
        match_names: names.iter().map(|s| s.to_string()).collect(),
        match_targets: targets.iter().map(|s| s.to_string()).collect(),
    }
}

fn slot(name: &str, start: &str, end: &str) -> MealSlot {
    MealSlot { name: name.to_string(), start_time: start.to_string(), end_time: end.to_string() }
}

fn sample_rules() -> ClassificationRules {
    ClassificationRules {
        type_rules: vec![
            ("deposit".to_string(), type_rule("充值", "item_type", &["中行云充值", "微信充值"], &[])),
            ("bath".to_string(), type_rule("洗澡", "target_user", &[], &["淋浴", "热水"])),
            ("canteen".to_string(), type_rule("食堂", "target_user", &[], &["食堂", "餐厅"])),
        ],
        position: PositionConfig {
            field: "target_user".to_string(),
            keywords: vec![
                (
                    "A食堂1楼大餐厅".to_string(),
                    PositionKeyword { building: "海馨楼".to_string(), room: "海馨第1食堂".to_string() },
                ),
                ("B食堂1楼".to_string(), PositionKeyword { building: "海琴楼".to_string(), room: "海琴1楼".to_string() }),
            ],
        },
        schedule: vec![ScheduleRule {
            valid_date: ValidDate { start_date: "2019.9.1".to_string(), end_date: "now".to_string() },
            timetable: Timetable {
                breakfast: Some(slot("早餐", "6:30", "8:30")),
                lunch: Some(slot("午餐", "10:45", "12:30")),
                dinner: Some(slot("晚餐", "16:30", "18:15")),
                midnight_snack: None,
            },
        }],
    }
}

#[test]
fn test_classify_type() {
    let classifier = BillClassifier::new(sample_rules());

    assert_eq!(classifier.classify_type("中行云充值", ""), Some("充值".to_string()));
    assert_eq!(classifier.classify_type("其他", "淋浴"), Some("洗澡".to_string()));
    assert_eq!(classifier.classify_type("消费", "海馨1楼食堂"), Some("食堂".to_string()));
    assert_eq!(classifier.classify_type("未知", "未知位置"), None);
}

#[test]
fn test_classify_position() {
    let classifier = BillClassifier::new(sample_rules());

    let result = classifier.classify_position("A食堂1楼大餐厅");
    assert!(result.is_some());
    let (building, room) = result.unwrap();
    assert_eq!(building, "海馨楼");
    assert_eq!(room, "海馨第1食堂");

    assert!(classifier.classify_position("未知位置").is_none());
}

#[test]
fn test_full_classify() {
    let classifier = BillClassifier::new(sample_rules());

    // 2024-03-15 12:00:00 CST
    let timestamp = 1710475200i64;
    let result = classifier.classify("消费", "A食堂1楼大餐厅", timestamp);

    assert_eq!(result.type_label, Some("食堂".to_string()));
    assert_eq!(result.building, Some("海馨楼".to_string()));
    assert_eq!(result.room, Some("海馨第1食堂".to_string()));
    assert!(result.meal.is_some());
}

#[test]
fn classify_meal_gives_lunch_at_noon_campus_time() {
    let classifier = BillClassifier::new(sample_rules());
    assert_eq!(classifier.classify_meal(1710475200), Some("午餐".to_string()));
}

#[test]
fn classify_meal_outside_meal_times_is_none() {
    let classifier = BillClassifier::new(sample_rules());
    // 2024-03-15 15:00 CST
    assert_eq!(classifier.classify_meal(1710486000), None);
}

#[test]
fn meal_at_slot_end_is_exclusive() {
    let classifier = BillClassifier::new(sample_rules());
    assert_eq!(classifier.meal_at("2024.03.15", "10:45"), Some("午餐".to_string()));
    assert_eq!(classifier.meal_at("2024.03.15", "12:30"), None);
    assert_eq!(classifier.meal_at("2024.03.15", "16:30"), Some("晚餐".to_string()));
    assert_eq!(classifier.meal_at("2024.03.15", "07:00"), Some("早餐".to_string()));
    assert_eq!(classifier.meal_at("2024.03.15", "06:29"), None);
    assert_eq!(classifier.meal_at("2024.03.15", "08:30"), None);
    assert_eq!(classifier.classify_meal(1710457200), Some("早餐".to_string()));
}

#[test]
fn meal_before_schedule_start_is_none() {
    let classifier = BillClassifier::new(sample_rules());
    assert_eq!(classifier.meal_at("2018.01.01", "12:00"), None);
}

#[test]
fn date_validity_with_open_and_closed_ends() {
    let open = ValidDate { start_date: "2019.9.1".to_string(), end_date: "now".to_string() };
    let closed = ValidDate { start_date: "2019.9.1".to_string(), end_date: "2020.1.1".to_string() };
    assert!(BillClassifier::is_date_valid("2024.03.15", &open));
    assert!(!BillClassifier::is_date_valid("2018.03.15", &open));
    assert!(BillClassifier::is_date_valid("2019.9.15", &closed));
    assert!(BillClassifier::is_date_valid("2019.10.01", &closed));
    assert!(BillClassifier::is_date_valid("2019.10.01", &open));
    assert!(BillClassifier::is_date_valid("2020.1.1", &closed));
    assert!(!BillClassifier::is_date_valid("2021.01.01", &closed));
}

#[test]
fn type_rules_apply_in_definition_order() {
    let mut rules = sample_rules();
    rules.type_rules.insert(0, ("any_canteen".to_string(), type_rule("餐饮", "target", &[], &["食堂"])));
    let classifier = BillClassifier::new(rules);
    assert_eq!(classifier.classify_type("消费", "海馨1楼食堂"), Some("餐饮".to_string()));
}

#[test]
fn unknown_match_field_never_matches() {
    let rules = ClassificationRules {
        type_rules: vec![("x".to_string(), type_rule("X", "method", &["a"], &["a"]))],
        position: PositionConfig { field: "target_user".to_string(), keywords: vec![] },
        schedule: vec![],
    };
    let classifier = BillClassifier::new(rules);
    assert_eq!(classifier.classify_type("a", "a"), None);
}

#[test]
fn position_match_is_exact() {
    let classifier = BillClassifier::new(sample_rules());
    assert!(classifier.classify_position("A食堂1楼大餐厅 ").is_none());
    assert_eq!(classifier.classify_position("B食堂1楼"), Some(("海琴楼", "海琴1楼")));
}

#[test]
fn with_position_fills_building_and_room() {
    let r = ClassificationResult { type_label: Some("食堂".to_string()), building: None, room: None, meal: None };
    let r = r.with_position(Some(("海琴楼", "海琴1楼")));
    assert_eq!(r.building.as_deref(), Some("海琴楼"));
    assert_eq!(r.room.as_deref(), Some("海琴1楼"));
    assert_eq!(r.type_label.as_deref(), Some("食堂"));
    let r2 = ClassificationResult { type_label: None, building: None, room: None, meal: None }.with_position(None);
    assert!(r2.building.is_none() && r2.room.is_none());
}

#[test]
fn all_slots_lists_present_slots_in_order() {
    let t = Timetable {
        breakfast: Some(slot("早餐", "6:30", "8:30")),
        lunch: None,
        dinner: Some(slot("晚餐", "16:30", "18:15")),
        midnight_snack: Some(slot("夜宵", "21:00", "23:00")),
    };
    let names: Vec<&str> = t.all_slots().iter().map(|s| s.name.as_str()).collect();
    assert_eq!(names, vec!["早餐", "晚餐", "夜宵"]);
}

#[test]
fn rules_returns_the_rules_given() {
    let classifier = BillClassifier::new(sample_rules());
    assert_eq!(classifier.rules().type_rules.len(), 3);
    assert_eq!(classifier.rules().position.keywords.len(), 2);
}
