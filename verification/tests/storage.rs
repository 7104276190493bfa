use shmtu_terminal::backup::{
    backup_bundles, backup_remote_path, decrypt_archive, derive_key, encrypt_archive, identity_bundles, import_transfer_archive,
    is_encrypted_backup, restore_bytes,
};
use shmtu_terminal::export::{
    csv_content, export_classification, imported_record, json_bill_item, qianji_category, qianji_remark, qianji_time,
    select_for_export, snapshot_file_name, snapshot_skips_dir, ExportFormat, ExportOptions, JsonBillItem,
};
use shmtu_terminal::classification::ClassificationResult;
use shmtu_terminal::frontend::{
    backup_interval_minutes, backup_keep_count, export_format_from, tally_cookie_clearing, update_info, ReleaseAsset,
    export_options_from, exports_original, ExportParamsFrontend,
};
use shmtu_terminal::models::{AccountRow, IdentityRow};
use shmtu_terminal::store::MergedBillRecord;
use shmtu_terminal::webdav::{
    auth_header, parent_dir, parse_propfind, prune_targets, webdav_url, BackupMeta, WebDavConfig, connection_ok,
    probe_content, probe_file_path, write_read_verdict,
};

fn s(x: &str) -> Option<String> {
    Some(x.to_string())
}

fn bill(id: i64, identity_id: i64, ts: Option<i64>) -> MergedBillRecord {
    MergedBillRecord {
        id,
        identity_id,
        date_str: "2024.03.15".to_string(),
        time_str: "12:00:00".to_string(),
        time_str_formatted: s("12:00"),
        date_time_formatted: s("2024.03.15 12:00:00"),
        end_date_time_formatted: None,
        timestamp: ts,
        end_timestamp: None,
        item_type: s("消费"),
        number: s("123"),
        number_list: s(r#"["123"]"#),
        target_user: s("食堂"),
        money_str: s("-2.50"),
        money_bits: Some((-2.5f64).to_bits()),
        method: None,
        status_str: s("交易成功"),
        is_combined: false,
        source_account_id: None,
        is_manual: false,
        position: None,
        room: None,
        category: None,
        notes: None,
        synced_at: None,
    }
}

#[test]
fn archive_encryption_round_trip() {
    let data = b"archive bytes".to_vec();
    let sealed = encrypt_archive(&data, "pw").unwrap();
    assert_eq!(sealed.len(), 16 + 12 + data.len() + 16);
    assert_eq!(decrypt_archive(&sealed, "pw").unwrap(), data);
    assert!(decrypt_archive(&sealed, "other").is_err());
    assert_eq!(decrypt_archive(&[0u8; 10], "pw"), Err("加密数据过短".to_string()));
}

#[test]
fn key_derivation_is_pbkdf2_hmac_sha256() {
    // RFC 7914 test vector of PBKDF2-HMAC-SHA256 ("passwd", "salt", 1 iteration) does not
    // apply at 100000 iterations; check determinism and salt dependence instead.
    let a = derive_key("password", b"salt");
    assert_eq!(a, derive_key("password", b"salt"));
    assert_ne!(a, derive_key("password", b"salt2"));
}

#[test]
fn backup_paths_and_restore() {
    assert_eq!(backup_remote_path("/shmtu-backup", "2024-03-15_12-00-00", true), "shmtu-backup/shmtu-backup-2024-03-15_12-00-00.zip.enc");
    assert_eq!(backup_remote_path("b", "t", false), "b/shmtu-backup-t.zip");
    assert!(is_encrypted_backup("x.zip.enc"));
    assert!(!is_encrypted_backup("x.zip"));
    assert_eq!(restore_bytes("x.zip", None, vec![1, 2]), Ok(vec![1, 2]));
    assert_eq!(restore_bytes("x.zip.enc", None, vec![1, 2]), Err("备份已加密，请提供密码".to_string()));
    let sealed = encrypt_archive(b"zip", "pw").unwrap();
    assert_eq!(restore_bytes("x.zip.enc", Some("pw"), sealed), Ok(b"zip".to_vec()));
    let r = import_transfer_archive(&vec![]);
    assert_eq!((r.identity_count, r.account_count, r.bill_count), (0, 0, 0));
}

#[test]
fn archive_bundles_group_by_identity() {
    let ids = vec![
        IdentityRow { id: 1, name: "甲".to_string(), enable: true, enable_update: true, birthday: None, default_remember: false, created_at: "c1".to_string(), updated_at: "u".to_string() },
        IdentityRow { id: 2, name: "乙".to_string(), enable: false, enable_update: true, birthday: s("2000-01-01"), default_remember: false, created_at: "c2".to_string(), updated_at: "u".to_string() },
    ];
    let acc = |id: i64, identity_id: i64| AccountRow {
        id,
        identity_id,
        account_name: format!("n{}", id),
        account_id: format!("a{}", id),
        password: "p".to_string(),
        enable: true,
        enable_update: true,
        admission_date: None,
        graduation_date: None,
        expire_date: String::new(),
        last_update_time: String::new(),
        created_at: "c".to_string(),
        updated_at: "u".to_string(),
    };
    let accounts = vec![acc(1, 2), acc(2, 1), acc(3, 2)];
    let bills = vec![bill(1, 2, Some(1)), bill(2, 2, None)];
    let b = identity_bundles(&ids, &accounts, &bills);
    assert_eq!(b.len(), 2);
    assert_eq!(b[0].identity.name, "甲");
    assert_eq!(b[0].accounts.len(), 1);
    assert!(b[0].bills.is_empty());
    assert_eq!(b[1].accounts.iter().map(|a| a.entity.account_id.as_str()).collect::<Vec<_>>(), vec!["a1", "a3"]);
    assert_eq!(b[1].bills.len(), 2);
    assert_eq!(b[1].identity.birthday.as_deref(), Some("2000-01-01"));
    let r = import_transfer_archive(&b);
    assert_eq!((r.identity_count, r.account_count, r.bill_count), (2, 3, 2));
    let backup = backup_bundles(2, &ids, &accounts, &bills);
    assert_eq!(backup.len(), 1);
    assert_eq!(backup[0].identity.name, "乙");
    assert_eq!(backup[0].accounts.iter().map(|a| a.entity.account_id.as_str()).collect::<Vec<_>>(), vec!["a1", "a3"]);
    assert_eq!(backup[0].bills.len(), 2);
    let restored = import_transfer_archive(&backup);
    assert_eq!((restored.identity_count, restored.account_count, restored.bill_count), (1, 2, 2));
}

#[test]
fn webdav_addresses_and_header() {
    assert_eq!(webdav_url("https://dav.example.com/", "/a/b.zip"), "https://dav.example.com/a/b.zip");
    assert_eq!(parent_dir("root/sub/file.zip"), "root/sub");
    assert_eq!(parent_dir("file.zip"), "");
    let cfg = WebDavConfig { server_url: String::new(), username: "user".to_string(), password: "pass".to_string(), backup_root: String::new() };
    assert_eq!(auth_header(&cfg), "Basic dXNlcjpwYXNz");
    assert_eq!(WebDavConfig::default_config().backup_root, "shmtu-backup");
}

#[test]
fn propfind_listing_is_read() {
    let xml = r#"<?xml version="1.0"?><d:multistatus xmlns:d="DAV:">
<d:response><d:href>/shmtu-backup/</d:href><d:propstat><d:prop><d:resourcetype><d:collection/></d:resourcetype></d:prop></d:propstat></d:response>
<d:response><d:href>/shmtu-backup/shmtu-backup-1.zip</d:href><d:propstat><d:prop><d:getcontentlength>1234</d:getcontentlength><d:resourcetype/></d:prop></d:propstat></d:response>
<D:response><D:href>/shmtu-backup/shmtu-backup-2.zip.enc</D:href></D:response>
</d:multistatus>"#;
    let list = parse_propfind(xml);
    assert_eq!(list.len(), 2);
    assert_eq!(list[0].remote_path, "shmtu-backup/shmtu-backup-1.zip");
    assert_eq!(list[0].name, "shmtu-backup-1.zip");
    assert_eq!(list[0].size, 1234);
    assert_eq!(list[1].name, "shmtu-backup-2.zip.enc");
    assert_eq!(list[1].size, 0);
}

fn meta(name: &str) -> BackupMeta {
    BackupMeta { remote_path: format!("r/{}", name), name: name.to_string(), size: 1, last_modified: 0 }
}

#[test]
fn pruning_removes_oldest_names() {
    let list = vec![meta("b-2024-02"), meta("b-2024-04"), meta("b-2024-01"), meta("b-2024-03")];
    let removed = prune_targets(list.clone(), 2);
    assert_eq!(removed.iter().map(|m| m.name.as_str()).collect::<Vec<_>>(), vec!["b-2024-02", "b-2024-01"]);
    assert!(prune_targets(list, 4).is_empty());
}

fn options(start: Option<i64>, end: Option<i64>) -> ExportOptions {
    ExportOptions { format: ExportFormat::Csv, output_path: "out.csv".to_string(), include_classification: false, start_timestamp: start, end_timestamp: end }
}

#[test]
fn export_selection_and_csv() {
    let bills = vec![bill(1, 1, Some(10)), bill(2, 1, Some(20)), bill(3, 1, None)];
    let kept = select_for_export(bills, &options(Some(15), None));
    assert_eq!(kept.iter().map(|b| b.id).collect::<Vec<_>>(), vec![2, 3]);
    let csv = csv_content(&kept[..1].to_vec());
    assert_eq!(
        csv,
        "日期时间,交易名称,交易号,对方账户,金额,支付方式,状态\n2024.03.15 12:00:00,消费,[\"123\"],食堂,-2.50,,交易成功\n"
    );
}

#[test]
fn json_and_qianji_entries() {
    let none = ClassificationResult { type_label: None, building: None, meal: None, room: None };
    assert!(export_classification(none).is_none());
    let some = ClassificationResult { type_label: None, building: None, meal: Some("午餐".to_string()), room: None };
    assert!(export_classification(some).is_some());
    let item = json_bill_item(&bill(1, 1, Some(1)), None);
    assert_eq!(item.number_list, Some(vec!["123".to_string()]));
    assert_eq!(qianji_category(true, "食堂", "消费", true), "其他收入");
    assert_eq!(qianji_category(false, "二食堂", "消费", true), "餐饮");
    assert_eq!(qianji_category(false, "银行", "微信充值", true), "其他收入");
    assert_eq!(qianji_category(false, "银行", "微信充值", false), "其他支出");
    assert_eq!(qianji_remark("食堂", "消费"), "食堂-消费");
    assert_eq!(qianji_time(Some(0)), None);
    assert_eq!(qianji_time(Some(5)), Some(5));
}

#[test]
fn imported_bills_become_manual_records() {
    let item = JsonBillItem {
        date_time_formatted: s("2024.03.15 12:00:00"),
        time_str_formatted: None,
        item_type: None,
        number: s("9"),
        number_list: Some(vec!["9".to_string()]),
        target_user: s("食堂"),
        money_str: s("-1.00"),
        money_bits: None,
        method: None,
        status_str: None,
        is_combined: false,
        classification: None,
    };
    let r = imported_record(&item, 4, "2024-03-15 12:00:00");
    assert!(r.is_manual);
    assert_eq!(r.identity_id, 4);
    assert_eq!(r.timestamp, Some(0));
    assert_eq!(r.item_type, s(""));
    assert_eq!(r.number_list, s(r#"["9"]"#));
    assert_eq!(r.synced_at, s("2024-03-15 12:00:00"));
}

#[test]
fn snapshots() {
    assert_eq!(snapshot_file_name("2024-03-15_12-00-00"), "2024-03-15_12-00-00.zip");
    assert!(snapshot_skips_dir("models"));
    assert!(!snapshot_skips_dir("bill"));
}

#[test]
fn update_information() {
    let assets = vec![
        ReleaseAsset { name: "app-windows.exe".to_string(), browser_download_url: "w".to_string() },
        ReleaseAsset { name: "app-linux.AppImage".to_string(), browser_download_url: "l1".to_string() },
        ReleaseAsset { name: "app-linux.deb".to_string(), browser_download_url: "l2".to_string() },
    ];
    let u = update_info("v1.3.0", Some("notes"), &assets, "1.2.9");
    assert_eq!(u.version, "1.3.0");
    assert!(u.is_newer);
    assert_eq!(u.download_url, "l1");
    assert_eq!(u.release_notes, "notes");
    let long = "字".repeat(600);
    let u = update_info("1.0.0", Some(&long), &vec![], "1.0.0");
    assert!(!u.is_newer);
    assert_eq!(u.release_notes.chars().count(), 500);
    assert_eq!(u.download_url, "");
}

#[test]
fn frontend_settings() {
    assert_eq!(export_format_from("qianji"), Ok(ExportFormat::Qianji));
    assert_eq!(export_format_from("xml"), Err("不支持的导出格式: xml".to_string()));
    assert_eq!(backup_interval_minutes(5), 15);
    assert_eq!(backup_keep_count(0), 1);
    assert_eq!(backup_keep_count(500), 100);
    let s = tally_cookie_clearing(&vec![(true, false), (true, true), (false, false)]);
    assert_eq!((s.accounts_visited, s.sessions_cleared, s.caches_cleared), (3, 2, 1));
}

#[test]
fn export_options_of_frontend_parameters() {
    let params = ExportParamsFrontend {
        identity_id: 1,
        format: "qianji".to_string(),
        source_type: "original".to_string(),
        file_path: "/tmp/out.csv".to_string(),
        date_start: Some("2024-01-01".to_string()),
        date_end: Some("2024-12-31".to_string()),
    };
    let o = export_options_from(&params).unwrap();
    assert!(matches!(o.format, ExportFormat::Qianji));
    assert_eq!(o.output_path, "/tmp/out.csv");
    assert!(o.include_classification);
    assert_eq!(o.start_timestamp, None);
    assert_eq!(o.end_timestamp, None);
    assert!(exports_original(&params));
    let mut bad = params.clone();
    bad.format = "xlsx".to_string();
    assert_eq!(export_options_from(&bad).unwrap_err(), "不支持的导出格式: xlsx");
}

#[test]
fn webdav_connection_and_write_read_probe() {
    assert!(connection_ok(200));
    assert!(connection_ok(207));
    assert!(!connection_ok(401));
    assert_eq!(probe_file_path("/shmtu-backup"), "shmtu-backup/.shmtu-test");
    assert_eq!(probe_file_path("//a"), "a/.shmtu-test");
    assert_eq!(probe_content(1700000000123), "shmtu-cloud-test-1700000000123");
    assert_eq!(write_read_verdict("x", "x").unwrap(), "✓ 读写验证成功");
    assert_eq!(write_read_verdict("x", "y").unwrap_err(), "读回内容不匹配");
}
