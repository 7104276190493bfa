use shmtu_terminal::accounts::{
    check_new_account, new_account_row, new_identity_row, new_session_row, password_changed_row, session_from_row,
    synced_account_row, updated_account_row, updated_identity_row, account_db_path,
    identity_db_path, is_encrypted_format, session_db_path, snapshot_dir,
};
use shmtu_terminal::crypto::CryptoService;
use shmtu_terminal::error::AppError;
use shmtu_terminal::models::{Account, AccountRow, CreateAccountParams, CreateIdentityParams, Identity, IdentityRow};

fn params(student_id: &str, password: &str) -> CreateAccountParams {
    CreateAccountParams {
        identity_id: 4,
        account_name: "主卡".to_string(),
        account_id: student_id.to_string(),
        password: password.to_string(),
        enable: None,
        enable_update: Some(false),
        admission_date: Some("2021-09-01".to_string()),
        graduation_date: None,
        expire_date: None,
    }
}

fn validation_message(e: AppError) -> String {
    match e {
        AppError::Validation(m) => m,
        other => panic!("unexpected error {:?}", other),
    }
}

fn row() -> AccountRow {
    AccountRow {
        id: 9,
        identity_id: 4,
        account_name: "主卡".to_string(),
        account_id: "202100000001".to_string(),
        password: "old-cipher".to_string(),
        enable: true,
        enable_update: true,
        admission_date: None,
        graduation_date: None,
        expire_date: "2099-12-31".to_string(),
        last_update_time: String::new(),
        created_at: "c".to_string(),
        updated_at: "u".to_string(),
    }
}

#[test]
fn student_id_must_be_twelve_digits() {
    assert!(check_new_account(&params("202100000001", "pw")).is_ok());
    let short = check_new_account(&params("2021", "pw")).unwrap_err();
    assert_eq!(validation_message(short), "学号必须为12位数字");
    let letters = check_new_account(&params("20210000000a", "pw")).unwrap_err();
    assert_eq!(validation_message(letters), "学号必须为12位数字");
    let wide = check_new_account(&params("２０２１００００００００", "pw")).unwrap_err();
    assert_eq!(validation_message(wide), "学号必须为12位数字");
    let empty = check_new_account(&params("202100000001", "")).unwrap_err();
    assert_eq!(validation_message(empty), "密码不能为空");
}

#[test]
fn new_account_row_applies_defaults_and_encrypts() {
    let crypto = CryptoService::from_password("k");
    let r = new_account_row(&params("202100000001", "secret"), &crypto, "2024-01-01T00:00:00Z").unwrap();
    assert_eq!(r.id, 0);
    assert!(r.enable);
    assert!(!r.enable_update);
    assert_eq!(r.expire_date, "2099-12-31");
    assert_eq!(r.last_update_time, "");
    assert_eq!(r.created_at, "2024-01-01T00:00:00Z");
    assert_ne!(r.password, "secret");
    assert_eq!(crypto.decrypt_string(&r.password).unwrap(), "secret");
}

#[test]
fn editing_an_account_keeps_or_replaces_the_password() {
    let crypto = CryptoService::from_password("k");
    let mut account = Account {
        id: 9,
        identity_id: 4,
        account_name: "副卡".to_string(),
        account_id: "202100000001".to_string(),
        password: String::new(),
        enable: false,
        enable_update: true,
        admission_date: None,
        graduation_date: Some("2025-06-30".to_string()),
        expire_date: "2025-07-31".to_string(),
        last_update_time: "t".to_string(),
        created_at: "x".to_string(),
        updated_at: "y".to_string(),
    };
    let kept = updated_account_row(&row(), &account, &crypto, "now").unwrap();
    assert_eq!(kept.password, "old-cipher");
    assert_eq!(kept.account_name, "副卡");
    assert_eq!(kept.created_at, "c");
    assert_eq!(kept.updated_at, "now");
    account.password = "new".to_string();
    let replaced = updated_account_row(&row(), &account, &crypto, "now").unwrap();
    assert_eq!(crypto.decrypt_string(&replaced.password).unwrap(), "new");
    let changed = password_changed_row(&row(), "pw2", &crypto, "later").unwrap();
    assert_eq!(crypto.decrypt_string(&changed.password).unwrap(), "pw2");
    assert_eq!(changed.account_name, "主卡");
    let refused = password_changed_row(&row(), "", &crypto, "later").unwrap_err();
    assert_eq!(validation_message(refused), "密码不能为空");
    let synced = synced_account_row(&row(), "2024-03-15 12:00:00");
    assert_eq!(synced.last_update_time, "2024-03-15 12:00:00");
    assert_eq!(synced.password, "old-cipher");
}

#[test]
fn identities_refuse_taken_names() {
    let p = CreateIdentityParams {
        name: "张三".to_string(),
        enable: None,
        enable_update: None,
        birthday: None,
        default_remember: None,
    };
    let taken = new_identity_row(&p, 1, "now").unwrap_err();
    assert_eq!(validation_message(taken), "身份名称 '张三' 已存在");
    let r = new_identity_row(&p, 0, "now").unwrap();
    assert!(r.enable && r.enable_update && !r.default_remember);
    assert_eq!(r.name, "张三");
    let stored = IdentityRow {
        id: 3,
        name: "张三".to_string(),
        enable: true,
        enable_update: true,
        birthday: None,
        default_remember: false,
        created_at: "c".to_string(),
        updated_at: "u".to_string(),
    };
    let edited = Identity {
        id: 3,
        name: "李四".to_string(),
        enable: false,
        enable_update: true,
        birthday: Some("2000-01-01".to_string()),
        default_remember: true,
        created_at: "x".to_string(),
        updated_at: "y".to_string(),
    };
    let u = updated_identity_row(&stored, &edited, "later");
    assert_eq!(u.name, "李四");
    assert_eq!(u.created_at, "c");
    assert_eq!(u.updated_at, "later");
    assert!(u.default_remember);
}

#[test]
fn saved_session_reads_back_its_cookies() {
    let crypto = CryptoService::from_password("k");
    let saved = new_session_row("202100000001", "JSESSIONID=abc", &crypto).unwrap();
    assert!(saved.is_valid);
    assert_ne!(saved.cookies, "JSESSIONID=abc");
    assert!(saved.login_time.is_some() && saved.expire_time.is_some());
    assert!(saved.login_time.clone().unwrap() < saved.expire_time.clone().unwrap());
    let read = session_from_row(&saved, &crypto).unwrap();
    assert_eq!(read.cookies, "JSESSIONID=abc");
    assert_eq!(read.account_id, "202100000001");
}

#[test]
fn edited_plain_passwords_are_encrypted_exactly_once() {
    let crypto = CryptoService::from_password("k");
    let cipher = crypto.encrypt_string("secret").unwrap();
    assert!(is_encrypted_format(&cipher));
    assert!(!is_encrypted_format("secret"));
    assert!(!is_encrypted_format("YWJj"));
    let mut account = Account {
        id: 9,
        identity_id: 4,
        account_name: "主卡".to_string(),
        account_id: "202100000001".to_string(),
        password: "plain".to_string(),
        enable: true,
        enable_update: true,
        admission_date: None,
        graduation_date: None,
        expire_date: "2099-12-31".to_string(),
        last_update_time: String::new(),
        created_at: "c".to_string(),
        updated_at: "u".to_string(),
    };
    let stored = updated_account_row(&row(), &account, &crypto, "now").unwrap();
    assert_eq!(crypto.decrypt_string(&stored.password).unwrap(), "plain");
    account.password = cipher.clone();
    let kept = updated_account_row(&row(), &account, &crypto, "now").unwrap();
    assert_eq!(kept.password, cipher);
    assert_eq!(crypto.decrypt_string(&kept.password).unwrap(), "secret");
}

#[test]
fn identity_and_account_database_paths() {
    assert_eq!(snapshot_dir("/data"), "/data/snapshot");
    assert_eq!(identity_db_path("/data", 3), "/data/identity/3.sqlite");
    assert_eq!(account_db_path("/data", "202100000001"), "/data/account/202100000001.sqlite");
    assert_eq!(session_db_path("/data", "202100000001"), "/data/account/202100000001_session.sqlite");
}
