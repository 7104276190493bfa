use shmtu_terminal::sync::{ManualRunAction, ManualRunEvent};
use shmtu_terminal::captcha::LoginSubmitOutcome;
use shmtu_terminal::config::{
    default_device_name, default_p2p_port, AppConfig, CaptchaMode, DatabaseFileManager, SyncRangePresetConfig, TomlConfig,
};
use shmtu_terminal::error::AppError;
use shmtu_terminal::models::{
    account_model_to_app, identity_model_to_app, operation_log_model_to_app, AccountRow, IdentityRow, OperationLogRow,
    OperationType,
};
use shmtu_terminal::sync::{
    default_incremental_sync_options, filter_syncable_accounts, full_sync_options, incremental_sync_options,
    is_account_graduated, parse_captcha_marker, range_since, runtime_message_text, AccountProgressContext,
    SyncProgressFrontend, SyncRangePreset, SyncStatus, sync_command_answer, captcha_sync_command_answer, check_pending_captcha, login_refusal_error,
    wrong_captcha_error, manual_captcha_error, account_sync_result, auto_login_decision, auto_login_ocr_target,
    find_enabled_account, login_attempts, AutoLoginDecision, OcrTarget, PendingManualSync, encode_captcha_image,
};

fn account_row(id: i64, account_id: &str) -> AccountRow {
    AccountRow {
        id,
        identity_id: 1,
        account_name: "张三".to_string(),
        account_id: account_id.to_string(),
        password: "enc".to_string(),
        enable: true,
        enable_update: true,
        admission_date: None,
        graduation_date: None,
        expire_date: "2030-01-01".to_string(),
        last_update_time: String::new(),
        created_at: "2024-01-01".to_string(),
        updated_at: "2024-01-01".to_string(),
    }
}

#[test]
fn operation_types_round_trip() {
    for t in [OperationType::Add, OperationType::Delete, OperationType::Merge] {
        assert_eq!(OperationType::parse_from_str(t.as_str()), Some(t));
    }
    assert_eq!(OperationType::Add.as_str(), "add");
    assert_eq!(OperationType::parse_from_str("rename"), None);
}

#[test]
fn rows_become_models() {
    let a = account_model_to_app(account_row(3, "2021001"));
    assert_eq!(a.id, 3);
    assert_eq!(a.account_id, "2021001");
    assert!(a.enable);
    let i = identity_model_to_app(IdentityRow {
        id: 7,
        name: "我".to_string(),
        enable: true,
        enable_update: false,
        birthday: None,
        default_remember: true,
        created_at: "c".to_string(),
        updated_at: "u".to_string(),
    });
    assert_eq!((i.id, i.name.as_str(), i.enable_update), (7, "我", false));
    let l = operation_log_model_to_app(OperationLogRow {
        id: 1,
        identity_id: 7,
        operation_type: "add".to_string(),
        record_numbers: Some("1,2".to_string()),
        operation_time: "t".to_string(),
        description: None,
        account_id: None,
    });
    assert_eq!(l.operation_type, "add");
    assert_eq!(l.record_numbers.as_deref(), Some("1,2"));
}

#[test]
fn error_messages_carry_their_prefix() {
    assert_eq!(AppError::Database("x".to_string()).message(), "数据库错误: x");
    assert_eq!(AppError::NotFound("bill 3".to_string()).message(), "记录未找到: bill 3");
    assert_eq!(
        AppError::CaptchaRequired { captcha_image: "img".to_string(), execution: "e".to_string() }.message(),
        "需要验证码"
    );
}

#[test]
fn default_config_carries_documented_defaults() {
    let c = AppConfig::default();
    assert_eq!(c.ui.decimal_places, 2);
    assert_eq!(c.ui.theme, "light");
    assert_eq!(c.session.refresh_interval_minutes, 10);
    assert!(c.session.auto_refresh);
    assert_eq!(c.captcha.ocr_retry_count, 5);
    assert_eq!(c.sync.max_pages, 100);
    assert!(c.sync.skip_graduated_accounts);
    assert_eq!(c.data.data_directory, "Data");
    assert_eq!(c.captcha.mode, CaptchaMode::Manual);
    assert_eq!(c.sync.auto_sync_range, SyncRangePresetConfig::Month);
    assert_eq!(c.p2p.port, 19827);
    assert_eq!(default_p2p_port(), 19827);
    assert_eq!(default_device_name(), "shmtu-terminal");
    assert!(!c.security.enable_startup_protection);
}

#[test]
fn startup_password_protection() {
    let mut t = TomlConfig::from_parts("/cfg".to_string(), AppConfig::default());
    assert!(t.verify_startup_password("anything"));
    t.set_startup_password("s3cret");
    assert!(t.get().security.enable_startup_protection);
    assert!(t.verify_startup_password("s3cret"));
    assert!(!t.verify_startup_password("wrong"));
    t.disable_startup_protection();
    assert!(t.verify_startup_password("wrong"));
    assert_eq!(t.get().security.password_hash, "");
}

#[test]
fn config_paths_fall_back_to_defaults() {
    let mut t = TomlConfig::from_parts("/cfg".to_string(), AppConfig::default());
    assert_eq!(t.config_dir(), "/cfg");
    assert_eq!(t.data_directory(), "Data");
    assert_eq!(t.classification_rules_path(), "/cfg/classification_rules.toml");
    assert_eq!(t.onnx_model_path(), "Data/models");
    t.get_mut().data.data_directory = "/data".to_string();
    assert_eq!(t.onnx_model_path(), "/data/models");
    t.get_mut().ui.decimal_places = 2;
    assert_eq!(t.decimal_places(), 2);
}

#[test]
fn default_identity_settings() {
    let mut t = TomlConfig::from_parts("d".to_string(), AppConfig::default());
    t.set_default_identity(5);
    t.set_last_identity(6);
    assert_eq!(t.get().identity.default_identity_id, 5);
    assert_eq!(t.get().identity.last_identity_id, 6);
    t.clear_default_identity();
    assert_eq!(t.get().identity.default_identity_id, 0);
    assert_eq!(t.get().identity.last_identity_id, 6);
    t.reset_to_default();
    assert_eq!(t.get().identity.last_identity_id, 0);
}

#[test]
fn database_file_paths() {
    let m = DatabaseFileManager::new("/db");
    assert_eq!(m.local_dir(), "/db");
    assert_eq!(m.file_path("type.toml"), "/db/type.toml");
    assert!(DatabaseFileManager::download_url("type.toml").ends_with("/type.toml"));
}

#[test]
fn sync_ranges_end_now() {
    assert_eq!(range_since(SyncRangePreset::Week, 1_000_000), Some(1_000_000 - 7 * 86400));
    assert_eq!(range_since(SyncRangePreset::Year, 100_000_000), Some(100_000_000 - 365 * 86400));
    assert_eq!(range_since(SyncRangePreset::All, 5), None);
    assert!(default_incremental_sync_options(SyncRangePreset::All).since_timestamp.is_none());
    assert!(default_incremental_sync_options(SyncRangePreset::Month).since_timestamp.is_some());
}

#[test]
fn sync_option_presets() {
    let i = incremental_sync_options(Some(3));
    assert_eq!((i.start_page, i.max_pages, i.early_stop_threshold, i.since_timestamp), (1, 100, 10, Some(3)));
    let f = full_sync_options(None);
    assert_eq!((f.max_pages, f.early_stop_threshold), (1000, u32::MAX));
}

#[test]
fn graduated_accounts_are_skipped_when_asked() {
    let mut grad = account_model_to_app(account_row(1, "a"));
    grad.graduation_date = Some(" 2020-06-30 ".to_string());
    let current = account_model_to_app(account_row(2, "b"));
    let mut disabled = account_model_to_app(account_row(3, "c"));
    disabled.enable_update = false;
    assert!(is_account_graduated(&grad, "2024-01-01"));
    assert!(!is_account_graduated(&current, "2024-01-01"));
    let kept = filter_syncable_accounts(vec![grad.clone(), current.clone(), disabled.clone()], true, "2024-01-01");
    assert_eq!(kept.iter().map(|a| a.account_id.as_str()).collect::<Vec<_>>(), vec!["b"]);
    let kept = filter_syncable_accounts(vec![grad, current, disabled], false, "2024-01-01");
    assert_eq!(kept.len(), 2);
}

#[test]
fn progress_messages() {
    let acc = account_model_to_app(account_row(1, "2021001"));
    let ctx = AccountProgressContext::new(&acc, 0, 2);
    let p = ctx.progress(3, 2, 5, SyncStatus::Syncing { page: 2, total: 4 });
    assert_eq!(
        runtime_message_text(&p),
        "账号 张三 正在从校园平台拉取账单第 2/4 页，当前账号新增 3 条，累计新增 5 条（1/2）..."
    );
    let f = SyncProgressFrontend::from_runtime(p);
    assert!(f.is_running);
    assert_eq!((f.current_page, f.total_pages), (2, 4));
    let done = SyncProgressFrontend::success(7);
    assert_eq!(done.status, "completed");
    assert_eq!(done.message.as_deref(), Some("同步完成，本次新增 7 条记录"));
    let idle = SyncProgressFrontend::idle();
    assert_eq!(idle.status, "idle");
    let cap = SyncProgressFrontend::captcha_required("img".to_string(), "exe".to_string(), "需要验证码");
    assert!(cap.captcha_required);
    assert_eq!(cap.captcha_image.as_deref(), Some("img"));
}

#[test]
fn captcha_marker_is_split_at_bar() {
    assert_eq!(parse_captcha_marker("err CAPTCHA:abc|def", "CAPTCHA:"), Some(("abc", "def")));
    assert_eq!(parse_captcha_marker("err CAPTCHA:abc", "CAPTCHA:"), None);
    assert_eq!(parse_captcha_marker("plain error", "CAPTCHA:"), None);
}

#[test]
fn sync_commands_answer_success_captcha_or_error() {
    let done = sync_command_answer(Ok(3)).unwrap();
    assert_eq!(done.status, "completed");
    assert_eq!(done.new_items, 3);
    assert_eq!(done.message.as_deref(), Some("同步完成，本次新增 3 条记录"));
    let captcha = sync_command_answer(Err("同步错误: MANUAL_CAPTCHA_REQUIRED|aW1n|exec-1".to_string())).unwrap();
    assert!(captcha.captcha_required);
    assert_eq!(captcha.captcha_image.as_deref(), Some("aW1n"));
    assert_eq!(captcha.execution.as_deref(), Some("exec-1"));
    assert_eq!(captcha.message.as_deref(), Some("请输入验证码"));
    let failed = sync_command_answer(Err("网络错误".to_string())).unwrap_err();
    assert_eq!(failed, "网络错误");
}

#[test]
fn wrong_captcha_asks_again_with_fresh_image() {
    let again = captcha_sync_command_answer(Err("同步错误: CAPTCHA_WRONG|bmV3|exec-2".to_string())).unwrap();
    assert!(again.captcha_required);
    assert_eq!(again.captcha_image.as_deref(), Some("bmV3"));
    assert_eq!(again.execution.as_deref(), Some("exec-2"));
    assert_eq!(again.error.as_deref(), Some("验证码错误，请重新输入"));
    let next = captcha_sync_command_answer(Err("MANUAL_CAPTCHA_REQUIRED|a|b".to_string())).unwrap();
    assert_eq!(next.message.as_deref(), Some("请输入验证码"));
    assert_eq!(captcha_sync_command_answer(Ok(0)).unwrap().new_items, 0);
    assert_eq!(captcha_sync_command_answer(Err("x".to_string())).unwrap_err(), "x");
}

#[test]
fn wrong_captcha_error_round_trips_to_frontend() {
    let e = wrong_captcha_error("aW1hZ2U=", "e1s2");
    let answer = captcha_sync_command_answer(Err(e.message())).unwrap();
    assert_eq!(answer.captcha_image.as_deref(), Some("aW1hZ2U="));
    assert_eq!(answer.execution.as_deref(), Some("e1s2"));
}

#[test]
fn pending_captcha_and_login_refusals() {
    assert!(check_pending_captcha(Some(2), 2).is_ok());
    match check_pending_captcha(None, 2) {
        Err(AppError::Sync(m)) => assert_eq!(m, "当前没有待处理的验证码登录"),
        _ => panic!("expected a sync error"),
    }
    match check_pending_captcha(Some(1), 2) {
        Err(AppError::Sync(m)) => assert_eq!(m, "待处理的验证码身份不匹配，请重新开始同步"),
        _ => panic!("expected a sync error"),
    }
    match login_refusal_error(&LoginSubmitOutcome::PasswordError) {
        Some(AppError::Sync(m)) => assert_eq!(m, "用户名或密码错误"),
        _ => panic!("expected a sync error"),
    }
    match login_refusal_error(&LoginSubmitOutcome::Failure("超时".to_string())) {
        Some(AppError::Sync(m)) => assert_eq!(m, "登录失败: 超时"),
        _ => panic!("expected a sync error"),
    }
    assert!(login_refusal_error(&LoginSubmitOutcome::Success).is_none());
    assert!(login_refusal_error(&LoginSubmitOutcome::ValidateCodeError).is_none());
}

#[test]
fn manual_captcha_error_round_trips_to_frontend() {
    let e = manual_captcha_error("aW1n", "ex-9");
    let answer = sync_command_answer(Err(e.message())).unwrap();
    assert!(answer.captcha_required);
    assert_eq!(answer.captcha_image.as_deref(), Some("aW1n"));
    assert_eq!(answer.execution.as_deref(), Some("ex-9"));
    assert_eq!(answer.message.as_deref(), Some("请输入验证码"));
}

#[test]
fn automatic_login_needs_a_configured_recogniser() {
    match auto_login_ocr_target(&CaptchaMode::RemoteOcr, "10.0.0.2", 9000, "") {
        Ok(OcrTarget::Tcp { host, port }) => {
            assert_eq!(host, "10.0.0.2");
            assert_eq!(port, 9000);
        }
        _ => panic!("expected the TCP server"),
    }
    match auto_login_ocr_target(&CaptchaMode::RemoteOcr, "", 9000, "") {
        Err(AppError::Sync(m)) => assert_eq!(m, "未配置远程OCR服务器"),
        _ => panic!("expected a sync error"),
    }
    match auto_login_ocr_target(&CaptchaMode::RemoteOcrHttp, "", 0, "http://ocr") {
        Ok(OcrTarget::Http { url }) => assert_eq!(url, "http://ocr"),
        _ => panic!("expected the HTTP server"),
    }
    match auto_login_ocr_target(&CaptchaMode::RemoteOcrHttp, "h", 1, "") {
        Err(AppError::Sync(m)) => assert_eq!(m, "未配置RESTful OCR服务器地址"),
        _ => panic!("expected a sync error"),
    }
    match auto_login_ocr_target(&CaptchaMode::Manual, "h", 1, "u") {
        Err(AppError::Sync(m)) => assert_eq!(m, "当前验证码模式不支持自动登录"),
        _ => panic!("expected a sync error"),
    }
}

#[test]
fn automatic_login_retries_wrong_captchas() {
    assert_eq!(login_attempts(0), 1);
    assert_eq!(login_attempts(3), 3);
    assert!(matches!(auto_login_decision(1, 3, &LoginSubmitOutcome::Success, true), AutoLoginDecision::LoggedIn));
    assert!(matches!(auto_login_decision(1, 3, &LoginSubmitOutcome::Success, false), AutoLoginDecision::Retry));
    assert!(matches!(auto_login_decision(2, 3, &LoginSubmitOutcome::ValidateCodeError, false), AutoLoginDecision::Retry));
    match auto_login_decision(3, 3, &LoginSubmitOutcome::ValidateCodeError, false) {
        AutoLoginDecision::Fail(AppError::Sync(m)) => assert_eq!(m, "验证码识别多次失败"),
        _ => panic!("expected to give up"),
    }
    match auto_login_decision(3, 3, &LoginSubmitOutcome::Success, false) {
        AutoLoginDecision::Fail(AppError::Sync(m)) => assert_eq!(m, "登录重试次数耗尽"),
        _ => panic!("expected to give up"),
    }
    match auto_login_decision(1, 3, &LoginSubmitOutcome::PasswordError, false) {
        AutoLoginDecision::Fail(AppError::Sync(m)) => assert_eq!(m, "用户名或密码错误"),
        _ => panic!("expected to give up"),
    }
}

#[test]
fn enabled_account_is_found_by_student_id() {
    let accounts = vec![
        account_model_to_app(account_row(1, "202100000001")),
        account_model_to_app(account_row(2, "202100000002")),
    ];
    assert_eq!(find_enabled_account(&accounts, "202100000002").unwrap().id, 2);
    match find_enabled_account(&accounts, "202100000009") {
        Err(AppError::Sync(m)) => assert_eq!(m, "账号 202100000009 不存在或已禁用"),
        _ => panic!("expected a sync error"),
    }
    let ok = account_sync_result(&accounts[0], Ok((5, 2, true)));
    assert_eq!((ok.new_count, ok.pages_fetched, ok.early_stopped), (5, 2, true));
    assert!(ok.error.is_none());
    let failed = account_sync_result(&accounts[0], Err("超时".to_string()));
    assert_eq!(failed.new_count, 0);
    assert_eq!(failed.error.as_deref(), Some("同步失败: 超时"));
}

#[test]
fn manual_run_walks_the_remaining_accounts() {
    let a1 = account_model_to_app(account_row(1, "202100000001"));
    let a2 = account_model_to_app(account_row(2, "202100000002"));
    let a3 = account_model_to_app(account_row(3, "202100000003"));
    let options = default_incremental_sync_options(SyncRangePreset::Week);
    let mut run = PendingManualSync::new(7, 3, options, a1.clone(), vec![a2.clone(), a3.clone()], vec![], 0, "e1".to_string());
    assert_eq!(run.progress_index(), 0);
    run.push_result(account_sync_result(&a1, Ok((4, 1, false))));
    let next = run.next_account().unwrap();
    assert_eq!(next.id, 2);
    assert_eq!(run.progress_index(), 1);
    run.await_captcha(next, "e2".to_string());
    assert_eq!(run.current_account.id, 2);
    assert_eq!(run.execution, "e2");
    run.push_result(account_sync_result(&a2, Ok((3, 2, true))));
    assert_eq!(run.next_account().unwrap().id, 3);
    assert!(run.next_account().is_none());
    let done = run.finish();
    assert_eq!(done.total_new_count, 7);
    assert_eq!(done.results.len(), 2);
}

#[test]
fn captcha_images_travel_as_base64() {
    assert_eq!(encode_captcha_image(&[0x89, 0x50, 0x4e, 0x47]), "iVBORw==");
    assert_eq!(encode_captcha_image(&[]), "");
}

#[test]
fn manual_run_steps_through_accounts_and_captchas() {
    let a1 = account_model_to_app(account_row(1, "202100000001"));
    let a2 = account_model_to_app(account_row(2, "202100000002"));
    let options = default_incremental_sync_options(SyncRangePreset::Week);
    let mut run = PendingManualSync::new(7, 2, options, a1.clone(), vec![a2.clone()], vec![], 0, "e1".to_string());
    match run.step(ManualRunEvent::Synced(account_sync_result(&a1, Ok((3, 1, false))))) {
        ManualRunAction::SyncAccount(a) => assert_eq!(a.id, 2),
        _ => panic!("expected the next account"),
    }
    match run.step(ManualRunEvent::NeedsCaptcha { account: a2.clone(), image: "aW1n".to_string(), execution: "e2".to_string() }) {
        ManualRunAction::StopForCaptcha(e) => {
            let answer = sync_command_answer(Err(e.message())).unwrap();
            assert_eq!(answer.captcha_image.as_deref(), Some("aW1n"));
            assert_eq!(answer.execution.as_deref(), Some("e2"));
        }
        _ => panic!("expected a captcha stop"),
    }
    assert_eq!(run.execution, "e2");
    assert!(matches!(run.step(ManualRunEvent::Synced(account_sync_result(&a2, Ok((4, 2, true))))), ManualRunAction::Finished));
    assert_eq!(run.finish().total_new_count, 7);
}
