use shmtu_terminal::captcha::captcha_test_start;
use shmtu_terminal::captcha::{
    captcha_verdict, manual_answer, manual_result, manual_session_done, parse_captcha_mode, recognized_result,
    unrecognized_result, BatchCaptchaRun, LocalOcrInit, LoginSubmitOutcome, local_ocr_init_step, missing_models_message,
    recognition_error, test_ocr_target,
};
use shmtu_terminal::sync::OcrTarget;
use shmtu_terminal::config::{CaptchaMode, SyncRangePresetConfig};
use shmtu_terminal::reclassify::{tally_reclassify, ReclassifiedBill};
use shmtu_terminal::services::{
    account_expiration_result, accounts_to_check, auto_sync_interval_minutes, auto_sync_plan, empty_expiration_result,
    next_interval_seconds, saved_session_step, sync_range_preset, tally_expiration, AutoSyncState, SavedSessionStep,
    SessionExpirationState, SessionProbe,
    AUTO_SYNC_FLOOR_SECONDS, SESSION_CHECK_FLOOR_SECONDS,
};
use shmtu_terminal::sync::SyncRangePreset;

#[test]
fn intervals_add_positive_jitter_and_respect_floor() {
    assert_eq!(next_interval_seconds(10, 0, AUTO_SYNC_FLOOR_SECONDS), 600);
    assert_eq!(next_interval_seconds(10, 1, AUTO_SYNC_FLOOR_SECONDS), 600);
    assert_eq!(next_interval_seconds(10, 2, AUTO_SYNC_FLOOR_SECONDS), 660);
    assert_eq!(next_interval_seconds(1, 2, AUTO_SYNC_FLOOR_SECONDS), 300);
    assert_eq!(next_interval_seconds(0, 0, SESSION_CHECK_FLOOR_SECONDS), 60);
    assert_eq!(auto_sync_interval_minutes(3), 5);
    assert_eq!(auto_sync_interval_minutes(30), 30);
}

#[test]
fn auto_sync_skips_without_identity_or_with_manual_captcha() {
    assert_eq!(auto_sync_plan(0, &CaptchaMode::LocalOnnx, &SyncRangePresetConfig::Week), None);
    assert_eq!(auto_sync_plan(3, &CaptchaMode::Manual, &SyncRangePresetConfig::Week), None);
    assert_eq!(auto_sync_plan(3, &CaptchaMode::RemoteOcr, &SyncRangePresetConfig::HalfYear), Some((3, SyncRangePreset::HalfYear)));
    assert_eq!(sync_range_preset(&SyncRangePresetConfig::All), SyncRangePreset::All);
}

#[test]
fn auto_sync_state_counts_runs() {
    let mut st = AutoSyncState::new();
    assert!(st.begin());
    assert!(!st.begin());
    st.schedule(100);
    let s = st.status(40);
    assert_eq!(s.next_run_in_seconds, Some(60));
    st.record_run(120, true);
    st.record_run(200, false);
    let s = st.status(230);
    assert_eq!((s.total_runs, s.success_runs, s.failed_runs), (2, 1, 1));
    assert_eq!(s.last_run_seconds_ago, Some(30));
    assert_eq!(s.next_run_in_seconds, None);
    st.stop();
    assert!(!st.status(0).is_running);
}

#[test]
fn probe_outcomes_become_results() {
    let r = account_expiration_result("a".to_string(), SessionProbe::LoggedIn);
    assert!(r.is_valid && !r.was_invalidated);
    assert_eq!(r.status, "valid");
    let r = account_expiration_result("a".to_string(), SessionProbe::NeedLogin);
    assert!(!r.is_valid && r.was_invalidated);
    assert_eq!(r.status, "expired");
    let r = account_expiration_result("a".to_string(), SessionProbe::RestoreFailed("bad cookie".to_string()));
    assert_eq!(r.status, "restore_failed");
    assert_eq!(r.error_message.as_deref(), Some("bad cookie"));
    assert_eq!(account_expiration_result("a".to_string(), SessionProbe::NoSession).status, "no_session");
    assert_eq!(account_expiration_result("a".to_string(), SessionProbe::LoadFailed("x".to_string())).status, "error");
    assert_eq!(account_expiration_result("a".to_string(), SessionProbe::ProbeFailed("x".to_string())).status, "probe_error");
}

#[test]
fn expiration_tally_and_state() {
    let rs = vec![
        account_expiration_result("a".to_string(), SessionProbe::LoggedIn),
        account_expiration_result("b".to_string(), SessionProbe::NeedLogin),
        account_expiration_result("c".to_string(), SessionProbe::NoSession),
    ];
    let t = tally_expiration(rs);
    assert_eq!((t.total_accounts, t.valid_count, t.expired_count), (3, 1, 2));
    let mut st = SessionExpirationState::new();
    assert!(st.begin());
    st.record_check(50, &t);
    st.record_check(60, &empty_expiration_result());
    let s = st.status(65);
    assert_eq!((s.total_checks, s.valid_count, s.expired_count, s.last_check), (2, 1, 2, Some(5)));
    assert!(accounts_to_check(vec![]).is_empty());
}

fn rb(target: &str, found: bool, old: Option<&str>, new: &str) -> ReclassifiedBill {
    ReclassifiedBill {
        target_user: target.to_string(),
        location_found: found,
        old_category: old.map(|s| s.to_string()),
        new_category: new.to_string(),
    }
}

#[test]
fn reclassify_counts() {
    let bills = vec![
        rb("食堂", true, None, "canteen"),
        rb("超市", false, Some("other"), "other"),
        rb("", false, Some(""), "bath"),
        rb("淋浴", true, Some("bath"), "bath"),
    ];
    let r = tally_reclassify(&bills, 12);
    assert_eq!((r.total_scanned, r.translated, r.missed, r.category_updated, r.duration_ms), (4, 2, 1, 2, 12));
}

#[test]
fn captcha_modes_and_manual_answers() {
    assert_eq!(parse_captcha_mode("remote_ocr_http"), Ok(CaptchaMode::RemoteOcrHttp));
    assert_eq!(parse_captcha_mode("voice"), Err("未知验证码模式: voice".to_string()));
    assert_eq!(manual_answer(Some(" 12 ")), Ok("12".to_string()));
    assert_eq!(manual_answer(Some("  ")), Err("手动模式请输入验证码".to_string()));
    assert_eq!(manual_answer(None), Err("手动模式请输入验证码".to_string()));
}

#[test]
fn captcha_verdicts() {
    assert_eq!(captcha_verdict(&LoginSubmitOutcome::PasswordError), (true, Some("密码错误，说明验证码正确".to_string()), None));
    assert_eq!(
        captcha_verdict(&LoginSubmitOutcome::ValidateCodeError),
        (false, Some("验证码错误".to_string()), Some("验证码错误".to_string()))
    );
    assert_eq!(
        captcha_verdict(&LoginSubmitOutcome::Failure("锁定".to_string())),
        (false, Some("登录返回异常: 锁定".to_string()), Some("登录探测失败: 锁定".to_string()))
    );
    assert!(manual_session_done(&LoginSubmitOutcome::Success));
    assert!(!manual_session_done(&LoginSubmitOutcome::ValidateCodeError));
}

#[test]
fn captcha_results() {
    let r = recognized_result("local_onnx", "3+5=?".to_string(), "8".to_string(), &LoginSubmitOutcome::Success, 40);
    assert!(r.success);
    assert_eq!((r.id, r.mode.as_str(), r.answer.as_str(), r.duration_ms), (1, "local_onnx", "8", 40));
    let u = unrecognized_result("remote_ocr", "未配置远程OCR服务器地址".to_string(), 3);
    assert!(!u.success);
    assert_eq!(u.error.as_deref(), Some("未配置远程OCR服务器地址"));
    let m = manual_result("7", &LoginSubmitOutcome::ValidateCodeError, 9, Some("new image".to_string()));
    assert_eq!(m.captcha_image.as_deref(), Some("new image"));
    assert_eq!(m.mode, "manual");
    let m = manual_result("7", &LoginSubmitOutcome::PasswordError, 9, Some("new image".to_string()));
    assert!(m.success && m.captcha_image.is_none());
}

#[test]
fn batch_tests_are_numbered_and_stop_at_first_failure() {
    assert_eq!(BatchCaptchaRun::start("manual", 3).err().unwrap(), "手动模式不支持批量测试，请使用单次测试");
    let mut run = BatchCaptchaRun::start("local_onnx", 3).ok().unwrap();
    assert!(run.wants_more());
    run.record(Ok(recognized_result("local_onnx", "1+1=?".to_string(), "2".to_string(), &LoginSubmitOutcome::Success, 5)));
    run.record(Ok(recognized_result("local_onnx", "2+2=?".to_string(), "4".to_string(), &LoginSubmitOutcome::PasswordError, 6)));
    assert!(run.wants_more());
    run.record(Err("识别失败".to_string()));
    assert!(!run.wants_more());
    let results = run.into_results();
    assert_eq!(results.len(), 2);
    assert_eq!(results[0].id, 1);
    assert_eq!(results[1].id, 2);
    assert_eq!(results[1].answer, "4");
    let mut full = BatchCaptchaRun::start("remote_ocr", 1).ok().unwrap();
    full.record(Ok(unrecognized_result("remote_ocr", "x".to_string(), 1)));
    assert!(!full.wants_more());
}

#[test]
fn captcha_tests_need_configured_recognisers() {
    assert_eq!(test_ocr_target(&CaptchaMode::RemoteOcr, "", 0, "").unwrap_err(), "未配置远程OCR服务器地址");
    assert_eq!(test_ocr_target(&CaptchaMode::RemoteOcrHttp, "h", 1, "").unwrap_err(), "未配置RESTful OCR服务器地址");
    assert!(matches!(test_ocr_target(&CaptchaMode::LocalOnnx, "", 0, ""), Ok(None)));
    match test_ocr_target(&CaptchaMode::RemoteOcr, "1.2.3.4", 8080, "") {
        Ok(Some(OcrTarget::Tcp { host, port })) => assert_eq!((host.as_str(), port), ("1.2.3.4", 8080)),
        _ => panic!("expected the TCP server"),
    }
    assert_eq!(recognition_error(&CaptchaMode::RemoteOcr, "超时"), "远程OCR识别失败: 超时");
    assert_eq!(recognition_error(&CaptchaMode::RemoteOcrHttp, "x"), "RESTful OCR识别失败: x");
    assert_eq!(recognition_error(&CaptchaMode::LocalOnnx, "y"), "本地ONNX识别失败: y");
    assert_eq!(missing_models_message(&vec!["a.onnx".to_string(), "b.onnx".to_string()]), "ONNX模型文件不完整，缺少: a.onnx, b.onnx");
    assert_eq!(missing_models_message(&vec!["c.onnx".to_string()]), "ONNX模型文件不完整，缺少: c.onnx");
}

#[test]
fn captcha_test_start_by_mode() {
    assert_eq!(captcha_test_start("manual", Some(" ab12 ")), Ok(Some("ab12".to_string())));
    assert_eq!(captcha_test_start("manual", Some("  ")), Err("手动模式请输入验证码".to_string()));
    assert_eq!(captcha_test_start("manual", None), Err("手动模式请输入验证码".to_string()));
    assert_eq!(captcha_test_start("local_onnx", None), Ok(None));
    assert_eq!(captcha_test_start("bogus", None), Err("未知验证码模式: bogus".to_string()));
    let answer = captcha_test_start("manual", Some("x9")).unwrap().unwrap();
    let r = manual_result(&answer, &LoginSubmitOutcome::PasswordError, 3, None);
    assert_eq!(r.answer, "x9");
    assert_eq!(r.mode, "manual");
    assert!(r.expression.is_empty());
}

#[test]
fn saved_session_is_reused_only_while_logged_in() {
    assert!(matches!(saved_session_step(SessionProbe::LoggedIn), SavedSessionStep::SyncWithSession));
    assert!(matches!(saved_session_step(SessionProbe::NoSession), SavedSessionStep::Login));
    assert!(matches!(saved_session_step(SessionProbe::NeedLogin), SavedSessionStep::Login));
    assert!(matches!(saved_session_step(SessionProbe::ProbeFailed("timeout".to_string())), SavedSessionStep::Login));
    match saved_session_step(SessionProbe::RestoreFailed("bad cookie".to_string())) {
        SavedSessionStep::Fail(e) => assert_eq!(e, "bad cookie"),
        other => panic!("unexpected {:?}", other),
    }
    match saved_session_step(SessionProbe::LoadFailed("db".to_string())) {
        SavedSessionStep::Fail(e) => assert_eq!(e, "db"),
        other => panic!("unexpected {:?}", other),
    }
}

#[test]
fn local_ocr_start_decisions() {
    let none: Vec<String> = Vec::new();
    let two = vec!["det.onnx".to_string(), "rec.onnx".to_string()];
    assert!(matches!(local_ocr_init_step(true, &two), LocalOcrInit::AlreadyLoaded));
    assert!(matches!(local_ocr_init_step(false, &none), LocalOcrInit::Load));
    match local_ocr_init_step(false, &two) {
        LocalOcrInit::MissingFiles(e) => assert_eq!(e, "模型文件不完整，缺少: det.onnx, rec.onnx"),
        other => panic!("unexpected {:?}", other),
    }
}
