//! Captcha tests: which mode a test uses, and how a recognised answer and the campus
//! login's verdict on it make up the result shown. Fetching the captcha, recognising
//! it and submitting the answer happen outside.
use vstd::prelude::*;

use crate::config::CaptchaMode;
use crate::sync::OcrTarget;
use crate::error::concat_str;
use crate::text::{owned, str_eq, str_is_empty, trim, trim_str};

verus! {

/// What the campus login answered to a submitted captcha (with a deliberately wrong
/// account, so that only the captcha is judged).
#[derive(Debug, Clone)]
pub enum LoginSubmitOutcome {
    /// The password was refused: the captcha was right.
    PasswordError,
    /// The captcha was refused.
    ValidateCodeError,
    /// The login went through: the captcha was right.
    Success,
    /// Anything else, with its message.
    Failure(String),
}

/// Result of one captcha test, as the frontend shows it.
#[derive(Debug, Clone)]
pub struct CaptchaTestResultFrontend {
    pub id: u32,
    pub success: bool,
    pub expression: String,
    pub answer: String,
    pub duration_ms: u64,
    pub mode: String,
    pub verification: Option<String>,
    pub error: Option<String>,
    pub captcha_image: Option<String>,
}

/// A captcha challenge: the image (base64) and the login's execution token.
#[derive(Debug, Clone)]
pub struct CaptchaChallengeResponse {
    pub captcha_image: String,
    pub execution: String,
}

/// The captcha mode a test names, if any.
pub open spec fn mode_named(mode: Seq<char>) -> Option<CaptchaMode> {
    if mode == "manual"@ {
        Some(CaptchaMode::Manual)
    } else if mode == "remote_ocr"@ {
        Some(CaptchaMode::RemoteOcr)
    } else if mode == "remote_ocr_http"@ {
        Some(CaptchaMode::RemoteOcrHttp)
    } else if mode == "local_onnx"@ {
        Some(CaptchaMode::LocalOnnx)
    } else {
        None
    }
}

/// Reads the mode of a captcha test; an unknown name is refused with a message naming it.
pub fn parse_captcha_mode(mode: &str) -> (r: Result<CaptchaMode, String>)
    ensures
        match mode_named(mode@) {
            Some(m) => r == Ok::<CaptchaMode, String>(m),
            None => r matches Err(e) && e@ == "未知验证码模式: "@ + mode@,
        },
{
    if str_eq(mode, "manual") {
        Ok(CaptchaMode::Manual)
    } else if str_eq(mode, "remote_ocr") {
        Ok(CaptchaMode::RemoteOcr)
    } else if str_eq(mode, "remote_ocr_http") {
        Ok(CaptchaMode::RemoteOcrHttp)
    } else if str_eq(mode, "local_onnx") {
        Ok(CaptchaMode::LocalOnnx)
    } else {
        Err(concat_str("未知验证码模式: ", mode))
    }
}

/// The answer typed for a manual test: trimmed; missing or blank is refused.
pub fn manual_answer(input: Option<&str>) -> (r: Result<String, String>)
    ensures
        match input {
            Some(s) => if trim(s@).len() > 0 {
                r matches Ok(a) && a@ == trim(s@)
            } else {
                r matches Err(e) && e@ == "手动模式请输入验证码"@
            },
            None => r matches Err(e) && e@ == "手动模式请输入验证码"@,
        },
{
    match input {
        Some(s) => {
            let t = trim_str(s);
            if str_is_empty(t.as_str()) {
                Err(owned("手动模式请输入验证码"))
            } else {
                Ok(t)
            }
        },
        None => Err(owned("手动模式请输入验证码")),
    }
}

/// Whether the login's answer shows the captcha right.
pub open spec fn verdict_success(o: LoginSubmitOutcome) -> bool {
    o is PasswordError || o is Success
}

/// The explanation of the login's answer.
pub open spec fn verdict_verification(o: LoginSubmitOutcome) -> Seq<char> {
    match o {
        LoginSubmitOutcome::PasswordError => "密码错误，说明验证码正确"@,
        LoginSubmitOutcome::ValidateCodeError => "验证码错误"@,
        LoginSubmitOutcome::Success => "登录成功，验证码正确"@,
        LoginSubmitOutcome::Failure(m) => "登录返回异常: "@ + m@,
    }
}

/// The error of the login's answer, when it is one.
pub open spec fn verdict_error(o: LoginSubmitOutcome) -> Option<Seq<char>> {
    match o {
        LoginSubmitOutcome::ValidateCodeError => Some("验证码错误"@),
        LoginSubmitOutcome::Failure(m) => Some("登录探测失败: "@ + m@),
        _ => None,
    }
}

/// Judges a captcha answer by the login's outcome: success, explanation and error.
pub fn captcha_verdict(outcome: &LoginSubmitOutcome) -> (r: (bool, Option<String>, Option<String>))
    ensures
        r.0 == verdict_success(*outcome),
        r.1 matches Some(v) && v@ == verdict_verification(*outcome),
        crate::classification::opt_view(r.2) == verdict_error(*outcome),
{
    match outcome {
        LoginSubmitOutcome::PasswordError => (true, Some(owned("密码错误，说明验证码正确")), None),
        LoginSubmitOutcome::ValidateCodeError => (false, Some(owned("验证码错误")), Some(owned("验证码错误"))),
        LoginSubmitOutcome::Success => (true, Some(owned("登录成功，验证码正确")), None),
        LoginSubmitOutcome::Failure(m) => (
            false,
            Some(concat_str("登录返回异常: ", m.as_str())),
            Some(concat_str("登录探测失败: ", m.as_str())),
        ),
    }
}

/// Result of an automatic test whose captcha was recognised as `expression` with value
/// `answer`, judged by the login's `outcome`.
pub fn recognized_result(mode: &str, expression: String, answer: String, outcome: &LoginSubmitOutcome, duration_ms: u64) -> (r: CaptchaTestResultFrontend)
    ensures
        r.id == 1,
        r.success == verdict_success(*outcome),
        r.expression@ == expression@,
        r.answer@ == answer@,
        r.duration_ms == duration_ms,
        r.mode@ == mode@,
        r.verification matches Some(v) && v@ == verdict_verification(*outcome),
        crate::classification::opt_view(r.error) == verdict_error(*outcome),
        r.captcha_image is None,
{
    let (success, verification, error) = captcha_verdict(outcome);
    CaptchaTestResultFrontend {
        id: 1,
        success,
        expression,
        answer,
        duration_ms,
        mode: owned(mode),
        verification,
        error,
        captcha_image: None,
    }
}

/// Result of an automatic test whose captcha could not be recognised.
pub fn unrecognized_result(mode: &str, error: String, duration_ms: u64) -> (r: CaptchaTestResultFrontend)
    ensures
        r.id == 1,
        !r.success,
        r.expression@.len() == 0,
        r.answer@.len() == 0,
        r.duration_ms == duration_ms,
        r.mode@ == mode@,
        r.verification is None,
        r.error matches Some(e) && e@ == error@,
        r.captcha_image is None,
{
    CaptchaTestResultFrontend {
        id: 1,
        success: false,
        expression: String::new(),
        answer: String::new(),
        duration_ms,
        mode: owned(mode),
        verification: None,
        error: Some(error),
        captcha_image: None,
    }
}

/// After a manual test the pending challenge is dropped when the answer was judged right;
/// a refused captcha gets a fresh challenge, and any other answer keeps it.
pub open spec fn manual_session_closes(o: LoginSubmitOutcome) -> bool {
    verdict_success(o)
}

/// Whether a manual test ends the pending challenge.
pub fn manual_session_done(outcome: &LoginSubmitOutcome) -> (b: bool)
    ensures
        b == manual_session_closes(*outcome),
{
    match outcome {
        LoginSubmitOutcome::PasswordError => true,
        LoginSubmitOutcome::Success => true,
        _ => false,
    }
}

/// Result of a manual test of `answer`; `fresh_image` is the new challenge shown after a
/// refused captcha.
pub fn manual_result(answer: &str, outcome: &LoginSubmitOutcome, duration_ms: u64, fresh_image: Option<String>) -> (r: CaptchaTestResultFrontend)
    ensures
        r.id == 1,
        r.success == verdict_success(*outcome),
        r.expression@.len() == 0,
        r.answer@ == answer@,
        r.duration_ms == duration_ms,
        r.mode@ == "manual"@,
        r.verification matches Some(v) && v@ == verdict_verification(*outcome),
        crate::classification::opt_view(r.error) == verdict_error(*outcome),
        r.captcha_image == (if outcome is ValidateCodeError { fresh_image } else { None }),
{
    let (success, verification, error) = captcha_verdict(outcome);
    let image = match outcome {
        LoginSubmitOutcome::ValidateCodeError => fresh_image,
        _ => None,
    };
    CaptchaTestResultFrontend {
        id: 1,
        success,
        expression: String::new(),
        answer: owned(answer),
        duration_ms,
        mode: owned("manual"),
        verification,
        error,
        captcha_image: image,
    }
}

/// The refusal of a batch test in manual mode.
pub open spec fn batch_manual_refusal() -> Seq<char> {
    "手动模式不支持批量测试，请使用单次测试"@
}

/// `r` is `t` numbered `id`.
pub open spec fn renumbered(t: CaptchaTestResultFrontend, id: u32, r: CaptchaTestResultFrontend) -> bool {
    r == CaptchaTestResultFrontend { id, ..t }
}

/// A batch of captcha tests: up to `count` tests run one after the other, numbered from one;
/// the first failed test ends the batch.
pub struct BatchCaptchaRun {
    count: u32,
    results: Vec<CaptchaTestResultFrontend>,
    stopped: bool,
}

impl BatchCaptchaRun {
    /// The number of tests asked for.
    pub closed spec fn count(&self) -> nat {
        self.count as nat
    }

    /// The results so far, in order.
    pub closed spec fn results(&self) -> Seq<CaptchaTestResultFrontend> {
        self.results@
    }

    /// A test failed and ended the batch.
    pub closed spec fn stopped(&self) -> bool {
        self.stopped
    }

    /// Every result is numbered by its position, counted from one, and there are no more
    /// than asked for.
    pub open spec fn wf(&self) -> bool {
        &&& self.results().len() <= self.count()
        &&& forall|i: int| 0 <= i < self.results().len() ==> (#[trigger] self.results()[i]).id == i + 1
    }

    /// A batch of `count` tests in `mode`; the manual mode has none.
    pub fn start(mode: &str, count: u32) -> (r: Result<Self, String>)
        ensures
            mode@ == "manual"@ ==> (r matches Err(e) && e@ == batch_manual_refusal()),
            mode@ != "manual"@ ==> (r matches Ok(b) && b.wf() && b.count() == count && b.results().len() == 0 && !b.stopped()),
    {
        proof {
            reveal_strlit("manual");
        }
        if str_eq(mode, "manual") {
            Err(owned("手动模式不支持批量测试，请使用单次测试"))
        } else {
            Ok(BatchCaptchaRun { count, results: Vec::new(), stopped: false })
        }
    }

    /// Another test is to run: none has failed and fewer than asked for have run.
    pub fn wants_more(&self) -> (b: bool)
        ensures
            b == (!self.stopped() && self.results().len() < self.count()),
    {
        !self.stopped && self.results.len() < self.count as usize
    }

    /// Records the outcome of the next test: a result is kept, numbered after those before
    /// it; a failure ends the batch.
    pub fn record(&mut self, outcome: Result<CaptchaTestResultFrontend, String>)
        requires
            old(self).wf(),
            !old(self).stopped(),
            old(self).results().len() < old(self).count(),
        ensures
            final(self).wf(),
            final(self).count() == old(self).count(),
            match outcome {
                Ok(t) => !final(self).stopped() && final(self).results().len() == old(self).results().len() + 1
                    && final(self).results().drop_last() == old(self).results()
                    && renumbered(t, (old(self).results().len() + 1) as u32, final(self).results().last()),
                Err(_) => final(self).stopped() && final(self).results() == old(self).results(),
            },
    {
        match outcome {
            Ok(t) => {
                let id = (self.results.len() + 1) as u32;
                let ghost before = self.results@;
                self.results.push(CaptchaTestResultFrontend { id, ..t });
                assert(self.results@.drop_last() =~= before);
            },
            Err(_) => {
                self.stopped = true;
            },
        }
    }

    /// The results of the batch.
    pub fn into_results(self) -> (r: Vec<CaptchaTestResultFrontend>)
        ensures
            r@ == self.results(),
    {
        self.results
    }
}

/// The recogniser a captcha test uses: the TCP server in remote OCR mode and the RESTful
/// one in remote OCR over HTTP mode, refused when that server is not configured; no server
/// for the modes that recognise by hand or locally.
pub fn test_ocr_target(mode: &CaptchaMode, host: &str, port: u16, http_url: &str) -> (r: Result<Option<OcrTarget>, String>)
    ensures
        match *mode {
            CaptchaMode::RemoteOcr => if host@.len() == 0 || port == 0 {
                r matches Err(e) && e@ == "未配置远程OCR服务器地址"@
            } else {
                r matches Ok(Some(OcrTarget::Tcp { host: h, port: p })) && h@ == host@ && p == port
            },
            CaptchaMode::RemoteOcrHttp => if http_url@.len() == 0 {
                r matches Err(e) && e@ == "未配置RESTful OCR服务器地址"@
            } else {
                r matches Ok(Some(OcrTarget::Http { url })) && url@ == http_url@
            },
            _ => r matches Ok(None),
        },
{
    match mode {
        CaptchaMode::RemoteOcr => {
            if str_is_empty(host) || port == 0 {
                Err(owned("未配置远程OCR服务器地址"))
            } else {
                Ok(Some(OcrTarget::Tcp { host: owned(host), port }))
            }
        },
        CaptchaMode::RemoteOcrHttp => {
            if str_is_empty(http_url) {
                Err(owned("未配置RESTful OCR服务器地址"))
            } else {
                Ok(Some(OcrTarget::Http { url: owned(http_url) }))
            }
        },
        _ => Ok(None),
    }
}

/// The prefix of a recognition failure in a mode.
pub open spec fn recognition_prefix(mode: CaptchaMode) -> Seq<char> {
    match mode {
        CaptchaMode::RemoteOcr => "远程OCR识别失败: "@,
        CaptchaMode::RemoteOcrHttp => "RESTful OCR识别失败: "@,
        CaptchaMode::LocalOnnx => "本地ONNX识别失败: "@,
        CaptchaMode::Manual => Seq::empty(),
    }
}

/// The error of a failed recognition: the recogniser's detail after the mode's prefix.
pub fn recognition_error(mode: &CaptchaMode, detail: &str) -> (r: String)
    ensures
        r@ == recognition_prefix(*mode) + detail@,
{
    match mode {
        CaptchaMode::RemoteOcr => concat_str("远程OCR识别失败: ", detail),
        CaptchaMode::RemoteOcrHttp => concat_str("RESTful OCR识别失败: ", detail),
        CaptchaMode::LocalOnnx => concat_str("本地ONNX识别失败: ", detail),
        CaptchaMode::Manual => {
            proof {
                reveal_strlit("");
            }
            concat_str("", detail)
        },
    }
}

/// The texts joined with `sep` between them.
pub open spec fn joined(pieces: Seq<Seq<char>>, sep: Seq<char>) -> Seq<char>
    decreases pieces.len(),
{
    if pieces.len() == 0 {
        Seq::empty()
    } else if pieces.len() == 1 {
        pieces[0]
    } else {
        joined(pieces.drop_last(), sep) + sep + pieces.last()
    }
}

/// The error of an incomplete set of local model files, naming the missing ones.
pub fn missing_models_message(missing: &Vec<String>) -> (r: String)
    ensures
        r@ == "ONNX模型文件不完整，缺少: "@ + joined(missing@.map_values(|m: String| m@), ", "@),
{
    prefixed_list("ONNX模型文件不完整，缺少: ", missing)
}

/// `prefix` followed by the items, separated by a comma and a space.
fn prefixed_list(prefix: &str, missing: &Vec<String>) -> (r: String)
    ensures
        r@ == prefix@ + joined(missing@.map_values(|m: String| m@), ", "@),
{
    let ghost names = missing@.map_values(|m: String| m@);
    let mut v: Vec<char> = Vec::new();
    crate::text::push_str(&mut v, prefix);
    let ghost head = v@;
    let mut i: usize = 0;
    while i < missing.len()
        invariant
            i <= missing.len(),
            names == missing@.map_values(|m: String| m@),
            v@ == head + joined(names.take(i as int), ", "@),
        decreases missing.len() - i,
    {
        assert(names.take(i + 1).drop_last() =~= names.take(i as int));
        if i > 0 {
            crate::text::push_str(&mut v, ", ");
        }
        crate::text::push_str(&mut v, missing[i].as_str());
        proof {
            if i == 0 {
                assert(names.take(1).len() == 1);
                assert(joined(names.take(0), ", "@) =~= Seq::<char>::empty());
                assert(v@ =~= head + joined(names.take(1), ", "@));
            } else {
                assert(v@ =~= head + joined(names.take(i + 1), ", "@));
            }
        }
        i = i + 1;
    }
    assert(names.take(missing.len() as int) =~= names);
    crate::text::string_from_chars(v.as_slice())
}

/// What starting the local recogniser does.
#[derive(Debug, Clone)]
pub enum LocalOcrInit {
    /// The models are loaded already: nothing is done.
    AlreadyLoaded,
    /// Some model files are missing: starting fails with this error.
    MissingFiles(String),
    /// Every model file is there: the models are loaded.
    Load,
}

/// The decision of starting the local recogniser, from whether its models are loaded and
/// which model files are missing: a loaded recogniser is left as it is; otherwise missing
/// files are an error that names them, and a complete set is loaded.
pub fn local_ocr_init_step(loaded: bool, missing: &Vec<String>) -> (r: LocalOcrInit)
    ensures
        loaded ==> r is AlreadyLoaded,
        !loaded && missing@.len() == 0 ==> r is Load,
        !loaded && missing@.len() > 0 ==> (r matches LocalOcrInit::MissingFiles(e)
            && e@ == "模型文件不完整，缺少: "@ + joined(missing@.map_values(|m: String| m@), ", "@)),
{
    if loaded {
        LocalOcrInit::AlreadyLoaded
    } else if missing.len() > 0 {
        LocalOcrInit::MissingFiles(prefixed_list("模型文件不完整，缺少: ", missing))
    } else {
        LocalOcrInit::Load
    }
}

/// What a captcha test starts with, before any challenge is fetched: an unknown mode is
/// refused; the manual mode runs no recogniser and tests the typed answer (trimmed; a
/// missing or blank one is refused), which [`manual_result`] then reports; every other
/// mode recognises the captcha itself (`None`).
pub fn captcha_test_start(mode: &str, input: Option<&str>) -> (r: Result<Option<String>, String>)
    ensures
        mode_named(mode@) is None ==> (r matches Err(e) && e@ == "未知验证码模式: "@ + mode@),
        mode_named(mode@) == Some(CaptchaMode::Manual) ==> match input {
            Some(s) => if trim(s@).len() > 0 {
                r matches Ok(Some(a)) && a@ == trim(s@)
            } else {
                r matches Err(e) && e@ == "手动模式请输入验证码"@
            },
            None => r matches Err(e) && e@ == "手动模式请输入验证码"@,
        },
        mode_named(mode@) matches Some(m) && m != CaptchaMode::Manual ==> r matches Ok(None),
{
    match parse_captcha_mode(mode) {
        Err(e) => Err(e),
        Ok(CaptchaMode::Manual) => match manual_answer(input) {
            Ok(a) => Ok(Some(a)),
            Err(e) => Err(e),
        },
        Ok(_) => Ok(None),
    }
}

} // verus!
