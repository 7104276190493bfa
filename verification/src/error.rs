//! The application's error type. Errors that come from libraries are carried as their
//! message text.
use vstd::prelude::*;

use crate::text::{chars_of, push_str, string_from_chars};

verus! {

/// Core application error.
#[derive(Debug, Clone)]
pub enum AppError {
    Database(String),
    Io(String),
    Serialization(String),
    TomlParse(String),
    TomlSerialize(String),
    Crypto(String),
    Config(String),
    Sync(String),
    CaptchaRequired { captcha_image: String, execution: String },
    Classification(String),
    Export(String),
    CasAuth(String),
    Http(String),
    NotFound(String),
    Validation(String),
    Zip(String),
}

/// `prefix` followed by `detail`.
pub open spec fn prefixed(prefix: Seq<char>, detail: Seq<char>) -> Seq<char> {
    prefix + detail
}

/// The text an error is shown as.
pub open spec fn error_text(e: AppError) -> Seq<char> {
    match e {
        AppError::Database(d) => prefixed("数据库错误: "@, d@),
        AppError::Io(d) => prefixed("IO错误: "@, d@),
        AppError::Serialization(d) => prefixed("序列化错误: "@, d@),
        AppError::TomlParse(d) => prefixed("TOML解析错误: "@, d@),
        AppError::TomlSerialize(d) => prefixed("TOML序列化错误: "@, d@),
        AppError::Crypto(d) => prefixed("加密错误: "@, d@),
        AppError::Config(d) => prefixed("配置错误: "@, d@),
        AppError::Sync(d) => prefixed("同步错误: "@, d@),
        AppError::CaptchaRequired { .. } => "需要验证码"@,
        AppError::Classification(d) => prefixed("分类错误: "@, d@),
        AppError::Export(d) => prefixed("导出错误: "@, d@),
        AppError::CasAuth(d) => prefixed("CAS认证错误: "@, d@),
        AppError::Http(d) => prefixed("HTTP请求错误: "@, d@),
        AppError::NotFound(d) => prefixed("记录未找到: "@, d@),
        AppError::Validation(d) => prefixed("验证失败: "@, d@),
        AppError::Zip(d) => prefixed("ZIP压缩错误: "@, d@),
    }
}

/// `prefix` followed by `detail`, as a `String`.
pub fn concat_str(prefix: &str, detail: &str) -> (r: String)
    ensures
        r@ == prefix@ + detail@,
{
    let mut v = chars_of(prefix);
    push_str(&mut v, detail);
    string_from_chars(v.as_slice())
}

impl AppError {
    /// The text the error is shown as.
    pub fn message(&self) -> (r: String)
        ensures
            r@ == error_text(*self),
    {
        match self {
            AppError::Database(d) => concat_str("数据库错误: ", d.as_str()),
            AppError::Io(d) => concat_str("IO错误: ", d.as_str()),
            AppError::Serialization(d) => concat_str("序列化错误: ", d.as_str()),
            AppError::TomlParse(d) => concat_str("TOML解析错误: ", d.as_str()),
            AppError::TomlSerialize(d) => concat_str("TOML序列化错误: ", d.as_str()),
            AppError::Crypto(d) => concat_str("加密错误: ", d.as_str()),
            AppError::Config(d) => concat_str("配置错误: ", d.as_str()),
            AppError::Sync(d) => concat_str("同步错误: ", d.as_str()),
            AppError::CaptchaRequired { .. } => "需要验证码".to_string(),
            AppError::Classification(d) => concat_str("分类错误: ", d.as_str()),
            AppError::Export(d) => concat_str("导出错误: ", d.as_str()),
            AppError::CasAuth(d) => concat_str("CAS认证错误: ", d.as_str()),
            AppError::Http(d) => concat_str("HTTP请求错误: ", d.as_str()),
            AppError::NotFound(d) => concat_str("记录未找到: ", d.as_str()),
            AppError::Validation(d) => concat_str("验证失败: ", d.as_str()),
            AppError::Zip(d) => concat_str("ZIP压缩错误: ", d.as_str()),
        }
    }
}

/// Result type of the library.
pub type AppResult<T> = Result<T, AppError>;

} // verus!
