//! Application configuration: its sections, their defaults, and the in-memory side of the
//! configuration file manager. Reading and writing the TOML file is done by the caller.
use vstd::prelude::*;

use crate::crypto::{hashed_password, CryptoService};
use crate::text::{owned, str_is_empty};

verus! {

/// The result of `Path::join` of two paths, as text.
pub uninterp spec fn path_join(base: Seq<char>, part: Seq<char>) -> Seq<char>;

/// Joins two paths with `std::path::Path::join`; the contract names the result.
#[verifier::external_body]
pub(crate) fn join_path(base: &str, part: &str) -> (r: String)
    ensures
        r@ == path_join(base@, part@),
{
    std::path::Path::new(base).join(part).to_string_lossy().into_owned()
}

/// Startup protection.
#[derive(Debug, Clone)]
pub struct SecurityConfig {
    pub enable_startup_protection: bool,
    pub password_hash: String,
}

/// Default and last used identity.
#[derive(Debug, Clone)]
pub struct IdentityConfig {
    pub remember_default: bool,
    pub default_identity_id: i64,
    pub last_identity_id: i64,
}

/// How captchas are solved.
#[derive(Debug, Clone, Copy, PartialEq, Eq)]
pub enum CaptchaMode {
    Manual,
    RemoteOcr,
    RemoteOcrHttp,
    LocalOnnx,
}

/// Captcha settings.
#[derive(Debug, Clone)]
pub struct CaptchaConfig {
    pub mode: CaptchaMode,
    pub remote_ocr_host: String,
    pub remote_ocr_port: u16,
    pub remote_ocr_http_url: String,
    pub onnx_model_path: String,
    pub ocr_retry_count: usize,
}

/// Range of automatic syncs.
#[derive(Debug, Clone, Copy, PartialEq, Eq)]
pub enum SyncRangePresetConfig {
    Week,
    HalfMonth,
    Month,
    HalfYear,
    Year,
    All,
}

/// Sync settings.
#[derive(Debug, Clone)]
pub struct SyncConfig {
    pub max_pages: u32,
    pub early_stop_threshold: u32,
    pub skip_graduated_accounts: bool,
    pub auto_merge_after_sync: bool,
    pub auto_sync_enabled: bool,
    pub auto_sync_interval_minutes: u64,
    pub auto_sync_range: SyncRangePresetConfig,
}

/// Data directory settings.
#[derive(Debug, Clone)]
pub struct DataConfig {
    pub data_directory: String,
    pub snapshot_keep_count: usize,
}

/// Classification rule file settings.
#[derive(Debug, Clone)]
pub struct ClassificationConfig {
    pub rules_path: String,
    pub rules_update_url: String,
}

/// Update check settings.
#[derive(Debug, Clone)]
pub struct UpdateConfig {
    pub auto_check: bool,
    pub check_interval_hours: u64,
    pub last_check_time: String,
}

/// Interface settings.
#[derive(Debug, Clone)]
pub struct UiConfig {
    pub theme: String,
    pub language: String,
    pub decimal_places: u32,
    pub home_trend_range: String,
    pub home_category_range: String,
}

/// Session renewal settings.
#[derive(Debug, Clone)]
pub struct SessionConfig {
    pub refresh_interval_minutes: u64,
    pub auto_refresh: bool,
}

/// Peer-to-peer transfer settings.
#[derive(Debug, Clone)]
pub struct P2PConfig {
    pub auto_start: bool,
    pub device_name: String,
    pub port: u16,
}

/// The whole configuration.
#[derive(Debug, Clone)]
pub struct AppConfig {
    pub security: SecurityConfig,
    pub identity: IdentityConfig,
    pub captcha: CaptchaConfig,
    pub sync: SyncConfig,
    pub data: DataConfig,
    pub classification: ClassificationConfig,
    pub update: UpdateConfig,
    pub ui: UiConfig,
    pub session: SessionConfig,
    pub p2p: P2PConfig,
}

/// Default remote OCR address of a configuration file that names none.
pub fn default_remote_ocr_http_url() -> (r: String)
    ensures
        r@ == "http://127.0.0.1:5000"@,
{
    owned("http://127.0.0.1:5000")
}

/// Default number of OCR attempts of a configuration file that names none.
pub fn default_ocr_retry_count() -> (r: usize)
    ensures
        r == 5,
{
    5
}

/// Default page limit of a configuration file that names none.
pub fn default_max_pages() -> (r: u32)
    ensures
        r == 100,
{
    100
}

/// Default early-stop threshold of a configuration file that names none.
pub fn default_early_stop_threshold() -> (r: u32)
    ensures
        r == 5,
{
    5
}

/// Default of the flags that a configuration file turns on unless it says otherwise.
pub fn default_true() -> (r: bool)
    ensures
        r,
{
    true
}

/// Default automatic sync interval, in minutes.
pub fn default_auto_sync_interval_minutes() -> (r: u64)
    ensures
        r == 60,
{
    60
}

/// Default automatic sync range.
pub fn default_auto_sync_range() -> (r: SyncRangePresetConfig)
    ensures
        r == SyncRangePresetConfig::Month,
{
    SyncRangePresetConfig::Month
}

/// Default data directory.
pub fn default_data_directory() -> (r: String)
    ensures
        r@ == "Data"@,
{
    owned("Data")
}

/// Default number of snapshots kept.
pub fn default_snapshot_keep_count() -> (r: usize)
    ensures
        r == 10,
{
    10
}

/// Default update check interval, in hours.
pub fn default_check_interval() -> (r: u64)
    ensures
        r == 24,
{
    24
}

/// Default theme.
pub fn default_theme() -> (r: String)
    ensures
        r@ == "light"@,
{
    owned("light")
}

/// Default language.
pub fn default_language() -> (r: String)
    ensures
        r@ == "zh-CN"@,
{
    owned("zh-CN")
}

/// Default number of decimal places of statistics.
pub fn default_decimal_places() -> (r: u32)
    ensures
        r == 2,
{
    2
}

/// Default range of the home trend chart.
pub fn default_home_trend_range() -> (r: String)
    ensures
        r@ == "week"@,
{
    owned("week")
}

/// Default range of the home category chart.
pub fn default_home_category_range() -> (r: String)
    ensures
        r@ == "month"@,
{
    owned("month")
}

/// Default session check interval, in minutes.
pub fn default_session_refresh_interval() -> (r: u64)
    ensures
        r == 10,
{
    10
}

/// Default peer-to-peer device name.
pub fn default_device_name() -> (r: String)
    ensures
        r@ == "shmtu-terminal"@,
{
    owned("shmtu-terminal")
}

/// Default peer-to-peer port.
pub fn default_p2p_port() -> (r: u16)
    ensures
        r == 19827,
{
    19827
}

impl Default for CaptchaMode {
    fn default() -> (r: Self)
        ensures
            r == CaptchaMode::Manual,
    {
        CaptchaMode::Manual
    }
}

impl Default for SyncRangePresetConfig {
    fn default() -> (r: Self)
        ensures
            r == SyncRangePresetConfig::Month,
    {
        SyncRangePresetConfig::Month
    }
}

impl Default for P2PConfig {
    fn default() -> (r: Self)
        ensures
            !r.auto_start && r.device_name@ == "shmtu-terminal"@ && r.port == 19827,
    {
        P2PConfig { auto_start: false, device_name: default_device_name(), port: default_p2p_port() }
    }
}

/// The default configuration, the one a configuration file without any setting gives:
/// startup protection off, no identity chosen, manual captchas with the local RESTful OCR
/// address and five attempts, syncs of up to 100 pages stopping after 5 known pages that
/// skip graduated accounts and merge afterwards, automatic syncs off every 60 minutes over
/// a month, data under `Data` keeping 10 snapshots, no rule file settings, update checks on
/// every 24 hours, a light Chinese interface with 2 decimal places over a week and a month,
/// session renewal on every 10 minutes, and the default peer settings.
pub open spec fn is_default_config(c: AppConfig) -> bool {
    &&& !c.security.enable_startup_protection && c.security.password_hash@.len() == 0
    &&& !c.identity.remember_default && c.identity.default_identity_id == 0 && c.identity.last_identity_id == 0
    &&& c.captcha.mode == CaptchaMode::Manual && c.captcha.remote_ocr_host@.len() == 0
    &&& c.captcha.remote_ocr_port == 0 && c.captcha.remote_ocr_http_url@ == "http://127.0.0.1:5000"@
    &&& c.captcha.onnx_model_path@.len() == 0 && c.captcha.ocr_retry_count == 5
    &&& c.sync.max_pages == 100 && c.sync.early_stop_threshold == 5 && c.sync.skip_graduated_accounts
    &&& c.sync.auto_merge_after_sync && !c.sync.auto_sync_enabled && c.sync.auto_sync_interval_minutes == 60
    &&& c.sync.auto_sync_range == SyncRangePresetConfig::Month
    &&& c.data.data_directory@ == "Data"@ && c.data.snapshot_keep_count == 10
    &&& c.classification.rules_path@.len() == 0 && c.classification.rules_update_url@.len() == 0
    &&& c.update.auto_check && c.update.check_interval_hours == 24 && c.update.last_check_time@.len() == 0
    &&& c.ui.theme@ == "light"@ && c.ui.language@ == "zh-CN"@ && c.ui.decimal_places == 2
    &&& c.ui.home_trend_range@ == "week"@ && c.ui.home_category_range@ == "month"@
    &&& c.session.refresh_interval_minutes == 10 && c.session.auto_refresh
    &&& !c.p2p.auto_start && c.p2p.device_name@ == "shmtu-terminal"@ && c.p2p.port == 19827
}

impl Default for AppConfig {
    fn default() -> (r: Self)
        ensures
            is_default_config(r),
    {
        AppConfig {
            security: SecurityConfig { enable_startup_protection: false, password_hash: String::new() },
            identity: IdentityConfig { remember_default: false, default_identity_id: 0, last_identity_id: 0 },
            captcha: CaptchaConfig {
                mode: CaptchaMode::Manual,
                remote_ocr_host: String::new(),
                remote_ocr_port: 0,
                remote_ocr_http_url: default_remote_ocr_http_url(),
                onnx_model_path: String::new(),
                ocr_retry_count: default_ocr_retry_count(),
            },
            sync: SyncConfig {
                max_pages: default_max_pages(),
                early_stop_threshold: default_early_stop_threshold(),
                skip_graduated_accounts: default_true(),
                auto_merge_after_sync: default_true(),
                auto_sync_enabled: false,
                auto_sync_interval_minutes: default_auto_sync_interval_minutes(),
                auto_sync_range: default_auto_sync_range(),
            },
            data: DataConfig {
                data_directory: default_data_directory(),
                snapshot_keep_count: default_snapshot_keep_count(),
            },
            classification: ClassificationConfig { rules_path: String::new(), rules_update_url: String::new() },
            update: UpdateConfig {
                auto_check: default_true(),
                check_interval_hours: default_check_interval(),
                last_check_time: String::new(),
            },
            ui: UiConfig {
                theme: default_theme(),
                language: default_language(),
                decimal_places: default_decimal_places(),
                home_trend_range: default_home_trend_range(),
                home_category_range: default_home_category_range(),
            },
            session: SessionConfig {
                refresh_interval_minutes: default_session_refresh_interval(),
                auto_refresh: default_true(),
            },
            p2p: P2PConfig::default(),
        }
    }
}

/// The configuration file's name.
pub open spec fn config_file_name() -> Seq<char> {
    "app_config.toml"@
}

/// Configuration held by the configuration file manager, and the directory of its file.
pub struct TomlConfig {
    config_dir: String,
    config: AppConfig,
}

/// Data directory of a configuration: as configured, `"Data"` when empty.
pub open spec fn data_dir_of(c: AppConfig) -> Seq<char> {
    if c.data.data_directory@.len() == 0 { "Data"@ } else { c.data.data_directory@ }
}

impl TomlConfig {
    /// The configuration held.
    pub closed spec fn app_config(&self) -> AppConfig {
        self.config
    }

    /// The directory of the configuration file.
    pub closed spec fn dir(&self) -> Seq<char> {
        self.config_dir@
    }

    /// A manager for a directory and the configuration read from it (or the default one).
    pub fn from_parts(config_dir: String, config: AppConfig) -> (t: Self)
        ensures
            t.dir() == config_dir@,
            t.app_config() == config,
    {
        TomlConfig { config_dir, config }
    }

    /// The configuration directory.
    pub fn config_dir(&self) -> (r: &str)
        ensures
            r@ == self.dir(),
    {
        self.config_dir.as_str()
    }

    /// Path of the configuration file.
    pub fn config_path(&self) -> (r: String)
        ensures
            r@ == path_join(self.dir(), config_file_name()),
    {
        join_path(self.config_dir.as_str(), "app_config.toml")
    }

    /// The configuration held.
    pub fn get(&self) -> (r: &AppConfig)
        ensures
            *r == self.app_config(),
    {
        &self.config
    }

    /// The configuration, for changing it in place.
    pub fn get_mut(&mut self) -> (r: &mut AppConfig)
        ensures
            *r == old(self).app_config(),
            final(self).app_config() == *final(r),
            final(self).dir() == old(self).dir(),
    {
        &mut self.config
    }

    /// Replaces the configuration.
    pub fn update(&mut self, config: AppConfig)
        ensures
            final(self).app_config() == config,
            final(self).dir() == old(self).dir(),
    {
        self.config = config;
    }

    /// Resets the configuration to the default one.
    pub fn reset_to_default(&mut self)
        ensures
            is_default_config(final(self).app_config()),
            final(self).dir() == old(self).dir(),
    {
        self.config = AppConfig::default();
    }

    /// With startup protection off every password passes; with it on, the password must
    /// hash to the stored hash.
    pub fn verify_startup_password(&self, password: &str) -> (b: bool)
        ensures
            b == startup_accepts(self.app_config(), password@),
    {
        if !self.config.security.enable_startup_protection {
            return true;
        }
        CryptoService::verify_password(password, self.config.security.password_hash.as_str())
    }

    /// Stores the hash of a new startup password and turns protection on.
    pub fn set_startup_password(&mut self, password: &str)
        ensures
            final(self).app_config().security.password_hash@ == hashed_password(password@),
            final(self).app_config().security.enable_startup_protection,
            final(self).app_config().identity == old(self).app_config().identity,
            final(self).dir() == old(self).dir(),
    {
        self.config.security.password_hash = CryptoService::hash_password(password);
        self.config.security.enable_startup_protection = true;
    }

    /// Turns startup protection off and clears the stored hash.
    pub fn disable_startup_protection(&mut self)
        ensures
            !final(self).app_config().security.enable_startup_protection,
            final(self).app_config().security.password_hash@.len() == 0,
            final(self).app_config().identity == old(self).app_config().identity,
            final(self).dir() == old(self).dir(),
    {
        self.config.security.enable_startup_protection = false;
        self.config.security.password_hash = String::new();
    }

    /// Sets the default identity.
    pub fn set_default_identity(&mut self, identity_id: i64)
        ensures
            final(self).app_config().identity.default_identity_id == identity_id,
            final(self).app_config().identity.last_identity_id == old(self).app_config().identity.last_identity_id,
            final(self).app_config().security == old(self).app_config().security,
            final(self).dir() == old(self).dir(),
    {
        self.config.identity.default_identity_id = identity_id;
    }

    /// Clears the default identity.
    pub fn clear_default_identity(&mut self)
        ensures
            final(self).app_config().identity.default_identity_id == 0,
            final(self).app_config().identity.last_identity_id == old(self).app_config().identity.last_identity_id,
            final(self).app_config().security == old(self).app_config().security,
            final(self).dir() == old(self).dir(),
    {
        self.config.identity.default_identity_id = 0;
    }

    /// Records the last used identity.
    pub fn set_last_identity(&mut self, identity_id: i64)
        ensures
            final(self).app_config().identity.last_identity_id == identity_id,
            final(self).app_config().identity.default_identity_id == old(self).app_config().identity.default_identity_id,
            final(self).app_config().security == old(self).app_config().security,
            final(self).dir() == old(self).dir(),
    {
        self.config.identity.last_identity_id = identity_id;
    }

    /// Path of the classification rules: as configured, else `classification_rules.toml`
    /// in the configuration directory.
    pub fn classification_rules_path(&self) -> (r: String)
        ensures
            r@ == if self.app_config().classification.rules_path@.len() == 0 {
                path_join(self.dir(), "classification_rules.toml"@)
            } else {
                self.app_config().classification.rules_path@
            },
    {
        if str_is_empty(self.config.classification.rules_path.as_str()) {
            join_path(self.config_dir.as_str(), "classification_rules.toml")
        } else {
            self.config.classification.rules_path.clone()
        }
    }

    /// The data directory: as configured, else `Data`.
    pub fn data_directory(&self) -> (r: String)
        ensures
            r@ == data_dir_of(self.app_config()),
    {
        if str_is_empty(self.config.data.data_directory.as_str()) {
            owned("Data")
        } else {
            self.config.data.data_directory.clone()
        }
    }

    /// Decimal places of statistics.
    pub fn decimal_places(&self) -> (r: u32)
        ensures
            r == self.app_config().ui.decimal_places,
    {
        self.config.ui.decimal_places
    }

    /// Path of the ONNX models: as configured, else `models` in the data directory.
    pub fn onnx_model_path(&self) -> (r: String)
        ensures
            r@ == if self.app_config().captcha.onnx_model_path@.len() == 0 {
                path_join(data_dir_of(self.app_config()), "models"@)
            } else {
                self.app_config().captcha.onnx_model_path@
            },
    {
        if str_is_empty(self.config.captcha.onnx_model_path.as_str()) {
            let d = self.data_directory();
            join_path(d.as_str(), "models")
        } else {
            self.config.captcha.onnx_model_path.clone()
        }
    }
}

/// Base address of the rule database files.
pub open spec fn github_raw_base() -> Seq<char> {
    "https://raw.githubusercontent.com/a645162/shmtu-terminal/main/database/bill"@
}

/// Manager of the local rule database files.
pub struct DatabaseFileManager {
    local_dir: String,
}

impl DatabaseFileManager {
    /// The local directory of the files.
    pub closed spec fn dir(&self) -> Seq<char> {
        self.local_dir@
    }

    /// A manager for a local directory.
    pub fn new(local_dir: &str) -> (m: Self)
        ensures
            m.dir() == local_dir@,
    {
        DatabaseFileManager { local_dir: owned(local_dir) }
    }

    /// The local directory.
    pub fn local_dir(&self) -> (r: &str)
        ensures
            r@ == self.dir(),
    {
        self.local_dir.as_str()
    }

    /// Path of a file in the local directory.
    pub fn file_path(&self, filename: &str) -> (r: String)
        ensures
            r@ == path_join(self.dir(), filename@),
    {
        join_path(self.local_dir.as_str(), filename)
    }

    /// Path of `rules.toml`.
    pub fn rules_path(&self) -> (r: String)
        ensures
            r@ == path_join(self.dir(), "rules.toml"@),
    {
        join_path(self.local_dir.as_str(), "rules.toml")
    }

    /// Download address of a rule database file.
    pub fn download_url(filename: &str) -> (r: String)
        ensures
            r@ == github_raw_base() + "/"@ + filename@,
    {
        let mut v = crate::text::chars_of("https://raw.githubusercontent.com/a645162/shmtu-terminal/main/database/bill");
        crate::text::push_str(&mut v, "/");
        crate::text::push_str(&mut v, filename);
        crate::text::string_from_chars(v.as_slice())
    }
}

/// Whether the startup check lets `password` through under configuration `c`.
pub open spec fn startup_accepts(c: AppConfig, password: Seq<char>) -> bool {
    !c.security.enable_startup_protection || c.security.password_hash@ == hashed_password(password)
}

/// A startup password that was just set is accepted, and once protection is turned off
/// every password is: the states that `set_startup_password` and
/// `disable_startup_protection` leave behind.
pub proof fn lemma_startup_password_states(c: AppConfig, set_to: Seq<char>, any: Seq<char>)
    ensures
        c.security.enable_startup_protection && c.security.password_hash@ == hashed_password(set_to)
            ==> startup_accepts(c, set_to),
        !c.security.enable_startup_protection ==> startup_accepts(c, any),
{
}

} // verus!
