//! The rules of identity, account and session records: validation of new records, their
//! defaults, encryption of passwords and cookies, and what an update changes.
use vstd::prelude::*;
use vstd::utf8::encode_utf8;

use crate::config::{join_path, path_join};
use crate::crypto::{aes_gcm_max_plaintext, base64_bytes, base64_decode, sealed, CryptoService};
use crate::error::{concat_str, AppError, AppResult};
use crate::models::{AccountRow, CreateAccountParams, CreateIdentityParams, Identity, IdentityRow, Account, SessionInfo};
use crate::text::{chars_of, push_str, signed_decimal, signed_decimal_string, str_is_empty, string_from_chars};

verus! {

/// Minutes for which a saved session stays valid.
pub const SESSION_LIFETIME_MINUTES: i64 = 30;

/// The expiry date of an account created without one.
pub open spec fn default_expire_date() -> Seq<char> {
    "2099-12-31"@
}

/// The message of a student id that is not twelve digits.
pub open spec fn bad_student_id_message() -> Seq<char> {
    "学号必须为12位数字"@
}

/// The message of an empty password.
pub open spec fn empty_password_message() -> Seq<char> {
    "密码不能为空"@
}

/// The message of an identity name that is taken.
pub open spec fn name_taken_message(name: Seq<char>) -> Seq<char> {
    "身份名称 '"@ + name + "' 已存在"@
}

/// An ASCII digit.
pub open spec fn is_ascii_digit(c: char) -> bool {
    '0' <= c && c <= '9'
}

/// A student id: twelve ASCII digits.
pub open spec fn valid_student_id(s: Seq<char>) -> bool {
    s.len() == 12 && forall|i: int| 0 <= i < s.len() ==> is_ascii_digit(#[trigger] s[i])
}

fn student_id_ok(s: &str) -> (b: bool)
    ensures
        b == valid_student_id(s@),
{
    let v = chars_of(s);
    if v.len() != 12 {
        return false;
    }
    let mut i: usize = 0;
    while i < v.len()
        invariant
            i <= v.len(),
            v@ == s@,
            forall|k: int| 0 <= k < i ==> is_ascii_digit(#[trigger] v@[k]),
        decreases v.len() - i,
    {
        if !('0' <= v[i] && v[i] <= '9') {
            return false;
        }
        i = i + 1;
    }
    true
}

fn validation(message: &str) -> (e: AppError)
    ensures
        e matches AppError::Validation(m) && m@ == message@,
{
    AppError::Validation(message.to_string())
}

/// Checks the parameters of a new account: the student id must be twelve ASCII digits,
/// then the password must not be empty.
pub fn check_new_account(params: &CreateAccountParams) -> (r: AppResult<()>)
    ensures
        !valid_student_id(params.account_id@) ==> (r matches Err(AppError::Validation(m)) && m@ == bad_student_id_message()),
        valid_student_id(params.account_id@) && params.password@.len() == 0
            ==> (r matches Err(AppError::Validation(m)) && m@ == empty_password_message()),
        valid_student_id(params.account_id@) && params.password@.len() > 0 ==> r is Ok,
{
    if !student_id_ok(params.account_id.as_str()) {
        proof {
            reveal_strlit("学号必须为12位数字");
        }
        return Err(validation("学号必须为12位数字"));
    }
    if str_is_empty(params.password.as_str()) {
        proof {
            reveal_strlit("密码不能为空");
        }
        return Err(validation("密码不能为空"));
    }
    Ok(())
}

/// The stored row of a new account: the parameters with their defaults (enabled, updated,
/// expiring on 2099-12-31), the password as `encrypted`, never synced, created and updated
/// at `now`. The id is 0 until the row is stored.
pub open spec fn account_row_of(params: CreateAccountParams, encrypted: Seq<char>, now: Seq<char>, r: AccountRow) -> bool {
    &&& r.id == 0
    &&& r.identity_id == params.identity_id
    &&& r.account_name == params.account_name
    &&& r.account_id == params.account_id
    &&& r.password@ == encrypted
    &&& r.enable == (match params.enable { Some(b) => b, None => true })
    &&& r.enable_update == (match params.enable_update { Some(b) => b, None => true })
    &&& r.admission_date == params.admission_date
    &&& r.graduation_date == params.graduation_date
    &&& r.expire_date@ == (match params.expire_date { Some(d) => d@, None => default_expire_date() })
    &&& r.last_update_time@.len() == 0
    &&& r.created_at@ == now
    &&& r.updated_at@ == now
}

fn opt_clone(o: &Option<String>) -> (r: Option<String>)
    ensures
        r == *o,
{
    match o {
        Some(s) => Some(s.clone()),
        None => None,
    }
}

/// The stored row of a new account, see [`account_row_of`], with the password encrypted
/// under `crypto`. Refused as [`check_new_account`] refuses; an encryption failure is a
/// `Crypto` error.
pub fn new_account_row(params: &CreateAccountParams, crypto: &CryptoService, now: &str) -> (r: AppResult<AccountRow>)
    ensures
        !valid_student_id(params.account_id@) ==> (r matches Err(AppError::Validation(m)) && m@ == bad_student_id_message()),
        valid_student_id(params.account_id@) && params.password@.len() == 0
            ==> (r matches Err(AppError::Validation(m)) && m@ == empty_password_message()),
        valid_student_id(params.account_id@) && params.password@.len() > 0 ==> match r {
            Ok(row) => account_row_of(*params, row.password@, now@, row)
                && sealed(crypto.key(), row.password@, encode_utf8(params.password@)),
            Err(e) => e is Crypto,
        },
        valid_student_id(params.account_id@) && params.password@.len() > 0
            ==> (r is Ok <==> encode_utf8(params.password@).len() <= aes_gcm_max_plaintext()),
{
    match check_new_account(params) {
        Ok(()) => {},
        Err(e) => {
            return Err(e);
        },
    }
    let encrypted = match crypto.encrypt_string(params.password.as_str()) {
        Ok(s) => s,
        Err(e) => {
            return Err(e);
        },
    };
    let expire_date = match &params.expire_date {
        Some(d) => d.clone(),
        None => {
            proof {
                reveal_strlit("2099-12-31");
            }
            "2099-12-31".to_string()
        },
    };
    let enable = match params.enable {
        Some(b) => b,
        None => true,
    };
    let enable_update = match params.enable_update {
        Some(b) => b,
        None => true,
    };
    Ok(AccountRow {
        id: 0,
        identity_id: params.identity_id,
        account_name: params.account_name.clone(),
        account_id: params.account_id.clone(),
        password: encrypted,
        enable,
        enable_update,
        admission_date: opt_clone(&params.admission_date),
        graduation_date: opt_clone(&params.graduation_date),
        expire_date,
        last_update_time: String::new(),
        created_at: now.to_string(),
        updated_at: now.to_string(),
    })
}

/// The stored row after an account is edited: name, switches, dates and last sync time
/// taken from `account`; id, identity, student id and creation time kept; updated at `now`.
/// The password is kept when `account` carries none, stored as it is when it already
/// looks encrypted (the stored value sent back unchanged), and otherwise encrypted once
/// under `crypto`, so that the stored value decrypts to it.
pub fn updated_account_row(stored: &AccountRow, account: &Account, crypto: &CryptoService, now: &str) -> (r: AppResult<AccountRow>)
    ensures
        account.password@.len() == 0 || looks_encrypted(account.password@) ==> r is Ok,
        account.password@.len() > 0 && !looks_encrypted(account.password@)
            ==> (r is Ok <==> encode_utf8(account.password@).len() <= aes_gcm_max_plaintext()),
        match r {
            Ok(row) => {
                &&& row.id == stored.id
                &&& row.identity_id == stored.identity_id
                &&& row.account_id == stored.account_id
                &&& row.account_name == account.account_name
                &&& row.enable == account.enable
                &&& row.enable_update == account.enable_update
                &&& row.admission_date == account.admission_date
                &&& row.graduation_date == account.graduation_date
                &&& row.expire_date == account.expire_date
                &&& row.last_update_time == account.last_update_time
                &&& row.created_at == stored.created_at
                &&& row.updated_at@ == now@
                &&& if account.password@.len() == 0 {
                    row.password == stored.password
                } else if looks_encrypted(account.password@) {
                    row.password == account.password
                } else {
                    sealed(crypto.key(), row.password@, encode_utf8(account.password@))
                }
            },
            Err(e) => e is Crypto,
        },
{
    let password = if str_is_empty(account.password.as_str()) {
        stored.password.clone()
    } else if is_encrypted_format(account.password.as_str()) {
        account.password.clone()
    } else {
        match crypto.encrypt_string(account.password.as_str()) {
            Ok(s) => s,
            Err(e) => {
                return Err(e);
            },
        }
    };
    Ok(AccountRow {
        id: stored.id,
        identity_id: stored.identity_id,
        account_name: account.account_name.clone(),
        account_id: stored.account_id.clone(),
        password,
        enable: account.enable,
        enable_update: account.enable_update,
        admission_date: opt_clone(&account.admission_date),
        graduation_date: opt_clone(&account.graduation_date),
        expire_date: account.expire_date.clone(),
        last_update_time: account.last_update_time.clone(),
        created_at: stored.created_at.clone(),
        updated_at: now.to_string(),
    })
}

/// The stored row after a password change: the new password encrypted under `crypto`,
/// updated at `now`, the rest kept. An empty password is refused.
pub fn password_changed_row(stored: &AccountRow, new_password: &str, crypto: &CryptoService, now: &str) -> (r: AppResult<AccountRow>)
    ensures
        new_password@.len() == 0 ==> (r matches Err(AppError::Validation(m)) && m@ == empty_password_message()),
        new_password@.len() > 0 ==> match r {
            Ok(row) => {
                &&& row.id == stored.id
                &&& row.identity_id == stored.identity_id
                &&& row.account_name == stored.account_name
                &&& row.account_id == stored.account_id
                &&& row.enable == stored.enable
                &&& row.enable_update == stored.enable_update
                &&& row.admission_date == stored.admission_date
                &&& row.graduation_date == stored.graduation_date
                &&& row.expire_date == stored.expire_date
                &&& row.last_update_time == stored.last_update_time
                &&& row.created_at == stored.created_at
                &&& row.updated_at@ == now@
                &&& sealed(crypto.key(), row.password@, encode_utf8(new_password@))
            },
            Err(e) => e is Crypto,
        },
        new_password@.len() > 0 ==> (r is Ok <==> encode_utf8(new_password@).len() <= aes_gcm_max_plaintext()),
{
    if str_is_empty(new_password) {
        proof {
            reveal_strlit("密码不能为空");
        }
        return Err(validation("密码不能为空"));
    }
    let password = match crypto.encrypt_string(new_password) {
        Ok(s) => s,
        Err(e) => {
            return Err(e);
        },
    };
    Ok(AccountRow {
        id: stored.id,
        identity_id: stored.identity_id,
        account_name: stored.account_name.clone(),
        account_id: stored.account_id.clone(),
        password,
        enable: stored.enable,
        enable_update: stored.enable_update,
        admission_date: opt_clone(&stored.admission_date),
        graduation_date: opt_clone(&stored.graduation_date),
        expire_date: stored.expire_date.clone(),
        last_update_time: stored.last_update_time.clone(),
        created_at: stored.created_at.clone(),
        updated_at: now.to_string(),
    })
}

/// The stored row after a sync: last sync time and update time set to `now`, the rest kept.
pub fn synced_account_row(stored: &AccountRow, now: &str) -> (r: AccountRow)
    ensures
        r.id == stored.id,
        r.identity_id == stored.identity_id,
        r.account_name == stored.account_name,
        r.account_id == stored.account_id,
        r.password == stored.password,
        r.enable == stored.enable,
        r.enable_update == stored.enable_update,
        r.admission_date == stored.admission_date,
        r.graduation_date == stored.graduation_date,
        r.expire_date == stored.expire_date,
        r.last_update_time@ == now@,
        r.created_at == stored.created_at,
        r.updated_at@ == now@,
{
    AccountRow {
        id: stored.id,
        identity_id: stored.identity_id,
        account_name: stored.account_name.clone(),
        account_id: stored.account_id.clone(),
        password: stored.password.clone(),
        enable: stored.enable,
        enable_update: stored.enable_update,
        admission_date: opt_clone(&stored.admission_date),
        graduation_date: opt_clone(&stored.graduation_date),
        expire_date: stored.expire_date.clone(),
        last_update_time: now.to_string(),
        created_at: stored.created_at.clone(),
        updated_at: now.to_string(),
    }
}

/// The stored row of a new identity: refused when `same_name_count` identities already
/// carry its name; otherwise the parameters with their defaults (enabled, updated, not
/// remembered by default), created and updated at `now`. The id is 0 until the row is
/// stored.
pub fn new_identity_row(params: &CreateIdentityParams, same_name_count: u64, now: &str) -> (r: AppResult<IdentityRow>)
    ensures
        same_name_count > 0 ==> (r matches Err(AppError::Validation(m)) && m@ == name_taken_message(params.name@)),
        same_name_count == 0 ==> (r matches Ok(row) && {
            &&& row.id == 0
            &&& row.name == params.name
            &&& row.enable == (match params.enable { Some(b) => b, None => true })
            &&& row.enable_update == (match params.enable_update { Some(b) => b, None => true })
            &&& row.birthday == params.birthday
            &&& row.default_remember == (match params.default_remember { Some(b) => b, None => false })
            &&& row.created_at@ == now@
            &&& row.updated_at@ == now@
        }),
{
    if same_name_count > 0 {
        let head = concat_str("身份名称 '", params.name.as_str());
        let message = concat_str(head.as_str(), "' 已存在");
        proof {
            reveal_strlit("身份名称 '");
            reveal_strlit("' 已存在");
        }
        return Err(AppError::Validation(message));
    }
    let enable = match params.enable {
        Some(b) => b,
        None => true,
    };
    let enable_update = match params.enable_update {
        Some(b) => b,
        None => true,
    };
    let default_remember = match params.default_remember {
        Some(b) => b,
        None => false,
    };
    Ok(IdentityRow {
        id: 0,
        name: params.name.clone(),
        enable,
        enable_update,
        birthday: opt_clone(&params.birthday),
        default_remember,
        created_at: now.to_string(),
        updated_at: now.to_string(),
    })
}

/// The stored row after an identity is edited: name, switches and birthday taken from
/// `identity`, creation time kept, updated at `now`.
pub fn updated_identity_row(stored: &IdentityRow, identity: &Identity, now: &str) -> (r: IdentityRow)
    ensures
        r.id == stored.id,
        r.name == identity.name,
        r.enable == identity.enable,
        r.enable_update == identity.enable_update,
        r.birthday == identity.birthday,
        r.default_remember == identity.default_remember,
        r.created_at == stored.created_at,
        r.updated_at@ == now@,
{
    IdentityRow {
        id: stored.id,
        name: identity.name.clone(),
        enable: identity.enable,
        enable_update: identity.enable_update,
        birthday: opt_clone(&identity.birthday),
        default_remember: identity.default_remember,
        created_at: stored.created_at.clone(),
        updated_at: now.to_string(),
    }
}

/// The local time (`chrono::Local::now()`) moved on by `offset_minutes`, as RFC 3339 text;
/// it depends on the clock, so nothing is stated of it.
#[verifier::external_body]
fn local_time_text(offset_minutes: i64) -> (r: String)
    requires
        0 <= offset_minutes <= 1440,
{
    (chrono::Local::now() + chrono::Duration::minutes(offset_minutes)).to_rfc3339()
}

/// The stored session of an account saved now: the cookies encrypted under `crypto`, valid,
/// logged in now and expiring `SESSION_LIFETIME_MINUTES` later, by the clock. The id is 0
/// until it is stored.
pub fn new_session_row(account_id: &str, cookies: &str, crypto: &CryptoService) -> (r: AppResult<SessionInfo>)
    ensures
        match r {
            Ok(s) => {
                &&& s.id == 0
                &&& s.account_id@ == account_id@
                &&& sealed(crypto.key(), s.cookies@, encode_utf8(cookies@))
                &&& s.login_time is Some
                &&& s.expire_time is Some
                &&& s.is_valid
            },
            Err(e) => e is Crypto,
        },
        r is Ok <==> encode_utf8(cookies@).len() <= aes_gcm_max_plaintext(),
{
    let encrypted = match crypto.encrypt_string(cookies) {
        Ok(s) => s,
        Err(e) => {
            return Err(e);
        },
    };
    let login_time = local_time_text(0);
    let expire_time = local_time_text(SESSION_LIFETIME_MINUTES);
    Ok(SessionInfo {
        id: 0,
        account_id: account_id.to_string(),
        cookies: encrypted,
        login_time: Some(login_time),
        expire_time: Some(expire_time),
        is_valid: true,
    })
}

/// A stored session with its cookies decrypted under `crypto`; the other fields as stored.
/// Cookies that [`new_session_row`] encrypted under the same key come back as they were.
pub fn session_from_row(row: &SessionInfo, crypto: &CryptoService) -> (r: AppResult<SessionInfo>)
    ensures
        forall|t: Seq<char>| sealed(crypto.key(), row.cookies@, encode_utf8(t)) ==> (r matches Ok(s) && s.cookies@ == t),
        match r {
            Ok(s) => {
                &&& s.id == row.id
                &&& s.account_id == row.account_id
                &&& s.login_time == row.login_time
                &&& s.expire_time == row.expire_time
                &&& s.is_valid == row.is_valid
            },
            Err(e) => e is Crypto,
        },
{
    let cookies = match crypto.decrypt_string(row.cookies.as_str()) {
        Ok(s) => s,
        Err(e) => {
            return Err(e);
        },
    };
    Ok(SessionInfo {
        id: row.id,
        account_id: row.account_id.clone(),
        cookies,
        login_time: opt_clone(&row.login_time),
        expire_time: opt_clone(&row.expire_time),
        is_valid: row.is_valid,
    })
}

/// A stored password looks encrypted: Base64 text of at least 16 bytes.
pub open spec fn looks_encrypted(s: Seq<char>) -> bool {
    match base64_bytes(s) {
        Some(b) => b.len() >= 16,
        None => false,
    }
}

/// Whether a password already looks encrypted, see [`looks_encrypted`].
pub fn is_encrypted_format(s: &str) -> (b: bool)
    ensures
        b == looks_encrypted(s@),
{
    match base64_decode(s) {
        Ok(d) => d.len() >= 16,
        Err(_) => false,
    }
}

/// The directory of snapshots under the data directory.
pub fn snapshot_dir(data_dir: &str) -> (r: String)
    ensures
        r@ == path_join(data_dir@, "snapshot"@),
{
    join_path(data_dir, "snapshot")
}

/// The database file of an identity: `identity/<id>.sqlite` under the data directory.
pub fn identity_db_path(data_dir: &str, identity_id: i64) -> (r: String)
    ensures
        r@ == path_join(path_join(data_dir@, "identity"@), signed_decimal(identity_id as int) + ".sqlite"@),
{
    let dir = join_path(data_dir, "identity");
    let name = signed_decimal_string(identity_id);
    let mut v = chars_of(name.as_str());
    push_str(&mut v, ".sqlite");
    let file = string_from_chars(v.as_slice());
    join_path(dir.as_str(), file.as_str())
}

/// The database file of an account: `account/<student id>.sqlite` under the data directory.
pub fn account_db_path(data_dir: &str, account_id: &str) -> (r: String)
    ensures
        r@ == path_join(path_join(data_dir@, "account"@), account_id@ + ".sqlite"@),
{
    let dir = join_path(data_dir, "account");
    let mut v = chars_of(account_id);
    push_str(&mut v, ".sqlite");
    let file = string_from_chars(v.as_slice());
    join_path(dir.as_str(), file.as_str())
}

/// The session database file of an account: `account/<student id>_session.sqlite` under the
/// data directory.
pub fn session_db_path(data_dir: &str, account_id: &str) -> (r: String)
    ensures
        r@ == path_join(path_join(data_dir@, "account"@), account_id@ + "_session.sqlite"@),
{
    let dir = join_path(data_dir, "account");
    let mut v = chars_of(account_id);
    push_str(&mut v, "_session.sqlite");
    let file = string_from_chars(v.as_slice());
    join_path(dir.as_str(), file.as_str())
}

} // verus!
