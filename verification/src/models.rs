//! Application models of identities, accounts, sessions and the operation log, and their
//! conversion from stored rows.
use vstd::prelude::*;

use crate::text::str_eq;

verus! {

/// An identity (a person whose accounts are synced together).
#[derive(Debug, Clone)]
pub struct Identity {
    pub id: i64,
    pub name: String,
    pub enable: bool,
    pub enable_update: bool,
    pub birthday: Option<String>,
    pub default_remember: bool,
    pub created_at: String,
    pub updated_at: String,
}

/// Parameters of a new identity.
#[derive(Debug, Clone)]
pub struct CreateIdentityParams {
    pub name: String,
    pub enable: Option<bool>,
    pub enable_update: Option<bool>,
    pub birthday: Option<String>,
    pub default_remember: Option<bool>,
}

/// A campus account of an identity.
#[derive(Debug, Clone)]
pub struct Account {
    pub id: i64,
    pub identity_id: i64,
    pub account_name: String,
    pub account_id: String,
    pub password: String,
    pub enable: bool,
    pub enable_update: bool,
    pub admission_date: Option<String>,
    pub graduation_date: Option<String>,
    pub expire_date: String,
    pub last_update_time: String,
    pub created_at: String,
    pub updated_at: String,
}

/// Parameters of a new account.
#[derive(Debug, Clone)]
pub struct CreateAccountParams {
    pub identity_id: i64,
    pub account_name: String,
    pub account_id: String,
    pub password: String,
    pub enable: Option<bool>,
    pub enable_update: Option<bool>,
    pub admission_date: Option<String>,
    pub graduation_date: Option<String>,
    pub expire_date: Option<String>,
}

/// An operation log entry.
#[derive(Debug, Clone)]
pub struct OperationLog {
    pub id: i64,
    pub operation_type: String,
    pub record_numbers: Option<String>,
    pub operation_time: String,
    pub description: Option<String>,
    pub account_id: Option<String>,
}

/// Kinds of logged operations.
#[derive(Debug, Clone, Copy, PartialEq, Eq)]
pub enum OperationType {
    Add,
    Delete,
    Merge,
}

/// A saved login session.
#[derive(Debug, Clone)]
pub struct SessionInfo {
    pub id: i64,
    pub account_id: String,
    pub cookies: String,
    pub login_time: Option<String>,
    pub expire_time: Option<String>,
    pub is_valid: bool,
}

/// A stored identity row.
#[derive(Debug, Clone)]
pub struct IdentityRow {
    pub id: i64,
    pub name: String,
    pub enable: bool,
    pub enable_update: bool,
    pub birthday: Option<String>,
    pub default_remember: bool,
    pub created_at: String,
    pub updated_at: String,
}

/// A stored account row.
#[derive(Debug, Clone)]
pub struct AccountRow {
    pub id: i64,
    pub identity_id: i64,
    pub account_name: String,
    pub account_id: String,
    pub password: String,
    pub enable: bool,
    pub enable_update: bool,
    pub admission_date: Option<String>,
    pub graduation_date: Option<String>,
    pub expire_date: String,
    pub last_update_time: String,
    pub created_at: String,
    pub updated_at: String,
}

/// A stored operation log row.
#[derive(Debug, Clone)]
pub struct OperationLogRow {
    pub id: i64,
    pub identity_id: i64,
    pub operation_type: String,
    pub record_numbers: Option<String>,
    pub operation_time: String,
    pub description: Option<String>,
    pub account_id: Option<String>,
}

/// The text of an operation kind.
pub open spec fn operation_text(t: OperationType) -> Seq<char> {
    match t {
        OperationType::Add => "add"@,
        OperationType::Delete => "delete"@,
        OperationType::Merge => "merge"@,
    }
}

impl OperationType {
    /// `"add"`, `"delete"` or `"merge"`.
    pub fn as_str(&self) -> (r: &'static str)
        ensures
            r@ == operation_text(*self),
    {
        match self {
            OperationType::Add => "add",
            OperationType::Delete => "delete",
            OperationType::Merge => "merge",
        }
    }

    /// The operation kind named by a text, if any.
    pub fn parse_from_str(s: &str) -> (r: Option<Self>)
        ensures
            match r {
                Some(t) => operation_text(t) == s@,
                None => s@ != "add"@ && s@ != "delete"@ && s@ != "merge"@,
            },
    {
        if str_eq(s, "add") {
            Some(OperationType::Add)
        } else if str_eq(s, "delete") {
            Some(OperationType::Delete)
        } else if str_eq(s, "merge") {
            Some(OperationType::Merge)
        } else {
            None
        }
    }
}

/// The three operation texts are distinct.
pub proof fn lemma_operation_texts_distinct()
    ensures
        "add"@ != "delete"@,
        "add"@ != "merge"@,
        "delete"@ != "merge"@,
{
    reveal_strlit("add");
    reveal_strlit("delete");
    reveal_strlit("merge");
    assert("add"@.len() != "delete"@.len());
    assert("add"@[0] != "merge"@[0]);
    assert("delete"@.len() != "merge"@.len());
}

/// Parsing the text of an operation kind gives the kind back.
pub proof fn lemma_operation_text_round_trip(t: OperationType)
    ensures
        forall|r: OperationType| operation_text(r) == operation_text(t) ==> r == t,
{
    lemma_operation_texts_distinct();
}

/// An identity row as an application identity.
pub fn identity_model_to_app(m: IdentityRow) -> (r: Identity)
    ensures
        r.id == m.id && r.name == m.name && r.enable == m.enable && r.enable_update == m.enable_update
            && r.birthday == m.birthday && r.default_remember == m.default_remember
            && r.created_at == m.created_at && r.updated_at == m.updated_at,
{
    Identity {
        id: m.id,
        name: m.name,
        enable: m.enable,
        enable_update: m.enable_update,
        birthday: m.birthday,
        default_remember: m.default_remember,
        created_at: m.created_at,
        updated_at: m.updated_at,
    }
}

/// An account row as an application account.
pub fn account_model_to_app(m: AccountRow) -> (r: Account)
    ensures
        r.id == m.id && r.identity_id == m.identity_id && r.account_name == m.account_name
            && r.account_id == m.account_id && r.password == m.password && r.enable == m.enable
            && r.enable_update == m.enable_update && r.admission_date == m.admission_date
            && r.graduation_date == m.graduation_date && r.expire_date == m.expire_date
            && r.last_update_time == m.last_update_time && r.created_at == m.created_at
            && r.updated_at == m.updated_at,
{
    Account {
        id: m.id,
        identity_id: m.identity_id,
        account_name: m.account_name,
        account_id: m.account_id,
        password: m.password,
        enable: m.enable,
        enable_update: m.enable_update,
        admission_date: m.admission_date,
        graduation_date: m.graduation_date,
        expire_date: m.expire_date,
        last_update_time: m.last_update_time,
        created_at: m.created_at,
        updated_at: m.updated_at,
    }
}

/// An operation log row as an application log entry (the identity is dropped).
pub fn operation_log_model_to_app(m: OperationLogRow) -> (r: OperationLog)
    ensures
        r.id == m.id && r.operation_type == m.operation_type && r.record_numbers == m.record_numbers
            && r.operation_time == m.operation_time && r.description == m.description
            && r.account_id == m.account_id,
{
    OperationLog {
        id: m.id,
        operation_type: m.operation_type,
        record_numbers: m.record_numbers,
        operation_time: m.operation_time,
        description: m.description,
        account_id: m.account_id,
    }
}

} // verus!
