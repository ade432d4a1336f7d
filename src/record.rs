//! The persisted credential record and the request and result types of the store.
use vstd::prelude::*;
use crate::text::{int_text, int_to_text};

verus! {

/// A stored credential; times are milliseconds since the Unix epoch.
#[derive(Debug)]
pub struct CredentialRecord {
    pub id: i64,
    pub refresh_token: String,
    pub access_token: Option<String>,
    pub profile_arn: Option<String>,
    pub expires_at: Option<i64>,
    pub auth_method: String,
    pub client_id: Option<String>,
    pub client_secret: Option<String>,
    pub priority: i32,
    pub region: Option<String>,
    pub machine_id: Option<String>,
    pub failure_count: i32,
    pub disabled: bool,
    pub created_at: i64,
    pub updated_at: i64,
}

pub fn copy_opt(o: &Option<String>) -> (r: Option<String>)
    ensures
        r == *o,
{
    match o {
        Some(s) => Some(s.clone()),
        None => None,
    }
}

impl CredentialRecord {
    /// A field-for-field copy.
    pub fn duplicate(&self) -> (r: Self)
        ensures
            r == *self,
    {
        CredentialRecord {
            id: self.id,
            refresh_token: self.refresh_token.clone(),
            access_token: copy_opt(&self.access_token),
            profile_arn: copy_opt(&self.profile_arn),
            expires_at: self.expires_at,
            auth_method: self.auth_method.clone(),
            client_id: copy_opt(&self.client_id),
            client_secret: copy_opt(&self.client_secret),
            priority: self.priority,
            region: copy_opt(&self.region),
            machine_id: copy_opt(&self.machine_id),
            failure_count: self.failure_count,
            disabled: self.disabled,
            created_at: self.created_at,
            updated_at: self.updated_at,
        }
    }
}

/// Sort key of a record: priority first, then id.
pub open spec fn record_before(a: CredentialRecord, b: CredentialRecord) -> bool {
    a.priority < b.priority || (a.priority == b.priority && a.id < b.id)
}

/// Fields supplied when a credential is created.
#[derive(Debug)]
pub struct CreateCredential {
    pub refresh_token: String,
    pub auth_method: String,
    pub client_id: Option<String>,
    pub client_secret: Option<String>,
    pub priority: i32,
    pub region: Option<String>,
    pub machine_id: Option<String>,
}

/// Fields to change on a credential; absent fields keep their value.
#[derive(Debug)]
pub struct UpdateCredential {
    pub access_token: Option<String>,
    pub refresh_token: Option<String>,
    pub profile_arn: Option<String>,
    pub expires_at: Option<i64>,
    pub priority: Option<i32>,
    pub failure_count: Option<i32>,
    pub disabled: Option<bool>,
    pub machine_id: Option<String>,
}

impl UpdateCredential {
    pub open spec fn is_empty(&self) -> bool {
        &&& self.access_token is None
        &&& self.refresh_token is None
        &&& self.profile_arn is None
        &&& self.expires_at is None
        &&& self.priority is None
        &&& self.failure_count is None
        &&& self.disabled is None
        &&& self.machine_id is None
    }
}

impl Default for UpdateCredential {
    fn default() -> (r: Self)
        ensures
            r.is_empty(),
    {
        UpdateCredential {
            access_token: None,
            refresh_token: None,
            profile_arn: None,
            expires_at: None,
            priority: None,
            failure_count: None,
            disabled: None,
            machine_id: None,
        }
    }
}

/// Outcome of importing several credentials one by one.
#[derive(Debug)]
pub struct BatchImportResult {
    pub imported: i32,
    pub failed: i32,
    pub errors: Vec<BatchImportError>,
}

/// A credential of a batch that was not imported, by its position in the input.
#[derive(Debug)]
pub struct BatchImportError {
    pub index: usize,
    pub message: String,
}

/// Outcome of deleting several credentials one by one.
#[derive(Debug)]
pub struct BatchDeleteResult {
    pub deleted: i32,
    pub failed: i32,
    pub errors: Vec<BatchDeleteError>,
}

/// An id of a batch that was not deleted.
#[derive(Debug)]
pub struct BatchDeleteError {
    pub id: i64,
    pub message: String,
}

impl BatchImportResult {
    /// Nothing imported yet.
    pub fn new() -> (r: Self)
        ensures
            r.imported == 0,
            r.failed == 0,
            r.errors@.len() == 0,
    {
        BatchImportResult { imported: 0, failed: 0, errors: Vec::new() }
    }

    /// Records what became of the credential at position `index`: an id
    /// counts as imported, a failure is kept with its position and message.
    pub fn record_outcome(&mut self, index: usize, outcome: Result<i64, String>)
        requires
            old(self).imported >= 0,
            old(self).failed >= 0,
            old(self).imported + old(self).failed < i32::MAX,
        ensures
            match outcome {
                Ok(_) => final(self).imported == old(self).imported + 1 && final(self).failed
                    == old(self).failed && final(self).errors@ == old(self).errors@,
                Err(m) => final(self).imported == old(self).imported && final(self).failed
                    == old(self).failed + 1 && final(self).errors@ == old(self).errors@.push(
                    BatchImportError { index, message: m },
                ),
            },
    {
        match outcome {
            Ok(_) => {
                self.imported = self.imported + 1;
            },
            Err(message) => {
                self.failed = self.failed + 1;
                self.errors.push(BatchImportError { index, message });
            },
        }
    }
}

impl BatchDeleteResult {
    /// Nothing deleted yet.
    pub fn new() -> (r: Self)
        ensures
            r.deleted == 0,
            r.failed == 0,
            r.errors@.len() == 0,
    {
        BatchDeleteResult { deleted: 0, failed: 0, errors: Vec::new() }
    }

    /// Records what became of deleting `id`: success counts as deleted, a
    /// failure is kept with the id and message.
    pub fn record_outcome(&mut self, id: i64, outcome: Result<(), String>)
        requires
            old(self).deleted >= 0,
            old(self).failed >= 0,
            old(self).deleted + old(self).failed < i32::MAX,
        ensures
            match outcome {
                Ok(()) => final(self).deleted == old(self).deleted + 1 && final(self).failed
                    == old(self).failed && final(self).errors@ == old(self).errors@,
                Err(m) => final(self).deleted == old(self).deleted && final(self).failed
                    == old(self).failed + 1 && final(self).errors@ == old(self).errors@.push(
                    BatchDeleteError { id, message: m },
                ),
            },
    {
        match outcome {
            Ok(()) => {
                self.deleted = self.deleted + 1;
            },
            Err(message) => {
                self.failed = self.failed + 1;
                self.errors.push(BatchDeleteError { id, message });
            },
        }
    }
}

/// A failure reported by a credential store.
#[derive(Debug)]
pub enum StoreError {
    /// No live credential has this id.
    NotFound { id: i64 },
    /// The backend refused the values.
    Rejected { message: String },
}

pub open spec fn not_found_text(id: int) -> Seq<char> {
    "凭据不存在: "@ + int_text(id)
}

impl StoreError {
    pub open spec fn text(&self) -> Seq<char> {
        match self {
            StoreError::NotFound { id } => not_found_text(*id as int),
            StoreError::Rejected { message } => message@,
        }
    }

    /// The failure as a descriptive message.
    pub fn message(&self) -> (r: String)
        ensures
            r@ == self.text(),
    {
        match self {
            StoreError::NotFound { id } => {
                let mut s = String::from_str("凭据不存在: ");
                let digits = int_to_text(*id);
                s.append(digits.as_str());
                s
            },
            StoreError::Rejected { message } => message.clone(),
        }
    }
}

} // verus!
