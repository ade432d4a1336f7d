//! Administration of the live credential pool: status pages, mutations,
//! batch deletion, export and the classification of failures.
use vstd::prelude::*;
use crate::order::{key_lt, is_stable_order, stable_order, page_of, pages_for, page_bounds, page_count};
use crate::record::{copy_opt, BatchImportError};
use crate::text::{contains_text, digits_of, has_substring, uint_to_text};

verus! {

/// One credential as the rotation manager currently sees it.
#[derive(Debug)]
pub struct CredentialEntrySnapshot {
    pub id: u64,
    pub priority: u32,
    pub disabled: bool,
    pub failure_count: u32,
    pub expires_at: Option<String>,
    pub auth_method: Option<String>,
    pub has_profile_arn: bool,
}

/// A point-in-time read of the rotation manager's pool.
#[derive(Debug)]
pub struct ManagerSnapshot {
    pub entries: Vec<CredentialEntrySnapshot>,
    pub current_id: u64,
    pub total: usize,
    pub available: usize,
}

/// Credential material as the rotation manager holds it.
#[derive(Debug)]
pub struct KiroCredentials {
    pub id: Option<u64>,
    pub access_token: Option<String>,
    pub refresh_token: Option<String>,
    pub profile_arn: Option<String>,
    pub expires_at: Option<String>,
    pub auth_method: Option<String>,
    pub client_id: Option<String>,
    pub client_secret: Option<String>,
    pub priority: u32,
    pub region: Option<String>,
    pub machine_id: Option<String>,
}

/// A credential of the full snapshot, with its live counters.
#[derive(Debug)]
pub struct ManagedCredential {
    pub id: u64,
    pub credentials: KiroCredentials,
    pub failure_count: u32,
    pub disabled: bool,
}

/// The live rotation component that selects credentials. Its calls are
/// individually consistent; failures come back as descriptive messages.
pub trait RotationManager {
    fn snapshot(&self) -> ManagerSnapshot;

    fn snapshot_full(&self) -> Vec<ManagedCredential>;

    fn set_disabled(&self, id: u64, disabled: bool) -> Result<(), String>;

    fn set_priority(&self, id: u64, priority: u32) -> Result<(), String>;

    fn reset_and_enable(&self, id: u64) -> Result<(), String>;

    fn switch_to_next(&self) -> Result<(), String>;

    fn delete_credential(&self, id: u64) -> Result<(), String>;
}

/// The kinds of failure an administrative call reports.
#[derive(Debug)]
pub enum AdminServiceError {
    NotFound { id: u64 },
    InvalidCredential(String),
    UpstreamError(String),
    InternalError(String),
}

/// One row of the status page.
#[derive(Debug)]
pub struct CredentialStatusItem {
    pub id: u64,
    pub priority: u32,
    pub disabled: bool,
    pub failure_count: u32,
    pub is_current: bool,
    pub expires_at: Option<String>,
    pub auth_method: Option<String>,
    pub has_profile_arn: bool,
}

/// A page of the live pool's status.
#[derive(Debug)]
pub struct CredentialsStatusResponse {
    pub total: i64,
    pub available: usize,
    pub current_id: u64,
    pub page: i32,
    pub page_size: i32,
    pub total_pages: i32,
    pub credentials: Vec<CredentialStatusItem>,
}

/// A credential in export form, with its live counters.
#[derive(Debug)]
pub struct CredentialExportItem {
    pub id: u64,
    pub refresh_token: String,
    pub access_token: Option<String>,
    pub profile_arn: Option<String>,
    pub expires_at: Option<String>,
    pub auth_method: String,
    pub client_id: Option<String>,
    pub client_secret: Option<String>,
    pub priority: u32,
    pub region: Option<String>,
    pub machine_id: Option<String>,
    pub failure_count: u32,
    pub disabled: bool,
}

/// Ids to delete in one batch.
#[derive(Debug)]
pub struct BatchDeleteRequest {
    pub ids: Vec<u64>,
}

/// An id of a batch that was not deleted.
#[derive(Debug)]
pub struct BatchDeleteError {
    pub id: u64,
    pub message: String,
}

/// Outcome of a batch deletion.
#[derive(Debug)]
pub struct BatchDeleteResponse {
    pub deleted: i32,
    pub failed: i32,
    pub errors: Vec<BatchDeleteError>,
}

pub open spec fn status_item(e: CredentialEntrySnapshot, current_id: u64) -> CredentialStatusItem {
    CredentialStatusItem {
        id: e.id,
        priority: e.priority,
        disabled: e.disabled,
        failure_count: e.failure_count,
        is_current: e.id == current_id,
        expires_at: e.expires_at,
        auth_method: e.auth_method,
        has_profile_arn: e.has_profile_arn,
    }
}

/// An id shifted into `i64` with its order kept.
pub open spec fn id_key(id: u64) -> i64 {
    (id - 0x8000_0000_0000_0000int) as i64
}

/// Sort keys that order entries by priority, then id.
pub open spec fn priority_keys(entries: Seq<CredentialEntrySnapshot>) -> Seq<(i64, i64)> {
    entries.map_values(|e: CredentialEntrySnapshot| (e.priority as i64, id_key(e.id)))
}

/// Rows in ascending order of priority, then id.
pub open spec fn status_sorted(s: Seq<CredentialStatusItem>) -> bool {
    forall|i: int, j: int|
        0 <= i < j < s.len() ==> s[i].priority < s[j].priority || (s[i].priority == s[j].priority
            && s[i].id <= s[j].id)
}

/// `items` are the entries in `order`, as status rows.
pub open spec fn status_rows(
    entries: Seq<CredentialEntrySnapshot>,
    order: Seq<usize>,
    current_id: u64,
) -> Seq<CredentialStatusItem> {
    order.map_values(|k: usize| status_item(entries[k as int], current_id))
}

fn status_item_of(e: &CredentialEntrySnapshot, current_id: u64) -> (r: CredentialStatusItem)
    ensures
        r == status_item(*e, current_id),
{
    CredentialStatusItem {
        id: e.id,
        priority: e.priority,
        disabled: e.disabled,
        failure_count: e.failure_count,
        is_current: e.id == current_id,
        expires_at: copy_opt(&e.expires_at),
        auth_method: copy_opt(&e.auth_method),
        has_profile_arn: e.has_profile_arn,
    }
}

/// The status page `page` of a snapshot: entries sorted by priority, ties
/// by ascending id, then cut into pages of `page_size`.
pub fn status_view(snapshot: &ManagerSnapshot, page: i32, page_size: i32) -> (r: CredentialsStatusResponse)
    requires
        page >= 1,
        page_size >= 1,
    ensures
        exists|order: Seq<usize>|
            #[trigger] is_stable_order(priority_keys(snapshot.entries@), order) && r.credentials@
                == page_of(
                status_rows(snapshot.entries@, order, snapshot.current_id),
                page as int,
                page_size as int,
            ),
        status_sorted(r.credentials@),
        r.total == (if snapshot.entries.len() <= i64::MAX {
            snapshot.entries.len() as int
        } else {
            i64::MAX as int
        }),
        r.total_pages == pages_for(r.total as int, page_size as int),
        r.available == snapshot.available,
        r.current_id == snapshot.current_id,
        r.page == page,
        r.page_size == page_size,
{
    let entries = &snapshot.entries;
    let mut keys: Vec<(i64, i64)> = Vec::new();
    let mut i: usize = 0;
    while i < entries.len()
        invariant
            i <= entries.len(),
            keys@ == priority_keys(entries@).take(i as int),
        decreases entries.len() - i,
    {
        let shifted = (entries[i].id as i128 - 0x8000_0000_0000_0000i128) as i64;
        keys.push((entries[i].priority as i64, shifted));
        proof {
            assert(keys@ =~= priority_keys(entries@).take(i + 1));
        }
        i = i + 1;
    }
    proof {
        assert(keys@ =~= priority_keys(entries@));
    }
    let order = stable_order(&keys);
    let ghost rows = status_rows(entries@, order@, snapshot.current_id);
    let (start, end) = page_bounds(order.len(), page, page_size);
    let mut items: Vec<CredentialStatusItem> = Vec::new();
    let mut k: usize = start;
    while k < end
        invariant
            is_stable_order(keys@, order@),
            keys@.len() == entries@.len(),
            rows == status_rows(entries@, order@, snapshot.current_id),
            start <= k <= end <= order.len(),
            items@ == rows.subrange(start as int, k as int),
            keys@ == priority_keys(entries@),
        decreases end - k,
    {
        items.push(status_item_of(&entries[order[k]], snapshot.current_id));
        proof {
            assert(items@ =~= rows.subrange(start as int, k + 1));
        }
        k = k + 1;
    }
    proof {
        assert(items@ =~= page_of(rows, page as int, page_size as int));
        assert forall|a: int, b: int| 0 <= a < b < items@.len() implies items@[a].priority < items@[b].priority
            || (items@[a].priority == items@[b].priority && items@[a].id <= items@[b].id) by {
            let oa = order@[start + a] as int;
            let ob = order@[start + b] as int;
            assert(items@[a] == status_item(entries@[oa], snapshot.current_id));
            assert(items@[b] == status_item(entries@[ob], snapshot.current_id));
            assert(key_lt(keys@[oa], oa, keys@[ob], ob));
        }
    }
    let total: i64 = if entries.len() as u64 <= i64::MAX as u64 {
        entries.len() as i64
    } else {
        i64::MAX
    };
    CredentialsStatusResponse {
        total,
        available: snapshot.available,
        current_id: snapshot.current_id,
        page,
        page_size,
        total_pages: page_count(total, page_size),
        credentials: items,
    }
}


/// The failure names a record that does not exist.
pub open spec fn names_missing_record(m: Seq<char>) -> bool {
    has_substring(m, "不存在"@)
}

/// The failure names rejected credential material: a token that is missing,
/// empty, truncated, expired or invalid, refused permission, rate limiting
/// while validating, or the deletion of a credential that is still enabled.
pub open spec fn names_bad_credential(m: Seq<char>) -> bool {
    has_substring(m, "缺少 refreshToken"@) || has_substring(m, "refreshToken 为空"@)
        || has_substring(m, "refreshToken 已被截断"@) || has_substring(m, "凭证已过期或无效"@)
        || has_substring(m, "权限不足"@) || has_substring(m, "已被限流"@) || has_substring(
        m,
        "只能删除已禁用的凭据"@,
    )
}

/// The failure names the network or the upstream service: a connection
/// error, a timeout, a server error, a failed refresh or a temporary outage.
pub open spec fn names_upstream_failure(m: Seq<char>) -> bool {
    has_substring(m, "error trying to connect"@) || has_substring(m, "connection"@)
        || has_substring(m, "timeout"@) || has_substring(m, "timed out"@) || has_substring(
        m,
        "服务器错误"@,
    ) || has_substring(m, "Token 刷新失败"@) || has_substring(m, "暂时不可用"@)
}

/// `e` is the kind given to failure message `m` about credential `id`: the
/// first matching row of missing record, bad credential, upstream failure,
/// else internal error; all but the first carry `m`.
pub open spec fn classified_as(e: AdminServiceError, m: Seq<char>, id: u64) -> bool {
    if names_missing_record(m) {
        e == AdminServiceError::NotFound { id }
    } else {
        classified_without_record(e, m)
    }
}

/// `e` is the kind given to a failure `m` that concerns no existing record.
pub open spec fn classified_without_record(e: AdminServiceError, m: Seq<char>) -> bool {
    if names_bad_credential(m) {
        e matches AdminServiceError::InvalidCredential(s) && s@ == m
    } else if names_upstream_failure(m) {
        e matches AdminServiceError::UpstreamError(s) && s@ == m
    } else {
        e matches AdminServiceError::InternalError(s) && s@ == m
    }
}

fn is_bad_credential(m: &str) -> (r: bool)
    ensures
        r == names_bad_credential(m@),
{
    contains_text(m, "缺少 refreshToken") || contains_text(m, "refreshToken 为空")
        || contains_text(m, "refreshToken 已被截断") || contains_text(m, "凭证已过期或无效")
        || contains_text(m, "权限不足") || contains_text(m, "已被限流") || contains_text(
        m,
        "只能删除已禁用的凭据",
    )
}

fn is_upstream_failure(m: &str) -> (r: bool)
    ensures
        r == names_upstream_failure(m@),
{
    contains_text(m, "error trying to connect") || contains_text(m, "connection") || contains_text(
        m,
        "timeout",
    ) || contains_text(m, "timed out") || contains_text(m, "服务器错误") || contains_text(
        m,
        "Token 刷新失败",
    ) || contains_text(m, "暂时不可用")
}

/// Classifies a failure that concerns no existing record (adding one).
pub fn classify_add_error(msg: String) -> (r: AdminServiceError)
    ensures
        classified_without_record(r, msg@),
{
    if is_bad_credential(msg.as_str()) {
        AdminServiceError::InvalidCredential(msg)
    } else if is_upstream_failure(msg.as_str()) {
        AdminServiceError::UpstreamError(msg)
    } else {
        AdminServiceError::InternalError(msg)
    }
}

/// Classifies a failure reported about credential `id`.
pub fn classify_error(msg: String, id: u64) -> (r: AdminServiceError)
    ensures
        classified_as(r, msg@, id),
{
    if contains_text(msg.as_str(), "不存在") {
        AdminServiceError::NotFound { id }
    } else {
        classify_add_error(msg)
    }
}

/// Whether disabling `id` must be followed by a switch to another credential.
pub open spec fn needs_switch(id: u64, disabled: bool, current_id: u64) -> bool {
    disabled && id == current_id
}

/// `item` is the export form of `m`: a missing refresh token exports as
/// empty text and a missing auth method as `social`.
pub open spec fn exported_as(item: CredentialExportItem, m: ManagedCredential) -> bool {
    &&& item.id == m.id
    &&& item.refresh_token@ == match m.credentials.refresh_token {
        Some(t) => t@,
        None => Seq::empty(),
    }
    &&& item.access_token == m.credentials.access_token
    &&& item.profile_arn == m.credentials.profile_arn
    &&& item.expires_at == m.credentials.expires_at
    &&& item.auth_method@ == match m.credentials.auth_method {
        Some(a) => a@,
        None => "social"@,
    }
    &&& item.client_id == m.credentials.client_id
    &&& item.client_secret == m.credentials.client_secret
    &&& item.priority == m.credentials.priority
    &&& item.region == m.credentials.region
    &&& item.machine_id == m.credentials.machine_id
    &&& item.failure_count == m.failure_count
    &&& item.disabled == m.disabled
}

fn export_item_of(m: &ManagedCredential) -> (r: CredentialExportItem)
    ensures
        exported_as(r, *m),
{
    let c = &m.credentials;
    let refresh_token = match &c.refresh_token {
        Some(t) => t.clone(),
        None => String::new(),
    };
    let auth_method = match &c.auth_method {
        Some(a) => a.clone(),
        None => String::from_str("social"),
    };
    CredentialExportItem {
        id: m.id,
        refresh_token,
        access_token: copy_opt(&c.access_token),
        profile_arn: copy_opt(&c.profile_arn),
        expires_at: copy_opt(&c.expires_at),
        auth_method,
        client_id: copy_opt(&c.client_id),
        client_secret: copy_opt(&c.client_secret),
        priority: c.priority,
        region: copy_opt(&c.region),
        machine_id: copy_opt(&c.machine_id),
        failure_count: m.failure_count,
        disabled: m.disabled,
    }
}

/// The export form of each credential of a full snapshot, in snapshot order.
pub fn export_items(full: &Vec<ManagedCredential>) -> (r: Vec<CredentialExportItem>)
    ensures
        r.len() == full.len(),
        forall|i: int| 0 <= i < r.len() ==> exported_as(#[trigger] r@[i], full@[i]),
{
    let mut out: Vec<CredentialExportItem> = Vec::new();
    let mut i: usize = 0;
    while i < full.len()
        invariant
            i <= full.len(),
            out.len() == i,
            forall|k: int| 0 <= k < i ==> exported_as(#[trigger] out@[k], full@[k]),
        decreases full.len() - i,
    {
        out.push(export_item_of(&full[i]));
        i = i + 1;
    }
    out
}


/// `r` reports the manager's `outcome` for credential `id`: success as
/// success, a failure as its message classified.
pub open spec fn follows_outcome(r: Result<(), AdminServiceError>, outcome: Result<(), String>, id: u64) -> bool {
    match outcome {
        Ok(()) => r is Ok,
        Err(m) => r is Err && classified_as(r->Err_0, m@, id),
    }
}

/// The result of a manager call about credential `id`.
pub fn outcome_result(id: u64, outcome: Result<(), String>) -> (r: Result<(), AdminServiceError>)
    ensures
        follows_outcome(r, outcome, id),
{
    match outcome {
        Ok(()) => Ok(()),
        Err(m) => Err(classify_error(m, id)),
    }
}

/// `r` reports a disable request whose manager call gave `outcome` while
/// `current_id` was selected: on success, whether a switch is attempted.
pub open spec fn disable_follows(
    r: Result<bool, AdminServiceError>,
    outcome: Result<(), String>,
    id: u64,
    disabled: bool,
    current_id: u64,
) -> bool {
    match outcome {
        Ok(()) => r == Ok::<bool, AdminServiceError>(needs_switch(id, disabled, current_id)),
        Err(m) => r is Err && classified_as(r->Err_0, m@, id),
    }
}

/// Decides what a disable request reports, and whether to try a switch:
/// only after a successful disable of the current credential. The switch's
/// own outcome does not change the report.
pub fn disable_result(id: u64, disabled: bool, current_id: u64, outcome: Result<(), String>) -> (r: (
    Result<bool, AdminServiceError>,
    bool,
))
    ensures
        disable_follows(r.0, outcome, id, disabled, current_id),
        r.1 == (outcome is Ok && needs_switch(id, disabled, current_id)),
{
    match outcome {
        Ok(()) => {
            let switch = disabled && id == current_id;
            (Ok(switch), switch)
        },
        Err(m) => (Err(classify_error(m, id)), false),
    }
}

/// The failed ids of a batch deletion, in order, each with its message:
/// `outcomes[k]` is `None` when `ids[k]` was deleted, else the failure.
pub open spec fn failed_deletions(ids: Seq<u64>, outcomes: Seq<Option<Seq<char>>>) -> Seq<(u64, Seq<char>)>
    decreases ids.len(),
{
    if ids.len() == 0 || outcomes.len() == 0 {
        Seq::empty()
    } else {
        let before = failed_deletions(ids.drop_last(), outcomes.drop_last());
        match outcomes.last() {
            Some(m) => before.push((ids.last(), m)),
            None => before,
        }
    }
}

impl BatchDeleteResponse {
    /// Records what became of deleting `id`: success counts as deleted, a
    /// failure is kept with the id and message.
    pub fn record_outcome(&mut self, id: u64, outcome: Result<(), String>)
        requires
            old(self).deleted >= 0,
            old(self).failed >= 0,
            old(self).deleted + old(self).failed < i32::MAX,
        ensures
            match outcome {
                Ok(()) => final(self).deleted == old(self).deleted + 1 && final(self).failed
                    == old(self).failed && final(self).errors@ == old(self).errors@,
                Err(m) => final(self).deleted == old(self).deleted && final(self).failed
                    == old(self).failed + 1 && final(self).errors@ == old(self).errors@.push(
                    BatchDeleteError { id, message: m },
                ),
            },
    {
        match outcome {
            Ok(()) => {
                self.deleted = self.deleted + 1;
            },
            Err(message) => {
                self.failed = self.failed + 1;
                self.errors.push(BatchDeleteError { id, message });
            },
        }
    }
}

/// A credential to add to the pool.
#[derive(Debug)]
pub struct AddCredentialRequest {
    pub refresh_token: String,
    pub auth_method: String,
    pub client_id: Option<String>,
    pub client_secret: Option<String>,
    pub priority: u32,
    pub region: Option<String>,
    pub machine_id: Option<String>,
}

impl AddCredentialRequest {
    /// The credential material handed to the manager: no id, no access
    /// token yet, the request's fields otherwise.
    pub fn into_credentials(self) -> (r: KiroCredentials)
        ensures
            r == (KiroCredentials {
                id: None,
                access_token: None,
                refresh_token: Some(self.refresh_token),
                profile_arn: None,
                expires_at: None,
                auth_method: Some(self.auth_method),
                client_id: self.client_id,
                client_secret: self.client_secret,
                priority: self.priority,
                region: self.region,
                machine_id: self.machine_id,
            }),
    {
        KiroCredentials {
            id: None,
            access_token: None,
            refresh_token: Some(self.refresh_token),
            profile_arn: None,
            expires_at: None,
            auth_method: Some(self.auth_method),
            client_id: self.client_id,
            client_secret: self.client_secret,
            priority: self.priority,
            region: self.region,
            machine_id: self.machine_id,
        }
    }
}

/// Reply to a successful addition.
#[derive(Debug)]
pub struct AddCredentialResponse {
    pub success: bool,
    pub message: String,
    pub credential_id: u64,
}

impl AddCredentialResponse {
    /// The reply for a credential added under `id`.
    pub fn added(id: u64) -> (r: Self)
        ensures
            r.success,
            r.credential_id == id,
            r.message@ == "凭据添加成功，ID: "@ + digits_of(id as nat),
    {
        let mut message = String::from_str("凭据添加成功，ID: ");
        let digits = uint_to_text(id);
        message.append(digits.as_str());
        AddCredentialResponse { success: true, message, credential_id: id }
    }
}

/// Credentials to add in one batch.
#[derive(Debug)]
pub struct BatchImportRequest {
    pub credentials: Vec<AddCredentialRequest>,
}

/// Outcome of a batch import.
#[derive(Debug)]
pub struct BatchImportResponse {
    pub imported: i32,
    pub failed: i32,
    pub errors: Vec<BatchImportError>,
}

impl BatchImportResponse {
    /// Nothing imported yet.
    pub fn new() -> (r: Self)
        ensures
            r.imported == 0,
            r.failed == 0,
            r.errors@.len() == 0,
    {
        BatchImportResponse { imported: 0, failed: 0, errors: Vec::new() }
    }

    /// Records what became of the item at position `index`: an id counts as
    /// imported, a failure is kept with its position and message.
    pub fn record_outcome(&mut self, index: usize, outcome: Result<u64, String>)
        requires
            old(self).imported >= 0,
            old(self).failed >= 0,
            old(self).imported + old(self).failed < i32::MAX,
        ensures
            match outcome {
                Ok(_) => final(self).imported == old(self).imported + 1 && final(self).failed
                    == old(self).failed && final(self).errors@ == old(self).errors@,
                Err(m) => final(self).imported == old(self).imported && final(self).failed
                    == old(self).failed + 1 && final(self).errors@ == old(self).errors@.push(
                    BatchImportError { index, message: m },
                ),
            },
    {
        match outcome {
            Ok(_) => {
                self.imported = self.imported + 1;
            },
            Err(message) => {
                self.failed = self.failed + 1;
                self.errors.push(BatchImportError { index, message });
            },
        }
    }
}

/// The failed positions of a batch import, in order, each with its message.
pub open spec fn failed_imports(outcomes: Seq<Result<u64, String>>) -> Seq<(usize, Seq<char>)>
    decreases outcomes.len(),
{
    if outcomes.len() == 0 {
        Seq::empty()
    } else {
        let before = failed_imports(outcomes.drop_last());
        match outcomes.last() {
            Err(m) => before.push(((outcomes.len() - 1) as usize, m@)),
            Ok(_) => before,
        }
    }
}

/// The report of a batch import from the outcome of each item, in input
/// order: every failure with its position and message, the rest imported.
pub fn summarize_imports(outcomes: Vec<Result<u64, String>>) -> (r: BatchImportResponse)
    requires
        outcomes.len() < i32::MAX,
    ensures
        r.errors@.map_values(|e: BatchImportError| (e.index, e.message@)) == failed_imports(outcomes@),
        r.failed == failed_imports(outcomes@).len(),
        r.imported == outcomes.len() - failed_imports(outcomes@).len(),
{
    let mut r = BatchImportResponse::new();
    let mut i: usize = 0;
    proof {
        assert(outcomes@.take(0) =~= Seq::<Result<u64, String>>::empty());
        assert(r.errors@.map_values(|e: BatchImportError| (e.index, e.message@)) =~= Seq::<
            (usize, Seq<char>),
        >::empty());
    }
    while i < outcomes.len()
        invariant
            i <= outcomes.len() < i32::MAX,
            r.imported >= 0,
            r.failed >= 0,
            r.imported + r.failed == i,
            r.errors@.map_values(|e: BatchImportError| (e.index, e.message@)) == failed_imports(
                outcomes@.take(i as int),
            ),
            r.failed == failed_imports(outcomes@.take(i as int)).len(),
        decreases outcomes.len() - i,
    {
        let outcome: Result<u64, String> = match &outcomes[i] {
            Ok(id) => Ok(*id),
            Err(m) => Err(m.clone()),
        };
        r.record_outcome(i, outcome);
        proof {
            let t = outcomes@.take(i + 1);
            assert(t.drop_last() =~= outcomes@.take(i as int));
            assert(t.last() == outcomes@[i as int]);
        }
        i = i + 1;
    }
    proof {
        assert(outcomes@.take(outcomes.len() as int) =~= outcomes@);
    }
    r
}

/// Administrative operations over a rotation manager.
pub struct AdminService<M: RotationManager> {
    token_manager: M,
}

impl<M: RotationManager> AdminService<M> {
    /// The manager this service works on.
    pub closed spec fn manager(&self) -> M {
        self.token_manager
    }

    /// A service over `token_manager`.
    pub fn new(token_manager: M) -> (r: Self)
        ensures
            r.manager() == token_manager,
    {
        AdminService { token_manager }
    }

    /// Page `page` of the live pool's status, from the manager's snapshot.
    pub fn get_all_credentials(&self, page: i32, page_size: i32) -> (r: CredentialsStatusResponse)
        requires
            page >= 1,
            page_size >= 1,
        ensures
            r.page == page,
            r.page_size == page_size,
            r.total_pages == pages_for(r.total as int, page_size as int),
            status_sorted(r.credentials@),
            exists|snapshot: ManagerSnapshot, order: Seq<usize>|
                #[trigger] is_stable_order(priority_keys(snapshot.entries@), order) && r.credentials@
                    == page_of(
                    status_rows(snapshot.entries@, order, snapshot.current_id),
                    page as int,
                    page_size as int,
                ) && r.current_id == snapshot.current_id && r.available == snapshot.available
                    && r.total == (if snapshot.entries.len() <= i64::MAX {
                    snapshot.entries.len() as int
                } else {
                    i64::MAX as int
                }),
    {
        let snapshot = self.token_manager.snapshot();
        status_view(&snapshot, page, page_size)
    }

    /// Enables or disables `id`. Disabling the current credential is followed
    /// by an attempt to switch to another one, whose failure is ignored; the
    /// result is `Ok(true)` exactly when that attempt was made.
    pub fn set_disabled(&self, id: u64, disabled: bool) -> (r: Result<bool, AdminServiceError>)
        ensures
            exists|current_id: u64, outcome: Result<(), String>|
                #[trigger] disable_follows(r, outcome, id, disabled, current_id),
    {
        let snapshot = self.token_manager.snapshot();
        let current_id = snapshot.current_id;
        let outcome = self.token_manager.set_disabled(id, disabled);
        let ghost seen = outcome;
        let (r, switch) = disable_result(id, disabled, current_id, outcome);
        if switch {
            let _ = self.token_manager.switch_to_next();
        }
        assert(disable_follows(r, seen, id, disabled, current_id));
        r
    }

    /// Sets the priority of `id`.
    pub fn set_priority(&self, id: u64, priority: u32) -> (r: Result<(), AdminServiceError>)
        ensures
            exists|outcome: Result<(), String>| #[trigger] follows_outcome(r, outcome, id),
    {
        let outcome = self.token_manager.set_priority(id, priority);
        let ghost seen = outcome;
        let r = outcome_result(id, outcome);
        assert(follows_outcome(r, seen, id));
        r
    }

    /// Clears the failure count of `id` and enables it.
    pub fn reset_and_enable(&self, id: u64) -> (r: Result<(), AdminServiceError>)
        ensures
            exists|outcome: Result<(), String>| #[trigger] follows_outcome(r, outcome, id),
    {
        let outcome = self.token_manager.reset_and_enable(id);
        let ghost seen = outcome;
        let r = outcome_result(id, outcome);
        assert(follows_outcome(r, seen, id));
        r
    }

    /// Deletes `id` through the manager, which persists the deletion.
    pub fn delete_credential(&self, id: u64) -> (r: Result<(), AdminServiceError>)
        ensures
            exists|outcome: Result<(), String>| #[trigger] follows_outcome(r, outcome, id),
    {
        let outcome = self.token_manager.delete_credential(id);
        let ghost seen = outcome;
        let r = outcome_result(id, outcome);
        assert(follows_outcome(r, seen, id));
        r
    }

    /// Deletes each id in turn; the failures are reported with their ids and
    /// the manager's messages, in input order, and never undo another deletion.
    pub fn batch_delete(&self, req: BatchDeleteRequest) -> (r: BatchDeleteResponse)
        requires
            req.ids.len() <= i32::MAX,
        ensures
            exists|outcomes: Seq<Option<Seq<char>>>|
                #[trigger] outcomes.len() == req.ids.len() && r.errors@.map_values(
                    |e: BatchDeleteError| (e.id, e.message@),
                ) == failed_deletions(req.ids@, outcomes) && r.failed == failed_deletions(
                    req.ids@,
                    outcomes,
                ).len() && r.deleted == req.ids.len() - failed_deletions(req.ids@, outcomes).len(),
    {
        let ids = req.ids;
        let mut response = BatchDeleteResponse { deleted: 0, failed: 0, errors: Vec::new() };
        let ghost mut outcomes: Seq<Option<Seq<char>>> = Seq::empty();
        let mut i: usize = 0;
        proof {
            assert(ids@.take(0) =~= Seq::<u64>::empty());
            assert(response.errors@.map_values(|e: BatchDeleteError| (e.id, e.message@)) =~= Seq::<
                (u64, Seq<char>),
            >::empty());
        }
        while i < ids.len()
            invariant
                i <= ids.len() <= i32::MAX,
                outcomes.len() == i,
                response.deleted >= 0,
                response.failed >= 0,
                response.deleted + response.failed == i,
                response.errors@.map_values(|e: BatchDeleteError| (e.id, e.message@))
                    == failed_deletions(ids@.take(i as int), outcomes),
                response.failed == failed_deletions(ids@.take(i as int), outcomes).len(),
            decreases ids.len() - i,
        {
            let id = ids[i];
            let outcome = self.token_manager.delete_credential(id);
            let ghost next = if outcome is Ok {
                None
            } else {
                Some(outcome->Err_0@)
            };
            response.record_outcome(id, outcome);
            proof {
                let t = ids@.take(i + 1);
                let o = outcomes.push(next);
                assert(t.drop_last() =~= ids@.take(i as int));
                assert(o.drop_last() =~= outcomes);
                assert(t.last() == id);
                outcomes = o;
            }
            i = i + 1;
        }
        proof {
            assert(ids@.take(ids.len() as int) =~= ids@);
        }
        response
    }

    /// Every credential of the manager's full snapshot in export form, with
    /// its live failure count and disabled flag.
    pub fn export_all(&self) -> (r: Vec<CredentialExportItem>)
        ensures
            exists|full: Seq<ManagedCredential>|
                #[trigger] full.len() == r.len() && forall|i: int|
                    0 <= i < r.len() ==> exported_as(#[trigger] r@[i], full[i]),
    {
        let full = self.token_manager.snapshot_full();
        export_items(&full)
    }
}

} // verus!
