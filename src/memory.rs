//! A credential store held in memory, with tombstones in place of removal.
use vstd::prelude::*;
use crate::order::{key_lt, is_stable_order, stable_order, page_of, pages_for, page_bounds, PaginatedResult};
use crate::record::{
    record_before, BatchDeleteError, BatchDeleteResult, BatchImportError,
    BatchImportResult, CreateCredential, CredentialRecord, StoreError, UpdateCredential,
};

verus! {

/// A record together with its tombstone; `deleted_at` set means logically deleted.
#[derive(Debug)]
pub struct StoredCredential {
    pub record: CredentialRecord,
    pub deleted_at: Option<i64>,
}

/// The time recorded for a mutation: `now` if it is later than every earlier
/// mutation, else one millisecond after the latest one.
pub open spec fn stamp(clock: i64, now: i64) -> i64 {
    if now > clock {
        now
    } else if clock < i64::MAX {
        (clock + 1) as i64
    } else {
        clock
    }
}

/// Largest length of `auth_method`, `region` and `machine_id` a store accepts.
pub const AUTH_METHOD_LIMIT: usize = 20;
pub const REGION_LIMIT: usize = 50;
pub const MACHINE_ID_LIMIT: usize = 128;

pub open spec fn too_long(o: Option<String>, limit: nat) -> bool {
    match o {
        Some(s) => s@.len() > limit,
        None => false,
    }
}

/// The message a store gives for the first field of `c` that exceeds its
/// column, if any.
pub open spec fn create_violation(c: CreateCredential) -> Option<Seq<char>> {
    if c.auth_method@.len() > AUTH_METHOD_LIMIT {
        Some("value too long for type character varying(20)"@)
    } else if too_long(c.region, REGION_LIMIT as nat) {
        Some("value too long for type character varying(50)"@)
    } else if too_long(c.machine_id, MACHINE_ID_LIMIT as nat) {
        Some("value too long for type character varying(128)"@)
    } else {
        None
    }
}

pub open spec fn update_violation(u: UpdateCredential) -> Option<Seq<char>> {
    if too_long(u.machine_id, MACHINE_ID_LIMIT as nat) {
        Some("value too long for type character varying(128)"@)
    } else {
        None
    }
}

/// The record that `create` stores for `c` under `id` at time `t`.
pub open spec fn created_record(c: CreateCredential, id: i64, t: i64) -> CredentialRecord {
    CredentialRecord {
        id,
        refresh_token: c.refresh_token,
        access_token: None,
        profile_arn: None,
        expires_at: None,
        auth_method: c.auth_method,
        client_id: c.client_id,
        client_secret: c.client_secret,
        priority: c.priority,
        region: c.region,
        machine_id: c.machine_id,
        failure_count: 0,
        disabled: false,
        created_at: t,
        updated_at: t,
    }
}

pub open spec fn pick<T>(new: Option<T>, old: T) -> T {
    match new {
        Some(v) => v,
        None => old,
    }
}

pub open spec fn pick_opt<T>(new: Option<T>, old: Option<T>) -> Option<T> {
    match new {
        Some(v) => Some(v),
        None => old,
    }
}

/// `r` with the fields present in `u` replaced and `updated_at` set to `t`.
pub open spec fn updated_record(r: CredentialRecord, u: UpdateCredential, t: i64) -> CredentialRecord {
    CredentialRecord {
        id: r.id,
        refresh_token: pick(u.refresh_token, r.refresh_token),
        access_token: pick_opt(u.access_token, r.access_token),
        profile_arn: pick_opt(u.profile_arn, r.profile_arn),
        expires_at: pick_opt(u.expires_at, r.expires_at),
        auth_method: r.auth_method,
        client_id: r.client_id,
        client_secret: r.client_secret,
        priority: pick(u.priority, r.priority),
        region: r.region,
        machine_id: pick_opt(u.machine_id, r.machine_id),
        failure_count: pick(u.failure_count, r.failure_count),
        disabled: pick(u.disabled, r.disabled),
        created_at: r.created_at,
        updated_at: t,
    }
}

/// `r` is a refusal by the backend with message `m`.
pub open spec fn rejected_with<T>(r: Result<T, StoreError>, m: Seq<char>) -> bool {
    match r {
        Err(StoreError::Rejected { message }) => message@ == m,
        _ => false,
    }
}

pub open spec fn live(rows: Seq<StoredCredential>, id: i64) -> bool {
    1 <= id <= rows.len() && rows[id - 1].deleted_at is None
}

/// Rows and clock after one `create` of `c` at `now`.
pub open spec fn create_step(rows: Seq<StoredCredential>, clock: i64, c: CreateCredential, now: i64) -> (
    Seq<StoredCredential>,
    i64,
) {
    if create_violation(c) is Some {
        (rows, clock)
    } else {
        let t = stamp(clock, now);
        (
            rows.push(
                StoredCredential {
                    record: created_record(c, (rows.len() + 1) as i64, t),
                    deleted_at: None,
                },
            ),
            t,
        )
    }
}

/// Rows and clock after one `delete` of `id` at `now`.
pub open spec fn delete_step(rows: Seq<StoredCredential>, clock: i64, id: i64, now: i64) -> (
    Seq<StoredCredential>,
    i64,
) {
    if live(rows, id) {
        let t = stamp(clock, now);
        let r = rows[id - 1].record;
        (
            rows.update(
                id - 1,
                StoredCredential {
                    record: updated_record(r, UpdateCredential::empty_spec(), t),
                    deleted_at: Some(t),
                },
            ),
            t,
        )
    } else {
        (rows, clock)
    }
}

/// Rows and clock after creating each of `cs` in turn at `now`.
pub open spec fn create_all(rows: Seq<StoredCredential>, clock: i64, cs: Seq<CreateCredential>, now: i64) -> (
    Seq<StoredCredential>,
    i64,
)
    decreases cs.len(),
{
    if cs.len() == 0 {
        (rows, clock)
    } else {
        let before = create_all(rows, clock, cs.drop_last(), now);
        create_step(before.0, before.1, cs.last(), now)
    }
}

/// Rows and clock after deleting each of `ids` in turn at `now`.
pub open spec fn delete_all(rows: Seq<StoredCredential>, clock: i64, ids: Seq<i64>, now: i64) -> (
    Seq<StoredCredential>,
    i64,
)
    decreases ids.len(),
{
    if ids.len() == 0 {
        (rows, clock)
    } else {
        let before = delete_all(rows, clock, ids.drop_last(), now);
        delete_step(before.0, before.1, ids.last(), now)
    }
}

fn too_long_text(o: &Option<String>, limit: usize) -> (r: bool)
    ensures
        r == too_long(*o, limit as nat),
{
    match o {
        Some(s) => s.as_str().unicode_len() > limit,
        None => false,
    }
}

fn create_rejection(c: &CreateCredential) -> (r: Option<String>)
    ensures
        match create_violation(*c) {
            Some(m) => r is Some && r->0@ == m,
            None => r is None,
        },
{
    if c.auth_method.as_str().unicode_len() > AUTH_METHOD_LIMIT {
        Some(String::from_str("value too long for type character varying(20)"))
    } else if too_long_text(&c.region, REGION_LIMIT) {
        Some(String::from_str("value too long for type character varying(50)"))
    } else if too_long_text(&c.machine_id, MACHINE_ID_LIMIT) {
        Some(String::from_str("value too long for type character varying(128)"))
    } else {
        None
    }
}

/// Ids of a sequence with pairwise distinct ids in `1..=n` number at most `n`.
proof fn lemma_distinct_ids_bounded(s: Seq<CredentialRecord>, n: int)
    requires
        n >= 0,
        forall|i: int| 0 <= i < s.len() ==> 1 <= #[trigger] s[i].id <= n,
        forall|i: int, j: int| 0 <= i < j < s.len() ==> s[i].id != s[j].id,
    ensures
        s.len() <= n,
{
    let ids = s.map_values(|r: CredentialRecord| r.id as int).to_set();
    let range = Set::new(|k: int| 1 <= k <= n);
    assert(ids.subset_of(range));
    vstd::set_lib::lemma_int_range(1, n + 1);
    assert(range =~= vstd::set_lib::set_int_range(1, n + 1));
    vstd::set_lib::lemma_len_subset(ids, range);
    let m = s.map_values(|r: CredentialRecord| r.id as int);
    assert(m.no_duplicates()) by {
        assert forall|i: int, j: int| 0 <= i < m.len() && 0 <= j < m.len() && i != j implies m[i] != m[j] by {
            if i < j {
            } else {
            }
        }
    }
    m.unique_seq_to_set();
}

/// Ids of `ids`, in order, whose deletion fails when each is deleted in turn.
pub open spec fn delete_failures(rows: Seq<StoredCredential>, clock: i64, ids: Seq<i64>, now: i64) -> Seq<i64>
    decreases ids.len(),
{
    if ids.len() == 0 {
        Seq::empty()
    } else {
        let before = delete_failures(rows, clock, ids.drop_last(), now);
        if live(delete_all(rows, clock, ids.drop_last(), now).0, ids.last()) {
            before
        } else {
            before.push(ids.last())
        }
    }
}

/// Number of credentials of `cs` that a store refuses.
pub open spec fn refused_count(cs: Seq<CreateCredential>) -> int
    decreases cs.len(),
{
    if cs.len() == 0 {
        0
    } else {
        refused_count(cs.drop_last()) + if create_violation(cs.last()) is Some { 1int } else { 0int }
    }
}

/// `errors` names, in input order, exactly the refused credentials of `cs`.
pub open spec fn import_errors_match(cs: Seq<CreateCredential>, errors: Seq<BatchImportError>) -> bool {
    &&& forall|k: int|
        0 <= k < errors.len() ==> (#[trigger] errors[k]).index < cs.len() && create_violation(
            cs[errors[k].index as int],
        ) == Some(errors[k].message@)
    &&& forall|a: int, b: int| 0 <= a < b < errors.len() ==> errors[a].index < errors[b].index
    &&& forall|i: int|
        0 <= i < cs.len() && (#[trigger] create_violation(cs[i])) is Some ==> exists|k: int|
            0 <= k < errors.len() && errors[k].index == i
}


/// An update with no field present leaves every field of the record as it
/// was but `updated_at`, which moves strictly forward.
pub proof fn lemma_empty_update_only_advances(store: MemoryCredentialStore, id: i64, u: UpdateCredential, now: i64)
    requires
        store.wf(),
        store.is_live(id),
        u.is_empty(),
        store.clock() < i64::MAX,
    ensures
        ({
            let before = store.record_of(id);
            let after = updated_record(before, u, stamp(store.clock(), now));
            &&& after.updated_at > before.updated_at
            &&& after == CredentialRecord { updated_at: after.updated_at, ..before }
        }),
{
    assert(store.rows()[id - 1].record.updated_at <= store.clock());
}

/// Once deleted, an id is never live again, whatever is created or deleted
/// afterwards, and a later `create` hands out a different id.
pub proof fn lemma_deleted_stays_gone(
    rows: Seq<StoredCredential>,
    clock: i64,
    id: i64,
    now: i64,
    c: CreateCredential,
    later: i64,
    other: i64,
)
    requires
        1 <= id <= rows.len(),
        rows.len() < i64::MAX,
        forall|i: int| 0 <= i < rows.len() ==> (#[trigger] rows[i]).record.id == i + 1,
    ensures
        !live(delete_step(rows, clock, id, now).0, id),
        ({
            let gone = delete_step(rows, clock, id, now);
            let created = create_step(gone.0, gone.1, c, later);
            &&& !live(created.0, id)
            &&& !live(delete_step(gone.0, gone.1, other, later).0, id)
            &&& create_violation(c) is None ==> created.0.last().record.id != id
            &&& forall|i: int| 0 <= i < created.0.len() ==> (#[trigger] created.0[i]).record.id == i + 1
        }),
{
    let gone = delete_step(rows, clock, id, now);
    assert forall|i: int| 0 <= i < gone.0.len() implies (#[trigger] gone.0[i]).record.id == i + 1 by {
        assert(rows[i].record.id == i + 1);
    }
}

proof fn lemma_listings_agree_upto(store: MemoryCredentialStore, s1: Seq<CredentialRecord>, s2: Seq<CredentialRecord>, n: int)
    requires
        store.is_listing(s1),
        store.is_listing(s2),
        0 <= n <= s1.len(),
        n <= s2.len(),
    ensures
        forall|i: int| 0 <= i < n ==> s1[i] == s2[i],
    decreases n,
{
    if n > 0 {
        lemma_listings_agree_upto(store, s1, s2, n - 1);
        let i = n - 1;
        let x = s1[i].id;
        assert(store.is_live(x));
        let j = choose|j: int| 0 <= j < s2.len() && s2[j].id == x;
        assert(s2[j] == s1[i]);
        if j < i {
            assert(record_before(s1[j], s1[i]));
        } else if j > i {
            let y = s2[i].id;
            assert(store.is_live(y));
            let k = choose|k: int| 0 <= k < s1.len() && s1[k].id == y;
            assert(s1[k] == s2[i]);
            if k < i {
                assert(record_before(s2[k], s2[i]));
            } else if k == i {
                assert(record_before(s2[i], s2[j]));
            } else {
                assert(record_before(s1[i], s1[k]));
                assert(record_before(s2[i], s2[j]));
            }
        }
    }
}

/// Any two listings of a store are the same sequence: the order by priority
/// and then id leaves no choice.
pub proof fn lemma_listing_unique(store: MemoryCredentialStore, s1: Seq<CredentialRecord>, s2: Seq<CredentialRecord>)
    requires
        store.is_listing(s1),
        store.is_listing(s2),
    ensures
        s1 == s2,
{
    if s1.len() <= s2.len() {
        lemma_listings_agree_upto(store, s1, s2, s1.len() as int);
        if s1.len() < s2.len() {
            let y = s2[s1.len() as int].id;
            assert(store.is_live(y));
            let j = choose|j: int| 0 <= j < s1.len() && s1[j].id == y;
            assert(record_before(s2[j], s2[s1.len() as int]));
        }
    } else {
        lemma_listings_agree_upto(store, s1, s2, s2.len() as int);
        let y = s1[s2.len() as int].id;
        assert(store.is_live(y));
        let j = choose|j: int| 0 <= j < s2.len() && s2[j].id == y;
        assert(record_before(s1[j], s1[s2.len() as int]));
    }
    assert(s1 =~= s2);
}

/// A record that is not live appears on no listing and no page of one.
pub proof fn lemma_not_live_not_listed(store: MemoryCredentialStore, id: i64, s: Seq<CredentialRecord>, page: int, page_size: int)
    requires
        store.is_listing(s),
        !store.is_live(id),
        page >= 1,
        page_size >= 1,
    ensures
        forall|i: int| 0 <= i < s.len() ==> s[i].id != id,
        forall|i: int| 0 <= i < page_of(s, page, page_size).len() ==> page_of(s, page, page_size)[i].id != id,
{
    assert forall|i: int| 0 <= i < s.len() implies s[i].id != id by {
        assert(store.is_live(s[i].id));
    }
}

/// Deleting the same id a second time finds nothing to delete, so it fails
/// with `NotFound` and changes nothing.
pub proof fn lemma_second_delete_fails(rows: Seq<StoredCredential>, clock: i64, id: i64, now: i64, later: i64)
    ensures
        ({
            let first = delete_step(rows, clock, id, now);
            &&& !live(first.0, id)
            &&& delete_step(first.0, first.1, id, later) == first
        }),
{
}

impl UpdateCredential {
    pub open spec fn empty_spec() -> UpdateCredential {
        UpdateCredential {
            access_token: None,
            refresh_token: None,
            profile_arn: None,
            expires_at: None,
            priority: None,
            failure_count: None,
            disabled: None,
            machine_id: None,
        }
    }
}

/// The credential store kept in memory. Ids count up from 1 and the row of
/// id `n` sits at position `n - 1`; no row is ever removed.
pub struct MemoryCredentialStore {
    rows: Vec<StoredCredential>,
    clock: i64,
}

impl MemoryCredentialStore {
    pub closed spec fn rows(&self) -> Seq<StoredCredential> {
        self.rows@
    }

    /// Time of the latest mutation.
    pub closed spec fn clock(&self) -> i64 {
        self.clock
    }

    pub open spec fn wf(&self) -> bool {
        &&& self.rows().len() < i64::MAX
        &&& forall|i: int|
            0 <= i < self.rows().len() ==> (#[trigger] self.rows()[i]).record.id == i + 1
                && self.rows()[i].record.updated_at <= self.clock()
    }

    pub open spec fn is_live(&self, id: i64) -> bool {
        live(self.rows(), id)
    }

    pub open spec fn record_of(&self, id: i64) -> CredentialRecord {
        self.rows()[id - 1].record
    }

    /// `s` holds every live record once, ordered by priority and then id.
    pub open spec fn is_listing(&self, s: Seq<CredentialRecord>) -> bool {
        &&& forall|i: int|
            0 <= i < s.len() ==> self.is_live(#[trigger] s[i].id) && s[i] == self.record_of(s[i].id)
        &&& forall|id: i64| #[trigger] self.is_live(id) ==> exists|i: int| 0 <= i < s.len() && s[i].id == id
        &&& forall|i: int, j: int| 0 <= i < j < s.len() ==> record_before(s[i], s[j])
    }

    /// An empty store.
    pub fn new() -> (r: Self)
        ensures
            r.wf(),
            r.rows().len() == 0,
            r.clock() == i64::MIN,
    {
        MemoryCredentialStore { rows: Vec::new(), clock: i64::MIN }
    }

    /// Number of records ever created, deleted ones included.
    pub fn row_count(&self) -> (r: usize)
        ensures
            r == self.rows().len(),
    {
        self.rows.len()
    }

    fn tick(&mut self, now: i64) -> (t: i64)
        ensures
            t == stamp(old(self).clock(), now),
            final(self).clock() == t,
            final(self).rows() == old(self).rows(),
    {
        let t = if now > self.clock {
            now
        } else if self.clock < i64::MAX {
            self.clock + 1
        } else {
            self.clock
        };
        self.clock = t;
        t
    }

    /// The live record with this id, if any.
    pub fn get(&self, id: i64) -> (r: Option<CredentialRecord>)
        requires
            self.wf(),
        ensures
            r == (if self.is_live(id) { Some(self.record_of(id)) } else { None }),
    {
        if id >= 1 && id <= self.rows.len() as i64 {
            let row = &self.rows[(id - 1) as usize];
            match row.deleted_at {
                None => Some(row.record.duplicate()),
                Some(_) => None,
            }
        } else {
            None
        }
    }

    /// Every live record, ordered by priority and then id.
    pub fn list_all(&self) -> (r: Vec<CredentialRecord>)
        requires
            self.wf(),
        ensures
            self.is_listing(r@),
    {
        let mut live_rows: Vec<CredentialRecord> = Vec::new();
        let mut keys: Vec<(i64, i64)> = Vec::new();
        let mut i: usize = 0;
        while i < self.rows.len()
            invariant
                self.wf(),
                i <= self.rows().len(),
                live_rows.len() == keys.len(),
                forall|a: int|
                    0 <= a < live_rows.len() ==> self.is_live(#[trigger] live_rows@[a].id)
                        && live_rows@[a] == self.record_of(live_rows@[a].id) && live_rows@[a].id <= i
                        && keys@[a] == (live_rows@[a].priority as i64, live_rows@[a].id),
                forall|a: int, b: int|
                    0 <= a < b < live_rows.len() ==> live_rows@[a].id < live_rows@[b].id,
                forall|id: i64|
                    #[trigger] self.is_live(id) && id <= i ==> exists|a: int|
                        0 <= a < live_rows.len() && live_rows@[a].id == id,
            decreases self.rows().len() - i,
        {
            let row = &self.rows[i];
            let ghost prev = live_rows@;
            if row.deleted_at.is_none() {
                let rec = row.record.duplicate();
                keys.push((rec.priority as i64, rec.id));
                live_rows.push(rec);
            }
            proof {
                assert(self.rows()[i as int].record.id == i + 1);
                assert forall|id: i64| #[trigger] self.is_live(id) && id <= i + 1 implies exists|a: int|
                    0 <= a < live_rows.len() && live_rows@[a].id == id by {
                    if id == i + 1 {
                        assert(live_rows@[live_rows.len() - 1].id == id);
                    } else {
                        let a = choose|a: int| 0 <= a < prev.len() && prev[a].id == id;
                        assert(live_rows@[a] == prev[a]);
                    }
                }
            }
            i = i + 1;
        }
        let order = stable_order(&keys);
        let mut out: Vec<CredentialRecord> = Vec::new();
        let mut k: usize = 0;
        while k < order.len()
            invariant
                is_stable_order(keys@, order@),
                live_rows.len() == keys.len(),
                k <= order.len(),
                out.len() == k,
                forall|a: int| 0 <= a < k ==> out@[a] == live_rows@[order@[a] as int],
            decreases order.len() - k,
        {
            out.push(live_rows[order[k]].duplicate());
            k = k + 1;
        }
        proof {
            assert forall|a: int, b: int| 0 <= a < b < out.len() implies record_before(out@[a], out@[b]) by {
                let oa = order@[a] as int;
                let ob = order@[b] as int;
                assert(key_lt(keys@[oa], oa, keys@[ob], ob));
                assert(keys@[oa] == (live_rows@[oa].priority as i64, live_rows@[oa].id));
                assert(keys@[ob] == (live_rows@[ob].priority as i64, live_rows@[ob].id));
                if oa < ob {
                    assert(live_rows@[oa].id < live_rows@[ob].id);
                } else if ob < oa {
                    assert(live_rows@[ob].id < live_rows@[oa].id);
                }
            }
            assert forall|id: i64| #[trigger] self.is_live(id) implies exists|a: int|
                0 <= a < out.len() && out@[a].id == id by {
                assert(self.rows()[id - 1].record.id == id);
                let b = choose|b: int| 0 <= b < live_rows.len() && live_rows@[b].id == id;
                assert(order@.contains(b as usize));
                let a = choose|a: int| 0 <= a < order.len() && order@[a] == b as usize;
                assert(out@[a].id == id);
            }
        }
        out
    }

    /// Page `page` (1-indexed) of the live records in listing order; a page
    /// past the last one is empty.
    pub fn list(&self, page: i32, page_size: i32) -> (r: PaginatedResult<CredentialRecord>)
        requires
            self.wf(),
            page >= 1,
            page_size >= 1,
        ensures
            exists|s: Seq<CredentialRecord>|
                #[trigger] self.is_listing(s) && r.items@ == page_of(s, page as int, page_size as int)
                    && r.total == s.len(),
            r.page == page,
            r.page_size == page_size,
            r.total_pages == pages_for(r.total as int, page_size as int),
    {
        let all = self.list_all();
        proof {
            self.lemma_listing_len(all@);
        }
        let (start, end) = page_bounds(all.len(), page, page_size);
        let mut items: Vec<CredentialRecord> = Vec::new();
        let mut k: usize = start;
        while k < end
            invariant
                start <= k <= end <= all.len(),
                items@ == all@.subrange(start as int, k as int),
            decreases end - k,
        {
            items.push(all[k].duplicate());
            proof {
                assert(items@ =~= all@.subrange(start as int, k + 1));
            }
            k = k + 1;
        }
        proof {
            assert(items@ =~= page_of(all@, page as int, page_size as int));
        }
        PaginatedResult::new(items, all.len() as i64, page, page_size)
    }

    /// A listing holds no more records than there are rows.
    proof fn lemma_listing_len(&self, s: Seq<CredentialRecord>)
        requires
            self.wf(),
            self.is_listing(s),
        ensures
            s.len() <= self.rows().len(),
    {
        assert forall|i: int, j: int| 0 <= i < j < s.len() implies s[i].id != s[j].id by {
            assert(record_before(s[i], s[j]));
        }
        lemma_distinct_ids_bounded(s, self.rows().len() as int);
    }

    /// Stores a new credential at time `now` and returns its id, which no
    /// earlier credential had. A value too long for its column is refused.
    pub fn create_at(&mut self, cred: CreateCredential, now: i64) -> (r: Result<i64, StoreError>)
        requires
            old(self).wf(),
            old(self).rows().len() + 1 < i64::MAX,
        ensures
            final(self).wf(),
            (final(self).rows(), final(self).clock()) == create_step(
                old(self).rows(),
                old(self).clock(),
                cred,
                now,
            ),
            match create_violation(cred) {
                Some(m) => rejected_with(r, m),
                None => r == Ok::<i64, StoreError>((old(self).rows().len() + 1) as i64),
            },
    {
        match create_rejection(&cred) {
            Some(message) => Err(StoreError::Rejected { message }),
            None => {
                let t = self.tick(now);
                let id = self.rows.len() as i64 + 1;
                let record = CredentialRecord {
                    id,
                    refresh_token: cred.refresh_token,
                    access_token: None,
                    profile_arn: None,
                    expires_at: None,
                    auth_method: cred.auth_method,
                    client_id: cred.client_id,
                    client_secret: cred.client_secret,
                    priority: cred.priority,
                    region: cred.region,
                    machine_id: cred.machine_id,
                    failure_count: 0,
                    disabled: false,
                    created_at: t,
                    updated_at: t,
                };
                self.rows.push(StoredCredential { record, deleted_at: None });
                Ok(id)
            },
        }
    }

    /// Applies the fields present in `update` to the live credential `id` at
    /// time `now`; `updated_at` advances even when no field is present.
    pub fn update_at(&mut self, id: i64, update: UpdateCredential, now: i64) -> (r: Result<(), StoreError>)
        requires
            old(self).wf(),
        ensures
            final(self).wf(),
            !old(self).is_live(id) ==> r == Err::<(), StoreError>(StoreError::NotFound { id })
                && final(self).rows() == old(self).rows() && final(self).clock() == old(self).clock(),
            old(self).is_live(id) && update_violation(update) is Some ==> rejected_with(
                r,
                update_violation(update)->0,
            ) && final(self).rows() == old(self).rows() && final(self).clock() == old(self).clock(),
            old(self).is_live(id) && update_violation(update) is None ==> r is Ok
                && final(self).clock() == stamp(old(self).clock(), now) && final(self).rows()
                == old(self).rows().update(
                id - 1,
                StoredCredential {
                    record: updated_record(old(self).record_of(id), update, final(self).clock()),
                    deleted_at: None,
                },
            ),
    {
        if id < 1 || id > self.rows.len() as i64 || self.rows[(id - 1) as usize].deleted_at.is_some() {
            return Err(StoreError::NotFound { id });
        }
        if too_long_text(&update.machine_id, MACHINE_ID_LIMIT) {
            return Err(StoreError::Rejected { message: String::from_str("value too long for type character varying(128)") });
        }
        let t = self.tick(now);
        let i = (id - 1) as usize;
        let old_rec = self.rows[i].record.duplicate();
        let record = CredentialRecord {
            id: old_rec.id,
            refresh_token: match update.refresh_token { Some(v) => v, None => old_rec.refresh_token },
            access_token: match update.access_token { Some(v) => Some(v), None => old_rec.access_token },
            profile_arn: match update.profile_arn { Some(v) => Some(v), None => old_rec.profile_arn },
            expires_at: match update.expires_at { Some(v) => Some(v), None => old_rec.expires_at },
            auth_method: old_rec.auth_method,
            client_id: old_rec.client_id,
            client_secret: old_rec.client_secret,
            priority: match update.priority { Some(v) => v, None => old_rec.priority },
            region: old_rec.region,
            machine_id: match update.machine_id { Some(v) => Some(v), None => old_rec.machine_id },
            failure_count: match update.failure_count { Some(v) => v, None => old_rec.failure_count },
            disabled: match update.disabled { Some(v) => v, None => old_rec.disabled },
            created_at: old_rec.created_at,
            updated_at: t,
        };
        self.rows.set(i, StoredCredential { record, deleted_at: None });
        Ok(())
    }

    /// Marks the live credential `id` deleted at time `now`. Deleting an id
    /// that is absent or already deleted fails with `NotFound`, every time.
    pub fn delete_at(&mut self, id: i64, now: i64) -> (r: Result<(), StoreError>)
        requires
            old(self).wf(),
        ensures
            final(self).wf(),
            (final(self).rows(), final(self).clock()) == delete_step(
                old(self).rows(),
                old(self).clock(),
                id,
                now,
            ),
            r == (if old(self).is_live(id) {
                Ok::<(), StoreError>(())
            } else {
                Err(StoreError::NotFound { id })
            }),
    {
        if id < 1 || id > self.rows.len() as i64 || self.rows[(id - 1) as usize].deleted_at.is_some() {
            return Err(StoreError::NotFound { id });
        }
        let t = self.tick(now);
        let i = (id - 1) as usize;
        let mut record = self.rows[i].record.duplicate();
        record.updated_at = t;
        self.rows.set(i, StoredCredential { record, deleted_at: Some(t) });
        proof {
            assert(updated_record(old(self).record_of(id), UpdateCredential::empty_spec(), t) == record);
        }
        Ok(())
    }

    /// Creates each credential in turn at time `now`; a refused one is
    /// reported by its position and does not undo the others.
    pub fn batch_create_at(&mut self, creds: Vec<CreateCredential>, now: i64) -> (r: BatchImportResult)
        requires
            old(self).wf(),
            old(self).rows().len() + creds.len() + 1 < i64::MAX,
            creds.len() <= i32::MAX,
        ensures
            final(self).wf(),
            (final(self).rows(), final(self).clock()) == create_all(
                old(self).rows(),
                old(self).clock(),
                creds@,
                now,
            ),
            r.failed == refused_count(creds@),
            r.imported == creds.len() - refused_count(creds@),
            r.failed == r.errors.len(),
            import_errors_match(creds@, r.errors@),
    {
        let ghost all = creds@;
        let ghost n = creds.len();
        let mut creds = creds;
        let mut imported: i32 = 0;
        let mut failed: i32 = 0;
        let mut errors: Vec<BatchImportError> = Vec::new();
        let mut i: usize = 0;
        proof {
            assert(all.take(0) =~= Seq::<CreateCredential>::empty());
        }
        while creds.len() > 0
            invariant
                self.wf(),
                n == all.len(),
                n <= i32::MAX,
                i + creds.len() == n,
                creds@ == all.subrange(i as int, n as int),
                self.rows().len() <= old(self).rows().len() + i,
                old(self).rows().len() + n + 1 < i64::MAX,
                (self.rows(), self.clock()) == create_all(old(self).rows(), old(self).clock(), all.take(i as int), now),
                imported >= 0,
                imported + failed == i,
                failed == refused_count(all.take(i as int)),
                failed == errors.len(),
                forall|k: int|
                    0 <= k < errors.len() ==> (#[trigger] errors@[k]).index < i && create_violation(
                        all[errors@[k].index as int],
                    ) == Some(errors@[k].message@),
                forall|a: int, b: int| 0 <= a < b < errors.len() ==> errors@[a].index < errors@[b].index,
                forall|j: int|
                    0 <= j < i && (#[trigger] create_violation(all[j])) is Some ==> exists|k: int|
                        0 <= k < errors.len() && errors@[k].index == j,
            decreases creds.len(),
        {
            let c = creds.remove(0);
            proof {
                assert(c == all[i as int]);
                assert(all.take(i + 1).drop_last() =~= all.take(i as int));
                assert(all.take(i + 1).last() == c);
            }
            let ghost prev = errors@;
            match self.create_at(c, now) {
                Ok(_) => {
                    imported = imported + 1;
                },
                Err(e) => {
                    let message = e.message();
                    failed = failed + 1;
                    errors.push(BatchImportError { index: i, message });
                },
            }
            proof {
                assert forall|j: int|
                    0 <= j < i + 1 && (#[trigger] create_violation(all[j])) is Some implies exists|k: int|
                        0 <= k < errors.len() && errors@[k].index == j by {
                    if j < i {
                        let k = choose|k: int| 0 <= k < prev.len() && prev[k].index == j;
                        assert(errors@[k] == prev[k]);
                    } else {
                        assert(errors@[errors.len() - 1].index == j);
                    }
                }
            }
            i = i + 1;
        }
        proof {
            assert(all.take(n as int) =~= all);
        }
        BatchImportResult { imported, failed, errors }
    }

    /// Deletes each id in turn at time `now`; an id that fails is reported
    /// and does not undo the others.
    pub fn batch_delete_at(&mut self, ids: Vec<i64>, now: i64) -> (r: BatchDeleteResult)
        requires
            old(self).wf(),
            ids.len() <= i32::MAX,
        ensures
            final(self).wf(),
            (final(self).rows(), final(self).clock()) == delete_all(
                old(self).rows(),
                old(self).clock(),
                ids@,
                now,
            ),
            r.deleted + r.failed == ids.len(),
            r.failed == r.errors.len(),
            r.errors@.map_values(|e: BatchDeleteError| e.id) == delete_failures(
                old(self).rows(),
                old(self).clock(),
                ids@,
                now,
            ),
            forall|k: int|
                0 <= k < r.errors.len() ==> (#[trigger] r.errors@[k]).message@ == crate::record::not_found_text(
                    r.errors@[k].id as int,
                ),
    {
        let mut deleted: i32 = 0;
        let mut failed: i32 = 0;
        let mut errors: Vec<BatchDeleteError> = Vec::new();
        let mut i: usize = 0;
        proof {
            assert(ids@.take(0) =~= Seq::<i64>::empty());
            assert(errors@.map_values(|e: BatchDeleteError| e.id) =~= Seq::<i64>::empty());
        }
        while i < ids.len()
            invariant
                self.wf(),
                i <= ids.len() <= i32::MAX,
                (self.rows(), self.clock()) == delete_all(old(self).rows(), old(self).clock(), ids@.take(i as int), now),
                deleted >= 0,
                deleted + failed == i,
                failed == errors.len(),
                errors@.map_values(|e: BatchDeleteError| e.id) == delete_failures(
                    old(self).rows(),
                    old(self).clock(),
                    ids@.take(i as int),
                    now,
                ),
                forall|k: int|
                    0 <= k < errors.len() ==> (#[trigger] errors@[k]).message@ == crate::record::not_found_text(
                        errors@[k].id as int,
                    ),
            decreases ids.len() - i,
        {
            let id = ids[i];
            proof {
                assert(ids@.take(i + 1).drop_last() =~= ids@.take(i as int));
                assert(ids@.take(i + 1).last() == id);
            }
            let ghost prev = errors@;
            match self.delete_at(id, now) {
                Ok(_) => {
                    deleted = deleted + 1;
                },
                Err(e) => {
                    let message = e.message();
                    failed = failed + 1;
                    errors.push(BatchDeleteError { id, message });
                    proof {
                        assert(errors@.map_values(|e: BatchDeleteError| e.id) =~= prev.map_values(
                            |e: BatchDeleteError| e.id,
                        ).push(id));
                    }
                },
            }
            i = i + 1;
        }
        proof {
            assert(ids@.take(ids.len() as int) =~= ids@);
        }
        BatchDeleteResult { deleted, failed, errors }
    }

    /// Every live record for export, in listing order.
    pub fn export_all(&self) -> (r: Vec<CredentialRecord>)
        requires
            self.wf(),
        ensures
            self.is_listing(r@),
    {
        self.list_all()
    }
}

} // verus!
