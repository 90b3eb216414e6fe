//! Append-only version store: every mutation creates a new version and old
//! versions are never deleted. Each entity's versions form a hash chain:
//! version `n` is numbered `n`, is addressed by the hash of its entity id,
//! number and content, and names the hash of version `n - 1` as its parent.

use vstd::prelude::*;
use crate::versioning::types::{
    EntityType, RecordModel, Timestamp, VersionAuthor, VersionMetadata, VersionQuery,
    VersionedRecord, opt_view, strings_view, utc_now, version_hash_of, AuthorModel,
};

verus! {

/// Errors of the version store.
#[derive(Debug)]
pub enum VersionStoreError {
    LockFailed,
    NotFound(String),
    IntegrityFailed(String),
}

impl VersionStoreError {
    /// The human-readable message of this error.
    pub open spec fn message_spec(&self) -> Seq<char> {
        match self {
            VersionStoreError::LockFailed => "Failed to acquire lock on version store"@,
            VersionStoreError::NotFound(id) => "Entity not found: "@ + id@,
            VersionStoreError::IntegrityFailed(id) => "Integrity check failed for entity: "@ + id@,
        }
    }

    /// Human-readable error message.
    pub fn message(&self) -> (m: String)
        ensures
            m@ == self.message_spec(),
    {
        match self {
            VersionStoreError::LockFailed => "Failed to acquire lock on version store".to_owned(),
            VersionStoreError::NotFound(id) => crate::text::join("Entity not found: ", id.as_str()),
            VersionStoreError::IntegrityFailed(id) => crate::text::join("Integrity check failed for entity: ", id.as_str()),
        }
    }
}

struct EntityHistory {
    entity_id: String,
    versions: Vec<VersionedRecord>,
}

/// Mathematical value of a version store: for each entity, in the order in
/// which entities first appeared, its id and its versions, oldest first.
pub type StoreModel = Seq<(Seq<char>, Seq<RecordModel>)>;

/// Views of a list of records.
pub open spec fn records_view(v: Seq<VersionedRecord>) -> Seq<RecordModel> {
    v.map_values(|r: VersionedRecord| r@)
}

/// Index of the last entry of `entries` with id `id`, or -1.
pub open spec fn position_of(entries: StoreModel, id: Seq<char>) -> int
    decreases entries.len(),
{
    if entries.len() == 0 {
        -1
    } else if entries.last().0 == id {
        entries.len() - 1
    } else {
        position_of(entries.drop_last(), id)
    }
}

/// The versions of entity `id`, oldest first (empty for an unknown entity).
pub open spec fn history_in(entries: StoreModel, id: Seq<char>) -> Seq<RecordModel> {
    let p = position_of(entries, id);
    if p < 0 {
        Seq::empty()
    } else {
        entries[p].1
    }
}

/// No two entries share an entity id.
pub open spec fn ids_distinct(entries: StoreModel) -> bool {
    forall|i: int, j: int| 0 <= i < j < entries.len() ==> entries[i].0 != entries[j].0
}

/// Version `i` of the history `h` of entity `id` is where the hash chain
/// puts it: numbered `i + 1`, belonging to the entity, addressed by its
/// content hash and naming its predecessor's hash as parent (the first names
/// none).
pub open spec fn chain_link_ok(id: Seq<char>, h: Seq<RecordModel>, i: int) -> bool {
    &&& h[i].entity_id == id
    &&& h[i].version == i + 1
    &&& h[i].version_hash == version_hash_of(id, h[i].version, h[i].content_encrypted)
    &&& (i == 0 ==> h[i].parent_hash is None)
    &&& (i > 0 ==> h[i].parent_hash == Some(h[i - 1].version_hash))
}

/// The history of entity `id` is a valid hash chain.
pub open spec fn chain_valid(id: Seq<char>, h: Seq<RecordModel>) -> bool {
    forall|i: int| 0 <= i < h.len() ==> #[trigger] chain_link_ok(id, h, i)
}

/// What `verify_chain` checks of version `i`: its stored hash matches its
/// recomputed hash, and its parent is the previous version's hash (none for
/// the first).
pub open spec fn link_verifies(h: Seq<RecordModel>, i: int) -> bool {
    &&& h[i].version_hash == version_hash_of(h[i].entity_id, h[i].version, h[i].content_encrypted)
    &&& (i == 0 ==> h[i].parent_hash is None)
    &&& (i > 0 ==> h[i].parent_hash == Some(h[i - 1].version_hash))
}

/// What `verify_chain` checks of a history.
pub open spec fn chain_verifies(h: Seq<RecordModel>) -> bool {
    forall|i: int| 0 <= i < h.len() ==> #[trigger] link_verifies(h, i)
}

/// The store's invariant: entity ids are distinct and every history is a
/// valid hash chain.
pub open spec fn store_wf(entries: StoreModel) -> bool {
    &&& ids_distinct(entries)
    &&& forall|k: int| 0 <= k < entries.len() ==> chain_valid(#[trigger] entries[k].0, entries[k].1)
}

/// The record that appending content for entity `id` creates at time `at`.
pub open spec fn next_record(
    entries: StoreModel,
    id: Seq<char>,
    entity_type: EntityType,
    content: Seq<u8>,
    nonce: Seq<u8>,
    author: AuthorModel,
    change_summary: Option<Seq<char>>,
    tags: Seq<Seq<char>>,
    at: Timestamp,
) -> RecordModel {
    let h = history_in(entries, id);
    let version = (h.len() + 1) as u64;
    RecordModel {
        version_hash: version_hash_of(id, version, content),
        entity_id: id,
        entity_type,
        version,
        author,
        created_at: at,
        content_encrypted: content,
        nonce,
        change_summary,
        content_size_bytes: 0,
        tags,
        parent_hash: if h.len() == 0 {
            None
        } else {
            Some(h.last().version_hash)
        },
    }
}

/// `entries` with `rec` appended to the history of `id` (a new entry at the
/// end for an entity not seen before).
pub open spec fn appended(entries: StoreModel, id: Seq<char>, rec: RecordModel) -> StoreModel {
    let p = position_of(entries, id);
    if p < 0 {
        entries.push((id, seq![rec]))
    } else {
        entries.update(p, (id, entries[p].1.push(rec)))
    }
}

/// `after` is `before` with a new version of `id` appended, created at some
/// instant (the clock's, which nothing here pins down).
pub open spec fn appended_at_some_time(
    before: StoreModel,
    after: StoreModel,
    id: Seq<char>,
    entity_type: EntityType,
    content: Seq<u8>,
    nonce: Seq<u8>,
    author: AuthorModel,
    change_summary: Option<Seq<char>>,
    tags: Seq<Seq<char>>,
) -> bool {
    exists|at: Timestamp|
        #![trigger next_record(before, id, entity_type, content, nonce, author, change_summary, tags, at)]
        after == appended(before, id, next_record(before, id, entity_type, content, nonce, author, change_summary, tags, at))
}

/// Whether a record passes the `since`/`until` bounds of a query (both
/// inclusive).
pub open spec fn in_window(r: RecordModel, since: Option<Timestamp>, until: Option<Timestamp>) -> bool {
    &&& since matches Some(s) ==> !r.created_at.earlier(s)
    &&& until matches Some(u) ==> !u.earlier(r.created_at)
}

/// The records of `h` within the time window, in order.
pub open spec fn window_filter(h: Seq<RecordModel>, since: Option<Timestamp>, until: Option<Timestamp>) -> Seq<RecordModel>
    decreases h.len(),
{
    if h.len() == 0 {
        h
    } else {
        let f = window_filter(h.drop_last(), since, until);
        if in_window(h.last(), since, until) {
            f.push(h.last())
        } else {
            f
        }
    }
}

/// What a query returns for a history: the latest version alone, or the
/// versions within the time window, cut to the limit.
pub open spec fn query_result(
    h: Seq<RecordModel>,
    since: Option<Timestamp>,
    until: Option<Timestamp>,
    limit: Option<usize>,
    latest_only: bool,
) -> Seq<RecordModel> {
    if latest_only {
        if h.len() == 0 {
            Seq::empty()
        } else {
            seq![h.last()]
        }
    } else {
        let f = window_filter(h, since, until);
        match limit {
            Some(l) => if l < f.len() {
                f.take(l as int)
            } else {
                f
            },
            None => f,
        }
    }
}

/// The time window keeps exactly the records of the history that fall within
/// it: every kept record is in the history and in the window, and every
/// record of the history in the window is kept.
pub proof fn lemma_window_members(h: Seq<RecordModel>, since: Option<Timestamp>, until: Option<Timestamp>)
    ensures
        forall|i: int| 0 <= i < window_filter(h, since, until).len() ==> in_window(
            #[trigger] window_filter(h, since, until)[i],
            since,
            until,
        ) && h.contains(window_filter(h, since, until)[i]),
        forall|j: int| 0 <= j < h.len() && in_window(#[trigger] h[j], since, until) ==> window_filter(
            h,
            since,
            until,
        ).contains(h[j]),
    decreases h.len(),
{
    if h.len() > 0 {
        let d = h.drop_last();
        lemma_window_members(d, since, until);
        let f0 = window_filter(d, since, until);
        let f = window_filter(h, since, until);
        assert forall|i: int| 0 <= i < f.len() implies in_window(#[trigger] f[i], since, until) && h.contains(f[i]) by {
            if i < f0.len() {
                assert(f[i] == f0[i]);
                let k = choose|k: int| 0 <= k < d.len() && d[k] == f0[i];
                assert(h[k] == d[k]);
            } else {
                assert(f[i] == h.last());
                assert(h[h.len() - 1] == h.last());
            }
        }
        assert forall|j: int| 0 <= j < h.len() && in_window(#[trigger] h[j], since, until) implies f.contains(h[j]) by {
            if j < d.len() {
                assert(h[j] == d[j]);
                let k = choose|k: int| 0 <= k < f0.len() && f0[k] == d[j];
                assert(f[k] == f0[k]);
            } else {
                assert(f[f.len() - 1] == h.last());
            }
        }
    }
}

/// What a query returns, over any history: a latest-only query gives the
/// last version alone (nothing for an unknown entity); any other query gives
/// the versions within its time window, and a limit keeps the first of them,
/// oldest first. With no time bounds, a limited query gives the first
/// versions of the history.
pub proof fn lemma_query_semantics(
    h: Seq<RecordModel>,
    since: Option<Timestamp>,
    until: Option<Timestamp>,
    limit: Option<usize>,
    latest_only: bool,
)
    ensures
        latest_only && h.len() == 0 ==> query_result(h, since, until, limit, latest_only).len() == 0,
        latest_only && h.len() > 0 ==> query_result(h, since, until, limit, latest_only) == seq![h.last()],
        !latest_only ==> ({
            let full = query_result(h, since, until, None, false);
            let r = query_result(h, since, until, limit, false);
            &&& forall|i: int| 0 <= i < full.len() ==> in_window(#[trigger] full[i], since, until)
            &&& forall|j: int| 0 <= j < h.len() && in_window(#[trigger] h[j], since, until) ==> full.contains(h[j])
            &&& r.len() == match limit {
                Some(l) => vstd::math::min(l as int, full.len() as int),
                None => full.len() as int,
            }
            &&& forall|i: int| 0 <= i < r.len() ==> #[trigger] r[i] == full[i]
        }),
        !latest_only && since is None && until is None ==> ({
            let r = query_result(h, since, until, limit, false);
            &&& r.len() == match limit {
                Some(l) => vstd::math::min(l as int, h.len() as int),
                None => h.len() as int,
            }
            &&& forall|i: int| 0 <= i < r.len() ==> #[trigger] r[i] == h[i]
        }),
{
    lemma_window_members(h, since, until);
    lemma_window_all(h);
}

/// With no time bounds, the window keeps every record.
pub proof fn lemma_window_all(h: Seq<RecordModel>)
    ensures
        window_filter(h, None, None) == h,
    decreases h.len(),
{
    if h.len() > 0 {
        lemma_window_all(h.drop_last());
        assert(h.drop_last().push(h.last()) =~= h);
    }
}

/// Total number of versions over all entities.
pub open spec fn total_len(entries: StoreModel) -> int
    decreases entries.len(),
{
    if entries.len() == 0 {
        0
    } else {
        total_len(entries.drop_last()) + entries.last().1.len()
    }
}

/// Whether the record at `(k, i)` is the first, in store order, whose hash
/// is `hash`.
pub open spec fn first_with_hash(entries: StoreModel, hash: Seq<char>, k: int, i: int) -> bool {
    &&& 0 <= k < entries.len()
    &&& 0 <= i < entries[k].1.len()
    &&& entries[k].1[i].version_hash == hash
    &&& forall|k2: int, i2: int|
        0 <= k2 < entries.len() && 0 <= i2 < entries[k2].1.len() && (k2 < k || (k2 == k && i2 < i))
            ==> (#[trigger] entries[k2].1[i2]).version_hash != hash
}

pub proof fn lemma_position_of(entries: StoreModel, id: Seq<char>)
    ensures
        -1 <= position_of(entries, id) < entries.len(),
        position_of(entries, id) >= 0 ==> entries[position_of(entries, id)].0 == id,
        forall|j: int| position_of(entries, id) < j < entries.len() ==> #[trigger] entries[j].0 != id,
    decreases entries.len(),
{
    if entries.len() > 0 && entries.last().0 != id {
        let d = entries.drop_last();
        lemma_position_of(d, id);
        assert forall|j: int| position_of(entries, id) < j < entries.len() implies #[trigger] entries[j].0 != id by {
            if j < entries.len() - 1 {
                assert(entries[j] == d[j]);
            }
        }
        if position_of(entries, id) >= 0 {
            assert(entries[position_of(entries, id)] == d[position_of(d, id)]);
        }
    }
}

proof fn lemma_position_same_ids(a: StoreModel, b: StoreModel, id: Seq<char>)
    requires
        a.len() == b.len(),
        forall|j: int| 0 <= j < a.len() ==> #[trigger] a[j].0 == b[j].0,
    ensures
        position_of(a, id) == position_of(b, id),
    decreases a.len(),
{
    if a.len() > 0 {
        assert(a.last().0 == b.last().0);
        lemma_position_same_ids(a.drop_last(), b.drop_last(), id);
    }
}

/// Appending changes the history of the appended entity alone, by one record
/// at its end.
pub proof fn lemma_appended_history(entries: StoreModel, id: Seq<char>, rec: RecordModel, x: Seq<char>)
    ensures
        history_in(appended(entries, id, rec), x) == if x == id {
            history_in(entries, id).push(rec)
        } else {
            history_in(entries, x)
        },
{
    let p = position_of(entries, id);
    lemma_position_of(entries, id);
    let e2 = appended(entries, id, rec);
    if p < 0 {
        assert(e2.drop_last() =~= entries);
        assert(e2.last().0 == id);
        if x != id {
            assert(position_of(e2, x) == position_of(entries, x));
            lemma_position_of(entries, x);
            if position_of(entries, x) >= 0 {
                assert(e2[position_of(entries, x)] == entries[position_of(entries, x)]);
            }
        } else {
            assert(position_of(e2, x) == entries.len());
            assert(seq![rec] =~= Seq::<RecordModel>::empty().push(rec));
            assert(history_in(e2, x) == seq![rec]);
        }
    } else {
        assert forall|j: int| 0 <= j < entries.len() implies #[trigger] entries[j].0 == e2[j].0 by {
            if j == p {
                assert(e2[j].0 == id);
            }
        }
        lemma_position_same_ids(entries, e2, x);
        lemma_position_of(entries, x);
        let q = position_of(entries, x);
        if x != id && q >= 0 {
            assert(q != p);
            assert(e2[q] == entries[q]);
        }
    }
}

proof fn lemma_chain_push(id: Seq<char>, h: Seq<RecordModel>, rec: RecordModel)
    requires
        chain_valid(id, h),
        rec.entity_id == id,
        rec.version == h.len() + 1,
        rec.version_hash == version_hash_of(id, rec.version, rec.content_encrypted),
        h.len() == 0 ==> rec.parent_hash is None,
        h.len() > 0 ==> rec.parent_hash == Some(h.last().version_hash),
    ensures
        chain_valid(id, h.push(rec)),
{
    let h2 = h.push(rec);
    assert forall|i: int| 0 <= i < h2.len() implies #[trigger] chain_link_ok(id, h2, i) by {
        if i < h.len() {
            assert(chain_link_ok(id, h, i));
            assert(h2[i] == h[i]);
            if i > 0 {
                assert(h2[i - 1] == h[i - 1]);
            }
        } else {
            assert(h2[i] == rec);
            if i > 0 {
                assert(h2[i - 1] == h.last());
            }
        }
    }
}

proof fn lemma_appended_wf(entries: StoreModel, id: Seq<char>, rec: RecordModel)
    requires
        store_wf(entries),
        rec.entity_id == id,
        rec.version == history_in(entries, id).len() + 1,
        rec.version_hash == version_hash_of(id, rec.version, rec.content_encrypted),
        history_in(entries, id).len() == 0 ==> rec.parent_hash is None,
        history_in(entries, id).len() > 0 ==> rec.parent_hash == Some(history_in(entries, id).last().version_hash),
    ensures
        store_wf(appended(entries, id, rec)),
{
    let p = position_of(entries, id);
    lemma_position_of(entries, id);
    let e2 = appended(entries, id, rec);
    if p < 0 {
        lemma_chain_push(id, Seq::empty(), rec);
        assert(Seq::<RecordModel>::empty().push(rec) =~= seq![rec]);
        assert forall|k: int| 0 <= k < e2.len() implies chain_valid(#[trigger] e2[k].0, e2[k].1) by {
            if k < entries.len() {
                assert(e2[k] == entries[k]);
            }
        }
        assert forall|i: int, j: int| 0 <= i < j < e2.len() implies e2[i].0 != e2[j].0 by {
            if j == entries.len() {
                assert(e2[i] == entries[i]);
            } else {
                assert(e2[i] == entries[i]);
                assert(e2[j] == entries[j]);
            }
        }
    } else {
        lemma_chain_push(id, entries[p].1, rec);
        assert forall|k: int| 0 <= k < e2.len() implies chain_valid(#[trigger] e2[k].0, e2[k].1) by {
            if k != p {
                assert(e2[k] == entries[k]);
            }
        }
        assert forall|i: int, j: int| 0 <= i < j < e2.len() implies e2[i].0 != e2[j].0 by {
            assert(e2[i].0 == entries[i].0);
            assert(e2[j].0 == entries[j].0);
        }
    }
}

/// Every history of a store built by `new` and `append` passes
/// `verify_chain`: a valid hash chain verifies.
pub proof fn lemma_appended_chains_verify(entries: StoreModel, id: Seq<char>)
    requires
        store_wf(entries),
    ensures
        chain_verifies(history_in(entries, id)),
{
    lemma_position_of(entries, id);
    let p = position_of(entries, id);
    if p >= 0 {
        let h = entries[p].1;
        assert(chain_valid(entries[p].0, h));
        assert forall|i: int| 0 <= i < h.len() implies #[trigger] link_verifies(h, i) by {
            assert(chain_link_ok(id, h, i));
        }
    }
}

/// In a well-formed store every history is numbered from 1 without gaps,
/// each version belongs to its entity, is addressed by its content hash and
/// names the previous version as its parent.
pub proof fn lemma_history_is_chain(entries: StoreModel, id: Seq<char>)
    requires
        store_wf(entries),
    ensures
        chain_valid(id, history_in(entries, id)),
{
    lemma_position_of(entries, id);
    let p = position_of(entries, id);
    if p >= 0 {
        assert(chain_valid(entries[p].0, entries[p].1));
    }
}

/// After an append, the latest version of the entity is the appended record:
/// it is numbered one past the earlier versions and names the previous
/// latest version as its parent (for a history whose next number fits in a
/// `u64`, which `append` requires).
pub proof fn lemma_latest_after_append(
    entries: StoreModel,
    id: Seq<char>,
    entity_type: EntityType,
    content: Seq<u8>,
    nonce: Seq<u8>,
    author: AuthorModel,
    change_summary: Option<Seq<char>>,
    tags: Seq<Seq<char>>,
    at: Timestamp,
)
    requires
        history_in(entries, id).len() < u64::MAX,
    ensures
        ({
            let before = history_in(entries, id);
            let rec = next_record(entries, id, entity_type, content, nonce, author, change_summary, tags, at);
            let after = history_in(appended(entries, id, rec), id);
            &&& after.len() == before.len() + 1
            &&& after.last() == rec
            &&& rec.version == before.len() + 1
            &&& rec.content_encrypted == content
            &&& (before.len() > 0 ==> rec.parent_hash == Some(before.last().version_hash))
        }),
{
    let rec = next_record(entries, id, entity_type, content, nonce, author, change_summary, tags, at);
    lemma_appended_history(entries, id, rec, id);
}

/// A query never returns more versions than its limit, and a latest-only
/// query returns at most one.
pub proof fn lemma_query_bounds(
    h: Seq<RecordModel>,
    since: Option<Timestamp>,
    until: Option<Timestamp>,
    limit: Option<usize>,
    latest_only: bool,
)
    ensures
        latest_only ==> query_result(h, since, until, limit, latest_only).len() <= 1,
        !latest_only && limit is Some ==> query_result(h, since, until, limit, latest_only).len() <= limit->0,
        query_result(h, since, until, limit, latest_only).len() <= h.len(),
{
    lemma_window_len(h, since, until);
}

proof fn lemma_window_len(h: Seq<RecordModel>, since: Option<Timestamp>, until: Option<Timestamp>)
    ensures
        window_filter(h, since, until).len() <= h.len(),
    decreases h.len(),
{
    if h.len() > 0 {
        lemma_window_len(h.drop_last(), since, until);
    }
}

/// In-memory append-only version store.
pub struct VersionStore {
    entities: Vec<EntityHistory>,
}

impl View for VersionStore {
    type V = StoreModel;

    closed spec fn view(&self) -> StoreModel {
        model_of(self.entities@)
    }
}

/// Mathematical value of a list of entity histories.
spec fn model_of(entities: Seq<EntityHistory>) -> StoreModel {
    entities.map_values(|e: EntityHistory| (e.entity_id@, records_view(e.versions@)))
}

impl VersionStore {
    /// The store's invariant (see `store_wf`), which every store keeps.
    #[verifier::type_invariant]
    pub open spec fn wf(&self) -> bool {
        store_wf(self@)
    }

    /// The versions of entity `id`, oldest first.
    pub open spec fn history(&self, id: Seq<char>) -> Seq<RecordModel> {
        history_in(self@, id)
    }

    /// An empty store.
    pub fn new() -> (s: Self)
        ensures
            s@ == Seq::<(Seq<char>, Seq<RecordModel>)>::empty(),
            s.wf(),
    {
        let s = VersionStore { entities: Vec::new() };
        proof {
            assert(s@ =~= Seq::<(Seq<char>, Seq<RecordModel>)>::empty());
        }
        s
    }

    /// Index of the entity `id` in the store.
    fn find(&self, id: &str) -> (r: Option<usize>)
        ensures
            match r {
                Some(k) => k == position_of(self@, id@),
                None => position_of(self@, id@) < 0,
            },
    {
        let mut k: usize = self.entities.len();
        proof {
            assert(self@.take(k as int) =~= self@);
        }
        while k > 0
            invariant
                k <= self.entities.len(),
                position_of(self@, id@) == position_of(self@.take(k as int), id@),
            decreases k,
        {
            let e = &self.entities[k - 1];
            proof {
                assert(self@.take(k as int).last() == self@[k - 1]);
                assert(self@.take(k as int).drop_last() =~= self@.take(k - 1));
            }
            if crate::text::str_eq(e.entity_id.as_str(), id) {
                return Some(k - 1);
            }
            k -= 1;
        }
        None
    }

    /// Number of versions of entity `id`.
    pub fn history_len(&self, id: &str) -> (n: usize)
        ensures
            n == self.history(id@).len(),
    {
        proof {
            lemma_position_of(self@, id@);
        }
        match self.find(id) {
            Some(k) => {
                proof {
                    assert(self@[k as int].1 == records_view(self.entities@[k as int].versions@));
                }
                self.entities[k].versions.len()
            },
            None => 0,
        }
    }

    /// Appends a new version of `entity_id`, created now, and returns its
    /// version hash.
    pub fn append(
        &mut self,
        entity_id: &str,
        entity_type: EntityType,
        content_encrypted: Vec<u8>,
        nonce: Vec<u8>,
        author: VersionAuthor,
        change_summary: Option<String>,
        tags: Vec<String>,
    ) -> (r: Result<String, VersionStoreError>)
        requires
            old(self).history(entity_id@).len() < u64::MAX,
        ensures
            final(self).wf(),
            r is Ok,
            appended_at_some_time(old(self)@, final(self)@, entity_id@, entity_type, content_encrypted@, nonce@,
                author@, opt_view(change_summary), strings_view(tags@)),
            r matches Ok(hash) ==> hash@ == version_hash_of(
                entity_id@,
                (old(self).history(entity_id@).len() + 1) as u64,
                content_encrypted@,
            ),
    {
        proof {
            use_type_invariant(&*self);
        }
        let now = utc_now();
        self.append_at(entity_id, entity_type, content_encrypted, nonce, author, change_summary, tags, now)
    }

    /// Appends a new version of `entity_id` created at `created_at` and
    /// returns its version hash.
    pub fn append_at(
        &mut self,
        entity_id: &str,
        entity_type: EntityType,
        content_encrypted: Vec<u8>,
        nonce: Vec<u8>,
        author: VersionAuthor,
        change_summary: Option<String>,
        tags: Vec<String>,
        created_at: Timestamp,
    ) -> (r: Result<String, VersionStoreError>)
        requires
            old(self).history(entity_id@).len() < u64::MAX,
        ensures
            final(self).wf(),
            ({
                let rec = next_record(old(self)@, entity_id@, entity_type, content_encrypted@, nonce@,
                    author@, opt_view(change_summary), strings_view(tags@), created_at);
                &&& final(self)@ == appended(old(self)@, entity_id@, rec)
                &&& r matches Ok(hash) && hash@ == rec.version_hash
            }),
    {
        proof {
            use_type_invariant(&*self);
        }
        let ghost old_entries = self@;
        let ghost rec_model = next_record(self@, entity_id@, entity_type, content_encrypted@, nonce@,
            author@, opt_view(change_summary), strings_view(tags@), created_at);
        proof {
            lemma_position_of(self@, entity_id@);
        }
        let pos = self.find(entity_id);
        let (version, parent_hash): (u64, Option<String>) = match pos {
            Some(k) => {
                let versions = &self.entities[k].versions;
                let n = versions.len();
                proof {
                    assert(self@[k as int].1 == records_view(versions@));
                    assert(n == self.history(entity_id@).len());
                }
                if n == 0 {
                    (1u64, None)
                } else {
                    (n as u64 + 1, Some(versions[n - 1].version_hash.clone()))
                }
            },
            None => (1u64, None),
        };
        let version_hash = VersionedRecord::compute_hash(entity_id, version, content_encrypted.as_slice());
        let record = VersionedRecord {
            version_hash: version_hash.clone(),
            entity_id: entity_id.to_owned(),
            entity_type,
            version,
            author,
            created_at,
            content_encrypted,
            nonce,
            metadata: VersionMetadata { change_summary, content_size_bytes: 0, tags },
            parent_hash,
        };
        proof {
            assert(record@ == rec_model);
        }
        // The histories are updated outside the store, which stays valid
        // (empty) meanwhile, and put back once they are valid again.
        let mut entities: Vec<EntityHistory> = Vec::new();
        std::mem::swap(&mut entities, &mut self.entities);
        proof {
            assert(model_of(entities@) == old_entries);
        }
        match pos {
            Some(k) => {
                let mut e = entities.remove(k);
                e.versions.push(record);
                entities.insert(k, e);
                proof {
                    assert(model_of(entities@) =~= appended(old_entries, entity_id@, rec_model)) by {
                        assert(records_view(e.versions@) =~= old_entries[k as int].1.push(rec_model));
                    }
                }
            },
            None => {
                let mut versions: Vec<VersionedRecord> = Vec::new();
                versions.push(record);
                entities.push(EntityHistory { entity_id: entity_id.to_owned(), versions });
                proof {
                    assert(records_view(versions@) =~= seq![rec_model]);
                    assert(model_of(entities@) =~= appended(old_entries, entity_id@, rec_model));
                }
            },
        }
        proof {
            lemma_appended_wf(old_entries, entity_id@, rec_model);
        }
        self.entities = entities;
        Ok(version_hash)
    }

    /// The latest version of an entity, if it has any.
    pub fn get_latest(&self, entity_id: &str) -> (r: Result<Option<VersionedRecord>, VersionStoreError>)
        ensures
            r matches Ok(o) && match o {
                Some(rec) => self.history(entity_id@).len() > 0 && rec@ == self.history(entity_id@).last(),
                None => self.history(entity_id@).len() == 0,
            },
    {
        proof {
            lemma_position_of(self@, entity_id@);
        }
        match self.find(entity_id) {
            Some(k) => {
                let versions = &self.entities[k].versions;
                proof {
                    assert(self@[k as int].1 == records_view(versions@));
                }
                if versions.len() == 0 {
                    Ok(None)
                } else {
                    Ok(Some(versions[versions.len() - 1].duplicate()))
                }
            },
            None => Ok(None),
        }
    }

    /// The version with hash `version_hash`: the first such in store order.
    pub fn get_by_hash(&self, version_hash: &str) -> (r: Result<Option<VersionedRecord>, VersionStoreError>)
        ensures
            r matches Ok(o) && match o {
                Some(rec) => exists|k: int, i: int|
                    first_with_hash(self@, version_hash@, k, i) && #[trigger] self@[k].1[i] == rec@,
                None => forall|k: int, i: int|
                    0 <= k < self@.len() && 0 <= i < self@[k].1.len()
                        ==> (#[trigger] self@[k].1[i]).version_hash != version_hash@,
            },
    {
        let mut k: usize = 0;
        while k < self.entities.len()
            invariant
                k <= self.entities.len(),
                forall|k2: int, i2: int|
                    0 <= k2 < k && 0 <= i2 < self@[k2].1.len()
                        ==> (#[trigger] self@[k2].1[i2]).version_hash != version_hash@,
            decreases self.entities.len() - k,
        {
            let versions = &self.entities[k].versions;
            proof {
                assert(self@[k as int].1 == records_view(versions@));
            }
            let mut i: usize = 0;
            while i < versions.len()
                invariant
                    k < self.entities.len(),
                    versions == self.entities[k as int].versions,
                    self@[k as int].1 == records_view(versions@),
                    i <= versions.len(),
                    forall|k2: int, i2: int|
                        0 <= k2 < k && 0 <= i2 < self@[k2].1.len()
                            ==> (#[trigger] self@[k2].1[i2]).version_hash != version_hash@,
                    forall|i2: int| 0 <= i2 < i ==> (#[trigger] self@[k as int].1[i2]).version_hash != version_hash@,
                decreases versions.len() - i,
            {
                if crate::text::str_eq(versions[i].version_hash.as_str(), version_hash) {
                    let found = versions[i].duplicate();
                    proof {
                        assert(self@[k as int].1[i as int] == versions@[i as int]@);
                        assert(first_with_hash(self@, version_hash@, k as int, i as int));
                    }
                    return Ok(Some(found));
                }
                i += 1;
            }
            k += 1;
        }
        Ok(None)
    }

    /// The version history of `query.entity_id` that the query selects.
    pub fn query(&self, query: &VersionQuery) -> (r: Result<Vec<VersionedRecord>, VersionStoreError>)
        ensures
            r matches Ok(v) && records_view(v@) == query_result(
                self.history(query.entity_id@),
                query.since,
                query.until,
                query.limit,
                query.latest_only,
            ),
    {
        proof {
            lemma_position_of(self@, query.entity_id@);
        }
        let k = match self.find(query.entity_id.as_str()) {
            Some(k) => k,
            None => {
                let empty: Vec<VersionedRecord> = Vec::new();
                proof {
                    assert(records_view(empty@) =~= Seq::<RecordModel>::empty());
                    assert(window_filter(Seq::<RecordModel>::empty(), query.since, query.until) =~= Seq::<RecordModel>::empty());
                }
                return Ok(empty);
            },
        };
        let versions = &self.entities[k].versions;
        let ghost h = self.history(query.entity_id@);
        proof {
            assert(h == records_view(versions@));
        }
        if query.latest_only {
            let mut out: Vec<VersionedRecord> = Vec::new();
            if versions.len() > 0 {
                out.push(versions[versions.len() - 1].duplicate());
            }
            proof {
                if h.len() > 0 {
                    assert(records_view(out@) =~= seq![h.last()]);
                } else {
                    assert(records_view(out@) =~= Seq::<RecordModel>::empty());
                }
            }
            return Ok(out);
        }
        let mut results: Vec<VersionedRecord> = Vec::new();
        let mut i: usize = 0;
        while i < versions.len()
            invariant
                i <= versions.len(),
                h == records_view(versions@),
                records_view(results@) == window_filter(h.take(i as int), query.since, query.until),
            decreases versions.len() - i,
        {
            let rec = &versions[i];
            let after_since = match query.since {
                Some(since) => !rec.created_at.is_before(&since),
                None => true,
            };
            let before_until = match query.until {
                Some(until) => !until.is_before(&rec.created_at),
                None => true,
            };
            proof {
                assert(h.take(i + 1).drop_last() =~= h.take(i as int));
                assert(h.take(i + 1).last() == rec@);
            }
            if after_since && before_until {
                results.push(rec.duplicate());
                proof {
                    assert(records_view(results@) =~= window_filter(h.take(i as int), query.since, query.until).push(rec@));
                }
            }
            i += 1;
        }
        proof {
            assert(h.take(i as int) =~= h);
        }
        match query.limit {
            Some(limit) => {
                results.truncate(limit);
                proof {
                    let f = window_filter(h, query.since, query.until);
                    if limit < f.len() {
                        assert(records_view(results@) =~= f.take(limit as int));
                    }
                }
            },
            None => {},
        }
        Ok(results)
    }

    /// Total number of versions across all entities.
    pub fn total_versions(&self) -> (r: Result<usize, VersionStoreError>)
        requires
            total_len(self@) <= usize::MAX,
        ensures
            r matches Ok(n) && n == total_len(self@),
    {
        let mut sum: usize = 0;
        let mut k: usize = 0;
        while k < self.entities.len()
            invariant
                k <= self.entities.len(),
                total_len(self@) <= usize::MAX,
                sum == total_len(self@.take(k as int)),
            decreases self.entities.len() - k,
        {
            proof {
                assert(self@.take(k + 1).drop_last() =~= self@.take(k as int));
                lemma_total_len_prefix(self@, k + 1);
            }
            sum = sum + self.entities[k].versions.len();
            k += 1;
        }
        proof {
            assert(self@.take(k as int) =~= self@);
        }
        Ok(sum)
    }

    /// Verifies the hash chain of one entity: every version's hash matches
    /// its content and every parent link names the previous version. An
    /// unknown entity has an empty chain, which verifies.
    pub fn verify_chain(&self, entity_id: &str) -> (r: Result<bool, VersionStoreError>)
        ensures
            r == Ok::<bool, VersionStoreError>(chain_verifies(self.history(entity_id@))),
            r == Ok::<bool, VersionStoreError>(true),
    {
        proof {
            use_type_invariant(self);
            lemma_position_of(self@, entity_id@);
            lemma_appended_chains_verify(self@, entity_id@);
        }
        let k = match self.find(entity_id) {
            Some(k) => k,
            None => return Ok(true),
        };
        let versions = &self.entities[k].versions;
        let ghost h = self.history(entity_id@);
        proof {
            assert(h == records_view(versions@));
        }
        let mut i: usize = 0;
        while i < versions.len()
            invariant
                i <= versions.len(),
                h == records_view(versions@),
                h == self.history(entity_id@),
                chain_verifies(h),
                forall|j: int| 0 <= j < i ==> #[trigger] link_verifies(h, j),
            decreases versions.len() - i,
        {
            let record = &versions[i];
            proof {
                assert(h[i as int] == record@);
            }
            if !record.verify_integrity() {
                proof {
                    assert(!link_verifies(h, i as int));
                    assert(!chain_verifies(h));
                }
                return Ok(false);
            }
            if i == 0 {
                if record.parent_hash.is_some() {
                    proof {
                        assert(!link_verifies(h, i as int));
                        assert(!chain_verifies(h));
                    }
                    return Ok(false);
                }
            } else {
                let ok = match &record.parent_hash {
                    Some(parent) => *parent == versions[i - 1].version_hash,
                    None => false,
                };
                proof {
                    assert(h[i - 1] == versions@[i - 1]@);
                }
                if !ok {
                    proof {
                        assert(!link_verifies(h, i as int));
                        assert(!chain_verifies(h));
                    }
                    return Ok(false);
                }
            }
            proof {
                assert(link_verifies(h, i as int));
            }
            i += 1;
        }
        Ok(true)
    }
}

proof fn lemma_total_len_prefix(entries: StoreModel, k: int)
    requires
        0 < k <= entries.len(),
    ensures
        total_len(entries.take(k)) <= total_len(entries),
        total_len(entries.take(k)) == total_len(entries.take(k - 1)) + entries[k - 1].1.len(),
    decreases entries.len(),
{
    assert(entries.take(k).drop_last() =~= entries.take(k - 1));
    if k < entries.len() {
        assert(entries.drop_last().take(k) =~= entries.take(k));
        lemma_total_len_prefix(entries.drop_last(), k);
    } else {
        assert(entries.take(k) =~= entries);
    }
}

} // verus!
