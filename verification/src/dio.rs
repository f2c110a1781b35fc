//! The DIO: a transactional view over one chain. It stages inserts, updates
//! and tombstones, caches loads, enforces row-level locks, and commits the
//! whole stage as a single ordered batch of events.
use vstd::prelude::*;
use crate::chain::Chain;
use crate::chain::Scope;
use crate::chain::Transaction;
use crate::errors::CommitError;
use crate::errors::LintError;
use crate::errors::LoadError;
use crate::event::opt_bytes_view;
use crate::event::EventData;
use crate::event::EventLeaf;
use crate::event::MessageFormat;
use crate::header::PrimaryKey;
use crate::kmap::KMap;
use crate::kmap::KSet;
use crate::kmap::PairMap;
use crate::meta::CoreMetadata;
use crate::meta::CoreMetadataV;
use crate::meta::copy_auth;
use crate::meta::Metadata;
use crate::meta::MetaAuthorization;
use crate::meta::MetaAuthorizationV;
use crate::meta::MetaCollection;
use crate::meta::MetaTree;
use crate::session::Session;

verus! {

/// A row payload type: encodable to bytes and decodable back, with the
/// round trip proved. Contracts speak of payloads through their views.
pub trait RowCodec where Self: View + Sized {
    /// The byte image of a payload value.
    spec fn spec_encode(v: Self::V) -> Seq<u8>;

    /// The payload value a byte image decodes to, if any.
    spec fn spec_decode(b: Seq<u8>) -> Option<Self::V>;

    /// True when a payload value is small enough to exist at runtime; the
    /// view of every runtime value is.
    spec fn spec_valid(v: Self::V) -> bool;

    fn encode(&self) -> (r: Vec<u8>)
        ensures
            r@ == Self::spec_encode(self@),
            Self::spec_valid(self@),
    ;

    fn decode(b: &Vec<u8>) -> (r: Option<Self>)
        ensures
            match r {
                Some(d) => Self::spec_decode(b@) == Some(d@),
                None => Self::spec_decode(b@) is None,
            },
    ;

    /// Decoding an encoded payload yields the payload.
    proof fn lemma_round_trip(v: Self::V)
        requires
            Self::spec_valid(v),
        ensures
            Self::spec_decode(Self::spec_encode(v)) == Some(v),
    ;
}

/// A logical record as a caller sees it.
pub struct Row<D> {
    pub key: PrimaryKey,
    pub tree: Option<MetaTree>,
    pub data: D,
    pub auth: MetaAuthorization,
    pub collections: Vec<MetaCollection>,
    pub format: MessageFormat,
    pub created: u64,
    pub updated: u64,
}

/// A row with its payload serialized, as the stage holds it.
pub struct RowData {
    pub key: PrimaryKey,
    pub tree: Option<MetaTree>,
    pub data_bytes: Vec<u8>,
    pub auth: MetaAuthorization,
    pub format: MessageFormat,
    pub created: u64,
    pub updated: u64,
}

/// The view of a staged row.
#[verifier::ext_equal]
pub struct RowDataV {
    pub key: PrimaryKey,
    pub tree: Option<MetaTree>,
    pub data: Seq<u8>,
    pub auth: MetaAuthorizationV,
    pub format: MessageFormat,
    pub created: u64,
    pub updated: u64,
}

impl View for RowData {
    type V = RowDataV;

    open spec fn view(&self) -> RowDataV {
        RowDataV {
            key: self.key,
            tree: self.tree,
            data: self.data_bytes@,
            auth: self.auth@,
            format: self.format,
            created: self.created,
            updated: self.updated,
        }
    }
}

/// An equal copy of a staged row.
pub fn copy_row_data(rd: &RowData) -> (r: RowData)
    ensures
        r@ == rd@,
{
    let d = rd.data_bytes.clone();
    proof {
        assert(d@ =~= rd.data_bytes@);
    }
    RowData {
        key: rd.key,
        tree: rd.tree,
        data_bytes: d,
        auth: copy_auth(&rd.auth),
        format: rd.format,
        created: rd.created,
        updated: rd.updated,
    }
}

impl<D: RowCodec> Row<D> {
    /// Serializes the payload, keeping every other field.
    pub fn to_row_data(&self) -> (r: RowData)
        ensures
            r@.key == self.key,
            r@.tree == self.tree,
            r@.data == D::spec_encode(self.data@),
            r@.auth == self.auth@,
            r@.format == self.format,
            r@.created == self.created,
            r@.updated == self.updated,
    {
        RowData {
            key: self.key,
            tree: self.tree,
            data_bytes: self.data.encode(),
            auth: copy_auth(&self.auth),
            format: self.format,
            created: self.created,
            updated: self.updated,
        }
    }

    /// Deserializes a staged row back into a typed one.
    pub fn from_row_data(rd: &RowData) -> (r: Result<Row<D>, LoadError>)
        ensures
            match r {
                Ok(row) => {
                    &&& D::spec_decode(rd@.data) == Some(row.data@)
                    &&& row.key == rd@.key
                    &&& row.tree == rd@.tree
                    &&& row.auth@ == rd@.auth
                    &&& row.format == rd@.format
                    &&& row.created == rd@.created
                    &&& row.updated == rd@.updated
                },
                Err(e) => e == LoadError::SerializationError && D::spec_decode(rd@.data) is None,
            },
    {
        match D::decode(&rd.data_bytes) {
            Some(data) => Ok(
                Row {
                    key: rd.key,
                    tree: rd.tree,
                    data,
                    auth: copy_auth(&rd.auth),
                    collections: Vec::new(),
                    format: rd.format,
                    created: rd.created,
                    updated: rd.updated,
                },
            ),
            None => Err(LoadError::SerializationError),
        }
    }
}

/// A handle on one row within a transactional view. A dirty handle has
/// edits that are not yet flushed into the stage.
pub struct Dao<D> {
    pub row: Row<D>,
    pub dirty: bool,
}

impl<D> Dao<D> {
    pub fn key(&self) -> (r: PrimaryKey)
        ensures
            r == self.row.key,
    {
        self.row.key
    }

    pub fn auth(&self) -> (r: &MetaAuthorization)
        ensures
            r@ == self.row.auth@,
    {
        &self.row.auth
    }
}

/// The transient state of one transactional view.
pub struct DioState {
    /// Flushed rows, in flush order; commit drains them in this order.
    pub store: Vec<RowData>,
    /// The latest flushed row per key.
    pub cache_store_primary: KMap<RowData>,
    /// Keys flushed under each collection.
    pub cache_store_secondary: PairMap,
    /// Rows loaded from the chain, decrypted, with their leaves.
    pub cache_load: KMap<(EventData, EventLeaf)>,
    /// Keys under edit: loading them fails until they are flushed.
    pub locked: KSet,
    /// Rows deleted in this view, awaiting tombstones.
    pub deleted: KMap<RowData>,
    /// Keys whose pipe-level locks are released on commit.
    pub pipe_unlock: KSet,
}

/// A map of staged rows, seen through the rows' views.
pub open spec fn staged_view(m: Map<u64, RowData>) -> Map<u64, RowDataV> {
    Map::new(|k: u64| m.dom().contains(k), |k: u64| m[k]@)
}

/// A map of loaded rows, seen through the events' views.
pub open spec fn loaded_view(m: Map<u64, (EventData, EventLeaf)>) -> Map<
    u64,
    (crate::event::EventDataV, EventLeaf),
> {
    Map::new(|k: u64| m.dom().contains(k), |k: u64| (m[k].0@, m[k].1))
}

/// A stage drain order, seen through the rows' views.
pub open spec fn store_views(s: Seq<RowData>) -> Seq<RowDataV> {
    s.map_values(|r: RowData| r@)
}

impl DioState {
    /// The staged rows by key, as views.
    pub open spec fn staged_m(&self) -> Map<u64, RowDataV> {
        staged_view(self.cache_store_primary.m())
    }

    /// The loaded rows by key, as views.
    pub open spec fn loaded_m(&self) -> Map<u64, (crate::event::EventDataV, EventLeaf)> {
        loaded_view(self.cache_load.m())
    }

    /// The deleted rows by key, as views.
    pub open spec fn deleted_m(&self) -> Map<u64, RowDataV> {
        staged_view(self.deleted.m())
    }

    pub open spec fn wf(&self) -> bool {
        &&& self.cache_store_primary.wf()
        &&& self.cache_store_secondary.wf()
        &&& self.cache_load.wf()
        &&& self.locked.wf()
        &&& self.deleted.wf()
        &&& self.pipe_unlock.wf()
        &&& forall|k: u64| #[trigger]
            self.staged_m().dom().contains(k) ==> self.staged_m()[k].key == PrimaryKey { value: k }
        &&& forall|k: u64| #[trigger]
            self.loaded_m().dom().contains(k) ==> crate::meta::first_data_key_from(
                self.loaded_m()[k].0.meta,
                0,
            ) == Some(PrimaryKey { value: k })
        &&& forall|k: u64|
            #[trigger] self.cache_load.m().dom().contains(k) ==> !self.deleted.m().dom().contains(
                k,
            )
    }

    /// True when the key is staged.
    pub open spec fn spec_staged(&self, k: u64) -> bool {
        self.cache_store_primary.m().dom().contains(k)
    }

    /// True when the key was loaded and cached.
    pub open spec fn spec_cached(&self, k: u64) -> bool {
        self.cache_load.m().dom().contains(k)
    }

    /// True when the key was deleted in this view.
    pub open spec fn spec_deleted(&self, k: u64) -> bool {
        self.deleted.m().dom().contains(k)
    }

    /// True when the key is under edit.
    pub open spec fn spec_locked(&self, k: u64) -> bool {
        self.locked.set().contains(k)
    }

    pub fn new() -> (r: DioState)
        ensures
            r.wf(),
            r.store@.len() == 0,
            r.cache_store_primary.m() == Map::<u64, RowData>::empty(),
            r.cache_store_secondary.m() == Map::<(u64, u64), Seq<u64>>::empty(),
            r.cache_load.m() == Map::<u64, (EventData, EventLeaf)>::empty(),
            r.locked.set() == Set::<u64>::empty(),
            r.deleted.m() == Map::<u64, RowData>::empty(),
            r.pipe_unlock.set() == Set::<u64>::empty(),
    {
        DioState {
            store: Vec::new(),
            cache_store_primary: KMap::new(),
            cache_store_secondary: PairMap::new(),
            cache_load: KMap::new(),
            locked: KSet::new(),
            deleted: KMap::new(),
            pipe_unlock: KSet::new(),
        }
    }

    /// Flushes one row into the stage: appends it to the drain order,
    /// makes it the authoritative staged row for its key, files it under
    /// its collection, and drops any stale loaded copy.
    pub fn dirty(&mut self, key: PrimaryKey, tree: Option<MetaTree>, row: RowData)
        requires
            old(self).wf(),
            row@.key == key,
        ensures
            final(self).wf(),
            store_views(final(self).store@) == store_views(old(self).store@).push(row@),
            final(self).staged_m() == old(self).staged_m().insert(key.value, row@),
            final(self).cache_store_secondary.m() == (match tree {
                Some(t) => {
                    let ck = (t.vec.parent_id.value, t.vec.collection_id);
                    let m = old(self).cache_store_secondary.m();
                    if m.dom().contains(ck) {
                        if m[ck].contains(key.value) {
                            m
                        } else {
                            m.insert(ck, m[ck].push(key.value))
                        }
                    } else {
                        m.insert(ck, seq![key.value])
                    }
                },
                None => old(self).cache_store_secondary.m(),
            }),
            final(self).loaded_m() == old(self).loaded_m().remove(key.value),
            final(self).locked == old(self).locked,
            final(self).deleted == old(self).deleted,
            final(self).pipe_unlock == old(self).pipe_unlock,
    {
        let stored = copy_row_data(&row);
        let ghost rv = row@;
        self.store.push(row);
        self.cache_store_primary.insert(key.value, stored);
        if let Some(t) = tree {
            self.cache_store_secondary.add((t.vec.parent_id.value, t.vec.collection_id), key.value);
        }
        self.cache_load.remove(key.value);
        proof {
            assert(store_views(final(self).store@) =~= store_views(old(self).store@).push(rv));
            assert(final(self).staged_m() =~= old(self).staged_m().insert(key.value, rv));
            assert(final(self).loaded_m() =~= old(self).loaded_m().remove(key.value));
        }
    }

    /// Marks a key as under edit.
    pub fn lock(&mut self, key: PrimaryKey) -> (added: bool)
        requires
            old(self).wf(),
        ensures
            final(self).wf(),
            final(self).locked.set() == old(self).locked.set().insert(key.value),
            added == !old(self).locked.set().contains(key.value),
            final(self).store@ == old(self).store@,
            final(self).cache_store_primary == old(self).cache_store_primary,
            final(self).cache_store_secondary == old(self).cache_store_secondary,
            final(self).cache_load == old(self).cache_load,
            final(self).deleted == old(self).deleted,
            final(self).pipe_unlock == old(self).pipe_unlock,
    {
        self.locked.insert(key.value)
    }

    /// Releases a key from edit.
    pub fn unlock(&mut self, key: PrimaryKey) -> (removed: bool)
        requires
            old(self).wf(),
        ensures
            final(self).wf(),
            final(self).locked.set() == old(self).locked.set().remove(key.value),
            removed == old(self).locked.set().contains(key.value),
            final(self).store@ == old(self).store@,
            final(self).cache_store_primary == old(self).cache_store_primary,
            final(self).cache_store_secondary == old(self).cache_store_secondary,
            final(self).cache_load == old(self).cache_load,
            final(self).deleted == old(self).deleted,
            final(self).pipe_unlock == old(self).pipe_unlock,
    {
        self.locked.remove(key.value)
    }

    /// True when the key is under edit.
    pub fn is_locked(&self, key: PrimaryKey) -> (r: bool)
        ensures
            r == self.spec_locked(key.value),
    {
        self.locked.contains(key.value)
    }
}


/// A transactional view bound to one chain, session and scope. Reads fall
/// through the stage to the chain; writes stay staged until `commit`.
pub struct Dio {
    pub state: DioState,
    pub scope: Scope,
    pub session: Session,
    pub default_format: MessageFormat,
    pub fresh_base: u64,
    pub fresh_ctr: u64,
}

impl Dio {
    pub open spec fn wf(&self) -> bool {
        self.state.wf()
    }

    /// A fresh primary key for a stored row, drawn from this view's
    /// counter.
    fn generate_key(&mut self) -> (r: PrimaryKey)
        ensures
            final(self).state == old(self).state,
            final(self).session == old(self).session,
            final(self).scope == old(self).scope,
            final(self).default_format == old(self).default_format,
    {
        let k = crate::crypto::mix64_exec(self.fresh_base, self.fresh_ctr);
        self.fresh_ctr = self.fresh_ctr.wrapping_add(1);
        PrimaryKey { value: k }
    }

    /// Creates a new row with default authorization and format: the handle
    /// is dirty and its key locked until it is flushed with `commit_dao`.
    pub fn store<D: RowCodec>(&mut self, data: D) -> (r: Result<Dao<D>, LoadError>)
        requires
            old(self).wf(),
        ensures
            final(self).wf(),
            r is Ok,
            r matches Ok(dao) ==> {
                &&& dao.row.data@ == data@
                &&& dao.dirty
                &&& dao.row.tree is None
                &&& dao.row.auth@.is_unrestricted()
                &&& dao.row.format == old(self).default_format
                &&& final(self).state.locked.set() == old(self).state.locked.set().insert(
                    dao.row.key.value,
                )
            },
            final(self).state.store@ == old(self).state.store@,
            final(self).state.cache_store_primary == old(self).state.cache_store_primary,
            final(self).state.cache_store_secondary == old(self).state.cache_store_secondary,
            final(self).state.cache_load == old(self).state.cache_load,
            final(self).state.deleted == old(self).state.deleted,
            final(self).session == old(self).session,
    {
        self.store_full(data, None, None, None)
    }

    /// `store` with an explicit format and primary key.
    pub fn store_ext<D: RowCodec>(
        &mut self,
        data: D,
        format: Option<MessageFormat>,
        key: Option<PrimaryKey>,
    ) -> (r: Result<Dao<D>, LoadError>)
        requires
            old(self).wf(),
        ensures
            final(self).wf(),
            r is Ok,
            r matches Ok(dao) ==> {
                &&& dao.row.data@ == data@
                &&& dao.dirty
                &&& dao.row.tree is None
                &&& dao.row.auth@.is_unrestricted()
                &&& (key matches Some(k) ==> dao.row.key == k)
                &&& dao.row.format == (match format {
                    Some(f) => f,
                    None => old(self).default_format,
                })
                &&& final(self).state.locked.set() == old(self).state.locked.set().insert(
                    dao.row.key.value,
                )
            },
            final(self).state.store@ == old(self).state.store@,
            final(self).state.cache_store_primary == old(self).state.cache_store_primary,
            final(self).state.cache_store_secondary == old(self).state.cache_store_secondary,
            final(self).state.cache_load == old(self).state.cache_load,
            final(self).state.deleted == old(self).state.deleted,
            final(self).session == old(self).session,
    {
        self.store_full(data, format, key, None)
    }

    /// `store` with everything explicit, including a tree link filing the
    /// row under a parent's collection.
    pub fn store_full<D: RowCodec>(
        &mut self,
        data: D,
        format: Option<MessageFormat>,
        key: Option<PrimaryKey>,
        tree: Option<MetaTree>,
    ) -> (r: Result<Dao<D>, LoadError>)
        requires
            old(self).wf(),
        ensures
            final(self).wf(),
            r is Ok,
            r matches Ok(dao) ==> {
                &&& dao.row.data@ == data@
                &&& dao.dirty
                &&& dao.row.tree == tree
                &&& dao.row.auth@.is_unrestricted()
                &&& (key matches Some(k) ==> dao.row.key == k)
                &&& dao.row.format == (match format {
                    Some(f) => f,
                    None => old(self).default_format,
                })
                &&& final(self).state.locked.set() == old(self).state.locked.set().insert(
                    dao.row.key.value,
                )
            },
            final(self).state.store@ == old(self).state.store@,
            final(self).state.cache_store_primary == old(self).state.cache_store_primary,
            final(self).state.cache_store_secondary == old(self).state.cache_store_secondary,
            final(self).state.cache_load == old(self).state.cache_load,
            final(self).state.deleted == old(self).state.deleted,
            final(self).session == old(self).session,
    {
        let key = match key {
            Some(k) => k,
            None => self.generate_key(),
        };
        let format = match format {
            Some(f) => f,
            None => self.default_format,
        };
        let row = Row {
            key,
            tree,
            data,
            auth: MetaAuthorization::new_unrestricted(),
            collections: Vec::new(),
            format,
            created: 0,
            updated: 0,
        };
        self.state.lock(key);
        Ok(Dao { row, dirty: true })
    }

    /// Replaces the handle's payload: the handle turns dirty and its key is
    /// locked until the handle is flushed.
    pub fn write_data<D: RowCodec>(&mut self, dao: &mut Dao<D>, data: D)
        requires
            old(self).wf(),
        ensures
            final(self).wf(),
            final(dao).row.data@ == data@,
            final(dao).row.key == old(dao).row.key,
            final(dao).row.tree == old(dao).row.tree,
            final(dao).row.auth@ == old(dao).row.auth@,
            final(dao).row.format == old(dao).row.format,
            final(dao).dirty,
            final(self).state.locked.set() == old(self).state.locked.set().insert(
                old(dao).row.key.value,
            ),
            final(self).state.store@ == old(self).state.store@,
            final(self).state.cache_store_primary == old(self).state.cache_store_primary,
            final(self).state.cache_store_secondary == old(self).state.cache_store_secondary,
            final(self).state.cache_load == old(self).state.cache_load,
            final(self).state.deleted == old(self).state.deleted,
            final(self).session == old(self).session,
    {
        dao.row.data = data;
        dao.dirty = true;
        self.state.lock(dao.row.key);
    }

    /// Replaces the handle's authorization: the handle turns dirty and its
    /// key is locked until the handle is flushed.
    pub fn write_auth<D: RowCodec>(&mut self, dao: &mut Dao<D>, auth: MetaAuthorization)
        requires
            old(self).wf(),
        ensures
            final(self).wf(),
            final(dao).row.auth@ == auth@,
            final(dao).row.key == old(dao).row.key,
            final(dao).row.tree == old(dao).row.tree,
            final(dao).row.data == old(dao).row.data,
            final(dao).row.format == old(dao).row.format,
            final(dao).dirty,
            final(self).state.locked.set() == old(self).state.locked.set().insert(
                old(dao).row.key.value,
            ),
            final(self).state.store@ == old(self).state.store@,
            final(self).state.cache_store_primary == old(self).state.cache_store_primary,
            final(self).state.cache_store_secondary == old(self).state.cache_store_secondary,
            final(self).state.cache_load == old(self).state.cache_load,
            final(self).state.deleted == old(self).state.deleted,
            final(self).session == old(self).session,
    {
        dao.row.auth = auth;
        dao.dirty = true;
        self.state.lock(dao.row.key);
    }

    /// Flushes one handle into the stage and releases its lock: the staged
    /// row carries the handle's payload, authorization and tree link, and
    /// later loads of the key in this view see it.
    pub fn commit_dao<D: RowCodec>(&mut self, dao: &mut Dao<D>)
        requires
            old(self).wf(),
        ensures
            final(self).wf(),
            final(dao).dirty == false,
            final(dao).row.key == old(dao).row.key,
            final(dao).row.data == old(dao).row.data,
            final(dao).row.auth@ == old(dao).row.auth@,
            final(dao).row.tree == old(dao).row.tree,
            ({
                let rv = RowDataV {
                    key: old(dao).row.key,
                    tree: old(dao).row.tree,
                    data: D::spec_encode(old(dao).row.data@),
                    auth: old(dao).row.auth@,
                    format: old(dao).row.format,
                    created: old(dao).row.created,
                    updated: old(dao).row.updated,
                };
                &&& store_views(final(self).state.store@) == store_views(
                    old(self).state.store@,
                ).push(rv)
                &&& final(self).state.staged_m() == old(self).state.staged_m().insert(
                    old(dao).row.key.value,
                    rv,
                )
            }),
            final(self).state.cache_store_secondary.m() == (match old(dao).row.tree {
                Some(t) => {
                    let ck = (t.vec.parent_id.value, t.vec.collection_id);
                    let m = old(self).state.cache_store_secondary.m();
                    if m.dom().contains(ck) {
                        if m[ck].contains(old(dao).row.key.value) {
                            m
                        } else {
                            m.insert(ck, m[ck].push(old(dao).row.key.value))
                        }
                    } else {
                        m.insert(ck, seq![old(dao).row.key.value])
                    }
                },
                None => old(self).state.cache_store_secondary.m(),
            }),
            final(self).state.loaded_m() == old(self).state.loaded_m().remove(
                old(dao).row.key.value,
            ),
            final(self).state.locked.set() == old(self).state.locked.set().remove(
                old(dao).row.key.value,
            ),
            final(self).state.deleted == old(self).state.deleted,
            final(self).session == old(self).session,
    {
        let rd = dao.row.to_row_data();
        self.state.dirty(dao.row.key, dao.row.tree, rd);
        self.state.unlock(dao.row.key);
        dao.dirty = false;
    }

    /// Deletes the row a handle names: the key joins the deleted set and
    /// any staged counterpart is taken out of the stage. Deleting a key
    /// already deleted in this view changes nothing.
    pub fn delete<D: RowCodec>(&mut self, dao: Dao<D>)
        requires
            old(self).wf(),
        ensures
            final(self).wf(),
            final(self).state.store@ == old(self).state.store@,
            final(self).state.deleted.spec_len() <= old(self).state.deleted.spec_len() + 1,
            final(self).session == old(self).session,
            old(self).state.spec_deleted(dao.row.key.value) ==> final(self).state == old(
                self,
            ).state,
            !old(self).state.spec_deleted(dao.row.key.value) ==> {
                &&& final(self).state.deleted_m().dom() == old(
                    self,
                ).state.deleted_m().dom().insert(dao.row.key.value)
                &&& deleted_views(final(self).state.deleted.s()) == deleted_views(
                    old(self).state.deleted.s(),
                ).push(
                    RowDataV {
                        key: dao.row.key,
                        tree: dao.row.tree,
                        data: D::spec_encode(dao.row.data@),
                        auth: dao.row.auth@,
                        format: dao.row.format,
                        created: dao.row.created,
                        updated: dao.row.updated,
                    },
                )
                &&& final(self).state.spec_deleted(dao.row.key.value)
                &&& !final(self).state.spec_staged(dao.row.key.value)
                &&& !final(self).state.spec_cached(dao.row.key.value)
                &&& !final(self).state.spec_locked(dao.row.key.value)
                &&& forall|k2: u64|
                    k2 != dao.row.key.value ==> final(self).state.spec_staged(k2) == old(
                        self,
                    ).state.spec_staged(k2)
                &&& forall|k2: u64|
                    k2 != dao.row.key.value ==> final(self).state.spec_deleted(k2) == old(
                        self,
                    ).state.spec_deleted(k2)
            },
    {
        let key = dao.row.key;
        if self.state.deleted.contains_key(key.value) {
            return ;
        }
        let rd = dao.row.to_row_data();
        self.state.cache_store_primary.remove(key.value);
        self.state.cache_store_secondary.remove_value(key.value);
        self.state.cache_load.remove(key.value);
        self.state.locked.remove(key.value);
        let ghost rv = rd@;
        self.state.deleted.insert(key.value, rd);
        proof {
            assert(final(self).state.deleted_m().dom() =~= old(
                self,
            ).state.deleted_m().dom().insert(key.value));
            assert(final(self).state.staged_m() =~= old(self).state.staged_m().remove(key.value));
            assert(final(self).state.loaded_m() =~= old(self).state.loaded_m().remove(key.value));
            assert(deleted_views(final(self).state.deleted.s()) =~= deleted_views(
                old(self).state.deleted.s(),
            ).push(rv));
        }
    }
}

impl Chain {
    /// A transactional view over this chain with local durability.
    pub fn dio(&self, session: &Session) -> (r: Dio)
        ensures
            r.wf(),
            r.session@ == session@,
            r.scope == Scope::Local,
            r.default_format == self.default_format,
            r.state.store@.len() == 0,
            r.state.staged_m() == Map::<u64, RowDataV>::empty(),
            r.state.cache_store_secondary.m() == Map::<(u64, u64), Seq<u64>>::empty(),
            r.state.loaded_m() == Map::<u64, (crate::event::EventDataV, EventLeaf)>::empty(),
            r.state.locked.set() == Set::<u64>::empty(),
            r.state.deleted_m() == Map::<u64, RowDataV>::empty(),
            forall|k: u64| !(#[trigger] r.state.spec_locked(k)),
            forall|k: u64| !(#[trigger] r.state.spec_staged(k)),
            forall|k: u64| !(#[trigger] r.state.spec_cached(k)),
            forall|k: u64| !(#[trigger] r.state.spec_deleted(k)),
    {
        self.dio_ext(session, Scope::Local)
    }

    /// A transactional view over this chain with an explicit scope.
    pub fn dio_ext(&self, session: &Session, scope: Scope) -> (r: Dio)
        ensures
            r.wf(),
            r.session@ == session@,
            r.scope == scope,
            r.default_format == self.default_format,
            r.state.store@.len() == 0,
            r.state.staged_m() == Map::<u64, RowDataV>::empty(),
            r.state.cache_store_secondary.m() == Map::<(u64, u64), Seq<u64>>::empty(),
            r.state.loaded_m() == Map::<u64, (crate::event::EventDataV, EventLeaf)>::empty(),
            r.state.locked.set() == Set::<u64>::empty(),
            r.state.deleted_m() == Map::<u64, RowDataV>::empty(),
            forall|k: u64| !(#[trigger] r.state.spec_locked(k)),
            forall|k: u64| !(#[trigger] r.state.spec_staged(k)),
            forall|k: u64| !(#[trigger] r.state.spec_cached(k)),
            forall|k: u64| !(#[trigger] r.state.spec_deleted(k)),
    {
        let r = Dio {
            state: DioState::new(),
            scope,
            session: session.duplicate(),
            default_format: self.default_format,
            fresh_base: crate::time::entropy64(),
            fresh_ctr: 0,
        };
        proof {
            assert(r.state.staged_m() =~= Map::<u64, RowDataV>::empty());
            assert(r.state.loaded_m() =~= Map::<u64, (crate::event::EventDataV, EventLeaf)>::empty());
            assert(r.state.deleted_m() =~= Map::<u64, RowDataV>::empty());
            assert forall|k: u64| !(#[trigger] r.state.spec_locked(k)) by {}
            assert forall|k: u64| !(#[trigger] r.state.spec_staged(k)) by {
                assert(!r.state.staged_m().dom().contains(k));
            }
            assert forall|k: u64| !(#[trigger] r.state.spec_cached(k)) by {
                assert(!r.state.loaded_m().dom().contains(k));
            }
            assert forall|k: u64| !(#[trigger] r.state.spec_deleted(k)) by {
                assert(!r.state.deleted_m().dom().contains(k));
            }
        }
        r
    }

    /// A transactional view that adopts a handle's existing staging state:
    /// the prior view hands its state over, so rows staged through it
    /// travel into the new view; the handle is marked clean and its key
    /// unlocked.
    pub fn dio_for_dao<D: RowCodec>(
        &self,
        session: &Session,
        scope: Scope,
        dao: &mut Dao<D>,
        prior: Dio,
    ) -> (r: Dio)
        requires
            prior.wf(),
        ensures
            r.wf(),
            r.session@ == session@,
            r.scope == scope,
            final(dao).dirty == false,
            final(dao).row.key == old(dao).row.key,
            final(dao).row.data == old(dao).row.data,
            final(dao).row.auth@ == old(dao).row.auth@,
            final(dao).row.tree == old(dao).row.tree,
            r.state.store@ == prior.state.store@,
            r.state.cache_store_primary == prior.state.cache_store_primary,
            r.state.cache_store_secondary == prior.state.cache_store_secondary,
            r.state.cache_load == prior.state.cache_load,
            r.state.deleted == prior.state.deleted,
            r.state.locked.set() == prior.state.locked.set().remove(old(dao).row.key.value),
    {
        dao.dirty = false;
        let mut state = prior.state;
        state.unlock(dao.row.key);
        Dio {
            state,
            scope,
            session: session.duplicate(),
            default_format: self.default_format,
            fresh_base: crate::time::entropy64(),
            fresh_ctr: 0,
        }
    }
}


/// The authorization entries of a header, or no restriction when it has
/// none.
pub open spec fn effective_auth(meta: Seq<CoreMetadataV>) -> MetaAuthorizationV {
    match crate::meta::first_auth_from(meta, 0) {
        Some(a) => a,
        None => MetaAuthorizationV {
            allow_read: Seq::empty(),
            allow_write: Seq::empty(),
            implicit_authority: Seq::empty(),
        },
    }
}

impl<D: RowCodec> Row<D> {
    /// Projects a row out of one event, given the timestamps its leaf
    /// derived. The event must carry a payload and a `Data` key.
    pub fn from_event(ev: &EventData, created: u64, updated: u64) -> (r: Result<Row<D>, LoadError>)
        ensures
            match ev@.data_bytes {
                None => r == Err::<Row<D>, LoadError>(LoadError::SerializationError),
                Some(d) => match crate::meta::first_data_key_from(ev@.meta, 0) {
                    None => r == Err::<Row<D>, LoadError>(LoadError::NoPrimaryKey),
                    Some(k) => match D::spec_decode(d) {
                        None => r == Err::<Row<D>, LoadError>(LoadError::SerializationError),
                        Some(dv) => r matches Ok(row) && row.key == k && row.data@ == dv
                            && row.auth@ == effective_auth(ev@.meta) && row.tree
                            == crate::meta::first_tree_from(ev@.meta, 0) && row.format == ev@.format
                            && row.created == created && row.updated == updated,
                    },
                },
            },
    {
        let d = match &ev.data_bytes {
            Some(d) => d,
            None => {
                return Err(LoadError::SerializationError);
            },
        };
        let key = match ev.meta.get_data_key() {
            Some(k) => k,
            None => {
                return Err(LoadError::NoPrimaryKey);
            },
        };
        let data = match D::decode(d) {
            Some(v) => v,
            None => {
                return Err(LoadError::SerializationError);
            },
        };
        let auth = match ev.meta.get_authorization() {
            Some(a) => copy_auth(a),
            None => MetaAuthorization::new_unrestricted(),
        };
        proof {
            if crate::meta::first_auth_from(ev@.meta, 0) is None {
                assert(auth@ =~= effective_auth(ev@.meta));
            }
        }
        let tree = ev.meta.get_tree();
        Ok(
            Row {
                key,
                tree,
                data,
                auth,
                collections: Vec::new(),
                format: ev.format,
                created,
                updated,
            },
        )
    }
}

impl Dio {
    /// Loads a row by key. Resolution order: a locked key fails; a staged
    /// row wins; then the load cache; a key deleted in this view fails;
    /// otherwise the chain's primary index decides, the payload is
    /// decrypted with the session's read key, and the result is cached.
    pub fn load<D: RowCodec>(&mut self, chain: &Chain, key: &PrimaryKey) -> (r: Result<
        Dao<D>,
        LoadError,
    >)
        requires
            old(self).wf(),
            chain.wf(),
        ensures
            final(self).wf(),
            final(self).state.store@ == old(self).state.store@,
            final(self).state.cache_store_primary == old(self).state.cache_store_primary,
            final(self).state.cache_store_secondary == old(self).state.cache_store_secondary,
            final(self).state.locked == old(self).state.locked,
            final(self).state.deleted == old(self).state.deleted,
            final(self).session == old(self).session,
            r is Err ==> final(self).state.cache_load == old(self).state.cache_load,
            forall|k2: u64| #[trigger]
                old(self).state.spec_cached(k2) ==> (final(self).state.spec_cached(k2)
                    && final(self).state.loaded_m()[k2] == old(self).state.loaded_m()[k2]),
            forall|k2: u64| #[trigger]
                final(self).state.spec_cached(k2) ==> old(self).state.spec_cached(k2)
                    || cached_entry_good::<D>(final(self).state.loaded_m()[k2]),
            r matches Ok(dao) ==> dao.row.key == *key && dao.dirty == false,
            r matches Err(LoadError::ObjectStillLocked(k2)) ==> (k2 == *key && old(
                self,
            ).state.spec_locked(key.value)),
            r matches Err(LoadError::AlreadyDeleted(k2)) ==> (k2 == *key && old(
                self,
            ).state.spec_deleted(key.value)),
            r matches Err(LoadError::NotFound(k2)) ==> (k2 == *key && !crate::chain::primary_of(
                chain.log@,
            ).dom().contains(key.value)),
            old(self).state.spec_locked(key.value) ==> r == Err::<Dao<D>, LoadError>(
                LoadError::ObjectStillLocked(*key),
            ),
            !old(self).state.spec_locked(key.value) && old(self).state.spec_staged(key.value)
                ==> ({
                let rv = old(self).state.staged_m()[key.value];
                &&& final(self).state.cache_load == old(self).state.cache_load
                &&& match D::spec_decode(rv.data) {
                    Some(dv) => r matches Ok(dao) && dao.row.data@ == dv && dao.row.auth@
                        == rv.auth && dao.row.tree == rv.tree,
                    None => r == Err::<Dao<D>, LoadError>(LoadError::SerializationError),
                }
            }),
            !old(self).state.spec_locked(key.value) && !old(self).state.spec_staged(key.value)
                && old(self).state.spec_cached(key.value) ==> ({
                let (ev, leaf) = old(self).state.loaded_m()[key.value];
                &&& final(self).state.cache_load == old(self).state.cache_load
                &&& match ev.data_bytes {
                    None => r == Err::<Dao<D>, LoadError>(LoadError::SerializationError),
                    Some(d) => match crate::meta::first_data_key_from(ev.meta, 0) {
                        None => r == Err::<Dao<D>, LoadError>(LoadError::NoPrimaryKey),
                        Some(k2) => match D::spec_decode(d) {
                            None => r == Err::<Dao<D>, LoadError>(LoadError::SerializationError),
                            Some(dv) => r matches Ok(dao) && dao.row.data@ == dv && dao.row.auth@
                                == effective_auth(ev.meta) && dao.row.created == leaf.created_ms
                                && dao.row.updated == leaf.updated_ms,
                        },
                    },
                }
            }),
            !old(self).state.spec_locked(key.value) && !old(self).state.spec_staged(key.value)
                && !old(self).state.spec_cached(key.value) && old(self).state.spec_deleted(
                key.value,
            ) ==> r == Err::<Dao<D>, LoadError>(LoadError::AlreadyDeleted(*key)),
            !old(self).state.spec_locked(key.value) && !old(self).state.spec_staged(key.value)
                && !old(self).state.spec_cached(key.value) && !old(self).state.spec_deleted(
                key.value,
            ) && !crate::chain::primary_of(chain.log@).dom().contains(key.value) ==> r == Err::<
                Dao<D>,
                LoadError,
            >(LoadError::NotFound(*key)),
            !old(self).state.spec_locked(key.value) && !old(self).state.spec_staged(key.value)
                && !old(self).state.spec_cached(key.value) && !old(self).state.spec_deleted(
                key.value,
            ) && crate::chain::primary_of(chain.log@).dom().contains(key.value) ==> ({
                let leaf = crate::chain::primary_of(chain.log@)[key.value];
                let ev = chain.log@[leaf.offset_in_log as int];
                let auth = effective_auth(ev.meta);
                match ev.data_bytes {
                    None => r == Err::<Dao<D>, LoadError>(LoadError::SerializationError),
                    Some(cipher) => match crate::pipeline::spec_overlay(
                        auth,
                        crate::pipeline::first_iv_from(ev.meta, 0),
                        cipher,
                        old(self).session@,
                    ) {
                        None => r == Err::<Dao<D>, LoadError>(LoadError::MissingReadKey),
                        Some(plain) => match D::spec_decode(plain) {
                            None => r == Err::<Dao<D>, LoadError>(
                                LoadError::SerializationError,
                            ),
                            Some(dv) => r matches Ok(dao) && dao.row.data@ == dv && dao.row.auth@
                                == auth && dao.row.created == leaf.created_ms && dao.row.updated
                                == leaf.updated_ms && final(self).state.loaded_m() == old(
                                self,
                            ).state.loaded_m().insert(
                                key.value,
                                (
                                    crate::event::EventDataV {
                                        meta: ev.meta,
                                        data_bytes: Some(plain),
                                        format: ev.format,
                                    },
                                    leaf,
                                ),
                            ),
                        },
                    },
                }
            }),
    {
        if self.state.is_locked(*key) {
            return Err(LoadError::ObjectStillLocked(*key));
        }
        match self.state.cache_store_primary.get(key.value) {
            Some(rd) => {
                proof {
                    assert(old(self).state.staged_m().dom().contains(key.value));
                    assert(old(self).state.staged_m()[key.value] == rd@);
                    assert(rd@.key == PrimaryKey { value: key.value });
                }
                let row = Row::<D>::from_row_data(rd)?;
                return Ok(Dao { row, dirty: false });
            },
            None => {},
        }
        match self.state.cache_load.get(key.value) {
            Some(pair) => {
                proof {
                    assert(old(self).state.loaded_m().dom().contains(key.value));
                    assert(old(self).state.loaded_m()[key.value] == (pair.0@, pair.1));
                    assert(crate::meta::first_data_key_from(pair.0@.meta, 0) == Some(
                        PrimaryKey { value: key.value },
                    ));
                }
                let row = Row::<D>::from_event(&pair.0, pair.1.created_ms, pair.1.updated_ms)?;
                return Ok(Dao { row, dirty: false });
            },
            None => {},
        }
        if self.state.deleted.contains_key(key.value) {
            return Err(LoadError::AlreadyDeleted(*key));
        }
        let leaf = match chain.lookup_primary(key) {
            Some(l) => l,
            None => {
                return Err(LoadError::NotFound(*key));
            },
        };
        proof {
            crate::chain::lemma_primary_leaf_valid(chain.log@, key.value);
        }
        let evt = match chain.log.load(leaf.offset_in_log) {
            Some(e) => e,
            None => {
                proof {
                    assert(false);
                }
                return Err(LoadError::NotFound(*key));
            },
        };
        let cipher = match &evt.data_bytes {
            Some(d) => d,
            None => {
                return Err(LoadError::SerializationError);
            },
        };
        let auth = match evt.meta.get_authorization() {
            Some(a) => copy_auth(a),
            None => MetaAuthorization::new_unrestricted(),
        };
        proof {
            if crate::meta::first_auth_from(evt@.meta, 0) is None {
                assert(auth@ =~= effective_auth(evt@.meta));
            }
        }
        let iv = crate::pipeline::get_iv(&evt.meta);
        let plain = match crate::pipeline::data_as_overlay(&auth, iv, cipher, &self.session) {
            Ok(p) => p,
            Err(_) => {
                return Err(LoadError::MissingReadKey);
            },
        };
        let decrypted = EventData {
            meta: crate::meta::copy_metadata(&evt.meta),
            data_bytes: Some(plain),
            format: evt.format,
        };
        let row = Row::<D>::from_event(&decrypted, leaf.created_ms, leaf.updated_ms)?;
        let ghost dv = decrypted@;
        self.state.cache_load.insert(key.value, (decrypted, leaf));
        proof {
            assert(final(self).state.loaded_m() =~= old(self).state.loaded_m().insert(
                key.value,
                (dv, leaf),
            ));
            assert(cached_entry_good::<D>(final(self).state.loaded_m()[key.value]));
            assert forall|k2: u64| #[trigger]
                old(self).state.spec_cached(k2) implies (final(self).state.spec_cached(k2)
                && final(self).state.loaded_m()[k2] == old(self).state.loaded_m()[k2]) by {}
            assert forall|k2: u64| #[trigger]
                final(self).state.spec_cached(k2) implies old(self).state.spec_cached(k2)
                || cached_entry_good::<D>(final(self).state.loaded_m()[k2]) by {}
        }
        Ok(Dao { row, dirty: false })
    }
}


/// True when some row of the sequence names `h` among its write-key
/// digests.
pub open spec fn rows_name_hash(rows: Seq<RowDataV>, h: crate::crypto::AteHash) -> bool {
    exists|i: int, x: int|
        0 <= i < rows.len() && 0 <= x < rows[i].auth.allow_write.len() && (
        #[trigger] rows[i].auth.allow_write[x]) == h
}

/// The payload one committed data event carries for its staged row: the
/// plain bytes when reading is unrestricted, the bytes encrypted under the
/// session's matching read key and the header's vector otherwise.
pub open spec fn payload_ok(
    ev: crate::event::EventDataV,
    row: RowDataV,
    sess: Seq<crate::session::SessionPropertyV>,
) -> bool {
    if row.auth.allow_read.len() == 0 {
        ev.data_bytes == Some(row.data)
    } else {
        match crate::pipeline::read_match_from(row.auth.allow_read, sess, 0) {
            Some(k) => match crate::pipeline::first_iv_from(ev.meta, 0) {
                Some(iv) => ev.data_bytes == Some(
                    crate::crypto::spec_encrypt(k.seed, iv.nonce, row.data),
                ),
                None => false,
            },
            None => false,
        }
    }
}

/// One committed data event: it marks the staged row's key, carries its
/// tree link, authorization, the batch timestamp and the transformed
/// payload, and retires nothing.
pub open spec fn commit_event_shape_data(
    ev: crate::event::EventDataV,
    row: RowDataV,
    ts: u64,
    sess: Seq<crate::session::SessionPropertyV>,
) -> bool {
    &&& crate::meta::first_data_key_from(ev.meta, 0) == Some(row.key)
    &&& crate::meta::first_tombstone_from(ev.meta, 0) is None
    &&& crate::meta::first_tree_from(ev.meta, 0) == row.tree
    &&& crate::meta::first_timestamp_from(ev.meta, 0) == Some(
        crate::meta::MetaTimestamp { time_since_epoch_ms: ts },
    )
    &&& crate::meta::first_auth_from(ev.meta, 0) == Some(row.auth)
    &&& payload_ok(ev, row, sess)
}

/// One committed tombstone event: it retires the deleted row's key, marks
/// no data, and carries the row's authorization, tree link and the batch
/// timestamp with no payload.
pub open spec fn commit_event_shape_tomb(ev: crate::event::EventDataV, row: RowDataV, ts: u64) -> bool {
    &&& crate::meta::first_data_key_from(ev.meta, 0) is None
    &&& crate::meta::first_tombstone_from(ev.meta, 0) == Some(row.key)
    &&& crate::meta::first_tree_from(ev.meta, 0) == row.tree
    &&& crate::meta::first_timestamp_from(ev.meta, 0) == Some(
        crate::meta::MetaTimestamp { time_since_epoch_ms: ts },
    )
    &&& crate::meta::first_auth_from(ev.meta, 0) == Some(row.auth)
    &&& ev.data_bytes is None
}

/// The shape of a committed batch: an optional leading envelope that marks
/// and retires nothing, one data event per staged row in stage order, then
/// one tombstone per deleted row in deletion order.
pub open spec fn commit_batch_shape(
    evs: Seq<crate::event::EventDataV>,
    rows: Seq<RowDataV>,
    dels: Seq<RowDataV>,
    ts: u64,
    sess: Seq<crate::session::SessionPropertyV>,
) -> bool {
    let b = evs.len() - rows.len() - dels.len();
    &&& evs.len() >= rows.len() + dels.len()
    &&& b <= 1
    &&& (b == 1 ==> crate::meta::first_data_key_from(evs[0].meta, 0) is None
        && crate::meta::first_tombstone_from(evs[0].meta, 0) is None)
    &&& forall|i: int|
        0 <= i < rows.len() ==> commit_event_shape_data(#[trigger] evs[b + i], rows[i], ts, sess)
    &&& forall|i: int|
        0 <= i < dels.len() ==> commit_event_shape_tomb(
            #[trigger] evs[b + rows.len() + i],
            dels[i],
            ts,
        )
}

/// The views of the rows deleted in a view, in deletion order.
pub open spec fn deleted_views(s: Seq<(u64, RowData)>) -> Seq<RowDataV> {
    s.map_values(|p: (u64, RowData)| p.1@)
}

impl Dio {
    /// Builds one data event for a staged row: its header marks the key,
    /// carries the row's authorization, tree link, the lint entries and the
    /// transformed payload.
    fn build_data_event(&self, chain: &Chain, rd: &RowData, now_ms: u64) -> (r: Result<
        EventData,
        CommitError,
    >)
        requires
            chain.enforcer.ntp_result.offset_us != i64::MIN,
        ensures
            r matches Ok(ev) ==> commit_event_shape_data(
                ev@,
                rd@,
                (now_ms + crate::time::spec_div1000(chain.enforcer.ntp_result.offset_us)) as u64,
                self.session@,
            ),
            r matches Err(e) ==> ((e matches CommitError::LintError(le) && le matches
                LintError::Time(_) && (now_ms + crate::time::spec_div1000(
                chain.enforcer.ntp_result.offset_us,
            ) < 0 || now_ms + crate::time::spec_div1000(chain.enforcer.ntp_result.offset_us)
                > u64::MAX)) || (e is SerializationError && rd@.auth.allow_read.len() > 0
                && crate::pipeline::read_match_from(
                rd@.auth.allow_read,
                self.session@,
                0,
            ) is None)),
    {
        let ghost ts = (now_ms + crate::time::spec_div1000(
            chain.enforcer.ntp_result.offset_us,
        )) as u64;
        let mut meta = Metadata::for_data(rd.key);
        meta.push_entry(CoreMetadata::Authorization(copy_auth(&rd.auth)));
        if let Some(t) = rd.tree {
            meta.push_entry(CoreMetadata::Tree(t));
        }
        let ghost before_lint = meta@;
        let extra = match crate::pipeline::metadata_lint_event(
            &chain.enforcer,
            &self.session,
            now_ms,
        ) {
            Ok(v) => v,
            Err(e) => {
                return Err(CommitError::LintError(e));
            },
        };
        let mut x: usize = 0;
        while x < extra.len()
            invariant
                x <= extra@.len(),
                meta@ == before_lint + crate::meta::core_view(extra@).subrange(0, x as int),
            decreases extra@.len() - x,
        {
            meta.push_entry(crate::meta::copy_entry(&extra[x]));
            x = x + 1;
            proof {
                assert(meta@ =~= before_lint + crate::meta::core_view(extra@).subrange(
                    0,
                    x as int,
                ));
            }
        }
        proof {
            assert(crate::meta::core_view(extra@).subrange(
                0,
                extra@.len() as int,
            ) =~= crate::meta::core_view(extra@));
        }
        let (payload, iv) = match crate::pipeline::data_as_underlay(
            &rd.auth,
            &rd.data_bytes,
            &self.session,
        ) {
            Ok(p) => p,
            Err(_) => {
                return Err(CommitError::SerializationError);
            },
        };
        if let Some(ivv) = iv {
            meta.push_entry(CoreMetadata::InitializationVector(ivv));
        }
        let ev = EventData { meta, data_bytes: Some(payload), format: self.default_format };
        proof {
            let mv = ev.meta@;
            let t: int = if rd.tree is Some {
                1int
            } else {
                0int
            };
            assert(mv[0] == CoreMetadataV::Data(rd@.key));
            assert(mv[1] == CoreMetadataV::Authorization(rd@.auth));
            crate::meta::lemma_first_auth_at(mv, 0, 1, rd@.auth);
            assert forall|j: int| 0 <= j < mv.len() implies !((#[trigger] mv[j])
                is Tombstone) by {}
            crate::meta::lemma_no_tombstone(mv, 0);
            match rd@.tree {
                Some(tr) => {
                    assert(mv[2] == CoreMetadataV::Tree(tr));
                    crate::meta::lemma_first_tree_at(mv, 0, 2, tr);
                },
                None => {
                    assert forall|j: int| 0 <= j < mv.len() implies !((#[trigger] mv[j])
                        is Tree) by {}
                    crate::meta::lemma_no_tree(mv, 0);
                },
            }
            assert(mv[2 + t] == CoreMetadataV::Timestamp(
                crate::meta::MetaTimestamp { time_since_epoch_ms: ts },
            ));
            crate::meta::lemma_first_timestamp_at(
                mv,
                0,
                2 + t,
                crate::meta::MetaTimestamp { time_since_epoch_ms: ts },
            );
            match iv {
                Some(ivv) => {
                    assert(mv[mv.len() - 1] == CoreMetadataV::InitializationVector(ivv));
                    crate::pipeline::lemma_first_iv_at(mv, 0, mv.len() - 1, ivv);
                },
                None => {},
            }
            assert(payload_ok(ev@, rd@, self.session@));
        }
        Ok(ev)
    }

    /// Builds one tombstone event for a deleted row: its header carries the
    /// row's authorization, tree link, the lint entries and the tombstone,
    /// and no payload.
    fn build_tombstone_event(&self, chain: &Chain, rd: &RowData, now_ms: u64) -> (r: Result<
        EventData,
        CommitError,
    >)
        requires
            chain.enforcer.ntp_result.offset_us != i64::MIN,
        ensures
            r matches Ok(ev) ==> commit_event_shape_tomb(
                ev@,
                rd@,
                (now_ms + crate::time::spec_div1000(chain.enforcer.ntp_result.offset_us)) as u64,
            ),
            r matches Err(e) ==> (e matches CommitError::LintError(le) && le matches
                LintError::Time(_) && (now_ms + crate::time::spec_div1000(
                chain.enforcer.ntp_result.offset_us,
            ) < 0 || now_ms + crate::time::spec_div1000(chain.enforcer.ntp_result.offset_us)
                > u64::MAX)),
    {
        let ghost ts = (now_ms + crate::time::spec_div1000(
            chain.enforcer.ntp_result.offset_us,
        )) as u64;
        let mut meta = Metadata::new_empty();
        meta.push_entry(CoreMetadata::Authorization(copy_auth(&rd.auth)));
        if let Some(t) = rd.tree {
            meta.push_entry(CoreMetadata::Tree(t));
        }
        let ghost before_lint = meta@;
        let extra = match crate::pipeline::metadata_lint_event(
            &chain.enforcer,
            &self.session,
            now_ms,
        ) {
            Ok(v) => v,
            Err(e) => {
                return Err(CommitError::LintError(e));
            },
        };
        let mut x: usize = 0;
        while x < extra.len()
            invariant
                x <= extra@.len(),
                meta@ == before_lint + crate::meta::core_view(extra@).subrange(0, x as int),
            decreases extra@.len() - x,
        {
            meta.push_entry(crate::meta::copy_entry(&extra[x]));
            x = x + 1;
            proof {
                assert(meta@ =~= before_lint + crate::meta::core_view(extra@).subrange(
                    0,
                    x as int,
                ));
            }
        }
        proof {
            assert(crate::meta::core_view(extra@).subrange(
                0,
                extra@.len() as int,
            ) =~= crate::meta::core_view(extra@));
            assert forall|j: int| 0 <= j < meta@.len() implies !((#[trigger] meta@[j])
                is Data) by {}
            crate::meta::lemma_no_data_key(meta@, 0);
        }
        meta.add_tombstone(rd.key);
        let ev = EventData { meta, data_bytes: None, format: self.default_format };
        proof {
            let mv = ev.meta@;
            let t: int = if rd.tree is Some {
                1int
            } else {
                0int
            };
            assert(mv[0] == CoreMetadataV::Authorization(rd@.auth));
            crate::meta::lemma_first_auth_at(mv, 0, 0, rd@.auth);
            assert(mv[mv.len() - 1] == CoreMetadataV::Tombstone(rd@.key));
            crate::meta::lemma_first_tombstone_at(mv, 0, mv.len() - 1, rd@.key);
            assert forall|j: int| 0 <= j < mv.len() implies !((#[trigger] mv[j]) is Data) by {}
            crate::meta::lemma_no_data_key(mv, 0);
            match rd@.tree {
                Some(tr) => {
                    assert(mv[1] == CoreMetadataV::Tree(tr));
                    crate::meta::lemma_first_tree_at(mv, 0, 1, tr);
                },
                None => {
                    assert forall|j: int| 0 <= j < mv.len() implies !((#[trigger] mv[j])
                        is Tree) by {}
                    crate::meta::lemma_no_tree(mv, 0);
                },
            }
            assert(mv[1 + t] == CoreMetadataV::Timestamp(
                crate::meta::MetaTimestamp { time_since_epoch_ms: ts },
            ));
            crate::meta::lemma_first_timestamp_at(
                mv,
                0,
                1 + t,
                crate::meta::MetaTimestamp { time_since_epoch_ms: ts },
            );
        }
        Ok(ev)
    }

    /// Commits the stage: builds one data event per flushed row in stage
    /// order and one tombstone per deleted row, enriches every header
    /// through the lint stages, puts the batch's signature envelope first,
    /// and feeds the whole batch to the chain as one transaction.
    /// Validation failures abort the batch, leaving the chain and this
    /// view's stage untouched, so the commit may be retried. On success the
    /// stage is drained; locks and the load cache stay.
    #[verifier::rlimit(100)]
    #[verifier::spinoff_prover]
    pub fn commit(&mut self, chain: &mut Chain, now_ms: u64) -> (r: Result<(), CommitError>)
        requires
            old(self).wf(),
            old(chain).wf(),
            now_ms + old(chain).enforcer.tolerance_ms <= u64::MAX,
            old(chain).enforcer.ntp_result.offset_us != i64::MIN,
            old(chain).log@.len() + old(self).state.store@.len() + old(self).state.deleted.spec_len()
                + 1 <= u64::MAX,
        ensures
            final(self).wf(),
            final(chain).wf(),
            final(chain).enforcer.tolerance_ms == old(chain).enforcer.tolerance_ms,
            old(self).state.store@.len() == 0 && old(self).state.deleted.spec_len() == 0 ==> (r
                is Ok && final(chain).log@ == old(chain).log@ && final(self).state == old(
                self,
            ).state),
            r is Err ==> (final(chain).log@ == old(chain).log@ && final(self).state == old(
                self,
            ).state),
            r is Ok && (old(self).state.store@.len() > 0 || old(self).state.deleted.spec_len() > 0)
                ==> ({
                let evs = final(chain).log@.subrange(
                    old(chain).log@.len() as int,
                    final(chain).log@.len() as int,
                );
                &&& final(chain).log@.len() > old(chain).log@.len()
                &&& final(chain).log@.subrange(0, old(chain).log@.len() as int) == old(
                    chain,
                ).log@
                &&& commit_batch_shape(
                    evs,
                    store_views(old(self).state.store@),
                    deleted_views(old(self).state.deleted.s()),
                    (now_ms + crate::time::spec_div1000(
                        old(chain).enforcer.ntp_result.offset_us,
                    )) as u64,
                    old(self).session@,
                )
                &&& crate::chain::batch_ok(
                    evs,
                    old(chain).trusted_keys@ + crate::chain::batch_pks(evs),
                    old(chain).enforcer.cursor_ms,
                    old(chain).enforcer.tolerance_ms,
                    now_ms,
                )
                &&& final(self).state.store@.len() == 0
                &&& final(self).state.staged_m() == Map::<u64, RowDataV>::empty()
                &&& final(self).state.cache_store_secondary.m() == Map::<
                    (u64, u64),
                    Seq<u64>,
                >::empty()
                &&& final(self).state.deleted_m() == Map::<u64, RowDataV>::empty()
                &&& final(self).state.locked == old(self).state.locked
                &&& final(self).state.cache_load == old(self).state.cache_load
            }),
            r matches Err(e) ==> (match e {
                CommitError::SerializationError => exists|i: int|
                    0 <= i < store_views(old(self).state.store@).len() && ((
                    #[trigger] store_views(old(self).state.store@)[i]).auth.allow_read.len() > 0
                        && crate::pipeline::read_match_from(
                        store_views(old(self).state.store@)[i].auth.allow_read,
                        old(self).session@,
                        0,
                    ) is None),
                CommitError::LintError(le) => match le {
                    LintError::Time(_) => now_ms + crate::time::spec_div1000(
                        old(chain).enforcer.ntp_result.offset_us,
                    ) < 0 || now_ms + crate::time::spec_div1000(
                        old(chain).enforcer.ntp_result.offset_us,
                    ) > u64::MAX,
                    LintError::MissingWriteKey(h) => crate::session::write_key_lookup_from(
                        old(self).session@,
                        h,
                        0,
                    ) is None && (rows_name_hash(store_views(old(self).state.store@), h)
                        || rows_name_hash(deleted_views(old(self).state.deleted.s()), h)),
                },
                CommitError::ValidationError(_) => exists|evs: Seq<crate::event::EventDataV>|
                    #[trigger] commit_batch_shape(
                        evs,
                        store_views(old(self).state.store@),
                        deleted_views(old(self).state.deleted.s()),
                        (now_ms + crate::time::spec_div1000(
                            old(chain).enforcer.ntp_result.offset_us,
                        )) as u64,
                        old(self).session@,
                    ) && !crate::chain::batch_ok(
                        evs,
                        old(chain).trusted_keys@ + crate::chain::batch_pks(evs),
                        old(chain).enforcer.cursor_ms,
                        old(chain).enforcer.tolerance_ms,
                        now_ms,
                    ),
                _ => false,
            }),
    {
        if self.state.store.len() == 0 && self.state.deleted.is_empty() {
            return Ok(());
        }
        let ghost ts = (now_ms + crate::time::spec_div1000(
            chain.enforcer.ntp_result.offset_us,
        )) as u64;
        let mut evts: Vec<EventData> = Vec::new();

        let mut i: usize = 0;
        while i < self.state.store.len()
            invariant
                i <= self.state.store@.len(),
                evts@.len() == i,
                *self == *old(self),
                *chain == *old(chain),
                old(self).wf(),
                old(chain).wf(),
                old(chain).enforcer.ntp_result.offset_us != i64::MIN,
                forall|j: int|
                    0 <= j < i ==> commit_event_shape_data(
                        (#[trigger] evts@[j])@,
                        store_views(old(self).state.store@)[j],
                        (now_ms + crate::time::spec_div1000(
                            old(chain).enforcer.ntp_result.offset_us,
                        )) as u64,
                        old(self).session@,
                    ),
            decreases self.state.store@.len() - i,
        {
            let ev = match self.build_data_event(chain, &self.state.store[i], now_ms) {
                Ok(ev) => ev,
                Err(e) => {
                    proof {
                        if e is SerializationError {
                            assert(store_views(old(self).state.store@)[i as int]
                                == self.state.store@[i as int]@);
                        }
                    }
                    return Err(e);
                },
            };
            evts.push(ev);
            i = i + 1;
        }
        let ghost n_rows = self.state.store@.len() as int;

        let mut d: usize = 0;
        while d < self.state.deleted.len()
            invariant
                d <= self.state.deleted.spec_len(),
                evts@.len() == n_rows + d,
                n_rows == old(self).state.store@.len(),
                *self == *old(self),
                *chain == *old(chain),
                old(self).wf(),
                old(chain).wf(),
                old(chain).enforcer.ntp_result.offset_us != i64::MIN,
                forall|j: int|
                    0 <= j < n_rows ==> commit_event_shape_data(
                        (#[trigger] evts@[j])@,
                        store_views(old(self).state.store@)[j],
                        (now_ms + crate::time::spec_div1000(
                            old(chain).enforcer.ntp_result.offset_us,
                        )) as u64,
                        old(self).session@,
                    ),
                forall|j: int|
                    0 <= j < d ==> commit_event_shape_tomb(
                        (#[trigger] evts@[n_rows + j])@,
                        deleted_views(old(self).state.deleted.s())[j],
                        (now_ms + crate::time::spec_div1000(
                            old(chain).enforcer.ntp_result.offset_us,
                        )) as u64,
                    ),
            decreases self.state.deleted.spec_len() - d,
        {
            let entry = self.state.deleted.entry_at(d);
            let ev = match self.build_tombstone_event(chain, &entry.1, now_ms) {
                Ok(ev) => ev,
                Err(e) => {
                    return Err(e);
                },
            };
            evts.push(ev);
            d = d + 1;
        }
        let ghost n_dels = self.state.deleted.spec_len() as int;

        // The batch-wide lint: the signature envelope, put first when it
        // carries anything.
        let envelope = match crate::pipeline::metadata_lint_many(&evts, &self.session) {
            Ok(v) => v,
            Err(e) => {
                proof {
                    match e {
                        LintError::MissingWriteKey(h) => {
                            let (j, x): (int, int) = choose|j: int, x: int|
                                0 <= j < evts@.len() && 0 <= x < crate::pipeline::write_hashes_of(
                                    evts@[j]@.meta,
                                ).len() && (#[trigger] crate::pipeline::write_hashes_of(
                                    evts@[j]@.meta,
                                )[x]) == h;
                            if j < n_rows {
                                let rows = store_views(old(self).state.store@);
                                assert(crate::meta::first_auth_from(evts@[j]@.meta, 0) == Some(
                                    rows[j].auth,
                                ));
                                assert(rows_name_hash(rows, h)) by {
                                    assert(rows[j].auth.allow_write[x] == h);
                                }
                            } else {
                                let dels = deleted_views(old(self).state.deleted.s());
                                let jj = j - n_rows;
                                assert(commit_event_shape_tomb(evts@[n_rows + jj]@, dels[jj], ts));
                                assert(crate::meta::first_auth_from(evts@[j]@.meta, 0) == Some(
                                    dels[jj].auth,
                                ));
                                assert(rows_name_hash(dels, h)) by {
                                    assert(dels[jj].auth.allow_write[x] == h);
                                }
                            }
                        },
                        _ => {},
                    }
                }
                return Err(CommitError::LintError(e));
            },
        };
        let ghost pre_env = evts@;
        if envelope.len() > 0 {
            let ghost envv = crate::meta::core_view(envelope@);
            let env_meta = Metadata { core: envelope, other: crate::meta::NoAdditionalMetadata {  } };
            let env_ev = EventData {
                meta: env_meta,
                data_bytes: None,
                format: self.default_format,
            };
            proof {
                let mv = env_ev.meta@;
                assert forall|j: int| 0 <= j < mv.len() implies !((#[trigger] mv[j])
                    is Data) by {}
                crate::meta::lemma_no_data_key(mv, 0);
                assert forall|j: int| 0 <= j < mv.len() implies !((#[trigger] mv[j])
                    is Tombstone) by {}
                crate::meta::lemma_no_tombstone(mv, 0);
            }
            evts.insert(0, env_ev);
        }

        let trans = Transaction { scope: self.scope, events: evts };
        match chain.feed(&trans, now_ms) {
            Ok(_) => {},
            Err(e) => {
                proof {
                    let evs = crate::chain::log_view(trans.events@);
                    let b: int = evs.len() - n_rows - n_dels;
                    assert forall|j: int| 0 <= j < n_rows implies commit_event_shape_data(
                        #[trigger] evs[b + j],
                        store_views(old(self).state.store@)[j],
                        ts,
                        old(self).session@,
                    ) by {
                        assert(evs[b + j] == pre_env[j]@);
                    }
                    assert forall|j: int| 0 <= j < n_dels implies commit_event_shape_tomb(
                        #[trigger] evs[b + n_rows + j],
                        deleted_views(old(self).state.deleted.s())[j],
                        ts,
                    ) by {
                        assert(evs[b + n_rows + j] == pre_env[n_rows + j]@);
                    }
                    assert(commit_batch_shape(
                        evs,
                        store_views(old(self).state.store@),
                        deleted_views(old(self).state.deleted.s()),
                        ts,
                        old(self).session@,
                    ));
                }
                return Err(e);
            },
        }

        // Drain the stage; locks and the load cache stay.
        self.state.store = Vec::new();
        self.state.cache_store_primary.clear();
        self.state.cache_store_secondary = PairMap::new();
        self.state.deleted.clear();
        proof {
            let evs = final(chain).log@.subrange(
                old(chain).log@.len() as int,
                final(chain).log@.len() as int,
            );
            assert(evs =~= crate::chain::log_view(trans.events@));
            assert(final(chain).log@.subrange(0, old(chain).log@.len() as int) =~= old(
                chain,
            ).log@);
            let b: int = evs.len() - n_rows - n_dels;
            assert forall|j: int| 0 <= j < n_rows implies commit_event_shape_data(
                #[trigger] evs[b + j],
                store_views(old(self).state.store@)[j],
                ts,
                old(self).session@,
            ) by {
                assert(evs[b + j] == pre_env[j]@);
            }
            assert forall|j: int| 0 <= j < n_dels implies commit_event_shape_tomb(
                #[trigger] evs[b + n_rows + j],
                deleted_views(old(self).state.deleted.s())[j],
                ts,
            ) by {
                assert(evs[b + n_rows + j] == pre_env[n_rows + j]@);
            }
            assert(final(self).state.staged_m() =~= Map::<u64, RowDataV>::empty());
            assert(final(self).state.deleted_m() =~= Map::<u64, RowDataV>::empty());
        }
        Ok(())
    }
}


/// The keys of a list of handles, in order.
pub open spec fn dao_keys<D>(list: Seq<Dao<D>>) -> Seq<u64> {
    list.map_values(|d: Dao<D>| d.row.key.value)
}

/// The members a collection has in a map, or none.
pub open spec fn members_of(m: Map<(u64, u64), Seq<u64>>, ck: (u64, u64)) -> Seq<u64> {
    if m.dom().contains(ck) {
        m[ck]
    } else {
        Seq::empty()
    }
}

/// True when a cached entry carries everything a load of type `D` needs: a
/// payload, a data key, and bytes that decode.
pub open spec fn cached_entry_good<D: RowCodec>(pair: (crate::event::EventDataV, EventLeaf)) -> bool {
    match pair.0.data_bytes {
        Some(d) => crate::meta::first_data_key_from(pair.0.meta, 0) is Some && D::spec_decode(
            d,
        ) is Some,
        None => false,
    }
}

/// True when loading `k` through a view in state `st` would fail rather
/// than produce a row or be skipped: the key is locked, a staged or cached
/// row for it does not decode, or its live chain event lacks a payload,
/// cannot be decrypted by the session, or does not decode. Deleted keys and
/// keys absent from the chain are skips, not failures.
pub open spec fn member_blocked<D: RowCodec>(
    st: DioState,
    sess: Seq<crate::session::SessionPropertyV>,
    chainlog: Seq<crate::event::EventDataV>,
    k: u64,
) -> bool {
    if st.spec_locked(k) {
        true
    } else if st.spec_staged(k) {
        D::spec_decode(st.staged_m()[k].data) is None
    } else if st.spec_cached(k) {
        !cached_entry_good::<D>(st.loaded_m()[k])
    } else if st.spec_deleted(k) {
        false
    } else if !crate::chain::primary_of(chainlog).dom().contains(k) {
        false
    } else {
        let leaf = crate::chain::primary_of(chainlog)[k];
        let ev = chainlog[leaf.offset_in_log as int];
        match ev.data_bytes {
            None => true,
            Some(c) => match crate::pipeline::spec_overlay(
                effective_auth(ev.meta),
                crate::pipeline::first_iv_from(ev.meta, 0),
                c,
                sess,
            ) {
                None => true,
                Some(p) => D::spec_decode(p) is None,
            },
        }
    }
}

impl Dio {
    /// The rows filed under `(parent, collection)`: the union of the
    /// chain's secondary index and this view's stage, each key once, rows
    /// deleted in this view left out. A locked member fails the whole call.
    pub fn children<D: RowCodec>(
        &mut self,
        chain: &Chain,
        parent_id: PrimaryKey,
        collection_id: u64,
    ) -> (r: Result<Vec<Dao<D>>, LoadError>)
        requires
            old(self).wf(),
            chain.wf(),
        ensures
            final(self).wf(),
            final(self).state.store@ == old(self).state.store@,
            final(self).state.cache_store_primary == old(self).state.cache_store_primary,
            final(self).state.cache_store_secondary == old(self).state.cache_store_secondary,
            final(self).state.locked == old(self).state.locked,
            final(self).state.deleted == old(self).state.deleted,
            final(self).session == old(self).session,
            r matches Ok(list) ==> ({
                let ck = (parent_id.value, collection_id);
                let chain_members = members_of(crate::chain::secondary_of(chain.log@), ck);
                let staged_members = members_of(old(self).state.cache_store_secondary.m(), ck);
                &&& crate::kmap::nodup(dao_keys(list@))
                &&& forall|i: int|
                    0 <= i < list@.len() ==> (chain_members.contains(
                        (#[trigger] list@[i]).row.key.value,
                    ) || staged_members.contains(list@[i].row.key.value))
                &&& forall|i: int|
                    0 <= i < list@.len() ==> (!old(self).state.spec_deleted(
                        (#[trigger] list@[i]).row.key.value,
                    ) || old(self).state.spec_staged(list@[i].row.key.value))
                &&& forall|i: int|
                    0 <= i < list@.len() ==> !(#[trigger] list@[i]).dirty
                &&& forall|x: int|
                    0 <= x < chain_members.len() && !old(self).state.spec_deleted(
                        #[trigger] chain_members[x],
                    ) && crate::chain::primary_of(chain.log@).dom().contains(chain_members[x])
                        ==> dao_keys(list@).contains(chain_members[x])
                &&& forall|x: int|
                    0 <= x < staged_members.len() && old(self).state.spec_staged(
                        #[trigger] staged_members[x],
                    ) ==> dao_keys(list@).contains(staged_members[x])
            }),
            r matches Err(LoadError::ObjectStillLocked(k2)) ==> (old(self).state.spec_locked(
                k2.value,
            ) && (members_of(crate::chain::secondary_of(chain.log@), (
                parent_id.value,
                collection_id,
            )).contains(k2.value) || members_of(old(self).state.cache_store_secondary.m(), (
                parent_id.value,
                collection_id,
            )).contains(k2.value))),
            r is Err ==> exists|k: u64|
                (members_of(crate::chain::secondary_of(chain.log@), (
                    parent_id.value,
                    collection_id,
                )).contains(k) || members_of(old(self).state.cache_store_secondary.m(), (
                    parent_id.value,
                    collection_id,
                )).contains(k)) && #[trigger] member_blocked::<D>(
                    old(self).state,
                    old(self).session@,
                    chain.log@,
                    k,
                ),
    {
        let ck = (parent_id.value, collection_id);
        let ghost chain_members = members_of(crate::chain::secondary_of(chain.log@), ck);
        let ghost staged_members = members_of(old(self).state.cache_store_secondary.m(), ck);
        let mut ret: Vec<Dao<D>> = Vec::new();
        let mut already = crate::kmap::KSet::new();

        let chain_list: Vec<u64> = match chain.lookup_secondary_raw(&parent_id, collection_id) {
            Some(v) => v,
            None => Vec::new(),
        };
        proof {
            assert(chain_list@ =~= chain_members);
        }
        let mut x: usize = 0;
        while x < chain_list.len()
            invariant
                chain.wf(),
                x <= chain_list@.len(),
                chain_list@ == chain_members,
                chain_members == members_of(crate::chain::secondary_of(chain.log@), (
                    parent_id.value,
                    collection_id,
                )),
                staged_members == members_of(old(self).state.cache_store_secondary.m(), (
                    parent_id.value,
                    collection_id,
                )),
                self.wf(),
                already.wf(),
                self.state.store@ == old(self).state.store@,
                self.state.cache_store_primary == old(self).state.cache_store_primary,
                self.state.cache_store_secondary == old(self).state.cache_store_secondary,
                self.state.locked == old(self).state.locked,
                self.state.deleted == old(self).state.deleted,
                self.session == old(self).session,
                forall|k2: u64| #[trigger]
                    old(self).state.spec_cached(k2) ==> self.state.spec_cached(k2)
                        && self.state.loaded_m()[k2] == old(self).state.loaded_m()[k2],
                forall|k2: u64| #[trigger]
                    self.state.spec_cached(k2) ==> old(self).state.spec_cached(k2)
                        || cached_entry_good::<D>(self.state.loaded_m()[k2]),
                forall|k: u64| already.set().contains(k) == dao_keys(ret@).contains(k),
                crate::kmap::nodup(dao_keys(ret@)),
                forall|i: int|
                    0 <= i < ret@.len() ==> chain_members.contains(
                        (#[trigger] ret@[i]).row.key.value,
                    ),
                forall|i: int|
                    0 <= i < ret@.len() ==> (!old(self).state.spec_deleted(
                        (#[trigger] ret@[i]).row.key.value,
                    ) || old(self).state.spec_staged(ret@[i].row.key.value)),
                forall|i: int| 0 <= i < ret@.len() ==> !(#[trigger] ret@[i]).dirty,
                forall|y: int|
                    0 <= y < x && !old(self).state.spec_deleted(#[trigger] chain_members[y])
                        && crate::chain::primary_of(chain.log@).dom().contains(chain_members[y])
                        ==> dao_keys(ret@).contains(chain_members[y]),
            decreases chain_list@.len() - x,
        {
            let k = chain_list[x];
            let pk = PrimaryKey { value: k };
            if already.contains(k) {
                x = x + 1;
                continue ;
            }
            match self.load::<D>(chain, &pk) {
                Ok(dao) => {
                    let ghost prev = ret@;
                    already.insert(k);
                    ret.push(dao);
                    proof {
                        assert(dao_keys(ret@) =~= dao_keys(prev).push(k));
                        assert(dao_keys(ret@)[dao_keys(ret@).len() - 1] == k);
                        assert(dao_keys(ret@).contains(k));
                        assert forall|k2: u64| dao_keys(prev).contains(k2) implies dao_keys(
                            ret@,
                        ).contains(k2) by {
                            let w = choose|w: int|
                                0 <= w < dao_keys(prev).len() && dao_keys(prev)[w] == k2;
                            assert(dao_keys(ret@)[w] == k2);
                        }
                        assert forall|k2: u64| already.set().contains(k2) == dao_keys(
                            ret@,
                        ).contains(k2) by {
                            if dao_keys(ret@).contains(k2) {
                                let w = choose|w: int|
                                    0 <= w < dao_keys(ret@).len() && dao_keys(ret@)[w] == k2;
                                if w < dao_keys(prev).len() {
                                    assert(dao_keys(prev)[w] == k2);
                                }
                            }
                        }
                        assert(chain_members.contains(k)) by {
                            assert(chain_members[x as int] == k);
                        }
                    }
                },
                Err(LoadError::AlreadyDeleted(_)) => {
                    proof {
                        if !old(self).state.spec_deleted(k) && crate::chain::primary_of(
                            chain.log@,
                        ).dom().contains(k) {
                            assert(false);
                        }
                    }
                },
                Err(LoadError::NotFound(_)) => {
                    proof {
                        if !old(self).state.spec_deleted(k) && crate::chain::primary_of(
                            chain.log@,
                        ).dom().contains(k) {
                            assert(false);
                        }
                    }
                },
                Err(e) => {
                    proof {
                        assert(chain_members.contains(k)) by {
                            assert(chain_members[x as int] == k);
                        }
                        if !member_blocked::<D>(
                            old(self).state,
                            old(self).session@,
                            chain.log@,
                            k,
                        ) {
                            assert(false);
                        }
                    }
                    return Err(e);
                },
            }
            x = x + 1;
        }

        let staged_list: Vec<u64> = match self.state.cache_store_secondary.get_vec(ck) {
            Some(v) => {
                let c = v.clone();
                proof {
                    assert(c@ =~= v@);
                }
                c
            },
            None => Vec::new(),
        };
        proof {
            assert(staged_list@ =~= staged_members);
        }
        let mut y: usize = 0;
        while y < staged_list.len()
            invariant
                chain.wf(),
                y <= staged_list@.len(),
                chain_list@ == chain_members,
                staged_list@ == staged_members,
                chain_members == members_of(crate::chain::secondary_of(chain.log@), (
                    parent_id.value,
                    collection_id,
                )),
                staged_members == members_of(old(self).state.cache_store_secondary.m(), (
                    parent_id.value,
                    collection_id,
                )),
                self.wf(),
                already.wf(),
                self.state.store@ == old(self).state.store@,
                self.state.cache_store_primary == old(self).state.cache_store_primary,
                self.state.cache_store_secondary == old(self).state.cache_store_secondary,
                self.state.locked == old(self).state.locked,
                self.state.deleted == old(self).state.deleted,
                self.session == old(self).session,
                forall|k2: u64| #[trigger]
                    old(self).state.spec_cached(k2) ==> self.state.spec_cached(k2)
                        && self.state.loaded_m()[k2] == old(self).state.loaded_m()[k2],
                forall|k2: u64| #[trigger]
                    self.state.spec_cached(k2) ==> old(self).state.spec_cached(k2)
                        || cached_entry_good::<D>(self.state.loaded_m()[k2]),
                forall|k: u64| already.set().contains(k) == dao_keys(ret@).contains(k),
                crate::kmap::nodup(dao_keys(ret@)),
                forall|i: int|
                    0 <= i < ret@.len() ==> (chain_members.contains(
                        (#[trigger] ret@[i]).row.key.value,
                    ) || staged_members.contains(ret@[i].row.key.value)),
                forall|i: int|
                    0 <= i < ret@.len() ==> (!old(self).state.spec_deleted(
                        (#[trigger] ret@[i]).row.key.value,
                    ) || old(self).state.spec_staged(ret@[i].row.key.value)),
                forall|i: int| 0 <= i < ret@.len() ==> !(#[trigger] ret@[i]).dirty,
                forall|z: int|
                    0 <= z < chain_members.len() && !old(self).state.spec_deleted(
                        #[trigger] chain_members[z],
                    ) && crate::chain::primary_of(chain.log@).dom().contains(chain_members[z])
                        ==> dao_keys(ret@).contains(chain_members[z]),
                forall|z: int|
                    0 <= z < y && old(self).state.spec_staged(#[trigger] staged_members[z])
                        ==> dao_keys(ret@).contains(staged_members[z]),
            decreases staged_list@.len() - y,
        {
            let k = staged_list[y];
            let pk = PrimaryKey { value: k };
            if already.contains(k) {
                y = y + 1;
                continue ;
            }
            match self.load::<D>(chain, &pk) {
                Ok(dao) => {
                    let ghost prev = ret@;
                    already.insert(k);
                    ret.push(dao);
                    proof {
                        assert(dao_keys(ret@) =~= dao_keys(prev).push(k));
                        assert(dao_keys(ret@)[dao_keys(ret@).len() - 1] == k);
                        assert(dao_keys(ret@).contains(k));
                        assert forall|k2: u64| dao_keys(prev).contains(k2) implies dao_keys(
                            ret@,
                        ).contains(k2) by {
                            let w = choose|w: int|
                                0 <= w < dao_keys(prev).len() && dao_keys(prev)[w] == k2;
                            assert(dao_keys(ret@)[w] == k2);
                        }
                        assert forall|k2: u64| already.set().contains(k2) == dao_keys(
                            ret@,
                        ).contains(k2) by {
                            if dao_keys(ret@).contains(k2) {
                                let w = choose|w: int|
                                    0 <= w < dao_keys(ret@).len() && dao_keys(ret@)[w] == k2;
                                if w < dao_keys(prev).len() {
                                    assert(dao_keys(prev)[w] == k2);
                                }
                            }
                        }
                        assert(staged_members.contains(k)) by {
                            assert(staged_members[y as int] == k);
                        }
                    }
                },
                Err(LoadError::AlreadyDeleted(_)) => {
                    proof {
                        if old(self).state.spec_staged(k) {
                            assert(false);
                        }
                        if !old(self).state.spec_deleted(k) && crate::chain::primary_of(
                            chain.log@,
                        ).dom().contains(k) {
                            assert(false);
                        }
                    }
                },
                Err(LoadError::NotFound(_)) => {
                    proof {
                        if old(self).state.spec_staged(k) {
                            assert(false);
                        }
                        if !old(self).state.spec_deleted(k) && crate::chain::primary_of(
                            chain.log@,
                        ).dom().contains(k) {
                            assert(false);
                        }
                    }
                },
                Err(e) => {
                    proof {
                        assert(staged_members.contains(k)) by {
                            assert(staged_members[y as int] == k);
                        }
                        if !member_blocked::<D>(
                            old(self).state,
                            old(self).session@,
                            chain.log@,
                            k,
                        ) {
                            assert(false);
                        }
                    }
                    return Err(e);
                },
            }
            y = y + 1;
        }
        Ok(ret)
    }
}


/// A collection handle embedded in a row: rows pushed through it are filed
/// under the owning row's key and this handle's collection identifier.
#[derive(Debug)]
pub struct DaoVec<D> {
    pub vec_id: u64,
    pub marker: core::marker::PhantomData<D>,
}

impl<D> View for DaoVec<D> {
    type V = u64;

    open spec fn view(&self) -> u64 {
        self.vec_id
    }
}

impl<D> Default for DaoVec<D> {
    /// A handle on collection zero of the owning row.
    fn default() -> (r: DaoVec<D>)
        ensures
            r.vec_id == 0,
    {
        DaoVec { vec_id: 0, marker: core::marker::PhantomData }
    }
}

impl<D: RowCodec> DaoVec<D> {
    pub fn new(vec_id: u64) -> (r: DaoVec<D>)
        ensures
            r.vec_id == vec_id,
    {
        DaoVec { vec_id, marker: core::marker::PhantomData }
    }

    /// The collection identifier rows are filed under.
    pub fn collection_id(&self) -> (r: u64)
        ensures
            r == self.vec_id,
    {
        self.vec_id
    }

    /// Stores a new child row filed under `(parent, this collection)`,
    /// inheriting the parent's read and write authority.
    pub fn push(&self, dio: &mut Dio, parent: PrimaryKey, data: D) -> (r: Result<
        Dao<D>,
        LoadError,
    >)
        requires
            old(dio).wf(),
        ensures
            final(dio).wf(),
            r is Ok,
            r matches Ok(dao) ==> {
                &&& dao.row.data@ == data@
                &&& dao.dirty
                &&& dao.row.tree == Some(
                    MetaTree {
                        vec: MetaCollection { parent_id: parent, collection_id: self.vec_id },
                        inherit_read: true,
                        inherit_write: true,
                    },
                )
                &&& final(dio).state.locked.set() == old(dio).state.locked.set().insert(
                    dao.row.key.value,
                )
            },
            final(dio).state.store@ == old(dio).state.store@,
            final(dio).state.cache_store_primary == old(dio).state.cache_store_primary,
            final(dio).state.cache_store_secondary == old(dio).state.cache_store_secondary,
            final(dio).state.cache_load == old(dio).state.cache_load,
            final(dio).state.deleted == old(dio).state.deleted,
    {
        dio.store_full(
            data,
            None,
            None,
            Some(
                MetaTree {
                    vec: MetaCollection { parent_id: parent, collection_id: self.vec_id },
                    inherit_read: true,
                    inherit_write: true,
                },
            ),
        )
    }

    /// The child rows filed under `(parent, this collection)`.
    pub fn items(&self, dio: &mut Dio, chain: &Chain, parent: PrimaryKey) -> (r: Result<
        Vec<Dao<D>>,
        LoadError,
    >)
        requires
            old(dio).wf(),
            chain.wf(),
        ensures
            final(dio).wf(),
            r matches Ok(list) ==> crate::kmap::nodup(dao_keys(list@)),
    {
        dio.children(chain, parent, self.vec_id)
    }
}

/// A sample row payload: a closed set of cases, one carrying a number and
/// one carrying bytes.
#[derive(Clone, Debug)]
pub enum TestEnumDao {
    Vacant,
    Blah1,
    Blah2(u32),
    Blah3(Vec<u8>),
    Blah4,
    Blah5,
}

/// The view of the sample enum payload.
#[verifier::ext_equal]
pub enum TestEnumDaoV {
    Vacant,
    Blah1,
    Blah2(u32),
    Blah3(Seq<u8>),
    Blah4,
    Blah5,
}

impl View for TestEnumDao {
    type V = TestEnumDaoV;

    open spec fn view(&self) -> TestEnumDaoV {
        match *self {
            TestEnumDao::Vacant => TestEnumDaoV::Vacant,
            TestEnumDao::Blah1 => TestEnumDaoV::Blah1,
            TestEnumDao::Blah2(v) => TestEnumDaoV::Blah2(v),
            TestEnumDao::Blah3(ref b) => TestEnumDaoV::Blah3(b@),
            TestEnumDao::Blah4 => TestEnumDaoV::Blah4,
            TestEnumDao::Blah5 => TestEnumDaoV::Blah5,
        }
    }
}

impl Default for TestEnumDao {
    /// The vacant case.
    fn default() -> (r: TestEnumDao)
        ensures
            r@ == TestEnumDaoV::Vacant,
    {
        TestEnumDao::Vacant
    }
}

impl RowCodec for TestEnumDao {
    open spec fn spec_encode(v: TestEnumDaoV) -> Seq<u8> {
        match v {
            TestEnumDaoV::Vacant => seq![0u8],
            TestEnumDaoV::Blah1 => seq![1u8],
            TestEnumDaoV::Blah2(n) => seq![2u8] + crate::codec::spec_u32_to_be(n),
            TestEnumDaoV::Blah3(b) => seq![3u8] + crate::codec::spec_u64_to_be(b.len() as u64) + b,
            TestEnumDaoV::Blah4 => seq![4u8],
            TestEnumDaoV::Blah5 => seq![5u8],
        }
    }

    open spec fn spec_valid(v: TestEnumDaoV) -> bool {
        match v {
            TestEnumDaoV::Blah3(b) => b.len() <= u64::MAX,
            _ => true,
        }
    }

    open spec fn spec_decode(b: Seq<u8>) -> Option<TestEnumDaoV> {
        if b.len() < 1 {
            None
        } else if b[0] == 0u8 {
            if b.len() == 1 {
                Some(TestEnumDaoV::Vacant)
            } else {
                None
            }
        } else if b[0] == 1u8 {
            if b.len() == 1 {
                Some(TestEnumDaoV::Blah1)
            } else {
                None
            }
        } else if b[0] == 2u8 {
            if b.len() == 5 {
                Some(TestEnumDaoV::Blah2(crate::codec::spec_u32_from_be(b.subrange(1, 5))))
            } else {
                None
            }
        } else if b[0] == 3u8 {
            if b.len() >= 9 && crate::codec::spec_u64_from_be(b.subrange(1, 9)) == b.len() - 9 {
                Some(TestEnumDaoV::Blah3(b.subrange(9, b.len() as int)))
            } else {
                None
            }
        } else if b[0] == 4u8 {
            if b.len() == 1 {
                Some(TestEnumDaoV::Blah4)
            } else {
                None
            }
        } else if b[0] == 5u8 {
            if b.len() == 1 {
                Some(TestEnumDaoV::Blah5)
            } else {
                None
            }
        } else {
            None
        }
    }

    fn encode(&self) -> (r: Vec<u8>)
        ensures
            r@ == Self::spec_encode(self@),
            Self::spec_valid(self@),
    {
        let mut out: Vec<u8> = Vec::new();
        match self {
            TestEnumDao::Vacant => {
                out.push(0u8);
            },
            TestEnumDao::Blah1 => {
                out.push(1u8);
            },
            TestEnumDao::Blah2(n) => {
                out.push(2u8);
                let mut be = crate::codec::u32_to_be(*n);
                out.append(&mut be);
            },
            TestEnumDao::Blah3(b) => {
                out.push(3u8);
                let mut be = crate::codec::u64_to_be(b.len() as u64);
                out.append(&mut be);
                let mut body = b.clone();
                proof {
                    assert(body@ =~= b@);
                }
                out.append(&mut body);
            },
            TestEnumDao::Blah4 => {
                out.push(4u8);
            },
            TestEnumDao::Blah5 => {
                out.push(5u8);
            },
        }
        proof {
            assert(out@ =~= Self::spec_encode(self@));
        }
        out
    }

    fn decode(b: &Vec<u8>) -> (r: Option<TestEnumDao>)
        ensures
            match r {
                Some(d) => Self::spec_decode(b@) == Some(d@),
                None => Self::spec_decode(b@) is None,
            },
    {
        if b.len() < 1 {
            return None;
        }
        let tag = b[0];
        if tag == 0u8 {
            if b.len() == 1 {
                Some(TestEnumDao::Vacant)
            } else {
                None
            }
        } else if tag == 1u8 {
            if b.len() == 1 {
                Some(TestEnumDao::Blah1)
            } else {
                None
            }
        } else if tag == 2u8 {
            if b.len() == 5 {
                let n = crate::codec::u32_from_be(b[1], b[2], b[3], b[4]);
                proof {
                    assert(seq![b@[1], b@[2], b@[3], b@[4]] =~= b@.subrange(1, 5));
                }
                Some(TestEnumDao::Blah2(n))
            } else {
                None
            }
        } else if tag == 3u8 {
            if b.len() < 9 {
                return None;
            }
            let mut len_bytes: Vec<u8> = Vec::new();
            let mut w: usize = 1;
            while w < 9
                invariant
                    1 <= w <= 9,
                    b@.len() >= 9,
                    len_bytes@ == b@.subrange(1, w as int),
                decreases 9 - w,
            {
                len_bytes.push(b[w]);
                w = w + 1;
                proof {
                    assert(b@.subrange(1, w as int) =~= b@.subrange(1, w - 1) + seq![b@[w - 1]]);
                    assert(len_bytes@ =~= b@.subrange(1, w as int));
                }
            }
            let n = crate::codec::u64_from_be(&len_bytes);
            proof {
                assert(len_bytes@ =~= b@.subrange(1, 9));
            }
            if n != (b.len() - 9) as u64 {
                return None;
            }
            let mut body: Vec<u8> = Vec::new();
            let mut i: usize = 9;
            while i < b.len()
                invariant
                    9 <= i <= b@.len(),
                    body@ == b@.subrange(9, i as int),
                decreases b@.len() - i,
            {
                body.push(b[i]);
                i = i + 1;
                proof {
                    assert(b@.subrange(9, i as int) =~= b@.subrange(9, i - 1) + seq![b@[i - 1]]);
                    assert(body@ =~= b@.subrange(9, i as int));
                }
            }
            proof {
                assert(body@ =~= b@.subrange(9, b@.len() as int));
            }
            Some(TestEnumDao::Blah3(body))
        } else if tag == 4u8 {
            if b.len() == 1 {
                Some(TestEnumDao::Blah4)
            } else {
                None
            }
        } else if tag == 5u8 {
            if b.len() == 1 {
                Some(TestEnumDao::Blah5)
            } else {
                None
            }
        } else {
            None
        }
    }

    proof fn lemma_round_trip(v: TestEnumDaoV) {
        let e = Self::spec_encode(v);
        match v {
            TestEnumDaoV::Blah2(n) => {
                crate::codec::lemma_u32_be_round_trip(n);
                assert(e.subrange(1, 5) =~= crate::codec::spec_u32_to_be(n));
            },
            TestEnumDaoV::Blah3(b) => {
                crate::codec::lemma_u64_be_round_trip(b.len() as u64);
                assert(e.subrange(1, 9) =~= crate::codec::spec_u64_to_be(b.len() as u64));
                assert(e.subrange(9, e.len() as int) =~= b);
            },
            _ => {},
        }
    }
}

/// A sample row payload: a number, hidden bytes, and a collection handle
/// for child rows.
#[derive(Debug)]
pub struct TestStructDao {
    pub val: u32,
    pub hidden: Vec<u8>,
    pub inner: DaoVec<TestEnumDao>,
}

/// The view of the sample struct payload.
#[verifier::ext_equal]
pub struct TestStructDaoV {
    pub val: u32,
    pub hidden: Seq<u8>,
    pub inner: u64,
}

impl View for TestStructDao {
    type V = TestStructDaoV;

    open spec fn view(&self) -> TestStructDaoV {
        TestStructDaoV { val: self.val, hidden: self.hidden@, inner: self.inner.vec_id }
    }
}

impl Default for TestStructDao {
    /// Zero, no hidden bytes, collection zero.
    fn default() -> (r: TestStructDao)
        ensures
            r@ == (TestStructDaoV { val: 0, hidden: Seq::empty(), inner: 0 }),
    {
        let r = TestStructDao {
            val: 0,
            hidden: Vec::new(),
            inner: DaoVec { vec_id: 0, marker: core::marker::PhantomData },
        };
        proof {
            assert(r@ =~= (TestStructDaoV { val: 0, hidden: Seq::empty(), inner: 0 }));
        }
        r
    }
}

impl RowCodec for TestStructDao {
    open spec fn spec_encode(v: TestStructDaoV) -> Seq<u8> {
        crate::codec::spec_u32_to_be(v.val) + crate::codec::spec_u64_to_be(v.hidden.len() as u64)
            + v.hidden + crate::codec::spec_u64_to_be(v.inner)
    }

    open spec fn spec_valid(v: TestStructDaoV) -> bool {
        v.hidden.len() <= u64::MAX
    }

    open spec fn spec_decode(b: Seq<u8>) -> Option<TestStructDaoV> {
        if b.len() < 20 {
            None
        } else {
            let hl = crate::codec::spec_u64_from_be(b.subrange(4, 12));
            if b.len() == 20 + hl {
                Some(
                    TestStructDaoV {
                        val: crate::codec::spec_u32_from_be(b.subrange(0, 4)),
                        hidden: b.subrange(12, 12 + hl),
                        inner: crate::codec::spec_u64_from_be(
                            b.subrange(12 + hl, b.len() as int),
                        ),
                    },
                )
            } else {
                None
            }
        }
    }

    fn encode(&self) -> (r: Vec<u8>)
        ensures
            r@ == Self::spec_encode(self@),
            Self::spec_valid(self@),
    {
        let mut out = crate::codec::u32_to_be(self.val);
        let mut hl = crate::codec::u64_to_be(self.hidden.len() as u64);
        out.append(&mut hl);
        let mut body = self.hidden.clone();
        proof {
            assert(body@ =~= self.hidden@);
        }
        out.append(&mut body);
        let mut vid = crate::codec::u64_to_be(self.inner.vec_id);
        out.append(&mut vid);
        proof {
            assert(out@ =~= Self::spec_encode(self@));
        }
        out
    }

    fn decode(b: &Vec<u8>) -> (r: Option<TestStructDao>)
        ensures
            match r {
                Some(d) => Self::spec_decode(b@) == Some(d@),
                None => Self::spec_decode(b@) is None,
            },
    {
        if b.len() < 20 {
            return None;
        }
        let mut hl_bytes: Vec<u8> = Vec::new();
        let mut w: usize = 4;
        while w < 12
            invariant
                4 <= w <= 12,
                b@.len() >= 20,
                hl_bytes@ == b@.subrange(4, w as int),
            decreases 12 - w,
        {
            hl_bytes.push(b[w]);
            w = w + 1;
            proof {
                assert(b@.subrange(4, w as int) =~= b@.subrange(4, w - 1) + seq![b@[w - 1]]);
                assert(hl_bytes@ =~= b@.subrange(4, w as int));
            }
        }
        let hl = crate::codec::u64_from_be(&hl_bytes);
        proof {
            assert(hl_bytes@ =~= b@.subrange(4, 12));
        }
        if hl != (b.len() - 20) as u64 {
            return None;
        }
        let hl_us = hl as usize;
        proof {
            assert(hl == b@.len() - 20);
            assert(hl_us == b@.len() - 20);
        }
        let val = crate::codec::u32_from_be(b[0], b[1], b[2], b[3]);
        proof {
            assert(seq![b@[0], b@[1], b@[2], b@[3]] =~= b@.subrange(0, 4));
        }
        let mut hidden: Vec<u8> = Vec::new();
        let mut i: usize = 12;
        while i < 12 + hl_us
            invariant
                12 <= i <= 12 + hl_us,
                12 + hl_us + 8 == b@.len(),
                b@.len() <= usize::MAX,
                hidden@ == b@.subrange(12, i as int),
            decreases 12 + hl_us - i,
        {
            hidden.push(b[i]);
            i = i + 1;
            proof {
                assert(b@.subrange(12, i as int) =~= b@.subrange(12, i - 1) + seq![b@[i - 1]]);
                assert(hidden@ =~= b@.subrange(12, i as int));
            }
        }
        let base: usize = 12 + hl_us;
        let mut vid_bytes: Vec<u8> = Vec::new();
        let mut j: usize = 0;
        while j < 8
            invariant
                j <= 8,
                base == 12 + hl_us,
                base + 8 == b@.len(),
                b@.len() <= usize::MAX,
                vid_bytes@ == b@.subrange(base as int, base + j as int),
            decreases 8 - j,
        {
            vid_bytes.push(b[base + j]);
            j = j + 1;
            proof {
                assert(b@.subrange(base as int, base + j as int) =~= b@.subrange(
                    base as int,
                    base + j - 1,
                ) + seq![b@[base + j - 1]]);
                assert(vid_bytes@ =~= b@.subrange(base as int, base + j as int));
            }
        }
        let vec_id = crate::codec::u64_from_be(&vid_bytes);
        proof {
            assert(vid_bytes@ =~= b@.subrange(12 + hl as int, b@.len() as int));
            assert(hidden@ =~= b@.subrange(12, 12 + hl as int));
        }
        Some(
            TestStructDao {
                val,
                hidden,
                inner: DaoVec { vec_id, marker: core::marker::PhantomData },
            },
        )
    }

    proof fn lemma_round_trip(v: TestStructDaoV) {
        let e = Self::spec_encode(v);
        crate::codec::lemma_u32_be_round_trip(v.val);
        crate::codec::lemma_u64_be_round_trip(v.hidden.len() as u64);
        crate::codec::lemma_u64_be_round_trip(v.inner);
        assert(e.subrange(0, 4) =~= crate::codec::spec_u32_to_be(v.val));
        assert(e.subrange(4, 12) =~= crate::codec::spec_u64_to_be(v.hidden.len() as u64));
        assert(e.subrange(12, 12 + v.hidden.len() as int) =~= v.hidden);
        assert(e.subrange(12 + v.hidden.len() as int, e.len() as int)
            =~= crate::codec::spec_u64_to_be(v.inner));
    }
}

} // verus!
