//! The trust chain: an append-only redo log of events together with the
//! in-memory indexes rebuilt from it, the accepted signing keys, and the
//! pipeline that validates every batch before it is applied.
//!
//! The chain's central invariant is replay determinism: the live indexes
//! always equal the fold of the whole log, so replaying from offset zero
//! reproduces them exactly.
use vstd::prelude::*;
use vstd::string::StringSliceAdditionalSpecFns;
use crate::crypto::AteHash;
use crate::crypto::PublicSignKey;
use crate::crypto::spec_sign;
use crate::crypto::spec_sk_of_pk;
use crate::errors::CommitError;
use crate::errors::ValidationError;
use crate::errors::TimeError;
use crate::event::fold_hashes;
use crate::event::EventData;
use crate::event::EventDataV;
use crate::event::EventLeaf;
use crate::event::MessageFormat;
use crate::header::PrimaryKey;
use crate::kmap::seq_without;
use crate::kmap::KMap;
use crate::kmap::PairMap;
use crate::meta::first_data_key_from;
use crate::meta::first_timestamp_from;
use crate::meta::first_tombstone_from;
use crate::meta::first_tree_from;
use crate::meta::spec_needs_signature;
use crate::meta::CoreMetadata;
use crate::meta::CoreMetadataV;
use crate::time::TimestampEnforcer;

verus! {

pub const SIG_LANE_HI: u64 = 0x8ad8c2ca5a1c6884;

pub const SIG_LANE_LO: u64 = 0x5d1d0727fca9c5b1;

/// The durability contract of a commit: fire-and-forget, wait for the local
/// log, or wait for replication.
#[derive(Clone, Copy, Debug, PartialEq, Eq, Structural, Hash)]
pub enum Scope {
    NoAck,
    Local,
    Full,
}

/// A batch of events fed to the chain as one unit.
pub struct Transaction {
    pub scope: Scope,
    pub events: Vec<EventData>,
}

/// The name of a chain: a four-hex-digit prefix of the stable hash of its
/// domain, the domain itself, and an optional subdomain label.
#[derive(Clone, Debug)]
pub struct ChainKey {
    pub hash4: u16,
    pub domain: Vec<u8>,
    pub subdomain: Vec<u8>,
}

/// Derives a chain key from a domain string: the four-hex-digit prefix is
/// the top sixteen bits of the domain's stable hash.
pub fn chain_key_4hex(domain: &str, subdomain: Option<&str>) -> (r: ChainKey)
    ensures
        r.hash4 == crate::crypto::hash64_of(domain.spec_bytes()) >> 48u64,
        r.domain@ == domain.spec_bytes(),
        match subdomain {
            Some(s) => r.subdomain@ == s.spec_bytes(),
            None => r.subdomain@.len() == 0,
        },
{
    let h = crate::crypto::hash64_str(domain);
    let hash4 = (h >> 48u64) as u16;
    proof {
        let hv = crate::crypto::hash64_of(domain.spec_bytes());
        assert(hv >> 48u64 <= 0xffffu64) by (bit_vector);
    }
    let domain_bytes = vstd::slice::slice_to_vec(domain.as_bytes());
    let subdomain_bytes = match subdomain {
        Some(s) => vstd::slice::slice_to_vec(s.as_bytes()),
        None => Vec::new(),
    };
    ChainKey { hash4, domain: domain_bytes, subdomain: subdomain_bytes }
}

/// The view of a redo log: the events in offset order.
pub open spec fn log_view(events: Seq<EventData>) -> Seq<EventDataV> {
    events.map_values(|e: EventData| e@)
}

/// The durable append-only event log. Offsets are positions in the log;
/// the byte image of each frame is given by the frame codec.
pub struct RedoLog {
    events: Vec<EventData>,
}

impl RedoLog {
    pub closed spec fn view_internal(&self) -> Seq<EventDataV> {
        log_view(self.events@)
    }

    pub fn new() -> (r: RedoLog)
        ensures
            r@ == Seq::<EventDataV>::empty(),
    {
        let r = RedoLog { events: Vec::new() };
        proof {
            assert(r@ =~= Seq::<EventDataV>::empty());
        }
        r
    }

    /// Appends one event; the returned offset is its position.
    pub fn append(&mut self, evt: EventData) -> (offset: u64)
        requires
            old(self)@.len() < u64::MAX,
        ensures
            final(self)@ == old(self)@.push(evt@),
            offset == old(self)@.len(),
    {
        let offset = self.events.len() as u64;
        self.events.push(evt);
        proof {
            assert(final(self)@ =~= old(self)@.push(evt@));
        }
        offset
    }

    /// The raw event at an offset.
    pub fn load(&self, offset: u64) -> (r: Option<&EventData>)
        ensures
            match r {
                Some(e) => offset < self@.len() && e@ == self@[offset as int],
                None => offset >= self@.len(),
            },
    {
        let n = self.events.len();
        if offset < n as u64 {
            let e = &self.events[offset as usize];
            proof {
                assert(self@[offset as int] == self.events@[offset as int]@);
            }
            Some(e)
        } else {
            None
        }
    }

    /// Batched read preserving input order; fails when any offset is past
    /// the tail.
    pub fn load_many(&self, offsets: &Vec<u64>) -> (r: Option<Vec<EventData>>)
        ensures
            match r {
                Some(out) => {
                    &&& out@.len() == offsets@.len()
                    &&& forall|i: int| 0 <= i < offsets@.len() ==> (#[trigger] offsets@[i])
                        < self@.len()
                    &&& forall|i: int|
                        0 <= i < offsets@.len() ==> (#[trigger] out@[i])@
                            == self@[offsets@[i] as int]
                },
                None => exists|i: int| 0 <= i < offsets@.len() && #[trigger] offsets@[i] >= self@.len(),
            },
    {
        let mut out: Vec<EventData> = Vec::new();
        let mut i: usize = 0;
        while i < offsets.len()
            invariant
                i <= offsets@.len(),
                out@.len() == i,
                forall|j: int| 0 <= j < i ==> (#[trigger] offsets@[j]) < self@.len(),
                forall|j: int|
                    0 <= j < i ==> (#[trigger] out@[j])@ == self@[offsets@[j] as int],
            decreases offsets@.len() - i,
        {
            let off = offsets[i];
            match self.load(off) {
                Some(e) => {
                    let c = crate::event::copy_event(e);
                    let ghost cv = c@;
                    let ghost prev = out@;
                    out.push(c);
                    i = i + 1;
                    proof {
                        assert(cv == self@[off as int]);
                        assert(off < self@.len());
                        assert forall|j: int| 0 <= j < i implies (#[trigger] offsets@[j])
                            < self@.len() by {
                            if j == i - 1 {
                                assert(offsets@[j] == off);
                            }
                        }
                        assert forall|j: int| 0 <= j < i implies (#[trigger] out@[j])@
                            == self@[offsets@[j] as int] by {
                            if j < i - 1 {
                                assert(out@[j] == prev[j]);
                                assert(prev[j]@ == self@[offsets@[j] as int]);
                            } else {
                                assert(out@[j] == c);
                                assert(offsets@[j] == off);
                            }
                        }
                    }
                },
                None => {
                    return None;
                },
            }
        }
        Some(out)
    }

    pub fn len(&self) -> (r: u64)
        requires
            self@.len() <= u64::MAX,
        ensures
            r == self@.len(),
    {
        self.events.len() as u64
    }

    /// Durability barrier. The bytes live with the caller, so this carries
    /// no effect of its own.
    pub fn flush(&mut self)
        ensures
            final(self)@ == old(self)@,
    {
    }
}

impl View for RedoLog {
    type V = Seq<EventDataV>;

    open spec fn view(&self) -> Seq<EventDataV> {
        self.view_internal()
    }
}

/// The timestamp an event carries, or zero.
pub open spec fn ts_of(e: EventDataV) -> u64 {
    match first_timestamp_from(e.meta, 0) {
        Some(t) => t.time_since_epoch_ms,
        None => 0,
    }
}

/// The parent a tree link names, if any.
pub open spec fn parent_of(e: EventDataV) -> Option<PrimaryKey> {
    match first_tree_from(e.meta, 0) {
        Some(t) => Some(t.vec.parent_id),
        None => None,
    }
}

/// One event applied to the primary index: a `Data` key binds the leaf, a
/// tombstone retires the key.
pub open spec fn apply_primary(m: Map<u64, EventLeaf>, e: EventDataV, off: int) -> Map<
    u64,
    EventLeaf,
> {
    let m1 = match first_data_key_from(e.meta, 0) {
        Some(k) => m.insert(
            k.value,
            EventLeaf {
                event_hash: e.hash(),
                primary_key: Some(k),
                parent_key: parent_of(e),
                created_ms: if m.dom().contains(k.value) {
                    m[k.value].created_ms
                } else {
                    ts_of(e)
                },
                updated_ms: ts_of(e),
                offset_in_log: off as u64,
            },
        ),
        None => m,
    };
    match first_tombstone_from(e.meta, 0) {
        Some(k) => m1.remove(k.value),
        None => m1,
    }
}

/// The primary index the whole log folds to.
pub open spec fn primary_of(s: Seq<EventDataV>) -> Map<u64, EventLeaf>
    decreases s.len(),
{
    if s.len() == 0 {
        Map::empty()
    } else {
        apply_primary(primary_of(s.drop_last()), s.last(), s.len() - 1)
    }
}

/// Every list of the secondary index with one value taken out.
pub open spec fn strip_value(m: Map<(u64, u64), Seq<u64>>, v: u64) -> Map<(u64, u64), Seq<u64>> {
    Map::new(|k: (u64, u64)| m.dom().contains(k), |k: (u64, u64)| seq_without(m[k], v))
}

/// One event applied to the secondary index: a `Data` key with a tree link
/// files the key under `(parent, collection)`, a tombstone removes it
/// everywhere.
pub open spec fn apply_secondary(m: Map<(u64, u64), Seq<u64>>, e: EventDataV) -> Map<
    (u64, u64),
    Seq<u64>,
> {
    let m1 = match (first_data_key_from(e.meta, 0), first_tree_from(e.meta, 0)) {
        (Some(k), Some(t)) => {
            let ck = (t.vec.parent_id.value, t.vec.collection_id);
            if m.dom().contains(ck) {
                if m[ck].contains(k.value) {
                    m
                } else {
                    m.insert(ck, m[ck].push(k.value))
                }
            } else {
                m.insert(ck, seq![k.value])
            }
        },
        _ => m,
    };
    match first_tombstone_from(e.meta, 0) {
        Some(k) => strip_value(m1, k.value),
        None => m1,
    }
}

/// The secondary index the whole log folds to.
pub open spec fn secondary_of(s: Seq<EventDataV>) -> Map<(u64, u64), Seq<u64>>
    decreases s.len(),
{
    if s.len() == 0 {
        Map::empty()
    } else {
        apply_secondary(secondary_of(s.drop_last()), s.last())
    }
}

/// The public keys one header advertises, from position `i` on.
pub open spec fn pks_of_meta_from(s: Seq<CoreMetadataV>, i: int) -> Seq<PublicSignKey>
    decreases s.len() - i when 0 <= i <= s.len()
{
    if i >= s.len() {
        Seq::empty()
    } else {
        match s[i] {
            CoreMetadataV::PublicKey(pk) => seq![pk] + pks_of_meta_from(s, i + 1),
            _ => pks_of_meta_from(s, i + 1),
        }
    }
}

/// The signing keys the log accepts: the root keys plus every key
/// advertised by an accepted event, in log order.
pub open spec fn keys_of(s: Seq<EventDataV>, root: Seq<PublicSignKey>) -> Seq<PublicSignKey>
    decreases s.len(),
{
    if s.len() == 0 {
        root
    } else {
        keys_of(s.drop_last(), root) + pks_of_meta_from(s.last().meta, 0)
    }
}

/// The digest a signature envelope signs: both lanes folded over the
/// covered header hashes.
pub open spec fn digest_of_hashes(hs: Seq<AteHash>) -> AteHash {
    AteHash { hi: fold_hashes(SIG_LANE_HI, hs), lo: fold_hashes(SIG_LANE_LO, hs) }
}

/// True when a signature envelope is made by a key among `trusted` and its
/// signature verifies over the covered hashes.
pub open spec fn sig_verified(sig: crate::meta::MetaSignatureV, trusted: Seq<PublicSignKey>) -> bool {
    exists|p: int|
        0 <= p < trusted.len() && (#[trigger] trusted[p]).spec_hash() == sig.public_key_hash
            && sig.signature == spec_sign(
            spec_sk_of_pk(trusted[p].pk_value()),
            digest_of_hashes(sig.header_hashes),
        )
}

/// True when some verified envelope anywhere in the batch covers the
/// header digest `h`.
pub open spec fn event_covered(evs: Seq<EventDataV>, h: AteHash, trusted: Seq<PublicSignKey>) -> bool {
    exists|j: int, l: int|
        0 <= j < evs.len() && 0 <= l < evs[j].meta.len() && match #[trigger] evs[j].meta[l] {
            CoreMetadataV::Signature(sig) => sig.header_hashes.contains(h) && sig_verified(
                sig,
                trusted,
            ),
            _ => false,
        }
}

/// True when an event's timestamp lies in the accepted window; an event
/// without one is acceptable only if it needs no signature.
pub open spec fn timestamp_ok(e: EventDataV, cursor_ms: u64, tolerance_ms: u64, now_ms: u64) -> bool
    recommends
        cursor_ms >= tolerance_ms,
{
    match first_timestamp_from(e.meta, 0) {
        Some(t) => cursor_ms - tolerance_ms <= t.time_since_epoch_ms <= now_ms + tolerance_ms,
        None => !spec_needs_signature(e.meta),
    }
}

/// What `feed` checks before it applies a batch: every event's timestamp is
/// in the window, and every event that needs a signature is covered by a
/// verified envelope of the batch under the keys trusted at batch start
/// together with the keys the batch itself advertises.
pub open spec fn batch_ok(
    evs: Seq<EventDataV>,
    trusted: Seq<PublicSignKey>,
    cursor_ms: u64,
    tolerance_ms: u64,
    now_ms: u64,
) -> bool {
    forall|i: int|
        0 <= i < evs.len() ==> {
            &&& timestamp_ok(#[trigger] evs[i], cursor_ms, tolerance_ms, now_ms)
            &&& (spec_needs_signature(evs[i].meta) ==> event_covered(evs, evs[i].hash(), trusted))
        }
}

pub fn hashes_contain(hs: &Vec<AteHash>, h: &AteHash) -> (r: bool)
    ensures
        r == hs@.contains(*h),
{
    let mut i: usize = 0;
    while i < hs.len()
        invariant
            i <= hs@.len(),
            forall|j: int| 0 <= j < i ==> hs@[j] != *h,
        decreases hs@.len() - i,
    {
        if hs[i].hi == h.hi && hs[i].lo == h.lo {
            proof {
                assert(hs@[i as int] == *h);
            }
            return true;
        }
        i = i + 1;
    }
    false
}

/// The exec form of the signature digest.
pub fn digest_of_hashes_exec(hs: &Vec<AteHash>) -> (r: AteHash)
    ensures
        r == digest_of_hashes(hs@),
{
    let mut hi: u64 = SIG_LANE_HI;
    let mut lo: u64 = SIG_LANE_LO;
    let mut i: usize = 0;
    while i < hs.len()
        invariant
            i <= hs@.len(),
            hi == fold_hashes(SIG_LANE_HI, hs@.subrange(0, i as int)),
            lo == fold_hashes(SIG_LANE_LO, hs@.subrange(0, i as int)),
        decreases hs@.len() - i,
    {
        hi = crate::crypto::mix64_exec(crate::crypto::mix64_exec(hi, hs[i].hi), hs[i].lo);
        lo = crate::crypto::mix64_exec(crate::crypto::mix64_exec(lo, hs[i].hi), hs[i].lo);
        i = i + 1;
        proof {
            assert(hs@.subrange(0, i as int).drop_last() =~= hs@.subrange(0, i - 1));
        }
    }
    proof {
        assert(hs@.subrange(0, hs@.len() as int) =~= hs@);
    }
    AteHash { hi, lo }
}

fn sig_verified_exec(sig: &crate::meta::MetaSignature, trusted: &Vec<PublicSignKey>) -> (r: bool)
    ensures
        r == sig_verified(sig@, trusted@),
{
    let digest = digest_of_hashes_exec(&sig.header_hashes);
    let mut p: usize = 0;
    while p < trusted.len()
        invariant
            digest == digest_of_hashes(sig@.header_hashes),
            p <= trusted@.len(),
            forall|q: int|
                0 <= q < p ==> !((#[trigger] trusted@[q]).spec_hash() == sig@.public_key_hash
                    && sig@.signature == spec_sign(
                    spec_sk_of_pk(trusted@[q].pk_value()),
                    digest_of_hashes(sig@.header_hashes),
                )),
        decreases trusted@.len() - p,
    {
        let pk = &trusted[p];
        let pkh = pk.hash();
        if pkh.hi == sig.public_key_hash.hi && pkh.lo == sig.public_key_hash.lo {
            if pk.verify(&digest, &sig.signature) {
                proof {
                    assert((trusted@[p as int]).spec_hash() == sig@.public_key_hash);
                }
                return true;
            }
        }
        p = p + 1;
    }
    false
}

/// True when some verified envelope of the batch covers `h`.
fn find_covering(evs: &Vec<EventData>, h: &AteHash, trusted: &Vec<PublicSignKey>) -> (r: bool)
    ensures
        r == event_covered(log_view(evs@), *h, trusted@),
{
    let ghost evv = log_view(evs@);
    let mut j: usize = 0;
    while j < evs.len()
        invariant
            evv == log_view(evs@),
            j <= evs@.len(),
            forall|j2: int, l2: int|
                0 <= j2 < j && 0 <= l2 < evv[j2].meta.len() ==> match #[trigger] evv[j2].meta[l2] {
                    CoreMetadataV::Signature(sig) => !(sig.header_hashes.contains(*h)
                        && sig_verified(sig, trusted@)),
                    _ => true,
                },
        decreases evs@.len() - j,
    {
        let core = &evs[j].meta.core;
        let mut l: usize = 0;
        while l < core.len()
            invariant
                evv == log_view(evs@),
                j < evs@.len(),
                core == &evs@[j as int].meta.core,
                l <= core@.len(),
                evv[j as int].meta =~= crate::meta::core_view(core@),
                forall|l2: int|
                    0 <= l2 < l ==> match #[trigger] evv[j as int].meta[l2] {
                        CoreMetadataV::Signature(sig) => !(sig.header_hashes.contains(*h)
                            && sig_verified(sig, trusted@)),
                        _ => true,
                    },
            decreases core@.len() - l,
        {
            match &core[l] {
                CoreMetadata::Signature(sig) => {
                    if hashes_contain(&sig.header_hashes, h) {
                        if sig_verified_exec(sig, trusted) {
                            proof {
                                assert(evv[j as int].meta[l as int]
                                    == CoreMetadataV::Signature(sig@));
                            }
                            return true;
                        }
                    }
                    proof {
                        assert(evv[j as int].meta[l as int] == CoreMetadataV::Signature(sig@));
                    }
                },
                _ => {},
            }
            l = l + 1;
        }
        j = j + 1;
    }
    false
}

/// A chain of trust: the log, the indexes folded from it, the accepted
/// signing keys, and the timestamp enforcer.
pub struct Chain {
    pub key: ChainKey,
    pub log: RedoLog,
    pub primary: KMap<EventLeaf>,
    pub secondary: PairMap,
    pub enforcer: TimestampEnforcer,
    pub root_keys: Vec<PublicSignKey>,
    pub trusted_keys: Vec<PublicSignKey>,
    pub default_format: MessageFormat,
}

impl Chain {
    /// The chain's indexes and key set are exactly the fold of its log.
    pub open spec fn wf(&self) -> bool {
        &&& self.primary.wf()
        &&& self.secondary.wf()
        &&& self.enforcer.wf()
        &&& self.primary.m() == primary_of(self.log@)
        &&& self.secondary.m() == secondary_of(self.log@)
        &&& self.trusted_keys@ == keys_of(self.log@, self.root_keys@)
        &&& self.log@.len() <= u64::MAX
    }

    /// A fresh chain trusting the given root key, with an empty log.
    pub fn open(key: ChainKey, root: Option<PublicSignKey>, enforcer: TimestampEnforcer) -> (r:
        Chain)
        requires
            enforcer.wf(),
        ensures
            r.wf(),
            r.log@.len() == 0,
            match root {
                Some(pk) => r.root_keys@ == seq![pk],
                None => r.root_keys@.len() == 0,
            },
            r.enforcer == enforcer,
    {
        let mut root_keys: Vec<PublicSignKey> = Vec::new();
        if let Some(pk) = root {
            root_keys.push(pk);
        }
        let trusted_keys = root_keys.clone();
        let r = Chain {
            key,
            log: RedoLog::new(),
            primary: KMap::new(),
            secondary: PairMap::new(),
            enforcer,
            root_keys,
            trusted_keys,
        default_format: MessageFormat::Binary,
        };
        proof {
            assert(r.trusted_keys@ =~= r.root_keys@);
            assert(r.primary.m() =~= primary_of(r.log@));
            assert(r.secondary.m() =~= secondary_of(r.log@));
        }
        r
    }

    /// Reopens a chain from a persisted log: replays every event through
    /// the indexes, the trusted keys and the cursor, exactly as the fold
    /// specifies — so a reopened chain's indexes equal the live ones the
    /// log was written with.
    pub fn from_log(
        key: ChainKey,
        events: Vec<EventData>,
        root: Option<PublicSignKey>,
        enforcer: TimestampEnforcer,
    ) -> (r: Chain)
        requires
            enforcer.wf(),
            events@.len() <= u64::MAX,
        ensures
            r.wf(),
            r.log@ == log_view(events@),
            match root {
                Some(pk) => r.root_keys@ == seq![pk],
                None => r.root_keys@.len() == 0,
            },
    {
        let mut chain = Chain::open(key, root, enforcer);
        let ghost evv = log_view(events@);
        let mut i: usize = 0;
        while i < events.len()
            invariant
                evv == log_view(events@),
                i <= events@.len(),
                events@.len() <= u64::MAX,
                chain.wf(),
                chain.log@ == evv.subrange(0, i as int),
                chain.root_keys@ == (match root {
                    Some(pk) => seq![pk],
                    None => Seq::<PublicSignKey>::empty(),
                }),
            decreases events@.len() - i,
        {
            let e = crate::event::copy_event(&events[i]);
            let ghost ev = e@;
            chain.enforcer.feed(&e.meta);
            let mut pks = pks_of_meta_exec(&e.meta.core);
            chain.trusted_keys.append(&mut pks);
            let ghost log_before = chain.log@;
            let off = chain.log.append(e);
            let loaded = chain.log.load(off);
            match loaded {
                Some(stored) => {
                    apply_event(&mut chain.primary, &mut chain.secondary, stored, off);
                },
                None => {
                    proof {
                        assert(false);
                    }
                },
            }
            i = i + 1;
            proof {
                let pre = evv.subrange(0, i as int);
                assert(pre.drop_last() =~= evv.subrange(0, i - 1));
                assert(pre.last() == events@[i - 1]@);
                assert(chain.log@ =~= pre);
                assert(chain.log@.drop_last() =~= log_before);
                assert(chain.log@.last() == ev);
                assert(chain.primary.m() =~= primary_of(chain.log@));
                assert(chain.secondary.m() =~= secondary_of(chain.log@));
                assert(chain.trusted_keys@ =~= keys_of(chain.log@, chain.root_keys@));
            }
        }
        proof {
            assert(evv.subrange(0, events@.len() as int) =~= evv);
        }
        chain
    }

    /// The raw events of the log, copied in offset order: what a caller
    /// persists and later reopens from.
    pub fn export_log(&self) -> (r: Vec<EventData>)
        requires
            self.wf(),
        ensures
            log_view(r@) == self.log@,
    {
        let mut out: Vec<EventData> = Vec::new();
        let mut i: u64 = 0;
        let n = self.log.len();
        while i < n
            invariant
                i <= n,
                n == self.log@.len(),
                out@.len() == i,
                forall|j: int| 0 <= j < i ==> (#[trigger] out@[j])@ == self.log@[j],
            decreases n - i,
        {
            match self.log.load(i) {
                Some(e) => {
                    out.push(crate::event::copy_event(e));
                },
                None => {
                    proof {
                        assert(false);
                    }
                },
            }
            i = i + 1;
        }
        proof {
            assert(log_view(out@) =~= self.log@);
        }
        out
    }

    /// Compacts the log: the kept events are exactly, in offset order,
    /// those that are the authoritative data event of a live key or that
    /// advertise a signing key; tombstones and superseded events are
    /// dropped. Replaying the result opens a chain whose live rows read the
    /// same.
    pub fn compact(&self) -> (r: Vec<EventData>)
        requires
            self.wf(),
        ensures
            log_view(r@) == compacted(self.log@, self.log@.len() as int),
    {
        let mut out: Vec<EventData> = Vec::new();
        let n = self.log.len();
        let mut off: u64 = 0;
        while off < n
            invariant
                self.wf(),
                n == self.log@.len(),
                off <= n,
                log_view(out@) == compacted(self.log@, off as int),
            decreases n - off,
        {
            let evt = match self.log.load(off) {
                Some(e) => e,
                None => {
                    proof {
                        assert(false);
                    }
                    return out;
                },
            };
            let keep: bool = match evt.meta.get_data_key() {
                Some(k) => {
                    match self.primary.get(k.value) {
                        Some(leaf) => leaf.offset_in_log == off,
                        None => false,
                    }
                },
                None => {
                    let pks = pks_of_meta_exec(&evt.meta.core);
                    pks.len() > 0
                },
            };
            proof {
                assert(keep == spec_kept(self.log@, off as int));
            }
            if keep {
                let c = crate::event::copy_event(evt);
                out.push(c);
            }
            off = off + 1;
            proof {
                assert(log_view(out@) =~= compacted(self.log@, off as int));
            }
        }
        out
    }

    /// The authoritative leaf for a live key.
    pub fn lookup_primary(&self, pk: &PrimaryKey) -> (r: Option<EventLeaf>)
        requires
            self.wf(),
        ensures
            match r {
                Some(leaf) => primary_of(self.log@).dom().contains(pk.value) && leaf == primary_of(
                    self.log@,
                )[pk.value],
                None => !primary_of(self.log@).dom().contains(pk.value),
            },
    {
        match self.primary.get(pk.value) {
            Some(leaf) => Some(*leaf),
            None => None,
        }
    }

    /// The members of a collection, in insertion order.
    pub fn lookup_secondary_raw(&self, parent: &PrimaryKey, collection_id: u64) -> (r: Option<
        Vec<u64>,
    >)
        requires
            self.wf(),
        ensures
            ({
                let ck = (parent.value, collection_id);
                match r {
                    Some(list) => secondary_of(self.log@).dom().contains(ck) && list@
                        == secondary_of(self.log@)[ck],
                    None => !secondary_of(self.log@).dom().contains(ck),
                }
            }),
    {
        match self.secondary.get_vec((parent.value, collection_id)) {
            Some(list) => {
                let c = list.clone();
                proof {
                    assert(c@ =~= list@);
                }
                Some(c)
            },
            None => None,
        }
    }
}


/// The public keys a whole batch advertises, in order.
pub open spec fn batch_pks(evs: Seq<EventDataV>) -> Seq<PublicSignKey>
    decreases evs.len(),
{
    if evs.len() == 0 {
        Seq::empty()
    } else {
        batch_pks(evs.drop_last()) + pks_of_meta_from(evs.last().meta, 0)
    }
}

/// The public keys one header advertises.
fn pks_of_meta_exec(core: &Vec<CoreMetadata>) -> (r: Vec<PublicSignKey>)
    ensures
        r@ == pks_of_meta_from(crate::meta::core_view(core@), 0),
{
    let ghost cv = crate::meta::core_view(core@);
    let mut out: Vec<PublicSignKey> = Vec::new();
    let mut i: usize = 0;
    while i < core.len()
        invariant
            cv == crate::meta::core_view(core@),
            i <= core@.len(),
            out@ + pks_of_meta_from(cv, i as int) == pks_of_meta_from(cv, 0),
        decreases core@.len() - i,
    {
        match &core[i] {
            CoreMetadata::PublicKey(pk) => {
                proof {
                    assert(cv[i as int] == CoreMetadataV::PublicKey(*pk));
                    assert(pks_of_meta_from(cv, i as int) =~= seq![*pk] + pks_of_meta_from(
                        cv,
                        i + 1,
                    ));
                }
                let ghost prev = out@;
                out.push(*pk);
                proof {
                    assert(out@ + pks_of_meta_from(cv, i + 1) =~= prev + pks_of_meta_from(
                        cv,
                        i as int,
                    ));
                }
            },
            _ => {
                proof {
                    assert(pks_of_meta_from(cv, i as int) == pks_of_meta_from(cv, i + 1));
                }
            },
        }
        i = i + 1;
    }
    proof {
        assert(pks_of_meta_from(cv, core@.len() as int) =~= Seq::<PublicSignKey>::empty());
        assert(out@ =~= out@ + pks_of_meta_from(cv, core@.len() as int));
    }
    out
}

/// Applies one event to the two indexes, exactly as the index folds do.
fn apply_event(primary: &mut KMap<EventLeaf>, secondary: &mut PairMap, e: &EventData, off: u64)
    requires
        old(primary).wf(),
        old(secondary).wf(),
    ensures
        final(primary).wf(),
        final(secondary).wf(),
        final(primary).m() == apply_primary(old(primary).m(), e@, off as int),
        final(secondary).m() == apply_secondary(old(secondary).m(), e@),
{
    let data_key = e.meta.get_data_key();
    let tree = e.meta.get_tree();
    let tomb = e.meta.get_tombstone();
    let ts: u64 = match e.meta.get_timestamp() {
        Some(t) => t.time_since_epoch_ms,
        None => 0,
    };
    let ehash = e.hash();
    if let Some(k) = data_key {
        let created: u64 = match primary.get(k.value) {
            Some(l) => l.created_ms,
            None => ts,
        };
        let leaf = EventLeaf {
            event_hash: ehash,
            primary_key: Some(k),
            parent_key: match tree {
                Some(t) => Some(t.vec.parent_id),
                None => None,
            },
            created_ms: created,
            updated_ms: ts,
            offset_in_log: off,
        };
        primary.insert(k.value, leaf);
        if let Some(t) = tree {
            secondary.add((t.vec.parent_id.value, t.vec.collection_id), k.value);
        }
    }
    if let Some(k) = tomb {
        primary.remove(k.value);
        secondary.remove_value(k.value);
    }
    proof {
        assert(final(primary).m() =~= apply_primary(old(primary).m(), e@, off as int));
        let want = apply_secondary(old(secondary).m(), e@);
        if tomb is Some {
            let m1 = match (first_data_key_from(e@.meta, 0), first_tree_from(e@.meta, 0)) {
                (Some(k2), Some(t2)) => {
                    let ck = (t2.vec.parent_id.value, t2.vec.collection_id);
                    if old(secondary).m().dom().contains(ck) {
                        if old(secondary).m()[ck].contains(k2.value) {
                            old(secondary).m()
                        } else {
                            old(secondary).m().insert(ck, old(secondary).m()[ck].push(k2.value))
                        }
                    } else {
                        old(secondary).m().insert(ck, seq![k2.value])
                    }
                },
                _ => old(secondary).m(),
            };
            assert(final(secondary).m().dom() =~= strip_value(m1, tomb->0.value).dom());
            assert(final(secondary).m() =~= strip_value(m1, tomb->0.value));
        } else {
            assert(final(secondary).m() =~= want);
        }
    }
}

/// Rebuilds both indexes from a log alone: the exec form of the index
/// folds, used on reopen and to check replay determinism.
pub fn rebuild_indexes(events: &Vec<EventData>) -> (r: (KMap<EventLeaf>, PairMap))
    ensures
        r.0.wf(),
        r.1.wf(),
        r.0.m() == primary_of(log_view(events@)),
        r.1.m() == secondary_of(log_view(events@)),
{
    let ghost evv = log_view(events@);
    let mut primary = KMap::<EventLeaf>::new();
    let mut secondary = PairMap::new();
    let mut i: usize = 0;
    while i < events.len()
        invariant
            evv == log_view(events@),
            i <= events@.len(),
            primary.wf(),
            secondary.wf(),
            primary.m() == primary_of(evv.subrange(0, i as int)),
            secondary.m() == secondary_of(evv.subrange(0, i as int)),
        decreases events@.len() - i,
    {
        apply_event(&mut primary, &mut secondary, &events[i], i as u64);
        i = i + 1;
        proof {
            let pre = evv.subrange(0, i as int);
            assert(pre.drop_last() =~= evv.subrange(0, i - 1));
            assert(pre.last() == events@[i - 1]@);
        }
    }
    proof {
        assert(evv.subrange(0, events@.len() as int) =~= evv);
    }
    (primary, secondary)
}

/// Every leaf of the primary index points at a live position of the log,
/// and the event there carries the leaf's key as its `Data` key and has the
/// leaf's digest.
#[verifier::rlimit(60)]
pub proof fn lemma_primary_leaf_valid(s: Seq<EventDataV>, k: u64)
    requires
        s.len() <= u64::MAX,
        primary_of(s).dom().contains(k),
    ensures
        ({
            let leaf = primary_of(s)[k];
            &&& leaf.offset_in_log < s.len()
            &&& first_data_key_from(s[leaf.offset_in_log as int].meta, 0) == Some(
                PrimaryKey { value: k },
            )
            &&& leaf.event_hash == s[leaf.offset_in_log as int].hash()
        }),
    decreases s.len(),
{
    let d = s.drop_last();
    let e = s.last();
    let m0 = primary_of(d);
    let leaf = primary_of(s)[k];
    match first_data_key_from(e.meta, 0) {
        Some(dk) => {
            if dk.value == k && !(first_tombstone_from(e.meta, 0) matches Some(t) && t.value
                == k) {
                assert(dk == PrimaryKey { value: k });
                assert(s[s.len() - 1] == e);
            } else {
                assert(primary_of(s)[k] == m0[k]);
                lemma_primary_leaf_valid(d, k);
                assert(d[leaf.offset_in_log as int] == s[leaf.offset_in_log as int]);
            }
        },
        None => {
            assert(primary_of(s)[k] == m0[k]);
            lemma_primary_leaf_valid(d, k);
            assert(d[leaf.offset_in_log as int] == s[leaf.offset_in_log as int]);
        },
    }
}

/// True when the event at `off` survives compaction: it is the
/// authoritative data event of a live key, or it advertises a signing key.
pub open spec fn spec_kept(log: Seq<EventDataV>, off: int) -> bool
    recommends
        0 <= off < log.len(),
{
    match first_data_key_from(log[off].meta, 0) {
        Some(k) => primary_of(log).dom().contains(k.value) && primary_of(log)[k.value].offset_in_log
            == off,
        None => pks_of_meta_from(log[off].meta, 0).len() > 0,
    }
}

/// The compacted image of the first `n` events: the kept ones, in offset
/// order.
pub open spec fn compacted(log: Seq<EventDataV>, n: int) -> Seq<EventDataV>
    decreases n when 0 <= n <= log.len()
{
    if n <= 0 {
        Seq::empty()
    } else {
        compacted(log, n - 1) + (if spec_kept(log, n - 1) {
            seq![log[n - 1]]
        } else {
            Seq::<EventDataV>::empty()
        })
    }
}

/// Every kept event appears in the compacted image.
pub proof fn lemma_compacted_has(log: Seq<EventDataV>, n: int, off: int)
    requires
        0 <= off < n <= log.len(),
        spec_kept(log, off),
    ensures
        exists|j: int| 0 <= j < compacted(log, n).len() && #[trigger] compacted(log, n)[j] == log[off],
    decreases n,
{
    if off == n - 1 {
        let c = compacted(log, n);
        assert(c[c.len() - 1] == log[off]);
    } else {
        lemma_compacted_has(log, n - 1, off);
        let prev = compacted(log, n - 1);
        let j = choose|j: int| 0 <= j < prev.len() && #[trigger] prev[j] == log[off];
        assert(compacted(log, n)[j] == log[off]);
    }
}

/// Compaction completeness: every live key's authoritative event survives
/// into the compacted log.
pub proof fn lemma_compact_complete(log: Seq<EventDataV>, k: u64)
    requires
        log.len() <= u64::MAX,
        primary_of(log).dom().contains(k),
    ensures
        exists|j: int|
            0 <= j < compacted(log, log.len() as int).len() && #[trigger] compacted(
                log,
                log.len() as int,
            )[j] == log[primary_of(log)[k].offset_in_log as int],
{
    lemma_primary_leaf_valid(log, k);
    let off = primary_of(log)[k].offset_in_log as int;
    assert(spec_kept(log, off));
    lemma_compacted_has(log, log.len() as int, off);
}

/// Replay determinism: two chains over the same log have identical indexes,
/// because each chain's indexes are the fold of its log.
pub proof fn lemma_replay_determinism(a: &Chain, b: &Chain)
    requires
        a.wf(),
        b.wf(),
        a.log@ == b.log@,
    ensures
        a.primary.m() == b.primary.m(),
        a.secondary.m() == b.secondary.m(),
{
}

impl Chain {
    /// Feeds one batch: validates every event first, then appends them in
    /// order and updates the indexes, the trusted keys and the cursor.
    /// Validation failures abort the whole batch and leave the chain
    /// unchanged. The batch is accepted exactly when every event's
    /// timestamp lies in the window that held at validation and every event
    /// that needs a signature is covered by a verified envelope of its
    /// batch.
    pub fn feed(&mut self, trans: &Transaction, now_ms: u64) -> (r: Result<(), CommitError>)
        requires
            old(self).wf(),
            now_ms + old(self).enforcer.tolerance_ms <= u64::MAX,
            old(self).log@.len() + trans.events@.len() <= u64::MAX,
        ensures
            final(self).wf(),
            final(self).enforcer.tolerance_ms == old(self).enforcer.tolerance_ms,
            final(self).root_keys@ == old(self).root_keys@,
            r is Ok ==> final(self).log@ == old(self).log@ + log_view(trans.events@),
            r is Err ==> final(self).log@ == old(self).log@ && final(self).enforcer == old(
                self,
            ).enforcer && final(self).trusted_keys@ == old(self).trusted_keys@,
            r is Ok ==> batch_ok(
                log_view(trans.events@),
                old(self).trusted_keys@ + batch_pks(log_view(trans.events@)),
                old(self).enforcer.cursor_ms,
                old(self).enforcer.tolerance_ms,
                now_ms,
            ),
            r is Err ==> !batch_ok(
                log_view(trans.events@),
                old(self).trusted_keys@ + batch_pks(log_view(trans.events@)),
                old(self).enforcer.cursor_ms,
                old(self).enforcer.tolerance_ms,
                now_ms,
            ),
            r matches Err(e) ==> e matches CommitError::ValidationError(_),
    {
        let ghost evv = log_view(trans.events@);
        let n = trans.events.len();

        // The keys signatures may verify against: those trusted at batch
        // start plus those the batch itself advertises.
        let mut keys: Vec<PublicSignKey> = self.trusted_keys.clone();
        proof {
            assert(keys@ =~= old(self).trusted_keys@);
        }
        let mut i: usize = 0;
        while i < n
            invariant
                evv == log_view(trans.events@),
                n == trans.events@.len(),
                i <= n,
                keys@ == old(self).trusted_keys@ + batch_pks(evv.subrange(0, i as int)),
            decreases n - i,
        {
            let mut pks = pks_of_meta_exec(&trans.events[i].meta.core);
            keys.append(&mut pks);
            i = i + 1;
            proof {
                let pre = evv.subrange(0, i as int);
                assert(pre.drop_last() =~= evv.subrange(0, i - 1));
                assert(pre.last() == trans.events@[i - 1]@);
                assert(keys@ =~= old(self).trusted_keys@ + batch_pks(pre));
            }
        }
        proof {
            assert(evv.subrange(0, n as int) =~= evv);
        }

        // Validation: timestamps in window, signatures covering every
        // header that needs one. Any failure aborts before any effect.
        let mut i: usize = 0;
        while i < n
            invariant
                evv == log_view(trans.events@),
                n == trans.events@.len(),
                i <= n,
                keys@ == old(self).trusted_keys@ + batch_pks(evv),
                *self == *old(self),
                old(self).wf(),
                now_ms + old(self).enforcer.tolerance_ms <= u64::MAX,
                forall|j: int|
                    0 <= j < i ==> timestamp_ok(
                        #[trigger] evv[j],
                        old(self).enforcer.cursor_ms,
                        old(self).enforcer.tolerance_ms,
                        now_ms,
                    ),
                forall|j: int|
                    0 <= j < i ==> (spec_needs_signature(#[trigger] evv[j].meta) ==> event_covered(
                        evv,
                        evv[j].hash(),
                        keys@,
                    )),
            decreases n - i,
        {
            let e = &trans.events[i];
            match self.enforcer.validate(&e.meta, now_ms) {
                Err(err) => {
                    proof {
                        assert(!timestamp_ok(
                            evv[i as int],
                            old(self).enforcer.cursor_ms,
                            old(self).enforcer.tolerance_ms,
                            now_ms,
                        ));
                    }
                    return Err(CommitError::ValidationError(err));
                },
                Ok(_) => {},
            }
            if e.meta.needs_signature() {
                let h = e.hash();
                if !find_covering(&trans.events, &h, &keys) {
                    proof {
                        assert(spec_needs_signature(evv[i as int].meta) && !event_covered(
                            evv,
                            evv[i as int].hash(),
                            old(self).trusted_keys@ + batch_pks(evv),
                        ));
                    }
                    return Err(
                        CommitError::ValidationError(ValidationError::MissingSignature),
                    );
                }
            }
            i = i + 1;
        }

        // Apply: append each event, update the indexes, advance the
        // cursor, accept advertised keys.
        let ghost old_log = self.log@;
        let mut i: usize = 0;
        while i < n
            invariant
                evv == log_view(trans.events@),
                n == trans.events@.len(),
                i <= n,
                old_log == old(self).log@,
                old_log.len() + n <= u64::MAX,
                self.log@ == old_log + evv.subrange(0, i as int),
                self.primary.wf(),
                self.secondary.wf(),
                self.enforcer.wf(),
                self.enforcer.tolerance_ms == old(self).enforcer.tolerance_ms,
                self.root_keys@ == old(self).root_keys@,
                self.primary.m() == primary_of(self.log@),
                self.secondary.m() == secondary_of(self.log@),
                self.trusted_keys@ == keys_of(self.log@, self.root_keys@),
            decreases n - i,
        {
            let e = crate::event::copy_event(&trans.events[i]);
            let ghost ev = e@;
            self.enforcer.feed(&e.meta);
            let mut pks = pks_of_meta_exec(&e.meta.core);
            self.trusted_keys.append(&mut pks);
            let ghost log_before = self.log@;
            let off = self.log.append(e);
            let loaded = self.log.load(off);
            let stored = match loaded {
                Some(st) => st,
                None => {
                    proof {
                        assert(false);
                    }
                    return Err(CommitError::TransmitError);
                },
            };
            apply_event(&mut self.primary, &mut self.secondary, stored, off);
            i = i + 1;
            proof {
                let pre = evv.subrange(0, i as int);
                assert(pre.drop_last() =~= evv.subrange(0, i - 1));
                assert(pre.last() == trans.events@[i - 1]@);
                assert(self.log@ =~= old_log + pre);
                assert(self.log@.drop_last() =~= log_before);
                assert(self.log@.last() == ev);
                assert(self.primary.m() =~= primary_of(self.log@));
                assert(self.secondary.m() =~= secondary_of(self.log@));
                assert(self.trusted_keys@ =~= keys_of(self.log@, self.root_keys@));
            }
        }
        proof {
            assert(evv.subrange(0, n as int) =~= evv);
            assert(self.log@ =~= old(self).log@ + evv);
        }
        Ok(())
    }
}

} // verus!
