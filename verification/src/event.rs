//! Events: the atomic units of the log. An event is a metadata header plus
//! an optional opaque payload, and carries the wire-format tag its bytes are
//! encoded under. The header digest computed here is what signatures cover
//! and what leaves record.
use vstd::prelude::*;
use crate::crypto::mix64;
use crate::crypto::hash64_of;
use crate::crypto::AteHash;
use crate::header::PrimaryKey;
use crate::meta::core_view;
use crate::meta::CoreMetadata;
use crate::meta::CoreMetadataV;
use crate::meta::Metadata;

verus! {

pub const DIGEST_LANE_HI: u64 = 0x9ae16a3b2f90404f;

pub const DIGEST_LANE_LO: u64 = 0xc3a5c85c97cb3127;

pub const TAG_VACANT: u64 = 1;

pub const TAG_DATA: u64 = 2;

pub const TAG_TOMBSTONE: u64 = 3;

pub const TAG_AUTHORIZATION: u64 = 4;

pub const TAG_IV: u64 = 5;

pub const TAG_PUBLIC_KEY: u64 = 6;

pub const TAG_ENC_PRIVATE_KEY: u64 = 7;

pub const TAG_ENC_ENCRYPTION_KEY: u64 = 8;

pub const TAG_TREE: u64 = 9;

pub const TAG_SIGNATURE: u64 = 10;

pub const TAG_TIMESTAMP: u64 = 11;

pub const TAG_AUTHOR: u64 = 12;

/// The wire encoding an event's bytes are laid out under: a compact binary
/// form or a self-describing one.
#[derive(Clone, Copy, Debug, PartialEq, Eq, Structural, Hash)]
pub enum MessageFormat {
    Binary,
    SelfDescribing,
}

impl Default for MessageFormat {
    fn default() -> (r: Self)
        ensures
            r is Binary,
    {
        MessageFormat::Binary
    }
}

/// Folds a sequence of digests into one lane.
pub open spec fn fold_hashes(h: u64, s: Seq<AteHash>) -> u64
    decreases s.len(),
{
    if s.len() == 0 {
        h
    } else {
        mix64(mix64(fold_hashes(h, s.drop_last()), s.last().hi), s.last().lo)
    }
}

/// The 64-bit digest of one header entry.
#[verifier::opaque]
pub open spec fn spec_entry_digest(e: CoreMetadataV) -> u64 {
    match e {
        CoreMetadataV::Vacant => mix64(TAG_VACANT, 0),
        CoreMetadataV::Data(k) => mix64(TAG_DATA, k.value),
        CoreMetadataV::Tombstone(k) => mix64(TAG_TOMBSTONE, k.value),
        CoreMetadataV::Authorization(a) => mix64(
            mix64(
                mix64(fold_hashes(TAG_AUTHORIZATION, a.allow_read), 0),
                fold_hashes(0, a.allow_write),
            ),
            hash64_of(a.implicit_authority),
        ),
        CoreMetadataV::InitializationVector(iv) => mix64(TAG_IV, iv.nonce),
        CoreMetadataV::PublicKey(pk) => mix64(
            mix64(TAG_PUBLIC_KEY, pk.scheme_tag()),
            pk.pk_value(),
        ),
        CoreMetadataV::EncryptedPrivateKey(epk) => mix64(
            mix64(
                mix64(mix64(TAG_ENC_PRIVATE_KEY, epk.pk.spec_hash().hi), epk.ek_hash.hi),
                epk.sk_iv.nonce,
            ),
            hash64_of(epk.sk_encrypted),
        ),
        CoreMetadataV::EncryptedEncryptionKey(k) => mix64(TAG_ENC_ENCRYPTION_KEY, k.seed),
        CoreMetadataV::Tree(t) => mix64(
            mix64(
                mix64(mix64(TAG_TREE, t.vec.parent_id.value), t.vec.collection_id),
                if t.inherit_read {
                    1u64
                } else {
                    0u64
                },
            ),
            if t.inherit_write {
                1u64
            } else {
                0u64
            },
        ),
        CoreMetadataV::Signature(sig) => mix64(
            mix64(
                mix64(fold_hashes(TAG_SIGNATURE, sig.header_hashes), sig.signature.hi),
                sig.signature.lo,
            ),
            mix64(sig.public_key_hash.hi, sig.public_key_hash.lo),
        ),
        CoreMetadataV::Timestamp(t) => mix64(TAG_TIMESTAMP, t.time_since_epoch_ms),
        CoreMetadataV::Author(a) => mix64(TAG_AUTHOR, hash64_of(a)),
    }
}

/// Folds the entry digests of a header into one lane.
pub open spec fn spec_meta_fold(h: u64, s: Seq<CoreMetadataV>) -> u64
    decreases s.len(),
{
    if s.len() == 0 {
        h
    } else {
        mix64(spec_meta_fold(h, s.drop_last()), spec_entry_digest(s.last()))
    }
}

/// The digest of an event header: both lanes folded over the entries and
/// the payload digest.
#[verifier::opaque]
pub open spec fn spec_event_hash(core: Seq<CoreMetadataV>, data_bytes: Option<Seq<u8>>) -> AteHash {
    let payload: u64 = match data_bytes {
        Some(d) => mix64(1, hash64_of(d)),
        None => 0,
    };
    AteHash {
        hi: mix64(spec_meta_fold(DIGEST_LANE_HI, core), payload),
        lo: mix64(spec_meta_fold(DIGEST_LANE_LO, core), payload),
    }
}

fn fold_hashes_exec(h: u64, s: &Vec<AteHash>) -> (r: u64)
    ensures
        r == fold_hashes(h, s@),
{
    let mut acc: u64 = h;
    let mut i: usize = 0;
    while i < s.len()
        invariant
            i <= s@.len(),
            acc == fold_hashes(h, s@.subrange(0, i as int)),
        decreases s@.len() - i,
    {
        acc = crate::crypto::mix64_exec(acc, s[i].hi);
        acc = crate::crypto::mix64_exec(acc, s[i].lo);
        i = i + 1;
        proof {
            assert(s@.subrange(0, i as int).drop_last() =~= s@.subrange(0, i - 1));
        }
    }
    proof {
        assert(s@.subrange(0, s@.len() as int) =~= s@);
    }
    acc
}

/// The 64-bit digest of one header entry.
pub fn entry_digest(e: &CoreMetadata) -> (r: u64)
    ensures
        r == spec_entry_digest(e@),
{
    proof {
        reveal(crate::event::spec_entry_digest);
    }
    match e {
        CoreMetadata::Vacant => crate::crypto::mix64_exec(TAG_VACANT, 0),
        CoreMetadata::Data(k) => crate::crypto::mix64_exec(TAG_DATA, k.value),
        CoreMetadata::Tombstone(k) => crate::crypto::mix64_exec(TAG_TOMBSTONE, k.value),
        CoreMetadata::Authorization(a) => {
            let rh = fold_hashes_exec(TAG_AUTHORIZATION, &a.allow_read);
            let wh = fold_hashes_exec(0, &a.allow_write);
            let ah = crate::crypto::hash64_bytes(a.implicit_authority.as_slice());
            crate::crypto::mix64_exec(
                crate::crypto::mix64_exec(crate::crypto::mix64_exec(rh, 0), wh),
                ah,
            )
        },
        CoreMetadata::InitializationVector(iv) => crate::crypto::mix64_exec(TAG_IV, iv.nonce),
        CoreMetadata::PublicKey(pk) => {
            let (tag, pkv): (u64, u64) = match pk {
                crate::crypto::PublicSignKey::Falcon512 { pk } => (1u64, *pk),
                crate::crypto::PublicSignKey::Falcon1024 { pk } => (2u64, *pk),
            };
            crate::crypto::mix64_exec(crate::crypto::mix64_exec(TAG_PUBLIC_KEY, tag), pkv)
        },
        CoreMetadata::EncryptedPrivateKey(epk) => {
            let pkh = epk.pk_hash();
            let skh = crate::crypto::hash64_bytes(epk.sk_encrypted.as_slice());
            crate::crypto::mix64_exec(
                crate::crypto::mix64_exec(
                    crate::crypto::mix64_exec(
                        crate::crypto::mix64_exec(TAG_ENC_PRIVATE_KEY, pkh.hi),
                        epk.ek_hash.hi,
                    ),
                    epk.sk_iv.nonce,
                ),
                skh,
            )
        },
        CoreMetadata::EncryptedEncryptionKey(k) => crate::crypto::mix64_exec(
            TAG_ENC_ENCRYPTION_KEY,
            k.seed,
        ),
        CoreMetadata::Tree(t) => {
            let ir: u64 = if t.inherit_read {
                1
            } else {
                0
            };
            let iw: u64 = if t.inherit_write {
                1
            } else {
                0
            };
            crate::crypto::mix64_exec(
                crate::crypto::mix64_exec(
                    crate::crypto::mix64_exec(
                        crate::crypto::mix64_exec(TAG_TREE, t.vec.parent_id.value),
                        t.vec.collection_id,
                    ),
                    ir,
                ),
                iw,
            )
        },
        CoreMetadata::Signature(sig) => {
            let hh = fold_hashes_exec(TAG_SIGNATURE, &sig.header_hashes);
            crate::crypto::mix64_exec(
                crate::crypto::mix64_exec(
                    crate::crypto::mix64_exec(hh, sig.signature.hi),
                    sig.signature.lo,
                ),
                crate::crypto::mix64_exec(sig.public_key_hash.hi, sig.public_key_hash.lo),
            )
        },
        CoreMetadata::Timestamp(t) => crate::crypto::mix64_exec(
            TAG_TIMESTAMP,
            t.time_since_epoch_ms,
        ),
        CoreMetadata::Author(a) => crate::crypto::mix64_exec(
            TAG_AUTHOR,
            crate::crypto::hash64_bytes(a.as_slice()),
        ),
    }
}

fn meta_fold_exec(h: u64, s: &Vec<CoreMetadata>) -> (r: u64)
    ensures
        r == spec_meta_fold(h, core_view(s@)),
{
    let mut acc: u64 = h;
    let mut i: usize = 0;
    while i < s.len()
        invariant
            i <= s@.len(),
            acc == spec_meta_fold(h, core_view(s@.subrange(0, i as int))),
        decreases s@.len() - i,
    {
        let d = entry_digest(&s[i]);
        acc = crate::crypto::mix64_exec(acc, d);
        i = i + 1;
        proof {
            let pre = core_view(s@.subrange(0, i as int));
            assert(pre.drop_last() =~= core_view(s@.subrange(0, i - 1)));
            assert(pre.last() == s@[i - 1]@);
        }
    }
    proof {
        assert(core_view(s@.subrange(0, s@.len() as int)) =~= core_view(s@));
    }
    acc
}

/// The view of an optional payload as an optional byte sequence.
pub open spec fn opt_bytes_view(d: Option<Vec<u8>>) -> Option<Seq<u8>> {
    match d {
        Some(v) => Some(v@),
        None => None,
    }
}

/// An event: a metadata header, an optional opaque payload, and the wire
/// format the pair is encoded under.
#[derive(Clone, Debug)]
pub struct EventData {
    pub meta: Metadata,
    pub data_bytes: Option<Vec<u8>>,
    pub format: MessageFormat,
}

/// The view of an event.
#[verifier::ext_equal]
pub struct EventDataV {
    pub meta: Seq<CoreMetadataV>,
    pub data_bytes: Option<Seq<u8>>,
    pub format: MessageFormat,
}

impl View for EventData {
    type V = EventDataV;

    open spec fn view(&self) -> EventDataV {
        EventDataV {
            meta: self.meta@,
            data_bytes: opt_bytes_view(self.data_bytes),
            format: self.format,
        }
    }
}

impl EventDataV {
    /// The digest signatures cover.
    pub open spec fn hash(&self) -> AteHash {
        spec_event_hash(self.meta, self.data_bytes)
    }
}

impl EventData {
    /// The digest signatures cover: both header lanes plus the payload
    /// digest.
    pub open spec fn spec_hash(&self) -> AteHash {
        self@.hash()
    }

    pub fn hash(&self) -> (r: AteHash)
        ensures
            r == self.spec_hash(),
    {
        proof {
            reveal(crate::event::spec_event_hash);
        }
        let payload: u64 = match &self.data_bytes {
            Some(d) => crate::crypto::mix64_exec(1, crate::crypto::hash64_bytes(d.as_slice())),
            None => 0,
        };
        let hi = crate::crypto::mix64_exec(
            meta_fold_exec(DIGEST_LANE_HI, &self.meta.core),
            payload,
        );
        let lo = crate::crypto::mix64_exec(
            meta_fold_exec(DIGEST_LANE_LO, &self.meta.core),
            payload,
        );
        AteHash { hi, lo }
    }

    /// The header of this event: its metadata and digest, without the
    /// payload bytes.
    pub fn as_header(&self) -> (r: EventHeader)
        ensures
            r.meta@ == self.meta@,
            r.raw == self.spec_hash(),
    {
        EventHeader { meta: crate::meta::copy_metadata(&self.meta), raw: self.hash() }
    }
}

/// An equal copy of an event.
pub fn copy_event(e: &EventData) -> (r: EventData)
    ensures
        r@ == e@,
{
    let data_bytes = match &e.data_bytes {
        Some(d) => {
            let c = d.clone();
            proof {
                assert(c@ =~= d@);
            }
            Some(c)
        },
        None => None,
    };
    EventData { meta: crate::meta::copy_metadata(&e.meta), data_bytes, format: e.format }
}

/// An event header paired with its digest.
#[derive(Clone, Debug)]
pub struct EventHeader {
    pub meta: Metadata,
    pub raw: AteHash,
}

/// The index entry for one event: its digest, the row and parent it speaks
/// of, the timestamps derived for the row, and where in the log it sits.
#[derive(Clone, Copy, Debug, PartialEq, Eq, Structural, Hash)]
pub struct EventLeaf {
    pub event_hash: AteHash,
    pub primary_key: Option<PrimaryKey>,
    pub parent_key: Option<PrimaryKey>,
    pub created_ms: u64,
    pub updated_ms: u64,
    pub offset_in_log: u64,
}

} // verus!
