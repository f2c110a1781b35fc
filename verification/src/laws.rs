//! The store's cross-cutting laws, each proved over the spec functions the
//! public contracts are written in.
use vstd::prelude::*;
use crate::chain::apply_primary;
use crate::chain::apply_secondary;
use crate::chain::primary_of;
use crate::chain::secondary_of;
use crate::crypto::spec_encrypt;
use crate::crypto::EncryptKey;
use crate::event::EventDataV;
use crate::header::PrimaryKey;
use crate::kmap::nodup;
use crate::meta::first_data_key_from;
use crate::meta::first_tombstone_from;
use crate::meta::MetaAuthorizationV;
use crate::pipeline::read_match_from;
use crate::pipeline::spec_overlay;
use crate::session::SessionPropertyV;

verus! {

/// The primary index folded onward from a starting map.
pub open spec fn primary_fold(m: Map<u64, crate::event::EventLeaf>, s: Seq<EventDataV>) -> Map<
    u64,
    crate::event::EventLeaf,
>
    decreases s.len(),
{
    if s.len() == 0 {
        m
    } else {
        apply_primary(primary_fold(m, s.drop_last()), s.last(), s.len() - 1)
    }
}

/// The secondary index folded onward from a starting map.
pub open spec fn secondary_fold(m: Map<(u64, u64), Seq<u64>>, s: Seq<EventDataV>) -> Map<
    (u64, u64),
    Seq<u64>,
>
    decreases s.len(),
{
    if s.len() == 0 {
        m
    } else {
        apply_secondary(secondary_fold(m, s.drop_last()), s.last())
    }
}

/// Offsets do not change what the secondary fold computes, and the primary
/// fold over a concatenation is the fold of the second half onward from the
/// fold of the first — up to the offsets recorded in leaves, which is why
/// the law below speaks of domains.
pub proof fn lemma_secondary_concat(a: Seq<EventDataV>, b: Seq<EventDataV>)
    ensures
        secondary_of(a + b) == secondary_fold(secondary_of(a), b),
    decreases b.len(),
{
    if b.len() == 0 {
        assert(a + b =~= a);
    } else {
        lemma_secondary_concat(a, b.drop_last());
        assert((a + b).drop_last() =~= a + b.drop_last());
        assert((a + b).last() == b.last());
    }
}

/// Whether a key is live is decided by the fold of the second half onward
/// from the fold of the first.
pub proof fn lemma_primary_concat_dom(a: Seq<EventDataV>, b: Seq<EventDataV>, k: u64)
    ensures
        primary_of(a + b).dom().contains(k) == primary_fold(primary_of(a), b).dom().contains(k),
    decreases b.len(),
{
    if b.len() == 0 {
        assert(a + b =~= a);
    } else {
        lemma_primary_concat_dom(a, b.drop_last(), k);
        assert((a + b).drop_last() =~= a + b.drop_last());
        assert((a + b).last() == b.last());
        let m1 = primary_of((a + b).drop_last());
        let m2 = primary_fold(primary_of(a), b.drop_last());
        let e = b.last();
        assert forall|k2: u64| m1.dom().contains(k2) == m2.dom().contains(k2) by {
            lemma_primary_concat_dom(a, b.drop_last(), k2);
        }
        assert(apply_primary(m1, e, (a + b).len() - 1).dom().contains(k) == apply_primary(
            m2,
            e,
            b.len() - 1,
        ).dom().contains(k));
    }
}

/// Tombstone retirement: when some event of a batch retires a key and no
/// later event of the batch marks it again, the key is not live after the
/// batch.
pub proof fn lemma_tombstone_retires(
    m: Map<u64, crate::event::EventLeaf>,
    s: Seq<EventDataV>,
    k: PrimaryKey,
    t: int,
)
    requires
        0 <= t < s.len(),
        first_tombstone_from(s[t].meta, 0) == Some(k),
        forall|j: int| t < j < s.len() ==> first_data_key_from((#[trigger] s[j]).meta, 0) != Some(k),
    ensures
        !primary_fold(m, s).dom().contains(k.value),
    decreases s.len(),
{
    let e = s.last();
    if t == s.len() - 1 {
        assert(!apply_primary(primary_fold(m, s.drop_last()), e, s.len() - 1).dom().contains(
            k.value,
        ));
    } else {
        lemma_tombstone_retires(m, s.drop_last(), k, t);
        assert(first_data_key_from(e.meta, 0) != Some(k));
        let m1 = primary_fold(m, s.drop_last());
        assert(!m1.dom().contains(k.value));
        match first_data_key_from(e.meta, 0) {
            Some(dk) => {
                assert(dk.value != k.value) by {
                    if dk.value == k.value {
                        assert(dk == k);
                    }
                }
            },
            None => {},
        }
    }
}

/// Collection membership, presence: when some event of a batch files `k`
/// under `(parent, collection)` and no later event of the batch retires
/// `k`, the collection contains `k` after the batch.
pub proof fn lemma_collection_member(
    m: Map<(u64, u64), Seq<u64>>,
    s: Seq<EventDataV>,
    k: PrimaryKey,
    ck: (u64, u64),
    t: int,
)
    requires
        0 <= t < s.len(),
        first_data_key_from(s[t].meta, 0) == Some(k),
        crate::meta::first_tree_from(s[t].meta, 0) matches Some(tr) && (
        tr.vec.parent_id.value,
        tr.vec.collection_id,
        ) == ck,
        first_tombstone_from(s[t].meta, 0) != Some(k),
        forall|j: int|
            t <= j < s.len() ==> first_tombstone_from((#[trigger] s[j]).meta, 0) != Some(k),
    ensures
        secondary_fold(m, s).dom().contains(ck),
        secondary_fold(m, s)[ck].contains(k.value),
    decreases s.len(),
{
    let e = s.last();
    let m1 = secondary_fold(m, s.drop_last());
    if t == s.len() - 1 {
        let mid = apply_secondary_data_part(m1, e);
        assert(mid.dom().contains(ck) && mid[ck].contains(k.value)) by {
            if m1.dom().contains(ck) {
                if m1[ck].contains(k.value) {
                } else {
                    assert(mid[ck][mid[ck].len() - 1] == k.value);
                }
            } else {
                assert(mid[ck][0] == k.value);
            }
        }
        match first_tombstone_from(e.meta, 0) {
            Some(tk) => {
                assert(tk.value != k.value) by {
                    if tk.value == k.value {
                        assert(tk == k);
                    }
                }
                crate::kmap::lemma_seq_without_props(mid[ck], tk.value);
            },
            None => {},
        }
    } else {
        lemma_collection_member(m, s.drop_last(), k, ck, t);
        let mid = apply_secondary_data_part(m1, e);
        assert(mid.dom().contains(ck));
        assert(mid[ck].contains(k.value)) by {
            match (first_data_key_from(e.meta, 0), crate::meta::first_tree_from(e.meta, 0)) {
                (Some(k2), Some(t2)) => {
                    let ck2 = (t2.vec.parent_id.value, t2.vec.collection_id);
                    if ck2 == ck && !m1[ck].contains(k2.value) {
                        let w = choose|w: int| 0 <= w < m1[ck].len() && m1[ck][w] == k.value;
                        assert(m1[ck].push(k2.value)[w] == k.value);
                    }
                },
                _ => {},
            }
        }
        match first_tombstone_from(e.meta, 0) {
            Some(tk) => {
                assert(tk.value != k.value) by {
                    if tk.value == k.value {
                        assert(tk == k);
                        assert(first_tombstone_from(s[s.len() - 1].meta, 0) != Some(k));
                    }
                }
                crate::kmap::lemma_seq_without_props(mid[ck], tk.value);
            },
            None => {},
        }
    }
}

/// The data-and-tree half of one secondary-index step, without the
/// tombstone strip.
pub open spec fn apply_secondary_data_part(m: Map<(u64, u64), Seq<u64>>, e: EventDataV) -> Map<
    (u64, u64),
    Seq<u64>,
> {
    match (first_data_key_from(e.meta, 0), crate::meta::first_tree_from(e.meta, 0)) {
        (Some(k), Some(t)) => {
            let ck = (t.vec.parent_id.value, t.vec.collection_id);
            if m.dom().contains(ck) {
                if m[ck].contains(k.value) {
                    m
                } else {
                    m.insert(ck, m[ck].push(k.value))
                }
            } else {
                m.insert(ck, seq![k.value])
            }
        },
        _ => m,
    }
}

/// Collection membership, uniqueness: every list of the secondary index is
/// free of duplicates, so a filed key is counted exactly once.
pub proof fn lemma_secondary_nodup(
    m: Map<(u64, u64), Seq<u64>>,
    s: Seq<EventDataV>,
    ck: (u64, u64),
)
    requires
        forall|c: (u64, u64)| #[trigger] m.dom().contains(c) ==> nodup(m[c]),
        secondary_fold(m, s).dom().contains(ck),
    ensures
        nodup(secondary_fold(m, s)[ck]),
    decreases s.len(),
{
    if s.len() == 0 {
    } else {
        let e = s.last();
        let m1 = secondary_fold(m, s.drop_last());
        assert forall|c: (u64, u64)| #[trigger] m1.dom().contains(c) implies nodup(m1[c]) by {
            lemma_secondary_nodup(m, s.drop_last(), c);
        }
        let mid = apply_secondary_data_part(m1, e);
        assert forall|c: (u64, u64)| #[trigger] mid.dom().contains(c) implies nodup(mid[c]) by {
            match (first_data_key_from(e.meta, 0), crate::meta::first_tree_from(e.meta, 0)) {
                (Some(k), Some(t)) => {
                    let ck2 = (t.vec.parent_id.value, t.vec.collection_id);
                    if c == ck2 && m1.dom().contains(ck2) && !m1[ck2].contains(k.value) {
                        let lst = m1[ck2].push(k.value);
                        assert forall|i: int, j: int| 0 <= i < j < lst.len() implies lst[i]
                            != lst[j] by {
                            if j == lst.len() - 1 {
                                assert(m1[ck2].contains(m1[ck2][i]));
                            }
                        }
                    }
                },
                _ => {},
            }
        }
        match first_tombstone_from(e.meta, 0) {
            Some(tk) => {
                crate::kmap::lemma_seq_without_props(mid[ck], tk.value);
            },
            None => {},
        }
    }
}

/// Round-trip encryption: a payload encrypted on commit under the read key
/// a session's match finds is decrypted back to the original by any session
/// whose match finds the same key; a session whose match finds none is
/// refused. The match scans the listed read digests in order and takes the
/// session's first key for the first digest it can answer, so a session
/// matching a different listed digest decrypts exactly when the key value
/// it holds is the encrypting one.
pub proof fn lemma_round_trip_encryption(
    auth: MetaAuthorizationV,
    k: EncryptKey,
    nonce: u64,
    data: Seq<u8>,
    sess: Seq<SessionPropertyV>,
)
    requires
        auth.allow_read.len() > 0,
    ensures
        read_match_from(auth.allow_read, sess, 0) == Some(k) ==> spec_overlay(
            auth,
            Some(crate::crypto::InitializationVector { nonce }),
            spec_encrypt(k.seed, nonce, data),
            sess,
        ) == Some(data),
        read_match_from(auth.allow_read, sess, 0) is None ==> spec_overlay(
            auth,
            Some(crate::crypto::InitializationVector { nonce }),
            spec_encrypt(k.seed, nonce, data),
            sess,
        ) is None,
{
    crate::crypto::lemma_encrypt_round_trip(k.seed, nonce, data);
}

/// Read-your-writes: the bytes a store stages for a payload decode back to
/// that payload, so a load that hits the stage returns what was stored.
pub proof fn lemma_read_your_writes<D: crate::dio::RowCodec>(rv: crate::dio::RowDataV, dv: D::V)
    requires
        rv.data == D::spec_encode(dv),
        D::spec_valid(dv),
    ensures
        D::spec_decode(rv.data) == Some(dv),
{
    D::lemma_round_trip(dv);
}

} // verus!
