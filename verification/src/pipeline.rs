//! The per-event pipeline stages the transactional view drives: payload
//! transforms (encryption on the way down, decryption on the way up) and
//! the linters that enrich headers with timestamps, authorship and the
//! batch-wide signature envelope.
use vstd::prelude::*;
use crate::chain::digest_of_hashes_exec;
use crate::crypto::spec_encrypt;
use crate::crypto::AteHash;
use crate::crypto::EncryptKey;
use crate::crypto::InitializationVector;
use crate::errors::LintError;
use crate::errors::TransformError;
use crate::event::EventData;
use crate::meta::CoreMetadata;
use crate::meta::CoreMetadataV;
use crate::meta::MetaAuthorizationV;
use crate::meta::MetaSignature;
use crate::meta::Metadata;
use crate::session::read_key_lookup_from;
use crate::session::Session;
use crate::session::SessionPropertyV;

verus! {

/// The first initialization vector among the entries from position `i` on.
pub open spec fn first_iv_from(s: Seq<CoreMetadataV>, i: int) -> Option<InitializationVector>
    decreases s.len() - i when 0 <= i <= s.len()
{
    if i >= s.len() {
        None
    } else {
        match s[i] {
            CoreMetadataV::InitializationVector(iv) => Some(iv),
            _ => first_iv_from(s, i + 1),
        }
    }
}

/// The first initialization vector of a header.
pub fn get_iv(meta: &Metadata) -> (r: Option<InitializationVector>)
    ensures
        r == first_iv_from(meta@, 0),
{
    let n = meta.core.len();
    let mut i: usize = 0;
    while i < n
        invariant
            i <= n,
            n == meta.core@.len(),
            first_iv_from(meta@, 0) == first_iv_from(meta@, i as int),
        decreases n - i,
    {
        match &meta.core[i] {
            CoreMetadata::InitializationVector(iv) => {
                return Some(*iv);
            },
            _ => {},
        }
        i = i + 1;
    }
    None
}

/// The read key the session holds for this authorization: the first listed
/// read-key digest the session can answer, and the first session key with
/// that digest.
pub open spec fn read_match_from(
    allow_read: Seq<AteHash>,
    sess: Seq<SessionPropertyV>,
    i: int,
) -> Option<EncryptKey>
    decreases allow_read.len() - i when 0 <= i <= allow_read.len()
{
    if i >= allow_read.len() {
        None
    } else {
        match read_key_lookup_from(sess, allow_read[i], 0) {
            Some(k) => Some(k),
            None => read_match_from(allow_read, sess, i + 1),
        }
    }
}

/// The exec form of the read-key match.
pub fn read_match(allow_read: &Vec<AteHash>, session: &Session) -> (r: Option<EncryptKey>)
    ensures
        r == read_match_from(allow_read@, session@, 0),
{
    let n = allow_read.len();
    let mut i: usize = 0;
    while i < n
        invariant
            i <= n,
            n == allow_read@.len(),
            read_match_from(allow_read@, session@, 0) == read_match_from(
                allow_read@,
                session@,
                i as int,
            ),
        decreases n - i,
    {
        match session.read_key_for(&allow_read[i]) {
            Some(k) => {
                return Some(*k);
            },
            None => {},
        }
        i = i + 1;
    }
    None
}

/// Transformer, write side: encrypts the payload under the session's read
/// key when the authorization restricts reading; the fresh vector is
/// reported back to be carried in the header. An unrestricted payload
/// passes through unchanged.
pub fn data_as_underlay(
    auth: &crate::meta::MetaAuthorization,
    data: &Vec<u8>,
    session: &Session,
) -> (r: Result<(Vec<u8>, Option<InitializationVector>), TransformError>)
    ensures
        auth@.allow_read.len() == 0 ==> (r matches Ok(p) && p.0@ == data@ && p.1 is None),
        auth@.allow_read.len() > 0 ==> match read_match_from(auth@.allow_read, session@, 0) {
            Some(k) => r matches Ok(p) && p.1 matches Some(iv) && p.0@ == spec_encrypt(
                k.seed,
                iv.nonce,
                data@,
            ),
            None => r == Err::<(Vec<u8>, Option<InitializationVector>), TransformError>(
                TransformError::MissingReadKey(auth@.allow_read[0]),
            ),
        },
{
    if allow_read_is_empty(auth) {
        let c = data.clone();
        proof {
            assert(c@ =~= data@);
        }
        return Ok((c, None));
    }
    match read_match(&auth.allow_read, session) {
        Some(k) => {
            let iv = InitializationVector { nonce: crate::time::entropy64() };
            let cipher = k.encrypt_with_iv(&iv, data.as_slice());
            Ok((cipher, Some(iv)))
        },
        None => Err(TransformError::MissingReadKey(auth.allow_read[0])),
    }
}

fn allow_read_is_empty(auth: &crate::meta::MetaAuthorization) -> (r: bool)
    ensures
        r == (auth@.allow_read.len() == 0),
{
    auth.allow_read.len() == 0
}

/// What the read-side transform yields: the plaintext when the session can
/// answer the authorization, nothing when it cannot.
pub open spec fn spec_overlay(
    auth: MetaAuthorizationV,
    iv: Option<InitializationVector>,
    data: Seq<u8>,
    sess: Seq<SessionPropertyV>,
) -> Option<Seq<u8>> {
    if auth.allow_read.len() == 0 {
        Some(data)
    } else {
        match read_match_from(auth.allow_read, sess, 0) {
            Some(k) => Some(
                match iv {
                    Some(ivv) => spec_encrypt(k.seed, ivv.nonce, data),
                    None => data,
                },
            ),
            None => None,
        }
    }
}

/// Transformer, read side: decrypts a payload under the session's matching
/// read key and the header's vector. Inverts the write side under the same
/// key and vector.
pub fn data_as_overlay(
    auth: &crate::meta::MetaAuthorization,
    iv: Option<InitializationVector>,
    data: &Vec<u8>,
    session: &Session,
) -> (r: Result<Vec<u8>, TransformError>)
    ensures
        match spec_overlay(auth@, iv, data@, session@) {
            Some(p) => r matches Ok(v) && v@ == p,
            None => auth@.allow_read.len() > 0 && r == Err::<Vec<u8>, TransformError>(
                TransformError::MissingReadKey(auth@.allow_read[0]),
            ),
        },
        auth@.allow_read.len() == 0 ==> (r matches Ok(p) && p@ == data@),
        auth@.allow_read.len() > 0 ==> match read_match_from(auth@.allow_read, session@, 0) {
            Some(k) => match iv {
                Some(ivv) => r matches Ok(p) && p@ == spec_encrypt(k.seed, ivv.nonce, data@),
                None => r matches Ok(p) && p@ == data@,
            },
            None => r == Err::<Vec<u8>, TransformError>(
                TransformError::MissingReadKey(auth@.allow_read[0]),
            ),
        },
{
    if allow_read_is_empty(auth) {
        let c = data.clone();
        proof {
            assert(c@ =~= data@);
        }
        return Ok(c);
    }
    match read_match(&auth.allow_read, session) {
        Some(k) => {
            match iv {
                Some(ivv) => Ok(k.decrypt(&ivv, data.as_slice())),
                None => {
                    let c = data.clone();
                    proof {
                        assert(c@ =~= data@);
                    }
                    Ok(c)
                },
            }
        },
        None => Err(TransformError::MissingReadKey(auth.allow_read[0])),
    }
}

/// A payload encrypted on the way down and decrypted on the way up under
/// the same key and vector is the original payload.
pub proof fn lemma_transform_round_trip(k: EncryptKey, nonce: u64, data: Seq<u8>)
    ensures
        spec_encrypt(k.seed, nonce, spec_encrypt(k.seed, nonce, data)) == data,
{
    crate::crypto::lemma_encrypt_round_trip(k.seed, nonce, data);
}

/// Linter, per event: the entries every outgoing header gains — the
/// adjusted timestamp, and the session's identity as author.
pub fn metadata_lint_event(
    enforcer: &crate::time::TimestampEnforcer,
    session: &Session,
    now_ms: u64,
) -> (r: Result<Vec<CoreMetadata>, LintError>)
    requires
        enforcer.ntp_result.offset_us != i64::MIN,
    ensures
        r matches Ok(v) ==> {
            let ts = (now_ms + crate::time::spec_div1000(enforcer.ntp_result.offset_us)) as u64;
            let stamped = seq![
                CoreMetadataV::Timestamp(crate::meta::MetaTimestamp { time_since_epoch_ms: ts }),
            ];
            crate::meta::core_view(v@) == (match crate::session::first_identity_from(session@, 0) {
                Some(id) => stamped.push(CoreMetadataV::Author(id)),
                None => stamped,
            })
        },
        r matches Err(e) ==> (e matches LintError::Time(_) && (now_ms + crate::time::spec_div1000(
            enforcer.ntp_result.offset_us,
        ) < 0 || now_ms + crate::time::spec_div1000(enforcer.ntp_result.offset_us) > u64::MAX)),
{
    let t = match enforcer.current_timestamp_from(now_ms) {
        Ok(t) => t,
        Err(e) => {
            return Err(LintError::Time(e));
        },
    };
    let mut ret: Vec<CoreMetadata> = Vec::new();
    ret.push(CoreMetadata::Timestamp(crate::meta::MetaTimestamp { time_since_epoch_ms: t }));
    match session.identity() {
        Some(id) => {
            let c = id.clone();
            proof {
                assert(c@ =~= id@);
            }
            ret.push(CoreMetadata::Author(c));
        },
        None => {},
    }
    proof {
        let ts = (now_ms + crate::time::spec_div1000(enforcer.ntp_result.offset_us)) as u64;
        let stamped = seq![
            CoreMetadataV::Timestamp(crate::meta::MetaTimestamp { time_since_epoch_ms: ts }),
        ];
        match crate::session::first_identity_from(session@, 0) {
            Some(id) => {
                assert(crate::meta::core_view(ret@) =~= stamped.push(CoreMetadataV::Author(id)));
            },
            None => {
                assert(crate::meta::core_view(ret@) =~= stamped);
            },
        }
    }
    Ok(ret)
}

/// The write-key digests one header's authorization names.
pub open spec fn write_hashes_of(meta: Seq<CoreMetadataV>) -> Seq<AteHash> {
    match crate::meta::first_auth_from(meta, 0) {
        Some(a) => a.allow_write,
        None => Seq::empty(),
    }
}

/// True when the envelope entries hold, for the write-key digest `h`, a
/// signature over exactly the headers naming `h`, made by the session's key
/// for `h`, with that key advertised beside it.
pub open spec fn envelope_has(
    env: Seq<CoreMetadataV>,
    h: AteHash,
    evts: Seq<EventData>,
    sess: Seq<SessionPropertyV>,
) -> bool {
    match crate::session::write_key_lookup_from(sess, h, 0) {
        Some(k) => exists|l: int, m: int|
            #![trigger env[l], env[m]]
            0 <= l < env.len() && 0 <= m < env.len() && env[l] == CoreMetadataV::Signature(
                crate::meta::MetaSignatureV {
                    header_hashes: covered_hashes_upto(evts, h, evts.len() as int),
                    signature: crate::crypto::spec_sign(
                        k.sk,
                        crate::chain::digest_of_hashes(
                            covered_hashes_upto(evts, h, evts.len() as int),
                        ),
                    ),
                    public_key_hash: k.pk.spec_hash(),
                },
            ) && env[m] == CoreMetadataV::PublicKey(k.pk),
        None => false,
    }
}

/// Entries appended after an envelope keeps what it already holds.
proof fn lemma_envelope_extend(
    pre: Seq<CoreMetadataV>,
    post: Seq<CoreMetadataV>,
    h: AteHash,
    evts: Seq<EventData>,
    sess: Seq<SessionPropertyV>,
)
    requires
        envelope_has(pre, h, evts, sess),
        pre.len() <= post.len(),
        forall|i: int| 0 <= i < pre.len() ==> post[i] == pre[i],
    ensures
        envelope_has(post, h, evts, sess),
{
    match crate::session::write_key_lookup_from(sess, h, 0) {
        Some(k) => {
            let (l, m): (int, int) = choose|l: int, m: int|
                #![trigger pre[l], pre[m]]
                0 <= l < pre.len() && 0 <= m < pre.len() && pre[l] == CoreMetadataV::Signature(
                    crate::meta::MetaSignatureV {
                        header_hashes: covered_hashes_upto(evts, h, evts.len() as int),
                        signature: crate::crypto::spec_sign(
                            k.sk,
                            crate::chain::digest_of_hashes(
                                covered_hashes_upto(evts, h, evts.len() as int),
                            ),
                        ),
                        public_key_hash: k.pk.spec_hash(),
                    },
                ) && pre[m] == CoreMetadataV::PublicKey(k.pk);
            assert(post[l] == pre[l]);
            assert(post[m] == pre[m]);
        },
        None => {},
    }
}

/// True when some event of the batch names `h` among its write-key digests.
pub open spec fn hash_named_in(evts: Seq<EventData>, h: AteHash) -> bool {
    exists|i: int, x: int|
        0 <= i < evts.len() && 0 <= x < write_hashes_of(evts[i]@.meta).len() && (
        #[trigger] write_hashes_of(evts[i]@.meta)[x]) == h
}

/// Linter, batch-wide: one signature envelope per distinct write key named
/// by the batch, each covering the digests of the events whose
/// authorization names it, plus a `PublicKey` entry advertising each
/// signing key. Fails with the first write-key digest the session cannot
/// answer.
pub fn metadata_lint_many(evts: &Vec<EventData>, session: &Session) -> (r: Result<
    Vec<CoreMetadata>,
    LintError,
>)
    ensures
        r matches Err(e) ==> (e matches LintError::MissingWriteKey(h) && hash_named_in(evts@, h)
            && crate::session::write_key_lookup_from(session@, h, 0).is_none()),
        r is Ok ==> forall|i: int, x: int|
            0 <= i < evts@.len() && 0 <= x < write_hashes_of(evts@[i]@.meta).len()
                ==> crate::session::write_key_lookup_from(
                session@,
                #[trigger] write_hashes_of(evts@[i]@.meta)[x],
                0,
            ).is_some(),
        r matches Ok(v) ==> forall|j: int|
            0 <= j < v@.len() ==> ((#[trigger] v@[j])@ is Signature || v@[j]@ is PublicKey),
        r matches Ok(v) ==> forall|h: AteHash| #[trigger]
            hash_named_in(evts@, h) ==> envelope_has(
                crate::meta::core_view(v@),
                h,
                evts@,
                session@,
            ),
{
    // Gather the distinct write-key digests the batch names.
    let mut wanted: Vec<AteHash> = Vec::new();
    let mut i: usize = 0;
    while i < evts.len()
        invariant
            i <= evts@.len(),
            forall|j: int, x: int|
                0 <= j < i && 0 <= x < write_hashes_of(evts@[j]@.meta).len() ==> wanted@.contains(
                    #[trigger] write_hashes_of(evts@[j]@.meta)[x],
                ),
            forall|y: int| 0 <= y < wanted@.len() ==> hash_named_in(evts@, #[trigger] wanted@[y]),
        decreases evts@.len() - i,
    {
        match evts[i].meta.get_authorization() {
            Some(a) => {
                let ghost av = crate::meta::first_auth_from(evts@[i as int]@.meta, 0);
                let mut x: usize = 0;
                while x < a.allow_write.len()
                    invariant
                        x <= a.allow_write@.len(),
                        av == crate::meta::first_auth_from(evts@[i as int]@.meta, 0),
                        av matches Some(avv) && avv.allow_write == a.allow_write@,
                        i < evts@.len(),
                        forall|y: int|
                            0 <= y < x ==> wanted@.contains(
                                write_hashes_of(evts@[i as int]@.meta)[y],
                            ),
                        forall|j: int, y: int|
                            0 <= j < i && 0 <= y < write_hashes_of(evts@[j]@.meta).len()
                                ==> wanted@.contains(
                                #[trigger] write_hashes_of(evts@[j]@.meta)[y],
                            ),
                forall|y: int| 0 <= y < wanted@.len() ==> hash_named_in(evts@, #[trigger] wanted@[y]),
                    decreases a.allow_write@.len() - x,
                {
                    let h = a.allow_write[x];
                    if !crate::chain::hashes_contain(&wanted, &h) {
                        let ghost prev = wanted@;
                        wanted.push(h);
                        proof {
                            assert(wanted@[prev.len() as int] == h);
                            assert(write_hashes_of(evts@[i as int]@.meta)[x as int] == h);
                            assert forall|z: AteHash| prev.contains(z) implies wanted@.contains(
                                z,
                            ) by {
                                let u = choose|u: int| 0 <= u < prev.len() && prev[u] == z;
                                assert(wanted@[u] == z);
                            }
                            assert forall|y: int| 0 <= y < wanted@.len() implies hash_named_in(
                                evts@,
                                #[trigger] wanted@[y],
                            ) by {
                                if y < prev.len() {
                                    assert(prev[y] == wanted@[y]);
                                } else {
                                    assert(wanted@[y] == write_hashes_of(
                                        evts@[i as int]@.meta,
                                    )[x as int]);
                                }
                            }
                        }
                    }
                    proof {
                        assert(wanted@.contains(write_hashes_of(evts@[i as int]@.meta)[x as int]));
                    }
                    x = x + 1;
                }
            },
            None => {},
        }
        i = i + 1;
    }

    // One envelope per distinct digest: find the key, gather the covered
    // header digests, sign, and advertise the public key.
    let mut out: Vec<CoreMetadata> = Vec::new();
    let mut w: usize = 0;
    while w < wanted.len()
        invariant
            w <= wanted@.len(),
            forall|j: int, x: int|
                0 <= j < evts@.len() && 0 <= x < write_hashes_of(evts@[j]@.meta).len()
                    ==> wanted@.contains(#[trigger] write_hashes_of(evts@[j]@.meta)[x]),
            forall|y: int| 0 <= y < wanted@.len() ==> hash_named_in(evts@, #[trigger] wanted@[y]),
            forall|y: int|
                0 <= y < w ==> crate::session::write_key_lookup_from(
                    session@,
                    #[trigger] wanted@[y],
                    0,
                ).is_some(),
            forall|j: int|
                0 <= j < out@.len() ==> ((#[trigger] out@[j])@ is Signature || out@[j]@
                    is PublicKey),
            forall|y: int|
                0 <= y < w ==> envelope_has(
                    crate::meta::core_view(out@),
                    #[trigger] wanted@[y],
                    evts@,
                    session@,
                ),
        decreases wanted@.len() - w,
    {
        let h = wanted[w];
        let key = match session.write_key_for(&h) {
            Some(k) => *k,
            None => {
                proof {
                    assert(hash_named_in(evts@, wanted@[w as int]));
                }
                return Err(LintError::MissingWriteKey(h));
            },
        };
        let mut covered: Vec<AteHash> = Vec::new();
        let mut j: usize = 0;
        while j < evts.len()
            invariant
                j <= evts@.len(),
                covered@ == covered_hashes_upto(evts@, h, j as int),
            decreases evts@.len() - j,
        {
            let names_h = match evts[j].meta.get_authorization() {
                Some(a) => crate::chain::hashes_contain(&a.allow_write, &h),
                None => false,
            };
            let ghost prev = covered@;
            if names_h {
                covered.push(evts[j].hash());
            }
            j = j + 1;
            proof {
                assert(covered@ =~= covered_hashes_upto(evts@, h, j as int));
            }
        }
        let digest = digest_of_hashes_exec(&covered);
        let signature = key.sign(&digest);
        let ghost prev_ov = crate::meta::core_view(out@);
        let ghost covered_v = covered@;
        out.push(
            CoreMetadata::Signature(
                MetaSignature { header_hashes: covered, signature, public_key_hash: key.hash() },
            ),
        );
        out.push(CoreMetadata::PublicKey(key.pk));
        w = w + 1;
        proof {
            let ov = crate::meta::core_view(out@);
            assert(ov.len() == prev_ov.len() + 2);
            assert forall|i: int| 0 <= i < prev_ov.len() implies ov[i] == prev_ov[i] by {
                assert(ov[i] == out@[i]@);
            }
            let l = prev_ov.len() as int;
            assert(ov[l] =~= CoreMetadataV::Signature(
                crate::meta::MetaSignatureV {
                    header_hashes: covered_hashes_upto(evts@, h, evts@.len() as int),
                    signature: crate::crypto::spec_sign(
                        key.sk,
                        crate::chain::digest_of_hashes(
                            covered_hashes_upto(evts@, h, evts@.len() as int),
                        ),
                    ),
                    public_key_hash: key.pk.spec_hash(),
                },
            ));
            assert(ov[l + 1] == CoreMetadataV::PublicKey(key.pk));
            assert(envelope_has(ov, h, evts@, session@));
            assert forall|y: int| 0 <= y < w implies envelope_has(
                ov,
                #[trigger] wanted@[y],
                evts@,
                session@,
            ) by {
                if y < w - 1 {
                    lemma_envelope_extend(prev_ov, ov, wanted@[y], evts@, session@);
                }
            }
        }
    }
    proof {
        assert forall|j: int, x: int|
            0 <= j < evts@.len() && 0 <= x < write_hashes_of(evts@[j]@.meta).len()
                implies crate::session::write_key_lookup_from(
            session@,
            #[trigger] write_hashes_of(evts@[j]@.meta)[x],
            0,
        ).is_some() by {
            assert(wanted@.contains(write_hashes_of(evts@[j]@.meta)[x]));
            let y = choose|y: int|
                0 <= y < wanted@.len() && wanted@[y] == write_hashes_of(evts@[j]@.meta)[x];
            assert(crate::session::write_key_lookup_from(session@, wanted@[y], 0).is_some());
        }
        assert forall|h: AteHash| #[trigger] hash_named_in(evts@, h) implies envelope_has(
            crate::meta::core_view(out@),
            h,
            evts@,
            session@,
        ) by {
            let (j, x): (int, int) = choose|j: int, x: int|
                0 <= j < evts@.len() && 0 <= x < write_hashes_of(evts@[j]@.meta).len() && (
                #[trigger] write_hashes_of(evts@[j]@.meta)[x]) == h;
            assert(wanted@.contains(h));
            let y = choose|y: int| 0 <= y < wanted@.len() && wanted@[y] == h;
            assert(envelope_has(crate::meta::core_view(out@), wanted@[y], evts@, session@));
        }
    }
    Ok(out)
}

/// The digests of the event headers whose authorization names `h`, among
/// the first `n` events.
pub open spec fn covered_hashes_upto(evs: Seq<EventData>, h: AteHash, n: int) -> Seq<AteHash>
    decreases n when 0 <= n <= evs.len()
{
    if n <= 0 {
        Seq::empty()
    } else {
        let pre = covered_hashes_upto(evs, h, n - 1);
        if write_hashes_of(evs[n - 1]@.meta).contains(h) {
            pre.push(evs[n - 1]@.hash())
        } else {
            pre
        }
    }
}


/// When no entry from `i` on is an initialization vector, the scan finds
/// none.
pub proof fn lemma_no_iv(s: Seq<CoreMetadataV>, i: int)
    requires
        0 <= i <= s.len(),
        forall|j: int| i <= j < s.len() ==> !((#[trigger] s[j]) is InitializationVector),
    ensures
        first_iv_from(s, i).is_none(),
    decreases s.len() - i,
{
    if i < s.len() {
        lemma_no_iv(s, i + 1);
    }
}

/// The first initialization vector is the one at `w` when nothing before it
/// is one.
pub proof fn lemma_first_iv_at(s: Seq<CoreMetadataV>, i: int, w: int, iv: InitializationVector)
    requires
        0 <= i <= w < s.len(),
        s[w] == CoreMetadataV::InitializationVector(iv),
        forall|j: int| i <= j < w ==> !((#[trigger] s[j]) is InitializationVector),
    ensures
        first_iv_from(s, i) == Some(iv),
    decreases w - i,
{
    if i < w {
        lemma_first_iv_at(s, i + 1, w, iv);
    }
}

} // verus!
