//! Cryptographic primitives used by the chain of trust.
//!
//! These are deterministic stand-ins with exactly the algebraic properties
//! the engine is specified against: `decrypt` inverts `encrypt` under the
//! same key and initialization vector, key derivation from a seed is
//! deterministic, and `verify` accepts precisely the signatures that `sign`
//! produces for the matching key pair. They are models of the assumed
//! primitives, not hardened ciphers.
use vstd::prelude::*;
use vstd::string::StringSliceAdditionalSpecFns;

verus! {

pub const FNV_PRIME_64: u64 = 0x100000001b3;

pub const HASH64_SEED: u64 = 0xcbf29ce484222325;

pub const HASH_LANE_HI: u64 = 0x9e3779b97f4a7c15;

pub const HASH_LANE_LO: u64 = 0xc2b2ae3d27d4eb4f;

pub const TWICE_TAG: u64 = 0x517cc1b727220a95;

pub const KEY_HASH_HI: u64 = 0x2545f4914f6cdd1d;

pub const KEY_HASH_LO: u64 = 0x27d4eb2f165667c5;

pub const PK_HASH_HI: u64 = 0x9ddfea08eb382d69;

pub const PK_HASH_LO: u64 = 0xff51afd7ed558ccd;

pub const SK_TO_PK_MASK: u64 = 0xa5a5a5a55a5a5a5a;

/// One step of the 64-bit fold hash.
pub open spec fn mix64(h: u64, b: u64) -> u64 {
    h.wrapping_mul(FNV_PRIME_64).wrapping_add(b)
}

/// Folds `s` into the running hash value `h`, one byte per step.
pub open spec fn hash64_from(h: u64, s: Seq<u8>) -> u64
    decreases s.len(),
{
    if s.len() == 0 {
        h
    } else {
        mix64(hash64_from(h, s.drop_last()), s.last() as u64)
    }
}

/// The 64-bit fold hash of a byte sequence.
pub open spec fn hash64_of(s: Seq<u8>) -> u64 {
    hash64_from(HASH64_SEED, s)
}

pub fn mix64_exec(h: u64, b: u64) -> (r: u64)
    ensures
        r == mix64(h, b),
{
    h.wrapping_mul(FNV_PRIME_64).wrapping_add(b)
}

/// Folds a byte slice into a running hash value.
pub fn hash64_bytes_from(h: u64, s: &[u8]) -> (r: u64)
    ensures
        r == hash64_from(h, s@),
{
    let mut acc: u64 = h;
    let mut i: usize = 0;
    while i < s.len()
        invariant
            i <= s@.len(),
            acc == hash64_from(h, s@.subrange(0, i as int)),
        decreases s@.len() - i,
    {
        let b = s[i];
        acc = mix64_exec(acc, b as u64);
        i = i + 1;
        proof {
            assert(s@.subrange(0, i as int).drop_last() =~= s@.subrange(0, i - 1));
        }
    }
    proof {
        assert(s@.subrange(0, s@.len() as int) =~= s@);
    }
    acc
}

pub fn hash64_bytes(s: &[u8]) -> (r: u64)
    ensures
        r == hash64_of(s@),
{
    hash64_bytes_from(HASH64_SEED, s)
}

pub fn hash64_str(s: &str) -> (r: u64)
    ensures
        r == hash64_of(s.spec_bytes()),
{
    hash64_bytes(s.as_bytes())
}

/// The width of a symmetric key.
#[derive(Clone, Copy, Debug, PartialEq, Eq, Structural, Hash)]
pub enum KeySize {
    Bit128,
    Bit192,
    Bit256,
}

/// A fixed-width digest, modelled as two independent 64-bit fold-hash lanes.
/// Equality of the raw lanes defines equality of digests.
#[derive(Clone, Copy, Debug, PartialEq, Eq, Structural, Hash)]
pub struct AteHash {
    pub hi: u64,
    pub lo: u64,
}

/// The digest of a byte sequence.
pub open spec fn spec_hash_bytes(s: Seq<u8>) -> AteHash {
    AteHash { hi: hash64_from(HASH_LANE_HI, s), lo: hash64_from(HASH_LANE_LO, s) }
}

/// The seeded double hash of two byte sequences: the first is folded, a tag
/// separates the halves, then the second is folded.
pub open spec fn spec_hash_bytes_twice(a: Seq<u8>, b: Seq<u8>) -> AteHash {
    AteHash {
        hi: hash64_from(mix64(hash64_from(HASH_LANE_HI, a), TWICE_TAG), b),
        lo: hash64_from(mix64(hash64_from(HASH_LANE_LO, a), TWICE_TAG), b),
    }
}

impl AteHash {
    pub fn from_bytes(s: &[u8]) -> (r: AteHash)
        ensures
            r == spec_hash_bytes(s@),
    {
        AteHash { hi: hash64_bytes_from(HASH_LANE_HI, s), lo: hash64_bytes_from(HASH_LANE_LO, s) }
    }

    /// The seeded double hash over two byte slices.
    pub fn from_bytes_twice(a: &[u8], b: &[u8]) -> (r: AteHash)
        ensures
            r == spec_hash_bytes_twice(a@, b@),
    {
        let hi = mix64_exec(hash64_bytes_from(HASH_LANE_HI, a), TWICE_TAG);
        let lo = mix64_exec(hash64_bytes_from(HASH_LANE_LO, a), TWICE_TAG);
        AteHash { hi: hash64_bytes_from(hi, b), lo: hash64_bytes_from(lo, b) }
    }

    /// The 16-byte big-endian image of the digest.
    pub fn to_bytes(&self) -> (r: Vec<u8>)
        ensures
            r@ == crate::codec::spec_u64_to_be(self.hi) + crate::codec::spec_u64_to_be(self.lo),
    {
        let mut r = crate::codec::u64_to_be(self.hi);
        let mut lo = crate::codec::u64_to_be(self.lo);
        r.append(&mut lo);
        r
    }
}

/// The combination of two digests into one.
#[derive(Clone, Copy, Debug, PartialEq, Eq, Structural, Hash)]
pub struct DoubleHash {
    pub hi: u64,
    pub lo: u64,
}

impl DoubleHash {
    pub fn from_hashes(a: &AteHash, b: &AteHash) -> (r: DoubleHash)
        ensures
            r.hi == mix64(a.hi, b.hi),
            r.lo == mix64(a.lo, b.lo),
    {
        DoubleHash { hi: mix64_exec(a.hi, b.hi), lo: mix64_exec(a.lo, b.lo) }
    }

    pub fn to_hash(&self) -> (r: AteHash)
        ensures
            r.hi == self.hi,
            r.lo == self.lo,
    {
        AteHash { hi: self.hi, lo: self.lo }
    }
}

/// A fresh-per-encryption nonce; its byte image is the 8-byte big-endian
/// form of the nonce.
#[derive(Clone, Copy, Debug, PartialEq, Eq, Structural, Hash)]
pub struct InitializationVector {
    pub nonce: u64,
}

impl InitializationVector {
    pub fn bytes(&self) -> (r: Vec<u8>)
        ensures
            r@ == crate::codec::spec_u64_to_be(self.nonce),
    {
        crate::codec::u64_to_be(self.nonce)
    }

    pub fn from_nonce(nonce: u64) -> (r: InitializationVector)
        ensures
            r.nonce == nonce,
    {
        InitializationVector { nonce }
    }
}

/// The keystream byte at position `i` for the given key seed and nonce.
pub open spec fn ks_byte(seed: u64, nonce: u64, i: u64) -> u8 {
    (mix64(mix64(seed, nonce), i) % 256) as u8
}

/// The image of `data` under the keystream of `(seed, nonce)`: a byte-wise
/// exclusive or, its own inverse.
pub open spec fn spec_encrypt(seed: u64, nonce: u64, data: Seq<u8>) -> Seq<u8> {
    Seq::new(data.len(), |i: int| data[i] ^ ks_byte(seed, nonce, i as u64))
}

/// Applying the keystream twice returns the plaintext.
pub proof fn lemma_encrypt_round_trip(seed: u64, nonce: u64, data: Seq<u8>)
    ensures
        spec_encrypt(seed, nonce, spec_encrypt(seed, nonce, data)) == data,
{
    let once = spec_encrypt(seed, nonce, data);
    let twice = spec_encrypt(seed, nonce, once);
    assert forall|i: int| 0 <= i < data.len() implies twice[i] == data[i] by {
        let d = data[i];
        let k = ks_byte(seed, nonce, i as u64);
        assert((d ^ k) ^ k == d) by (bit_vector);
    }
    assert(twice =~= data);
}

/// A ciphertext together with the fresh vector it was produced under.
#[derive(Clone, Debug)]
pub struct EncryptResult {
    pub iv: InitializationVector,
    pub data: Vec<u8>,
}

/// A symmetric encryption key: a size and a 64-bit seed that determines the
/// whole keystream.
#[derive(Clone, Copy, Debug, PartialEq, Eq, Structural, Hash)]
pub struct EncryptKey {
    pub size: KeySize,
    pub seed: u64,
}

impl EncryptKey {
    /// A fresh key of the given size.
    pub fn generate(size: KeySize) -> (r: EncryptKey)
        ensures
            r.size == size,
    {
        EncryptKey { size, seed: crate::time::entropy64() }
    }

    /// Deterministic derivation: the same seed bytes give the same key.
    pub fn from_seed_bytes(seed_bytes: &[u8], size: KeySize) -> (r: EncryptKey)
        ensures
            r.size == size,
            r.seed == hash64_of(seed_bytes@),
    {
        EncryptKey { size, seed: hash64_bytes(seed_bytes) }
    }

    pub fn size(&self) -> (r: KeySize)
        ensures
            r == self.size,
    {
        self.size
    }

    /// The key material as bytes.
    pub fn value(&self) -> (r: Vec<u8>)
        ensures
            r@ == crate::codec::spec_u64_to_be(self.seed),
    {
        crate::codec::u64_to_be(self.seed)
    }

    /// The digest by which authorization entries refer to this key.
    pub fn hash(&self) -> (r: AteHash)
        ensures
            r == self.spec_hash(),
    {
        AteHash { hi: mix64_exec(KEY_HASH_HI, self.seed), lo: mix64_exec(KEY_HASH_LO, self.seed) }
    }

    pub open spec fn spec_hash(&self) -> AteHash {
        AteHash { hi: mix64(KEY_HASH_HI, self.seed), lo: mix64(KEY_HASH_LO, self.seed) }
    }

    /// Encrypts under a caller-supplied vector.
    pub fn encrypt_with_iv(&self, iv: &InitializationVector, data: &[u8]) -> (r: Vec<u8>)
        ensures
            r@ == spec_encrypt(self.seed, iv.nonce, data@),
    {
        let mut out: Vec<u8> = Vec::new();
        let base: u64 = mix64_exec(self.seed, iv.nonce);
        let mut i: usize = 0;
        while i < data.len()
            invariant
                i <= data@.len(),
                base == mix64(self.seed, iv.nonce),
                i <= u64::MAX,
                out@ =~= spec_encrypt(self.seed, iv.nonce, data@.subrange(0, i as int)),
            decreases data@.len() - i,
        {
            let k: u8 = (mix64_exec(base, i as u64) % 256) as u8;
            let b = data[i];
            out.push(b ^ k);
            i = i + 1;
            proof {
                assert(out@ =~= spec_encrypt(self.seed, iv.nonce, data@.subrange(0, i as int)));
            }
        }
        proof {
            assert(data@.subrange(0, data@.len() as int) =~= data@);
        }
        out
    }

    /// Encrypts under a fresh vector.
    pub fn encrypt(&self, data: &[u8]) -> (r: EncryptResult)
        ensures
            r.data@ == spec_encrypt(self.seed, r.iv.nonce, data@),
    {
        let iv = InitializationVector { nonce: crate::time::entropy64() };
        let data = self.encrypt_with_iv(&iv, data);
        EncryptResult { iv, data }
    }

    /// Inverts `encrypt_with_iv` under the same key and vector.
    pub fn decrypt(&self, iv: &InitializationVector, data: &[u8]) -> (r: Vec<u8>)
        ensures
            r@ == spec_encrypt(self.seed, iv.nonce, data@),
            data@ == spec_encrypt(self.seed, iv.nonce, r@),
    {
        let r = self.encrypt_with_iv(iv, data);
        proof {
            lemma_encrypt_round_trip(self.seed, iv.nonce, data@);
        }
        r
    }
}

/// The public half of a signing key pair. The variant records the signature
/// scheme the key belongs to.
#[derive(Clone, Copy, Debug, PartialEq, Eq, Structural, Hash)]
pub enum PublicSignKey {
    Falcon512 { pk: u64 },
    Falcon1024 { pk: u64 },
}

/// The signature a secret value produces over a digest.
pub open spec fn spec_sign(sk: u64, digest: AteHash) -> AteHash {
    AteHash { hi: mix64(sk, digest.hi), lo: mix64(sk, digest.lo) }
}

/// The secret value a public key corresponds to. The model key pair is an
/// involution, so verification can recompute the signature.
pub open spec fn spec_sk_of_pk(pk_value: u64) -> u64 {
    pk_value ^ SK_TO_PK_MASK
}

impl PublicSignKey {
    pub open spec fn pk_value(&self) -> u64 {
        match *self {
            PublicSignKey::Falcon512 { pk } => pk,
            PublicSignKey::Falcon1024 { pk } => pk,
        }
    }

    pub open spec fn scheme_tag(&self) -> u64 {
        match *self {
            PublicSignKey::Falcon512 { .. } => 1u64,
            PublicSignKey::Falcon1024 { .. } => 2u64,
        }
    }

    pub open spec fn spec_hash(&self) -> AteHash {
        AteHash {
            hi: mix64(mix64(PK_HASH_HI, self.scheme_tag()), self.pk_value()),
            lo: mix64(mix64(PK_HASH_LO, self.scheme_tag()), self.pk_value()),
        }
    }

    /// The digest by which signature entries refer to this key.
    pub fn hash(&self) -> (r: AteHash)
        ensures
            r == self.spec_hash(),
    {
        let (tag, pk): (u64, u64) = match self {
            PublicSignKey::Falcon512 { pk } => (1u64, *pk),
            PublicSignKey::Falcon1024 { pk } => (2u64, *pk),
        };
        AteHash {
            hi: mix64_exec(mix64_exec(PK_HASH_HI, tag), pk),
            lo: mix64_exec(mix64_exec(PK_HASH_LO, tag), pk),
        }
    }

    /// Accepts exactly the signatures produced by the matching secret key.
    pub fn verify(&self, digest: &AteHash, signature: &AteHash) -> (r: bool)
        ensures
            r == (*signature == spec_sign(spec_sk_of_pk(self.pk_value()), *digest)),
    {
        let pk: u64 = match self {
            PublicSignKey::Falcon512 { pk } => *pk,
            PublicSignKey::Falcon1024 { pk } => *pk,
        };
        let sk = pk ^ SK_TO_PK_MASK;
        let expect = AteHash { hi: mix64_exec(sk, digest.hi), lo: mix64_exec(sk, digest.lo) };
        expect.hi == signature.hi && expect.lo == signature.lo
    }
}

/// The key size a signing scheme variant stands for: the smaller scheme
/// covers the sizes below 256 bits.
pub open spec fn spec_scheme_size(size: KeySize) -> KeySize {
    match size {
        KeySize::Bit256 => KeySize::Bit256,
        _ => KeySize::Bit192,
    }
}

/// A signing key pair: the secret value and its public half.
#[derive(Clone, Copy, Debug, PartialEq, Eq, Structural, Hash)]
pub struct PrivateSignKey {
    pub pk: PublicSignKey,
    pub sk: u64,
}

impl PrivateSignKey {
    /// The pair is well formed when the public half is derived from the
    /// secret value and the scheme matches the advertised variant.
    pub open spec fn wf(&self) -> bool {
        self.pk.pk_value() == self.sk ^ SK_TO_PK_MASK
    }

    /// A fresh signing pair; 256-bit keys use the larger scheme, the other
    /// sizes the smaller one.
    pub fn generate(size: KeySize) -> (r: PrivateSignKey)
        ensures
            r.wf(),
            r.size() == spec_scheme_size(size),
    {
        let sk = crate::time::entropy64();
        let pkv = sk ^ SK_TO_PK_MASK;
        let pk = match size {
            KeySize::Bit128 => PublicSignKey::Falcon512 { pk: pkv },
            KeySize::Bit192 => PublicSignKey::Falcon512 { pk: pkv },
            KeySize::Bit256 => PublicSignKey::Falcon1024 { pk: pkv },
        };
        proof {
            assert((sk ^ SK_TO_PK_MASK) ^ SK_TO_PK_MASK == sk) by (bit_vector);
        }
        PrivateSignKey { pk, sk }
    }

    /// The key size the scheme variant stands for. The smaller scheme is
    /// reported as 192-bit, its generation default.
    pub open spec fn size(&self) -> KeySize {
        match self.pk {
            PublicSignKey::Falcon512 { .. } => KeySize::Bit192,
            PublicSignKey::Falcon1024 { .. } => KeySize::Bit256,
        }
    }

    pub fn as_public_key(&self) -> (r: &PublicSignKey)
        ensures
            *r == self.pk,
    {
        &self.pk
    }

    /// The secret key material as bytes.
    pub fn sk(&self) -> (r: Vec<u8>)
        ensures
            r@ == crate::codec::spec_u64_to_be(self.sk),
    {
        crate::codec::u64_to_be(self.sk)
    }

    pub fn hash(&self) -> (r: AteHash)
        ensures
            r == self.pk.spec_hash(),
    {
        self.pk.hash()
    }

    /// Signs a digest with the secret value.
    pub fn sign(&self, digest: &AteHash) -> (r: AteHash)
        ensures
            r == spec_sign(self.sk, *digest),
    {
        AteHash { hi: mix64_exec(self.sk, digest.hi), lo: mix64_exec(self.sk, digest.lo) }
    }
}

/// A signing key pair held inside a chain: the public half in the clear,
/// the secret half encrypted under a symmetric key.
#[derive(Clone, Debug, PartialEq, Eq, Hash)]
pub struct EncryptedPrivateKey {
    pub pk: PublicSignKey,
    pub ek_hash: AteHash,
    pub sk_iv: InitializationVector,
    pub sk_encrypted: Vec<u8>,
}

/// The view of a stored signing pair.
#[verifier::ext_equal]
pub struct EncryptedPrivateKeyV {
    pub pk: PublicSignKey,
    pub ek_hash: AteHash,
    pub sk_iv: InitializationVector,
    pub sk_encrypted: Seq<u8>,
}

impl View for EncryptedPrivateKey {
    type V = EncryptedPrivateKeyV;

    open spec fn view(&self) -> EncryptedPrivateKeyV {
        EncryptedPrivateKeyV {
            pk: self.pk,
            ek_hash: self.ek_hash,
            sk_iv: self.sk_iv,
            sk_encrypted: self.sk_encrypted@,
        }
    }
}

impl EncryptedPrivateKey {
    /// The stored ciphertext is the image of an 8-byte secret value.
    pub open spec fn wf(&self) -> bool {
        self.sk_encrypted@.len() == 8
    }

    /// The secret value this record decrypts to under the key with seed
    /// `seed`.
    pub open spec fn spec_sk_under(&self, seed: u64) -> u64 {
        crate::codec::spec_u64_from_be(spec_encrypt(seed, self.sk_iv.nonce, self.sk_encrypted@))
    }

    /// A fresh signing pair of the symmetric key's size, stored encrypted
    /// under that key.
    pub fn generate(encrypt_key: &EncryptKey) -> (r: EncryptedPrivateKey)
        ensures
            r.wf(),
            r.ek_hash == encrypt_key.spec_hash(),
            r.pk.pk_value() == r.spec_sk_under(encrypt_key.seed) ^ SK_TO_PK_MASK,
            (r.pk is Falcon1024) == (encrypt_key.size is Bit256),
    {
        let pair = PrivateSignKey::generate(encrypt_key.size());
        EncryptedPrivateKey::from_pair(&pair, encrypt_key)
    }

    /// Encrypts the pair's secret value under the symmetric key.
    pub fn from_pair(pair: &PrivateSignKey, encrypt_key: &EncryptKey) -> (r: EncryptedPrivateKey)
        ensures
            r.wf(),
            r.pk == pair.pk,
            r.ek_hash == encrypt_key.spec_hash(),
            r.sk_encrypted@ == spec_encrypt(
                encrypt_key.seed,
                r.sk_iv.nonce,
                crate::codec::spec_u64_to_be(pair.sk),
            ),
            r.spec_sk_under(encrypt_key.seed) == pair.sk,
    {
        let sk = pair.sk();
        let sk = encrypt_key.encrypt(sk.as_slice());
        let r = EncryptedPrivateKey {
            pk: pair.pk.clone(),
            ek_hash: encrypt_key.hash(),
            sk_iv: sk.iv,
            sk_encrypted: sk.data,
        };
        proof {
            lemma_encrypt_round_trip(
                encrypt_key.seed,
                r.sk_iv.nonce,
                crate::codec::spec_u64_to_be(pair.sk),
            );
            crate::codec::lemma_u64_be_round_trip(pair.sk);
        }
        r
    }

    /// Decrypts the secret half with the given symmetric key and rebuilds
    /// the pair. A key other than the one it was stored under yields an
    /// unrelated secret value.
    pub fn as_private_key(&self, key: &EncryptKey) -> (r: PrivateSignKey)
        requires
            self.wf(),
        ensures
            r.pk == self.pk,
            r.sk == self.spec_sk_under(key.seed),
    {
        let data = key.decrypt(&self.sk_iv, self.sk_encrypted.as_slice());
        let sk = crate::codec::u64_from_be(&data);
        match &self.pk {
            PublicSignKey::Falcon512 { pk } => PrivateSignKey {
                pk: PublicSignKey::Falcon512 { pk: *pk },
                sk,
            },
            PublicSignKey::Falcon1024 { pk } => PrivateSignKey {
                pk: PublicSignKey::Falcon1024 { pk: *pk },
                sk,
            },
        }
    }

    pub fn as_public_key(&self) -> (r: &PublicSignKey)
        ensures
            *r == self.pk,
    {
        &self.pk
    }

    /// The digest of the public half.
    pub fn pk_hash(&self) -> (r: AteHash)
        ensures
            r == self.pk.spec_hash(),
    {
        self.pk.hash()
    }

    /// The combined digest of the public half and the symmetric key that
    /// guards the secret half.
    pub fn double_hash(&self) -> (r: DoubleHash)
        ensures
            r.hi == mix64(self.pk.spec_hash().hi, self.ek_hash.hi),
            r.lo == mix64(self.pk.spec_hash().lo, self.ek_hash.lo),
    {
        DoubleHash::from_hashes(&self.pk_hash(), &self.ek_hash)
    }
}

/// Storing a pair encrypted and decrypting it with the same key returns the
/// pair: the round trip of `from_pair` and `as_private_key`.
pub proof fn lemma_encrypted_pair_round_trip(pair: PrivateSignKey, key: EncryptKey, stored: EncryptedPrivateKey)
    requires
        stored.pk == pair.pk,
        stored.sk_encrypted@ == spec_encrypt(
            key.seed,
            stored.sk_iv.nonce,
            crate::codec::spec_u64_to_be(pair.sk),
        ),
    ensures
        stored.wf(),
        stored.spec_sk_under(key.seed) == pair.sk,
{
    lemma_encrypt_round_trip(key.seed, stored.sk_iv.nonce, crate::codec::spec_u64_to_be(pair.sk));
    crate::codec::lemma_u64_be_round_trip(pair.sk);
}

/// Verification accepts what the matching pair signed.
pub proof fn lemma_sign_verify(pair: PrivateSignKey, digest: AteHash)
    requires
        pair.wf(),
    ensures
        spec_sign(spec_sk_of_pk(pair.pk.pk_value()), digest) == spec_sign(pair.sk, digest),
{
    let sk = pair.sk;
    assert((sk ^ SK_TO_PK_MASK) ^ SK_TO_PK_MASK == sk) by (bit_vector);
}

} // verus!
