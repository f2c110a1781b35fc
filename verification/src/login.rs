//! The authentication service's core: deriving the super key from
//! credentials, deciding a login attempt against the stored user row, and
//! removing a group with its advert.
use vstd::prelude::*;
use crate::chain::Chain;
use crate::crypto::spec_hash_bytes_twice;
use crate::crypto::AteHash;
use crate::crypto::EncryptKey;
use crate::crypto::KeySize;
use crate::crypto::PrivateSignKey;
use crate::crypto::PublicSignKey;
use crate::dio::Dao;
use crate::dio::Dio;
use crate::dio::RowCodec;
use crate::errors::CommitError;
use crate::errors::LoadError;
use crate::errors::LoginFailed;
use crate::header::PrimaryKey;
use crate::session::Session;

verus! {

/// The lifecycle state of a user account.
#[derive(Clone, Copy, Debug, PartialEq, Eq, Structural, Hash)]
pub enum UserStatus {
    Nominal,
    /// Locked until the carried moment, in milliseconds since the epoch.
    Locked { until_ms: u64 },
    Unverified,
}

/// A stored user row: the account state, the keys granted on a nominal
/// login, the keys granted on an elevated login, and the shared secret the
/// second factor is checked against.
#[derive(Debug)]
pub struct User {
    pub status: UserStatus,
    pub nominal_read: EncryptKey,
    pub nominal_write: PrivateSignKey,
    pub sudo_read: EncryptKey,
    pub sudo_write: PrivateSignKey,
    pub sudo_secret: Vec<u8>,
}

/// The view of a user row.
#[verifier::ext_equal]
pub struct UserV {
    pub status: UserStatus,
    pub nominal_read: EncryptKey,
    pub nominal_write: PrivateSignKey,
    pub sudo_read: EncryptKey,
    pub sudo_write: PrivateSignKey,
    pub sudo_secret: Seq<u8>,
}

impl View for User {
    type V = UserV;

    open spec fn view(&self) -> UserV {
        UserV {
            status: self.status,
            nominal_read: self.nominal_read,
            nominal_write: self.nominal_write,
            sudo_read: self.sudo_read,
            sudo_write: self.sudo_write,
            sudo_secret: self.sudo_secret@,
        }
    }
}

/// The elevated-rights row beside a user: the second-factor material and
/// bookkeeping, as the service stores it.
#[derive(Clone, Debug)]
pub struct Sudo {
    pub email: Vec<u8>,
    pub uid: u32,
    pub google_auth: Vec<u8>,
    pub secret: Vec<u8>,
    pub qr_code: Vec<u8>,
    pub failed_attempts: u32,
    pub groups: Vec<Vec<u8>>,
}

pub open spec fn spec_size_tag(s: KeySize) -> u8 {
    match s {
        KeySize::Bit128 => 0u8,
        KeySize::Bit192 => 1u8,
        KeySize::Bit256 => 2u8,
    }
}

pub open spec fn spec_tag_size(t: u8) -> Option<KeySize> {
    if t == 0u8 {
        Some(KeySize::Bit128)
    } else if t == 1u8 {
        Some(KeySize::Bit192)
    } else if t == 2u8 {
        Some(KeySize::Bit256)
    } else {
        None
    }
}

fn size_tag(s: KeySize) -> (r: u8)
    ensures
        r == spec_size_tag(s),
{
    match s {
        KeySize::Bit128 => 0u8,
        KeySize::Bit192 => 1u8,
        KeySize::Bit256 => 2u8,
    }
}

pub open spec fn spec_status_bytes(s: UserStatus) -> Seq<u8> {
    match s {
        UserStatus::Nominal => seq![0u8] + crate::codec::spec_u64_to_be(0),
        UserStatus::Locked { until_ms } => seq![1u8] + crate::codec::spec_u64_to_be(until_ms),
        UserStatus::Unverified => seq![2u8] + crate::codec::spec_u64_to_be(0),
    }
}

pub open spec fn spec_enc_key_bytes(k: EncryptKey) -> Seq<u8> {
    seq![spec_size_tag(k.size)] + crate::codec::spec_u64_to_be(k.seed)
}

pub open spec fn spec_sign_key_bytes(k: PrivateSignKey) -> Seq<u8> {
    seq![k.pk.scheme_tag() as u8] + crate::codec::spec_u64_to_be(k.pk.pk_value())
        + crate::codec::spec_u64_to_be(k.sk)
}

fn enc_key_bytes(k: &EncryptKey) -> (r: Vec<u8>)
    ensures
        r@ == spec_enc_key_bytes(*k),
{
    let mut out: Vec<u8> = Vec::new();
    out.push(size_tag(k.size));
    let mut seed = crate::codec::u64_to_be(k.seed);
    out.append(&mut seed);
    proof {
        assert(out@ =~= spec_enc_key_bytes(*k));
    }
    out
}

fn sign_key_bytes(k: &PrivateSignKey) -> (r: Vec<u8>)
    ensures
        r@ == spec_sign_key_bytes(*k),
{
    let mut out: Vec<u8> = Vec::new();
    let (tag, pkv): (u8, u64) = match &k.pk {
        PublicSignKey::Falcon512 { pk } => (1u8, *pk),
        PublicSignKey::Falcon1024 { pk } => (2u8, *pk),
    };
    out.push(tag);
    let mut pkb = crate::codec::u64_to_be(pkv);
    out.append(&mut pkb);
    let mut skb = crate::codec::u64_to_be(k.sk);
    out.append(&mut skb);
    proof {
        assert(out@ =~= spec_sign_key_bytes(*k));
    }
    out
}

pub open spec fn spec_decode_enc_key(b: Seq<u8>) -> Option<EncryptKey>
    recommends
        b.len() == 9,
{
    match spec_tag_size(b[0]) {
        Some(size) => Some(
            EncryptKey { size, seed: crate::codec::spec_u64_from_be(b.subrange(1, 9)) },
        ),
        None => None,
    }
}

pub open spec fn spec_decode_sign_key(b: Seq<u8>) -> Option<PrivateSignKey>
    recommends
        b.len() == 17,
{
    let pkv = crate::codec::spec_u64_from_be(b.subrange(1, 9));
    let sk = crate::codec::spec_u64_from_be(b.subrange(9, 17));
    if b[0] == 1u8 {
        Some(PrivateSignKey { pk: PublicSignKey::Falcon512 { pk: pkv }, sk })
    } else if b[0] == 2u8 {
        Some(PrivateSignKey { pk: PublicSignKey::Falcon1024 { pk: pkv }, sk })
    } else {
        None
    }
}

fn read_sub(b: &Vec<u8>, from: usize, to: usize) -> (r: Vec<u8>)
    requires
        from <= to <= b@.len(),
    ensures
        r@ == b@.subrange(from as int, to as int),
{
    let mut out: Vec<u8> = Vec::new();
    let mut i: usize = from;
    while i < to
        invariant
            from <= i <= to <= b@.len(),
            out@ == b@.subrange(from as int, i as int),
        decreases to - i,
    {
        out.push(b[i]);
        i = i + 1;
        proof {
            assert(b@.subrange(from as int, i as int) =~= b@.subrange(from as int, i - 1) + seq![
                b@[i - 1],
            ]);
            assert(out@ =~= b@.subrange(from as int, i as int));
        }
    }
    out
}

fn decode_enc_key(b: &Vec<u8>) -> (r: Option<EncryptKey>)
    requires
        b@.len() == 9,
    ensures
        r == spec_decode_enc_key(b@),
{
    let tag = b[0];
    let size = if tag == 0u8 {
        KeySize::Bit128
    } else if tag == 1u8 {
        KeySize::Bit192
    } else if tag == 2u8 {
        KeySize::Bit256
    } else {
        return None;
    };
    let seedb = read_sub(b, 1, 9);
    let seed = crate::codec::u64_from_be(&seedb);
    Some(EncryptKey { size, seed })
}

fn decode_sign_key(b: &Vec<u8>) -> (r: Option<PrivateSignKey>)
    requires
        b@.len() == 17,
    ensures
        r == spec_decode_sign_key(b@),
{
    let tag = b[0];
    let pkb = read_sub(b, 1, 9);
    let pkv = crate::codec::u64_from_be(&pkb);
    let skb = read_sub(b, 9, 17);
    let sk = crate::codec::u64_from_be(&skb);
    if tag == 1u8 {
        Some(PrivateSignKey { pk: PublicSignKey::Falcon512 { pk: pkv }, sk })
    } else if tag == 2u8 {
        Some(PrivateSignKey { pk: PublicSignKey::Falcon1024 { pk: pkv }, sk })
    } else {
        None
    }
}

impl RowCodec for User {
    open spec fn spec_encode(v: UserV) -> Seq<u8> {
        spec_status_bytes(v.status) + spec_enc_key_bytes(v.nominal_read) + spec_sign_key_bytes(
            v.nominal_write,
        ) + spec_enc_key_bytes(v.sudo_read) + spec_sign_key_bytes(v.sudo_write)
            + crate::codec::spec_u64_to_be(v.sudo_secret.len() as u64) + v.sudo_secret
    }

    open spec fn spec_valid(v: UserV) -> bool {
        v.sudo_secret.len() <= u64::MAX
    }

    open spec fn spec_decode(b: Seq<u8>) -> Option<UserV> {
        if b.len() < 69 {
            None
        } else {
            let slen = crate::codec::spec_u64_from_be(b.subrange(61, 69));
            if b.len() != 69 + slen {
                None
            } else {
                let status = if b[0] == 0u8 {
                    Some(UserStatus::Nominal)
                } else if b[0] == 1u8 {
                    Some(
                        UserStatus::Locked {
                            until_ms: crate::codec::spec_u64_from_be(b.subrange(1, 9)),
                        },
                    )
                } else if b[0] == 2u8 {
                    Some(UserStatus::Unverified)
                } else {
                    None
                };
                match (
                    status,
                    spec_decode_enc_key(b.subrange(9, 18)),
                    spec_decode_sign_key(b.subrange(18, 35)),
                    spec_decode_enc_key(b.subrange(35, 44)),
                    spec_decode_sign_key(b.subrange(44, 61)),
                ) {
                    (Some(st), Some(nr), Some(nw), Some(sr), Some(sw)) => Some(
                        UserV {
                            status: st,
                            nominal_read: nr,
                            nominal_write: nw,
                            sudo_read: sr,
                            sudo_write: sw,
                            sudo_secret: b.subrange(69, b.len() as int),
                        },
                    ),
                    _ => None,
                }
            }
        }
    }

    fn encode(&self) -> (r: Vec<u8>)
        ensures
            r@ == Self::spec_encode(self@),
            Self::spec_valid(self@),
    {
        let mut out: Vec<u8> = Vec::new();
        match self.status {
            UserStatus::Nominal => {
                out.push(0u8);
                let mut z = crate::codec::u64_to_be(0);
                out.append(&mut z);
            },
            UserStatus::Locked { until_ms } => {
                out.push(1u8);
                let mut u = crate::codec::u64_to_be(until_ms);
                out.append(&mut u);
            },
            UserStatus::Unverified => {
                out.push(2u8);
                let mut z = crate::codec::u64_to_be(0);
                out.append(&mut z);
            },
        }
        let mut nr = enc_key_bytes(&self.nominal_read);
        out.append(&mut nr);
        let mut nw = sign_key_bytes(&self.nominal_write);
        out.append(&mut nw);
        let mut sr = enc_key_bytes(&self.sudo_read);
        out.append(&mut sr);
        let mut sw = sign_key_bytes(&self.sudo_write);
        out.append(&mut sw);
        let mut sl = crate::codec::u64_to_be(self.sudo_secret.len() as u64);
        out.append(&mut sl);
        let mut sec = self.sudo_secret.clone();
        proof {
            assert(sec@ =~= self.sudo_secret@);
        }
        out.append(&mut sec);
        proof {
            assert(out@ =~= Self::spec_encode(self@));
        }
        out
    }

    fn decode(b: &Vec<u8>) -> (r: Option<User>)
        ensures
            match r {
                Some(d) => Self::spec_decode(b@) == Some(d@),
                None => Self::spec_decode(b@) is None,
            },
    {
        if b.len() < 69 {
            return None;
        }
        let slenb = read_sub(b, 61, 69);
        let slen = crate::codec::u64_from_be(&slenb);
        if slen != (b.len() - 69) as u64 {
            return None;
        }
        let stag = b[0];
        let untilb = read_sub(b, 1, 9);
        let until = crate::codec::u64_from_be(&untilb);
        let status = if stag == 0u8 {
            UserStatus::Nominal
        } else if stag == 1u8 {
            UserStatus::Locked { until_ms: until }
        } else if stag == 2u8 {
            UserStatus::Unverified
        } else {
            return None;
        };
        let nrb = read_sub(b, 9, 18);
        let nr = match decode_enc_key(&nrb) {
            Some(k) => k,
            None => {
                return None;
            },
        };
        let nwb = read_sub(b, 18, 35);
        let nw = match decode_sign_key(&nwb) {
            Some(k) => k,
            None => {
                return None;
            },
        };
        let srb = read_sub(b, 35, 44);
        let sr = match decode_enc_key(&srb) {
            Some(k) => k,
            None => {
                return None;
            },
        };
        let swb = read_sub(b, 44, 61);
        let sw = match decode_sign_key(&swb) {
            Some(k) => k,
            None => {
                return None;
            },
        };
        let sec = read_sub(b, 69, b.len());
        let u = User {
            status,
            nominal_read: nr,
            nominal_write: nw,
            sudo_read: sr,
            sudo_write: sw,
            sudo_secret: sec,
        };
        proof {
            assert(Self::spec_decode(b@) == Some(u@));
        }
        Some(u)
    }

    proof fn lemma_round_trip(v: UserV) {
        let e = Self::spec_encode(v);
        crate::codec::lemma_u64_be_round_trip(v.sudo_secret.len() as u64);
        crate::codec::lemma_u64_be_round_trip(v.nominal_read.seed);
        crate::codec::lemma_u64_be_round_trip(v.nominal_write.pk.pk_value());
        crate::codec::lemma_u64_be_round_trip(v.nominal_write.sk);
        crate::codec::lemma_u64_be_round_trip(v.sudo_read.seed);
        crate::codec::lemma_u64_be_round_trip(v.sudo_write.pk.pk_value());
        crate::codec::lemma_u64_be_round_trip(v.sudo_write.sk);
        crate::codec::lemma_u64_be_round_trip(0);
        match v.status {
            UserStatus::Locked { until_ms } => {
                crate::codec::lemma_u64_be_round_trip(until_ms);
            },
            _ => {},
        }
        assert(e.subrange(1, 9) =~= spec_status_bytes(v.status).subrange(1, 9));
        assert(e.subrange(9, 18) =~= spec_enc_key_bytes(v.nominal_read));
        assert(e.subrange(18, 35) =~= spec_sign_key_bytes(v.nominal_write));
        assert(e.subrange(35, 44) =~= spec_enc_key_bytes(v.sudo_read));
        assert(e.subrange(44, 61) =~= spec_sign_key_bytes(v.sudo_write));
        assert(e.subrange(61, 69) =~= crate::codec::spec_u64_to_be(v.sudo_secret.len() as u64));
        assert(e.subrange(69, e.len() as int) =~= v.sudo_secret);
        assert(spec_enc_key_bytes(v.nominal_read).subrange(1, 9) =~= crate::codec::spec_u64_to_be(
            v.nominal_read.seed,
        ));
        assert(spec_sign_key_bytes(v.nominal_write).subrange(1, 9) =~= crate::codec::spec_u64_to_be(
            v.nominal_write.pk.pk_value(),
        ));
        assert(spec_sign_key_bytes(v.nominal_write).subrange(9, 17) =~= crate::codec::spec_u64_to_be(
            v.nominal_write.sk,
        ));
        assert(spec_enc_key_bytes(v.sudo_read).subrange(1, 9) =~= crate::codec::spec_u64_to_be(
            v.sudo_read.seed,
        ));
        assert(spec_sign_key_bytes(v.sudo_write).subrange(1, 9) =~= crate::codec::spec_u64_to_be(
            v.sudo_write.pk.pk_value(),
        ));
        assert(spec_sign_key_bytes(v.sudo_write).subrange(9, 17) =~= crate::codec::spec_u64_to_be(
            v.sudo_write.sk,
        ));
        let d = Self::spec_decode(e);
        match v.nominal_write.pk {
            PublicSignKey::Falcon512 { .. } => {},
            PublicSignKey::Falcon1024 { .. } => {},
        }
        assert(d == Some(v)) by {
            assert(d matches Some(dv) && dv =~= v);
        }
    }
}

/// A login request: the address of the account, the key derived from the
/// password, and the second-factor code when one is given.
#[derive(Clone, Debug)]
pub struct LoginRequest {
    pub email: Vec<u8>,
    pub secret: EncryptKey,
    pub code: Option<Vec<u8>>,
}

/// A granted login: the user's row key, the granted key digests, and the
/// session that can read the user's rows.
#[derive(Debug)]
pub struct LoginResponse {
    pub user_key: PrimaryKey,
    pub nominal_read: AteHash,
    pub nominal_write: AteHash,
    pub sudo_read: AteHash,
    pub sudo_write: AteHash,
    pub authority: Session,
}

/// The key a super key is derived to: the double hash of the master key's
/// material and the request secret's material, used as a 256-bit seed.
pub open spec fn spec_super_key(master: EncryptKey, secret: EncryptKey) -> EncryptKey {
    let h = spec_hash_bytes_twice(
        crate::codec::spec_u64_to_be(master.seed),
        crate::codec::spec_u64_to_be(secret.seed),
    );
    EncryptKey {
        size: KeySize::Bit256,
        seed: crate::crypto::hash64_of(
            crate::codec::spec_u64_to_be(h.hi) + crate::codec::spec_u64_to_be(h.lo),
        ),
    }
}

/// What a granted login carries for the decoded user row: the row's key,
/// the four key digests, and an authority session holding the nominal keys,
/// the identity, and on an elevated login the sudo keys as well.
pub open spec fn spec_login_grant(
    uv: UserV,
    email: Seq<u8>,
    kv: u64,
    elevated: bool,
    r: Result<LoginResponse, LoginFailed>,
) -> bool {
    match r {
        Ok(resp) => {
            let base = seq![
                crate::session::SessionPropertyV::ReadKey(uv.nominal_read),
                crate::session::SessionPropertyV::WriteKey(uv.nominal_write),
                crate::session::SessionPropertyV::Identity(email),
            ];
            &&& resp.user_key == PrimaryKey { value: kv }
            &&& resp.nominal_read == uv.nominal_read.spec_hash()
            &&& resp.nominal_write == uv.nominal_write.pk.spec_hash()
            &&& resp.sudo_read == uv.sudo_read.spec_hash()
            &&& resp.sudo_write == uv.sudo_write.pk.spec_hash()
            &&& resp.authority@ == (if elevated {
                base + seq![
                    crate::session::SessionPropertyV::ReadKey(uv.sudo_read),
                    crate::session::SessionPropertyV::WriteKey(uv.sudo_write),
                ]
            } else {
                base
            })
        },
        Err(_) => false,
    }
}

/// The second-factor leg of a login: without a code the nominal grant is
/// owed; with one, the grant is elevated exactly when the code satisfies
/// the row's shared secret for the current time slice.
pub open spec fn spec_login_code(
    uv: UserV,
    email: Seq<u8>,
    code: Option<Vec<u8>>,
    now_ms: u64,
    kv: u64,
    r: Result<LoginResponse, LoginFailed>,
) -> bool {
    match code {
        None => spec_login_grant(uv, email, kv, false, r),
        Some(c) => if totp_accepts(uv.sudo_secret, c@, 3, now_ms / 30000) {
            spec_login_grant(uv, email, kv, true, r)
        } else {
            r == Err::<LoginResponse, LoginFailed>(LoginFailed::WrongPasswordOrCode)
        },
    }
}

/// The decision owed once the user row decodes: a still-locked account and
/// an unverified one are refused with their state; otherwise the
/// second-factor leg decides.
pub open spec fn spec_login_decision(
    uv: UserV,
    email: Seq<u8>,
    code: Option<Vec<u8>>,
    now_ms: u64,
    kv: u64,
    r: Result<LoginResponse, LoginFailed>,
) -> bool {
    match uv.status {
        UserStatus::Locked { until_ms } => if until_ms > now_ms {
            r == Err::<LoginResponse, LoginFailed>(LoginFailed::AccountLocked { until_ms })
        } else {
            spec_login_code(uv, email, code, now_ms, kv, r)
        },
        UserStatus::Unverified => r matches Err(LoginFailed::Unverified(em)) && em@ == email,
        UserStatus::Nominal => spec_login_code(uv, email, code, now_ms, kv, r),
    }
}

/// The authentication service: it holds the master session whose first
/// read key guards every user row.
pub struct AuthService {
    pub master_session: Session,
}

impl AuthService {
    /// The master key: the first read key of the master session.
    pub fn master_key(&self) -> (r: Option<EncryptKey>)
        ensures
            r == crate::session::first_read_key_from(self.master_session@, 0),
    {
        match self.master_session.first_read_key() {
            Some(k) => Some(*k),
            None => None,
        }
    }

    /// Derives the super key that guards a user's row: a deterministic
    /// double hash of the master key and the caller's secret.
    pub fn compute_super_key(&self, secret: EncryptKey) -> (r: Option<EncryptKey>)
        ensures
            r == (match crate::session::first_read_key_from(self.master_session@, 0) {
                Some(m) => Some(spec_super_key(m, secret)),
                None => None::<EncryptKey>,
            }),
    {
        let master = match self.master_session.first_read_key() {
            Some(k) => *k,
            None => {
                return None;
            },
        };
        let mk = master.value();
        let sk = secret.value();
        let h = AteHash::from_bytes_twice(mk.as_slice(), sk.as_slice());
        let hb = h.to_bytes();
        let k = EncryptKey::from_seed_bytes(hb.as_slice(), KeySize::Bit256);
        proof {
            assert(k == spec_super_key(master, secret));
        }
        Some(k)
    }

    /// Decides a login attempt against the chain that stores the user's
    /// row. The super key derived from the request's secret must decrypt
    /// the row: a wrong password surfaces as a missing read key and is
    /// reported as a wrong password, never distinguishing which. A locked
    /// or unverified account is refused with its state. With a code given,
    /// the second factor is checked against the row's shared secret.
    /// Loads the user row guarded by the super key, mapping each load
    /// refusal to the login failure it stands for.
    #[verifier::rlimit(100)]
    #[verifier::spinoff_prover]
    fn fetch_user(chain: &Chain, super_key: EncryptKey, email: &Vec<u8>) -> (r: Result<
        Dao<User>,
        LoginFailed,
    >)
        requires
            chain.wf(),
        ensures
            ({
                let sess = seq![crate::session::SessionPropertyV::ReadKey(super_key)];
                let kv = crate::crypto::hash64_of(email@);
                if !crate::chain::primary_of(chain.log@).dom().contains(kv) {
                    r matches Err(LoginFailed::UserNotFound(em)) && em@ == email@
                } else {
                    let leaf = crate::chain::primary_of(chain.log@)[kv];
                    let ev = chain.log@[leaf.offset_in_log as int];
                    match ev.data_bytes {
                        None => r == Err::<Dao<User>, LoginFailed>(LoginFailed::InternalError),
                        Some(cipher) => match crate::pipeline::spec_overlay(
                            crate::dio::effective_auth(ev.meta),
                            crate::pipeline::first_iv_from(ev.meta, 0),
                            cipher,
                            sess,
                        ) {
                            None => r == Err::<Dao<User>, LoginFailed>(
                                LoginFailed::WrongPasswordOrCode,
                            ),
                            Some(plain) => match User::spec_decode(plain) {
                                None => r == Err::<Dao<User>, LoginFailed>(
                                    LoginFailed::InternalError,
                                ),
                                Some(uv) => r matches Ok(dao) && dao.row.data@ == uv
                                    && dao.row.key == PrimaryKey { value: kv },
                            },
                        },
                    }
                }
            }),
    {
        let mut super_session = Session::default();
        super_session.add_read_key(&super_key);
        proof {
            assert(super_session@ =~= seq![
                crate::session::SessionPropertyV::ReadKey(super_key),
            ]);
        }
        let user_key = PrimaryKey::new(crate::crypto::hash64_bytes(email.as_slice()));
        let mut dio = chain.dio(&super_session);
        match dio.load::<User>(chain, &user_key) {
            Ok(u) => Ok(u),
            Err(LoadError::NotFound(_)) => {
                let em = email.clone();
                proof {
                    assert(em@ =~= email@);
                }
                Err(LoginFailed::UserNotFound(em))
            },
            Err(LoadError::MissingReadKey) => Err(LoginFailed::WrongPasswordOrCode),
            Err(_) => Err(LoginFailed::InternalError),
        }
    }

    #[verifier::rlimit(100)]
    #[verifier::spinoff_prover]
    pub fn process_login(&self, chain: &Chain, request: LoginRequest, now_ms: u64) -> (r: Result<
        LoginResponse,
        LoginFailed,
    >)
        requires
            chain.wf(),
            now_ms >= 120000,
        ensures
            r matches Ok(resp) ==> resp.user_key.value == crate::crypto::hash64_of(
                request.email@,
            ),
            ({
                let mk = crate::session::first_read_key_from(self.master_session@, 0);
                match mk {
                    None => r == Err::<LoginResponse, LoginFailed>(LoginFailed::NoMasterKey),
                    Some(m) => {
                        let sk = spec_super_key(m, request.secret);
                        let sess = seq![crate::session::SessionPropertyV::ReadKey(sk)];
                        let kv = crate::crypto::hash64_of(request.email@);
                        if !crate::chain::primary_of(chain.log@).dom().contains(kv) {
                            r matches Err(LoginFailed::UserNotFound(em)) && em@ == request.email@
                        } else {
                            let leaf = crate::chain::primary_of(chain.log@)[kv];
                            let ev = chain.log@[leaf.offset_in_log as int];
                            match ev.data_bytes {
                                None => r == Err::<LoginResponse, LoginFailed>(
                                    LoginFailed::InternalError,
                                ),
                                Some(cipher) => match crate::pipeline::spec_overlay(
                                    crate::dio::effective_auth(ev.meta),
                                    crate::pipeline::first_iv_from(ev.meta, 0),
                                    cipher,
                                    sess,
                                ) {
                                    None => r == Err::<LoginResponse, LoginFailed>(
                                        LoginFailed::WrongPasswordOrCode,
                                    ),
                                    Some(plain) => match User::spec_decode(plain) {
                                        None => r == Err::<LoginResponse, LoginFailed>(
                                            LoginFailed::InternalError,
                                        ),
                                        Some(uv) => spec_login_decision(
                                            uv,
                                            request.email@,
                                            request.code,
                                            now_ms,
                                            kv,
                                            r,
                                        ),
                                    },
                                },
                            }
                        }
                    },
                }
            }),
    {
        let super_key = match self.compute_super_key(request.secret) {
            Some(k) => k,
            None => {
                return Err(LoginFailed::NoMasterKey);
            },
        };
        let user_key = PrimaryKey::new(crate::crypto::hash64_bytes(request.email.as_slice()));
        let user: Dao<User> = match AuthService::fetch_user(chain, super_key, &request.email) {
            Ok(u) => u,
            Err(e) => {
                return Err(e);
            },
        };

        match user.row.data.status {
            UserStatus::Locked { until_ms } => {
                if until_ms > now_ms {
                    return Err(LoginFailed::AccountLocked { until_ms });
                }
            },
            UserStatus::Unverified => {
                return Err(LoginFailed::Unverified(request.email));
            },
            UserStatus::Nominal => {},
        }

        let mut authority = Session::default();
        authority.add_read_key(&user.row.data.nominal_read);
        authority.add_write_key(&user.row.data.nominal_write);
        authority.add_identity(request.email.clone());

        let elevated = match &request.code {
            Some(code) => {
                let time_slice = now_ms / 30000;
                if !crate::login::totp_verify(
                    user.row.data.sudo_secret.as_slice(),
                    code.as_slice(),
                    3,
                    time_slice,
                ) {
                    return Err(LoginFailed::WrongPasswordOrCode);
                }
                true
            },
            None => false,
        };
        if elevated {
            authority.add_read_key(&user.row.data.sudo_read);
            authority.add_write_key(&user.row.data.sudo_write);
        }

        let ghost uv = user.row.data@;
        proof {
            let base = seq![
                crate::session::SessionPropertyV::ReadKey(uv.nominal_read),
                crate::session::SessionPropertyV::WriteKey(uv.nominal_write),
                crate::session::SessionPropertyV::Identity(request.email@),
            ];
            if elevated {
                assert(authority@ =~= base + seq![
                    crate::session::SessionPropertyV::ReadKey(uv.sudo_read),
                    crate::session::SessionPropertyV::WriteKey(uv.sudo_write),
                ]);
            } else {
                assert(authority@ =~= base);
            }
        }
        Ok(
            LoginResponse {
                user_key,
                nominal_read: user.row.data.nominal_read.hash(),
                nominal_write: user.row.data.nominal_write.hash(),
                sudo_read: user.row.data.sudo_read.hash(),
                sudo_write: user.row.data.sudo_write.hash(),
                authority,
            },
        )
    }
}

/// The second-factor verdict for a shared secret, a code, a probe window
/// and a thirty-second time slice; deterministic in its arguments.
pub uninterp spec fn totp_accepts(secret: Seq<u8>, code: Seq<u8>, discrepancy: u64, time_slice: u64) -> bool;

/// Relies on google_authenticator's GoogleAuthenticator::verify_code with
/// its default six-digit codes. The call probes every slice in
/// `[time_slice - discrepancy, time_slice + discrepancy]` and reads a probed
/// slice of zero as the wall clock, so the requires keep every probed slice
/// positive; only then is the verdict a pure function of the arguments. The
/// bound on the discrepancy keeps the call's internal successor from
/// overflowing. Material that is not text is refused.
#[verifier::external_body]
pub fn totp_verify(secret: &[u8], code: &[u8], discrepancy: u64, time_slice: u64) -> (r: bool)
    requires
        discrepancy < u64::MAX,
        time_slice > discrepancy,
    ensures
        r == totp_accepts(secret@, code@, discrepancy, time_slice),
{
    match (std::str::from_utf8(secret), std::str::from_utf8(code)) {
        (Ok(s), Ok(c)) => google_authenticator::GoogleAuthenticator::new().verify_code(
            s,
            c,
            discrepancy,
            time_slice,
        ),
        _ => false,
    }
}

/// Why a group removal was refused.
#[derive(Clone, Copy, Debug, PartialEq, Eq, Structural)]
pub enum GroupRemoveFailed {
    GroupNotFound,
    NoMasterKey,
    CommitFailed(CommitError),
    LoadFailed(LoadError),
}

/// Removes a group row and, when one exists, its advert row, then commits
/// both tombstones. The advert is looked up under the advert key derived
/// from the group's name — not under the group's own key.
#[verifier::rlimit(100)]
#[verifier::spinoff_prover]
pub fn process_group_remove<G: RowCodec, A: RowCodec>(
    dio: &mut Dio,
    chain: &mut Chain,
    group: &Vec<u8>,
    now_ms: u64,
) -> (r: Result<PrimaryKey, GroupRemoveFailed>)
    requires
        old(dio).wf(),
        old(chain).wf(),
        now_ms + old(chain).enforcer.tolerance_ms <= u64::MAX,
        old(chain).enforcer.ntp_result.offset_us != i64::MIN,
        old(chain).log@.len() + old(dio).state.store@.len() + old(dio).state.deleted.spec_len() + 3
            <= u64::MAX,
    ensures
        final(dio).wf(),
        final(chain).wf(),
        r matches Ok(k) ==> k.value == crate::crypto::hash64_of(group@),
        r is Err ==> final(chain).log@ == old(chain).log@,
        r matches Err(GroupRemoveFailed::GroupNotFound) ==> !crate::chain::primary_of(
            old(chain).log@,
        ).dom().contains(crate::crypto::hash64_of(group@)),
        (r is Ok && !old(dio).state.spec_deleted(crate::crypto::hash64_of(group@))) ==> exists|
            j: int,
        |
            old(chain).log@.len() <= j < final(chain).log@.len()
                && crate::meta::first_tombstone_from((#[trigger] final(chain).log@[j]).meta, 0)
                == Some(PrimaryKey { value: crate::crypto::hash64_of(group@) }),
{
    let group_key = PrimaryKey::new(crate::crypto::hash64_bytes(group.as_slice()));
    let group_row: Dao<G> = match dio.load::<G>(chain, &group_key) {
        Ok(g) => g,
        Err(LoadError::NotFound(_)) => {
            return Err(GroupRemoveFailed::GroupNotFound);
        },
        Err(LoadError::MissingReadKey) => {
            return Err(GroupRemoveFailed::NoMasterKey);
        },
        Err(e) => {
            return Err(GroupRemoveFailed::LoadFailed(e));
        },
    };
    dio.delete(group_row);

    let mut advert_entropy: Vec<u8> = vstd::slice::slice_to_vec("advert:".as_bytes());
    let mut group_bytes = group.clone();
    advert_entropy.append(&mut group_bytes);
    let advert_key = PrimaryKey::new(crate::crypto::hash64_bytes(advert_entropy.as_slice()));
    match dio.load::<A>(chain, &advert_key) {
        Ok(advert) => {
            dio.delete(advert);
        },
        Err(_) => {},
    }

    let ghost pre_dels = crate::dio::deleted_views(dio.state.deleted.s());
    let ghost pre_rows = crate::dio::store_views(dio.state.store@);
    match dio.commit(chain, now_ms) {
        Ok(_) => {
            proof {
                if !old(dio).state.spec_deleted(group_key.value) {
                    let d0 = crate::dio::deleted_views(old(dio).state.deleted.s()).len() as int;
                    assert(pre_dels[d0].key == group_key);
                    let evs = final(chain).log@.subrange(
                        old(chain).log@.len() as int,
                        final(chain).log@.len() as int,
                    );
                    let b: int = evs.len() - pre_rows.len() - pre_dels.len();
                    assert(crate::dio::commit_event_shape_tomb(
                        evs[b + pre_rows.len() + d0],
                        pre_dels[d0],
                        (now_ms + crate::time::spec_div1000(
                            old(chain).enforcer.ntp_result.offset_us,
                        )) as u64,
                    ));
                    let j = old(chain).log@.len() + b + pre_rows.len() + d0;
                    assert(final(chain).log@[j] == evs[b + pre_rows.len() + d0]);
                }
            }
            Ok(group_key)
        },
        Err(e) => Err(GroupRemoveFailed::CommitFailed(e)),
    }
}

} // verus!
