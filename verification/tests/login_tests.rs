use ate::chain::chain_key_4hex;
use ate::chain::Chain;
use ate::crypto::hash64_bytes;
use ate::crypto::EncryptKey;
use ate::crypto::KeySize;
use ate::crypto::PrivateSignKey;
use ate::errors::LoginFailed;
use ate::header::PrimaryKey;
use ate::login::process_group_remove;
use ate::login::AuthService;
use ate::login::GroupRemoveFailed;
use ate::login::LoginRequest;
use ate::login::User;
use ate::login::UserStatus;
use ate::dio::TestEnumDao;
use ate::meta::MetaAuthorization;
use ate::session::Session;
use ate::time::now_unix_ms;
use ate::time::NtpResult;
use ate::time::TimestampEnforcer;

fn test_enforcer() -> TimestampEnforcer {
    TimestampEnforcer::new(
        "pool.ntp.org".to_owned(),
        123,
        200_000,
        NtpResult { offset_us: 0, roundtrip_us: 0 },
    )
}

fn service() -> AuthService {
    let master = EncryptKey::from_seed_bytes(b"the master key", KeySize::Bit256);
    let mut master_session = Session::default();
    master_session.add_read_key(&master);
    AuthService { master_session }
}

fn store_user(
    chain: &mut Chain,
    svc: &AuthService,
    email: &[u8],
    password_secret: &EncryptKey,
    status: UserStatus,
) -> User {
    let super_key = svc.compute_super_key(*password_secret).unwrap();
    let signer = PrivateSignKey::generate(KeySize::Bit192);
    let mut commit_session = Session::default();
    commit_session.add_read_key(&super_key);
    commit_session.add_write_key(&signer);

    let user = User {
        status,
        nominal_read: EncryptKey::from_seed_bytes(b"nominal read", KeySize::Bit192),
        nominal_write: PrivateSignKey::generate(KeySize::Bit192),
        sudo_read: EncryptKey::from_seed_bytes(b"sudo read", KeySize::Bit192),
        sudo_write: PrivateSignKey::generate(KeySize::Bit256),
        sudo_secret: Vec::new(),
    };
    let copy = User {
        status: user.status,
        nominal_read: user.nominal_read,
        nominal_write: user.nominal_write,
        sudo_read: user.sudo_read,
        sudo_write: user.sudo_write,
        sudo_secret: user.sudo_secret.clone(),
    };

    let user_key = PrimaryKey::new(hash64_bytes(email));
    let mut dio = chain.dio(&commit_session);
    let mut dao = dio.store_ext(user, None, Some(user_key)).unwrap();
    dio.write_auth(
        &mut dao,
        MetaAuthorization {
            allow_read: vec![super_key.hash()],
            allow_write: vec![signer.hash()],
            implicit_authority: Vec::new(),
        },
    );
    dio.commit_dao(&mut dao);
    dio.commit(chain, now_unix_ms()).unwrap();
    copy
}

#[test]
fn login_with_the_right_password_grants_the_keys() {
    let svc = service();
    let mut chain = Chain::open(chain_key_4hex("auth", Some("redo")), None, test_enforcer());
    let secret = EncryptKey::from_seed_bytes(b"the password", KeySize::Bit192);
    let user = store_user(&mut chain, &svc, b"alice@here.com", &secret, UserStatus::Nominal);

    let r = svc
        .process_login(
            &chain,
            LoginRequest {
                email: b"alice@here.com".to_vec(),
                secret,
                code: None,
            },
            now_unix_ms(),
        )
        .unwrap();
    assert_eq!(r.user_key, PrimaryKey::new(hash64_bytes(b"alice@here.com")));
    assert_eq!(r.nominal_read, user.nominal_read.hash());
    assert_eq!(r.nominal_write, user.nominal_write.hash());
    // The granted session can decrypt rows guarded by the nominal read key.
    assert!(r.authority.read_key_for(&user.nominal_read.hash()).is_some());
}

#[test]
fn login_with_the_wrong_password_is_refused_uniformly() {
    let svc = service();
    let mut chain = Chain::open(chain_key_4hex("auth2", Some("redo")), None, test_enforcer());
    let secret = EncryptKey::from_seed_bytes(b"the password", KeySize::Bit192);
    store_user(&mut chain, &svc, b"bob@here.com", &secret, UserStatus::Nominal);

    let wrong = EncryptKey::from_seed_bytes(b"not the password", KeySize::Bit192);
    let r = svc.process_login(
        &chain,
        LoginRequest {
            email: b"bob@here.com".to_vec(),
            secret: wrong,
            code: None,
        },
        now_unix_ms(),
    );
    assert!(matches!(r, Err(LoginFailed::WrongPasswordOrCode)));

    // An account that does not exist is reported as such.
    let r = svc.process_login(
        &chain,
        LoginRequest {
            email: b"nobody@here.com".to_vec(),
            secret,
            code: None,
        },
        now_unix_ms(),
    );
    assert!(matches!(r, Err(LoginFailed::UserNotFound(_))));
}

#[test]
fn unverified_and_locked_accounts_are_refused_with_their_state() {
    let svc = service();
    let mut chain = Chain::open(chain_key_4hex("auth3", Some("redo")), None, test_enforcer());
    let secret = EncryptKey::from_seed_bytes(b"pw", KeySize::Bit192);
    store_user(
        &mut chain,
        &svc,
        b"carol@here.com",
        &secret,
        UserStatus::Unverified,
    );
    let r = svc.process_login(
        &chain,
        LoginRequest {
            email: b"carol@here.com".to_vec(),
            secret,
            code: None,
        },
        now_unix_ms(),
    );
    assert!(matches!(r, Err(LoginFailed::Unverified(email)) if email == b"carol@here.com".to_vec()));

    let until_ms = now_unix_ms() + 3_600_000;
    store_user(
        &mut chain,
        &svc,
        b"dave@here.com",
        &secret,
        UserStatus::Locked { until_ms },
    );
    let r = svc.process_login(
        &chain,
        LoginRequest {
            email: b"dave@here.com".to_vec(),
            secret,
            code: None,
        },
        now_unix_ms(),
    );
    assert!(matches!(r, Err(LoginFailed::AccountLocked { .. })));
}

#[test]
fn login_without_a_master_key_is_refused() {
    let svc = AuthService {
        master_session: Session::default(),
    };
    let chain = Chain::open(chain_key_4hex("auth4", Some("redo")), None, test_enforcer());
    let secret = EncryptKey::from_seed_bytes(b"pw", KeySize::Bit192);
    let r = svc.process_login(
        &chain,
        LoginRequest {
            email: b"erin@here.com".to_vec(),
            secret,
            code: None,
        },
        now_unix_ms(),
    );
    assert!(matches!(r, Err(LoginFailed::NoMasterKey)));
}

#[test]
fn group_remove_deletes_group_and_advert() {
    let session = Session::default();
    let mut chain = Chain::open(chain_key_4hex("groups", Some("redo")), None, test_enforcer());

    // Store the group row and its advert row under their derived keys.
    let group_name = b"mygroup".to_vec();
    let group_key = PrimaryKey::new(hash64_bytes(&group_name));
    let mut advert_entropy = b"advert:".to_vec();
    advert_entropy.extend_from_slice(&group_name);
    let advert_key = PrimaryKey::new(hash64_bytes(&advert_entropy));

    let mut dio = chain.dio(&session);
    let mut g = dio
        .store_ext(TestEnumDao::Blah1, None, Some(group_key))
        .unwrap();
    let mut a = dio
        .store_ext(TestEnumDao::Blah2(1), None, Some(advert_key))
        .unwrap();
    dio.commit_dao(&mut g);
    dio.commit_dao(&mut a);
    dio.commit(&mut chain, now_unix_ms()).unwrap();

    let mut dio = chain.dio(&session);
    let removed =
        process_group_remove::<TestEnumDao, TestEnumDao>(&mut dio, &mut chain, &group_name, now_unix_ms())
            .unwrap();
    assert_eq!(removed, group_key);

    let mut dio = chain.dio(&session);
    assert!(dio.load::<TestEnumDao>(&chain, &group_key).is_err());
    assert!(dio.load::<TestEnumDao>(&chain, &advert_key).is_err());

    // Removing a group that does not exist is reported as such.
    let missing = b"nogroup".to_vec();
    let mut dio = chain.dio(&session);
    let r = process_group_remove::<TestEnumDao, TestEnumDao>(
        &mut dio,
        &mut chain,
        &missing,
        now_unix_ms(),
    );
    assert!(matches!(r, Err(GroupRemoveFailed::GroupNotFound)));
}

#[test]
fn second_factor_grants_and_refuses() {
    let svc = service();
    let mut chain = Chain::open(chain_key_4hex("auth5", Some("redo")), None, test_enforcer());
    let secret = EncryptKey::from_seed_bytes(b"pw", KeySize::Bit192);

    // Store a user whose shared secret is a real authenticator secret.
    let totp_secret = google_authenticator::GoogleAuthenticator::new().create_secret(32);
    let super_key = svc.compute_super_key(secret).unwrap();
    let signer = PrivateSignKey::generate(KeySize::Bit192);
    let mut commit_session = Session::default();
    commit_session.add_read_key(&super_key);
    commit_session.add_write_key(&signer);
    let user = User {
        status: UserStatus::Nominal,
        nominal_read: EncryptKey::from_seed_bytes(b"nr", KeySize::Bit192),
        nominal_write: PrivateSignKey::generate(KeySize::Bit192),
        sudo_read: EncryptKey::from_seed_bytes(b"sr", KeySize::Bit192),
        sudo_write: PrivateSignKey::generate(KeySize::Bit256),
        sudo_secret: totp_secret.clone().into_bytes(),
    };
    let sudo_read_hash = user.sudo_read.hash();
    let user_key = PrimaryKey::new(hash64_bytes(b"frank@here.com"));
    let mut dio = chain.dio(&commit_session);
    let mut dao = dio.store_ext(user, None, Some(user_key)).unwrap();
    dio.write_auth(
        &mut dao,
        MetaAuthorization {
            allow_read: vec![super_key.hash()],
            allow_write: vec![signer.hash()],
            implicit_authority: Vec::new(),
        },
    );
    dio.commit_dao(&mut dao);
    dio.commit(&mut chain, now_unix_ms()).unwrap();

    // The right code elevates the session with the sudo keys.
    let now = now_unix_ms();
    let code = google_authenticator::GoogleAuthenticator::new()
        .get_code(&totp_secret, now / 30000)
        .unwrap();
    let r = svc
        .process_login(
            &chain,
            LoginRequest {
                email: b"frank@here.com".to_vec(),
                secret,
                code: Some(code.into_bytes()),
            },
            now,
        )
        .unwrap();
    assert!(r.authority.read_key_for(&sudo_read_hash).is_some());

    // A wrong code is refused without distinguishing which factor failed.
    let r = svc.process_login(
        &chain,
        LoginRequest {
            email: b"frank@here.com".to_vec(),
            secret,
            code: Some(b"000000".to_vec()),
        },
        now,
    );
    assert!(matches!(r, Err(LoginFailed::WrongPasswordOrCode)));
}
