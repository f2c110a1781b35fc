use ate::chain::chain_key_4hex;
use ate::chain::Chain;
use ate::chain::Scope;
use ate::chain::Transaction;
use ate::crypto::EncryptKey;
use ate::crypto::KeySize;
use ate::crypto::PrivateSignKey;
use ate::dio::TestEnumDao;
use ate::errors::CommitError;
use ate::errors::TimeError;
use ate::errors::ValidationError;
use ate::event::EventData;
use ate::event::MessageFormat;
use ate::meta::CoreMetadata;
use ate::meta::Metadata;
use ate::meta::MetaTimestamp;
use ate::session::Session;
use ate::time::now_unix_ms;
use ate::time::NtpResult;
use ate::time::TimestampEnforcer;

fn test_enforcer(tolerance_ms: u32) -> TimestampEnforcer {
    TimestampEnforcer::new(
        "pool.ntp.org".to_owned(),
        123,
        tolerance_ms,
        NtpResult { offset_us: 0, roundtrip_us: 0 },
    )
}

fn test_session(write_key: &PrivateSignKey, read_key: &EncryptKey) -> Session {
    let mut session = Session::default();
    session.add_write_key(write_key);
    session.add_read_key(read_key);
    session
}

#[test]
fn replay_reproduces_the_indexes() {
    let write_key = PrivateSignKey::generate(KeySize::Bit192);
    let read_key = EncryptKey::generate(KeySize::Bit192);
    let session = test_session(&write_key, &read_key);
    let mut chain = Chain::open(
        chain_key_4hex("replay", None),
        Some(*write_key.as_public_key()),
        test_enforcer(200_000),
    );

    let mut keys = Vec::new();
    for i in 0..5u32 {
        let mut dio = chain.dio(&session);
        let mut dao = dio.store(TestEnumDao::Blah2(i)).unwrap();
        keys.push(dao.key());
        dio.commit_dao(&mut dao);
        dio.commit(&mut chain, now_unix_ms()).unwrap();
    }
    // Delete the third row in its own transaction.
    let mut dio = chain.dio(&session);
    let doomed = dio.load::<TestEnumDao>(&chain, &keys[2]).unwrap();
    dio.delete(doomed);
    dio.commit(&mut chain, now_unix_ms()).unwrap();

    // Replaying the log from offset zero reproduces the live index.
    let log = chain.export_log();
    let replayed = Chain::from_log(
        chain_key_4hex("replay", None),
        log,
        Some(*write_key.as_public_key()),
        test_enforcer(200_000),
    );
    for (i, k) in keys.iter().enumerate() {
        let live = chain.lookup_primary(k);
        let again = replayed.lookup_primary(k);
        assert_eq!(live, again);
        if i == 2 {
            assert!(live.is_none());
        } else {
            assert!(live.is_some());
        }
    }
}

#[test]
fn stale_timestamp_is_rejected_and_log_unchanged() {
    let write_key = PrivateSignKey::generate(KeySize::Bit192);
    let tolerance: u64 = 10_000;
    let mut chain = Chain::open(
        chain_key_4hex("stale", None),
        Some(*write_key.as_public_key()),
        test_enforcer(tolerance as u32),
    );
    let len_before = chain.export_log().len();

    let now = now_unix_ms();
    let stale = now - 2 * tolerance;
    let mut meta = Metadata::for_data(ate::header::PrimaryKey::new(7));
    meta.push_entry(CoreMetadata::Timestamp(MetaTimestamp {
        time_since_epoch_ms: stale,
    }));
    let evt = EventData {
        meta,
        data_bytes: Some(vec![1u8, 2u8, 3u8]),
        format: MessageFormat::Binary,
    };
    // Advance the cursor well past the stale moment first.
    let mut fresh = Metadata::for_data(ate::header::PrimaryKey::new(8));
    fresh.push_entry(CoreMetadata::Timestamp(MetaTimestamp {
        time_since_epoch_ms: now,
    }));
    let ok_evt = EventData {
        meta: fresh,
        data_bytes: Some(vec![9u8]),
        format: MessageFormat::Binary,
    };
    let trans = Transaction {
        scope: Scope::Local,
        events: vec![ok_evt],
    };
    chain.feed(&trans, now).unwrap();
    let len_mid = chain.export_log().len();
    assert_eq!(len_mid, len_before + 1);

    let trans = Transaction {
        scope: Scope::Local,
        events: vec![evt],
    };
    let r = chain.feed(&trans, now);
    assert!(matches!(
        r,
        Err(CommitError::ValidationError(ValidationError::Time(
            TimeError::OutOfBounds { .. }
        )))
    ));
    // The rejected batch left the log untouched.
    assert_eq!(chain.export_log().len(), len_mid);
}

#[test]
fn restricted_header_without_signature_is_rejected() {
    let write_key = PrivateSignKey::generate(KeySize::Bit192);
    let mut chain = Chain::open(
        chain_key_4hex("unsigned", None),
        Some(*write_key.as_public_key()),
        test_enforcer(200_000),
    );
    let now = now_unix_ms();
    let mut meta = Metadata::for_data(ate::header::PrimaryKey::new(9));
    meta.push_entry(CoreMetadata::Authorization(ate::meta::MetaAuthorization {
        allow_read: Vec::new(),
        allow_write: vec![write_key.hash()],
        implicit_authority: Vec::new(),
    }));
    meta.push_entry(CoreMetadata::Timestamp(MetaTimestamp {
        time_since_epoch_ms: now,
    }));
    let evt = EventData {
        meta,
        data_bytes: Some(vec![4u8]),
        format: MessageFormat::Binary,
    };
    let trans = Transaction {
        scope: Scope::Local,
        events: vec![evt],
    };
    let r = chain.feed(&trans, now);
    assert!(matches!(
        r,
        Err(CommitError::ValidationError(
            ValidationError::MissingSignature
        ))
    ));
    assert_eq!(chain.export_log().len(), 0);
}

#[test]
fn commit_signs_restricted_rows_so_the_chain_accepts_them() {
    let write_key = PrivateSignKey::generate(KeySize::Bit192);
    let write_key2 = PrivateSignKey::generate(KeySize::Bit256);
    let read_key = EncryptKey::generate(KeySize::Bit192);
    let mut session = test_session(&write_key, &read_key);
    session.add_write_key(&write_key2);
    let mut chain = Chain::open(
        chain_key_4hex("signed", None),
        Some(*write_key.as_public_key()),
        test_enforcer(200_000),
    );
    let mut dio = chain.dio(&session);
    let mut dao = dio.store(TestEnumDao::Blah4).unwrap();
    dio.write_auth(
        &mut dao,
        ate::meta::MetaAuthorization {
            allow_read: vec![read_key.hash()],
            allow_write: vec![write_key2.hash()],
            implicit_authority: Vec::new(),
        },
    );
    let k = dao.key();
    dio.commit_dao(&mut dao);
    dio.commit(&mut chain, now_unix_ms()).unwrap();
    // The leading envelope plus the data event landed in the log.
    assert_eq!(chain.export_log().len(), 2);
    assert!(chain.lookup_primary(&k).is_some());
}

#[test]
fn chain_key_prefix_is_stable() {
    let a = chain_key_4hex("example.com", Some("redo"));
    let b = chain_key_4hex("example.com", Some("redo"));
    assert_eq!(a.hash4, b.hash4);
    assert_eq!(a.domain, b.domain);
    assert_eq!(a.subdomain, b"redo".to_vec());
    let c = chain_key_4hex("example.org", None);
    assert_eq!(c.subdomain.len(), 0);
}

#[test]
fn compaction_keeps_the_live_rows() {
    let write_key = PrivateSignKey::generate(KeySize::Bit192);
    let read_key = EncryptKey::generate(KeySize::Bit192);
    let session = test_session(&write_key, &read_key);
    let mut chain = Chain::open(
        chain_key_4hex("compact", None),
        Some(*write_key.as_public_key()),
        test_enforcer(200_000),
    );

    // Two generations of the same row, one deleted row.
    let mut dio = chain.dio(&session);
    let mut a = dio.store(TestEnumDao::Blah2(1)).unwrap();
    let ka = a.key();
    let mut b = dio.store(TestEnumDao::Blah2(2)).unwrap();
    let kb = b.key();
    dio.commit_dao(&mut a);
    dio.commit_dao(&mut b);
    dio.commit(&mut chain, now_unix_ms()).unwrap();

    let mut dio = chain.dio(&session);
    let mut a2 = dio.load::<TestEnumDao>(&chain, &ka).unwrap();
    dio.write_data(&mut a2, TestEnumDao::Blah2(10));
    dio.commit_dao(&mut a2);
    let doomed = dio.load::<TestEnumDao>(&chain, &kb).unwrap();
    dio.delete(doomed);
    dio.commit(&mut chain, now_unix_ms()).unwrap();

    // The compacted log drops the superseded and deleted events but keeps
    // the live row readable.
    let compacted = chain.compact();
    assert!(compacted.len() < chain.export_log().len());
    let reopened = Chain::from_log(
        chain_key_4hex("compact", None),
        compacted,
        Some(*write_key.as_public_key()),
        test_enforcer(200_000),
    );
    let mut dio = reopened.dio(&session);
    let live = dio.load::<TestEnumDao>(&reopened, &ka).unwrap();
    assert!(matches!(live.row.data, TestEnumDao::Blah2(10)));
    assert!(dio.load::<TestEnumDao>(&reopened, &kb).is_err());
}
