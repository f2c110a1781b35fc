use ate::chain::chain_key_4hex;
use ate::chain::Chain;
use ate::crypto::EncryptKey;
use ate::crypto::KeySize;
use ate::crypto::PrivateSignKey;
use ate::dio::Dao;
use ate::dio::DaoVec;
use ate::dio::TestEnumDao;
use ate::dio::TestStructDao;
use ate::errors::LoadError;
use ate::meta::MetaAuthorization;
use ate::session::Session;
use ate::time::now_unix_ms;
use ate::time::NtpResult;
use ate::time::TimestampEnforcer;

fn test_enforcer() -> TimestampEnforcer {
    TimestampEnforcer::new(
        "pool.ntp.org".to_owned(),
        123,
        200_000,
        NtpResult { offset_us: 0, roundtrip_us: 0 },
    )
}

fn test_session(
    write_key: &PrivateSignKey,
    write_key2: &PrivateSignKey,
    read_key: &EncryptKey,
) -> Session {
    let mut session = Session::default();
    session.add_write_key(write_key);
    session.add_write_key(write_key2);
    session.add_read_key(read_key);
    session.add_identity(b"author@here.com".to_vec());
    session
}

#[test]
fn test_dio() {
    let write_key = PrivateSignKey::generate(KeySize::Bit192);
    let write_key2 = PrivateSignKey::generate(KeySize::Bit256);
    let read_key = EncryptKey::generate(KeySize::Bit192);
    let root_public_key = *write_key.as_public_key();

    let session = test_session(&write_key, &write_key2, &read_key);

    let key1;
    let key2;
    let key3;

    let key = chain_key_4hex("test_dio", None);
    let mut chain = Chain::open(key, Some(root_public_key), test_enforcer());

    {
        let mut dio = chain.dio(&session);
        let mut mock_dao = TestStructDao::default();
        mock_dao.val = 1;
        mock_dao.hidden = b"This text should be hidden".to_vec();
        let inner: DaoVec<TestEnumDao> = DaoVec::new(77);
        mock_dao.inner = inner;

        let mut dao1 = dio.store(mock_dao).unwrap();
        let mut dao3 = DaoVec::<TestEnumDao>::new(77)
            .push(&mut dio, dao1.key(), TestEnumDao::Blah1)
            .unwrap();

        key1 = dao1.key();
        key3 = dao3.key();

        // Still editing the object: the load must fail on the lock.
        assert!(matches!(
            dio.load::<TestStructDao>(&chain, &key1),
            Err(LoadError::ObjectStillLocked(_))
        ));

        let auth = MetaAuthorization {
            allow_read: vec![read_key.hash()],
            allow_write: vec![write_key2.hash()],
            implicit_authority: Vec::new(),
        };
        dio.write_auth(&mut dao1, auth);

        dio.commit_dao(&mut dao1);
        dio.commit_dao(&mut dao3);
        dio.commit(&mut chain, now_unix_ms()).expect("Commit failed");
    }

    {
        let mut dio = chain.dio(&session);
        // Load the committed row back and edit it: the edit locks the key.
        let mut dao1: Dao<TestStructDao> = dio.load(&chain, &key1).unwrap();
        assert_eq!(dao1.row.data.val, 1);
        let mut edited = TestStructDao::default();
        edited.val = 2;
        edited.hidden = b"This text should be hidden".to_vec();
        edited.inner = DaoVec::new(77);
        dio.write_data(&mut dao1, edited);
        assert!(matches!(
            dio.load::<TestStructDao>(&chain, &key1),
            Err(LoadError::ObjectStillLocked(_))
        ));

        // Flush the handle; then the row must be readable again.
        dio.commit_dao(&mut dao1);
        let test: Dao<TestStructDao> = dio
            .load(&chain, &key1)
            .expect("The dirty data object should have been read after it was flushed");
        assert_eq!(test.row.data.val, 2 as u32);

        // Write a record we will delete later.
        let mut dao2 = dio.store(TestEnumDao::Blah4).unwrap();
        let auth2 = MetaAuthorization {
            allow_read: Vec::new(),
            allow_write: vec![write_key2.as_public_key().hash()],
            implicit_authority: Vec::new(),
        };
        dio.write_auth(&mut dao2, auth2);
        key2 = dao2.key();
        dio.commit_dao(&mut dao2);
        dio.commit(&mut chain, now_unix_ms()).expect("Commit failed");
    }

    {
        let mut dio = chain.dio(&session);
        // The committed update is visible from a fresh view.
        let test = dio
            .load::<TestStructDao>(&chain, &key1)
            .expect("The data object should have been read");
        assert_eq!(test.row.data.val, 2);

        // The collection holds exactly the pushed child.
        let kids = test
            .row
            .data
            .inner
            .items(&mut dio, &chain, key1)
            .expect("Three should be a data object in this collection");
        assert_eq!(kids.len(), 1);
        assert_eq!(kids[0].key(), key3);
        assert!(matches!(kids[0].row.data, TestEnumDao::Blah1));

        // Read then delete the second record.
        let dao2 = dio
            .load::<TestEnumDao>(&chain, &key2)
            .expect("The record should load before we delete it in this session");
        dio.delete(dao2);

        // It no longer loads within this view.
        assert!(matches!(
            dio.load::<TestEnumDao>(&chain, &key2),
            Err(LoadError::AlreadyDeleted(_))
        ));
        dio.commit(&mut chain, now_unix_ms()).expect("Commit failed");
    }

    {
        // Reopen the chain from its persisted log.
        let log = chain.export_log();
        let key = chain_key_4hex("test_dio", None);
        let reopened = Chain::from_log(key, log, Some(root_public_key), test_enforcer());
        let mut dio = reopened.dio(&session);

        let dao1: Dao<TestStructDao> = dio
            .load(&reopened, &key1)
            .expect("The data object should have been read");
        assert_eq!(dao1.row.data.val, 2);

        // The deleted record stays gone across the reopen.
        assert!(matches!(
            dio.load::<TestEnumDao>(&reopened, &key2),
            Err(LoadError::NotFound(_))
        ));
    }
}

#[test]
fn store_then_load_returns_the_row() {
    let write_key = PrivateSignKey::generate(KeySize::Bit192);
    let write_key2 = PrivateSignKey::generate(KeySize::Bit256);
    let read_key = EncryptKey::generate(KeySize::Bit192);
    let session = test_session(&write_key, &write_key2, &read_key);
    let chain = Chain::open(
        chain_key_4hex("isolation", None),
        Some(*write_key.as_public_key()),
        test_enforcer(),
    );
    let mut dio = chain.dio(&session);

    let mut dao = dio.store(TestEnumDao::Blah2(42)).unwrap();
    let k = dao.key();
    // Within the same view the staged row is returned once flushed...
    dio.commit_dao(&mut dao);
    let back = dio.load::<TestEnumDao>(&chain, &k).unwrap();
    assert!(matches!(back.row.data, TestEnumDao::Blah2(42)));
    // ...and no other view observes it before commit.
    let mut other = chain.dio(&session);
    assert!(matches!(
        other.load::<TestEnumDao>(&chain, &k),
        Err(LoadError::NotFound(_))
    ));
}

#[test]
fn deleting_a_deleted_key_changes_nothing() {
    let write_key = PrivateSignKey::generate(KeySize::Bit192);
    let write_key2 = PrivateSignKey::generate(KeySize::Bit256);
    let read_key = EncryptKey::generate(KeySize::Bit192);
    let session = test_session(&write_key, &write_key2, &read_key);
    let mut chain = Chain::open(
        chain_key_4hex("tombstones", None),
        Some(*write_key.as_public_key()),
        test_enforcer(),
    );
    let mut dio = chain.dio(&session);

    let mut dao = dio.store(TestEnumDao::Blah5).unwrap();
    let k = dao.key();
    dio.commit_dao(&mut dao);
    dio.commit(&mut chain, now_unix_ms()).unwrap();

    let mut dio = chain.dio(&session);
    let dao = dio.load::<TestEnumDao>(&chain, &k).unwrap();
    dio.delete(dao);
    let dao_again = Dao {
        row: ate::dio::Row {
            key: k,
            tree: None,
            data: TestEnumDao::Blah5,
            auth: MetaAuthorization::new_unrestricted(),
            collections: Vec::new(),
            format: ate::event::MessageFormat::Binary,
            created: 0,
            updated: 0,
        },
        dirty: false,
    };
    // Deleting the deleted key again is a no-op.
    dio.delete(dao_again);
    assert!(matches!(
        dio.load::<TestEnumDao>(&chain, &k),
        Err(LoadError::AlreadyDeleted(_))
    ));
    dio.commit(&mut chain, now_unix_ms()).unwrap();

    // After commit the key is simply absent.
    let mut dio = chain.dio(&session);
    assert!(matches!(
        dio.load::<TestEnumDao>(&chain, &k),
        Err(LoadError::NotFound(_))
    ));
}

#[test]
fn children_lists_a_committed_child_once() {
    let write_key = PrivateSignKey::generate(KeySize::Bit192);
    let write_key2 = PrivateSignKey::generate(KeySize::Bit256);
    let read_key = EncryptKey::generate(KeySize::Bit192);
    let session = test_session(&write_key, &write_key2, &read_key);
    let mut chain = Chain::open(
        chain_key_4hex("collections", None),
        Some(*write_key.as_public_key()),
        test_enforcer(),
    );
    let mut dio = chain.dio(&session);

    let mut parent = dio.store(TestStructDao::default()).unwrap();
    let kp = parent.key();
    let vec_handle: DaoVec<TestEnumDao> = DaoVec::new(5);
    let mut child = vec_handle.push(&mut dio, kp, TestEnumDao::Blah1).unwrap();
    let kc = child.key();
    dio.commit_dao(&mut parent);
    dio.commit_dao(&mut child);
    dio.commit(&mut chain, now_unix_ms()).unwrap();

    let mut dio = chain.dio(&session);
    let kids = dio.children::<TestEnumDao>(&chain, kp, 5).unwrap();
    assert_eq!(kids.len(), 1);
    assert_eq!(kids[0].key(), kc);

    // After deleting the child it is absent from the collection.
    let doomed = dio.load::<TestEnumDao>(&chain, &kc).unwrap();
    dio.delete(doomed);
    dio.commit(&mut chain, now_unix_ms()).unwrap();
    let mut dio = chain.dio(&session);
    let kids = dio.children::<TestEnumDao>(&chain, kp, 5).unwrap();
    assert_eq!(kids.len(), 0);
}

#[test]
fn loading_without_the_read_key_is_refused() {
    let write_key = PrivateSignKey::generate(KeySize::Bit192);
    let write_key2 = PrivateSignKey::generate(KeySize::Bit256);
    let read_key = EncryptKey::generate(KeySize::Bit192);
    let session = test_session(&write_key, &write_key2, &read_key);
    let mut chain = Chain::open(
        chain_key_4hex("readkeys", None),
        Some(*write_key.as_public_key()),
        test_enforcer(),
    );
    let mut dio = chain.dio(&session);
    let mut dao = dio.store(TestEnumDao::Blah3(b"secret".to_vec())).unwrap();
    dio.write_auth(
        &mut dao,
        MetaAuthorization {
            allow_read: vec![read_key.hash()],
            allow_write: vec![write_key2.hash()],
            implicit_authority: Vec::new(),
        },
    );
    let k = dao.key();
    dio.commit_dao(&mut dao);
    dio.commit(&mut chain, now_unix_ms()).unwrap();

    // A session holding the key reads the original payload back.
    let mut dio = chain.dio(&session);
    let back = dio.load::<TestEnumDao>(&chain, &k).unwrap();
    assert!(matches!(&back.row.data, TestEnumDao::Blah3(b) if b == &b"secret".to_vec()));

    // A session without the key is refused.
    let mut bare = Session::default();
    bare.add_write_key(&write_key);
    let mut dio = chain.dio(&bare);
    assert!(matches!(
        dio.load::<TestEnumDao>(&chain, &k),
        Err(LoadError::MissingReadKey)
    ));
}

#[test]
fn payload_of_another_type_is_a_serialization_failure() {
    let write_key = PrivateSignKey::generate(KeySize::Bit192);
    let write_key2 = PrivateSignKey::generate(KeySize::Bit256);
    let read_key = EncryptKey::generate(KeySize::Bit192);
    let session = test_session(&write_key, &write_key2, &read_key);
    let mut chain = Chain::open(
        chain_key_4hex("wrongtype", None),
        Some(*write_key.as_public_key()),
        test_enforcer(),
    );
    let mut dio = chain.dio(&session);
    let mut dao = dio.store(TestStructDao::default()).unwrap();
    let k = dao.key();
    dio.commit_dao(&mut dao);
    dio.commit(&mut chain, now_unix_ms()).unwrap();

    let mut dio = chain.dio(&session);
    assert!(matches!(
        dio.load::<TestEnumDao>(&chain, &k),
        Err(LoadError::SerializationError)
    ));
}

#[test]
fn committing_without_the_named_write_key_is_a_lint_failure() {
    let write_key = PrivateSignKey::generate(KeySize::Bit192);
    let write_key2 = PrivateSignKey::generate(KeySize::Bit256);
    let read_key = EncryptKey::generate(KeySize::Bit192);
    // The session holds only the first write key.
    let mut session = Session::default();
    session.add_write_key(&write_key);
    session.add_read_key(&read_key);
    let mut chain = Chain::open(
        chain_key_4hex("nowritekey", None),
        Some(*write_key.as_public_key()),
        test_enforcer(),
    );
    let mut dio = chain.dio(&session);
    let mut dao = dio.store(TestEnumDao::Blah1).unwrap();
    dio.write_auth(
        &mut dao,
        MetaAuthorization {
            allow_read: Vec::new(),
            allow_write: vec![write_key2.hash()],
            implicit_authority: Vec::new(),
        },
    );
    dio.commit_dao(&mut dao);
    let r = dio.commit(&mut chain, now_unix_ms());
    assert!(matches!(
        r,
        Err(ate::errors::CommitError::LintError(
            ate::errors::LintError::MissingWriteKey(_)
        ))
    ));
    // The failed commit left the stage intact, so it can be retried once
    // the key is at hand.
    let r2 = dio.commit(&mut chain, now_unix_ms());
    assert!(r2.is_err());
}

#[test]
fn adopting_a_view_keeps_the_staged_rows() {
    let write_key = PrivateSignKey::generate(KeySize::Bit192);
    let write_key2 = PrivateSignKey::generate(KeySize::Bit256);
    let read_key = EncryptKey::generate(KeySize::Bit192);
    let session = test_session(&write_key, &write_key2, &read_key);
    let mut chain = Chain::open(
        chain_key_4hex("adopt", None),
        Some(*write_key.as_public_key()),
        test_enforcer(),
    );
    let mut dio = chain.dio(&session);
    let mut staged = dio.store(TestEnumDao::Blah2(5)).unwrap();
    let ks = staged.key();
    dio.commit_dao(&mut staged);
    let mut held = dio.store(TestEnumDao::Blah5).unwrap();
    let kh = held.key();

    // The new view adopts the old one's stage: the flushed row is still
    // there, and the held handle's lock is released.
    let mut dio2 = chain.dio_for_dao(&session, ate::chain::Scope::Local, &mut held, dio);
    assert!(!held.dirty);
    let back = dio2.load::<TestEnumDao>(&chain, &ks).unwrap();
    assert!(matches!(back.row.data, TestEnumDao::Blah2(5)));
    assert!(dio2.load::<TestEnumDao>(&chain, &kh).is_err());

    // Committing through the adopted view writes the travelled row.
    dio2.commit(&mut chain, now_unix_ms()).unwrap();
    let mut dio3 = chain.dio(&session);
    let committed = dio3.load::<TestEnumDao>(&chain, &ks).unwrap();
    assert!(matches!(committed.row.data, TestEnumDao::Blah2(5)));
}
