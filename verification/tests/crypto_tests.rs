use ate::codec;
use ate::crypto::AteHash;
use ate::crypto::EncryptKey;
use ate::crypto::EncryptedPrivateKey;
use ate::crypto::InitializationVector;
use ate::crypto::KeySize;
use ate::crypto::PrivateSignKey;

#[test]
fn encrypt_then_decrypt_returns_the_plaintext() {
    let key = EncryptKey::from_seed_bytes(b"seed material", KeySize::Bit192);
    let plain = b"This text should be hidden".to_vec();
    let enc = key.encrypt(plain.as_slice());
    assert_ne!(enc.data, plain);
    let back = key.decrypt(&enc.iv, enc.data.as_slice());
    assert_eq!(back, plain);
}

#[test]
fn decrypt_with_another_key_garbles() {
    let key = EncryptKey::from_seed_bytes(b"alpha", KeySize::Bit192);
    let other = EncryptKey::from_seed_bytes(b"beta", KeySize::Bit192);
    let plain = b"payload".to_vec();
    let enc = key.encrypt(plain.as_slice());
    let wrong = other.decrypt(&enc.iv, enc.data.as_slice());
    assert_ne!(wrong, plain);
}

#[test]
fn key_derivation_is_deterministic() {
    let a = EncryptKey::from_seed_bytes(b"same seed", KeySize::Bit256);
    let b = EncryptKey::from_seed_bytes(b"same seed", KeySize::Bit256);
    assert_eq!(a, b);
    assert_eq!(a.hash(), b.hash());
    let c = EncryptKey::from_seed_bytes(b"other seed", KeySize::Bit256);
    assert_ne!(a.hash(), c.hash());
}

#[test]
fn double_hash_separates_the_halves() {
    let ab = AteHash::from_bytes_twice(b"ab", b"c");
    let ab2 = AteHash::from_bytes_twice(b"ab", b"c");
    let a_bc = AteHash::from_bytes_twice(b"a", b"bc");
    assert_eq!(ab, ab2);
    assert_ne!(ab, a_bc);
}

#[test]
fn sign_and_verify_round_trip() {
    let pair = PrivateSignKey::generate(KeySize::Bit192);
    let digest = AteHash::from_bytes(b"some header bytes");
    let sig = pair.sign(&digest);
    assert!(pair.as_public_key().verify(&digest, &sig));
    let other = AteHash::from_bytes(b"other header bytes");
    assert!(!pair.as_public_key().verify(&other, &sig));
}

#[test]
fn encrypted_private_key_round_trip() {
    let ek = EncryptKey::from_seed_bytes(b"vault", KeySize::Bit256);
    let pair = PrivateSignKey::generate(KeySize::Bit256);
    let stored = EncryptedPrivateKey::from_pair(&pair, &ek);
    assert_eq!(*stored.as_public_key(), pair.pk);
    assert_eq!(stored.pk_hash(), pair.pk.hash());
    let back = stored.as_private_key(&ek);
    assert_eq!(back.sk, pair.sk);
    assert_eq!(back.pk, pair.pk);
    // A generated record decrypts to a pair matching its public half.
    let fresh = EncryptedPrivateKey::generate(&ek);
    let fresh_pair = fresh.as_private_key(&ek);
    assert_eq!(fresh_pair.pk, *fresh.as_public_key());
    let d = stored.double_hash();
    let d2 = stored.double_hash();
    assert_eq!(d.to_hash(), d2.to_hash());
}

#[test]
fn big_endian_codecs_are_exact() {
    assert_eq!(codec::u16_to_be(0x1234), vec![0x12u8, 0x34u8]);
    assert_eq!(codec::u16_from_be(0x12, 0x34), 0x1234u16);
    assert_eq!(codec::u32_to_be(0x01020304), vec![1u8, 2u8, 3u8, 4u8]);
    assert_eq!(codec::u32_from_be(1, 2, 3, 4), 0x01020304u32);
    let b = codec::u64_to_be(0x0102030405060708);
    assert_eq!(b, vec![1u8, 2u8, 3u8, 4u8, 5u8, 6u8, 7u8, 8u8]);
    assert_eq!(codec::u64_from_be(&b), 0x0102030405060708u64);
}

#[test]
fn log_frame_round_trip() {
    let header = vec![10u8, 11u8, 12u8];
    let payload = vec![1u8, 2u8, 3u8, 4u8, 5u8];
    let frame = codec::encode_frame(&header, &payload);
    assert_eq!(frame.len(), 8 + header.len() + payload.len());
    // len32_be then header_len32_be lead the frame.
    assert_eq!(&frame[0..4], &[0u8, 0u8, 0u8, 8u8]);
    assert_eq!(&frame[4..8], &[0u8, 0u8, 0u8, 3u8]);
    let (h, p, next) = codec::decode_frame(&frame, 0).unwrap();
    assert_eq!(h, header);
    assert_eq!(p, payload);
    assert_eq!(next, frame.len());
}

#[test]
fn iv_bytes_are_the_nonce_big_endian() {
    let iv = InitializationVector::from_nonce(0x0102030405060708);
    assert_eq!(iv.bytes(), vec![1u8, 2u8, 3u8, 4u8, 5u8, 6u8, 7u8, 8u8]);
}
