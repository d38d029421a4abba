use file_transfer::crypto::{
    auth_tag, create_key, decrypt_core, decrypt_large_file, encrypt_core, encrypt_large_file, nonce,
    seal_chunk, simple_split_encrypted, CryptoError,
};

fn decrypt(data: &[u8], password: &str) -> Result<Vec<u8>, CryptoError> {
    let mut out = Vec::new();
    decrypt_large_file(data, password, &mut out).map(|()| out)
}

fn sample(len: usize) -> Vec<u8> {
    (0..len).map(|i| (i * 7 + 3) as u8).collect()
}

#[test]
fn nonce_and_auth_tag_have_their_sizes() {
    assert_eq!(nonce().len(), 24);
    assert_eq!(auth_tag().len(), 32);
    assert_ne!(nonce(), nonce());
}

#[test]
fn split_separates_associated_data() {
    let data = sample(50);
    let (ad, rest) = simple_split_encrypted(&data);
    assert_eq!(ad, data[..32].to_vec());
    assert_eq!(rest, data[32..].to_vec());
}

#[test]
fn key_is_derived_deterministically() {
    let salt = [5u8; 24];
    let k1 = create_key("abc1234", &salt).unwrap();
    let k2 = create_key("abc1234", &salt).unwrap();
    let k3 = create_key("abc1235", &salt).unwrap();
    assert_eq!(k1.len(), 32);
    assert_eq!(k1, k2);
    assert_ne!(k1, k3);
    assert_ne!(k1[..7].to_vec(), b"abc1234".to_vec());
    assert_eq!(create_key("", &salt), Err(CryptoError::KeyDerivation));
    assert_eq!(create_key("abc1234", &[1u8; 7]), Err(CryptoError::KeyDerivation));
}

#[test]
fn chunk_seals_and_opens() {
    let key = [9u8; 32];
    let n = [4u8; 24];
    let ad = [1u8; 32];
    let plain = sample(100);
    let sealed = seal_chunk(&plain, &key, &n, &ad).unwrap();
    assert_eq!(sealed.len(), 148);
    assert_eq!(sealed[..32].to_vec(), ad.to_vec());
    assert_ne!(sealed[32..132].to_vec(), plain);
    assert_eq!(decrypt_core(&sealed, &key, &n), Ok(plain.clone()));
    let mut tampered = sealed.clone();
    tampered[40] ^= 1;
    assert_eq!(decrypt_core(&tampered, &key, &n), Err(CryptoError::Authentication));
    assert_eq!(seal_chunk(&plain, &key[..31], &n, &ad), Err(CryptoError::Sealing));
    assert_eq!(seal_chunk(&plain, &key, &n[..23], &ad), Err(CryptoError::Sealing));
}

#[test]
fn encrypt_core_uses_fresh_associated_data() {
    let key = [9u8; 32];
    let n = [4u8; 24];
    let plain = sample(128);
    let a = encrypt_core(&plain, &key, &n).unwrap();
    let b = encrypt_core(&plain, &key, &n).unwrap();
    assert_eq!(a.len(), 176);
    assert_ne!(a[..32].to_vec(), b[..32].to_vec());
    assert_eq!(decrypt_core(&a, &key, &n), Ok(plain.clone()));
    assert_eq!(decrypt_core(&b, &key, &n), Ok(plain));
}

#[test]
fn stored_file_roundtrips() {
    for len in [0usize, 1, 127, 128, 129, 256, 300] {
        let plain = sample(len);
        let stored = encrypt_large_file(&plain, "Xy7pQ2z").unwrap();
        let chunks = (len + 127) / 128;
        assert_eq!(stored.len(), 24 + 48 * chunks + len);
        assert_eq!(decrypt(&stored, "Xy7pQ2z"), Ok(plain));
    }
}

#[test]
fn stored_file_hides_contents() {
    let plain = vec![b'a'; 200];
    let stored = encrypt_large_file(&plain, "secret1").unwrap();
    assert_ne!(stored[24 + 32..24 + 32 + 128].to_vec(), plain[..128].to_vec());
}

#[test]
fn wrong_secret_is_refused() {
    let plain = sample(40);
    let stored = encrypt_large_file(&plain, "secret1").unwrap();
    assert_eq!(decrypt(&stored, "secret2"), Err(CryptoError::Authentication));
}

#[test]
fn empty_secret_cannot_encrypt() {
    assert_eq!(encrypt_large_file(&sample(10), ""), Err(CryptoError::KeyDerivation));
    assert_eq!(decrypt(&[0u8; 24], ""), Err(CryptoError::KeyDerivation));
}

#[test]
fn malformed_stored_files_are_refused() {
    assert_eq!(decrypt(&[0u8; 23], "secret1"), Err(CryptoError::Malformed));
    assert_eq!(decrypt(&[0u8; 24 + 47], "secret1"), Err(CryptoError::Malformed));
    assert_eq!(decrypt(&[0u8; 24 + 176 + 10], "secret1"), Err(CryptoError::Malformed));
    assert_eq!(decrypt(&[0u8; 24], "secret1"), Ok(vec![]));
}

#[test]
fn tampering_keeps_the_verified_prefix() {
    let plain = sample(300);
    let mut stored = encrypt_large_file(&plain, "secret1").unwrap();
    stored[24 + 176 + 40] ^= 1;
    let mut out = vec![9u8];
    assert_eq!(
        decrypt_large_file(&stored, "secret1", &mut out),
        Err(CryptoError::Authentication)
    );
    let mut expected = vec![9u8];
    expected.extend_from_slice(&plain[..128]);
    assert_eq!(out, expected);
}

#[test]
fn decryption_appends_to_what_is_there() {
    let plain = sample(20);
    let stored = encrypt_large_file(&plain, "secret1").unwrap();
    let mut out = vec![1u8, 2];
    assert_eq!(decrypt_large_file(&stored, "secret1", &mut out), Ok(()));
    assert_eq!(out[..2].to_vec(), vec![1u8, 2]);
    assert_eq!(out[2..].to_vec(), plain);
}

#[test]
fn tampered_stored_file_is_refused() {
    let plain = sample(300);
    let mut stored = encrypt_large_file(&plain, "secret1").unwrap();
    let last = stored.len() - 1;
    stored[last] ^= 0x80;
    assert_eq!(decrypt(&stored, "secret1"), Err(CryptoError::Authentication));
}
