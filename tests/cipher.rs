use vote_service::agreement::EphemeralKeys;
use vote_service::cipher::{
    copy_bytes, decrypt_vote, encrypt_vote, nonce_from_sequence, Cipher, CipherChaChaPoly,
};
use vote_service::errors::CipherError;
use vote_service::schema::{EncryptedVote, PublicKey, Vote};

fn keys_with(secret: Vec<u8>) -> EphemeralKeys {
    EphemeralKeys { public_out_key: vec![9u8; 32], ephemeral_key: secret }
}

fn ballot() -> Vote {
    Vote::new(&PublicKey::new([0xB; 32]), &PublicKey::new([0xA; 32]))
}

#[test]
fn nonce_is_zero_padded_little_endian() {
    assert_eq!(nonce_from_sequence(0), [0u8; 12]);
    assert_eq!(
        nonce_from_sequence(0x0102030405060708),
        [0, 0, 0, 0, 8, 7, 6, 5, 4, 3, 2, 1]
    );
}

#[test]
fn seal_then_unseal_gives_ballot_back() {
    let keys = keys_with((0u8..32).collect());
    let sealed = encrypt_vote(&ballot(), &keys).unwrap();
    assert_eq!(sealed.data.len(), 64 + 16);
    let raw = ballot().into_bytes();
    assert_ne!(&sealed.data[..64], &raw[..]);
    let opened = decrypt_vote(&sealed, &keys).unwrap();
    assert_eq!(opened, ballot());
}

#[test]
fn tampered_ballot_does_not_unseal() {
    let keys = keys_with((0u8..32).collect());
    let sealed = encrypt_vote(&ballot(), &keys).unwrap();
    for i in 0..sealed.data.len() {
        let mut data = sealed.data.clone();
        data[i] ^= 0x01;
        let r = decrypt_vote(&EncryptedVote::new(data), &keys);
        assert_eq!(r, Err(CipherError::AuthenticationFailure));
    }
}

#[test]
fn unseal_with_other_key_fails() {
    let keys = keys_with(vec![1u8; 32]);
    let sealed = encrypt_vote(&ballot(), &keys).unwrap();
    let other = keys_with(vec![2u8; 32]);
    assert_eq!(decrypt_vote(&sealed, &other), Err(CipherError::AuthenticationFailure));
}

#[test]
fn short_key_is_refused() {
    let keys = keys_with(vec![1u8; 16]);
    assert_eq!(encrypt_vote(&ballot(), &keys).unwrap_err(), CipherError::InvalidKey);
    let sealed = EncryptedVote::new(vec![0u8; 80]);
    assert_eq!(decrypt_vote(&sealed, &keys), Err(CipherError::InvalidKey));
}

#[test]
fn sealed_plaintext_of_wrong_length_is_malformed() {
    let key = vec![5u8; 32];
    let mut c = CipherChaChaPoly::default();
    c.set(&key);
    let sealed = c.encrypt(0, &[], &[1, 2, 3]).unwrap();
    let r = decrypt_vote(&EncryptedVote::new(sealed), &keys_with(key));
    assert_eq!(r, Err(CipherError::MalformedBallot));
}

#[test]
fn cipher_round_trip_with_associated_data() {
    let mut c = CipherChaChaPoly::default();
    assert_eq!(c.name(), "ChaChaPoly");
    c.set(&[7u8; 32]);
    let sealed = c.encrypt(5, b"header", b"hello").unwrap();
    assert_eq!(sealed.len(), 5 + 16);
    assert_ne!(&sealed[..5], b"hello");
    assert_eq!(c.decrypt(5, b"header", &sealed).unwrap(), b"hello".to_vec());
    assert_eq!(c.decrypt(6, b"header", &sealed), Err(CipherError::AuthenticationFailure));
    assert_eq!(c.decrypt(5, b"other", &sealed), Err(CipherError::AuthenticationFailure));
}

#[test]
fn default_cipher_has_zero_key() {
    let d = CipherChaChaPoly::default();
    let mut z = CipherChaChaPoly::default();
    z.set(&[0u8; 32]);
    let a = d.encrypt(0, &[], b"abc").unwrap();
    let b = z.encrypt(0, &[], b"abc").unwrap();
    assert_eq!(a, b);
}

#[test]
fn vote_encoding_round_trip() {
    let v = ballot();
    let bytes = v.into_bytes();
    assert_eq!(bytes.len(), 64);
    assert_eq!(&bytes[..32], &[0xB; 32]);
    assert_eq!(&bytes[32..], &[0xA; 32]);
    assert_eq!(Vote::from_bytes(&bytes), Some(v));
    assert_eq!(Vote::from_bytes(&bytes[..63]), None);
}

#[test]
fn public_key_from_slice() {
    assert_eq!(PublicKey::from_slice(&[3u8; 32]), Some(PublicKey::new([3u8; 32])));
    assert_eq!(PublicKey::from_slice(&[3u8; 33]), None);
    assert_eq!(PublicKey::new([4u8; 32]).to_vec(), vec![4u8; 32]);
    assert_eq!(copy_bytes(&[1, 2, 3]), vec![1, 2, 3]);
}

#[test]
fn ciphertext_shorter_than_tag_fails() {
    let mut c = CipherChaChaPoly::default();
    c.set(&[7u8; 32]);
    assert_eq!(c.decrypt(0, &[], &[1u8; 15]), Err(CipherError::AuthenticationFailure));
    let keys = keys_with(vec![7u8; 32]);
    assert_eq!(decrypt_vote(&EncryptedVote::new(vec![]), &keys), Err(CipherError::AuthenticationFailure));
    let sealed = c.encrypt(0, &[], &[]).unwrap();
    assert_eq!(sealed.len(), 16);
    assert_eq!(c.decrypt(0, &[], &sealed).unwrap(), Vec::<u8>::new());
}
