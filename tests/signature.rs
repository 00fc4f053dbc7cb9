use ring::signature::KeyPair;
use vote_service::schema::PublicKey;
use vote_service::transactions::{TxAddVote, TxCreateCandidate, TxCreateVoter, VoteTransactions};

fn hex(s: &str) -> Vec<u8> {
    (0..s.len()).step_by(2).map(|i| u8::from_str_radix(&s[i..i + 2], 16).unwrap()).collect()
}

fn signer() -> ring::signature::Ed25519KeyPair {
    let rng = ring::rand::SystemRandom::new();
    let pkcs8 = ring::signature::Ed25519KeyPair::generate_pkcs8(&rng).unwrap();
    ring::signature::Ed25519KeyPair::from_pkcs8(pkcs8.as_ref()).unwrap()
}

#[test]
fn rfc8032_first_vector_verifies() {
    let pk = PublicKey::from_slice(&hex(
        "d75a980182b10ab7d54bfed3c964073a0ee172f3daa62325af021a68f707511a",
    ))
    .unwrap();
    let sig = hex(
        "e5564300c360ac729086e2cc806e828a84877f1eb8e5d974d873e065224901555fb8821590a33bacc61e39701cf9b46bd25bf5f0595bbe24655141438e7a100b",
    );
    let tx = TxCreateVoter::new(&pk, "Bob".to_string());
    assert!(tx.verify(&[], &sig));
    assert!(!tx.verify(&[0u8], &sig));
}

#[test]
fn registration_signed_by_its_identity() {
    let kp = signer();
    let pk = PublicKey::from_slice(kp.public_key().as_ref()).unwrap();
    let msg = b"register Alice";
    let sig = kp.sign(msg);
    let tx = TxCreateCandidate::new(&pk, "Alice".to_string(), "x".to_string());
    assert!(tx.verify(msg, sig.as_ref()));
    assert!(!tx.verify(b"register Mallory", sig.as_ref()));
    let mut bad = sig.as_ref().to_vec();
    bad[0] ^= 1;
    assert!(!tx.verify(msg, &bad));
    assert!(!tx.verify(msg, &sig.as_ref()[..63]));
    let op = VoteTransactions::TxCreateCandidate(tx);
    assert!(op.verify(msg, sig.as_ref()));
}

#[test]
fn vote_signed_by_voter() {
    let voter = signer();
    let other = signer();
    let voter_key = PublicKey::from_slice(voter.public_key().as_ref()).unwrap();
    let other_key = PublicKey::from_slice(other.public_key().as_ref()).unwrap();
    let msg = b"vote";
    let tx = TxAddVote::new(&other_key, &voter_key, &PublicKey::new([1u8; 32]));
    assert!(tx.verify(msg, voter.sign(msg).as_ref()));
    assert!(!tx.verify(msg, other.sign(msg).as_ref()));
    let op = VoteTransactions::TxAddVote(tx);
    assert!(op.verify(msg, voter.sign(msg).as_ref()));
}
