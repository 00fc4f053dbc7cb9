//! Key agreement between the service and the tallying authority.

use crate::errors::KeyAgreementError;
use vstd::prelude::*;

verus! {

/// Length in bytes of an X25519 public key.
pub const AGREEMENT_PUBLIC_KEY_LEN: usize = 32;

/// Length in bytes of an X25519 shared secret.
pub const SHARED_SECRET_LEN: usize = 32;

#[verifier::external_type_specification]
#[verifier::external_body]
pub struct ExEphemeralPrivateKey(ring::agreement::EphemeralPrivateKey);

/// RFC 7748 X25519 agreement accepts the peer public key `peer`: its result is
/// not the all-zero value, which comes exactly from points of small order.
pub uninterp spec fn x25519_peer_accepted(peer: Seq<u8>) -> bool;

/// An X25519 private key, usable for one key agreement. Only
/// [`generate_key_pair`] makes one.
pub struct X25519PrivateKey {
    key: ring::agreement::EphemeralPrivateKey,
}

/// Relies on ring's `rand::SystemRandom` and `agreement::EphemeralPrivateKey::generate`
/// with `X25519`: a fresh private key from the system's secure random source.
#[verifier::external_body]
fn generate_private_key() -> (r: Result<X25519PrivateKey, ring::error::Unspecified>) {
    let rng = ring::rand::SystemRandom::new();
    let key = ring::agreement::EphemeralPrivateKey::generate(&ring::agreement::X25519, &rng)?;
    Ok(X25519PrivateKey { key })
}

/// Relies on ring's `EphemeralPrivateKey::compute_public_key`: for an X25519 key
/// it always succeeds and gives 32 bytes.
#[verifier::external_body]
fn compute_public_key(secret: &X25519PrivateKey) -> (r: Result<Vec<u8>, ring::error::Unspecified>)
    ensures
        r is Ok,
        r matches Ok(p) ==> p@.len() == AGREEMENT_PUBLIC_KEY_LEN,
{
    secret.key.compute_public_key().map(|p| p.as_ref().to_vec())
}

/// Relies on ring's `agreement::agree_ephemeral` with `X25519`: it consumes the
/// private key, succeeds exactly when the peer key has 32 bytes and is accepted,
/// and hands out a shared secret of 32 bytes.
#[verifier::external_body]
fn agree(secret: X25519PrivateKey, peer_public: &[u8]) -> (r: Result<Vec<u8>, ring::error::Unspecified>)
    ensures
        r is Ok <==> (peer_public@.len() == AGREEMENT_PUBLIC_KEY_LEN && x25519_peer_accepted(peer_public@)),
        r matches Ok(s) ==> s@.len() == SHARED_SECRET_LEN,
{
    let peer = ring::agreement::UnparsedPublicKey::new(&ring::agreement::X25519, peer_public);
    ring::agreement::agree_ephemeral(secret.key, &peer, |s: &[u8]| s.to_vec())
}

/// An ephemeral key pair: the private key, usable for one agreement, and its
/// public key.
pub struct KeyPair {
    /// The private key; the agreement consumes it.
    pub secret: X25519PrivateKey,
    /// The public key.
    pub public: Vec<u8>,
}

/// The service's side of the key agreement: the public key it publishes and
/// the shared secret that keys the transport cipher.
#[derive(Debug)]
pub struct EphemeralKeys {
    /// Public key of the service's ephemeral key pair, for the authority.
    pub public_out_key: Vec<u8>,
    /// Shared secret agreed with the authority.
    pub ephemeral_key: Vec<u8>,
}

impl Clone for EphemeralKeys {
    fn clone(&self) -> (r: EphemeralKeys)
        ensures
            r.public_out_key@ == self.public_out_key@,
            r.ephemeral_key@ == self.ephemeral_key@,
    {
        let public_out_key = self.public_out_key.clone();
        let ephemeral_key = self.ephemeral_key.clone();
        assert(public_out_key@ =~= self.public_out_key@);
        assert(ephemeral_key@ =~= self.ephemeral_key@);
        EphemeralKeys { public_out_key, ephemeral_key }
    }
}

/// Generates a fresh X25519 key pair from the system's secure random source.
pub fn generate_key_pair() -> (r: Result<KeyPair, KeyAgreementError>)
    ensures
        r matches Ok(kp) ==> kp.public@.len() == AGREEMENT_PUBLIC_KEY_LEN,
        r matches Err(e) ==> e == KeyAgreementError::KeyGeneration,
{
    let private_key = match generate_private_key() {
        Ok(k) => k,
        Err(_) => {
            return Err(KeyAgreementError::KeyGeneration);
        },
    };
    let public_key = match compute_public_key(&private_key) {
        Ok(p) => p,
        Err(_) => vstd::pervasive::unreached(),
    };
    Ok(KeyPair { secret: private_key, public: public_key })
}

/// Agrees on a shared secret with the holder of `peer_public`, consuming
/// `secret_key`: the public key to publish and the shared secret.
pub fn generate_ephemeral(peer_public: &[u8], secret_key: X25519PrivateKey) -> (r: Result<EphemeralKeys, KeyAgreementError>)
    ensures
        r is Ok <==> (peer_public@.len() == AGREEMENT_PUBLIC_KEY_LEN && x25519_peer_accepted(peer_public@)),
        r matches Ok(k) ==> k.public_out_key@.len() == AGREEMENT_PUBLIC_KEY_LEN
            && k.ephemeral_key@.len() == SHARED_SECRET_LEN,
        r matches Err(e) ==> e == KeyAgreementError::Agreement,
{
    let public_key = match compute_public_key(&secret_key) {
        Ok(p) => p,
        Err(_) => vstd::pervasive::unreached(),
    };
    match agree(secret_key, peer_public) {
        Ok(shared) => Ok(EphemeralKeys { public_out_key: public_key, ephemeral_key: shared }),
        Err(_) => Err(KeyAgreementError::Agreement),
    }
}

/// The process-wide key slot: empty until the one key agreement of the
/// service's start-up, then holding its keys for the life of the process.
pub struct KeyState {
    keys: Option<EphemeralKeys>,
}

impl KeyState {
    /// The keys held: the public key to publish and the shared secret.
    pub closed spec fn keys(&self) -> Option<(Seq<u8>, Seq<u8>)> {
        match self.keys {
            Some(k) => Some((k.public_out_key@, k.ephemeral_key@)),
            None => None,
        }
    }

    #[verifier::type_invariant]
    closed spec fn inv(&self) -> bool {
        self.keys matches Some(k) ==> k.public_out_key@.len() == AGREEMENT_PUBLIC_KEY_LEN
            && k.ephemeral_key@.len() == SHARED_SECRET_LEN
    }

    /// An empty slot.
    pub fn new() -> (r: KeyState)
        ensures
            r.keys() is None,
    {
        KeyState { keys: None }
    }
}

/// Fills the empty slot `state` from a fresh key pair and one agreement with
/// the authority's public key `peer_public`.
pub fn init_ephemeral(state: &mut KeyState, peer_public: &[u8]) -> (r: Result<(), KeyAgreementError>)
    ensures
        old(state).keys() is Some ==> r == Err::<(), KeyAgreementError>(
            KeyAgreementError::AlreadyInitialized,
        ),
        old(state).keys() is None && peer_public@.len() != AGREEMENT_PUBLIC_KEY_LEN ==> r is Err,
        r is Ok ==> (final(state).keys() matches Some(k) && k.0.len() == AGREEMENT_PUBLIC_KEY_LEN
            && k.1.len() == SHARED_SECRET_LEN),
        r is Err ==> final(state).keys() == old(state).keys(),
        old(state).keys() is None ==> (r matches Err(e) ==> e == KeyAgreementError::KeyGeneration
            || (e == KeyAgreementError::Agreement && !(peer_public@.len()
            == AGREEMENT_PUBLIC_KEY_LEN && x25519_peer_accepted(peer_public@)))),
        r is Ok ==> peer_public@.len() == AGREEMENT_PUBLIC_KEY_LEN && x25519_peer_accepted(
            peer_public@,
        ),
        old(state).keys() is None && peer_public@.len() == AGREEMENT_PUBLIC_KEY_LEN
            && x25519_peer_accepted(peer_public@) ==> (r is Ok || r == Err::<(), KeyAgreementError>(
            KeyAgreementError::KeyGeneration,
        )),
{
    if state.keys.is_some() {
        return Err(KeyAgreementError::AlreadyInitialized);
    }
    let key_pair = match generate_key_pair() {
        Ok(kp) => kp,
        Err(e) => {
            return Err(e);
        },
    };
    match generate_ephemeral(peer_public, key_pair.secret) {
        Ok(ephemeral) => {
            state.keys = Some(ephemeral);
            Ok(())
        },
        Err(e) => Err(e),
    }
}

/// The keys of `state`; `None` before initialization.
pub fn get_ephemeral(state: &KeyState) -> (r: Option<EphemeralKeys>)
    ensures
        r is None <==> state.keys() is None,
        r matches Some(k) ==> state.keys() == Some((k.public_out_key@, k.ephemeral_key@)),
        r matches Some(k) ==> k.public_out_key@.len() == AGREEMENT_PUBLIC_KEY_LEN
            && k.ephemeral_key@.len() == SHARED_SECRET_LEN,
{
    proof {
        use_type_invariant(state);
    }
    match &state.keys {
        Some(k) => Some(k.clone()),
        None => None,
    }
}

} // verus!
