//! Authenticated encryption of ballots under the shared transport key.

use crate::agreement::EphemeralKeys;
use crate::errors::CipherError;
use crate::schema::{lemma_vote_bytes_injective, vote_bytes, EncryptedVote, Vote, VOTE_LENGTH};
use vstd::prelude::*;

verus! {

/// Length in bytes of the cipher's key.
pub const KEY_LEN: usize = 32;

/// Length in bytes of the authentication tag appended to each ciphertext.
pub const TAGLEN: usize = 16;

/// Length in bytes of a nonce.
pub const NONCE_LEN: usize = 12;

/// Longest plaintext that the cipher seals, in bytes.
pub const MAX_INPUT_LEN: u64 = 274877906880;

#[verifier::external_type_specification]
#[verifier::external_body]
pub struct ExUnspecified(ring::error::Unspecified);

/// ChaCha20-Poly1305 (RFC 8439) sealing of `plaintext` with associated data
/// `aad`: the ciphertext followed by the tag.
pub uninterp spec fn chacha20_poly1305_seal(
    key: Seq<u8>,
    nonce: Seq<u8>,
    aad: Seq<u8>,
    plaintext: Seq<u8>,
) -> Seq<u8>;

/// `plaintext` can be sealed under `key` and gives `ciphertext`.
pub open spec fn seals_to(
    key: Seq<u8>,
    nonce: Seq<u8>,
    aad: Seq<u8>,
    plaintext: Seq<u8>,
    ciphertext: Seq<u8>,
) -> bool {
    &&& key.len() == KEY_LEN
    &&& plaintext.len() <= MAX_INPUT_LEN
    &&& chacha20_poly1305_seal(key, nonce, aad, plaintext) == ciphertext
}

/// Whatever plaintext seals to `ciphertext`, opening gave exactly that plaintext.
pub open spec fn opens_every_sealing(
    key: Seq<u8>,
    nonce: Seq<u8>,
    aad: Seq<u8>,
    ciphertext: Seq<u8>,
    r: Result<Vec<u8>, ring::error::Unspecified>,
) -> bool {
    forall|p: Seq<u8>| #[trigger]
        seals_to(key, nonce, aad, p, ciphertext) ==> (r matches Ok(q) && q@ == p)
}

/// The eight bytes of `n`, least significant first.
pub open spec fn le_bytes(n: u64) -> Seq<u8> {
    seq![
        n as u8,
        (n >> 8u64) as u8,
        (n >> 16u64) as u8,
        (n >> 24u64) as u8,
        (n >> 32u64) as u8,
        (n >> 40u64) as u8,
        (n >> 48u64) as u8,
        (n >> 56u64) as u8,
    ]
}

/// The nonce for sequence number `n`: four zero bytes, then `n` little-endian.
pub open spec fn nonce_bytes(n: u64) -> Seq<u8> {
    seq![0u8, 0u8, 0u8, 0u8] + le_bytes(n)
}

/// Sealing of `plaintext` under `key` with sequence number `n`.
pub open spec fn sealed(key: Seq<u8>, n: u64, aad: Seq<u8>, plaintext: Seq<u8>) -> Seq<u8> {
    chacha20_poly1305_seal(key, nonce_bytes(n), aad, plaintext)
}

/// Relies on byteorder's `LittleEndian::write_u64`: writes `n` least significant byte first.
#[verifier::external_body]
fn le_bytes_of(n: u64) -> (r: [u8; 8])
    ensures
        r@ == le_bytes(n),
{
    let mut buf = [0u8; 8];
    <byteorder::LittleEndian as byteorder::ByteOrder>::write_u64(&mut buf, n);
    buf
}

/// Relies on ring's `aead::UnboundKey::new` with `CHACHA20_POLY1305`, which
/// fails unless the key has 32 bytes, and `LessSafeKey::seal_in_place_append_tag`,
/// which fails only on inputs longer than `MAX_INPUT_LEN` and appends the tag.
#[verifier::external_body]
fn chacha_seal(key: &[u8], nonce: [u8; 12], aad: &[u8], plaintext: &[u8]) -> (r: Result<Vec<u8>, ring::error::Unspecified>)
    ensures
        r is Ok <==> (key@.len() == KEY_LEN && plaintext@.len() <= MAX_INPUT_LEN),
        r matches Ok(c) ==> c@ == chacha20_poly1305_seal(key@, nonce@, aad@, plaintext@),
        r matches Ok(c) ==> c@.len() == plaintext@.len() + TAGLEN,
{
    let key = ring::aead::UnboundKey::new(&ring::aead::CHACHA20_POLY1305, key)?;
    let key = ring::aead::LessSafeKey::new(key);
    let mut in_out = plaintext.to_vec();
    let nonce = ring::aead::Nonce::assume_unique_for_key(nonce);
    key.seal_in_place_append_tag(nonce, ring::aead::Aad::from(aad), &mut in_out)?;
    Ok(in_out)
}

/// Relies on ring's `aead::UnboundKey::new` with `CHACHA20_POLY1305` and
/// `LessSafeKey::open_in_place`: it returns the plaintext exactly when the tag
/// of `ciphertext` verifies, that is when sealing that plaintext gives `ciphertext`;
/// like sealing, it refuses inputs longer than `MAX_INPUT_LEN`. The plaintext is
/// the ciphertext without its tag, and an input shorter than a tag is refused.
#[verifier::external_body]
fn chacha_open(key: &[u8], nonce: [u8; 12], aad: &[u8], ciphertext: &[u8]) -> (r: Result<Vec<u8>, ring::error::Unspecified>)
    ensures
        key@.len() != KEY_LEN ==> r is Err,
        r matches Ok(p) ==> seals_to(key@, nonce@, aad@, p@, ciphertext@),
        r matches Ok(p) ==> p@.len() + TAGLEN == ciphertext@.len(),
        ciphertext@.len() < TAGLEN ==> r is Err,
        opens_every_sealing(key@, nonce@, aad@, ciphertext@, r),
{
    let key = ring::aead::UnboundKey::new(&ring::aead::CHACHA20_POLY1305, key)?;
    let key = ring::aead::LessSafeKey::new(key);
    let mut in_out = ciphertext.to_vec();
    let nonce = ring::aead::Nonce::assume_unique_for_key(nonce);
    let plaintext = key.open_in_place(nonce, ring::aead::Aad::from(aad), &mut in_out)?;
    Ok(plaintext.to_vec())
}

/// A vector holding the bytes of `s`.
pub fn copy_bytes(s: &[u8]) -> (r: Vec<u8>)
    ensures
        r@ == s@,
{
    let mut r: Vec<u8> = Vec::new();
    let mut i: usize = 0;
    while i < s.len()
        invariant
            i <= s@.len(),
            r@ == s@.subrange(0, i as int),
        decreases s@.len() - i,
    {
        r.push(s[i]);
        i = i + 1;
    }
    assert(s@.subrange(0, s@.len() as int) =~= s@);
    r
}

/// The nonce for sequence number `n`.
pub fn nonce_from_sequence(n: u64) -> (r: [u8; 12])
    ensures
        r@ == nonce_bytes(n),
{
    let le = le_bytes_of(n);
    let mut nonce = [0u8; 12];
    let mut i: usize = 0;
    while i < 8
        invariant
            i <= 8,
            le@ == le_bytes(n),
            nonce@.len() == NONCE_LEN,
            forall|j: int| 0 <= j < 4 ==> nonce@[j] == 0,
            forall|j: int| 0 <= j < i ==> nonce@[j + 4] == le@[j],
        decreases 8 - i,
    {
        nonce[i + 4] = le[i];
        i = i + 1;
    }
    assert(nonce@ =~= nonce_bytes(n));
    nonce
}

/// What the transport cipher's `encrypt` may return under `key`.
pub open spec fn encrypt_outcome(
    key: Seq<u8>,
    nonce: u64,
    aad: Seq<u8>,
    plaintext: Seq<u8>,
    r: Result<Vec<u8>, CipherError>,
) -> bool {
    match r {
        Ok(c) => {
            &&& key.len() == KEY_LEN
            &&& plaintext.len() <= MAX_INPUT_LEN
            &&& c@ == sealed(key, nonce, aad, plaintext)
            &&& c@.len() == plaintext.len() + TAGLEN
        },
        Err(e) => if key.len() != KEY_LEN {
            e == CipherError::InvalidKey
        } else {
            e == CipherError::InputTooLong && plaintext.len() > MAX_INPUT_LEN
        },
    }
}

/// What the transport cipher's `decrypt` may return under `key`: the one
/// plaintext that seals to `ciphertext`, or an error when there is none.
pub open spec fn decrypt_outcome(
    key: Seq<u8>,
    nonce: u64,
    aad: Seq<u8>,
    ciphertext: Seq<u8>,
    r: Result<Vec<u8>, CipherError>,
) -> bool {
    &&& forall|p: Seq<u8>| #[trigger]
        seals_to(key, nonce_bytes(nonce), aad, p, ciphertext) ==> (r matches Ok(q) && q@ == p)
    &&& ciphertext.len() < TAGLEN ==> r is Err
    &&& match r {
        Ok(p) => seals_to(key, nonce_bytes(nonce), aad, p@, ciphertext) && p@.len() + TAGLEN
            == ciphertext.len(),
        Err(e) => if key.len() != KEY_LEN {
            e == CipherError::InvalidKey
        } else {
            e == CipherError::AuthenticationFailure
        },
    }
}

/// A symmetric authenticated cipher with sequence-numbered nonces.
pub trait Cipher {
    /// The key currently set.
    spec fn key(&self) -> Seq<u8>;

    /// Name of the primitive.
    fn name(&self) -> &'static str;

    /// Sets the key.
    fn set(&mut self, key: &[u8])
        ensures
            final(self).key() == key@,
    ;

    /// Seals `plaintext` with associated data `authtext` under sequence number
    /// `nonce`: the ciphertext followed by the tag.
    fn encrypt(&self, nonce: u64, authtext: &[u8], plaintext: &[u8]) -> (r: Result<
        Vec<u8>,
        CipherError,
    >)
        ensures
            encrypt_outcome(self.key(), nonce, authtext@, plaintext@, r),
    ;

    /// Opens `ciphertext`, or fails if its tag does not verify.
    fn decrypt(&self, nonce: u64, authtext: &[u8], ciphertext: &[u8]) -> (r: Result<
        Vec<u8>,
        CipherError,
    >)
        ensures
            decrypt_outcome(self.key(), nonce, authtext@, ciphertext@, r),
    ;
}

/// ChaCha20-Poly1305 under a key of 32 bytes.
#[derive(Debug)]
pub struct CipherChaChaPoly {
    key: Vec<u8>,
}

impl Default for CipherChaChaPoly {
    fn default() -> (r: CipherChaChaPoly)
        ensures
            r.key() == Seq::new(32, |i: int| 0u8),
    {
        let key = vec![0u8; 32];
        assert(key@ =~= Seq::new(32, |i: int| 0u8));
        CipherChaChaPoly { key }
    }
}

impl Cipher for CipherChaChaPoly {
    closed spec fn key(&self) -> Seq<u8> {
        self.key@
    }

    fn name(&self) -> &'static str {
        "ChaChaPoly"
    }

    fn set(&mut self, key: &[u8]) {
        self.key = copy_bytes(key);
    }

    fn encrypt(&self, nonce: u64, authtext: &[u8], plaintext: &[u8]) -> (r: Result<
        Vec<u8>,
        CipherError,
    >) {
        let nonce_bytes = nonce_from_sequence(nonce);
        match chacha_seal(self.key.as_slice(), nonce_bytes, authtext, plaintext) {
            Ok(c) => Ok(c),
            Err(_) => {
                if self.key.len() != KEY_LEN {
                    Err(CipherError::InvalidKey)
                } else {
                    Err(CipherError::InputTooLong)
                }
            },
        }
    }

    fn decrypt(&self, nonce: u64, authtext: &[u8], ciphertext: &[u8]) -> (r: Result<
        Vec<u8>,
        CipherError,
    >) {
        let nonce_bytes = nonce_from_sequence(nonce);
        match chacha_open(self.key.as_slice(), nonce_bytes, authtext, ciphertext) {
            Ok(p) => Ok(p),
            Err(_) => {
                if self.key.len() != KEY_LEN {
                    Err(CipherError::InvalidKey)
                } else {
                    Err(CipherError::AuthenticationFailure)
                }
            },
        }
    }
}

/// The sealed form of ballot `v` under `key`: sequence number 0 and no
/// associated data, as every ballot is sealed.
///
/// Every ballot is thus sealed under the same key with the same nonce. The
/// ballots stay authenticated, but ChaCha20-Poly1305 gives no confidentiality
/// between two messages sealed under one key and nonce: the XOR of two sealed
/// ballots is the XOR of their plaintexts, and the authenticator key repeats.
/// The scheme is kept as it is so that ballots stay readable by the authority,
/// which re-derives the same key and uses the same nonce.
pub open spec fn seal_vote(key: Seq<u8>, v: Vote) -> Seq<u8> {
    sealed(key, 0, Seq::empty(), vote_bytes(v.from@, v.to@))
}

/// What unsealing the ballot `ciphertext` under `key` may return: the one
/// ballot that seals to it, or the reason that there is none.
pub open spec fn unseal_outcome(key: Seq<u8>, ciphertext: Seq<u8>, r: Result<Vote, CipherError>) -> bool {
    &&& forall|v: Vote|
        key.len() == KEY_LEN && #[trigger] seal_vote(key, v) == ciphertext ==> (r matches Ok(w)
            && w@ == v@)
    &&& match r {
        Ok(v) => key.len() == KEY_LEN && seal_vote(key, v) == ciphertext,
        Err(CipherError::InvalidKey) => key.len() != KEY_LEN,
        Err(CipherError::AuthenticationFailure) => {
            &&& key.len() == KEY_LEN
            &&& forall|p: Seq<u8>| !#[trigger] seals_to(key, nonce_bytes(0), Seq::empty(), p, ciphertext)
        },
        Err(CipherError::MalformedBallot) => {
            &&& key.len() == KEY_LEN
            &&& exists|p: Seq<u8>|
                #[trigger] seals_to(key, nonce_bytes(0), Seq::empty(), p, ciphertext) && p.len()
                    != VOTE_LENGTH
        },
        Err(CipherError::InputTooLong) => false,
    }
}

/// Seals a ballot under the shared key of `keys`, with sequence number 0 as
/// every ballot (see [`seal_vote`] on the reuse of the nonce).
pub fn encrypt_vote(vote: &Vote, keys: &EphemeralKeys) -> (r: Result<EncryptedVote, CipherError>)
    ensures
        r is Ok <==> keys.ephemeral_key@.len() == KEY_LEN,
        r matches Ok(e) ==> e@ == seal_vote(keys.ephemeral_key@, *vote),
        r matches Ok(e) ==> e@.len() == VOTE_LENGTH + TAGLEN,
        r matches Err(e) ==> e == CipherError::InvalidKey,
{
    let mut enc = CipherChaChaPoly::default();
    enc.set(keys.ephemeral_key.as_slice());
    let raw = vote.into_bytes();
    let aad: Vec<u8> = Vec::new();
    assert(aad@ =~= Seq::empty());
    match enc.encrypt(0, aad.as_slice(), raw.as_slice()) {
        Ok(c) => Ok(EncryptedVote::new(c)),
        Err(e) => Err(e),
    }
}

/// Unseals a ballot with the shared key of `keys`.
pub fn decrypt_vote(vote: &EncryptedVote, keys: &EphemeralKeys) -> (r: Result<Vote, CipherError>)
    ensures
        unseal_outcome(keys.ephemeral_key@, vote@, r),
{
    let ghost key = keys.ephemeral_key@;
    let mut dec = CipherChaChaPoly::default();
    dec.set(keys.ephemeral_key.as_slice());
    let aad: Vec<u8> = Vec::new();
    assert(aad@ =~= Seq::empty());
    let opened = dec.decrypt(0, aad.as_slice(), vote.data.as_slice());
    let r = match opened {
        Ok(p) => match Vote::from_bytes(p.as_slice()) {
            Some(v) => Ok(v),
            None => Err(CipherError::MalformedBallot),
        },
        Err(e) => Err(e),
    };
    proof {
        assert forall|v: Vote|
            key.len() == KEY_LEN && #[trigger] seal_vote(key, v) == vote@ implies (r matches Ok(w)
                && w@ == v@) by {
            assert(seals_to(key, nonce_bytes(0), Seq::empty(), vote_bytes(v.from@, v.to@), vote@));
            if let Ok(w) = r {
                lemma_vote_bytes_injective(w, v);
            }
        }
    }
    r
}

/// Unsealing a ballot sealed under a key of the cipher's length gives the ballot back.
pub proof fn lemma_unseal_sealed_vote(key: Seq<u8>, vote: Vote)
    requires
        key.len() == KEY_LEN,
    ensures
        forall|r: Result<Vote, CipherError>| #[trigger]
            unseal_outcome(key, seal_vote(key, vote), r) ==> (r matches Ok(w) && w@ == vote@),
{
}

} // verus!
