//! The three operations of the vote service.

use crate::schema::PublicKey;
use vstd::prelude::*;

verus! {

/// Ed25519 (RFC 8032) verdict on `signature` as a signature of `message` by
/// the holder of `public_key`.
pub uninterp spec fn ed25519_valid(public_key: Seq<u8>, message: Seq<u8>, signature: Seq<u8>) -> bool;

/// Relies on ring's `signature::UnparsedPublicKey::verify` with `ED25519`: the
/// verdict depends on its arguments alone, and a signature that does not have
/// 64 bytes is refused.
#[verifier::external_body]
fn ed25519_verify(public_key: &[u8], message: &[u8], signature: &[u8]) -> (r: bool)
    ensures
        r == ed25519_valid(public_key@, message@, signature@),
        signature@.len() != 64 ==> !r,
{
    let key = ring::signature::UnparsedPublicKey::new(&ring::signature::ED25519, public_key);
    key.verify(message, signature).is_ok()
}

/// Registers a candidate.
#[derive(Debug)]
pub struct TxCreateCandidate {
    /// Identity of the candidate; the operation is signed with it.
    pub pub_key: PublicKey,
    /// Display name of the candidate.
    pub name: String,
    /// Free-text information about the candidate.
    pub info: String,
}

impl TxCreateCandidate {
    /// The operation registering candidate `pub_key`.
    pub fn new(pub_key: &PublicKey, name: String, info: String) -> (r: TxCreateCandidate)
        ensures
            r.pub_key == *pub_key,
            r.name == name,
            r.info == info,
    {
        TxCreateCandidate { pub_key: *pub_key, name, info }
    }

    /// `signature` signs `message` with the candidate's key.
    pub fn verify(&self, message: &[u8], signature: &[u8]) -> (r: bool)
        ensures
            r == ed25519_valid(self.pub_key@, message@, signature@),
    {
        ed25519_verify(self.pub_key.bytes.as_slice(), message, signature)
    }
}

/// Registers a voter.
#[derive(Debug)]
pub struct TxCreateVoter {
    /// Identity of the voter; the operation is signed with it.
    pub pub_key: PublicKey,
    /// Display name of the voter.
    pub name: String,
}

impl TxCreateVoter {
    /// The operation registering voter `pub_key`.
    pub fn new(pub_key: &PublicKey, name: String) -> (r: TxCreateVoter)
        ensures
            r.pub_key == *pub_key,
            r.name == name,
    {
        TxCreateVoter { pub_key: *pub_key, name }
    }

    /// `signature` signs `message` with the voter's key.
    pub fn verify(&self, message: &[u8], signature: &[u8]) -> (r: bool)
        ensures
            r == ed25519_valid(self.pub_key@, message@, signature@),
    {
        ed25519_verify(self.pub_key.bytes.as_slice(), message, signature)
    }
}

/// Casts the vote of `voter_id` for `candidate_id`.
#[derive(Debug, Clone, Copy)]
pub struct TxAddVote {
    /// Key the operation is signed with.
    pub pub_key: PublicKey,
    /// Identity of the voter.
    pub voter_id: PublicKey,
    /// Identity of the candidate.
    pub candidate_id: PublicKey,
}

impl TxAddVote {
    /// The operation casting the vote of `voter_id` for `candidate_id`.
    pub fn new(pub_key: &PublicKey, voter_id: &PublicKey, candidate_id: &PublicKey) -> (r:
        TxAddVote)
        ensures
            r.pub_key == *pub_key,
            r.voter_id == *voter_id,
            r.candidate_id == *candidate_id,
    {
        TxAddVote { pub_key: *pub_key, voter_id: *voter_id, candidate_id: *candidate_id }
    }

    /// `signature` signs `message` with the voter's key.
    pub fn verify(&self, message: &[u8], signature: &[u8]) -> (r: bool)
        ensures
            r == ed25519_valid(self.voter_id@, message@, signature@),
    {
        ed25519_verify(self.voter_id.bytes.as_slice(), message, signature)
    }
}

/// Any operation of the vote service.
#[derive(Debug)]
pub enum VoteTransactions {
    /// Registers a candidate.
    TxCreateCandidate(TxCreateCandidate),
    /// Registers a voter.
    TxCreateVoter(TxCreateVoter),
    /// Casts a vote.
    TxAddVote(TxAddVote),
}

impl VoteTransactions {
    /// The identity whose signature the operation must carry.
    pub open spec fn signer(&self) -> Seq<u8> {
        match self {
            VoteTransactions::TxCreateCandidate(tx) => tx.pub_key@,
            VoteTransactions::TxCreateVoter(tx) => tx.pub_key@,
            VoteTransactions::TxAddVote(tx) => tx.voter_id@,
        }
    }

    /// `signature` signs `message` with the key of the operation's signer;
    /// checked before the operation touches the store.
    pub fn verify(&self, message: &[u8], signature: &[u8]) -> (r: bool)
        ensures
            r == ed25519_valid(self.signer(), message@, signature@),
    {
        match self {
            VoteTransactions::TxCreateCandidate(tx) => tx.verify(message, signature),
            VoteTransactions::TxCreateVoter(tx) => tx.verify(message, signature),
            VoteTransactions::TxAddVote(tx) => tx.verify(message, signature),
        }
    }
}

} // verus!
