//! Errors reported by the execution of vote service transactions.

use vstd::prelude::*;

verus! {

/// Error codes emitted by transactions during execution.
#[derive(Debug, Clone, Copy, PartialEq, Eq, Structural)]
pub enum Error {
    /// A candidate with this identity is already registered.
    CandidateAlreadyExists,
    /// A voter with this identity is already registered.
    VoterAlreadyExists,
    /// The voter has already cast a ballot.
    VoteAlreadyExists,
    /// The named candidate is not registered.
    CandidateNotFound,
    /// The tally record of a registered candidate is missing.
    CandidateResultNotFound,
    /// The named voter is not registered.
    VoterNotFound,
}

/// Numeric code under which an error is recorded against a transaction.
pub open spec fn error_code(e: Error) -> u8 {
    match e {
        Error::CandidateAlreadyExists => 0,
        Error::VoterAlreadyExists => 1,
        Error::VoteAlreadyExists => 2,
        Error::CandidateNotFound => 3,
        Error::CandidateResultNotFound => 4,
        Error::VoterNotFound => 5,
    }
}

/// Description recorded next to the code of an error.
pub open spec fn error_description(e: Error) -> Seq<char> {
    match e {
        Error::CandidateAlreadyExists => "Candidate already exists"@,
        Error::VoterAlreadyExists => "Voter already exists"@,
        Error::VoteAlreadyExists => "Vote already exists"@,
        Error::CandidateNotFound => "Candidate not found"@,
        Error::CandidateResultNotFound => "Candidate result not found"@,
        Error::VoterNotFound => "Voter not found"@,
    }
}

impl Error {
    /// Human-readable description recorded on the ledger next to the code.
    pub fn description(&self) -> (r: &'static str)
        ensures
            r@ == error_description(*self),
    {
        match self {
            Error::CandidateAlreadyExists => "Candidate already exists",
            Error::VoterAlreadyExists => "Voter already exists",
            Error::VoteAlreadyExists => "Vote already exists",
            Error::CandidateNotFound => "Candidate not found",
            Error::CandidateResultNotFound => "Candidate result not found",
            Error::VoterNotFound => "Voter not found",
        }
    }

    /// The numeric code recorded on the ledger for this error.
    pub fn code(&self) -> (r: u8)
        ensures
            r == error_code(*self),
    {
        match self {
            Error::CandidateAlreadyExists => 0,
            Error::VoterAlreadyExists => 1,
            Error::VoteAlreadyExists => 2,
            Error::CandidateNotFound => 3,
            Error::CandidateResultNotFound => 4,
            Error::VoterNotFound => 5,
        }
    }
}

/// Errors of the transport cipher.
#[derive(Debug, Clone, Copy, PartialEq, Eq, Structural)]
pub enum CipherError {
    /// The key does not have the cipher's key length.
    InvalidKey,
    /// The input is longer than the cipher can process.
    InputTooLong,
    /// The ciphertext failed authentication.
    AuthenticationFailure,
    /// The opened plaintext is not an encoded ballot.
    MalformedBallot,
}

/// Errors of the key agreement with the tallying authority.
#[derive(Debug, Clone, Copy, PartialEq, Eq, Structural)]
pub enum KeyAgreementError {
    /// No private key could be generated.
    KeyGeneration,
    /// The peer's public key was refused.
    Agreement,
    /// The key state was initialized already.
    AlreadyInitialized,
    /// The configuration names no authority public key.
    NoAuthorityKey,
}

} // verus!
