//! Confidential ballot casting: registered candidates and voters, ballots
//! sealed under a key agreed with the tallying authority, and per-candidate
//! tallies of sealed ballots that can be disclosed on demand.

pub mod agreement;
pub mod api;
pub mod cipher;
pub mod config;
pub mod contracts;
pub mod errors;
pub mod schema;
pub mod transactions;

use agreement::{get_ephemeral, init_ephemeral, x25519_peer_accepted, EphemeralKeys, KeyState};
use api::VoteServiceApi;
use config::VoteServiceConfig;
use contracts::{add_vote_outcome, create_candidate_outcome, create_voter_outcome};
use errors::{Error, KeyAgreementError};
use schema::{CandidateResult, DecryptedCandidateResult, VoteResult, VoteServiceSchema};
use transactions::VoteTransactions;
use vstd::prelude::*;

verus! {

/// Identifier of the vote service on the ledger.
pub const SERVICE_ID: u16 = 42;

/// Name under which the vote service is registered on the ledger.
pub fn service_name() -> (r: &'static str)
    ensures
        r@ == seq!['v', 'o', 't', 'e', 's', 'e', 'r', 'v', 'i', 'c', 'e'],
{
    let r = "voteservice";
    proof {
        reveal_strlit("voteservice");
    }
    r
}

/// The vote service: its configuration and the keys agreed with the
/// authority at start-up, which seal every ballot and open every tally.
pub struct VoteService {
    config: VoteServiceConfig,
    keys: KeyState,
}

impl VoteService {
    #[verifier::type_invariant]
    closed spec fn inv(&self) -> bool {
        self.keys.keys() is Some
    }

    /// The service's public key and the shared secret.
    pub closed spec fn keys(&self) -> (Seq<u8>, Seq<u8>) {
        self.keys.keys()->Some_0
    }

    /// The configuration the service was made with.
    pub closed spec fn config_view(&self) -> VoteServiceConfig {
        self.config
    }

    /// Name of the service.
    pub fn service_name(&self) -> (r: &'static str)
        ensures
            r@ == seq!['v', 'o', 't', 'e', 's', 'e', 'r', 'v', 'i', 'c', 'e'],
    {
        service_name()
    }

    /// Identifier of the service.
    pub fn service_id(&self) -> (r: u16)
        ensures
            r == SERVICE_ID,
    {
        SERVICE_ID
    }

    /// The configuration the service was made with.
    pub fn config(&self) -> (r: VoteServiceConfig)
        ensures
            r == self.config_view(),
    {
        self.config
    }

    /// The keys of the service.
    pub fn ephemeral_keys(&self) -> (r: EphemeralKeys)
        ensures
            (r.public_out_key@, r.ephemeral_key@) == self.keys(),
            r.public_out_key@.len() == agreement::AGREEMENT_PUBLIC_KEY_LEN,
            r.ephemeral_key@.len() == cipher::KEY_LEN,
    {
        proof {
            use_type_invariant(self);
        }
        match get_ephemeral(&self.keys) {
            Some(k) => k,
            None => vstd::pervasive::unreached(),
        }
    }

    /// Executes `tx` against `schema`, sealing ballots under the service's key.
    pub fn execute(&self, tx: &VoteTransactions, schema: &mut VoteServiceSchema) -> (r: Result<(), Error>)
        requires
            old(schema)@.wf(),
        ensures
            final(schema)@.wf(),
            match tx {
                VoteTransactions::TxCreateCandidate(t) => create_candidate_outcome(
                    old(schema)@,
                    *t,
                    final(schema)@,
                    r,
                ),
                VoteTransactions::TxCreateVoter(t) => create_voter_outcome(
                    old(schema)@,
                    *t,
                    final(schema)@,
                    r,
                ),
                VoteTransactions::TxAddVote(t) => add_vote_outcome(
                    old(schema)@,
                    self.keys().1,
                    *t,
                    final(schema)@,
                    r,
                ),
            },
    {
        let keys = self.ephemeral_keys();
        tx.execute(schema, &keys)
    }

    /// Every sealed tally, with the service's public key.
    pub fn results(&self, schema: &VoteServiceSchema) -> (r: VoteResult)
        ensures
            r.pub_key@ == self.keys().0,
            r.candidate_results@.map_values(|t: CandidateResult| t@) == schema@.results,
    {
        let keys = self.ephemeral_keys();
        VoteServiceApi::get_results(schema, &keys)
    }

    /// Every tally with its ballots opened under the service's key.
    pub fn results_decrypted(&self, schema: &VoteServiceSchema) -> (r: Vec<DecryptedCandidateResult>)
        ensures
            r@.len() == schema@.results.len(),
            forall|i: int|
                0 <= i < r@.len() ==> #[trigger] api::discloses(
                    self.keys().1,
                    schema@.results[i],
                    r@[i],
                ),
    {
        let keys = self.ephemeral_keys();
        VoteServiceApi::get_results_decrypted(schema, &keys)
    }
}

/// Makes the vote service from its configuration.
#[derive(Debug, Clone, Copy)]
pub struct ServiceFactory;

impl ServiceFactory {
    /// Name of the service made.
    pub fn service_name(&self) -> (r: &'static str)
        ensures
            r@ == seq!['v', 'o', 't', 'e', 's', 'e', 'r', 'v', 'i', 'c', 'e'],
    {
        service_name()
    }

    /// The service for `config`, after one key agreement with the authority
    /// key it names.
    pub fn make_service(&self, config: VoteServiceConfig) -> (r: Result<VoteService, KeyAgreementError>)
        ensures
            config.author_public_key is None ==> r == Err::<VoteService, KeyAgreementError>(
                KeyAgreementError::NoAuthorityKey,
            ),
            r matches Ok(s) ==> s.config_view() == config,
            r matches Err(e) ==> (e == KeyAgreementError::NoAuthorityKey
                <==> config.author_public_key is None),
            r matches Err(e) ==> e != KeyAgreementError::AlreadyInitialized,
            config.author_public_key matches Some(k) && !x25519_peer_accepted(k@) ==> r is Err,
            config.author_public_key matches Some(k) && x25519_peer_accepted(k@) ==> (r is Ok || r
                == Err::<VoteService, KeyAgreementError>(KeyAgreementError::KeyGeneration)),
    {
        let author_key = match config.author_public_key {
            Some(k) => k,
            None => {
                return Err(KeyAgreementError::NoAuthorityKey);
            },
        };
        let mut keys = KeyState::new();
        match init_ephemeral(&mut keys, author_key.bytes.as_slice()) {
            Ok(()) => Ok(VoteService { config, keys }),
            Err(e) => Err(e),
        }
    }
}

} // verus!
