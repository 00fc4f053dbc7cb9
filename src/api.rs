//! Read-only queries of the vote service.

use crate::agreement::{EphemeralKeys, AGREEMENT_PUBLIC_KEY_LEN};
use crate::cipher::{decrypt_vote, unseal_outcome};
use crate::errors::CipherError;
use crate::schema::{
    ballots_view, Candidate, CandidateResult, DecryptedCandidateResult, EncryptedVote, PublicKey,
    TallyView, Vote, VoteResult, VoteServiceSchema, Voter,
};
use crate::transactions::VoteTransactions;
use vstd::prelude::*;

verus! {

/// A transaction as committed on the ledger, with the height of its block.
#[derive(Debug)]
pub struct CommittedTransaction {
    /// The operation.
    pub transaction: VoteTransactions,
    /// Height of the block that holds it.
    pub block_height: u64,
}

/// The height of the first block, in `log`, holding a vote cast by `voter`.
pub open spec fn first_vote_height(log: Seq<CommittedTransaction>, voter: Seq<u8>) -> Option<u64>
    decreases log.len(),
{
    if log.len() == 0 {
        None
    } else if log[0].transaction matches VoteTransactions::TxAddVote(tx) && tx.voter_id@ == voter {
        Some(log[0].block_height)
    } else {
        first_vote_height(log.drop_first(), voter)
    }
}

/// The opened tally `d` reports the sealed tally `t` opened under `key`.
pub open spec fn discloses(key: Seq<u8>, t: TallyView, d: DecryptedCandidateResult) -> bool {
    &&& d.candidate@ == t.candidate
    &&& d.votes@.len() == t.votes.len()
    &&& d.vote_num == t.votes.len()
    &&& forall|j: int| 0 <= j < t.votes.len() ==> #[trigger] unseal_outcome(key, t.votes[j], d.votes@[j])
}

/// Public query interface of the vote service.
#[derive(Debug, Clone, Copy)]
pub struct VoteServiceApi;

impl VoteServiceApi {
    /// The candidate registered under `pub_key`.
    pub fn get_candidate(schema: &VoteServiceSchema, pub_key: &PublicKey) -> (r: Option<Candidate>)
        requires
            schema@.wf(),
        ensures
            r == schema@.candidate_of(pub_key@),
    {
        schema.candidate(pub_key)
    }

    /// Every registered candidate.
    pub fn get_candidates(schema: &VoteServiceSchema) -> (r: Vec<Candidate>)
        ensures
            r@ == schema@.candidates,
    {
        schema.candidates()
    }

    /// The voter registered under `pub_key`.
    pub fn get_voter(schema: &VoteServiceSchema, pub_key: &PublicKey) -> (r: Option<Voter>)
        requires
            schema@.wf(),
        ensures
            r == schema@.voter_of(pub_key@),
    {
        schema.voter(pub_key)
    }

    /// Every registered voter.
    pub fn get_voters(schema: &VoteServiceSchema) -> (r: Vec<Voter>)
        ensures
            r@ == schema@.voters,
    {
        schema.voters()
    }

    /// Every sealed ballot.
    pub fn get_votes(schema: &VoteServiceSchema) -> (r: Vec<EncryptedVote>)
        ensures
            ballots_view(r@) == schema@.votes.map_values(|e: (Seq<u8>, Seq<u8>)| e.1),
    {
        schema.votes()
    }

    /// The tally of the candidate `pub_key`.
    pub fn get_candidate_result(schema: &VoteServiceSchema, pub_key: &PublicKey) -> (r: Option<
        CandidateResult,
    >)
        requires
            schema@.wf(),
        ensures
            match r {
                Some(t) => schema@.result_of(pub_key@) == Some(t@),
                None => schema@.result_of(pub_key@) is None,
            },
    {
        schema.candidate_result(pub_key)
    }

    /// Every sealed tally, with the service's public key, from which the
    /// authority derives the key that opens them.
    pub fn get_results(schema: &VoteServiceSchema, keys: &EphemeralKeys) -> (r: VoteResult)
        requires
            keys.public_out_key@.len() == AGREEMENT_PUBLIC_KEY_LEN,
        ensures
            r.pub_key@ == keys.public_out_key@,
            r.candidate_results@.map_values(|t: CandidateResult| t@) == schema@.results,
    {
        let service_public_key = match PublicKey::from_slice(keys.public_out_key.as_slice()) {
            Some(k) => k,
            None => vstd::pervasive::unreached(),
        };
        let candidates = schema.vote_results();
        VoteResult { pub_key: service_public_key, candidate_results: candidates }
    }

    /// Every tally with each of its ballots opened under the shared key of
    /// `keys`; a ballot that does not open is reported as an error in place.
    pub fn get_results_decrypted(schema: &VoteServiceSchema, keys: &EphemeralKeys) -> (r: Vec<
        DecryptedCandidateResult,
    >)
        ensures
            r@.len() == schema@.results.len(),
            forall|i: int|
                0 <= i < r@.len() ==> #[trigger] discloses(
                    keys.ephemeral_key@,
                    schema@.results[i],
                    r@[i],
                ),
    {
        let results = schema.vote_results();
        let ghost key = keys.ephemeral_key@;
        let mut dec_results: Vec<DecryptedCandidateResult> = Vec::new();
        let mut i: usize = 0;
        while i < results.len()
            invariant
                i <= results@.len(),
                key == keys.ephemeral_key@,
                results@.map_values(|t: CandidateResult| t@) == schema@.results,
                dec_results@.len() == i,
                forall|k: int| 0 <= k < i ==> #[trigger] discloses(key, schema@.results[k], dec_results@[k]),
            decreases results@.len() - i,
        {
            let res = &results[i];
            assert(res@ == schema@.results[i as int]);
            let mut dec_res_votes: Vec<Result<Vote, CipherError>> = Vec::new();
            let mut j: usize = 0;
            while j < res.votes.len()
                invariant
                    j <= res.votes@.len(),
                    key == keys.ephemeral_key@,
                    dec_res_votes@.len() == j,
                    forall|k: int|
                        0 <= k < j ==> #[trigger] unseal_outcome(key, res.votes@[k]@, dec_res_votes@[k]),
                decreases res.votes@.len() - j,
            {
                let dec_vote = decrypt_vote(&res.votes[j], keys);
                dec_res_votes.push(dec_vote);
                j = j + 1;
            }
            let votes_num = dec_res_votes.len() as u64;
            let dec_res = DecryptedCandidateResult {
                candidate: res.candidate,
                votes: dec_res_votes,
                vote_num: votes_num,
            };
            assert forall|k: int| 0 <= k < res@.votes.len() implies #[trigger] unseal_outcome(
                key,
                res@.votes[k],
                dec_res.votes@[k],
            ) by {
                assert(res@.votes[k] == res.votes@[k]@);
            }
            dec_results.push(dec_res);
            i = i + 1;
        }
        dec_results
    }

    /// The height of the block holding the vote of `pub_key`, in the ledger's
    /// committed transactions `log`.
    pub fn get_block(log: &Vec<CommittedTransaction>, pub_key: &PublicKey) -> (r: Option<u64>)
        ensures
            r == first_vote_height(log@, pub_key@),
    {
        let mut i: usize = 0;
        assert(log@.subrange(0, log@.len() as int) =~= log@);
        while i < log.len()
            invariant
                i <= log@.len(),
                first_vote_height(log@, pub_key@) == first_vote_height(log@.subrange(i as int, log@.len() as int), pub_key@),
            decreases log@.len() - i,
        {
            assert(log@.subrange(i as int, log@.len() as int).drop_first() =~= log@.subrange(i + 1, log@.len() as int));
            if let VoteTransactions::TxAddVote(tx) = &log[i].transaction {
                if tx.voter_id == *pub_key {
                    return Some(log[i].block_height);
                }
            }
            i = i + 1;
        }
        None
    }
}

} // verus!
