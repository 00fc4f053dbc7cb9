//! Execution of the vote service's operations against the store.

use crate::agreement::EphemeralKeys;
use crate::cipher::{encrypt_vote, seal_vote, KEY_LEN};
use crate::errors::Error;
use crate::schema::{
    ballots_view, lemma_candidate_has_result, lemma_result_of_index, lemma_sorted_keys_unique,
    Candidate, CandidateResult, EncryptedVote, SchemaView, TallyView, Vote, VoteServiceSchema,
    Voter,
};
use crate::transactions::{TxAddVote, TxCreateCandidate, TxCreateVoter, VoteTransactions};
use vstd::prelude::*;

verus! {

/// SHA-256 digest of `data`.
pub uninterp spec fn sha256(data: Seq<u8>) -> Seq<u8>;

/// Relies on ring's `digest::digest` with `SHA256`, whose output has 32 bytes.
#[verifier::external_body]
fn hash(data: &[u8]) -> (r: Vec<u8>)
    ensures
        r@ == sha256(data@),
        r@.len() == 32,
{
    ring::digest::digest(&ring::digest::SHA256, data).as_ref().to_vec()
}

/// The ballot slot of a voter: the hash of the voter's identity.
pub open spec fn ballot_slot(voter: Seq<u8>) -> Seq<u8> {
    sha256(voter)
}

/// The tallies after the ballot `c` was added to that of candidate `k`.
pub open spec fn tally_ballot(results: Seq<TallyView>, k: Seq<u8>, c: Seq<u8>) -> Seq<TallyView> {
    Seq::new(
        results.len(),
        |i: int|
            if results[i].candidate == k {
                TallyView {
                    candidate: k,
                    votes: results[i].votes.push(c),
                    vote_num: (results[i].vote_num + 1) as u64,
                }
            } else {
                results[i]
            },
    )
}

/// Registering the candidate of `tx` in store `pre` gives `r` and store `post`.
pub open spec fn create_candidate_outcome(
    pre: SchemaView,
    tx: TxCreateCandidate,
    post: SchemaView,
    r: Result<(), Error>,
) -> bool {
    if pre.has_candidate(tx.pub_key@) {
        r == Err::<(), Error>(Error::CandidateAlreadyExists) && post == pre
    } else {
        &&& r is Ok
        &&& post.wf()
        &&& post.voters == pre.voters
        &&& post.votes == pre.votes
        &&& exists|p: int|
            0 <= p <= pre.candidates.len() && post.candidates == pre.candidates.insert(
                p,
                (Candidate { pub_key: tx.pub_key, name: tx.name, info: tx.info }),
            ) && post.results == pre.results.insert(
                p,
                (TallyView { candidate: tx.pub_key@, votes: Seq::empty(), vote_num: 0 }),
            )
    }
}

/// Registering the voter of `tx` in store `pre` gives `r` and store `post`.
pub open spec fn create_voter_outcome(
    pre: SchemaView,
    tx: TxCreateVoter,
    post: SchemaView,
    r: Result<(), Error>,
) -> bool {
    if pre.has_voter(tx.pub_key@) {
        r == Err::<(), Error>(Error::VoterAlreadyExists) && post == pre
    } else {
        &&& r is Ok
        &&& post.wf()
        &&& post.candidates == pre.candidates
        &&& post.votes == pre.votes
        &&& post.results == pre.results
        &&& exists|p: int|
            0 <= p <= pre.voters.len() && post.voters == pre.voters.insert(
                p,
                (Voter { pub_key: tx.pub_key, name: tx.name }),
            )
    }
}

/// Casting the vote of `tx` in store `pre`, with `slot` as the voter's ballot
/// slot and `ballot` as the sealed ballot, gives `r` and store `post`.
pub open spec fn cast_vote_outcome(
    pre: SchemaView,
    tx: TxAddVote,
    slot: Seq<u8>,
    ballot: Seq<u8>,
    post: SchemaView,
    r: Result<(), Error>,
) -> bool {
    if !pre.has_candidate(tx.candidate_id@) {
        r == Err::<(), Error>(Error::CandidateNotFound) && post == pre
    } else if !pre.has_voter(tx.voter_id@) {
        r == Err::<(), Error>(Error::VoterNotFound) && post == pre
    } else if pre.has_vote(slot) {
        r == Err::<(), Error>(Error::VoteAlreadyExists) && post == pre
    } else {
        &&& r is Ok
        &&& post.wf()
        &&& post.candidates == pre.candidates
        &&& post.voters == pre.voters
        &&& post.results == tally_ballot(pre.results, tx.candidate_id@, ballot)
        &&& exists|p: int|
            0 <= p <= pre.votes.len() && post.votes == pre.votes.insert(p, (slot, ballot))
    }
}

/// Casting the vote of `tx` in store `pre`, with ballots sealed under `key`,
/// gives `r` and store `post`.
pub open spec fn add_vote_outcome(
    pre: SchemaView,
    key: Seq<u8>,
    tx: TxAddVote,
    post: SchemaView,
    r: Result<(), Error>,
) -> bool {
    cast_vote_outcome(
        pre,
        tx,
        ballot_slot(tx.voter_id@),
        seal_vote(key, (Vote { from: tx.voter_id, to: tx.candidate_id })),
        post,
        r,
    )
}

impl TxCreateCandidate {
    /// Registers the candidate with an empty tally, unless the identity is
    /// registered already.
    pub fn execute(&self, schema: &mut VoteServiceSchema) -> (r: Result<(), Error>)
        requires
            old(schema)@.wf(),
        ensures
            final(schema)@.wf(),
            create_candidate_outcome(old(schema)@, *self, final(schema)@, r),
    {
        if schema.candidate(&self.pub_key).is_some() {
            return Err(Error::CandidateAlreadyExists);
        }
        let candidate = Candidate::new(&self.pub_key, self.name.clone(), self.info.clone());
        schema.add_candidate(candidate);
        Ok(())
    }
}

impl TxCreateVoter {
    /// Registers the voter, unless the identity is registered already.
    pub fn execute(&self, schema: &mut VoteServiceSchema) -> (r: Result<(), Error>)
        requires
            old(schema)@.wf(),
        ensures
            final(schema)@.wf(),
            create_voter_outcome(old(schema)@, *self, final(schema)@, r),
    {
        if schema.voter(&self.pub_key).is_some() {
            return Err(Error::VoterAlreadyExists);
        }
        let voter = Voter::new(&self.pub_key, self.name.clone());
        schema.add_voter(voter);
        Ok(())
    }
}

impl TxAddVote {
    /// Casts the vote: seals the ballot under `keys`, stores it in the voter's
    /// slot and adds it to the candidate's tally. Fails, leaving the store as
    /// it was, if the candidate or the voter is not registered or the voter
    /// has voted already.
    pub fn execute(&self, schema: &mut VoteServiceSchema, keys: &EphemeralKeys) -> (r: Result<(), Error>)
        requires
            old(schema)@.wf(),
            keys.ephemeral_key@.len() == KEY_LEN,
        ensures
            final(schema)@.wf(),
            add_vote_outcome(old(schema)@, keys.ephemeral_key@, *self, final(schema)@, r),
    {
        let voter_hash = hash(self.voter_id.bytes.as_slice());
        let vote = Vote::new(&self.voter_id, &self.candidate_id);
        let enc_vote = match encrypt_vote(&vote, keys) {
            Ok(e) => e,
            Err(_) => vstd::pervasive::unreached(),
        };
        self.execute_in_slot(schema, voter_hash, enc_vote)
    }

    /// Casts the vote with `voter_hash` as the voter's ballot slot and
    /// `enc_vote` as the sealed ballot: checks, in order, that the candidate
    /// and the voter are registered and that the slot is free, then stores
    /// the ballot and adds it to the candidate's tally.
    pub fn execute_in_slot(
        &self,
        schema: &mut VoteServiceSchema,
        voter_hash: Vec<u8>,
        enc_vote: EncryptedVote,
    ) -> (r: Result<(), Error>)
        requires
            old(schema)@.wf(),
        ensures
            final(schema)@.wf(),
            cast_vote_outcome(old(schema)@, *self, voter_hash@, enc_vote@, final(schema)@, r),
    {
        let ghost pre = schema@;
        if schema.candidate(&self.candidate_id).is_none() {
            return Err(Error::CandidateNotFound);
        }
        if schema.voter(&self.voter_id).is_none() {
            return Err(Error::VoterNotFound);
        }
        if schema.vote(&voter_hash).is_some() {
            return Err(Error::VoteAlreadyExists);
        }
        proof {
            lemma_candidate_has_result(pre, self.candidate_id@);
        }
        let result = match schema.candidate_result(&self.candidate_id) {
            Some(res) => res,
            None => {
                return Err(Error::CandidateResultNotFound);
            },
        };
        let ghost ballot = enc_vote@;
        schema.add_vote(voter_hash, enc_vote.clone());
        let mut votes = result.votes;
        let ghost old_votes = votes@;
        votes.push(enc_vote);
        assert(ballots_view(votes@) =~= ballots_view(old_votes).push(ballot));
        let votes_num = votes.len() as u64;
        let result = CandidateResult::new(&self.candidate_id, votes, votes_num);
        schema.put_candidate_result(result);
        proof {
            let k = self.candidate_id@;
            assert forall|i: int| 0 <= i < pre.results.len() implies #[trigger] schema@.results[i]
                == tally_ballot(pre.results, k, ballot)[i] by {
                if pre.results[i].candidate == k {
                    lemma_result_of_index(pre, i);
                }
            }
            assert(schema@.results =~= tally_ballot(pre.results, k, ballot));
        }
        Ok(())
    }
}

impl VoteTransactions {
    /// Executes the operation against `schema`, sealing ballots under `keys`.
    pub fn execute(&self, schema: &mut VoteServiceSchema, keys: &EphemeralKeys) -> (r: Result<(), Error>)
        requires
            old(schema)@.wf(),
            keys.ephemeral_key@.len() == KEY_LEN,
        ensures
            final(schema)@.wf(),
            match self {
                VoteTransactions::TxCreateCandidate(tx) => create_candidate_outcome(
                    old(schema)@,
                    *tx,
                    final(schema)@,
                    r,
                ),
                VoteTransactions::TxCreateVoter(tx) => create_voter_outcome(
                    old(schema)@,
                    *tx,
                    final(schema)@,
                    r,
                ),
                VoteTransactions::TxAddVote(tx) => add_vote_outcome(
                    old(schema)@,
                    keys.ephemeral_key@,
                    *tx,
                    final(schema)@,
                    r,
                ),
            },
    {
        match self {
            VoteTransactions::TxCreateCandidate(tx) => tx.execute(schema),
            VoteTransactions::TxCreateVoter(tx) => tx.execute(schema),
            VoteTransactions::TxAddVote(tx) => tx.execute(schema, keys),
        }
    }
}

/// Registering a candidate a second time under the same identity fails with
/// `CandidateAlreadyExists` and leaves the store as the first registration left it.
pub proof fn lemma_register_candidate_twice(
    s0: SchemaView,
    first: TxCreateCandidate,
    s1: SchemaView,
    r1: Result<(), Error>,
    second: TxCreateCandidate,
    s2: SchemaView,
    r2: Result<(), Error>,
)
    requires
        first.pub_key@ == second.pub_key@,
        create_candidate_outcome(s0, first, s1, r1),
        create_candidate_outcome(s1, second, s2, r2),
    ensures
        r2 == Err::<(), Error>(Error::CandidateAlreadyExists),
        s2 == s1,
{
    if !s0.has_candidate(first.pub_key@) {
        let p = choose|p: int|
            0 <= p <= s0.candidates.len() && s1.candidates == s0.candidates.insert(
                p,
                (Candidate { pub_key: first.pub_key, name: first.name, info: first.info }),
            ) && s1.results == s0.results.insert(
                p,
                (TallyView { candidate: first.pub_key@, votes: Seq::empty(), vote_num: 0 }),
            );
        assert(s1.candidates[p].pub_key@ == first.pub_key@);
    }
}

/// Registering a voter a second time under the same identity fails with
/// `VoterAlreadyExists` and leaves the store as the first registration left it.
pub proof fn lemma_register_voter_twice(
    s0: SchemaView,
    first: TxCreateVoter,
    s1: SchemaView,
    r1: Result<(), Error>,
    second: TxCreateVoter,
    s2: SchemaView,
    r2: Result<(), Error>,
)
    requires
        first.pub_key@ == second.pub_key@,
        create_voter_outcome(s0, first, s1, r1),
        create_voter_outcome(s1, second, s2, r2),
    ensures
        r2 == Err::<(), Error>(Error::VoterAlreadyExists),
        s2 == s1,
{
    if !s0.has_voter(first.pub_key@) {
        let p = choose|p: int|
            0 <= p <= s0.voters.len() && s1.voters == s0.voters.insert(
                p,
                (Voter { pub_key: first.pub_key, name: first.name }),
            );
        assert(s1.voters[p].pub_key@ == first.pub_key@);
    }
}

/// Once a registered voter has cast a vote for a registered candidate, every
/// further vote of that voter leaves the store, tallies included, unchanged,
/// and fails with `VoteAlreadyExists` when its candidate is registered.
pub proof fn lemma_vote_twice(
    s0: SchemaView,
    key: Seq<u8>,
    first: TxAddVote,
    s1: SchemaView,
    r1: Result<(), Error>,
    second: TxAddVote,
    s2: SchemaView,
    r2: Result<(), Error>,
)
    requires
        s0.has_voter(first.voter_id@),
        s0.has_candidate(first.candidate_id@),
        second.voter_id@ == first.voter_id@,
        add_vote_outcome(s0, key, first, s1, r1),
        add_vote_outcome(s1, key, second, s2, r2),
    ensures
        s2 == s1,
        r2 is Err,
        s0.has_candidate(second.candidate_id@) ==> r2 == Err::<(), Error>(Error::VoteAlreadyExists),
{
    let slot = ballot_slot(first.voter_id@);
    if !s0.has_vote(slot) {
        let ballot = seal_vote(key, (Vote { from: first.voter_id, to: first.candidate_id }));
        let p = choose|p: int|
            0 <= p <= s0.votes.len() && s1.votes == s0.votes.insert(p, (slot, ballot));
        assert(s1.votes[p].0 == slot);
    }
    assert(s1.has_vote(slot));
    if s0.has_candidate(second.candidate_id@) {
        let i = choose|i: int|
            0 <= i < s0.candidates.len() && #[trigger] s0.candidates[i].pub_key@
                == second.candidate_id@;
        assert(s1.candidates[i].pub_key@ == second.candidate_id@);
    }
    let j = choose|j: int| 0 <= j < s0.voters.len() && #[trigger] s0.voters[j].pub_key@ == first.voter_id@;
    assert(s1.voters[j].pub_key@ == second.voter_id@);
}

/// A vote naming an unregistered candidate or an unregistered voter fails
/// and creates no ballot and no tally entry.
pub proof fn lemma_unregistered_vote_rejected(
    s0: SchemaView,
    key: Seq<u8>,
    tx: TxAddVote,
    s1: SchemaView,
    r: Result<(), Error>,
)
    requires
        !s0.has_candidate(tx.candidate_id@) || !s0.has_voter(tx.voter_id@),
        add_vote_outcome(s0, key, tx, s1, r),
    ensures
        r is Err,
        s1.votes == s0.votes,
        s1.results == s0.results,
{
}

/// In a well-formed store the count of every tally is the number of its ballots.
pub proof fn lemma_tally_counts_ballots(s: SchemaView, k: Seq<u8>)
    requires
        s.wf(),
        s.has_result(k),
    ensures
        s.result_of(k) matches Some(t) && t.vote_num == t.votes.len(),
{
}

/// An accepted vote adds its sealed ballot to the tally of its candidate, and
/// one to that tally's count.
pub proof fn lemma_accepted_vote_tallied(
    s0: SchemaView,
    key: Seq<u8>,
    tx: TxAddVote,
    s1: SchemaView,
    r: Result<(), Error>,
)
    requires
        s0.wf(),
        add_vote_outcome(s0, key, tx, s1, r),
        r is Ok,
    ensures
        s0.result_of(tx.candidate_id@) matches Some(t0) && s1.result_of(tx.candidate_id@)
            == Some(
            (TallyView {
                candidate: tx.candidate_id@,
                votes: t0.votes.push(seal_vote(key, (Vote { from: tx.voter_id, to: tx.candidate_id }))),
                vote_num: (t0.vote_num + 1) as u64,
            }),
        ),
{
    let k = tx.candidate_id@;
    lemma_candidate_has_result(s0, k);
    let i = choose|i: int| 0 <= i < s0.results.len() && #[trigger] s0.results[i].candidate == k;
    lemma_result_of_index(s0, i);
    assert(s1.results[i].candidate == k);
    let j = choose|j: int| 0 <= j < s1.results.len() && #[trigger] s1.results[j].candidate == k;
    assert(s0.results[j].candidate == k);
    assert(s0.results[j].candidate == s0.candidates[j].pub_key@);
    assert(s0.results[i].candidate == s0.candidates[i].pub_key@);
    assert(s0.candidate_keys()[i] == s0.candidate_keys()[j]);
    lemma_sorted_keys_unique(s0.candidate_keys(), i, j);
}

/// Running the operation `op` in store `pre`, with ballots sealed under `key`,
/// gives `r` and store `post`.
pub open spec fn step_outcome(
    pre: SchemaView,
    key: Seq<u8>,
    op: VoteTransactions,
    post: SchemaView,
    r: Result<(), Error>,
) -> bool {
    match op {
        VoteTransactions::TxCreateCandidate(tx) => create_candidate_outcome(pre, tx, post, r),
        VoteTransactions::TxCreateVoter(tx) => create_voter_outcome(pre, tx, post, r),
        VoteTransactions::TxAddVote(tx) => add_vote_outcome(pre, key, tx, post, r),
    }
}

/// The store holds nothing.
pub open spec fn empty_store(s: SchemaView) -> bool {
    s.candidates.len() == 0 && s.voters.len() == 0 && s.votes.len() == 0 && s.results.len() == 0
}

/// `states` runs from the empty store through the operations `ops`, the
/// operation at `i` taking `states[i]` to `states[i + 1]` with result `rs[i]`.
pub open spec fn is_run(
    key: Seq<u8>,
    ops: Seq<VoteTransactions>,
    rs: Seq<Result<(), Error>>,
    states: Seq<SchemaView>,
) -> bool {
    &&& rs.len() == ops.len()
    &&& states.len() == ops.len() + 1
    &&& empty_store(states[0])
    &&& forall|i: int|
        0 <= i < ops.len() ==> #[trigger] step_outcome(states[i], key, ops[i], states[i + 1], rs[i])
}

/// The number of accepted votes for candidate `c` among `ops`, whose results are `rs`.
pub open spec fn accepted_votes_for(ops: Seq<VoteTransactions>, rs: Seq<Result<(), Error>>, c: Seq<u8>) -> nat
    decreases ops.len(),
{
    if ops.len() == 0 || rs.len() != ops.len() {
        0
    } else {
        let last = ops.len() - 1;
        accepted_votes_for(ops.take(last), rs.take(last), c) + if ops[last] matches VoteTransactions::TxAddVote(
            tx,
        ) && tx.candidate_id@ == c && rs[last] is Ok {
            1nat
        } else {
            0nat
        }
    }
}

/// What the tally of `c` is in `s` after `n` accepted votes for `c`.
pub open spec fn tally_counts(s: SchemaView, c: Seq<u8>, n: nat) -> bool {
    &&& s.wf()
    &&& s.has_result(c) ==> (s.result_of(c) matches Some(t) && t.vote_num == n && t.votes.len()
        == n)
    &&& !s.has_result(c) ==> n == 0
}

/// Two well-formed stores holding the same tally give the same tally of its candidate.
proof fn lemma_same_tally(pre: SchemaView, i: int, post: SchemaView, j: int)
    requires
        pre.wf(),
        post.wf(),
        0 <= i < pre.results.len(),
        0 <= j < post.results.len(),
        pre.results[i] == post.results[j],
    ensures
        post.has_result(pre.results[i].candidate),
        pre.result_of(pre.results[i].candidate) == post.result_of(pre.results[i].candidate),
{
    lemma_result_of_index(pre, i);
    lemma_result_of_index(post, j);
}

/// One operation keeps the tally of `c` counting the accepted votes for `c`.
proof fn lemma_step_counts(
    pre: SchemaView,
    key: Seq<u8>,
    op: VoteTransactions,
    post: SchemaView,
    r: Result<(), Error>,
    c: Seq<u8>,
    n: nat,
)
    requires
        tally_counts(pre, c, n),
        step_outcome(pre, key, op, post, r),
    ensures
        tally_counts(
            post,
            c,
            n + if op matches VoteTransactions::TxAddVote(tx) && tx.candidate_id@ == c && r is Ok {
                1nat
            } else {
                0nat
            },
        ),
{
    if r is Err {
        return;
    }
    match op {
        VoteTransactions::TxCreateCandidate(tx) => {
            let k = tx.pub_key@;
            let t0 = TallyView { candidate: k, votes: Seq::empty(), vote_num: 0 };
            let cand = Candidate { pub_key: tx.pub_key, name: tx.name, info: tx.info };
            let p = choose|p: int|
                0 <= p <= pre.candidates.len() && post.candidates == pre.candidates.insert(p, cand)
                    && post.results == pre.results.insert(p, t0);
            if k == c {
                lemma_candidate_has_result(pre, c);
                lemma_result_of_index(post, p);
            } else if pre.has_result(c) {
                let i = choose|i: int| 0 <= i < pre.results.len() && #[trigger] pre.results[i].candidate == c;
                if i < p {
                    lemma_same_tally(pre, i, post, i);
                } else {
                    lemma_same_tally(pre, i, post, i + 1);
                }
            } else {
                assert forall|j: int| 0 <= j < post.results.len() implies #[trigger] post.results[j].candidate
                    != c by {
                    if j < p {
                        assert(post.results[j] == pre.results[j]);
                    } else if j > p {
                        assert(post.results[j] == pre.results[j - 1]);
                    }
                }
            }
        },
        VoteTransactions::TxCreateVoter(tx) => {},
        VoteTransactions::TxAddVote(tx) => {
            let k = tx.candidate_id@;
            if k == c {
                lemma_accepted_vote_tallied(pre, key, tx, post, r);
                lemma_candidate_has_result(pre, c);
                let i = choose|i: int| 0 <= i < pre.results.len() && #[trigger] pre.results[i].candidate == c;
                assert(post.results[i].candidate == c);
            } else if pre.has_result(c) {
                let i = choose|i: int| 0 <= i < pre.results.len() && #[trigger] pre.results[i].candidate == c;
                lemma_same_tally(pre, i, post, i);
            } else {
                assert forall|j: int| 0 <= j < post.results.len() implies #[trigger] post.results[j].candidate
                    != c by {
                    assert(post.results[j].candidate == pre.results[j].candidate);
                }
            }
        },
    }
}

/// Along a run, the tally of `c` after the first `i` operations counts the
/// accepted votes for `c` among them.
proof fn lemma_run_prefix_counts(
    key: Seq<u8>,
    ops: Seq<VoteTransactions>,
    rs: Seq<Result<(), Error>>,
    states: Seq<SchemaView>,
    c: Seq<u8>,
    i: int,
)
    requires
        is_run(key, ops, rs, states),
        0 <= i <= ops.len(),
    ensures
        tally_counts(states[i], c, accepted_votes_for(ops.take(i), rs.take(i), c)),
    decreases i,
{
    if i == 0 {
        assert(states[0].results =~= Seq::<TallyView>::empty());
    } else {
        lemma_run_prefix_counts(key, ops, rs, states, c, i - 1);
        assert(ops.take(i).take(i - 1) =~= ops.take(i - 1));
        assert(rs.take(i).take(i - 1) =~= rs.take(i - 1));
        let j = i - 1;
        assert(step_outcome(states[j], key, ops[j], states[j + 1], rs[j]));
        lemma_step_counts(
            states[i - 1],
            key,
            ops[i - 1],
            states[i],
            rs[i - 1],
            c,
            accepted_votes_for(ops.take(i - 1), rs.take(i - 1), c),
        );
    }
}

/// After any run from the empty store, the tally of each registered
/// candidate `c` holds exactly one ballot per accepted vote for `c`, and its
/// count is that number.
pub proof fn lemma_tally_counts_accepted_votes(
    key: Seq<u8>,
    ops: Seq<VoteTransactions>,
    rs: Seq<Result<(), Error>>,
    states: Seq<SchemaView>,
    c: Seq<u8>,
)
    requires
        is_run(key, ops, rs, states),
        states.last().has_candidate(c),
    ensures
        states.last().result_of(c) matches Some(t) && t.vote_num == accepted_votes_for(ops, rs, c)
            && t.votes.len() == accepted_votes_for(ops, rs, c),
{
    lemma_run_prefix_counts(key, ops, rs, states, c, ops.len() as int);
    assert(ops.take(ops.len() as int) =~= ops);
    assert(rs.take(rs.len() as int) =~= rs);
    lemma_candidate_has_result(states.last(), c);
}

} // verus!
