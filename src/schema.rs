//! Persistent entities of the vote service and the store that holds them.

use crate::errors::CipherError;
use vstd::prelude::*;

verus! {

/// Length in bytes of an identity key.
pub const PUBLIC_KEY_LENGTH: usize = 32;

/// Length in bytes of an encoded plaintext ballot: two identities.
pub const VOTE_LENGTH: usize = 64;

/// An identity: the public verification key of a candidate or a voter.
#[derive(Debug, Clone, Copy)]
pub struct PublicKey {
    /// The key bytes.
    pub bytes: [u8; 32],
}

impl View for PublicKey {
    type V = Seq<u8>;

    open spec fn view(&self) -> Seq<u8> {
        self.bytes@
    }
}

impl PartialEq for PublicKey {
    fn eq(&self, other: &PublicKey) -> bool {
        let mut i: usize = 0;
        while i < PUBLIC_KEY_LENGTH
            invariant
                i <= PUBLIC_KEY_LENGTH,
                self@.len() == PUBLIC_KEY_LENGTH,
                other@.len() == PUBLIC_KEY_LENGTH,
                forall|j: int| 0 <= j < i ==> self@[j] == other@[j],
            decreases PUBLIC_KEY_LENGTH - i,
        {
            if self.bytes[i] != other.bytes[i] {
                return false;
            }
            i = i + 1;
        }
        assert(self@ =~= other@);
        true
    }
}

impl vstd::std_specs::cmp::PartialEqSpecImpl for PublicKey {
    open spec fn obeys_eq_spec() -> bool {
        true
    }

    open spec fn eq_spec(&self, other: &PublicKey) -> bool {
        self@ == other@
    }
}

impl PublicKey {
    /// An identity with the given bytes.
    pub fn new(bytes: [u8; 32]) -> (r: PublicKey)
        ensures
            r@ == bytes@,
    {
        PublicKey { bytes }
    }

    /// The identity written in `s`, if `s` has exactly the length of a key.
    pub fn from_slice(s: &[u8]) -> (r: Option<PublicKey>)
        ensures
            r is Some <==> s@.len() == PUBLIC_KEY_LENGTH,
            r matches Some(k) ==> k@ == s@,
    {
        if s.len() != PUBLIC_KEY_LENGTH {
            return None;
        }
        let mut bytes = [0u8; 32];
        let mut i: usize = 0;
        while i < PUBLIC_KEY_LENGTH
            invariant
                i <= PUBLIC_KEY_LENGTH,
                s@.len() == PUBLIC_KEY_LENGTH,
                bytes@.len() == PUBLIC_KEY_LENGTH,
                forall|j: int| 0 <= j < i ==> bytes@[j] == s@[j],
            decreases PUBLIC_KEY_LENGTH - i,
        {
            bytes[i] = s[i];
            i = i + 1;
        }
        assert(bytes@ =~= s@);
        Some(PublicKey { bytes })
    }

    /// The bytes of the identity.
    pub fn to_vec(&self) -> (r: Vec<u8>)
        ensures
            r@ == self@,
    {
        let mut r: Vec<u8> = Vec::new();
        let mut i: usize = 0;
        while i < PUBLIC_KEY_LENGTH
            invariant
                i <= PUBLIC_KEY_LENGTH,
                self@.len() == PUBLIC_KEY_LENGTH,
                r@ == self@.subrange(0, i as int),
            decreases PUBLIC_KEY_LENGTH - i,
        {
            r.push(self.bytes[i]);
            i = i + 1;
        }
        assert(self@.subrange(0, PUBLIC_KEY_LENGTH as int) =~= self@);
        r
    }
}

/// Bytes of an encoded plaintext ballot: the voter's key, then the candidate's.
pub open spec fn vote_bytes(from: Seq<u8>, to: Seq<u8>) -> Seq<u8> {
    from + to
}

/// A plaintext ballot: who voted for whom. Never stored unsealed.
#[derive(Debug, Clone, Copy)]
pub struct Vote {
    /// Identity of the voter.
    pub from: PublicKey,
    /// Identity of the candidate.
    pub to: PublicKey,
}

impl View for Vote {
    type V = (Seq<u8>, Seq<u8>);

    open spec fn view(&self) -> (Seq<u8>, Seq<u8>) {
        (self.from@, self.to@)
    }
}

impl PartialEq for Vote {
    fn eq(&self, other: &Vote) -> bool {
        self.from == other.from && self.to == other.to
    }
}

impl vstd::std_specs::cmp::PartialEqSpecImpl for Vote {
    open spec fn obeys_eq_spec() -> bool {
        true
    }

    open spec fn eq_spec(&self, other: &Vote) -> bool {
        self.from@ == other.from@ && self.to@ == other.to@
    }
}

impl Vote {
    /// A ballot from voter `from` for candidate `to`.
    pub fn new(from: &PublicKey, to: &PublicKey) -> (r: Vote)
        ensures
            r.from == *from,
            r.to == *to,
    {
        Vote { from: *from, to: *to }
    }

    /// The encoded ballot: the voter's key followed by the candidate's key.
    pub fn into_bytes(&self) -> (r: Vec<u8>)
        ensures
            r@ == vote_bytes(self.from@, self.to@),
            r@.len() == VOTE_LENGTH,
    {
        let mut r = self.from.to_vec();
        let mut t = self.to.to_vec();
        r.append(&mut t);
        r
    }

    /// Decodes a ballot; `None` unless `b` holds exactly two keys.
    pub fn from_bytes(b: &[u8]) -> (r: Option<Vote>)
        ensures
            r is Some <==> b@.len() == VOTE_LENGTH,
            r matches Some(v) ==> vote_bytes(v.from@, v.to@) == b@,
    {
        if b.len() != VOTE_LENGTH {
            return None;
        }
        let mut from = [0u8; 32];
        let mut to = [0u8; 32];
        let mut i: usize = 0;
        while i < PUBLIC_KEY_LENGTH
            invariant
                i <= PUBLIC_KEY_LENGTH,
                b@.len() == VOTE_LENGTH,
                from@.len() == PUBLIC_KEY_LENGTH,
                to@.len() == PUBLIC_KEY_LENGTH,
                forall|j: int| 0 <= j < i ==> from@[j] == b@[j],
                forall|j: int| 0 <= j < i ==> to@[j] == b@[j + 32],
            decreases PUBLIC_KEY_LENGTH - i,
        {
            from[i] = b[i];
            to[i] = b[i + PUBLIC_KEY_LENGTH];
            i = i + 1;
        }
        assert(from@ + to@ =~= b@);
        Some(Vote { from: PublicKey { bytes: from }, to: PublicKey { bytes: to } })
    }
}

/// Decoding an encoded ballot gives the ballot back.
pub proof fn lemma_vote_bytes_injective(a: Vote, b: Vote)
    requires
        vote_bytes(a.from@, a.to@) == vote_bytes(b.from@, b.to@),
    ensures
        a.from@ == b.from@,
        a.to@ == b.to@,
{
    let s = vote_bytes(a.from@, a.to@);
    assert(a.from@ =~= s.subrange(0, 32));
    assert(b.from@ =~= s.subrange(0, 32));
    assert(a.to@ =~= s.subrange(32, 64));
    assert(b.to@ =~= s.subrange(32, 64));
}

/// A sealed ballot: the authenticated ciphertext of an encoded [`Vote`].
#[derive(Debug)]
pub struct EncryptedVote {
    /// Ciphertext followed by the authentication tag.
    pub data: Vec<u8>,
}

impl View for EncryptedVote {
    type V = Seq<u8>;

    open spec fn view(&self) -> Seq<u8> {
        self.data@
    }
}

/// The ciphertexts of a sequence of sealed ballots.
pub open spec fn ballots_view(v: Seq<EncryptedVote>) -> Seq<Seq<u8>> {
    v.map_values(|e: EncryptedVote| e@)
}

impl Clone for EncryptedVote {
    fn clone(&self) -> (r: EncryptedVote)
        ensures
            r@ == self@,
    {
        let data = self.data.clone();
        assert(data@ =~= self.data@);
        EncryptedVote { data }
    }
}

impl EncryptedVote {
    /// A sealed ballot holding `data`.
    pub fn new(data: Vec<u8>) -> (r: EncryptedVote)
        ensures
            r.data == data,
    {
        EncryptedVote { data }
    }
}

/// A registered candidate.
#[derive(Debug)]
pub struct Candidate {
    /// Identity of the candidate.
    pub pub_key: PublicKey,
    /// Display name.
    pub name: String,
    /// Free-text information about the candidate.
    pub info: String,
}

impl Clone for Candidate {
    fn clone(&self) -> (r: Candidate)
        ensures
            r == *self,
    {
        Candidate { pub_key: self.pub_key, name: self.name.clone(), info: self.info.clone() }
    }
}

impl Candidate {
    /// A candidate record.
    pub fn new(pub_key: &PublicKey, name: String, info: String) -> (r: Candidate)
        ensures
            r.pub_key == *pub_key,
            r.name == name,
            r.info == info,
    {
        Candidate { pub_key: *pub_key, name, info }
    }
}

/// A registered voter.
#[derive(Debug)]
pub struct Voter {
    /// Identity of the voter.
    pub pub_key: PublicKey,
    /// Display name.
    pub name: String,
}

impl Clone for Voter {
    fn clone(&self) -> (r: Voter)
        ensures
            r == *self,
    {
        Voter { pub_key: self.pub_key, name: self.name.clone() }
    }
}

impl Voter {
    /// A voter record.
    pub fn new(pub_key: &PublicKey, name: String) -> (r: Voter)
        ensures
            r.pub_key == *pub_key,
            r.name == name,
    {
        Voter { pub_key: *pub_key, name }
    }
}

/// The tally of one candidate: every sealed ballot cast for it, and their number.
#[derive(Debug)]
pub struct CandidateResult {
    /// Identity of the candidate.
    pub candidate: PublicKey,
    /// Sealed ballots, in the order in which they were cast.
    pub votes: Vec<EncryptedVote>,
    /// Number of ballots.
    pub vote_num: u64,
}

/// What a tally holds: the candidate, the ciphertext of each ballot, the count.
pub struct TallyView {
    /// Identity of the candidate.
    pub candidate: Seq<u8>,
    /// Ciphertext of each ballot, in the order in which they were cast.
    pub votes: Seq<Seq<u8>>,
    /// Number of ballots.
    pub vote_num: u64,
}

impl View for CandidateResult {
    type V = TallyView;

    open spec fn view(&self) -> TallyView {
        TallyView {
            candidate: self.candidate@,
            votes: ballots_view(self.votes@),
            vote_num: self.vote_num,
        }
    }
}

/// A copy of a vector of sealed ballots.
pub fn clone_votes(v: &Vec<EncryptedVote>) -> (r: Vec<EncryptedVote>)
    ensures
        ballots_view(r@) == ballots_view(v@),
{
    let mut r: Vec<EncryptedVote> = Vec::new();
    let mut i: usize = 0;
    while i < v.len()
        invariant
            i <= v@.len(),
            r@.len() == i,
            forall|j: int| 0 <= j < i ==> r@[j]@ == v@[j]@,
        decreases v@.len() - i,
    {
        r.push(v[i].clone());
        i = i + 1;
    }
    assert(ballots_view(r@) =~= ballots_view(v@));
    r
}

impl Clone for CandidateResult {
    fn clone(&self) -> (r: CandidateResult)
        ensures
            r@ == self@,
    {
        let votes = clone_votes(&self.votes);
        CandidateResult { candidate: self.candidate, votes, vote_num: self.vote_num }
    }
}

impl CandidateResult {
    /// A tally record.
    pub fn new(candidate: &PublicKey, votes: Vec<EncryptedVote>, vote_num: u64) -> (r:
        CandidateResult)
        ensures
            r.candidate == *candidate,
            r.votes == votes,
            r.vote_num == vote_num,
    {
        CandidateResult { candidate: *candidate, votes, vote_num }
    }
}

/// All sealed tallies, with the public key that the authority needs to
/// derive the key that opens them.
#[derive(Debug)]
pub struct VoteResult {
    /// Public half of the service's ephemeral key pair.
    pub pub_key: PublicKey,
    /// One tally per registered candidate.
    pub candidate_results: Vec<CandidateResult>,
}

/// The opened tally of one candidate.
#[derive(Debug)]
pub struct DecryptedCandidateResult {
    /// Identity of the candidate.
    pub candidate: PublicKey,
    /// Each ballot of the tally, opened, or the reason it could not be opened.
    pub votes: Vec<Result<Vote, CipherError>>,
    /// Number of ballots.
    pub vote_num: u64,
}

/// Lexicographic order on byte strings: the order in which the store keeps its keys.
pub open spec fn lex_lt(a: Seq<u8>, b: Seq<u8>) -> bool
    decreases a.len(),
{
    if a.len() == 0 {
        b.len() > 0
    } else if b.len() == 0 {
        false
    } else if a[0] != b[0] {
        a[0] < b[0]
    } else {
        lex_lt(a.drop_first(), b.drop_first())
    }
}

/// Keys in strictly increasing order.
pub open spec fn sorted_keys(keys: Seq<Seq<u8>>) -> bool {
    forall|i: int, j: int| 0 <= i < j < keys.len() ==> lex_lt(#[trigger] keys[i], #[trigger] keys[j])
}

/// No byte string precedes itself.
pub proof fn lemma_lex_lt_irreflexive(a: Seq<u8>)
    ensures
        !lex_lt(a, a),
    decreases a.len(),
{
    if a.len() > 0 {
        lemma_lex_lt_irreflexive(a.drop_first());
    }
}

/// The lexicographic order is transitive.
pub proof fn lemma_lex_lt_transitive(a: Seq<u8>, b: Seq<u8>, c: Seq<u8>)
    requires
        lex_lt(a, b),
        lex_lt(b, c),
    ensures
        lex_lt(a, c),
    decreases a.len(),
{
    if a.len() > 0 && a[0] == b[0] && b[0] == c[0] {
        lemma_lex_lt_transitive(a.drop_first(), b.drop_first(), c.drop_first());
    }
}

/// Of two different byte strings, one precedes the other.
pub proof fn lemma_lex_lt_total(a: Seq<u8>, b: Seq<u8>)
    requires
        a != b,
    ensures
        lex_lt(a, b) || lex_lt(b, a),
    decreases a.len(),
{
    if a.len() == 0 && b.len() == 0 {
        assert(a =~= b);
    }
    if a.len() > 0 && b.len() > 0 && a[0] == b[0] {
        if a.drop_first() == b.drop_first() {
            assert(a =~= seq![a[0]] + a.drop_first());
            assert(b =~= seq![b[0]] + b.drop_first());
        }
        lemma_lex_lt_total(a.drop_first(), b.drop_first());
    }
}

/// In strictly increasing keys, equal keys stand at the same position.
pub proof fn lemma_sorted_keys_unique(keys: Seq<Seq<u8>>, i: int, j: int)
    requires
        sorted_keys(keys),
        0 <= i < keys.len(),
        0 <= j < keys.len(),
        keys[i] == keys[j],
    ensures
        i == j,
{
    lemma_lex_lt_irreflexive(keys[i]);
}

/// Inserting `k` where it belongs keeps keys strictly increasing.
pub proof fn lemma_sorted_insert(keys: Seq<Seq<u8>>, p: int, k: Seq<u8>)
    requires
        sorted_keys(keys),
        0 <= p <= keys.len(),
        forall|j: int| 0 <= j < p ==> lex_lt(#[trigger] keys[j], k),
        forall|j: int| p <= j < keys.len() ==> lex_lt(k, #[trigger] keys[j]),
    ensures
        sorted_keys(keys.insert(p, k)),
{
    let n = keys.insert(p, k);
    assert forall|i: int, j: int| 0 <= i < j < n.len() implies lex_lt(#[trigger] n[i], #[trigger] n[j]) by {
        if i < p && j == p {
        } else if i < p && j > p {
            assert(lex_lt(keys[i], keys[j - 1]));
        } else if i == p {
            assert(lex_lt(k, keys[j - 1]));
        } else if j < p {
            assert(lex_lt(keys[i], keys[j]));
        } else {
            assert(lex_lt(keys[i - 1], keys[j - 1]));
        }
    }
}

/// `a` precedes `b` in lexicographic order.
fn bytes_lt(a: &[u8], b: &[u8]) -> (r: bool)
    ensures
        r == lex_lt(a@, b@),
{
    let mut i: usize = 0;
    assert(a@.skip(0) =~= a@);
    assert(b@.skip(0) =~= b@);
    while i < a.len() && i < b.len()
        invariant
            i <= a@.len(),
            i <= b@.len(),
            lex_lt(a@, b@) == lex_lt(a@.skip(i as int), b@.skip(i as int)),
        decreases a@.len() - i,
    {
        assert(a@.skip(i as int).drop_first() =~= a@.skip(i + 1));
        assert(b@.skip(i as int).drop_first() =~= b@.skip(i + 1));
        if a[i] != b[i] {
            return a[i] < b[i];
        }
        i = i + 1;
    }
    i < b.len()
}

/// Contents of the store, each collection in increasing order of its keys.
pub struct SchemaView {
    /// Registered candidates.
    pub candidates: Seq<Candidate>,
    /// Registered voters.
    pub voters: Seq<Voter>,
    /// Sealed ballots, each after its slot key (the hash of the voter's identity).
    pub votes: Seq<(Seq<u8>, Seq<u8>)>,
    /// Tallies, one per candidate.
    pub results: Seq<TallyView>,
}

impl SchemaView {
    /// A candidate with identity `k` is registered.
    pub open spec fn has_candidate(self, k: Seq<u8>) -> bool {
        exists|i: int| 0 <= i < self.candidates.len() && #[trigger] self.candidates[i].pub_key@ == k
    }

    /// A voter with identity `k` is registered.
    pub open spec fn has_voter(self, k: Seq<u8>) -> bool {
        exists|i: int| 0 <= i < self.voters.len() && #[trigger] self.voters[i].pub_key@ == k
    }

    /// A ballot is stored in slot `h`.
    pub open spec fn has_vote(self, h: Seq<u8>) -> bool {
        exists|i: int| 0 <= i < self.votes.len() && #[trigger] self.votes[i].0 == h
    }

    /// A tally for the candidate with identity `k` is stored.
    pub open spec fn has_result(self, k: Seq<u8>) -> bool {
        exists|i: int| 0 <= i < self.results.len() && #[trigger] self.results[i].candidate == k
    }

    /// The candidate registered under `k`.
    pub open spec fn candidate_of(self, k: Seq<u8>) -> Option<Candidate> {
        if self.has_candidate(k) {
            Some(
                self.candidates[choose|i: int|
                    0 <= i < self.candidates.len() && #[trigger] self.candidates[i].pub_key@ == k],
            )
        } else {
            None
        }
    }

    /// The voter registered under `k`.
    pub open spec fn voter_of(self, k: Seq<u8>) -> Option<Voter> {
        if self.has_voter(k) {
            Some(
                self.voters[choose|i: int|
                    0 <= i < self.voters.len() && #[trigger] self.voters[i].pub_key@ == k],
            )
        } else {
            None
        }
    }

    /// The ciphertext stored in slot `h`.
    pub open spec fn vote_of(self, h: Seq<u8>) -> Option<Seq<u8>> {
        if self.has_vote(h) {
            Some(
                self.votes[choose|i: int|
                    0 <= i < self.votes.len() && #[trigger] self.votes[i].0 == h].1,
            )
        } else {
            None
        }
    }

    /// The tally of the candidate `k`.
    pub open spec fn result_of(self, k: Seq<u8>) -> Option<TallyView> {
        if self.has_result(k) {
            Some(
                self.results[choose|i: int|
                    0 <= i < self.results.len() && #[trigger] self.results[i].candidate == k],
            )
        } else {
            None
        }
    }

    /// Identities of the registered candidates.
    pub open spec fn candidate_keys(self) -> Seq<Seq<u8>> {
        self.candidates.map_values(|c: Candidate| c.pub_key@)
    }

    /// Identities of the registered voters.
    pub open spec fn voter_keys(self) -> Seq<Seq<u8>> {
        self.voters.map_values(|v: Voter| v.pub_key@)
    }

    /// Slot keys of the stored ballots.
    pub open spec fn vote_keys(self) -> Seq<Seq<u8>> {
        self.votes.map_values(|e: (Seq<u8>, Seq<u8>)| e.0)
    }

    /// Each collection is in strictly increasing order of its keys, each
    /// candidate has exactly one tally, at the same position, and each tally
    /// counts its ballots.
    pub open spec fn wf(self) -> bool {
        &&& sorted_keys(self.candidate_keys())
        &&& sorted_keys(self.voter_keys())
        &&& sorted_keys(self.vote_keys())
        &&& self.results.len() == self.candidates.len()
        &&& forall|i: int|
            0 <= i < self.results.len() ==> #[trigger] self.results[i].candidate
                == self.candidates[i].pub_key@
        &&& forall|i: int|
            0 <= i < self.results.len() ==> #[trigger] self.results[i].vote_num
                == self.results[i].votes.len()
    }
}

/// In a well-formed store, the tally at position `i` is the tally of its candidate.
pub proof fn lemma_result_of_index(s: SchemaView, i: int)
    requires
        s.wf(),
        0 <= i < s.results.len(),
    ensures
        s.result_of(s.results[i].candidate) == Some(s.results[i]),
        s.has_candidate(s.results[i].candidate),
{
    let k = s.results[i].candidate;
    let j = choose|j: int| 0 <= j < s.results.len() && #[trigger] s.results[j].candidate == k;
    assert(s.results[j].candidate == s.candidates[j].pub_key@);
    assert(s.results[i].candidate == s.candidates[i].pub_key@);
    assert(s.candidates[i].pub_key@ == k);
    assert(s.candidate_keys()[i] == s.candidate_keys()[j]);
    lemma_sorted_keys_unique(s.candidate_keys(), i, j);
}

/// In a well-formed store, each registered candidate has a tally, and only they do.
pub proof fn lemma_candidate_has_result(s: SchemaView, k: Seq<u8>)
    requires
        s.wf(),
    ensures
        s.has_candidate(k) <==> s.has_result(k),
{
    if s.has_candidate(k) {
        let i = choose|i: int| 0 <= i < s.candidates.len() && #[trigger] s.candidates[i].pub_key@ == k;
        assert(s.results[i].candidate == s.candidates[i].pub_key@);
    }
    if s.has_result(k) {
        let i = choose|i: int| 0 <= i < s.results.len() && #[trigger] s.results[i].candidate == k;
        assert(s.results[i].candidate == s.candidates[i].pub_key@);
    }
}

/// The store of the vote service: candidates, voters, sealed ballots and tallies.
#[derive(Debug)]
pub struct VoteServiceSchema {
    candidates: Vec<Candidate>,
    voters: Vec<Voter>,
    votes: Vec<(Vec<u8>, EncryptedVote)>,
    results: Vec<CandidateResult>,
}

impl View for VoteServiceSchema {
    type V = SchemaView;

    closed spec fn view(&self) -> SchemaView {
        SchemaView {
            candidates: self.candidates@,
            voters: self.voters@,
            votes: self.votes@.map_values(|e: (Vec<u8>, EncryptedVote)| (e.0@, e.1@)),
            results: self.results@.map_values(|r: CandidateResult| r@),
        }
    }
}

/// Two byte strings are equal.
fn bytes_equal(a: &[u8], b: &[u8]) -> (r: bool)
    ensures
        r == (a@ == b@),
{
    if a.len() != b.len() {
        return false;
    }
    let mut i: usize = 0;
    while i < a.len()
        invariant
            i <= a@.len(),
            a@.len() == b@.len(),
            forall|j: int| 0 <= j < i ==> a@[j] == b@[j],
        decreases a@.len() - i,
    {
        if a[i] != b[i] {
            return false;
        }
        i = i + 1;
    }
    assert(a@ =~= b@);
    true
}

/// An entry of the store, found by a byte-string key.
trait Keyed {
    /// The entry's key.
    spec fn key_view(&self) -> Seq<u8>;

    /// The entry's key.
    fn key(&self) -> (r: &[u8])
        ensures
            r@ == self.key_view(),
    ;
}

impl Keyed for Candidate {
    closed spec fn key_view(&self) -> Seq<u8> {
        self.pub_key@
    }

    fn key(&self) -> (r: &[u8]) {
        self.pub_key.bytes.as_slice()
    }
}

impl Keyed for Voter {
    closed spec fn key_view(&self) -> Seq<u8> {
        self.pub_key@
    }

    fn key(&self) -> (r: &[u8]) {
        self.pub_key.bytes.as_slice()
    }
}

impl Keyed for (Vec<u8>, EncryptedVote) {
    closed spec fn key_view(&self) -> Seq<u8> {
        self.0@
    }

    fn key(&self) -> (r: &[u8]) {
        self.0.as_slice()
    }
}

impl Keyed for CandidateResult {
    closed spec fn key_view(&self) -> Seq<u8> {
        self.candidate@
    }

    fn key(&self) -> (r: &[u8]) {
        self.candidate.bytes.as_slice()
    }
}

/// The keys of `items`, in order.
spec fn keys_of<T: Keyed>(items: Seq<T>) -> Seq<Seq<u8>> {
    items.map_values(|t: T| t.key_view())
}

/// The position of the entry with key `k` in `items`, if any.
fn find_key<T: Keyed>(items: &Vec<T>, k: &[u8]) -> (r: Option<usize>)
    ensures
        match r {
            Some(i) => i < items@.len() && items@[i as int].key_view() == k@,
            None => forall|j: int| 0 <= j < items@.len() ==> #[trigger] items@[j].key_view() != k@,
        },
{
    let mut i: usize = 0;
    while i < items.len()
        invariant
            i <= items@.len(),
            forall|j: int| 0 <= j < i ==> #[trigger] items@[j].key_view() != k@,
        decreases items@.len() - i,
    {
        if bytes_equal(items[i].key(), k) {
            return Some(i);
        }
        i = i + 1;
    }
    None
}

/// Where an entry with the absent key `k` belongs among the increasing keys of `items`.
fn key_position<T: Keyed>(items: &Vec<T>, k: &[u8]) -> (r: usize)
    requires
        sorted_keys(keys_of(items@)),
        forall|j: int| 0 <= j < items@.len() ==> #[trigger] items@[j].key_view() != k@,
    ensures
        r <= items@.len(),
        forall|j: int| 0 <= j < r ==> lex_lt(#[trigger] keys_of(items@)[j], k@),
        forall|j: int| r <= j < items@.len() ==> lex_lt(k@, #[trigger] keys_of(items@)[j]),
{
    let ghost keys = keys_of(items@);
    let mut i: usize = 0;
    while i < items.len()
        invariant
            i <= items@.len(),
            keys == keys_of(items@),
            sorted_keys(keys),
            forall|j: int| 0 <= j < items@.len() ==> #[trigger] items@[j].key_view() != k@,
            forall|j: int| 0 <= j < i ==> lex_lt(#[trigger] keys[j], k@),
        decreases items@.len() - i,
    {
        if !bytes_lt(items[i].key(), k) {
            proof {
                assert(keys[i as int] == items@[i as int].key_view());
                lemma_lex_lt_total(keys[i as int], k@);
                assert forall|j: int| i <= j < keys.len() implies lex_lt(k@, #[trigger] keys[j]) by {
                    if j > i {
                        lemma_lex_lt_transitive(k@, keys[i as int], keys[j]);
                    }
                }
            }
            return i;
        }
        i = i + 1;
    }
    i
}

impl VoteServiceSchema {
    /// An empty store.
    pub fn new() -> (r: VoteServiceSchema)
        ensures
            r@.wf(),
            r@.candidates.len() == 0,
            r@.voters.len() == 0,
            r@.votes.len() == 0,
            r@.results.len() == 0,
    {
        let r = VoteServiceSchema {
            candidates: Vec::new(),
            voters: Vec::new(),
            votes: Vec::new(),
            results: Vec::new(),
        };
        assert(r@.votes =~= Seq::empty());
        assert(r@.results =~= Seq::empty());
        r
    }

    fn candidate_index(&self, k: &PublicKey) -> (r: Option<usize>)
        ensures
            match r {
                Some(i) => i < self@.candidates.len() && self@.candidates[i as int].pub_key@ == k@,
                None => !self@.has_candidate(k@),
            },
    {
        let r = find_key(&self.candidates, k.bytes.as_slice());
        match r {
            Some(i) => {
                assert(self.candidates@[i as int].key_view() == self@.candidates[i as int].pub_key@);
            },
            None => {
                assert forall|j: int| 0 <= j < self@.candidates.len() implies #[trigger] self@.candidates[j].pub_key@
                    != k@ by {
                    assert(self.candidates@[j].key_view() == self@.candidates[j].pub_key@);
                }
            },
        }
        r
    }

    fn voter_index(&self, k: &PublicKey) -> (r: Option<usize>)
        ensures
            match r {
                Some(i) => i < self@.voters.len() && self@.voters[i as int].pub_key@ == k@,
                None => !self@.has_voter(k@),
            },
    {
        let r = find_key(&self.voters, k.bytes.as_slice());
        match r {
            Some(i) => {
                assert(self.voters@[i as int].key_view() == self@.voters[i as int].pub_key@);
            },
            None => {
                assert forall|j: int| 0 <= j < self@.voters.len() implies #[trigger] self@.voters[j].pub_key@
                    != k@ by {
                    assert(self.voters@[j].key_view() == self@.voters[j].pub_key@);
                }
            },
        }
        r
    }

    fn vote_index(&self, h: &Vec<u8>) -> (r: Option<usize>)
        ensures
            match r {
                Some(i) => i < self@.votes.len() && self@.votes[i as int].0 == h@,
                None => !self@.has_vote(h@),
            },
    {
        let r = find_key(&self.votes, h.as_slice());
        match r {
            Some(i) => {
                assert(self.votes@[i as int].key_view() == self@.votes[i as int].0);
            },
            None => {
                assert forall|j: int| 0 <= j < self@.votes.len() implies #[trigger] self@.votes[j].0
                    != h@ by {
                    assert(self.votes@[j].key_view() == self@.votes[j].0);
                }
            },
        }
        r
    }

    fn result_index(&self, k: &PublicKey) -> (r: Option<usize>)
        ensures
            match r {
                Some(i) => i < self@.results.len() && self@.results[i as int].candidate == k@,
                None => !self@.has_result(k@),
            },
    {
        let r = find_key(&self.results, k.bytes.as_slice());
        match r {
            Some(i) => {
                assert(self.results@[i as int].key_view() == self@.results[i as int].candidate);
            },
            None => {
                assert forall|j: int| 0 <= j < self@.results.len() implies #[trigger] self@.results[j].candidate
                    != k@ by {
                    assert(self.results@[j].key_view() == self@.results[j].candidate);
                }
            },
        }
        r
    }

    /// The candidate registered under `pub_key`.
    pub fn candidate(&self, pub_key: &PublicKey) -> (r: Option<Candidate>)
        requires
            self@.wf(),
        ensures
            r == self@.candidate_of(pub_key@),
    {
        match self.candidate_index(pub_key) {
            Some(i) => {
                let ghost c = choose|j: int|
                    0 <= j < self@.candidates.len() && #[trigger] self@.candidates[j].pub_key@
                        == pub_key@;
                proof {
                    assert(self@.candidate_keys()[c] == self@.candidate_keys()[i as int]);
                    lemma_sorted_keys_unique(self@.candidate_keys(), c, i as int);
                }
                Some(self.candidates[i].clone())
            },
            None => None,
        }
    }

    /// Every registered candidate, in order of identity.
    pub fn candidates(&self) -> (r: Vec<Candidate>)
        ensures
            r@ == self@.candidates,
    {
        let mut r: Vec<Candidate> = Vec::new();
        let mut i: usize = 0;
        while i < self.candidates.len()
            invariant
                i <= self.candidates@.len(),
                self@.candidates == self.candidates@,
                r@ == self.candidates@.subrange(0, i as int),
            decreases self.candidates@.len() - i,
        {
            r.push(self.candidates[i].clone());
            i = i + 1;
        }
        assert(self.candidates@.subrange(0, i as int) =~= self.candidates@);
        r
    }

    /// The voter registered under `pub_key`.
    pub fn voter(&self, pub_key: &PublicKey) -> (r: Option<Voter>)
        requires
            self@.wf(),
        ensures
            r == self@.voter_of(pub_key@),
    {
        match self.voter_index(pub_key) {
            Some(i) => {
                let ghost c = choose|j: int|
                    0 <= j < self@.voters.len() && #[trigger] self@.voters[j].pub_key@
                        == pub_key@;
                proof {
                    assert(self@.voter_keys()[c] == self@.voter_keys()[i as int]);
                    lemma_sorted_keys_unique(self@.voter_keys(), c, i as int);
                }
                Some(self.voters[i].clone())
            },
            None => None,
        }
    }

    /// Every registered voter, in order of identity.
    pub fn voters(&self) -> (r: Vec<Voter>)
        ensures
            r@ == self@.voters,
    {
        let mut r: Vec<Voter> = Vec::new();
        let mut i: usize = 0;
        while i < self.voters.len()
            invariant
                i <= self.voters@.len(),
                self@.voters == self.voters@,
                r@ == self.voters@.subrange(0, i as int),
            decreases self.voters@.len() - i,
        {
            r.push(self.voters[i].clone());
            i = i + 1;
        }
        assert(self.voters@.subrange(0, i as int) =~= self.voters@);
        r
    }

    /// The sealed ballot stored in slot `hash`.
    pub fn vote(&self, hash: &Vec<u8>) -> (r: Option<EncryptedVote>)
        requires
            self@.wf(),
        ensures
            match r {
                Some(e) => self@.vote_of(hash@) == Some(e@),
                None => self@.vote_of(hash@) is None,
            },
    {
        match self.vote_index(hash) {
            Some(i) => {
                let ghost c = choose|j: int|
                    0 <= j < self@.votes.len() && #[trigger] self@.votes[j].0 == hash@;
                proof {
                    assert(self@.vote_keys()[c] == self@.vote_keys()[i as int]);
                    lemma_sorted_keys_unique(self@.vote_keys(), c, i as int);
                }
                Some(self.votes[i].1.clone())
            },
            None => None,
        }
    }

    /// Every sealed ballot, in order of slot key.
    pub fn votes(&self) -> (r: Vec<EncryptedVote>)
        ensures
            ballots_view(r@) == self@.votes.map_values(|e: (Seq<u8>, Seq<u8>)| e.1),
    {
        let mut r: Vec<EncryptedVote> = Vec::new();
        let mut i: usize = 0;
        while i < self.votes.len()
            invariant
                i <= self.votes@.len(),
                self@.votes.len() == self.votes@.len(),
                r@.len() == i,
                forall|j: int| 0 <= j < i ==> r@[j]@ == #[trigger] self@.votes[j].1,
            decreases self.votes@.len() - i,
        {
            r.push(self.votes[i].1.clone());
            i = i + 1;
        }
        assert(ballots_view(r@) =~= self@.votes.map_values(|e: (Seq<u8>, Seq<u8>)| e.1));
        r
    }

    /// The tally of the candidate `pub_key`.
    pub fn candidate_result(&self, pub_key: &PublicKey) -> (r: Option<CandidateResult>)
        requires
            self@.wf(),
        ensures
            match r {
                Some(t) => self@.result_of(pub_key@) == Some(t@),
                None => self@.result_of(pub_key@) is None,
            },
    {
        match self.result_index(pub_key) {
            Some(i) => {
                let ghost c = choose|j: int|
                    0 <= j < self@.results.len() && #[trigger] self@.results[j].candidate
                        == pub_key@;
                proof {
                    assert(self@.results[c].candidate == self@.candidates[c].pub_key@);
                    let ii = i as int;
                    assert(self@.results[ii].candidate == self@.candidates[ii].pub_key@);
                    assert(self@.candidate_keys()[c] == self@.candidate_keys()[i as int]);
                    lemma_sorted_keys_unique(self@.candidate_keys(), c, i as int);
                }
                Some(self.results[i].clone())
            },
            None => None,
        }
    }

    /// Every tally, in order of candidate identity.
    pub fn vote_results(&self) -> (r: Vec<CandidateResult>)
        ensures
            r@.map_values(|t: CandidateResult| t@) == self@.results,
    {
        let mut r: Vec<CandidateResult> = Vec::new();
        let mut i: usize = 0;
        while i < self.results.len()
            invariant
                i <= self.results@.len(),
                self@.results.len() == self.results@.len(),
                r@.len() == i,
                forall|j: int| 0 <= j < i ==> r@[j]@ == #[trigger] self@.results[j],
            decreases self.results@.len() - i,
        {
            r.push(self.results[i].clone());
            i = i + 1;
        }
        assert(r@.map_values(|t: CandidateResult| t@) =~= self@.results);
        r
    }

    /// Where a candidate with identity `k` belongs among the registered ones.
    fn candidate_position(&self, k: &PublicKey) -> (r: usize)
        requires
            self@.wf(),
            !self@.has_candidate(k@),
        ensures
            r <= self@.candidates.len(),
            forall|j: int| 0 <= j < r ==> lex_lt(#[trigger] self@.candidate_keys()[j], k@),
            forall|j: int|
                r <= j < self@.candidates.len() ==> lex_lt(k@, #[trigger] self@.candidate_keys()[j]),
    {
        proof {
            assert(keys_of(self.candidates@) =~= self@.candidate_keys());
            assert forall|j: int| 0 <= j < self.candidates@.len() implies #[trigger] self.candidates@[j].key_view()
                != k@ by {
                assert(self@.candidates[j].pub_key@ == self.candidates@[j].key_view());
            }
        }
        key_position(&self.candidates, k.bytes.as_slice())
    }

    /// Where a voter with identity `k` belongs among the registered ones.
    fn voter_position(&self, k: &PublicKey) -> (r: usize)
        requires
            self@.wf(),
            !self@.has_voter(k@),
        ensures
            r <= self@.voters.len(),
            forall|j: int| 0 <= j < r ==> lex_lt(#[trigger] self@.voter_keys()[j], k@),
            forall|j: int|
                r <= j < self@.voters.len() ==> lex_lt(k@, #[trigger] self@.voter_keys()[j]),
    {
        proof {
            assert(keys_of(self.voters@) =~= self@.voter_keys());
            assert forall|j: int| 0 <= j < self.voters@.len() implies #[trigger] self.voters@[j].key_view()
                != k@ by {
                assert(self@.voters[j].pub_key@ == self.voters@[j].key_view());
            }
        }
        key_position(&self.voters, k.bytes.as_slice())
    }

    /// Where a ballot with slot key `h` belongs among the stored ones.
    fn vote_position(&self, h: &Vec<u8>) -> (r: usize)
        requires
            self@.wf(),
            !self@.has_vote(h@),
        ensures
            r <= self@.votes.len(),
            forall|j: int| 0 <= j < r ==> lex_lt(#[trigger] self@.vote_keys()[j], h@),
            forall|j: int| r <= j < self@.votes.len() ==> lex_lt(h@, #[trigger] self@.vote_keys()[j]),
    {
        proof {
            assert(keys_of(self.votes@) =~= self@.vote_keys());
            assert forall|j: int| 0 <= j < self.votes@.len() implies #[trigger] self.votes@[j].key_view()
                != h@ by {
                assert(self@.votes[j].0 == self.votes@[j].key_view());
            }
        }
        key_position(&self.votes, h.as_slice())
    }

    /// Registers `candidate` together with its empty tally, both at the
    /// candidate's place in the order of identities.
    pub fn add_candidate(&mut self, candidate: Candidate)
        requires
            old(self)@.wf(),
            !old(self)@.has_candidate(candidate.pub_key@),
        ensures
            final(self)@.wf(),
            exists|p: int|
                0 <= p <= old(self)@.candidates.len() && final(self)@.candidates == old(
                    self,
                )@.candidates.insert(p, candidate) && final(self)@.results == old(self)@.results.insert(
                    p,
                    (TallyView { candidate: candidate.pub_key@, votes: Seq::empty(), vote_num: 0 }),
                ),
            final(self)@.voters == old(self)@.voters,
            final(self)@.votes == old(self)@.votes,
    {
        let ghost pre = self@;
        let p = self.candidate_position(&candidate.pub_key);
        let result = CandidateResult {
            candidate: candidate.pub_key,
            votes: Vec::new(),
            vote_num: 0,
        };
        assert(ballots_view(result.votes@) =~= Seq::empty());
        let ghost k = candidate.pub_key@;
        self.candidates.insert(p, candidate);
        self.results.insert(p, result);
        proof {
            assert(self@.results =~= pre.results.insert(p as int, result@));
            assert(self@.votes =~= pre.votes);
            assert(self@.voters =~= pre.voters);
            assert(self@.candidate_keys() =~= pre.candidate_keys().insert(p as int, k));
            lemma_sorted_insert(pre.candidate_keys(), p as int, k);
            assert forall|i: int| 0 <= i < self@.results.len() implies #[trigger] self@.results[i].candidate
                == self@.candidates[i].pub_key@ by {
                if i < p {
                    assert(pre.results[i].candidate == pre.candidates[i].pub_key@);
                } else if i > p {
                    assert(pre.results[i - 1].candidate == pre.candidates[i - 1].pub_key@);
                }
            }
            assert forall|i: int| 0 <= i < self@.results.len() implies #[trigger] self@.results[i].vote_num
                == self@.results[i].votes.len() by {
                if i < p {
                    assert(pre.results[i].vote_num == pre.results[i].votes.len());
                } else if i > p {
                    assert(pre.results[i - 1].vote_num == pre.results[i - 1].votes.len());
                }
            }
        }
    }

    /// Registers `voter` at its place in the order of identities.
    pub fn add_voter(&mut self, voter: Voter)
        requires
            old(self)@.wf(),
            !old(self)@.has_voter(voter.pub_key@),
        ensures
            final(self)@.wf(),
            exists|p: int|
                0 <= p <= old(self)@.voters.len() && final(self)@.voters == old(
                    self,
                )@.voters.insert(p, voter),
            final(self)@.candidates == old(self)@.candidates,
            final(self)@.votes == old(self)@.votes,
            final(self)@.results == old(self)@.results,
    {
        let ghost pre = self@;
        let p = self.voter_position(&voter.pub_key);
        let ghost k = voter.pub_key@;
        self.voters.insert(p, voter);
        proof {
            assert(self@.votes =~= pre.votes);
            assert(self@.results =~= pre.results);
            assert(self@.voter_keys() =~= pre.voter_keys().insert(p as int, k));
            lemma_sorted_insert(pre.voter_keys(), p as int, k);
        }
    }

    /// Stores the sealed ballot `vote` in the free slot `hash`, at the slot's
    /// place in the order of slot keys.
    pub fn add_vote(&mut self, hash: Vec<u8>, vote: EncryptedVote)
        requires
            old(self)@.wf(),
            !old(self)@.has_vote(hash@),
        ensures
            final(self)@.wf(),
            exists|p: int|
                0 <= p <= old(self)@.votes.len() && final(self)@.votes == old(self)@.votes.insert(
                    p,
                    (hash@, vote@),
                ),
            final(self)@.candidates == old(self)@.candidates,
            final(self)@.voters == old(self)@.voters,
            final(self)@.results == old(self)@.results,
    {
        let ghost pre = self@;
        let ghost entry = (hash@, vote@);
        let p = self.vote_position(&hash);
        self.votes.insert(p, (hash, vote));
        proof {
            assert(self@.votes =~= pre.votes.insert(p as int, entry));
            assert(self@.results =~= pre.results);
            assert(self@.candidates =~= pre.candidates);
            assert(self@.voters =~= pre.voters);
            assert(self@.vote_keys() =~= pre.vote_keys().insert(p as int, entry.0));
            lemma_sorted_insert(pre.vote_keys(), p as int, entry.0);
        }
    }

    /// Replaces the tally of `result.candidate`, which must be stored already.
    pub fn put_candidate_result(&mut self, result: CandidateResult)
        requires
            old(self)@.wf(),
            old(self)@.has_result(result.candidate@),
            result.vote_num == result.votes@.len(),
        ensures
            final(self)@.wf(),
            final(self)@.results.len() == old(self)@.results.len(),
            forall|i: int|
                0 <= i < old(self)@.results.len() ==> #[trigger] final(self)@.results[i] == if old(
                    self,
                )@.results[i].candidate == result.candidate@ {
                    result@
                } else {
                    old(self)@.results[i]
                },
            final(self)@.candidates == old(self)@.candidates,
            final(self)@.voters == old(self)@.voters,
            final(self)@.votes == old(self)@.votes,
    {
        let ghost pre = self@;
        let ghost tally = result@;
        let i = match self.result_index(&result.candidate) {
            Some(i) => i,
            None => {
                return;
            },
        };
        self.results.set(i, result);
        assert(self@.results =~= pre.results.update(i as int, tally));
        assert(self@.votes =~= pre.votes);
        assert(self@.candidates =~= pre.candidates);
        assert(self@.voters =~= pre.voters);
        assert forall|j: int| 0 <= j < pre.results.len() implies #[trigger] self@.results[j]
            == if pre.results[j].candidate == tally.candidate {
            tally
        } else {
            pre.results[j]
        } by {
            if j != i as int && pre.results[j].candidate == tally.candidate {
                assert(pre.results[j].candidate == pre.candidates[j].pub_key@);
                assert(pre.results[i as int].candidate == pre.candidates[i as int].pub_key@);
                assert(pre.candidate_keys()[j] == pre.candidate_keys()[i as int]);
                lemma_sorted_keys_unique(pre.candidate_keys(), j, i as int);
            }
        }
    }
}

} // verus!
