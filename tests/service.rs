use vote_service::agreement::{
    generate_ephemeral, generate_key_pair, get_ephemeral, init_ephemeral, EphemeralKeys, KeyPair,
    KeyState,
};
use vote_service::api::{CommittedTransaction, VoteServiceApi};
use vote_service::errors::{Error, KeyAgreementError};
use vote_service::schema::{Candidate, EncryptedVote, PublicKey, VoteServiceSchema, Voter};
use vote_service::config::VoteServiceConfig;
use vote_service::service_name as name_of_service;
use vote_service::ServiceFactory;
use vote_service::transactions::{TxAddVote, TxCreateCandidate, TxCreateVoter, VoteTransactions};

fn key(b: u8) -> PublicKey {
    PublicKey::new([b; 32])
}

fn init_keys() -> (KeyState, KeyPair) {
    let author_key_pair = generate_key_pair().unwrap();
    let mut state = KeyState::new();
    init_ephemeral(&mut state, &author_key_pair.public).unwrap();
    (state, author_key_pair)
}

fn create_candidate(schema: &mut VoteServiceSchema, k: &PublicKey, name: &str, info: &str) -> TxCreateCandidate {
    let tx = TxCreateCandidate::new(k, name.to_string(), info.to_string());
    tx.execute(schema).unwrap();
    tx
}

fn create_voter(schema: &mut VoteServiceSchema, k: &PublicKey, name: &str) -> TxCreateVoter {
    let tx = TxCreateVoter::new(k, name.to_string());
    tx.execute(schema).unwrap();
    tx
}

fn get_candidate(schema: &VoteServiceSchema, k: &PublicKey) -> Candidate {
    VoteServiceApi::get_candidate(schema, k).expect("Candidate not found")
}

fn get_voter(schema: &VoteServiceSchema, k: &PublicKey) -> Voter {
    VoteServiceApi::get_voter(schema, k).expect("Voter not found")
}

#[test]
fn it_works() {
    assert_eq!(2 + 2, 4);
}

#[test]
fn service_name() {
    let author = generate_key_pair().unwrap();
    let config = VoteServiceConfig { author_public_key: PublicKey::from_slice(&author.public) };
    let service = ServiceFactory.make_service(config).unwrap();
    let name = service.service_name();
    assert_eq!("voteservice", name);
    assert_eq!("voteservice", name_of_service());
}

#[test]
fn test_create_candidate() {
    let mut schema = VoteServiceSchema::new();
    let tx = create_candidate(&mut schema, &key(1), "Alice", "Some info");

    let candidate = get_candidate(&schema, &tx.pub_key);

    assert_eq!(candidate.pub_key, tx.pub_key);
    assert_eq!(candidate.name, "Alice");
    assert_eq!(candidate.info, "Some info");
}

#[test]
fn test_create_voter() {
    let mut schema = VoteServiceSchema::new();
    let tx = create_voter(&mut schema, &key(2), "Bob");

    let voter = get_voter(&schema, &tx.pub_key);

    assert_eq!(voter.pub_key, tx.pub_key);
    assert_eq!(voter.name, "Bob");
}

#[test]
fn test_get_results() {
    let (state, key_pair) = init_keys();
    let keys = get_ephemeral(&state).unwrap();
    let mut schema = VoteServiceSchema::new();

    let cand_tx = create_candidate(&mut schema, &key(1), "Alice", "Some info");
    let cand = get_candidate(&schema, &cand_tx.pub_key);

    let voter_tx = create_voter(&mut schema, &key(2), "Bob");
    let voter = get_voter(&schema, &voter_tx.pub_key);

    TxAddVote::new(&key(3), &voter.pub_key, &cand.pub_key).execute(&mut schema, &keys).unwrap();

    let enc_result = VoteServiceApi::get_results(&schema, &keys);
    assert_eq!(enc_result.candidate_results.len(), 1);

    let service_pub_key = enc_result.pub_key;
    let ephemeral = generate_ephemeral(&service_pub_key.bytes, key_pair.secret).unwrap();

    let cand_res = &enc_result.candidate_results[0];
    assert_eq!(cand_res.candidate, cand.pub_key);
    assert_eq!(cand_res.votes.len(), 1);
    assert_eq!(cand_res.vote_num, 1);

    let enc_vote = &cand_res.votes[0];
    let dec_vote = vote_service::cipher::decrypt_vote(enc_vote, &ephemeral).unwrap();
    assert_eq!(dec_vote.from, voter.pub_key);
    assert_eq!(dec_vote.to, cand.pub_key);
}

#[test]
fn test_get_decrypted_results() {
    let (state, _) = init_keys();
    let keys = get_ephemeral(&state).unwrap();
    let mut schema = VoteServiceSchema::new();

    let cand_tx = create_candidate(&mut schema, &key(1), "Alice", "Some info");
    let cand = get_candidate(&schema, &cand_tx.pub_key);

    let voter_tx = create_voter(&mut schema, &key(2), "Bob");
    let voter = get_voter(&schema, &voter_tx.pub_key);

    TxAddVote::new(&key(3), &voter.pub_key, &cand.pub_key).execute(&mut schema, &keys).unwrap();

    let dec_result = VoteServiceApi::get_results_decrypted(&schema, &keys);

    assert_eq!(dec_result.len(), 1);

    let cand_res = &dec_result[0];
    assert_eq!(cand_res.candidate, cand.pub_key);
    assert_eq!(cand_res.votes.len(), 1);
    assert_eq!(cand_res.vote_num, 1);

    let vote = cand_res.votes[0].unwrap();
    assert_eq!(vote.from, voter.pub_key);
    assert_eq!(vote.to, cand.pub_key);
}

#[test]
fn test_get_block() {
    let (state, _) = init_keys();
    let keys = get_ephemeral(&state).unwrap();
    let mut schema = VoteServiceSchema::new();
    let mut log: Vec<CommittedTransaction> = Vec::new();

    let cand_tx = create_candidate(&mut schema, &key(1), "Alice", "Some info");
    let cand = get_candidate(&schema, &cand_tx.pub_key);
    log.push(CommittedTransaction { transaction: VoteTransactions::TxCreateCandidate(cand_tx), block_height: 1 });

    let voter_tx = create_voter(&mut schema, &key(2), "Bob");
    let voter = get_voter(&schema, &voter_tx.pub_key);
    log.push(CommittedTransaction { transaction: VoteTransactions::TxCreateVoter(voter_tx), block_height: 2 });

    let vote_tx = TxAddVote::new(&key(3), &voter.pub_key, &cand.pub_key);
    let op = VoteTransactions::TxAddVote(vote_tx);
    op.execute(&mut schema, &keys).unwrap();
    let height = 3;
    log.push(CommittedTransaction { transaction: op, block_height: height });

    let block_height = VoteServiceApi::get_block(&log, &voter.pub_key).unwrap();

    assert_eq!(height, block_height);
    assert_eq!(VoteServiceApi::get_block(&log, &cand.pub_key), None);
}

#[test]
fn register_candidate_twice_keeps_first() {
    let mut schema = VoteServiceSchema::new();
    create_candidate(&mut schema, &key(1), "Alice", "x");
    let second = TxCreateCandidate::new(&key(1), "Mallory".to_string(), "y".to_string());
    assert_eq!(second.execute(&mut schema), Err(Error::CandidateAlreadyExists));
    let all = VoteServiceApi::get_candidates(&schema);
    assert_eq!(all.len(), 1);
    assert_eq!(all[0].name, "Alice");
    assert_eq!(all[0].info, "x");
    assert_eq!(schema.vote_results().len(), 1);
}

#[test]
fn register_voter_twice_keeps_first() {
    let mut schema = VoteServiceSchema::new();
    create_voter(&mut schema, &key(2), "Bob");
    let second = TxCreateVoter::new(&key(2), "Eve".to_string());
    assert_eq!(second.execute(&mut schema), Err(Error::VoterAlreadyExists));
    let all = VoteServiceApi::get_voters(&schema);
    assert_eq!(all.len(), 1);
    assert_eq!(all[0].name, "Bob");
}

#[test]
fn second_vote_of_voter_is_refused() {
    let (state, _) = init_keys();
    let keys = get_ephemeral(&state).unwrap();
    let mut schema = VoteServiceSchema::new();
    create_candidate(&mut schema, &key(1), "Alice", "x");
    create_candidate(&mut schema, &key(4), "Carol", "z");
    create_voter(&mut schema, &key(2), "Bob");

    TxAddVote::new(&key(2), &key(2), &key(1)).execute(&mut schema, &keys).unwrap();
    let before = schema.vote_results();

    let same = TxAddVote::new(&key(2), &key(2), &key(1)).execute(&mut schema, &keys);
    assert_eq!(same, Err(Error::VoteAlreadyExists));
    let other = TxAddVote::new(&key(2), &key(2), &key(4)).execute(&mut schema, &keys);
    assert_eq!(other, Err(Error::VoteAlreadyExists));

    let after = schema.vote_results();
    assert_eq!(before.len(), after.len());
    for (b, a) in before.iter().zip(after.iter()) {
        assert_eq!(b.candidate, a.candidate);
        assert_eq!(b.vote_num, a.vote_num);
        assert_eq!(b.votes.len(), a.votes.len());
        for (x, y) in b.votes.iter().zip(a.votes.iter()) {
            assert_eq!(x.data, y.data);
        }
    }
    assert_eq!(VoteServiceApi::get_votes(&schema).len(), 1);
}

#[test]
fn vote_for_unregistered_candidate_fails() {
    let (state, _) = init_keys();
    let keys = get_ephemeral(&state).unwrap();
    let mut schema = VoteServiceSchema::new();
    create_voter(&mut schema, &key(2), "Bob");

    let r = TxAddVote::new(&key(2), &key(2), &key(1)).execute(&mut schema, &keys);
    assert_eq!(r, Err(Error::CandidateNotFound));
    assert!(VoteServiceApi::get_votes(&schema).is_empty());
    assert!(schema.vote_results().is_empty());
}

#[test]
fn vote_by_unregistered_voter_fails() {
    let (state, _) = init_keys();
    let keys = get_ephemeral(&state).unwrap();
    let mut schema = VoteServiceSchema::new();
    create_candidate(&mut schema, &key(1), "Alice", "x");

    let r = TxAddVote::new(&key(2), &key(2), &key(1)).execute(&mut schema, &keys);
    assert_eq!(r, Err(Error::VoterNotFound));
    assert!(VoteServiceApi::get_votes(&schema).is_empty());
    let tally = VoteServiceApi::get_candidate_result(&schema, &key(1)).unwrap();
    assert_eq!(tally.vote_num, 0);
    assert!(tally.votes.is_empty());
}

#[test]
fn disclosure_after_single_vote() {
    let (state, _) = init_keys();
    let keys = get_ephemeral(&state).unwrap();
    let mut schema = VoteServiceSchema::new();
    create_candidate(&mut schema, &key(0xA), "Alice", "x");
    create_voter(&mut schema, &key(0xB), "Bob");
    TxAddVote::new(&key(0xB), &key(0xB), &key(0xA)).execute(&mut schema, &keys).unwrap();

    let disclosed = VoteServiceApi::get_results_decrypted(&schema, &keys);
    assert_eq!(disclosed.len(), 1);
    assert_eq!(disclosed[0].candidate, key(0xA));
    assert_eq!(disclosed[0].vote_num, 1);
    assert_eq!(disclosed[0].votes.len(), 1);
    let vote = disclosed[0].votes[0].unwrap();
    assert_eq!(vote.from, key(0xB));
    assert_eq!(vote.to, key(0xA));
}

#[test]
fn two_voters_one_candidate() {
    let (state, _) = init_keys();
    let keys = get_ephemeral(&state).unwrap();
    let mut schema = VoteServiceSchema::new();
    create_candidate(&mut schema, &key(0xA), "Alice", "x");
    create_voter(&mut schema, &key(0xB1), "Bob");
    create_voter(&mut schema, &key(0xB2), "Bea");
    TxAddVote::new(&key(0xB1), &key(0xB1), &key(0xA)).execute(&mut schema, &keys).unwrap();
    TxAddVote::new(&key(0xB2), &key(0xB2), &key(0xA)).execute(&mut schema, &keys).unwrap();

    let tally = VoteServiceApi::get_candidate_result(&schema, &key(0xA)).unwrap();
    assert_eq!(tally.vote_num, 2);
    assert_eq!(tally.votes.len(), 2);
    assert_ne!(tally.votes[0].data, tally.votes[1].data);

    let first = vote_service::cipher::decrypt_vote(&tally.votes[0], &keys).unwrap();
    let second = vote_service::cipher::decrypt_vote(&tally.votes[1], &keys).unwrap();
    assert_eq!((first.from, first.to), (key(0xB1), key(0xA)));
    assert_eq!((second.from, second.to), (key(0xB2), key(0xA)));
}

#[test]
fn tally_count_follows_accepted_votes() {
    let (state, _) = init_keys();
    let keys = get_ephemeral(&state).unwrap();
    let mut schema = VoteServiceSchema::new();
    create_candidate(&mut schema, &key(0xA), "Alice", "x");
    for v in 1u8..=5 {
        create_voter(&mut schema, &key(v), "voter");
        TxAddVote::new(&key(v), &key(v), &key(0xA)).execute(&mut schema, &keys).unwrap();
        let tally = VoteServiceApi::get_candidate_result(&schema, &key(0xA)).unwrap();
        assert_eq!(tally.vote_num, v as u64);
        assert_eq!(tally.votes.len(), v as usize);
    }
}

#[test]
fn ballot_slot_is_hash_of_voter() {
    let (state, _) = init_keys();
    let keys = get_ephemeral(&state).unwrap();
    let mut schema = VoteServiceSchema::new();
    create_candidate(&mut schema, &key(0xA), "Alice", "x");
    create_voter(&mut schema, &key(0xB), "Bob");
    TxAddVote::new(&key(0xB), &key(0xB), &key(0xA)).execute(&mut schema, &keys).unwrap();

    let slot = ring::digest::digest(&ring::digest::SHA256, &[0xBu8; 32]).as_ref().to_vec();
    assert!(schema.vote(&slot).is_some());
    assert!(schema.vote(&vec![0xBu8; 32]).is_none());
}

#[test]
fn key_state_is_initialized_once() {
    let mut state = KeyState::new();
    assert!(get_ephemeral(&state).is_none());
    let author = generate_key_pair().unwrap();
    assert_eq!(author.public.len(), 32);
    assert_eq!(init_ephemeral(&mut state, &author.public), Ok(()));
    let keys = get_ephemeral(&state).unwrap();
    assert_eq!(keys.public_out_key.len(), 32);
    assert_eq!(keys.ephemeral_key.len(), 32);
    let other = generate_key_pair().unwrap();
    assert_eq!(init_ephemeral(&mut state, &other.public), Err(KeyAgreementError::AlreadyInitialized));
    let again = get_ephemeral(&state).unwrap();
    assert_eq!(again.ephemeral_key, keys.ephemeral_key);
}

#[test]
fn key_state_refuses_malformed_peer_key() {
    let mut state = KeyState::new();
    assert!(init_ephemeral(&mut state, &[7u8; 31]).is_err());
    assert!(get_ephemeral(&state).is_none());
}

#[test]
fn both_sides_derive_the_same_secret() {
    let author = generate_key_pair().unwrap();
    let service = generate_key_pair().unwrap();
    let service_public = service.public.clone();
    let service_side = generate_ephemeral(&author.public, service.secret).unwrap();
    let author_side = generate_ephemeral(&service_public, author.secret).unwrap();
    assert_eq!(service_side.public_out_key, service_public);
    assert_eq!(service_side.ephemeral_key, author_side.ephemeral_key);
    assert_eq!(service_side.ephemeral_key.len(), 32);
    assert_ne!(service_side.ephemeral_key, vec![0u8; 32]);
}

#[test]
fn ephemeral_keys_clone() {
    let k = EphemeralKeys { public_out_key: vec![1, 2], ephemeral_key: vec![3] };
    let c = k.clone();
    assert_eq!(c.public_out_key, vec![1, 2]);
    assert_eq!(c.ephemeral_key, vec![3]);
}

#[test]
fn error_codes() {
    assert_eq!(Error::CandidateAlreadyExists.code(), 0);
    assert_eq!(Error::VoterAlreadyExists.code(), 1);
    assert_eq!(Error::VoteAlreadyExists.code(), 2);
    assert_eq!(Error::CandidateNotFound.code(), 3);
    assert_eq!(Error::CandidateResultNotFound.code(), 4);
    assert_eq!(Error::VoterNotFound.code(), 5);
}

#[test]
fn listings_follow_key_order() {
    let mut schema = VoteServiceSchema::new();
    for b in [9u8, 3, 7, 1] {
        create_candidate(&mut schema, &key(b), "c", "i");
        create_voter(&mut schema, &key(b), "v");
    }
    let mut k = [5u8; 32];
    k[31] = 0;
    create_candidate(&mut schema, &PublicKey::new(k), "c", "i");
    let order: Vec<u8> = VoteServiceApi::get_candidates(&schema).iter().map(|c| c.pub_key.bytes[0]).collect();
    assert_eq!(order, vec![1, 3, 5, 7, 9]);
    let voters: Vec<u8> = VoteServiceApi::get_voters(&schema).iter().map(|v| v.pub_key.bytes[0]).collect();
    assert_eq!(voters, vec![1, 3, 7, 9]);
    let tallies: Vec<u8> = schema.vote_results().iter().map(|t| t.candidate.bytes[0]).collect();
    assert_eq!(tallies, vec![1, 3, 5, 7, 9]);
}

#[test]
fn vote_in_given_slot() {
    let mut schema = VoteServiceSchema::new();
    create_candidate(&mut schema, &key(0xA), "Alice", "x");
    create_voter(&mut schema, &key(0xB), "Bob");
    create_voter(&mut schema, &key(0xC), "Cid");

    let tx = TxAddVote::new(&key(0xB), &key(0xB), &key(0xA));
    let r = tx.execute_in_slot(&mut schema, vec![1u8; 32], EncryptedVote::new(vec![9, 9]));
    assert_eq!(r, Ok(()));
    assert_eq!(schema.vote(&vec![1u8; 32]).unwrap().data, vec![9, 9]);
    let tally = VoteServiceApi::get_candidate_result(&schema, &key(0xA)).unwrap();
    assert_eq!(tally.vote_num, 1);
    assert_eq!(tally.votes[0].data, vec![9, 9]);

    let other = TxAddVote::new(&key(0xC), &key(0xC), &key(0xA));
    let r = other.execute_in_slot(&mut schema, vec![1u8; 32], EncryptedVote::new(vec![7]));
    assert_eq!(r, Err(Error::VoteAlreadyExists));
    let r = other.execute_in_slot(&mut schema, vec![0u8; 32], EncryptedVote::new(vec![7]));
    assert_eq!(r, Ok(()));
    let slots: Vec<Vec<u8>> = VoteServiceApi::get_votes(&schema).iter().map(|v| v.data.clone()).collect();
    assert_eq!(slots, vec![vec![7], vec![9, 9]]);
    let tally = VoteServiceApi::get_candidate_result(&schema, &key(0xA)).unwrap();
    assert_eq!(tally.vote_num, 2);
    assert_eq!(tally.votes[1].data, vec![7]);
}

#[test]
fn error_descriptions() {
    assert_eq!(Error::CandidateAlreadyExists.description(), "Candidate already exists");
    assert_eq!(Error::VoterAlreadyExists.description(), "Voter already exists");
    assert_eq!(Error::VoteAlreadyExists.description(), "Vote already exists");
    assert_eq!(Error::CandidateNotFound.description(), "Candidate not found");
    assert_eq!(Error::CandidateResultNotFound.description(), "Candidate result not found");
    assert_eq!(Error::VoterNotFound.description(), "Voter not found");
}

#[test]
fn small_order_peer_key_is_refused() {
    let mut state = KeyState::new();
    assert_eq!(init_ephemeral(&mut state, &[0u8; 32]), Err(KeyAgreementError::Agreement));
    assert!(get_ephemeral(&state).is_none());
    let config = VoteServiceConfig { author_public_key: Some(PublicKey::new([0u8; 32])) };
    assert!(matches!(ServiceFactory.make_service(config), Err(KeyAgreementError::Agreement)));
}
