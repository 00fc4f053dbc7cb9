use vote_service::agreement::{generate_ephemeral, generate_key_pair};
use vote_service::cipher::decrypt_vote;
use vote_service::config::VoteServiceConfig;
use vote_service::errors::{Error, KeyAgreementError};
use vote_service::schema::{PublicKey, VoteServiceSchema};
use vote_service::transactions::{TxAddVote, TxCreateCandidate, TxCreateVoter, VoteTransactions};
use vote_service::{ServiceFactory, SERVICE_ID};

#[test]
fn factory_needs_author_key() {
    let r = ServiceFactory.make_service(VoteServiceConfig::default());
    assert!(matches!(r, Err(KeyAgreementError::NoAuthorityKey)));
    assert_eq!(ServiceFactory.service_name(), "voteservice");
}

#[test]
fn service_runs_operations_and_discloses() {
    let author = generate_key_pair().unwrap();
    let config = VoteServiceConfig { author_public_key: PublicKey::from_slice(&author.public) };
    let service = ServiceFactory.make_service(config).unwrap();
    assert_eq!(service.service_id(), SERVICE_ID);
    assert_eq!(service.service_id(), 42);
    assert_eq!(service.service_name(), "voteservice");
    assert_eq!(service.config().author_public_key, PublicKey::from_slice(&author.public));

    let alice = PublicKey::new([0xA; 32]);
    let bob = PublicKey::new([0xB; 32]);
    let mut schema = VoteServiceSchema::new();
    let ops = vec![
        VoteTransactions::TxCreateCandidate(TxCreateCandidate::new(&alice, "Alice".to_string(), "x".to_string())),
        VoteTransactions::TxCreateVoter(TxCreateVoter::new(&bob, "Bob".to_string())),
        VoteTransactions::TxAddVote(TxAddVote::new(&bob, &bob, &alice)),
    ];
    for op in &ops {
        assert_eq!(service.execute(op, &mut schema), Ok(()));
    }
    assert_eq!(service.execute(&ops[2], &mut schema), Err(Error::VoteAlreadyExists));

    let disclosed = service.results_decrypted(&schema);
    assert_eq!(disclosed.len(), 1);
    assert_eq!(disclosed[0].vote_num, 1);
    let v = disclosed[0].votes[0].unwrap();
    assert_eq!((v.from, v.to), (bob, alice));

    let sealed = service.results(&schema);
    assert_eq!(sealed.pub_key.to_vec(), service.ephemeral_keys().public_out_key);
    let authority_side = generate_ephemeral(&sealed.pub_key.bytes, author.secret).unwrap();
    let opened = decrypt_vote(&sealed.candidate_results[0].votes[0], &authority_side).unwrap();
    assert_eq!((opened.from, opened.to), (bob, alice));
}
