use bytes::BytesMut;
use ed25519_dalek::{Signer, SigningKey};
use fortress::crypto::{fixed, verify_transaction};
use fortress::error::{ErrorKind, NodeError};
use fortress::packet::{deserialize_packet, serialize_into, ActorRequest, Transaction};
use fortress::quorum::{
    leader_faulty, peer_faulty, peer_wait_for_quorum, wait_for_quorum, PeerEvent, QuorumStep, QuorumWait, ViewChange,
    SET_CAPACITY,
};
use fortress::reader::{reader_task, vote_verdict, ReaderAction};
use fortress::vote::{create_vote, signed_vote};

fn key(seed: u8) -> SigningKey {
    SigningKey::from_bytes(&[seed; 32])
}

fn pubkey(seed: u8) -> [u8; 32] {
    key(seed).verifying_key().to_bytes()
}

fn vote(stage: &str, voter: u8) -> ActorRequest {
    ActorRequest::PeerVote { vote_type: stage.as_bytes().to_vec(), signed_msg: vec![], pubkey: [voter; 32] }
}

fn request() -> ActorRequest {
    ActorRequest::ConsensusRequest {
        transaction: Transaction {
            seq_counter: 0,
            view_number: 0,
            client_key: vec![],
            key: vec![],
            value: vec![],
            unsigned_msg: vec![],
            signed_msg: vec![],
        },
    }
}

#[test]
fn genuine_signature_is_accepted() {
    let signature = key(1).sign(b"message").to_bytes();
    assert!(verify_transaction(&pubkey(1), b"message", &signature).is_ok());
}

#[test]
fn other_message_or_key_is_rejected() {
    let signature = key(1).sign(b"message").to_bytes();
    let error = verify_transaction(&pubkey(1), b"massage", &signature).unwrap_err();
    assert_eq!(error.kind, ErrorKind::InvalidData);
    assert_eq!(error.message, "signature error: Verification equation was not satisfied");
    assert!(verify_transaction(&pubkey(2), b"message", &signature).is_err());
}

#[test]
fn wrong_lengths_are_rejected_like_any_slice() {
    let bytes = [0u8; 5];
    let expected = <[u8; 32]>::try_from(&bytes[..]).unwrap_err().to_string();
    let error = verify_transaction(&bytes, b"message", &[0; 64]).unwrap_err();
    assert_eq!(error.kind, ErrorKind::InvalidData);
    assert_eq!(error.message, expected);
    let error = verify_transaction(&pubkey(1), b"message", &[0; 63]).unwrap_err();
    assert_eq!(error.kind, ErrorKind::InvalidData);
    assert_eq!(error.message, expected);
}

#[test]
fn bytes_that_are_no_key_are_rejected_before_the_signature_is_looked_at() {
    let mut no_key = [0u8; 32];
    no_key[0] = 2;
    assert!(ed25519_dalek::VerifyingKey::from_bytes(&no_key).is_err());
    let error = verify_transaction(&no_key, b"message", &[0; 3]).unwrap_err();
    assert_eq!(error.kind, ErrorKind::InvalidData);
    assert_eq!(error.message, "signature error: Cannot decompress Edwards point");
}

#[test]
fn fixed_keeps_the_bytes() {
    let array: [u8; 3] = fixed(&[1, 2, 3]).unwrap();
    assert_eq!(array, [1, 2, 3]);
    assert!(fixed::<3>(&[1, 2]).is_err());
}

#[test]
fn created_vote_is_signed_by_the_node() {
    let mut pool = BytesMut::with_capacity(512);
    let packet = create_vote("PREPARE", &[7; 32], &mut pool);
    assert!(pool.is_empty());
    match deserialize_packet::<ActorRequest>(&packet).unwrap() {
        ActorRequest::PeerVote { vote_type, signed_msg, pubkey: voter } => {
            assert_eq!(vote_type, b"PREPARE");
            assert_eq!(signed_msg, key(7).sign(b"PREPARE").to_bytes());
            assert_eq!(voter, pubkey(7));
        }
        ActorRequest::ConsensusRequest { .. } => panic!("a vote was created"),
    }
}

#[test]
fn signed_vote_has_its_parts() {
    match signed_vote(b"COMMIT", &[1; 64], [2; 32]) {
        ActorRequest::PeerVote { vote_type, signed_msg, pubkey } => {
            assert_eq!(vote_type, b"COMMIT");
            assert_eq!(signed_msg, vec![1; 64]);
            assert_eq!(pubkey, [2; 32]);
        }
        ActorRequest::ConsensusRequest { .. } => panic!("a vote was made"),
    }
}

#[test]
fn reader_forwards_a_created_vote() {
    let packet = create_vote("COMMIT", &[7; 32], &mut BytesMut::new());
    match reader_task(&packet, &pubkey(7), false) {
        ReaderAction::Forward(ActorRequest::PeerVote { vote_type, .. }) => assert_eq!(vote_type, b"COMMIT"),
        other => panic!("not forwarded: {other:?}"),
    }
}

#[test]
fn reader_discards_a_vote_of_another_node() {
    let packet = create_vote("COMMIT", &[7; 32], &mut BytesMut::new());
    assert!(matches!(reader_task(&packet, &pubkey(8), true), ReaderAction::Discard));
}

#[test]
fn reader_stops_on_an_unusable_signature_or_key() {
    let short = serialize_into(&mut BytesMut::new(), &vote("PREPARE", 1));
    match reader_task(&short, &pubkey(1), false) {
        ReaderAction::Stop(error) => {
            assert_eq!(error.kind, ErrorKind::InvalidData);
            assert_eq!(error.message, "could not convert slice to array");
        }
        other => panic!("not stopped: {other:?}"),
    }
    let packet = create_vote("COMMIT", &[7; 32], &mut BytesMut::new());
    assert!(matches!(reader_task(&packet, b"", false), ReaderAction::Stop(_)));
}

#[test]
fn reader_stops_on_bytes_that_are_no_request() {
    match reader_task(&[1, 2, 3], &pubkey(1), true) {
        ReaderAction::Stop(error) => {
            assert_eq!(error.kind, ErrorKind::InvalidData);
            assert_eq!(error.message, "failed");
        }
        other => panic!("not stopped: {other:?}"),
    }
}

#[test]
fn reader_forwards_consensus_requests_of_those_that_may_propose() {
    let packet = serialize_into(&mut BytesMut::new(), &request());
    assert!(matches!(
        reader_task(&packet, b"whoever", true),
        ReaderAction::Forward(ActorRequest::ConsensusRequest { .. })
    ));
    assert!(matches!(reader_task(&packet, &pubkey(1), false), ReaderAction::Discard));
}

#[test]
fn reader_discards_a_vote_in_another_name() {
    let borrowed = signed_vote(b"COMMIT", &key(7).sign(b"COMMIT").to_bytes(), pubkey(8));
    let packet = serialize_into(&mut BytesMut::new(), &borrowed);
    assert!(matches!(reader_task(&packet, &pubkey(7), true), ReaderAction::Discard));
}

#[test]
fn verdict_follows_the_check() {
    assert!(matches!(vote_verdict(vote("PREPARE", 1), &[1; 32], Ok(())), ReaderAction::Forward(_)));
    assert!(matches!(vote_verdict(vote("PREPARE", 1), &[2; 32], Ok(())), ReaderAction::Discard));
    assert!(matches!(vote_verdict(request(), &[1; 32], Ok(())), ReaderAction::Discard));
    let failed = Err(NodeError::new(ErrorKind::InvalidData, "no"));
    assert!(matches!(vote_verdict(vote("PREPARE", 1), &[1; 32], failed), ReaderAction::Discard));
}

#[test]
fn faulty_nodes() {
    assert_eq!(leader_faulty(0), 1);
    assert_eq!(leader_faulty(5), 1);
    assert_eq!(leader_faulty(6), 2);
    assert_eq!(leader_faulty(9), 3);
    assert_eq!(peer_faulty(0), 1);
    assert_eq!(peer_faulty(4), 1);
    assert_eq!(peer_faulty(5), 2);
    assert_eq!(peer_faulty(8), 3);
}

#[test]
fn quorum_sizes() {
    assert_eq!(QuorumWait::begin((0, 0), 0, 1, "PREPARE").quorum, 3);
    assert_eq!(QuorumWait::begin((0, 0), 0, 2, "PREPARE").quorum, 5);
    assert_eq!(QuorumWait::begin((0, 0), 0, 3, "PREPARE").quorum, 7);
}

#[test]
fn quorum_formula_of_the_network() {
    for nodes in 4..40u32 {
        let expected = 2 * ((nodes - 1) / 3) + 1;
        let faulty = leader_faulty(nodes as usize - 1);
        assert_eq!(QuorumWait::begin((0, 0), 0, faulty, "PREPARE").quorum, expected);
        let faulty = peer_faulty(nodes as usize - 2);
        assert_eq!(QuorumWait::begin((0, 0), 0, faulty, "PREPARE").quorum, expected);
    }
}

#[test]
fn leader_and_peers_reckon_with_the_same_faults() {
    for peers in 1..40usize {
        assert_eq!(leader_faulty(peers), peer_faulty(peers - 1));
    }
}

#[test]
fn quorum_is_within_reach_though_faulty_nodes_keep_silent() {
    for nodes in 4..40usize {
        let faulty = leader_faulty(nodes - 1);
        let wait = QuorumWait::begin((0, 0), 0, faulty, "PREPARE");
        assert!(wait.quorum as usize <= nodes - faulty as usize);
    }
}

#[test]
fn one_faulty_node_asks_for_three_votes() {
    let mut wait = QuorumWait::begin((0, 0), 0, 1, "PREPARE");
    assert_eq!(wait_for_quorum(&mut wait, Some(&vote("PREPARE", 1))), QuorumStep::Waiting);
    assert_eq!(wait_for_quorum(&mut wait, Some(&vote("PREPARE", 2))), QuorumStep::Waiting);
    assert_eq!(wait_for_quorum(&mut wait, Some(&vote("PREPARE", 3))), QuorumStep::Reached);
    assert_eq!(wait.counter, 3);
}

#[test]
fn own_vote_is_counted_once() {
    let mut wait = QuorumWait::begin((0, 0), 0, 1, "PREPARE");
    wait.count(&[9; 32]);
    assert_eq!(wait.counter, 1);
    assert_eq!(wait_for_quorum(&mut wait, Some(&vote("PREPARE", 9))), QuorumStep::Waiting);
    assert_eq!(wait.counter, 1);
    let mut late = QuorumWait::begin((1, 0), 0, 1, "PREPARE");
    late.count(&[9; 32]);
    assert_eq!(late.counter, 0);
}

#[test]
fn each_voter_is_counted_once() {
    let mut wait = QuorumWait::begin((4, 4), 0, 2, "PREPARE");
    for voter in [1, 2, 1, 2, 3, 3, 4, 1] {
        assert_eq!(wait_for_quorum(&mut wait, Some(&vote("PREPARE", voter))), QuorumStep::Waiting);
    }
    assert_eq!(wait.counter, 4);
    assert_eq!(wait_for_quorum(&mut wait, Some(&vote("PREPARE", 5))), QuorumStep::Reached);
    assert_eq!(wait.counter, 5);
}

#[test]
fn other_stages_and_requests_do_not_count() {
    let mut wait = QuorumWait::begin((0, 0), 0, 1, "COMMIT");
    assert_eq!(wait_for_quorum(&mut wait, Some(&vote("PREPARE", 1))), QuorumStep::Waiting);
    assert_eq!(wait_for_quorum(&mut wait, Some(&vote("COMMIT ", 1))), QuorumStep::Waiting);
    assert_eq!(wait_for_quorum(&mut wait, Some(&request())), QuorumStep::Waiting);
    assert_eq!(wait.counter, 0);
}

#[test]
fn out_of_sequence_nothing_counts() {
    let mut wait = QuorumWait::begin((1, 0), 0, 1, "PREPARE");
    for voter in 0..10 {
        assert_eq!(wait_for_quorum(&mut wait, Some(&vote("PREPARE", voter))), QuorumStep::Waiting);
    }
    assert_eq!(wait.counter, 0);
}

#[test]
fn votes_counted_before_add_up() {
    let mut wait = QuorumWait::begin((0, 0), 4, 2, "PREPARE");
    assert_eq!(wait_for_quorum(&mut wait, Some(&vote("PREPARE", 1))), QuorumStep::Reached);
    assert_eq!(wait.counter, 5);
}

#[test]
fn end_of_messages_ends_the_wait() {
    let mut wait = QuorumWait::begin((0, 0), 0, 2, "PREPARE");
    assert_eq!(wait_for_quorum(&mut wait, None), QuorumStep::Closed);
    assert_eq!(wait.counter, 0);
}

#[test]
fn voters_are_told_apart_beyond_one_set() {
    let mut wait = QuorumWait::begin((0, 0), 0, 8, "PREPARE");
    for voter in 0..SET_CAPACITY as u8 {
        assert!(wait.can_receive(&vote("PREPARE", voter)));
        assert_eq!(wait_for_quorum(&mut wait, Some(&vote("PREPARE", voter))), QuorumStep::Waiting);
    }
    assert_eq!(wait_for_quorum(&mut wait, Some(&vote("PREPARE", 3))), QuorumStep::Waiting);
    assert_eq!(wait.counter as usize, SET_CAPACITY);
    assert_eq!(wait_for_quorum(&mut wait, Some(&vote("PREPARE", 16))), QuorumStep::Reached);
    assert_eq!(wait.counter, 17);
}

#[test]
fn a_hundred_voters_are_counted_once_each() {
    let mut wait = QuorumWait::begin((0, 0), 0, 50, "PREPARE");
    for _ in 0..2 {
        for voter in 0..100 {
            assert_eq!(wait_for_quorum(&mut wait, Some(&vote("PREPARE", voter))), QuorumStep::Waiting);
        }
    }
    assert_eq!(wait.counter, 100);
    assert_eq!(wait_for_quorum(&mut wait, Some(&vote("PREPARE", 100))), QuorumStep::Reached);
}

#[test]
fn counter_is_not_exhausted() {
    let wait = QuorumWait::begin((0, 0), u32::MAX, 1, "PREPARE");
    assert!(!wait.can_receive(&vote("PREPARE", 1)));
    assert!(wait.can_receive(&vote("COMMIT", 1)));
    assert!(wait.can_receive(&request()));
}

#[test]
fn peer_notes_a_silent_leader() {
    let mut wait = QuorumWait::begin((0, 0), 0, 1, "PREPARE");
    let mut view_change = ViewChange { leader_response: false, tick: false };
    assert_eq!(peer_wait_for_quorum(&mut wait, &mut view_change, PeerEvent::Tick), QuorumStep::Waiting);
    assert!(view_change.tick);
    let mut responded = ViewChange { leader_response: true, tick: false };
    peer_wait_for_quorum(&mut wait, &mut responded, PeerEvent::Tick);
    assert!(!responded.tick);
}

#[test]
fn peer_counts_votes_while_it_watches() {
    let mut wait = QuorumWait::begin((0, 0), 0, 1, "VIEW-CHANGE");
    let mut view_change = ViewChange { leader_response: false, tick: false };
    let other = vote("PREPARE", 1);
    let step = peer_wait_for_quorum(&mut wait, &mut view_change, PeerEvent::Received(Some(&other)));
    assert_eq!(step, QuorumStep::Waiting);
    for voter in 1..4 {
        let fitting = vote("VIEW-CHANGE", voter);
        let step = peer_wait_for_quorum(&mut wait, &mut view_change, PeerEvent::Received(Some(&fitting)));
        assert_eq!(step, if voter < 3 { QuorumStep::Waiting } else { QuorumStep::Reached });
    }
    let step = peer_wait_for_quorum(&mut wait, &mut view_change, PeerEvent::Received(None));
    assert_eq!(step, QuorumStep::Closed);
    assert!(!view_change.tick);
}
