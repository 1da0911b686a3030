use bytes::BytesMut;
use ed25519_dalek::{Signer, SigningKey};
use fortress::engine::{
    consensus_engine, peer_consensus_engine, ConsensusRound, EngineAction, EngineEvent, Phase, COMMIT_TIMEOUT,
    PREPARE_TIMEOUT,
};
use fortress::error::{ErrorKind, NodeError};
use fortress::packet::{deserialize_packet, ActorRequest, Transaction};
use fortress::state::StateManager;
use fortress::tools::ConsensusToolsStruct;

const NODE: [u8; 32] = [9; 32];

fn transaction(key: &[u8], value: &[u8]) -> Transaction {
    let client = SigningKey::from_bytes(&[5; 32]);
    let unsigned_msg = [key, value].concat();
    Transaction {
        seq_counter: 0,
        view_number: 0,
        client_key: client.verifying_key().to_bytes().to_vec(),
        key: key.to_vec(),
        value: value.to_vec(),
        signed_msg: client.sign(&unsigned_msg).to_bytes().to_vec(),
        unsigned_msg,
    }
}

fn forged() -> Transaction {
    let mut transaction = transaction(b"key", b"value");
    transaction.signed_msg[10] ^= 1;
    transaction
}

fn vote(stage: &str, voter: u8) -> EngineEvent {
    EngineEvent::Received(ActorRequest::PeerVote {
        vote_type: stage.as_bytes().to_vec(),
        signed_msg: vec![0; 64],
        pubkey: [voter; 32],
    })
}

fn stage_of(packet: &[u8]) -> Vec<u8> {
    match deserialize_packet::<ActorRequest>(packet).unwrap() {
        ActorRequest::PeerVote { vote_type, pubkey, .. } => {
            assert_eq!(pubkey, SigningKey::from_bytes(&NODE).verifying_key().to_bytes());
            vote_type
        }
        ActorRequest::ConsensusRequest { .. } => b"proposal".to_vec(),
    }
}

fn lead(
    round: &mut ConsensusRound,
    event: EngineEvent,
    tools: &mut ConsensusToolsStruct<u8>,
    pool: &mut BytesMut,
) -> EngineAction {
    assert!(round.can_take(&event, pool.len()));
    consensus_engine(round, event, tools, &NODE, pool)
}

fn follow(
    round: &mut ConsensusRound,
    event: EngineEvent,
    tools: &mut ConsensusToolsStruct<u8>,
    pool: &mut BytesMut,
) -> EngineAction {
    assert!(round.can_take(&event, pool.len()));
    peer_consensus_engine(round, event, tools, &NODE, pool)
}

#[test]
fn leader_round_that_succeeds() {
    let mut tools = ConsensusToolsStruct::new(vec![1u8, 2, 3]);
    let mut pool = BytesMut::new();
    let mut round = ConsensusRound::leader(transaction(b"key", b"value"), &tools);
    match lead(&mut round, EngineEvent::Begin, &mut tools, &mut pool) {
        EngineAction::Broadcast { packet, to_leader } => {
            assert_eq!(stage_of(&packet), b"proposal");
            assert!(!to_leader);
        }
        _ => panic!("no proposal"),
    }
    match lead(&mut round, EngineEvent::Delivered, &mut tools, &mut pool) {
        EngineAction::Broadcast { packet, to_leader } => {
            assert_eq!(stage_of(&packet), b"PREPARE");
            assert!(!to_leader);
        }
        _ => panic!("no prepare vote"),
    }
    match lead(&mut round, EngineEvent::Delivered, &mut tools, &mut pool) {
        EngineAction::AwaitVotes { timeout } => assert_eq!(timeout, PREPARE_TIMEOUT),
        _ => panic!("no wait for prepare votes"),
    }
    assert!(matches!(lead(&mut round, vote("PREPARE", 1), &mut tools, &mut pool), EngineAction::KeepWaiting));
    assert!(matches!(lead(&mut round, vote("PREPARE", 1), &mut tools, &mut pool), EngineAction::KeepWaiting));
    assert!(matches!(lead(&mut round, vote("COMMIT", 2), &mut tools, &mut pool), EngineAction::KeepWaiting));
    match lead(&mut round, vote("PREPARE", 2), &mut tools, &mut pool) {
        EngineAction::DrainAndBroadcast { packet, to_leader } => {
            assert_eq!(stage_of(&packet), b"COMMIT");
            assert!(!to_leader);
        }
        _ => panic!("no commit vote"),
    }
    match lead(&mut round, EngineEvent::Delivered, &mut tools, &mut pool) {
        EngineAction::AwaitVotes { timeout } => assert_eq!(timeout, COMMIT_TIMEOUT),
        _ => panic!("no wait for commit votes"),
    }
    assert!(matches!(lead(&mut round, vote("PREPARE", 3), &mut tools, &mut pool), EngineAction::KeepWaiting));
    assert!(matches!(lead(&mut round, vote("COMMIT", 1), &mut tools, &mut pool), EngineAction::KeepWaiting));
    match lead(&mut round, vote("COMMIT", 3), &mut tools, &mut pool) {
        EngineAction::Store { transaction } => {
            assert_eq!(transaction.key, b"key");
            assert_eq!(transaction.value, b"value");
        }
        _ => panic!("not stored"),
    }
    assert_eq!(tools.sequence_counter, 0);
    assert!(matches!(lead(&mut round, EngineEvent::Stored, &mut tools, &mut pool), EngineAction::Finished));
    assert_eq!(tools.sequence_counter, 1);
    assert_eq!(round.phase, Phase::Done);
    assert!(!round.can_take(&EngineEvent::Begin, 0));
    assert!(pool.is_empty());
}

#[test]
fn leader_proposes_even_what_is_forged_and_then_fails() {
    let mut tools = ConsensusToolsStruct::new(vec![1u8, 2]);
    let mut pool = BytesMut::new();
    let mut round = ConsensusRound::leader(forged(), &tools);
    assert!(matches!(lead(&mut round, EngineEvent::Begin, &mut tools, &mut pool), EngineAction::Broadcast { .. }));
    match lead(&mut round, EngineEvent::Delivered, &mut tools, &mut pool) {
        EngineAction::Fail(error) => assert_eq!(error.kind, ErrorKind::InvalidData),
        _ => panic!("a forged transaction was voted for"),
    }
    assert_eq!(round.phase, Phase::Failed);
    assert_eq!(tools.sequence_counter, 0);
}

#[test]
fn peer_round_that_succeeds() {
    let mut tools = ConsensusToolsStruct::new(vec![1u8]);
    let mut pool = BytesMut::new();
    let mut round = ConsensusRound::peer(transaction(b"a", b"b"), &tools);
    match follow(&mut round, EngineEvent::Begin, &mut tools, &mut pool) {
        EngineAction::Broadcast { packet, to_leader } => {
            assert_eq!(stage_of(&packet), b"PREPARE");
            assert!(to_leader);
        }
        _ => panic!("no prepare vote"),
    }
    follow(&mut round, EngineEvent::Delivered, &mut tools, &mut pool);
    follow(&mut round, vote("PREPARE", 1), &mut tools, &mut pool);
    match follow(&mut round, vote("PREPARE", 2), &mut tools, &mut pool) {
        EngineAction::DrainAndBroadcast { packet, to_leader } => {
            assert_eq!(stage_of(&packet), b"COMMIT");
            assert!(to_leader);
        }
        _ => panic!("no commit vote"),
    }
    follow(&mut round, EngineEvent::Delivered, &mut tools, &mut pool);
    follow(&mut round, vote("COMMIT", 1), &mut tools, &mut pool);
    assert!(matches!(follow(&mut round, vote("COMMIT", 2), &mut tools, &mut pool), EngineAction::Store { .. }));
    assert!(matches!(follow(&mut round, EngineEvent::Stored, &mut tools, &mut pool), EngineAction::Finished));
    assert_eq!(tools.sequence_counter, 1);
}

#[test]
fn peer_does_not_vote_for_what_is_forged() {
    let mut tools = ConsensusToolsStruct::new(vec![1u8]);
    let mut pool = BytesMut::new();
    let mut round = ConsensusRound::peer(forged(), &tools);
    assert!(matches!(follow(&mut round, EngineEvent::Begin, &mut tools, &mut pool), EngineAction::Fail(_)));
    assert_eq!(round.phase, Phase::Failed);
}

#[test]
fn rounds_run_out_of_time_in_either_stage() {
    let mut pool = BytesMut::new();
    for votes in [0, 2] {
        let mut tools = ConsensusToolsStruct::new(vec![1u8]);
        let mut round = ConsensusRound::peer(transaction(b"a", b"b"), &tools);
        follow(&mut round, EngineEvent::Begin, &mut tools, &mut pool);
        follow(&mut round, EngineEvent::Delivered, &mut tools, &mut pool);
        for voter in 0..votes {
            follow(&mut round, vote("PREPARE", voter), &mut tools, &mut pool);
        }
        if votes == 2 {
            follow(&mut round, EngineEvent::Delivered, &mut tools, &mut pool);
        }
        match follow(&mut round, EngineEvent::TimedOut, &mut tools, &mut pool) {
            EngineAction::Fail(error) => {
                assert_eq!(error.kind, ErrorKind::Other);
                assert_eq!(error.message, "Time limit exceeded, prepare verification failed");
            }
            _ => panic!("did not fail"),
        }
        assert_eq!(tools.sequence_counter, 0);
    }
}

#[test]
fn transactions_out_of_sequence_gather_no_votes() {
    let mut tools = ConsensusToolsStruct::new(vec![1u8]);
    tools.sequence_counter = 1;
    let mut pool = BytesMut::new();
    let mut round = ConsensusRound::peer(transaction(b"a", b"b"), &tools);
    follow(&mut round, EngineEvent::Begin, &mut tools, &mut pool);
    follow(&mut round, EngineEvent::Delivered, &mut tools, &mut pool);
    for voter in 0..10 {
        let action = follow(&mut round, vote("PREPARE", voter), &mut tools, &mut pool);
        assert!(matches!(action, EngineAction::KeepWaiting));
    }
    assert_eq!(round.votes.counter, 0);
}

#[test]
fn end_of_messages_fails_a_round_in_either_stage() {
    let mut pool = BytesMut::new();
    for votes in [0, 2] {
        let mut tools = ConsensusToolsStruct::new(vec![1u8]);
        let mut round = ConsensusRound::peer(transaction(b"a", b"b"), &tools);
        follow(&mut round, EngineEvent::Begin, &mut tools, &mut pool);
        follow(&mut round, EngineEvent::Delivered, &mut tools, &mut pool);
        for voter in 0..votes {
            follow(&mut round, vote("PREPARE", voter), &mut tools, &mut pool);
        }
        if votes == 2 {
            follow(&mut round, EngineEvent::Delivered, &mut tools, &mut pool);
        }
        match follow(&mut round, EngineEvent::Closed, &mut tools, &mut pool) {
            EngineAction::Fail(error) => {
                assert_eq!(error.kind, ErrorKind::Other);
                assert_eq!(error.message, "No more votes can arrive, quorum was not reached");
            }
            _ => panic!("did not fail"),
        }
        assert_eq!(round.phase, Phase::Failed);
        assert_eq!(tools.sequence_counter, 0);
    }
}

#[test]
fn own_vote_does_not_count_twice() {
    let mut tools = ConsensusToolsStruct::new(vec![1u8]);
    let mut pool = BytesMut::new();
    let mut round = ConsensusRound::peer(transaction(b"a", b"b"), &tools);
    follow(&mut round, EngineEvent::Begin, &mut tools, &mut pool);
    assert_eq!(round.votes.counter, 1);
    follow(&mut round, EngineEvent::Delivered, &mut tools, &mut pool);
    let own = EngineEvent::Received(ActorRequest::PeerVote {
        vote_type: b"PREPARE".to_vec(),
        signed_msg: vec![0; 64],
        pubkey: SigningKey::from_bytes(&NODE).verifying_key().to_bytes(),
    });
    assert!(matches!(follow(&mut round, own, &mut tools, &mut pool), EngineAction::KeepWaiting));
    assert_eq!(round.votes.counter, 1);
}

#[test]
fn round_goes_on_as_the_signature_was_found() {
    let tools = ConsensusToolsStruct::new(vec![1u8, 2]);
    let mut pool = BytesMut::new();
    let mut round = ConsensusRound::leader(forged(), &tools);
    match round.verified(Ok(()), &NODE, &mut pool) {
        EngineAction::Broadcast { packet, .. } => assert_eq!(stage_of(&packet), b"PREPARE"),
        _ => panic!("no prepare vote"),
    }
    assert_eq!(round.phase, Phase::Preparing);
    match round.verified(Err(NodeError::new(ErrorKind::InvalidData, "bad")), &NODE, &mut pool) {
        EngineAction::Fail(error) => assert_eq!(error.message, "bad"),
        _ => panic!("did not fail"),
    }
    assert_eq!(round.phase, Phase::Failed);
}

#[test]
fn events_are_taken_only_in_their_phase() {
    let tools = ConsensusToolsStruct::new(vec![1u8]);
    let round = ConsensusRound::leader(transaction(b"a", b"b"), &tools);
    assert!(round.can_take(&EngineEvent::Begin, 0));
    assert!(!round.can_take(&EngineEvent::Begin, isize::MAX as usize));
    assert!(!round.can_take(&EngineEvent::Delivered, 0));
    assert!(!round.can_take(&EngineEvent::Closed, 0));
    assert!(!round.can_take(&EngineEvent::TimedOut, 0));
    assert!(!round.can_take(&EngineEvent::Stored, 0));
    assert!(!round.can_take(&vote("PREPARE", 1), 0));
}

#[test]
fn larger_networks_need_larger_quorums() {
    let mut tools = ConsensusToolsStruct::new(vec![0u8; 6]);
    let mut pool = BytesMut::new();
    let mut round = ConsensusRound::leader(transaction(b"a", b"b"), &tools);
    lead(&mut round, EngineEvent::Begin, &mut tools, &mut pool);
    lead(&mut round, EngineEvent::Delivered, &mut tools, &mut pool);
    lead(&mut round, EngineEvent::Delivered, &mut tools, &mut pool);
    for voter in 0..3 {
        let action = lead(&mut round, vote("PREPARE", voter), &mut tools, &mut pool);
        assert!(matches!(action, EngineAction::KeepWaiting));
    }
    let action = lead(&mut round, vote("PREPARE", 3), &mut tools, &mut pool);
    assert!(matches!(action, EngineAction::DrainAndBroadcast { .. }));
}

fn play(transaction: Transaction, tools: &mut ConsensusToolsStruct<u8>) -> bool {
    let mut pool = BytesMut::new();
    let mut round = ConsensusRound::peer(transaction, tools);
    follow(&mut round, EngineEvent::Begin, tools, &mut pool);
    for stage in ["PREPARE", "COMMIT"] {
        follow(&mut round, EngineEvent::Delivered, tools, &mut pool);
        for voter in 0..2 {
            follow(&mut round, vote(stage, voter), tools, &mut pool);
        }
        if round.phase == Phase::AwaitingPrepare {
            follow(&mut round, EngineEvent::TimedOut, tools, &mut pool);
            return false;
        }
    }
    follow(&mut round, EngineEvent::Stored, tools, &mut pool);
    round.phase == Phase::Done
}

#[test]
fn sequence_numbers_are_stored_in_order() {
    let mut tools = ConsensusToolsStruct::new(vec![1u8]);
    assert!(play(transaction(b"a", b"1"), &mut tools));
    assert!(!play(transaction(b"a", b"1"), &mut tools));
    let mut second = transaction(b"a", b"2");
    second.seq_counter = 1;
    assert!(play(second, &mut tools));
    assert_eq!(tools.sequence_counter, 2);
}

#[test]
fn state_has_the_last_value_of_each_key() {
    let mut manager = StateManager::new();
    assert_eq!(manager.get(b"key"), None);
    manager.commit(transaction(b"key", b"one"));
    manager.commit(transaction(b"other", b"two"));
    manager.commit(transaction(b"key", b"three"));
    assert_eq!(manager.get(b"key"), Some(&b"three".to_vec()));
    assert_eq!(manager.get(b"other"), Some(&b"two".to_vec()));
    assert_eq!(manager.get(b"ke"), None);
    assert_eq!(manager.committed_count(), 3);
    assert_eq!(manager.committed_at(0).value, b"one");
    assert_eq!(manager.committed_at(2).value, b"three");
}

#[test]
fn same_transactions_lead_to_the_same_state() {
    let mut left = StateManager::new();
    let mut right = StateManager::new();
    for (key, value) in [(b"a", b"1"), (b"b", b"2"), (b"a", b"3")] {
        left.commit(transaction(key, value));
        right.commit(transaction(key, value));
    }
    for key in [b"a", b"b", b"c"] {
        assert_eq!(left.get(key), right.get(key));
    }
}
