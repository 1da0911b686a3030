use bytes::BytesMut;
use ed25519_dalek::{Signer, SigningKey};
use fortress::bootnode::{start_bootnode, update_addresses, Bootnode, JoinAction};
use fortress::client::client_packet;
use fortress::crypto::verify_transaction;
use fortress::error::{ErrorKind, NodeError};
use fortress::leader;
use fortress::leader::{can_register, leader_consensus_actor, leader_introduction, ActorAction, ActorEvent, Admission};
use fortress::packet::{
    deserialize_packet, send_connection_packet, serialize_into, ActorRequest, ClientTransaction, ConnectionPacket,
    PeerAddr, Transaction,
};
use fortress::peer;
use fortress::peer::{
    client_verdict, discover_network, peer_consensus_actor, peer_introduction, Discovery, Found, Service,
};
use fortress::reader::{reader_task, ReaderAction};
use fortress::retry::{connect_with_retry, Attempts, RetryStep};
use fortress::tools::{ConsensusToolsStruct, RegistrationRequest};

const NODE: [u8; 32] = [9; 32];

fn pubkey(secret: [u8; 32]) -> [u8; 32] {
    SigningKey::from_bytes(&secret).verifying_key().to_bytes()
}

fn frame(node_type: &str, address: &str, payload: &[u8]) -> BytesMut {
    send_connection_packet(node_type, address, Some(payload), &mut BytesMut::new())
}

fn transaction() -> Transaction {
    Transaction {
        seq_counter: 0,
        view_number: 0,
        client_key: vec![],
        key: b"k".to_vec(),
        value: vec![],
        unsigned_msg: vec![],
        signed_msg: vec![],
    }
}

fn vote() -> ActorRequest {
    ActorRequest::PeerVote { vote_type: vec![], signed_msg: vec![], pubkey: [0; 32] }
}

fn listed(action: JoinAction) -> Vec<(Vec<u8>, Vec<u8>, Vec<u8>)> {
    match action {
        JoinAction::SendList { packet } => deserialize_packet::<Vec<ConnectionPacket>>(&packet)
            .unwrap()
            .iter()
            .map(|node| (node.node_type.to_vec(), node.address.to_vec(), node.payload.to_vec()))
            .collect(),
        other => panic!("no list: {other:?}"),
    }
}

#[test]
fn leader_admits_peers_by_their_key() {
    match leader::start_server(Some(&frame("peer-pubkey", "127.0.0.1:6376", &[3; 32]))) {
        Admission::Admitted { pubkey, address } => {
            assert_eq!(pubkey, vec![3; 32]);
            assert_eq!(address, b"127.0.0.1:6376");
        }
        other => panic!("not admitted: {other:?}"),
    }
}

#[test]
fn leader_drops_all_others() {
    assert!(matches!(leader::start_server(None), Admission::Silent));
    assert!(matches!(leader::start_server(Some(b"nonsense")), Admission::BadPacket));
    let client = frame("client-transaction", "", &[]);
    assert!(matches!(leader::start_server(Some(&client)), Admission::NotAPeer));
}

#[test]
fn leader_introduces_itself() {
    let packet = leader_introduction(&NODE, &mut BytesMut::new());
    let read: ConnectionPacket = deserialize_packet(&packet).unwrap();
    assert_eq!(read.node_type, b"leader");
    assert_eq!(read.address, b"127.0.0.1:8070");
    assert_eq!(read.payload, pubkey(NODE));
}

#[test]
fn leader_registers_peers_and_tells_all_addresses() {
    let mut tools: ConsensusToolsStruct<u8> = ConsensusToolsStruct::new(vec![]);
    let mut pool = BytesMut::new();
    for port in 1..4u16 {
        let request = RegistrationRequest { socket: port as u8, addr: PeerAddr::V4 { ip: [127, 0, 0, 1], port } };
        assert!(can_register(&tools, &request.addr, pool.len()));
        match leader_consensus_actor(ActorEvent::Register(request), &mut tools, &mut pool) {
            ActorAction::SendAddressList { packet } => {
                let list: Vec<PeerAddr> = deserialize_packet(&packet).unwrap();
                assert_eq!(list.len(), port as usize);
                assert!(matches!(list[port as usize - 1], PeerAddr::V4 { port: last, .. } if last == port));
            }
            _ => panic!("no list of addresses"),
        }
    }
    assert_eq!(tools.registry, vec![1, 2, 3]);
    assert_eq!((tools.sequence_counter, tools.view_number), (0, 0));
}

#[test]
fn registration_needs_room_for_all_addresses() {
    let mut tools: ConsensusToolsStruct<u8> = ConsensusToolsStruct::new(vec![]);
    let room = isize::MAX as usize;
    let v4 = PeerAddr::V4 { ip: [1; 4], port: 1 };
    let v6 = PeerAddr::V6 { ip: [1; 16], port: 1 };
    assert!(can_register(&tools, &v4, room - 18));
    assert!(!can_register(&tools, &v4, room - 17));
    tools.address_list.push(v4);
    assert!(can_register(&tools, &v6, room - 40));
    assert!(!can_register(&tools, &v6, room - 39));
}

#[test]
fn peer_is_taken_in_everywhere_under_its_own_key() {
    let introduced = peer_introduction("127.0.0.1:7000", &NODE, &mut BytesMut::new());
    match leader::start_server(Some(&introduced)) {
        Admission::Admitted { pubkey: known, address } => {
            assert_eq!(known, pubkey(NODE));
            assert_eq!(address, b"127.0.0.1:7000");
        }
        other => panic!("not admitted: {other:?}"),
    }
    match peer::start_server(Some(&introduced), &mut BytesMut::new()) {
        Service::Join { pubkey: known } => assert_eq!(known, pubkey(NODE)),
        _ => panic!("no peer"),
    }
    let mut bootnode = Bootnode::new();
    assert!(listed(start_bootnode(&mut bootnode, Some(&introduced))).is_empty());
}

#[test]
fn leader_admits_no_other_leader() {
    let introduced = leader_introduction(&[8; 32], &mut BytesMut::new());
    assert!(matches!(leader::start_server(Some(&introduced)), Admission::NotAPeer));
}

#[test]
fn forwarded_transactions_are_handed_to_consensus() {
    let mut pool = BytesMut::new();
    let asked = client_packet(b"key", b"value", &NODE, &mut pool);
    let sent = match peer::start_server(Some(&asked), &mut pool) {
        Service::ToLeader { packet } => packet,
        _ => panic!("not sent on"),
    };
    match reader_task(&sent, &[], true) {
        ReaderAction::Forward(ActorRequest::ConsensusRequest { transaction }) => assert_eq!(transaction.key, b"key"),
        other => panic!("not handed on: {other:?}"),
    }
}

#[test]
fn actors_run_consensus_and_ignore_stray_votes() {
    let mut tools: ConsensusToolsStruct<u8> = ConsensusToolsStruct::new(vec![]);
    let mut pool = BytesMut::new();
    let request = ActorEvent::Request(ActorRequest::ConsensusRequest { transaction: transaction() });
    match leader_consensus_actor(request, &mut tools, &mut pool) {
        ActorAction::RunConsensus { transaction } => assert_eq!(transaction.key, b"k"),
        _ => panic!("no consensus"),
    }
    let stray = leader_consensus_actor(ActorEvent::Request(vote()), &mut tools, &mut pool);
    assert!(matches!(stray, ActorAction::Ignore));
    let request = ActorEvent::Request(ActorRequest::ConsensusRequest { transaction: transaction() });
    assert!(matches!(peer_consensus_actor(request, &mut tools), ActorAction::RunConsensus { .. }));
    assert!(matches!(peer_consensus_actor(ActorEvent::Request(vote()), &mut tools), ActorAction::Ignore));
}

#[test]
fn peer_registers_peers_without_their_addresses() {
    let mut tools: ConsensusToolsStruct<u8> = ConsensusToolsStruct::new(vec![7]);
    let request = RegistrationRequest { socket: 8, addr: PeerAddr::V4 { ip: [1, 2, 3, 4], port: 5 } };
    assert!(matches!(peer_consensus_actor(ActorEvent::Register(request), &mut tools), ActorAction::Registered));
    assert_eq!(tools.registry, vec![7, 8]);
    assert!(tools.address_list.is_empty());
}

#[test]
fn peer_introduces_itself() {
    let packet = peer_introduction("127.0.0.1:6376", &NODE, &mut BytesMut::new());
    let read: ConnectionPacket = deserialize_packet(&packet).unwrap();
    assert_eq!(read.node_type, b"peer-pubkey");
    assert_eq!(read.address, b"127.0.0.1:6376");
    assert_eq!(read.payload, pubkey(NODE));
}

#[test]
fn peer_keeps_the_leader_apart() {
    let mut found: Discovery<u8> = Discovery::new();
    let leader = ConnectionPacket { node_type: b"leader", address: b"l", payload: b"leader key" };
    let peer = ConnectionPacket { node_type: b"client", address: b"p", payload: b"" };
    assert!(matches!(discover_network(&mut found, &leader, None), Found::Unreachable));
    assert!(found.leader.is_none());
    let reached = discover_network(&mut found, &peer, Some(1));
    assert!(matches!(reached, Found::Reached { may_propose: false, .. }));
    match discover_network(&mut found, &leader, Some(2)) {
        Found::Reached { pubkey, may_propose } => {
            assert_eq!(pubkey, b"leader key");
            assert!(may_propose);
        }
        other => panic!("not reached: {other:?}"),
    }
    assert!(matches!(discover_network(&mut found, &peer, None), Found::Unreachable));
    discover_network(&mut found, &peer, Some(3));
    assert_eq!(found.registry, vec![1, 3]);
    assert_eq!(found.leader, Some(2));
    discover_network(&mut found, &leader, Some(4));
    assert_eq!(found.leader, Some(4));
}

#[test]
fn peer_serves_peers() {
    let mut pool = BytesMut::new();
    match peer::start_server(Some(&frame("peer-pubkey", "", &[4; 32])), &mut pool) {
        Service::Join { pubkey } => assert_eq!(pubkey, vec![4; 32]),
        _ => panic!("no peer"),
    }
    assert!(matches!(peer::start_server(None, &mut pool), Service::Silent));
    assert!(matches!(peer::start_server(Some(b"?"), &mut pool), Service::BadPacket));
    let unknown = frame("leader", "", &[]);
    assert!(matches!(peer::start_server(Some(&unknown), &mut pool), Service::UnknownNode));
}

#[test]
fn peer_sends_a_clients_transaction_to_the_leader() {
    let mut pool = BytesMut::with_capacity(1024);
    let packet = client_packet(b"test-key", b"test-value", &NODE, &mut pool);
    assert!(pool.is_empty());
    let read: ConnectionPacket = deserialize_packet(&packet).unwrap();
    assert_eq!(read.node_type, b"client-transaction");
    assert_eq!(read.address, b"127.0.0.1:0");
    let asked: ClientTransaction = deserialize_packet(read.payload).unwrap();
    assert_eq!(asked.signed_tx, SigningKey::from_bytes(&NODE).sign(b"test-keytest-value").to_bytes());
    let request = match peer::start_server(Some(&packet), &mut pool) {
        Service::ToLeader { packet } => deserialize_packet::<ActorRequest>(&packet).unwrap(),
        _ => panic!("not sent on"),
    };
    assert!(pool.is_empty());
    match request {
        ActorRequest::ConsensusRequest { transaction } => {
            assert_eq!((transaction.seq_counter, transaction.view_number), (0, 0));
            assert_eq!(transaction.client_key, pubkey(NODE));
            assert_eq!(transaction.key, b"test-key");
            assert_eq!(transaction.value, b"test-value");
            assert_eq!(transaction.unsigned_msg, b"test-keytest-value");
            let verified =
                verify_transaction(&transaction.client_key, &transaction.unsigned_msg, &transaction.signed_msg);
            assert!(verified.is_ok());
        }
        ActorRequest::PeerVote { .. } => panic!("a vote was sent on"),
    }
}

#[test]
fn peer_fails_on_a_forged_transaction() {
    let mut pool = BytesMut::new();
    let forged = ClientTransaction { key: b"k", value: b"v", pubkey: &pubkey(NODE), signed_tx: &[1; 64] };
    let payload = serialize_into(&mut pool, &forged);
    match peer::start_server(Some(&frame("client-transaction", "", &payload)), &mut pool) {
        Service::Fail(error) => assert_eq!(error.kind, ErrorKind::InvalidData),
        _ => panic!("a forged transaction was accepted"),
    }
    match peer::start_server(Some(&frame("client-transaction", "", b"short")), &mut pool) {
        Service::Fail(error) => {
            assert_eq!(error.kind, ErrorKind::InvalidData);
            assert_eq!(error.message, "");
        }
        _ => panic!("bad bytes were accepted"),
    }
    assert!(pool.is_empty());
}

#[test]
fn client_verdict_follows_the_check() {
    let mut pool = BytesMut::new();
    match client_verdict(&vote(), Ok(()), &mut pool) {
        Service::ToLeader { packet } => assert_eq!(packet, serialize_into(&mut pool, &vote())),
        _ => panic!("not sent on"),
    }
    match client_verdict(&vote(), Err(NodeError::new(ErrorKind::InvalidData, "bad")), &mut pool) {
        Service::Fail(error) => assert_eq!(error.message, "bad"),
        _ => panic!("did not fail"),
    }
}

#[test]
fn bootnode_tells_of_leader_and_peers() {
    let mut bootnode = Bootnode::new();
    let joining = frame("peer-pubkey", "x", &[1; 32]);
    assert!(bootnode.can_list());
    assert!(listed(start_bootnode(&mut bootnode, Some(&joining))).is_empty());

    let introduced = leader_introduction(&NODE, &mut BytesMut::new());
    assert!(matches!(start_bootnode(&mut bootnode, Some(&introduced)), JoinAction::LeaderJoined));
    let leader = (b"leader".to_vec(), b"127.0.0.1:8070".to_vec(), pubkey(NODE).to_vec());
    assert_eq!(listed(start_bootnode(&mut bootnode, Some(&joining))), vec![leader.clone()]);
    assert_eq!(listed(start_bootnode(&mut bootnode, Some(&joining))), vec![leader.clone()]);

    let addresses = vec![
        PeerAddr::V4 { ip: [127, 0, 0, 1], port: 0x1234 },
        PeerAddr::V6 { ip: [7; 16], port: 5 },
    ];
    let update = serialize_into(&mut BytesMut::new(), &addresses);
    assert!(update_addresses(&mut bootnode, &update));
    assert!(bootnode.can_list());
    let list = listed(start_bootnode(&mut bootnode, Some(&joining)));
    assert_eq!(list.len(), 3);
    assert_eq!(list[0], leader);
    assert_eq!(list[1], (b"client".to_vec(), b"127.0.0.1:4660".to_vec(), vec![]));
    assert_eq!(list[2].1, b"[0707:0707:0707:0707:0707:0707:0707:0707]:5");

    let fewer = serialize_into(&mut BytesMut::new(), &vec![addresses[1]]);
    assert!(update_addresses(&mut bootnode, &fewer));
    let list = listed(start_bootnode(&mut bootnode, Some(&joining)));
    assert_eq!(list.len(), 2);
    assert_eq!(list[0], leader);
}

#[test]
fn listed_addresses_are_texts_of_address_and_port() {
    let cases = [
        (PeerAddr::V4 { ip: [127, 0, 0, 1], port: 6376 }, "127.0.0.1:6376"),
        (PeerAddr::V4 { ip: [0, 10, 100, 255], port: 0 }, "0.10.100.255:0"),
        (PeerAddr::V4 { ip: [192, 168, 1, 99], port: 65535 }, "192.168.1.99:65535"),
        (
            PeerAddr::V6 { ip: [0x20, 1, 0xd, 0xb8, 0, 0, 0, 0, 0, 0, 0, 0, 0xab, 0xcd, 0, 9], port: 10 },
            "[2001:0db8:0000:0000:0000:0000:abcd:0009]:10",
        ),
    ];
    let joining = frame("peer-pubkey", "", &[]);
    for (address, text) in cases {
        let mut bootnode = Bootnode::new();
        let update = serialize_into(&mut BytesMut::new(), &vec![address]);
        assert!(update_addresses(&mut bootnode, &update));
        let list = listed(start_bootnode(&mut bootnode, Some(&joining)));
        assert_eq!(std::str::from_utf8(&list[0].1).unwrap(), text);
    }
}

#[test]
fn bootnode_keeps_its_list_on_a_bad_update() {
    let mut bootnode = Bootnode::new();
    let update = serialize_into(&mut BytesMut::new(), &vec![PeerAddr::V4 { ip: [1, 2, 3, 4], port: 5 }]);
    assert!(update_addresses(&mut bootnode, &update));
    assert!(!update_addresses(&mut bootnode, &update[..9]));
    let joining = frame("peer-pubkey", "", &[]);
    assert_eq!(listed(start_bootnode(&mut bootnode, Some(&joining))).len(), 1);
}

#[test]
fn bootnode_accepts_one_leader() {
    let mut bootnode = Bootnode::new();
    let first = frame("leader", "first", &[1]);
    let second = frame("leader", "second", &[2]);
    assert!(matches!(start_bootnode(&mut bootnode, Some(&first)), JoinAction::LeaderJoined));
    assert!(matches!(start_bootnode(&mut bootnode, Some(&second)), JoinAction::LeaderAlreadyConnected));
    let list = listed(start_bootnode(&mut bootnode, Some(&frame("peer-pubkey", "", &[]))));
    assert_eq!(list, vec![(b"leader".to_vec(), b"first".to_vec(), vec![1])]);
}

#[test]
fn bootnode_drops_all_others() {
    let mut bootnode = Bootnode::new();
    assert!(matches!(start_bootnode(&mut bootnode, None), JoinAction::Silent));
    assert!(matches!(start_bootnode(&mut bootnode, Some(b"?")), JoinAction::BadPacket));
    let client = frame("client-transaction", "", &[]);
    assert!(matches!(start_bootnode(&mut bootnode, Some(&client)), JoinAction::UnknownNode));
}

#[test]
fn connecting_is_retried_with_growing_pauses() {
    let mut attempts = Attempts::new();
    for delay in [200, 400, 800, 1600, 3200, 5000, 5000] {
        assert_eq!(connect_with_retry(&mut attempts, 8), RetryStep::RetryAfter { delay });
    }
    assert_eq!(connect_with_retry(&mut attempts, 8), RetryStep::GiveUp);
}

#[test]
fn one_attempt_is_always_made() {
    assert_eq!(connect_with_retry(&mut Attempts::new(), 0), RetryStep::GiveUp);
    assert_eq!(connect_with_retry(&mut Attempts::new(), 1), RetryStep::GiveUp);
    assert_eq!(connect_with_retry(&mut Attempts::new(), 2), RetryStep::RetryAfter { delay: 200 });
}
