use bytes::BytesMut;
use fortress::error::{io_err, return_err, ErrorKind, NodeError};
use fortress::packet::{
    deserialize_packet, send_connection_packet, serialize_into, ActorRequest, ClientTransaction, ConnectionPacket,
    PeerAddr, Transaction,
};
use fortress::wire::same_bytes;

fn pool() -> BytesMut {
    BytesMut::with_capacity(1024)
}

fn transaction() -> Transaction {
    Transaction {
        seq_counter: 3,
        view_number: 258,
        client_key: vec![1; 32],
        key: b"test-key".to_vec(),
        value: b"test-value".to_vec(),
        unsigned_msg: b"test-keytest-value".to_vec(),
        signed_msg: vec![2; 64],
    }
}

#[test]
fn return_err_carries_the_text() {
    let failed: Result<(), NodeError> = return_err("too late");
    let error = failed.unwrap_err();
    assert_eq!(error.kind, ErrorKind::Other);
    assert_eq!(error.message, "too late");
}

#[test]
fn io_err_maps_only_failures() {
    assert_eq!(io_err(Ok::<u8, String>(7)).unwrap(), 7);
    let error = io_err(Err::<u8, String>("no key".to_string())).unwrap_err();
    assert_eq!(error.kind, ErrorKind::InvalidData);
    assert_eq!(error.message, "no key");
}

#[test]
fn connection_packet_has_the_bincode_format() {
    let packet = ConnectionPacket { node_type: b"leader", address: b"127.0.0.1:8070", payload: &[9, 8, 7] };
    let written = serialize_into(&mut pool(), &packet);
    let tuple: (&[u8], &[u8], &[u8]) = (b"leader", b"127.0.0.1:8070", &[9, 8, 7]);
    assert_eq!(written.to_vec(), bincode::serialize(&tuple).unwrap());
    assert_eq!(written[..14], [6, 0, 0, 0, 0, 0, 0, 0, b'l', b'e', b'a', b'd', b'e', b'r']);
}

#[test]
fn connection_packet_round_trip() {
    let packet = ConnectionPacket { node_type: b"peer-pubkey", address: b"", payload: &[1; 32] };
    let written = serialize_into(&mut pool(), &packet);
    let read: ConnectionPacket = deserialize_packet(&written).unwrap();
    assert_eq!(read.node_type, b"peer-pubkey");
    assert_eq!(read.address, b"");
    assert_eq!(read.payload, [1; 32]);
}

#[test]
fn client_transaction_round_trip() {
    let sent = ClientTransaction { key: b"k", value: b"", pubkey: &[4; 32], signed_tx: &[5; 64] };
    let written = serialize_into(&mut pool(), &sent);
    let tuple: (&[u8], &[u8], &[u8], &[u8]) = (b"k", b"", &[4; 32], &[5; 64]);
    assert_eq!(written.to_vec(), bincode::serialize(&tuple).unwrap());
    let read: ClientTransaction = deserialize_packet(&written).unwrap();
    assert_eq!((read.key, read.value), (sent.key, sent.value));
    assert_eq!((read.pubkey, read.signed_tx), (sent.pubkey, sent.signed_tx));
}

#[test]
fn consensus_request_has_the_bincode_format() {
    let written = serialize_into(&mut pool(), &ActorRequest::ConsensusRequest { transaction: transaction() });
    let tx = transaction();
    let tuple = (
        0u32,
        tx.seq_counter,
        tx.view_number,
        &tx.client_key[..],
        &tx.key[..],
        &tx.value[..],
        &tx.unsigned_msg[..],
        &tx.signed_msg[..],
    );
    assert_eq!(written.to_vec(), bincode::serialize(&tuple).unwrap());
    assert_eq!(written.len() as u128, 4 + transaction().size());
    match deserialize_packet::<ActorRequest>(&written).unwrap() {
        ActorRequest::ConsensusRequest { transaction: read } => {
            assert_eq!((read.seq_counter, read.view_number), (3, 258));
            assert_eq!(read.client_key, tx.client_key);
            assert_eq!(read.key, tx.key);
            assert_eq!(read.value, tx.value);
            assert_eq!(read.unsigned_msg, tx.unsigned_msg);
            assert_eq!(read.signed_msg, tx.signed_msg);
        }
        ActorRequest::PeerVote { .. } => panic!("a consensus request was written"),
    }
}

#[test]
fn transaction_alone_round_trip() {
    let written = serialize_into(&mut pool(), &transaction());
    let read: Transaction = deserialize_packet(&written).unwrap();
    assert_eq!(read.key, b"test-key");
    assert_eq!(read.duplicate().value, b"test-value");
}

#[test]
fn peer_vote_has_the_bincode_format() {
    let vote = ActorRequest::PeerVote { vote_type: b"PREPARE".to_vec(), signed_msg: vec![3; 64], pubkey: [6; 32] };
    let written = serialize_into(&mut pool(), &vote);
    let signature = [3u8; 64];
    let tuple = (1u32, &b"PREPARE"[..], &signature[..], [6u8; 32]);
    assert_eq!(written.to_vec(), bincode::serialize(&tuple).unwrap());
    assert_eq!(written.len(), 123);
    match deserialize_packet::<ActorRequest>(&written).unwrap() {
        ActorRequest::PeerVote { vote_type, signed_msg, pubkey } => {
            assert_eq!(vote_type, b"PREPARE");
            assert_eq!(signed_msg, vec![3; 64]);
            assert_eq!(pubkey, [6; 32]);
        }
        ActorRequest::ConsensusRequest { .. } => panic!("a vote was written"),
    }
}

#[test]
fn address_list_has_the_bincode_format() {
    let addresses = vec![
        PeerAddr::V4 { ip: [127, 0, 0, 1], port: 8070 },
        PeerAddr::V6 { ip: [0, 0, 0, 0, 0, 0, 0, 0, 0, 0, 0, 0, 0, 0, 0, 1], port: 258 },
    ];
    let loopback = [0u8, 0, 0, 0, 0, 0, 0, 0, 0, 0, 0, 0, 0, 0, 0, 1];
    let fields = (2u64, (0u32, ([127u8, 0, 0, 1], 8070u16)), (1u32, (loopback, 258u16)));
    let written = serialize_into(&mut pool(), &addresses);
    assert_eq!(written.to_vec(), bincode::serialize(&fields).unwrap());
    let read: Vec<PeerAddr> = deserialize_packet(&written).unwrap();
    assert_eq!(read.len(), 2);
    assert!(matches!(read[0], PeerAddr::V4 { ip: [127, 0, 0, 1], port: 8070 }));
    assert!(matches!(read[1], PeerAddr::V6 { port: 258, .. }));
}

#[test]
fn list_of_packets_round_trip() {
    let packets = vec![
        ConnectionPacket { node_type: b"leader", address: b"a", payload: b"key" },
        ConnectionPacket { node_type: b"client", address: b"bb", payload: b"" },
    ];
    let written = serialize_into(&mut pool(), &packets);
    assert_eq!(written[..8], [2, 0, 0, 0, 0, 0, 0, 0]);
    let read: Vec<ConnectionPacket> = deserialize_packet(&written).unwrap();
    assert_eq!(read.len(), 2);
    assert_eq!(read[0].payload, b"key");
    assert_eq!(read[1].address, b"bb");
}

#[test]
fn empty_list_round_trip() {
    let none: Vec<PeerAddr> = vec![];
    let written = serialize_into(&mut pool(), &none);
    assert_eq!(written.to_vec(), vec![0; 8]);
    assert_eq!(deserialize_packet::<Vec<PeerAddr>>(&written).unwrap().len(), 0);
}

#[test]
fn writing_empties_the_pool_and_keeps_what_was_in_it() {
    let mut pool = pool();
    pool.extend_from_slice(&[42]);
    let none: Vec<PeerAddr> = vec![];
    let written = serialize_into(&mut pool, &none);
    assert_eq!(written.to_vec(), vec![42, 0, 0, 0, 0, 0, 0, 0, 0]);
    assert!(pool.is_empty());
}

#[test]
fn trailing_bytes_are_allowed() {
    let packet = ConnectionPacket { node_type: b"x", address: b"y", payload: b"z" };
    let mut written = serialize_into(&mut pool(), &packet).to_vec();
    written.push(99);
    assert_eq!(deserialize_packet::<ConnectionPacket>(&written).unwrap().payload, b"z");
}

#[test]
fn short_packets_are_rejected() {
    let packet = ConnectionPacket { node_type: b"x", address: b"y", payload: b"z" };
    let written = serialize_into(&mut pool(), &packet);
    for cut in 0..written.len() {
        let error = deserialize_packet::<ConnectionPacket>(&written[..cut]).unwrap_err();
        assert_eq!(error.kind, ErrorKind::InvalidData);
        assert_eq!(error.message, "");
    }
    let vote = ActorRequest::PeerVote { vote_type: vec![1], signed_msg: vec![], pubkey: [0; 32] };
    let written = serialize_into(&mut pool(), &vote);
    for cut in 0..written.len() {
        assert!(deserialize_packet::<ActorRequest>(&written[..cut]).is_err());
    }
    let request = ActorRequest::ConsensusRequest { transaction: transaction() };
    let written = serialize_into(&mut pool(), &request);
    for cut in 0..written.len() {
        assert!(deserialize_packet::<ActorRequest>(&written[..cut]).is_err());
    }
    let addresses = vec![PeerAddr::V4 { ip: [1, 2, 3, 4], port: 5 }, PeerAddr::V6 { ip: [9; 16], port: 5 }];
    let written = serialize_into(&mut pool(), &addresses);
    for cut in 0..written.len() {
        assert!(deserialize_packet::<Vec<PeerAddr>>(&written[..cut]).is_err());
    }
    let client = ClientTransaction { key: b"k", value: b"v", pubkey: b"p", signed_tx: b"s" };
    let written = serialize_into(&mut pool(), &client);
    for cut in 0..written.len() {
        assert!(deserialize_packet::<ClientTransaction>(&written[..cut]).is_err());
    }
}

#[test]
fn unknown_variants_are_rejected() {
    let bytes = bincode::serialize(&(2u32, [0u8; 32])).unwrap();
    assert!(deserialize_packet::<ActorRequest>(&bytes).is_err());
    assert!(deserialize_packet::<PeerAddr>(&bytes).is_err());
}

#[test]
fn huge_lengths_are_rejected() {
    assert!(deserialize_packet::<ConnectionPacket>(&[255; 24]).is_err());
    assert!(deserialize_packet::<Vec<PeerAddr>>(&[255; 24]).is_err());
}

#[test]
fn connection_packet_without_payload() {
    let mut pool = pool();
    let written = send_connection_packet("peer-pubkey", "127.0.0.1:1", None, &mut pool);
    let read: ConnectionPacket = deserialize_packet(&written).unwrap();
    assert_eq!(read.node_type, b"peer-pubkey");
    assert_eq!(read.address, b"127.0.0.1:1");
    assert_eq!(read.payload, b"");
    let written = send_connection_packet("leader", "a", Some(&[1, 2]), &mut pool);
    assert_eq!(deserialize_packet::<ConnectionPacket>(&written).unwrap().payload, [1, 2]);
}

#[test]
fn same_bytes_compares_all_bytes() {
    assert!(same_bytes(b"", b""));
    assert!(same_bytes(b"leader", b"leader"));
    assert!(!same_bytes(b"leader", b"leade"));
    assert!(!same_bytes(b"leader", b"leaden"));
}
