//! A client that asks a peer for a change.

use bytes::BytesMut;
use vstd::prelude::*;
use vstd::slice::slice_to_vec;

use crate::crypto;
use crate::crypto::{public_key, sign};
use crate::leader::PEER_PUBKEY;
use crate::packet::{
    serialize_into, ClientRequest, ClientTransaction, ConnectionPacket, Encode, Introduction, Message, Wire,
};
use crate::peer;
use crate::peer::{Treatment, CLIENT_TRANSACTION};
use crate::wire;

verus! {

/// The address that a client gives.
pub const ADDRESS: &'static str = "127.0.0.1:0";

/// What a client asks for: that a value be written to a key, signed with its
/// secret key.
pub open spec fn asked_by(secret: Seq<u8>, key: Seq<u8>, value: Seq<u8>) -> ClientRequest {
    ClientRequest {
        key,
        value,
        pubkey: crypto::ed25519_public_key(secret),
        signed_tx: crypto::ed25519_signature(secret, key + value),
    }
}

/// The packet in which a client's request is sent.
pub open spec fn client_says(payload: Seq<u8>) -> Introduction {
    Introduction { node_type: wire::text(CLIENT_TRANSACTION), address: wire::text(ADDRESS), payload }
}

/// Signs a request to write a value to a key, and writes it into a reusable
/// buffer. From an empty buffer it comes out as a packet that every peer accepts
/// and sends to the leader.
pub fn client_packet(key: &[u8], value: &[u8], signing_key: &[u8; 32], pool: &mut BytesMut) -> (packet: BytesMut)
    requires
        wire::buffer_bytes(*old(pool)).len() + 152 + key@.len() + value@.len() + wire::text(CLIENT_TRANSACTION).len()
            + wire::text(ADDRESS).len() <= isize::MAX,
    ensures
        wire::buffer_bytes(packet) == client_says(
            wire::buffer_bytes(*old(pool)) + asked_by(signing_key@, key@, value@).encoding(),
        ).encoding(),
        wire::buffer_bytes(*final(pool)) == Seq::<u8>::empty(),
        wire::buffer_bytes(*old(pool)) == Seq::<u8>::empty() ==> peer::treatment(
            wire::buffer_bytes(packet),
            Seq::empty(),
        ) == (Treatment::ToLeader {
            packet: Message::Consensus(
                peer::proposal_of(asked_by(signing_key@, key@, value@), key@ + value@),
            ).encoding(),
        }),
        wire::buffer_bytes(*old(pool)) == Seq::<u8>::empty() ==> (peer::treatment(
            wire::buffer_bytes(packet),
            Seq::empty(),
        ) matches Treatment::ToLeader { packet: sent } && Message::parse(sent) matches Some(
            (Message::Consensus(proposal), rest),
        ) && {
            &&& rest == Seq::<u8>::empty()
            &&& proposal.key == key@
            &&& proposal.value == value@
            &&& proposal.client_key == crypto::ed25519_public_key(signing_key@)
            &&& proposal.unsigned_msg == key@ + value@
            &&& proposal.signed_msg == crypto::ed25519_signature(signing_key@, key@ + value@)
        }),
{
    let ghost pooled = wire::buffer_bytes(*pool);
    let mut unsigned_msg: Vec<u8> = slice_to_vec(key);
    unsigned_msg.extend_from_slice(value);
    assert(unsigned_msg@ =~= key@ + value@);
    let pubkey = public_key(signing_key);
    let signature = sign(signing_key, unsigned_msg.as_slice());
    let client_tx = ClientTransaction { key, value, pubkey: pubkey.as_slice(), signed_tx: signature.as_slice() };
    proof {
        wire::blob_len(key@);
        wire::blob_len(value@);
        wire::blob_len(pubkey@);
        wire::blob_len(signature@);
    }
    let inner = serialize_into(pool, &client_tx);
    let payload = wire::copied(&inner);
    let connection = ConnectionPacket {
        node_type: CLIENT_TRANSACTION.as_bytes(),
        address: ADDRESS.as_bytes(),
        payload: payload.as_slice(),
    };
    proof {
        wire::blob_len(connection.node_type@);
        wire::blob_len(connection.address@);
        wire::blob_len(connection.payload@);
        client_tx.model_fits();
        client_tx.model().round_trip(Seq::empty());
        connection.model_fits();
        connection.model().round_trip(Seq::empty());
        assert(client_tx.model().encoding() + Seq::<u8>::empty() =~= client_tx.model().encoding());
        assert(Seq::<u8>::empty() + client_tx.model().encoding() =~= client_tx.model().encoding());
        assert(connection.model().encoding() + Seq::<u8>::empty() =~= connection.model().encoding());
        assert(Seq::<u8>::empty() + connection.model().encoding() =~= connection.model().encoding());
        assert(Seq::<u8>::empty() + key@ + value@ =~= key@ + value@);
        reveal_strlit("client-transaction");
        reveal_strlit("peer-pubkey");
        wire::texts_differ(CLIENT_TRANSACTION, PEER_PUBKEY);
        if pooled == Seq::<u8>::empty() {
            requests_reach_the_leader(signing_key@, key@, value@);
        }
    }
    serialize_into(pool, &connection)
}

/// A client asks for its key and value to be written, under its public key, and
/// signs the key followed by the value.
pub proof fn clients_sign_key_and_value(secret: Seq<u8>, key: Seq<u8>, value: Seq<u8>)
    ensures
        asked_by(secret, key, value).key == key,
        asked_by(secret, key, value).value == value,
        asked_by(secret, key, value).pubkey == crypto::ed25519_public_key(secret),
        asked_by(secret, key, value).signed_tx == crypto::ed25519_signature(secret, key + value),
{
}

/// A client says that it asks for a change, and sends its request as the payload.
pub proof fn client_says_what_it_wants(payload: Seq<u8>)
    ensures
        client_says(payload).node_type == wire::text("client-transaction"),
        client_says(payload).address == wire::text("127.0.0.1:0"),
        client_says(payload).payload == payload,
{
}

/// What a client asks for reaches the leader as just that: where its signature
/// is accepted, the leader reads the client's key and value from what the peer
/// sends it.
pub proof fn requests_reach_the_leader(secret: Seq<u8>, key: Seq<u8>, value: Seq<u8>)
    requires
        asked_by(secret, key, value).fits(),
        client_says(asked_by(secret, key, value).encoding()).fits(),
        client_says(asked_by(secret, key, value).encoding()).encoding().len() <= u64::MAX,
        crypto::rejection(
            crypto::ed25519_public_key(secret),
            key + value,
            crypto::ed25519_signature(secret, key + value),
        ) is None,
    ensures
        peer::treatment(
            client_says(asked_by(secret, key, value).encoding()).encoding(),
            Seq::empty(),
        ) matches Treatment::ToLeader { packet } && Message::parse(packet) matches Some(
            (Message::Consensus(proposal), rest),
        ) && {
            &&& rest.len() == 0
            &&& proposal.key == key
            &&& proposal.value == value
            &&& proposal.client_key == crypto::ed25519_public_key(secret)
            &&& proposal.unsigned_msg == key + value
            &&& proposal.signed_msg == crypto::ed25519_signature(secret, key + value)
        },
{
    let asked = asked_by(secret, key, value);
    let said = client_says(asked.encoding());
    let none = Seq::<u8>::empty();
    assert(asked.encoding() + none =~= asked.encoding());
    assert(said.encoding() + none =~= said.encoding());
    assert(none + key + value =~= key + value);
    said.round_trip(none);
    asked.round_trip(none);
    peer::clients_are_served_if_genuine(asked, none, wire::text(ADDRESS), none, none);
    peer::leader_reads_what_was_asked(said.encoding(), none);
}

} // verus!
