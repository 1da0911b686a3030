//! What the bytes of every packet are, and what the data in memory says.

use vstd::prelude::*;

use crate::bootnode::StoragePacket;
use crate::error::{ErrorKind, NodeError};
use crate::packet;
use crate::packet::{
    ActorRequest, ClientRequest, ClientTransaction, ConnectionPacket, Encode, Endpoint, Introduction, Message, PeerAddr,
    Proposal, Transaction, Wire,
};
use crate::wire;

verus! {

// ---------------------------------------------------------------------------
// The bytes of each packet
// ---------------------------------------------------------------------------

/// A number below 256 in four bytes.
proof fn small_number(value: nat)
    requires
        value < 256,
    ensures
        wire::le_bytes(value, 4) == seq![value as u8, 0u8, 0u8, 0u8],
{
    reveal_with_fuel(wire::le_bytes, 5);
    assert(wire::le_bytes(value, 4) =~= seq![value as u8, 0u8, 0u8, 0u8]);
}

/// An introduction is its node type, its address and its payload, each a byte
/// string, and nothing else.
pub proof fn introduction_layout(said: Introduction)
    ensures
        said.encoding() == wire::blob(said.node_type) + wire::blob(said.address) + wire::blob(said.payload),
        said.encoding().len() == 24 + said.node_type.len() + said.address.len() + said.payload.len(),
{
    wire::blob_len(said.node_type);
    wire::blob_len(said.address);
    wire::blob_len(said.payload);
}

/// A client's request is its key, its value, the public key and the signature,
/// each a byte string, and nothing else.
pub proof fn client_request_layout(asked: ClientRequest)
    ensures
        asked.encoding() == wire::blob(asked.key) + wire::blob(asked.value) + wire::blob(asked.pubkey) + wire::blob(
            asked.signed_tx,
        ),
        asked.encoding().len() == 32 + asked.key.len() + asked.value.len() + asked.pubkey.len()
            + asked.signed_tx.len(),
{
    wire::blob_len(asked.key);
    wire::blob_len(asked.value);
    wire::blob_len(asked.pubkey);
    wire::blob_len(asked.signed_tx);
}

/// A transaction is its two counters in four bytes each, and then its five byte
/// strings.
pub proof fn proposal_layout(proposal: Proposal)
    ensures
        proposal.encoding() == wire::le_bytes(proposal.seq_counter as nat, 4) + wire::le_bytes(
            proposal.view_number as nat,
            4,
        ) + wire::blob(proposal.client_key) + wire::blob(proposal.key) + wire::blob(proposal.value) + wire::blob(
            proposal.unsigned_msg,
        ) + wire::blob(proposal.signed_msg),
        proposal.encoding().len() == 48 + proposal.client_key.len() + proposal.key.len() + proposal.value.len()
            + proposal.unsigned_msg.len() + proposal.signed_msg.len(),
{
    wire::le_bytes_len(proposal.seq_counter as nat, 4);
    wire::le_bytes_len(proposal.view_number as nat, 4);
    wire::blob_len(proposal.client_key);
    wire::blob_len(proposal.key);
    wire::blob_len(proposal.value);
    wire::blob_len(proposal.unsigned_msg);
    wire::blob_len(proposal.signed_msg);
}

/// A consensus request is four zero bytes and its transaction.
pub proof fn consensus_request_layout(proposal: Proposal)
    ensures
        Message::Consensus(proposal).encoding() == seq![0u8, 0u8, 0u8, 0u8] + proposal.encoding(),
{
    small_number(0);
}

/// A vote is a one in four bytes, the name of its stage and its signature, each
/// a byte string, and the voter's key as it is.
pub proof fn vote_layout(stage: Seq<u8>, signature: Seq<u8>, voter: Seq<u8>)
    ensures
        (Message::Vote { stage, signature, voter }).encoding() == seq![1u8, 0u8, 0u8, 0u8] + wire::blob(stage)
            + wire::blob(signature) + voter,
        (Message::Vote { stage, signature, voter }).encoding().len() == 20 + stage.len() + signature.len()
            + voter.len(),
{
    small_number(1);
    wire::blob_len(stage);
    wire::blob_len(signature);
}

/// A socket address is a zero, or a one for IPv6, in four bytes, the bytes of
/// the IP address, and the port in two bytes, the least significant first.
pub proof fn endpoint_layout(ip: Seq<u8>, port: u16)
    ensures
        (Endpoint::V4 { ip, port }).encoding() == seq![0u8, 0u8, 0u8, 0u8] + ip + seq![
            (port % 256) as u8,
            (port / 256) as u8,
        ],
        (Endpoint::V6 { ip, port }).encoding() == seq![1u8, 0u8, 0u8, 0u8] + ip + seq![
            (port % 256) as u8,
            (port / 256) as u8,
        ],
{
    small_number(0);
    small_number(1);
    reveal_with_fuel(wire::le_bytes, 3);
    assert(wire::le_bytes(port as nat, 2) =~= seq![(port % 256) as u8, (port / 256) as u8]);
}

/// A value fits its format where its byte strings have lengths of eight bytes,
/// and its keys and IP addresses have theirs.
pub proof fn what_fits(
    said: Introduction,
    asked: ClientRequest,
    proposal: Proposal,
    message: Message,
    endpoint: Endpoint,
)
    ensures
        said.fits() <==> said.node_type.len() <= u64::MAX && said.address.len() <= u64::MAX && said.payload.len()
            <= u64::MAX,
        asked.fits() <==> asked.key.len() <= u64::MAX && asked.value.len() <= u64::MAX && asked.pubkey.len() <= u64::MAX
            && asked.signed_tx.len() <= u64::MAX,
        proposal.fits() <==> proposal.client_key.len() <= u64::MAX && proposal.key.len() <= u64::MAX
            && proposal.value.len() <= u64::MAX && proposal.unsigned_msg.len() <= u64::MAX
            && proposal.signed_msg.len() <= u64::MAX,
        message matches Message::Consensus(inner) ==> (message.fits() <==> inner.fits()),
        message matches Message::Vote { stage, signature, voter } ==> (message.fits() <==> stage.len() <= u64::MAX
            && signature.len() <= u64::MAX && voter.len() == 32),
        endpoint matches Endpoint::V4 { ip, .. } ==> (endpoint.fits() <==> ip.len() == 4),
        endpoint matches Endpoint::V6 { ip, .. } ==> (endpoint.fits() <==> ip.len() == 16),
{
}

// ---------------------------------------------------------------------------
// What the data in memory says
// ---------------------------------------------------------------------------

/// A connection packet says what its fields hold.
pub proof fn connection_packet_says(packet: ConnectionPacket)
    ensures
        packet.model().node_type == packet.node_type@,
        packet.model().address == packet.address@,
        packet.model().payload == packet.payload@,
{
}

/// A listed node says what its fields hold.
pub proof fn storage_packet_says(packet: StoragePacket)
    ensures
        packet.model().node_type == packet.node_type@,
        packet.model().address == packet.address@,
        packet.model().payload == packet.payload@,
{
}

/// A client transaction says what its fields hold.
pub proof fn client_transaction_says(transaction: ClientTransaction)
    ensures
        transaction.model().key == transaction.key@,
        transaction.model().value == transaction.value@,
        transaction.model().pubkey == transaction.pubkey@,
        transaction.model().signed_tx == transaction.signed_tx@,
{
}

/// A transaction says what its fields hold.
pub proof fn transaction_says(transaction: Transaction)
    ensures
        transaction.model() == transaction@,
        transaction@.seq_counter == transaction.seq_counter,
        transaction@.view_number == transaction.view_number,
        transaction@.client_key == transaction.client_key@,
        transaction@.key == transaction.key@,
        transaction@.value == transaction.value@,
        transaction@.unsigned_msg == transaction.unsigned_msg@,
        transaction@.signed_msg == transaction.signed_msg@,
{
}

/// A request says what its fields hold.
pub proof fn request_says(request: ActorRequest)
    ensures
        request.model() == request@,
        request matches ActorRequest::ConsensusRequest { transaction } ==> request@ == Message::Consensus(transaction@),
        request matches ActorRequest::PeerVote { vote_type, signed_msg, pubkey } ==> request@ == (Message::Vote {
            stage: vote_type@,
            signature: signed_msg@,
            voter: pubkey@,
        }),
{
}

/// A peer's address says what its fields hold.
pub proof fn peer_addr_says(addr: PeerAddr)
    ensures
        addr.model() == addr@,
        addr matches PeerAddr::V4 { ip, port } ==> addr@ == (Endpoint::V4 { ip: ip@, port }),
        addr matches PeerAddr::V6 { ip, port } ==> addr@ == (Endpoint::V6 { ip: ip@, port }),
{
}

/// A list says what its items say, one for each and in their order.
pub proof fn list_says<T: Encode>(items: Vec<T>, index: int)
    requires
        0 <= index < items@.len(),
    ensures
        items.model() == packet::models(items@),
        items.model().len() == items@.len(),
        items.model()[index] == items@[index].model(),
{
}

/// A packet says the node type and the address that were given, and the payload,
/// if one was given.
pub proof fn introduction_says(node_type: Seq<u8>, address: Seq<u8>, payload: &[u8])
    ensures
        packet::introduction(node_type, address, Some(payload)) == (Introduction {
            node_type,
            address,
            payload: payload@,
        }),
        packet::introduction(node_type, address, None).node_type == node_type,
        packet::introduction(node_type, address, None).address == address,
        packet::introduction(node_type, address, None).payload.len() == 0,
{
}

/// An error is the error of a kind and a text exactly if it has both.
pub proof fn error_says(error: NodeError, kind: ErrorKind, message: Seq<char>)
    ensures
        error.is(kind, message) <==> error.kind == kind && error.message@ == message,
{
}

/// The bytes of a text of ASCII characters are those characters.
pub proof fn text_of_ascii(text: &str, index: int)
    requires
        vstd::utf8::is_ascii_chars(text@),
        0 <= index < text@.len(),
    ensures
        wire::text(text).len() == text@.len(),
        wire::text(text)[index] == text@[index] as u8,
{
    wire::ascii_text(text);
}

} // verus!
