//! A peer: it finds the network through the bootnode, and it takes transactions
//! from clients to the leader.

use bytes::BytesMut;
use vstd::prelude::*;
use vstd::slice::slice_to_vec;

use crate::crypto;
use crate::crypto::{public_key, verify_transaction};
use crate::error::{ErrorKind, NodeError};
use crate::leader::{ActorAction, ActorEvent, LEADER, PEER_PUBKEY};
use crate::packet::{
    deserialize_packet, send_connection_packet, serialize_into, ActorRequest, ClientRequest, ClientTransaction,
    ConnectionPacket, Encode, Introduction, Message, Proposal, Transaction, Wire,
};
use crate::tools::ConsensusToolsStruct;
use crate::wire;
use crate::wire::same_bytes;

verus! {

/// Where the peer listens.
pub const ADDRESS: &'static str = "127.0.0.1:6376";

/// The node type in the packet of a client that asks for a change.
pub const CLIENT_TRANSACTION: &'static str = "client-transaction";

/// Whether peers may propose transactions to a peer: only the leader starts
/// consensus.
pub const PEERS_MAY_PROPOSE: bool = false;

/// How long a node that connects may take to introduce itself to a peer, in
/// milliseconds.
pub const INTRODUCTION_TIMEOUT: u64 = 2000;

// ---------------------------------------------------------------------------
// Finding the network
// ---------------------------------------------------------------------------

/// What a peer says of itself.
pub open spec fn peer_says(address: Seq<u8>, secret: Seq<u8>) -> Introduction {
    Introduction {
        node_type: wire::text(PEER_PUBKEY),
        address,
        payload: crypto::ed25519_public_key(secret),
    }
}

/// Writes the packet by which a peer introduces itself to any node.
pub fn peer_introduction(address: &str, signing_key: &[u8; 32], pool: &mut BytesMut) -> (packet: BytesMut)
    requires
        wire::buffer_bytes(*old(pool)).len() + 24 + wire::text(PEER_PUBKEY).len() + wire::text(address).len() + 32
            <= isize::MAX,
    ensures
        wire::buffer_bytes(packet) == wire::buffer_bytes(*old(pool)) + peer_says(
            wire::text(address),
            signing_key@,
        ).encoding(),
        wire::buffer_bytes(*final(pool)) == Seq::<u8>::empty(),
{
    let pubkey = public_key(signing_key);
    proof {
        wire::blob_len(wire::text(PEER_PUBKEY));
        wire::blob_len(wire::text(address));
        wire::blob_len(pubkey@);
    }
    send_connection_packet(PEER_PUBKEY, address, Some(pubkey.as_slice()), pool)
}

/// The nodes that a peer has connected to. `S` is the socket by which a node is
/// written to.
pub struct Discovery<S> {
    /// The other peers, in the order of the bootnode's list.
    pub registry: Vec<S>,
    /// The leader, if it was found.
    pub leader: Option<S>,
}

impl<S> Discovery<S> {
    /// Nobody was found yet.
    pub fn new() -> (found: Self)
        ensures
            found@ == Network::<S>::nobody(),
    {
        Discovery { registry: Vec::new(), leader: None }
    }
}

/// What a peer does about a node in the bootnode's list.
#[derive(Debug)]
pub enum Found {
    /// The node could not be reached: go on with the next.
    Unreachable,
    /// Read from the node that is known by the key. Only the leader may propose
    /// transactions.
    Reached { pubkey: Vec<u8>, may_propose: bool },
}

/// Who was found, as a value: the registered sockets, and the leader's.
pub struct Network<S> {
    pub registry: Seq<S>,
    pub leader: Option<S>,
}

impl<S> View for Discovery<S> {
    type V = Network<S>;

    open spec fn view(&self) -> Network<S> {
        Network { registry: self.registry@, leader: self.leader }
    }
}

impl<S> Network<S> {
    /// Nobody was found.
    pub open spec fn nobody() -> Network<S> {
        Network { registry: Seq::empty(), leader: None }
    }

    /// Who was found after one more node of the list, where there is a socket
    /// to it if it could be reached.
    pub open spec fn find(self, node: Introduction, socket: Option<S>) -> Network<S> {
        match socket {
            None => self,
            Some(socket) => if node.node_type == wire::text(LEADER) {
                Network { leader: Some(socket), ..self }
            } else {
                Network { registry: self.registry.push(socket), ..self }
            },
        }
    }

    /// Who was found after a whole list.
    pub open spec fn find_all(nodes: Seq<Introduction>, sockets: Seq<Option<S>>) -> Network<S>
        decreases nodes.len(),
    {
        if nodes.len() == 0 {
            Network::nobody()
        } else {
            Network::find_all(nodes.drop_last(), sockets.drop_last()).find(nodes.last(), sockets.last())
        }
    }
}

/// A peer finds a leader exactly if a leader of the list could be reached.
pub proof fn leader_is_found_if_reached<S>(nodes: Seq<Introduction>, sockets: Seq<Option<S>>)
    requires
        nodes.len() == sockets.len(),
    ensures
        Network::find_all(nodes, sockets).leader is Some <==> exists|i: int|
            0 <= i < nodes.len() && (#[trigger] nodes[i]).node_type == wire::text(LEADER) && sockets[i] is Some,
    decreases nodes.len(),
{
    if nodes.len() > 0 {
        let last = nodes.len() - 1;
        let earlier = nodes.drop_last();
        leader_is_found_if_reached(earlier, sockets.drop_last());
        if Network::find_all(earlier, sockets.drop_last()).leader is Some {
            let i = choose|i: int|
                0 <= i < earlier.len() && (#[trigger] earlier[i]).node_type == wire::text(LEADER)
                    && sockets.drop_last()[i] is Some;
            assert(nodes[i].node_type == wire::text(LEADER) && sockets[i] is Some);
        } else {
            assert forall|i: int|
                0 <= i < nodes.len() && (#[trigger] nodes[i]).node_type == wire::text(LEADER)
                    && sockets[i] is Some implies i == last by {
                if i < last {
                    assert(earlier[i].node_type == wire::text(LEADER) && sockets.drop_last()[i] is Some);
                }
            }
            assert(nodes[last] == nodes.last());
        }
    }
}

/// What one node of the list adds to the network: nothing if it was not reached,
/// the leader if it is the leader, and otherwise one more registered socket, at
/// the end.
pub proof fn what_a_node_adds<S>(network: Network<S>, node: Introduction, socket: S)
    ensures
        network.find(node, None) == network,
        node.node_type == wire::text("leader") ==> network.find(node, Some(socket)) == (Network {
            registry: network.registry,
            leader: Some(socket),
        }),
        node.node_type != wire::text("leader") ==> network.find(node, Some(socket)) == (Network {
            registry: network.registry.push(socket),
            leader: network.leader,
        }),
{
}

/// Whether a node of the list is to be registered: it was reached and is not the
/// leader.
pub open spec fn is_reached_peer<S>(nodes: Seq<Introduction>, sockets: Seq<Option<S>>, index: int) -> bool {
    &&& 0 <= index < nodes.len()
    &&& nodes[index].node_type != wire::text("leader")
    &&& sockets[index] is Some
}

/// Whether `places` are the places of all nodes that are to be registered, in the
/// order of the list, each once, and `registry` holds the sockets of just those.
pub open spec fn registers_all<S>(
    nodes: Seq<Introduction>,
    sockets: Seq<Option<S>>,
    registry: Seq<S>,
    places: Seq<int>,
) -> bool {
    &&& places.len() == registry.len()
    &&& forall|k: int|
        0 <= k < places.len() ==> is_reached_peer(nodes, sockets, #[trigger] places[k]) && registry[k]
            == sockets[places[k]].unwrap()
    &&& forall|j: int, k: int| 0 <= j < k < places.len() ==> #[trigger] places[j] < #[trigger] places[k]
    &&& forall|i: int| #[trigger] is_reached_peer(nodes, sockets, i) ==> places.contains(i)
}

/// After a whole list, the registry holds the sockets of all nodes that were
/// reached and are not the leader, in the order of the list, and no others.
pub proof fn all_reached_peers_are_registered<S>(nodes: Seq<Introduction>, sockets: Seq<Option<S>>)
    requires
        nodes.len() == sockets.len(),
    ensures
        exists|places: Seq<int>|
            registers_all(nodes, sockets, Network::find_all(nodes, sockets).registry, places),
    decreases nodes.len(),
{
    let registry = Network::find_all(nodes, sockets).registry;
    if nodes.len() == 0 {
        assert(registers_all(nodes, sockets, registry, Seq::empty()));
    } else {
        let last = nodes.len() - 1;
        let earlier = nodes.drop_last();
        let earlier_sockets = sockets.drop_last();
        let before = Network::find_all(earlier, earlier_sockets).registry;
        all_reached_peers_are_registered(earlier, earlier_sockets);
        let places = choose|places: Seq<int>| registers_all(earlier, earlier_sockets, before, places);
        assert forall|k: int| 0 <= k < places.len() implies is_reached_peer(nodes, sockets, #[trigger] places[k])
            && places[k] < last && before[k] == sockets[places[k]].unwrap() by {
            assert(is_reached_peer(earlier, earlier_sockets, places[k]));
        }
        assert forall|i: int| #[trigger] is_reached_peer(nodes, sockets, i) && i != last implies places.contains(i) by {
            assert(is_reached_peer(earlier, earlier_sockets, i));
        }
        if is_reached_peer(nodes, sockets, last) {
            let grown = places.push(last);
            assert(registry == before.push(sockets[last].unwrap()));
            assert forall|i: int| #[trigger] is_reached_peer(nodes, sockets, i) implies grown.contains(i) by {
                if i == last {
                    assert(grown[places.len() as int] == last);
                } else {
                    let k = places.index_of(i);
                    assert(grown[k] == i);
                }
            }
            assert(registers_all(nodes, sockets, registry, grown));
        } else {
            assert(registry == before);
            assert(registers_all(nodes, sockets, registry, places));
        }
    }
}

/// After a whole list, the leader is the last node of the list that was reached
/// and says it is the leader.
pub proof fn last_leader_is_kept<S>(nodes: Seq<Introduction>, sockets: Seq<Option<S>>, index: int)
    requires
        nodes.len() == sockets.len(),
        0 <= index < nodes.len(),
        nodes[index].node_type == wire::text("leader"),
        sockets[index] is Some,
        forall|i: int|
            index < i < nodes.len() ==> (#[trigger] nodes[i]).node_type != wire::text("leader") || sockets[i] is None,
    ensures
        Network::find_all(nodes, sockets).leader == sockets[index],
    decreases nodes.len(),
{
    let last = nodes.len() - 1;
    if index < last {
        assert(nodes[last].node_type != wire::text("leader") || sockets[last] is None);
        assert forall|i: int| index < i < nodes.drop_last().len() implies (#[trigger] nodes.drop_last()[i]).node_type
            != wire::text("leader") || sockets.drop_last()[i] is None by {
            assert(nodes[i].node_type != wire::text("leader") || sockets[i] is None);
        }
        last_leader_is_kept(nodes.drop_last(), sockets.drop_last(), index);
    }
}

/// Who was found is what the fields hold.
pub proof fn discovery_says<S>(found: Discovery<S>)
    ensures
        found@.registry == found.registry@,
        found@.leader == found.leader,
        Network::<S>::nobody().registry.len() == 0,
        Network::<S>::nobody().leader is None,
{
}

/// Takes a node of the bootnode's list and the socket to it, if it could be
/// reached: the leader is kept apart, and any other node is registered.
pub fn discover_network<S>(found: &mut Discovery<S>, node: &ConnectionPacket, socket: Option<S>) -> (action: Found)
    ensures
        final(found)@ == old(found)@.find(node.model(), socket),
        match socket {
            None => action is Unreachable,
            Some(_) => action matches Found::Reached { pubkey, may_propose } && pubkey@ == node.payload@ && may_propose
                == (node.node_type@ == wire::text(LEADER)),
        },
{
    match socket {
        None => Found::Unreachable,
        Some(socket) => {
            let may_propose = same_bytes(node.node_type, LEADER.as_bytes());
            if may_propose {
                found.leader = Some(socket);
            } else {
                found.registry.push(socket);
            }
            Found::Reached { pubkey: slice_to_vec(node.payload), may_propose }
        },
    }
}

// ---------------------------------------------------------------------------
// Serving peers and clients
// ---------------------------------------------------------------------------

/// What becomes of a connection to a peer.
pub enum Service {
    /// Nothing was read in time: drop the connection.
    Silent,
    /// What was read is no connection packet: drop the connection.
    BadPacket,
    /// The node is of no known type: drop the connection.
    UnknownNode,
    /// Read from the peer that is known by the key, and register it.
    Join { pubkey: Vec<u8> },
    /// Send the client's transaction to the leader.
    ToLeader { packet: BytesMut },
    /// The client's transaction is not valid: stop serving.
    Fail(NodeError),
}

/// What becomes of a connection to a peer, as a value.
pub enum Treatment {
    Silent,
    BadPacket,
    UnknownNode,
    Join { pubkey: Seq<u8> },
    ToLeader { packet: Seq<u8> },
    Fail { kind: ErrorKind, message: Seq<char> },
}

impl View for Service {
    type V = Treatment;

    open spec fn view(&self) -> Treatment {
        match self {
            Service::Silent => Treatment::Silent,
            Service::BadPacket => Treatment::BadPacket,
            Service::UnknownNode => Treatment::UnknownNode,
            Service::Join { pubkey } => Treatment::Join { pubkey: pubkey@ },
            Service::ToLeader { packet } => Treatment::ToLeader { packet: wire::buffer_bytes(*packet) },
            Service::Fail(error) => Treatment::Fail { kind: error.kind, message: error.message@ },
        }
    }
}

/// The transaction that a client asks for, where `unsigned_msg` is what it has
/// to have signed.
pub open spec fn proposal_of(said: ClientRequest, unsigned_msg: Seq<u8>) -> Proposal {
    Proposal {
        seq_counter: 0,
        view_number: 0,
        client_key: said.pubkey,
        key: said.key,
        value: said.value,
        unsigned_msg,
        signed_msg: said.signed_tx,
    }
}

/// What becomes of a client's request: if the client signed the key and the
/// value, the transaction goes to the leader. The peer's buffer holds `pooled`,
/// which goes before the key.
pub open spec fn client_treatment(payload: Seq<u8>, pooled: Seq<u8>) -> Treatment {
    match ClientRequest::parse(payload) {
        None => Treatment::Fail { kind: ErrorKind::InvalidData, message: ""@ },
        Some((said, _)) => {
            let unsigned_msg = pooled + said.key + said.value;
            match crypto::rejection(said.pubkey, unsigned_msg, said.signed_tx) {
                Some(text) => Treatment::Fail { kind: ErrorKind::InvalidData, message: text },
                None => Treatment::ToLeader {
                    packet: Message::Consensus(proposal_of(said, unsigned_msg)).encoding(),
                },
            }
        },
    }
}

/// What becomes of a connection on which a frame was read first: peers join,
/// and clients are served.
pub open spec fn treatment(frame: Seq<u8>, pooled: Seq<u8>) -> Treatment {
    match Introduction::parse(frame) {
        None => Treatment::BadPacket,
        Some((said, _)) => if said.node_type == wire::text(PEER_PUBKEY) {
            Treatment::Join { pubkey: said.payload }
        } else if said.node_type == wire::text(CLIENT_TRANSACTION) {
            client_treatment(said.payload, pooled)
        } else {
            Treatment::UnknownNode
        },
    }
}

/// Whether a frame is the request of a client for a change, with a good or a bad
/// signature.
pub open spec fn asks_for_change(frame: Seq<u8>) -> bool {
    Introduction::parse(frame) matches Some((said, _)) && {
        &&& said.node_type != wire::text(PEER_PUBKEY)
        &&& said.node_type == wire::text(CLIENT_TRANSACTION)
        &&& ClientRequest::parse(said.payload) is Some
    }
}

/// Sends a client's transaction on if its signature was accepted.
pub fn client_verdict(request: &ActorRequest, verified: Result<(), NodeError>, pool: &mut BytesMut) -> (service: Service)
    requires
        wire::buffer_bytes(*old(pool)).len() + request@.encoding().len() <= isize::MAX,
    ensures
        match verified {
            Ok(_) => {
                &&& service@ == (Treatment::ToLeader {
                    packet: wire::buffer_bytes(*old(pool)) + request@.encoding(),
                })
                &&& wire::buffer_bytes(*final(pool)) == Seq::<u8>::empty()
            },
            Err(error) => {
                &&& service@ == (Treatment::Fail { kind: error.kind, message: error.message@ })
                &&& wire::buffer_bytes(*final(pool)) == wire::buffer_bytes(*old(pool))
            },
        },
{
    match verified {
        Ok(_) => Service::ToLeader { packet: serialize_into(pool, request) },
        Err(error) => Service::Fail(error),
    }
}

/// How many bytes the transaction of a client takes.
proof fn proposal_size(proposal: Proposal)
    ensures
        Message::Consensus(proposal).encoding().len() == 52 + proposal.client_key.len() + proposal.key.len()
            + proposal.value.len() + proposal.unsigned_msg.len() + proposal.signed_msg.len(),
{
    wire::le_bytes_len(0, 4);
    wire::le_bytes_len(proposal.seq_counter as nat, 4);
    wire::le_bytes_len(proposal.view_number as nat, 4);
    wire::blob_len(proposal.client_key);
    wire::blob_len(proposal.key);
    wire::blob_len(proposal.value);
    wire::blob_len(proposal.unsigned_msg);
    wire::blob_len(proposal.signed_msg);
}

/// Serves a client, from the payload of its packet.
fn serve_client(payload: &[u8], pool: &mut BytesMut) -> (service: Service)
    requires
        wire::buffer_bytes(*old(pool)).len() + 2 * payload@.len() + 52 <= isize::MAX,
    ensures
        service@ == client_treatment(payload@, wire::buffer_bytes(*old(pool))),
        wire::buffer_bytes(*final(pool)) == (if ClientRequest::parse(payload@) is Some {
            Seq::<u8>::empty()
        } else {
            wire::buffer_bytes(*old(pool))
        }),
{
    let client_tx = match deserialize_packet::<ClientTransaction>(payload) {
        Ok(client_tx) => client_tx,
        Err(error) => return Service::Fail(error),
    };
    let ghost pooled = wire::buffer_bytes(*pool);
    assert(client_tx.key@.len() + client_tx.value@.len() + client_tx.pubkey@.len() + client_tx.signed_tx@.len()
        <= payload@.len());
    wire::append(pool, client_tx.key);
    wire::append(pool, client_tx.value);
    let unsigned_msg = wire::split(pool);
    let transaction = Transaction {
        seq_counter: 0,
        view_number: 0,
        client_key: slice_to_vec(client_tx.pubkey),
        key: slice_to_vec(client_tx.key),
        value: slice_to_vec(client_tx.value),
        unsigned_msg: wire::copied(&unsigned_msg),
        signed_msg: slice_to_vec(client_tx.signed_tx),
    };
    let verified = verify_transaction(client_tx.pubkey, transaction.unsigned_msg.as_slice(), client_tx.signed_tx);
    proof {
        proposal_size(transaction@);
        assert(transaction@ == proposal_of(client_tx.model(), pooled + client_tx.key@ + client_tx.value@));
        assert(Seq::<u8>::empty() + Message::Consensus(transaction@).encoding()
            =~= Message::Consensus(transaction@).encoding());
    }
    let request = ActorRequest::ConsensusRequest { transaction };
    client_verdict(&request, verified, pool)
}

/// Decides what becomes of a connection, from the first frame that was read on
/// it, if one was read in time.
pub fn start_server(first_frame: Option<&[u8]>, pool: &mut BytesMut) -> (service: Service)
    requires
        first_frame matches Some(frame) ==> wire::buffer_bytes(*old(pool)).len() + 2 * frame@.len() + 52 <= isize::MAX,
    ensures
        service@ == (match first_frame {
            Some(frame) => treatment(frame@, wire::buffer_bytes(*old(pool))),
            None => Treatment::Silent,
        }),
        wire::buffer_bytes(*final(pool)) == (if first_frame matches Some(frame) && asks_for_change(frame@) {
            Seq::<u8>::empty()
        } else {
            wire::buffer_bytes(*old(pool))
        }),
{
    let frame = match first_frame {
        Some(frame) => frame,
        None => return Service::Silent,
    };
    let packet = match deserialize_packet::<ConnectionPacket>(frame) {
        Ok(packet) => packet,
        Err(_) => return Service::BadPacket,
    };
    if same_bytes(packet.node_type, PEER_PUBKEY.as_bytes()) {
        Service::Join { pubkey: slice_to_vec(packet.payload) }
    } else if same_bytes(packet.node_type, CLIENT_TRANSACTION.as_bytes()) {
        assert(packet.payload@.len() <= frame@.len());
        serve_client(packet.payload, pool)
    } else {
        Service::UnknownNode
    }
}

/// A transaction that a peer sends to the leader is read there as it was sent,
/// and its client signature is accepted by every node.
pub proof fn forwarded_transactions_are_valid(frame: Seq<u8>)
    requires
        frame.len() <= u64::MAX,
        treatment(frame, Seq::empty()) is ToLeader,
    ensures
        Message::parse(treatment(frame, Seq::empty())->packet) matches Some((Message::Consensus(proposal), rest)) && {
            &&& rest == Seq::<u8>::empty()
            &&& proposal.unsigned_msg == proposal.key + proposal.value
            &&& crypto::rejection(proposal.client_key, proposal.unsigned_msg, proposal.signed_msg) is None
        },
{
    let said = Introduction::parse(frame).unwrap().0;
    let asked = ClientRequest::parse(said.payload).unwrap().0;
    let unsigned_msg = Seq::<u8>::empty() + asked.key + asked.value;
    assert(unsigned_msg =~= asked.key + asked.value);
    let message = Message::Consensus(proposal_of(asked, unsigned_msg));
    message.round_trip(Seq::empty());
    assert(message.encoding() + Seq::<u8>::empty() =~= message.encoding());
}

/// Takes what the actor of a peer is told. A consensus request starts a round; a
/// vote that comes while no round is on is left out; a peer is added to the
/// registry.
pub fn peer_consensus_actor<S>(event: ActorEvent<S>, tools: &mut ConsensusToolsStruct<S>) -> (action: ActorAction)
    ensures
        match event {
            ActorEvent::Request(ActorRequest::ConsensusRequest { transaction }) => {
                &&& action matches ActorAction::RunConsensus { transaction: run } && run == transaction
                &&& *final(tools) == *old(tools)
            },
            ActorEvent::Request(ActorRequest::PeerVote { .. }) => {
                &&& action is Ignore
                &&& *final(tools) == *old(tools)
            },
            ActorEvent::Register(request) => {
                &&& action is Registered
                &&& final(tools).registry@ == old(tools).registry@.push(request.socket)
                &&& final(tools).address_list == old(tools).address_list
                &&& final(tools).sequence_counter == old(tools).sequence_counter
                &&& final(tools).view_number == old(tools).view_number
            },
        },
{
    match event {
        ActorEvent::Request(ActorRequest::ConsensusRequest { transaction }) => ActorAction::RunConsensus {
            transaction,
        },
        ActorEvent::Request(ActorRequest::PeerVote { .. }) => ActorAction::Ignore,
        ActorEvent::Register(request) => {
            tools.registry.push(request.socket);
            ActorAction::Registered
        },
    }
}

/// A peer says that it is one, where it listens, and what its public key is.
pub proof fn peer_says_who_it_is(address: Seq<u8>, secret: Seq<u8>)
    ensures
        peer_says(address, secret).node_type == wire::text("peer-pubkey"),
        peer_says(address, secret).address == address,
        peer_says(address, secret).payload == crypto::ed25519_public_key(secret),
{
}

/// The node types that a peer serves cannot be taken for one another.
proof fn clients_are_no_peers()
    ensures
        wire::text("client-transaction") != wire::text("peer-pubkey"),
{
    reveal_strlit("client-transaction");
    reveal_strlit("peer-pubkey");
    wire::texts_differ("client-transaction", "peer-pubkey");
}

/// What a node says decides how it is served: a peer joins under the key that it
/// gives, a client is served, and any other node is turned away; and so is one
/// that sends no introduction.
pub proof fn nodes_are_served_as_they_say(said: Introduction, rest: Seq<u8>, nonsense: Seq<u8>, pooled: Seq<u8>)
    requires
        said.fits(),
        Introduction::parse(nonsense) is None,
    ensures
        said.node_type == wire::text("peer-pubkey") ==> treatment(said.encoding() + rest, pooled) == (Treatment::Join {
            pubkey: said.payload,
        }),
        said.node_type == wire::text("client-transaction") ==> treatment(said.encoding() + rest, pooled) is ToLeader
            || treatment(said.encoding() + rest, pooled) is Fail,
        said.node_type != wire::text("peer-pubkey") && said.node_type != wire::text("client-transaction")
            ==> treatment(said.encoding() + rest, pooled) == Treatment::UnknownNode,
        treatment(nonsense, pooled) == Treatment::BadPacket,
{
    said.round_trip(rest);
    clients_are_no_peers();
}

/// A client's request that its signature does not belong to, or that cannot be
/// read, fails with what is wrong; any other goes to the leader.
pub proof fn clients_are_served_if_genuine(
    asked: ClientRequest,
    more: Seq<u8>,
    address: Seq<u8>,
    rest: Seq<u8>,
    pooled: Seq<u8>,
)
    requires
        asked.fits(),
        (Introduction { node_type: wire::text("client-transaction"), address, payload: asked.encoding() + more }).fits(),
    ensures
        ({
            let said = Introduction {
                node_type: wire::text("client-transaction"),
                address,
                payload: asked.encoding() + more,
            };
            let treated = treatment(said.encoding() + rest, pooled);
            let fault = crypto::rejection(asked.pubkey, pooled + asked.key + asked.value, asked.signed_tx);
            &&& treated is ToLeader <==> fault is None
            &&& fault matches Some(text) ==> treated == (Treatment::Fail {
                kind: ErrorKind::InvalidData,
                message: text,
            })
            &&& asks_for_change(said.encoding() + rest)
        }),
{
    let said = Introduction { node_type: wire::text("client-transaction"), address, payload: asked.encoding() + more };
    said.round_trip(rest);
    asked.round_trip(more);
    clients_are_no_peers();
}

/// A client's packet that holds no request fails.
pub proof fn unreadable_requests_fail(said: Introduction, rest: Seq<u8>, pooled: Seq<u8>)
    requires
        said.fits(),
        said.node_type == wire::text("client-transaction"),
        ClientRequest::parse(said.payload) is None,
    ensures
        treatment(said.encoding() + rest, pooled) == (Treatment::Fail { kind: ErrorKind::InvalidData, message: ""@ }),
        !asks_for_change(said.encoding() + rest),
{
    said.round_trip(rest);
    clients_are_no_peers();
}

/// A frame asks for a change exactly if it introduces a client and holds a
/// request.
pub proof fn who_asks_for_change(frame: Seq<u8>)
    ensures
        asks_for_change(frame) <==> (Introduction::parse(frame) matches Some((said, _)) && said.node_type == wire::text(
            "client-transaction",
        ) && ClientRequest::parse(said.payload) is Some),
{
    clients_are_no_peers();
}

/// What a peer sends to the leader is what the client asked for: the leader reads
/// the client's own key, value, public key and signature, both counters are
/// zero, and what was signed is what the buffer held, the key and the value.
pub proof fn leader_reads_what_was_asked(frame: Seq<u8>, pooled: Seq<u8>)
    requires
        pooled.len() + frame.len() <= u64::MAX,
        treatment(frame, pooled) is ToLeader,
    ensures
        Introduction::parse(frame) matches Some((said, _)) && {
            &&& said.node_type == wire::text("client-transaction")
            &&& ClientRequest::parse(said.payload) matches Some((asked, _)) && {
                &&& Message::parse(treatment(frame, pooled)->packet) matches Some((Message::Consensus(proposal), rest))
                    && {
                    &&& rest.len() == 0
                    &&& proposal.seq_counter == 0
                    &&& proposal.view_number == 0
                    &&& proposal.client_key == asked.pubkey
                    &&& proposal.key == asked.key
                    &&& proposal.value == asked.value
                    &&& proposal.unsigned_msg == pooled + asked.key + asked.value
                    &&& proposal.signed_msg == asked.signed_tx
                    &&& crypto::rejection(asked.pubkey, pooled + asked.key + asked.value, asked.signed_tx) is None
                }
            }
        },
{
    let (said, _) = Introduction::parse(frame).unwrap();
    let (asked, _) = ClientRequest::parse(said.payload).unwrap();
    let unsigned_msg = pooled + asked.key + asked.value;
    assert(asked.key.len() + asked.value.len() + asked.pubkey.len() + asked.signed_tx.len() <= said.payload.len()
        <= frame.len());
    let message = Message::Consensus(proposal_of(asked, unsigned_msg));
    message.round_trip(Seq::empty());
    assert(message.encoding() + Seq::<u8>::empty() =~= message.encoding());
}

/// A transaction for the leader says what the client asked for.
pub proof fn proposals_say_what_was_asked(asked: ClientRequest, unsigned_msg: Seq<u8>)
    ensures
        proposal_of(asked, unsigned_msg).key == asked.key,
        proposal_of(asked, unsigned_msg).value == asked.value,
        proposal_of(asked, unsigned_msg).client_key == asked.pubkey,
        proposal_of(asked, unsigned_msg).signed_msg == asked.signed_tx,
        proposal_of(asked, unsigned_msg).unsigned_msg == unsigned_msg,
        proposal_of(asked, unsigned_msg).seq_counter == 0,
        proposal_of(asked, unsigned_msg).view_number == 0,
{
}

/// A treatment is seen as what it is.
pub proof fn service_says(service: Service)
    ensures
        service is Silent <==> service@ == Treatment::Silent,
        service is BadPacket <==> service@ == Treatment::BadPacket,
        service is UnknownNode <==> service@ == Treatment::UnknownNode,
        service matches Service::Join { pubkey } ==> service@ == (Treatment::Join { pubkey: pubkey@ }),
        service matches Service::ToLeader { packet } ==> service@ == (Treatment::ToLeader {
            packet: wire::buffer_bytes(packet),
        }),
        service matches Service::Fail(error) ==> service@ == (Treatment::Fail {
            kind: error.kind,
            message: error.message@,
        }),
{
}

} // verus!
