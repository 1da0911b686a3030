//! The leader: it admits peers, keeps their registry and starts consensus.

use bytes::BytesMut;
use vstd::prelude::*;
use vstd::slice::slice_to_vec;

use crate::crypto;
use crate::crypto::public_key;
use crate::packet;
use crate::packet::{
    deserialize_packet, send_connection_packet, serialize_into, ActorRequest, ConnectionPacket, Encode, Endpoint,
    Introduction, PeerAddr, Transaction, Wire,
};
use crate::tools::{ConsensusToolsStruct, RegistrationRequest};
use crate::wire;
use crate::wire::same_bytes;

verus! {

/// Where the leader listens.
pub const ADDRESS: &'static str = "127.0.0.1:8070";

/// The node type in the packet by which the leader introduces itself.
pub const LEADER: &'static str = "leader";

/// The node type in the packet by which a peer makes its public key known.
pub const PEER_PUBKEY: &'static str = "peer-pubkey";

/// Whether peers may propose transactions to the leader: they do so for their
/// clients.
pub const PEERS_MAY_PROPOSE: bool = true;

/// How long a node that connects may take to introduce itself to the leader,
/// in milliseconds.
pub const INTRODUCTION_TIMEOUT: u64 = 2000;

/// What becomes of a connection to the leader.
#[derive(Debug)]
pub enum Admission {
    /// Nothing was read in time: drop the connection.
    Silent,
    /// What was read is no connection packet: drop the connection.
    BadPacket,
    /// The node did not send its public key: drop the connection.
    NotAPeer,
    /// Read from the node that is known by the key, and register it.
    Admitted { pubkey: Vec<u8>, address: Vec<u8> },
}

/// What becomes of a connection to the leader, as a value.
pub enum Verdict {
    Silent,
    BadPacket,
    NotAPeer,
    Admitted { pubkey: Seq<u8>, address: Seq<u8> },
}

impl View for Admission {
    type V = Verdict;

    open spec fn view(&self) -> Verdict {
        match self {
            Admission::Silent => Verdict::Silent,
            Admission::BadPacket => Verdict::BadPacket,
            Admission::NotAPeer => Verdict::NotAPeer,
            Admission::Admitted { pubkey, address } => Verdict::Admitted { pubkey: pubkey@, address: address@ },
        }
    }
}

/// What becomes of a connection on which a frame was read first: only a node
/// that sends its public key is admitted, and it is known by that key.
pub open spec fn verdict(frame: Seq<u8>) -> Verdict {
    match Introduction::parse(frame) {
        None => Verdict::BadPacket,
        Some((said, _)) => if said.node_type == wire::text(PEER_PUBKEY) {
            Verdict::Admitted { pubkey: said.payload, address: said.address }
        } else {
            Verdict::NotAPeer
        },
    }
}

/// Decides what becomes of a connection, from the first frame that was read on
/// it, if one was read in time.
pub fn start_server(first_frame: Option<&[u8]>) -> (admission: Admission)
    ensures
        admission@ == (match first_frame {
            Some(frame) => verdict(frame@),
            None => Verdict::Silent,
        }),
{
    let frame = match first_frame {
        Some(frame) => frame,
        None => return Admission::Silent,
    };
    let packet = match deserialize_packet::<ConnectionPacket>(frame) {
        Ok(packet) => packet,
        Err(_) => return Admission::BadPacket,
    };
    if !same_bytes(packet.node_type, PEER_PUBKEY.as_bytes()) {
        return Admission::NotAPeer;
    }
    Admission::Admitted { pubkey: slice_to_vec(packet.payload), address: slice_to_vec(packet.address) }
}

/// What the leader says of itself.
pub open spec fn leader_says(secret: Seq<u8>) -> Introduction {
    Introduction {
        node_type: wire::text(LEADER),
        address: wire::text(ADDRESS),
        payload: crypto::ed25519_public_key(secret),
    }
}

/// Writes the packet by which the leader introduces itself to the bootnode.
pub fn leader_introduction(signing_key: &[u8; 32], pool: &mut BytesMut) -> (packet: BytesMut)
    requires
        wire::buffer_bytes(*old(pool)).len() + 24 + wire::text(LEADER).len() + wire::text(ADDRESS).len() + 32
            <= isize::MAX,
    ensures
        wire::buffer_bytes(packet) == wire::buffer_bytes(*old(pool)) + leader_says(signing_key@).encoding(),
        wire::buffer_bytes(*final(pool)) == Seq::<u8>::empty(),
{
    let pubkey = public_key(signing_key);
    proof {
        wire::blob_len(wire::text(LEADER));
        wire::blob_len(wire::text(ADDRESS));
        wire::blob_len(pubkey@);
    }
    send_connection_packet(LEADER, ADDRESS, Some(pubkey.as_slice()), pool)
}

/// What the actor of a node is told between two rounds of consensus.
pub enum ActorEvent<S> {
    /// A request arrived.
    Request(ActorRequest),
    /// A peer is to be registered.
    Register(RegistrationRequest<S>),
}

/// What the actor of a node does.
pub enum ActorAction {
    /// Run consensus on a transaction.
    RunConsensus { transaction: Transaction },
    /// Leave the request out.
    Ignore,
    /// Tell the bootnode who is registered.
    SendAddressList { packet: BytesMut },
    /// Nothing more is to be done.
    Registered,
}

/// The registered peers, as values: the sockets to write to them by, and their
/// addresses.
pub struct Roster<S> {
    pub registry: Seq<S>,
    pub addresses: Seq<Endpoint>,
}

impl<S> Roster<S> {
    /// Nobody is registered.
    pub open spec fn nobody() -> Roster<S> {
        Roster { registry: Seq::empty(), addresses: Seq::empty() }
    }

    /// The peers after one more was registered.
    pub open spec fn register(self, socket: S, address: Endpoint) -> Roster<S> {
        Roster { registry: self.registry.push(socket), addresses: self.addresses.push(address) }
    }

    /// The peers after some were registered, in their order.
    pub open spec fn register_all(self, peers: Seq<(S, Endpoint)>) -> Roster<S>
        decreases peers.len(),
    {
        if peers.len() == 0 {
            self
        } else {
            self.register_all(peers.drop_last()).register(peers.last().0, peers.last().1)
        }
    }

    /// The frame that tells the bootnode who is registered.
    pub open spec fn frame(self) -> Seq<u8> {
        self.addresses.encoding()
    }
}

impl<S> ConsensusToolsStruct<S> {
    /// The registered peers.
    pub open spec fn roster(&self) -> Roster<S> {
        Roster { registry: self.registry@, addresses: packet::models(self.address_list@) }
    }
}

/// After any registrations, the frame that the bootnode is sent is read there as
/// the addresses of all that were registered, in the order of their
/// registration, and the registry holds their sockets in the same order.
pub proof fn bootnode_is_told_all_addresses<S>(peers: Seq<(S, Endpoint)>)
    requires
        peers.len() <= u64::MAX,
        forall|i: int| 0 <= i < peers.len() ==> (#[trigger] peers[i]).1.fits(),
    ensures
        ({
            let roster = Roster::nobody().register_all(peers);
            let addresses = Seq::new(peers.len(), |i: int| peers[i].1);
            &&& roster.registry == Seq::new(peers.len(), |i: int| peers[i].0)
            &&& roster.addresses == addresses
            &&& Seq::<Endpoint>::parse(roster.frame()) == Some((addresses, Seq::<u8>::empty()))
        }),
{
    registered_in_order(peers);
    let addresses = Seq::new(peers.len(), |i: int| peers[i].1);
    assert forall|i: int| 0 <= i < addresses.len() implies (#[trigger] addresses[i]).fits() by {
        assert(peers[i].1.fits());
    }
    addresses.round_trip(Seq::empty());
    assert(addresses.encoding() + Seq::<u8>::empty() =~= addresses.encoding());
}

/// Peers are kept in the order of their registration.
proof fn registered_in_order<S>(peers: Seq<(S, Endpoint)>)
    ensures
        Roster::nobody().register_all(peers).registry == Seq::new(peers.len(), |i: int| peers[i].0),
        Roster::nobody().register_all(peers).addresses == Seq::new(peers.len(), |i: int| peers[i].1),
    decreases peers.len(),
{
    let roster = Roster::nobody().register_all(peers);
    if peers.len() > 0 {
        registered_in_order(peers.drop_last());
    }
    assert(roster.registry =~= Seq::new(peers.len(), |i: int| peers[i].0));
    assert(roster.addresses =~= Seq::new(peers.len(), |i: int| peers[i].1));
}

/// Tells whether a peer with the given address can be registered: all
/// addresses, with that one, fit a buffer that holds `pooled` bytes.
pub fn can_register<S>(tools: &ConsensusToolsStruct<S>, addr: &PeerAddr, pooled: usize) -> (can: bool)
    ensures
        can == (pooled + packet::models(tools.address_list@.push(*addr)).encoding().len() <= isize::MAX),
{
    let ghost known = packet::models(tools.address_list@);
    let mut size: u128 = 8;
    let mut i: usize = 0;
    assert(known.take(0) =~= Seq::empty());
    while i < tools.address_list.len()
        invariant
            i <= tools.address_list@.len(),
            known == packet::models(tools.address_list@),
            size == 8 + packet::items_encoding(known.take(i as int)).len(),
            size <= 8 + 22 * i,
        decreases tools.address_list.len() - i,
    {
        proof {
            packet::items_encoding_push(known.take(i as int), known[i as int]);
            assert(known.take(i + 1) =~= known.take(i as int).push(known[i as int]));
        }
        size = size + tools.address_list[i].size();
        i += 1;
    }
    proof {
        let all = packet::models(tools.address_list@.push(*addr));
        assert(known.take(i as int) =~= known);
        assert(all =~= known.push(addr.model()));
        packet::items_encoding_push(known, addr.model());
        wire::le_bytes_len(all.len(), 8);
    }
    pooled as u128 + size + addr.size() <= isize::MAX as u128
}

/// Takes what the leader's actor is told. A consensus request starts a round; a
/// vote that comes while no round is on is left out; a peer is added to the
/// registry, and the bootnode is sent all addresses.
pub fn leader_consensus_actor<S>(event: ActorEvent<S>, tools: &mut ConsensusToolsStruct<S>, pool: &mut BytesMut) -> (action:
    ActorAction)
    requires
        event matches ActorEvent::Register(request) ==> wire::buffer_bytes(*old(pool)).len() + packet::models(
            old(tools).address_list@.push(request.addr),
        ).encoding().len() <= isize::MAX,
    ensures
        match event {
            ActorEvent::Request(ActorRequest::ConsensusRequest { transaction }) => {
                &&& action matches ActorAction::RunConsensus { transaction: run } && run == transaction
                &&& *final(tools) == *old(tools)
                &&& wire::buffer_bytes(*final(pool)) == wire::buffer_bytes(*old(pool))
            },
            ActorEvent::Request(ActorRequest::PeerVote { .. }) => {
                &&& action is Ignore
                &&& *final(tools) == *old(tools)
                &&& wire::buffer_bytes(*final(pool)) == wire::buffer_bytes(*old(pool))
            },
            ActorEvent::Register(request) => {
                &&& action matches ActorAction::SendAddressList { packet: sent } && wire::buffer_bytes(sent)
                    == wire::buffer_bytes(*old(pool)) + final(tools).roster().frame()
                &&& final(tools).roster() == old(tools).roster().register(request.socket, request.addr@)
                &&& final(tools).address_list@ == old(tools).address_list@.push(request.addr)
                &&& final(tools).sequence_counter == old(tools).sequence_counter
                &&& final(tools).view_number == old(tools).view_number
                &&& wire::buffer_bytes(*final(pool)) == Seq::<u8>::empty()
            },
        },
{
    match event {
        ActorEvent::Request(ActorRequest::ConsensusRequest { transaction }) => ActorAction::RunConsensus {
            transaction,
        },
        ActorEvent::Request(ActorRequest::PeerVote { .. }) => ActorAction::Ignore,
        ActorEvent::Register(request) => {
            tools.registry.push(request.socket);
            tools.address_list.push(request.addr);
            proof {
                assert(tools.roster().addresses =~= old(tools).roster().addresses.push(request.addr@));
            }
            let packet = serialize_into(pool, &tools.address_list);
            ActorAction::SendAddressList { packet }
        },
    }
}

/// A node is admitted exactly if it introduces itself as a peer, under the key
/// and the address that it gives; any other node is turned away, and so is one
/// that sends no introduction.
pub proof fn peers_are_admitted_as_they_say(said: Introduction, rest: Seq<u8>, nonsense: Seq<u8>)
    requires
        said.fits(),
        Introduction::parse(nonsense) is None,
    ensures
        said.node_type == wire::text("peer-pubkey") ==> verdict(said.encoding() + rest) == (Verdict::Admitted {
            pubkey: said.payload,
            address: said.address,
        }),
        said.node_type != wire::text("peer-pubkey") ==> verdict(said.encoding() + rest) == Verdict::NotAPeer,
        verdict(nonsense) == Verdict::BadPacket,
{
    said.round_trip(rest);
}

/// The leader says that it is the leader, where it listens, and what its public
/// key is.
pub proof fn leader_says_who_it_is(secret: Seq<u8>)
    ensures
        leader_says(secret).node_type == wire::text("leader"),
        leader_says(secret).address == wire::text("127.0.0.1:8070"),
        leader_says(secret).payload == crypto::ed25519_public_key(secret),
{
}

/// A verdict is seen as what it is.
pub proof fn admission_says(admission: Admission)
    ensures
        admission is Silent <==> admission@ == Verdict::Silent,
        admission is BadPacket <==> admission@ == Verdict::BadPacket,
        admission is NotAPeer <==> admission@ == Verdict::NotAPeer,
        admission matches Admission::Admitted { pubkey, address } ==> admission@ == (Verdict::Admitted {
            pubkey: pubkey@,
            address: address@,
        }),
        admission@ is Admitted ==> admission is Admitted,
{
}

/// A peer that is registered comes last, and nobody who was registered before is
/// lost or moved; the frame is the list of all addresses.
pub proof fn registered_peers_stay<S>(roster: Roster<S>, socket: S, address: Endpoint)
    ensures
        roster.register(socket, address).registry == roster.registry.push(socket),
        roster.register(socket, address).addresses == roster.addresses.push(address),
        roster.frame() == roster.addresses.encoding(),
{
}

/// The roster of a node is what its registry and its address list hold.
pub proof fn roster_says<S>(tools: ConsensusToolsStruct<S>)
    ensures
        tools.roster().registry == tools.registry@,
        tools.roster().addresses.len() == tools.address_list@.len(),
        forall|i: int| 0 <= i < tools.address_list@.len() ==> tools.roster().addresses[i] == #[trigger] tools.address_list@[i]@,
{
}

} // verus!
