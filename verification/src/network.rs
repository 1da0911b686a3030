//! What nodes make of one another's packets: how the leader, the peers and the
//! bootnode come to know one another, and how a transaction reaches consensus.

use vstd::prelude::*;

use crate::bootnode;
use crate::bootnode::{Directory, Reply};
use crate::crypto;
use crate::leader;
use crate::leader::{Verdict, LEADER, PEER_PUBKEY};
use crate::packet::{Introduction, Message, Proposal, Wire};
use crate::peer;
use crate::peer::{Network, Treatment};
use crate::reader;
use crate::reader::Routing;
use crate::wire;

verus! {

/// What a node says of itself is read as it was said.
proof fn introductions_are_read(said: Introduction)
    requires
        said.fits(),
    ensures
        Introduction::parse(said.encoding()) == Some((said, Seq::<u8>::empty())),
{
    said.round_trip(Seq::empty());
    assert(said.encoding() + Seq::<u8>::empty() =~= said.encoding());
}

/// The node types of the leader and of a peer cannot be taken for one another.
proof fn leader_is_no_peer()
    ensures
        wire::text(LEADER) != wire::text(PEER_PUBKEY),
{
    reveal_strlit("leader");
    reveal_strlit("peer-pubkey");
    wire::texts_differ(LEADER, PEER_PUBKEY);
}

/// A peer that introduces itself is taken in everywhere: the leader and every
/// other peer read from it under its own public key, and the bootnode sends it
/// the list.
pub proof fn peers_are_taken_in(address: Seq<u8>, secret: Seq<u8>, directory: Directory, pooled: Seq<u8>)
    requires
        peer::peer_says(address, secret).fits(),
    ensures
        ({
            let frame = peer::peer_says(address, secret).encoding();
            let pubkey = crypto::ed25519_public_key(secret);
            &&& leader::verdict(frame) == (Verdict::Admitted { pubkey, address })
            &&& peer::treatment(frame, pooled) == (Treatment::Join { pubkey })
            &&& bootnode::reply(directory, frame) == (Reply::SendList { packet: directory.list().encoding() })
        }),
{
    introductions_are_read(peer::peer_says(address, secret));
    leader_is_no_peer();
}

/// The bootnode accepts the first leader and lists it first, under its own
/// public key; whoever claims to be the leader after that is turned away.
pub proof fn one_leader_is_accepted(directory: Directory, secret: Seq<u8>, another: Seq<u8>)
    requires
        leader::leader_says(secret).fits(),
        leader::leader_says(another).fits(),
        directory.leader is None,
    ensures
        ({
            let said = leader::leader_says(secret);
            let joined = directory.join(said);
            &&& bootnode::reply(directory, said.encoding()) == Reply::LeaderJoined
            &&& joined.list() == seq![said] + directory.peers
            &&& bootnode::reply(joined, leader::leader_says(another).encoding()) == Reply::LeaderAlreadyConnected
            &&& joined.join(leader::leader_says(another)) == joined
        }),
{
    introductions_are_read(leader::leader_says(secret));
    introductions_are_read(leader::leader_says(another));
}

/// The leader admits only peers: another that says it is the leader is turned
/// away.
pub proof fn leaders_do_not_join(secret: Seq<u8>)
    requires
        leader::leader_says(secret).fits(),
    ensures
        leader::verdict(leader::leader_says(secret).encoding()) == Verdict::NotAPeer,
{
    introductions_are_read(leader::leader_says(secret));
    leader_is_no_peer();
}

/// A peer that joins after the leader finds the leader in the bootnode's list,
/// if it can reach it.
pub proof fn joining_peer_finds_the_leader<S>(directory: Directory, secret: Seq<u8>, sockets: Seq<Option<S>>)
    requires
        directory.leader == Some(leader::leader_says(secret)),
        sockets.len() == directory.list().len(),
        sockets[0] is Some,
    ensures
        Network::find_all(directory.list(), sockets).leader is Some,
{
    assert(directory.list()[0].node_type == wire::text(LEADER));
    peer::leader_is_found_if_reached(directory.list(), sockets);
}

/// A transaction from a node that may propose it is handed to consensus as it was
/// sent: one that the leader sends to a peer, or a peer to the leader for a
/// client.
pub proof fn proposals_are_handed_on(proposal: Proposal, pubkey: Seq<u8>)
    requires
        proposal.fits(),
    ensures
        reader::routing(Message::Consensus(proposal).encoding(), pubkey, true) == Routing::Forward(
            Message::Consensus(proposal),
        ),
{
    let message = Message::Consensus(proposal);
    message.round_trip(Seq::empty());
    assert(message.encoding() + Seq::<u8>::empty() =~= message.encoding());
}

/// A node that may not propose transactions cannot start consensus, whatever it
/// sends.
pub proof fn others_cannot_start_consensus(frame: Seq<u8>, pubkey: Seq<u8>)
    ensures
        !(reader::routing(frame, pubkey, false) matches Routing::Forward(Message::Consensus(_))),
{
}

/// Every vote that is handed on is in the name of the node on whose connection
/// it came, and that node has signed it.
pub proof fn nodes_vote_in_their_own_name(frame: Seq<u8>, pubkey: Seq<u8>, may_propose: bool)
    ensures
        reader::routing(frame, pubkey, may_propose) matches Routing::Forward(
            Message::Vote { stage, signature, voter },
        ) ==> voter == pubkey && crypto::rejection(pubkey, stage, signature) is None,
{
}

} // verus!
