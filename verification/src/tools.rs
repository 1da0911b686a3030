//! What a node keeps for consensus from one transaction to the next.

use vstd::prelude::*;

use crate::packet::PeerAddr;

verus! {

/// The sequence counter, the view number and the registered peers, in one
/// place so that a single lock guards them all. `S` is the socket by which a
/// peer is written to.
pub struct ConsensusToolsStruct<S> {
    pub sequence_counter: u32,
    pub view_number: u32,
    pub registry: Vec<S>,
    pub address_list: Vec<PeerAddr>,
}

/// Shorthand for the tools of a node.
pub type ConsensusTools<S> = ConsensusToolsStruct<S>;

/// A peer that joins: the socket to write to it by, and its address.
pub struct RegistrationRequest<S> {
    pub socket: S,
    pub addr: PeerAddr,
}

impl<S> ConsensusToolsStruct<S> {
    /// The tools of a node that has committed nothing and knows the given
    /// peers.
    pub fn new(registry: Vec<S>) -> (tools: Self)
        ensures
            tools.sequence_counter == 0,
            tools.view_number == 0,
            tools.registry@ == registry@,
            tools.address_list@ == Seq::<PeerAddr>::empty(),
    {
        ConsensusToolsStruct { sequence_counter: 0, view_number: 0, registry, address_list: Vec::new() }
    }
}

} // verus!
