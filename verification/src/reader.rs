//! What a node does with each message that arrives on a connection.

use vstd::prelude::*;

use crate::crypto;
use crate::crypto::{genuine, usable};
use crate::error::{ErrorKind, NodeError};
use crate::packet::{deserialize_packet, ActorRequest, Message, Proposal, Wire};
use crate::wire::same_bytes;

verus! {

/// What becomes of one message.
#[derive(Debug)]
pub enum ReaderAction {
    /// Hand the request to the consensus actor.
    Forward(ActorRequest),
    /// Leave the message out and read on.
    Discard,
    /// Stop reading from the connection.
    Stop(NodeError),
}

/// What an action says.
pub enum Routing {
    Forward(Message),
    Discard,
    Stop { kind: ErrorKind, message: Seq<char> },
}

impl View for ReaderAction {
    type V = Routing;

    open spec fn view(&self) -> Routing {
        match self {
            ReaderAction::Forward(request) => Routing::Forward(request@),
            ReaderAction::Discard => Routing::Discard,
            ReaderAction::Stop(error) => Routing::Stop { kind: error.kind, message: error.message@ },
        }
    }
}

/// Whether a message is a vote in the name of the node that is known by
/// `pubkey`.
pub open spec fn votes_as(message: Message, pubkey: Seq<u8>) -> bool {
    message matches Message::Vote { voter, .. } && voter == pubkey
}

/// What becomes of a message on the connection of the node that is known by
/// `pubkey`: bytes that are no request end the connection, a consensus request
/// is handed on only if that node may propose transactions, and a vote is handed
/// on only if that node votes in its own name and has signed it.
pub open spec fn routing(frame: Seq<u8>, pubkey: Seq<u8>, may_propose: bool) -> Routing {
    match Message::parse(frame) {
        None => Routing::Stop { kind: ErrorKind::InvalidData, message: "failed"@ },
        Some((Message::Consensus(proposal), _)) => if may_propose {
            Routing::Forward(Message::Consensus(proposal))
        } else {
            Routing::Discard
        },
        Some((Message::Vote { stage, signature, voter }, _)) => match crypto::unusable(pubkey, signature) {
            Some(text) => Routing::Stop { kind: ErrorKind::InvalidData, message: text },
            None => if crypto::ed25519_verify_error(pubkey, stage, signature) is None && voter == pubkey {
                Routing::Forward(Message::Vote { stage, signature, voter })
            } else {
                Routing::Discard
            },
        },
    }
}

/// A vote is handed on if its signature was found genuine and it is in the name
/// of the node that is known by `pubkey`, and left out otherwise.
pub fn vote_verdict(vote: ActorRequest, pubkey: &[u8], checked: Result<(), NodeError>) -> (action: ReaderAction)
    ensures
        action@ == (if checked is Ok && votes_as(vote@, pubkey@) {
            Routing::Forward(vote@)
        } else {
            Routing::Discard
        }),
{
    let own_name = match &vote {
        ActorRequest::PeerVote { pubkey: voter, .. } => same_bytes(voter.as_slice(), pubkey),
        ActorRequest::ConsensusRequest { .. } => false,
    };
    match checked {
        Ok(_) => if own_name {
            ReaderAction::Forward(vote)
        } else {
            ReaderAction::Discard
        },
        Err(_) => ReaderAction::Discard,
    }
}

/// Decides what becomes of one message on the connection of the node that is
/// known by `pubkey`. Only the leader may propose transactions to a peer;
/// every peer may propose them to the leader.
pub fn reader_task(frame: &[u8], pubkey: &[u8], may_propose: bool) -> (action: ReaderAction)
    ensures
        action@ == routing(frame@, pubkey@, may_propose),
{
    let request = match deserialize_packet::<ActorRequest>(frame) {
        Ok(request) => request,
        Err(_) => return ReaderAction::Stop(NodeError::new(ErrorKind::InvalidData, "failed")),
    };
    let checked = match &request {
        ActorRequest::ConsensusRequest { .. } => {
            if may_propose {
                return ReaderAction::Forward(request);
            } else {
                return ReaderAction::Discard;
            }
        },
        ActorRequest::PeerVote { vote_type, signed_msg, .. } => {
            match usable(pubkey, signed_msg.as_slice()) {
                Ok((key, signed)) => genuine(&key, vote_type.as_slice(), &signed),
                Err(error) => return ReaderAction::Stop(error),
            }
        },
    };
    vote_verdict(request, pubkey, checked)
}

/// Only what a node sent is handed on, as it was sent.
pub proof fn only_what_was_sent_is_handed_on(frame: Seq<u8>, pubkey: Seq<u8>, may_propose: bool)
    ensures
        routing(frame, pubkey, may_propose) matches Routing::Forward(message) ==> exists|rest: Seq<u8>|
            Message::parse(frame) == Some((message, rest)),
{
    if let Some((message, rest)) = Message::parse(frame) {
        assert(Message::parse(frame) == Some((message, rest)));
    }
}

/// A vote is handed on exactly if it is in the name of the node on whose
/// connection it came and that node's signature over the stage is accepted. A
/// signature that cannot be used ends the connection, and any other vote is left
/// out.
pub proof fn votes_are_handed_on_if_genuine(
    stage: Seq<u8>,
    signature: Seq<u8>,
    voter: Seq<u8>,
    rest: Seq<u8>,
    pubkey: Seq<u8>,
    may_propose: bool,
)
    requires
        (Message::Vote { stage, signature, voter }).fits(),
    ensures
        ({
            let vote = Message::Vote { stage, signature, voter };
            let routed = routing(vote.encoding() + rest, pubkey, may_propose);
            &&& routed == Routing::Forward(vote) <==> voter == pubkey && crypto::rejection(
                pubkey,
                stage,
                signature,
            ) is None
            &&& routed is Stop <==> crypto::unusable(pubkey, signature) is Some
            &&& routed matches Routing::Stop { kind, message } ==> kind == ErrorKind::InvalidData && Some(message)
                == crypto::unusable(pubkey, signature)
            &&& routed is Forward ==> routed == Routing::Forward(vote)
        }),
{
    (Message::Vote { stage, signature, voter }).round_trip(rest);
}

/// A consensus request is handed on exactly if the node may propose
/// transactions, and left out otherwise.
pub proof fn requests_are_handed_on_if_allowed(
    proposal: Proposal,
    rest: Seq<u8>,
    pubkey: Seq<u8>,
    may_propose: bool,
)
    requires
        proposal.fits(),
    ensures
        routing(Message::Consensus(proposal).encoding() + rest, pubkey, may_propose) == (if may_propose {
            Routing::Forward(Message::Consensus(proposal))
        } else {
            Routing::Discard
        }),
{
    Message::Consensus(proposal).round_trip(rest);
}

/// Bytes that are no request end the connection.
pub proof fn nonsense_ends_the_connection(frame: Seq<u8>, pubkey: Seq<u8>, may_propose: bool)
    requires
        Message::parse(frame) is None,
    ensures
        routing(frame, pubkey, may_propose) == (Routing::Stop { kind: ErrorKind::InvalidData, message: "failed"@ }),
{
}

/// A message is a vote in the name of a node exactly if it is a vote and names
/// that node as its voter.
pub proof fn votes_as_their_voter(message: Message, pubkey: Seq<u8>)
    ensures
        message is Consensus ==> !votes_as(message, pubkey),
        message matches Message::Vote { voter, .. } ==> (votes_as(message, pubkey) <==> voter == pubkey),
{
}

/// An action is seen as what it is.
pub proof fn reader_action_says(action: ReaderAction)
    ensures
        action matches ReaderAction::Forward(request) ==> action@ == Routing::Forward(request@),
        action is Discard ==> action@ == Routing::Discard,
        action matches ReaderAction::Stop(error) ==> action@ == (Routing::Stop {
            kind: error.kind,
            message: error.message@,
        }),
{
}

} // verus!
