//! Votes: the signed statements by which nodes agree on a stage of consensus.

use bytes::BytesMut;
use vstd::prelude::*;
use vstd::slice::slice_to_vec;

use crate::crypto;
use crate::crypto::{public_key, sign};
use crate::packet::{serialize_into, ActorRequest, Encode, Message, Wire};
use crate::reader;
use crate::reader::Routing;
use crate::wire;

verus! {

/// The name of the stage in which nodes agree on a proposal.
pub const PREPARE: &'static str = "PREPARE";

/// The name of the stage in which nodes agree to commit.
pub const COMMIT: &'static str = "COMMIT";

/// The vote for a stage by the node with the given secret key.
pub open spec fn vote_by(secret: Seq<u8>, stage: Seq<u8>) -> Message {
    Message::Vote {
        stage,
        signature: crypto::ed25519_signature(secret, stage),
        voter: crypto::ed25519_public_key(secret),
    }
}

/// How many bytes a vote for a stage takes.
pub open spec fn vote_size(stage: Seq<u8>) -> nat {
    (4 + 8 + stage.len() + 8 + 64 + 32) as nat
}

/// A vote from its parts.
pub fn signed_vote(vote_type: &[u8], signature: &[u8; 64], pubkey: [u8; 32]) -> (vote: ActorRequest)
    ensures
        vote@ == (Message::Vote { stage: vote_type@, signature: signature@, voter: pubkey@ }),
        vote.model().encoding().len() == vote_size(vote_type@),
{
    let vote = ActorRequest::PeerVote {
        vote_type: slice_to_vec(vote_type),
        signed_msg: slice_to_vec(signature.as_slice()),
        pubkey,
    };
    proof {
        wire::le_bytes_len(1, 4);
        wire::blob_len(vote_type@);
        wire::blob_len(signature@);
    }
    vote
}

/// Signs a vote for a stage and writes it into a reusable buffer. The vote is
/// read back as it was made, its signature is accepted under the signer's public
/// key, and a node that knows the signer by that key hands the vote on.
pub fn create_vote(vote_type: &str, signing_key: &[u8; 32], serialization_pool: &mut BytesMut) -> (packet: BytesMut)
    requires
        wire::buffer_bytes(*old(serialization_pool)).len() + vote_size(wire::text(vote_type)) <= isize::MAX,
    ensures
        wire::buffer_bytes(packet) == wire::buffer_bytes(*old(serialization_pool)) + vote_by(
            signing_key@,
            wire::text(vote_type),
        ).encoding(),
        wire::buffer_bytes(*final(serialization_pool)) == Seq::<u8>::empty(),
        Message::parse(vote_by(signing_key@, wire::text(vote_type)).encoding()) == Some(
            (vote_by(signing_key@, wire::text(vote_type)), Seq::<u8>::empty()),
        ),
        crypto::ed25519_signature(signing_key@, wire::text(vote_type)).len() == 64,
        crypto::rejection(
            crypto::ed25519_public_key(signing_key@),
            wire::text(vote_type),
            crypto::ed25519_signature(signing_key@, wire::text(vote_type)),
        ) is None,
        forall|may_propose: bool| #[trigger]
            reader::routing(
                vote_by(signing_key@, wire::text(vote_type)).encoding(),
                crypto::ed25519_public_key(signing_key@),
                may_propose,
            ) == Routing::Forward(vote_by(signing_key@, wire::text(vote_type))),
{
    let signature = sign(signing_key, vote_type.as_bytes());
    let vote = signed_vote(vote_type.as_bytes(), &signature, public_key(signing_key));
    proof {
        vote.model_fits();
        vote.model().round_trip(Seq::empty());
        assert(vote.model().encoding() + Seq::<u8>::empty() =~= vote.model().encoding());
    }
    serialize_into(serialization_pool, &vote)
}

/// A vote names its stage and its voter, and its signature is the voter's over
/// the name of that stage.
pub proof fn votes_are_signed_over_their_stage(secret: Seq<u8>, stage: Seq<u8>)
    ensures
        vote_by(secret, stage) matches Message::Vote { stage: named, signature, voter } && {
            &&& named == stage
            &&& signature == crypto::ed25519_signature(secret, stage)
            &&& voter == crypto::ed25519_public_key(secret)
        },
{
}

/// The size of a vote is that of its bytes, where keys and signatures have their
/// lengths.
pub proof fn votes_have_their_size(secret: Seq<u8>, stage: Seq<u8>)
    requires
        crypto::ed25519_signature(secret, stage).len() == 64,
        crypto::ed25519_public_key(secret).len() == 32,
    ensures
        vote_by(secret, stage).encoding().len() == vote_size(stage),
        vote_size(stage) == 116 + stage.len(),
{
    wire::le_bytes_len(1, 4);
    wire::blob_len(stage);
    wire::blob_len(crypto::ed25519_signature(secret, stage));
}

/// The names of the stages.
pub proof fn stages_have_their_names()
    ensures
        wire::text(PREPARE) == wire::text("PREPARE"),
        wire::text(COMMIT) == wire::text("COMMIT"),
{
}

} // verus!
