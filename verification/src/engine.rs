//! One round of consensus on a transaction: propose, prepare, commit.
//!
//! A round is driven by what happens (`EngineEvent`) and answers each time with
//! what is to be done next (`EngineAction`). The leader proposes the
//! transaction before it looks at the client's signature, so that it cannot
//! hold a transaction back under the pretext that it is not valid.
//!
//! In each stage a node counts its own vote along with those that arrive.

use bytes::BytesMut;
use vstd::prelude::*;

use crate::crypto;
use crate::crypto::{public_key, verify_transaction};
use crate::error::{return_err, ErrorKind, NodeError};
use crate::packet::{serialize_into, ActorRequest, Encode, Message, Proposal, Transaction, Wire};
use crate::quorum;
use crate::quorum::{leader_faulty, peer_faulty, wait_for_quorum, QuorumState, QuorumStep, QuorumWait};
use crate::reader;
use crate::reader::Routing;
use crate::tools::ConsensusToolsStruct;
use crate::vote;
use crate::vote::{create_vote, COMMIT, PREPARE};
use crate::wire;

verus! {

/// How long one peer may take to be written to, in milliseconds.
pub const SEND_TIMEOUT: u64 = 1500;

/// How long a node waits for a quorum of prepare votes, in milliseconds.
pub const PREPARE_TIMEOUT: u64 = 3000;

/// How long a node waits for a quorum of commit votes, in milliseconds.
pub const COMMIT_TIMEOUT: u64 = 1500;

/// The part that a node takes in a round.
#[derive(Clone, Copy, Debug, PartialEq, Eq, Structural)]
pub enum Role {
    Leader,
    Peer,
}

/// How far a round has come.
#[derive(Clone, Copy, Debug, PartialEq, Eq, Structural)]
pub enum Phase {
    /// Nothing was done yet.
    Idle,
    /// The proposal is being sent.
    Proposing,
    /// The prepare vote is being sent.
    Preparing,
    /// Prepare votes are awaited.
    AwaitingPrepare,
    /// The commit vote is being sent.
    Committing,
    /// Commit votes are awaited.
    AwaitingCommit,
    /// The transaction is being stored.
    Storing,
    /// The transaction was stored.
    Done,
    /// The round was given up.
    Failed,
}

/// A round of consensus on one transaction.
pub struct ConsensusRound {
    pub role: Role,
    pub transaction: Transaction,
    /// The sequence counters of the node and of the transaction.
    pub sequence_counters: (u32, u32),
    /// How many faulty nodes are reckoned with.
    pub faulty: u32,
    pub phase: Phase,
    /// The wait for the votes of the next stage to be decided.
    pub votes: QuorumWait,
}

/// What happens in a round.
pub enum EngineEvent {
    /// The round begins.
    Begin,
    /// The last packet was sent to all that could be reached in time.
    Delivered,
    /// A message arrived while votes were awaited.
    Received(ActorRequest),
    /// No more messages can arrive.
    Closed,
    /// The time for the votes is up.
    TimedOut,
    /// The transaction was handed to the state manager.
    Stored,
}

/// What is to be done next.
pub enum EngineAction {
    /// Send a packet to all registered peers, and before that to the leader if
    /// the flag says so.
    Broadcast { packet: BytesMut, to_leader: bool },
    /// Drop all messages that have arrived, then send as for `Broadcast`.
    DrainAndBroadcast { packet: BytesMut, to_leader: bool },
    /// Wait for votes for so many milliseconds.
    AwaitVotes { timeout: u64 },
    /// Wait on for what is left of that time.
    KeepWaiting,
    /// Hand the transaction to the state manager.
    Store { transaction: Transaction },
    /// The round has succeeded.
    Finished,
    /// The round has failed.
    Fail(NodeError),
}

/// What happens in a round, as a value.
pub enum Input {
    Begin,
    Delivered,
    Received(Message),
    Closed,
    TimedOut,
    Stored,
}

/// What is to be done next, as a value.
pub enum Output {
    Broadcast { packet: Seq<u8>, to_leader: bool },
    DrainAndBroadcast { packet: Seq<u8>, to_leader: bool },
    AwaitVotes { timeout: u64 },
    KeepWaiting,
    Store { proposal: Proposal },
    Finished,
    Fail { kind: ErrorKind, message: Seq<char> },
}

impl View for EngineEvent {
    type V = Input;

    open spec fn view(&self) -> Input {
        match self {
            EngineEvent::Begin => Input::Begin,
            EngineEvent::Delivered => Input::Delivered,
            EngineEvent::Received(request) => Input::Received(request@),
            EngineEvent::Closed => Input::Closed,
            EngineEvent::TimedOut => Input::TimedOut,
            EngineEvent::Stored => Input::Stored,
        }
    }
}

impl View for EngineAction {
    type V = Output;

    open spec fn view(&self) -> Output {
        match self {
            EngineAction::Broadcast { packet, to_leader } => Output::Broadcast {
                packet: wire::buffer_bytes(*packet),
                to_leader: *to_leader,
            },
            EngineAction::DrainAndBroadcast { packet, to_leader } => Output::DrainAndBroadcast {
                packet: wire::buffer_bytes(*packet),
                to_leader: *to_leader,
            },
            EngineAction::AwaitVotes { timeout } => Output::AwaitVotes { timeout: *timeout },
            EngineAction::KeepWaiting => Output::KeepWaiting,
            EngineAction::Store { transaction } => Output::Store { proposal: transaction@ },
            EngineAction::Finished => Output::Finished,
            EngineAction::Fail(error) => Output::Fail { kind: error.kind, message: error.message@ },
        }
    }
}

/// The state of a round.
#[verifier::ext_equal]
pub struct RoundState {
    pub role: Role,
    pub proposal: Proposal,
    pub sequence_counters: (u32, u32),
    pub faulty: u32,
    pub phase: Phase,
    pub votes: QuorumState,
}

/// The text of the error of a round that ran out of time.
pub open spec fn out_of_time() -> Seq<char> {
    "Time limit exceeded, prepare verification failed"@
}

/// The text of the error of a round whose votes stopped arriving.
pub open spec fn cut_short() -> Seq<char> {
    "No more votes can arrive, quorum was not reached"@
}

/// The tools of a node after something happened in a round: a transaction that
/// was stored moves the sequence counter, and nothing else changes them.
pub open spec fn tools_after<S>(tools: ConsensusToolsStruct<S>, input: Input) -> ConsensusToolsStruct<S> {
    if input is Stored {
        ConsensusToolsStruct { sequence_counter: (tools.sequence_counter + 1) as u32, ..tools }
    } else {
        tools
    }
}

impl RoundState {
    /// The wait for the votes of a stage of this round, before any was counted.
    pub open spec fn wait_for(self, stage: &str) -> QuorumState {
        QuorumState::begin(wire::text(stage), self.sequence_counters, 0, quorum::quorum_of(self.faulty as nat))
    }

    /// The wait for the votes of a stage, where the node's own is counted. The
    /// node is known by the key `node`.
    pub open spec fn wait_with_own(self, stage: &str, node: Seq<u8>) -> QuorumState {
        self.wait_for(stage).count(node)
    }

    /// Why the client's signature is not accepted, or `None` where it is.
    pub open spec fn rejection(self) -> Option<Seq<char>> {
        crypto::rejection(self.proposal.client_key, self.proposal.unsigned_msg, self.proposal.signed_msg)
    }

    /// Whether something can happen in this phase.
    pub open spec fn awaits(self, input: Input) -> bool {
        match input {
            Input::Begin => self.phase == Phase::Idle,
            Input::Delivered => {
                ||| self.phase == Phase::Proposing
                ||| self.phase == Phase::Preparing
                ||| self.phase == Phase::Committing
            },
            Input::Received(_) | Input::Closed | Input::TimedOut => {
                ||| self.phase == Phase::AwaitingPrepare
                ||| self.phase == Phase::AwaitingCommit
            },
            Input::Stored => self.phase == Phase::Storing,
        }
    }

    /// Whether the client's signature is looked at now: by the leader once the
    /// proposal was sent, by a peer at once.
    pub open spec fn verifies_on(self, input: Input) -> bool {
        ||| input is Begin && self.role == Role::Peer
        ||| input is Delivered && self.phase == Phase::Proposing
    }

    /// Whether the stage is settled by a vote.
    pub open spec fn settled_by(self, input: Input) -> bool {
        input matches Input::Received(message) && self.votes.decided_by(message)
    }

    /// Whether the transaction is to be stored now.
    pub open spec fn stores_on(self, input: Input) -> bool {
        self.phase == Phase::AwaitingCommit && self.settled_by(input)
    }

    /// The state after something happened, for the node that is known by the key
    /// `node`.
    pub open spec fn after(self, input: Input, node: Seq<u8>) -> RoundState {
        if self.verifies_on(input) {
            if self.rejection() is None {
                RoundState { phase: Phase::Preparing, votes: self.wait_with_own(PREPARE, node), ..self }
            } else {
                RoundState { phase: Phase::Failed, ..self }
            }
        } else {
            match input {
                Input::Begin => RoundState { phase: Phase::Proposing, ..self },
                Input::Delivered => if self.phase == Phase::Preparing {
                    RoundState { phase: Phase::AwaitingPrepare, ..self }
                } else {
                    RoundState { phase: Phase::AwaitingCommit, ..self }
                },
                Input::Received(message) => if !self.settled_by(input) {
                    RoundState { votes: self.votes.receive(message), ..self }
                } else if self.phase == Phase::AwaitingPrepare {
                    RoundState { phase: Phase::Committing, votes: self.wait_with_own(COMMIT, node), ..self }
                } else {
                    RoundState { phase: Phase::Storing, votes: self.votes.receive(message), ..self }
                },
                Input::Closed | Input::TimedOut => RoundState { phase: Phase::Failed, ..self },
                Input::Stored => RoundState { phase: Phase::Done, ..self },
            }
        }
    }

    /// What is to be done next by the node with the given secret key, where its
    /// buffer holds `pooled`.
    pub open spec fn output(self, input: Input, secret: Seq<u8>, pooled: Seq<u8>) -> Output {
        let to_leader = self.role == Role::Peer;
        if self.verifies_on(input) {
            match self.rejection() {
                None => Output::Broadcast {
                    packet: pooled + vote::vote_by(secret, wire::text(PREPARE)).encoding(),
                    to_leader,
                },
                Some(text) => Output::Fail { kind: ErrorKind::InvalidData, message: text },
            }
        } else {
            match input {
                Input::Begin => Output::Broadcast {
                    packet: pooled + Message::Consensus(self.proposal).encoding(),
                    to_leader,
                },
                Input::Delivered => if self.phase == Phase::Preparing {
                    Output::AwaitVotes { timeout: PREPARE_TIMEOUT }
                } else {
                    Output::AwaitVotes { timeout: COMMIT_TIMEOUT }
                },
                Input::Received(_) => if !self.settled_by(input) {
                    Output::KeepWaiting
                } else if self.phase == Phase::AwaitingPrepare {
                    Output::DrainAndBroadcast {
                        packet: pooled + vote::vote_by(secret, wire::text(COMMIT)).encoding(),
                        to_leader,
                    }
                } else {
                    Output::Store { proposal: self.proposal }
                },
                Input::Closed => Output::Fail { kind: ErrorKind::Other, message: cut_short() },
                Input::TimedOut => Output::Fail { kind: ErrorKind::Other, message: out_of_time() },
                Input::Stored => Output::Finished,
            }
        }
    }

    /// The most bytes that are written to the buffer when something happens.
    pub open spec fn writes(self, input: Input) -> nat {
        match input {
            Input::Begin => if self.role == Role::Leader {
                Message::Consensus(self.proposal).encoding().len()
            } else {
                vote::vote_size(wire::text(PREPARE))
            },
            Input::Delivered => vote::vote_size(wire::text(PREPARE)),
            Input::Received(_) => vote::vote_size(wire::text(COMMIT)),
            _ => 0,
        }
    }
}

impl View for ConsensusRound {
    type V = RoundState;

    open spec fn view(&self) -> RoundState {
        RoundState {
            role: self.role,
            proposal: self.transaction@,
            sequence_counters: self.sequence_counters,
            faulty: self.faulty,
            phase: self.phase,
            votes: self.votes@,
        }
    }
}

impl ConsensusRound {
    /// The count of votes is sound, and the quorum fits its counter.
    pub open spec fn well_formed(&self) -> bool {
        &&& self.votes.well_formed()
        &&& 2 * self.faulty + 1 <= u32::MAX
    }

    /// Whether the event can be taken: it can happen in this phase, a vote does
    /// not exhaust the counter, and what is to be written fits a buffer that
    /// holds `pooled` bytes.
    pub open spec fn takes(&self, event: EngineEvent, pooled: nat) -> bool {
        &&& self@.awaits(event@)
        &&& event@ matches Input::Received(message) ==> self.votes@.has_room(message)
        &&& pooled + self@.writes(event@) <= isize::MAX
    }

    /// Tells whether the event can be taken, where the buffer holds `pooled`
    /// bytes.
    pub fn can_take(&self, event: &EngineEvent, pooled: usize) -> (can: bool)
        requires
            self.well_formed(),
        ensures
            can == self.takes(*event, pooled as nat),
    {
        let awaited = match event {
            EngineEvent::Begin => self.phase == Phase::Idle,
            EngineEvent::Delivered => self.phase == Phase::Proposing || self.phase == Phase::Preparing || self.phase
                == Phase::Committing,
            EngineEvent::Received(_) | EngineEvent::Closed | EngineEvent::TimedOut => self.phase
                == Phase::AwaitingPrepare || self.phase == Phase::AwaitingCommit,
            EngineEvent::Stored => self.phase == Phase::Storing,
        };
        let has_room = match event {
            EngineEvent::Received(request) => self.votes.can_receive(request),
            _ => true,
        };
        let vote: u128 = 4 + 8 + 8 + 64 + 32;
        let writes: u128 = match event {
            EngineEvent::Begin => if self.role == Role::Leader {
                4 + self.transaction.size()
            } else {
                vote + PREPARE.as_bytes().len() as u128
            },
            EngineEvent::Delivered => vote + PREPARE.as_bytes().len() as u128,
            EngineEvent::Received(_) => vote + COMMIT.as_bytes().len() as u128,
            _ => 0,
        };
        proof {
            wire::le_bytes_len(0, 4);
        }
        awaited && has_room && pooled as u128 + writes <= isize::MAX as u128
    }

    /// A round that the leader opens on a transaction.
    pub fn leader<S>(transaction: Transaction, tools: &ConsensusToolsStruct<S>) -> (round: ConsensusRound)
        requires
            2 * (quorum::fault_bound(quorum::nodes_of_leader(tools.registry@.len())) as u32) + 1 <= u32::MAX,
        ensures
            round.well_formed(),
            round@ == (RoundState {
                role: Role::Leader,
                proposal: transaction@,
                sequence_counters: (tools.sequence_counter, transaction.seq_counter),
                faulty: quorum::fault_bound(quorum::nodes_of_leader(tools.registry@.len())) as u32,
                phase: Phase::Idle,
                votes: round@.wait_for(PREPARE),
            }),
    {
        let faulty = leader_faulty(tools.registry.len());
        let sequence_counters = (tools.sequence_counter, transaction.seq_counter);
        ConsensusRound {
            role: Role::Leader,
            transaction,
            sequence_counters,
            faulty,
            phase: Phase::Idle,
            votes: QuorumWait::begin(sequence_counters, 0, faulty, PREPARE),
        }
    }

    /// A round that a peer joins on a transaction.
    pub fn peer<S>(transaction: Transaction, tools: &ConsensusToolsStruct<S>) -> (round: ConsensusRound)
        requires
            2 * (quorum::fault_bound(quorum::nodes_of_peer(tools.registry@.len())) as u32) + 1 <= u32::MAX,
        ensures
            round.well_formed(),
            round@ == (RoundState {
                role: Role::Peer,
                proposal: transaction@,
                sequence_counters: (tools.sequence_counter, transaction.seq_counter),
                faulty: quorum::fault_bound(quorum::nodes_of_peer(tools.registry@.len())) as u32,
                phase: Phase::Idle,
                votes: round@.wait_for(PREPARE),
            }),
    {
        let faulty = peer_faulty(tools.registry.len());
        let sequence_counters = (tools.sequence_counter, transaction.seq_counter);
        ConsensusRound {
            role: Role::Peer,
            transaction,
            sequence_counters,
            faulty,
            phase: Phase::Idle,
            votes: QuorumWait::begin(sequence_counters, 0, faulty, PREPARE),
        }
    }

    /// Begins to wait for the votes of a stage, the node's own among them.
    fn begin_wait(&self, stage: &str, signing_key: &[u8; 32]) -> (votes: QuorumWait)
        requires
            self.well_formed(),
        ensures
            votes.well_formed(),
            votes@ == self@.wait_with_own(stage, crypto::ed25519_public_key(signing_key@)),
    {
        let mut votes = QuorumWait::begin(self.sequence_counters, 0, self.faulty, stage);
        votes.count(&public_key(signing_key));
        votes
    }

    /// Goes on once the client's signature was looked at: with the prepare vote
    /// if it was accepted, and not at all otherwise.
    pub fn verified(
        &mut self,
        verified: Result<(), NodeError>,
        signing_key: &[u8; 32],
        serialization_pool: &mut BytesMut,
    ) -> (action: EngineAction)
        requires
            old(self).well_formed(),
            wire::buffer_bytes(*old(serialization_pool)).len() + vote::vote_size(wire::text(PREPARE)) <= isize::MAX,
        ensures
            final(self).well_formed(),
            match verified {
                Ok(_) => {
                    &&& final(self)@ == (RoundState {
                        phase: Phase::Preparing,
                        votes: old(self)@.wait_with_own(PREPARE, crypto::ed25519_public_key(signing_key@)),
                        ..old(self)@
                    })
                    &&& action@ == (Output::Broadcast {
                        packet: wire::buffer_bytes(*old(serialization_pool)) + vote::vote_by(
                            signing_key@,
                            wire::text(PREPARE),
                        ).encoding(),
                        to_leader: old(self).role == Role::Peer,
                    })
                    &&& action matches EngineAction::Broadcast { packet, .. } && reader::routing(
                        wire::buffer_bytes(packet).skip(wire::buffer_bytes(*old(serialization_pool)).len() as int),
                        crypto::ed25519_public_key(signing_key@),
                        false,
                    ) == Routing::Forward(vote::vote_by(signing_key@, wire::text(PREPARE)))
                    &&& wire::buffer_bytes(*final(serialization_pool)) == Seq::<u8>::empty()
                },
                Err(error) => {
                    &&& final(self)@ == (RoundState { phase: Phase::Failed, ..old(self)@ })
                    &&& action@ == (Output::Fail { kind: error.kind, message: error.message@ })
                    &&& wire::buffer_bytes(*final(serialization_pool)) == wire::buffer_bytes(
                        *old(serialization_pool),
                    )
                },
            },
    {
        match verified {
            Ok(_) => {
                self.phase = Phase::Preparing;
                self.votes = self.begin_wait(PREPARE, signing_key);
                let packet = create_vote(PREPARE, signing_key, serialization_pool);
                assert(wire::buffer_bytes(packet).skip(wire::buffer_bytes(*old(serialization_pool)).len() as int)
                    =~= vote::vote_by(signing_key@, wire::text(PREPARE)).encoding());
                EngineAction::Broadcast { packet, to_leader: self.role == Role::Peer }
            },
            Err(error) => {
                self.phase = Phase::Failed;
                EngineAction::Fail(error)
            },
        }
    }

    /// Looks at the client's signature and goes on.
    fn verify(&mut self, signing_key: &[u8; 32], serialization_pool: &mut BytesMut) -> (action: EngineAction)
        requires
            old(self).well_formed(),
            wire::buffer_bytes(*old(serialization_pool)).len() + vote::vote_size(wire::text(PREPARE)) <= isize::MAX,
        ensures
            final(self).well_formed(),
            match old(self)@.rejection() {
                None => {
                    &&& final(self)@ == (RoundState {
                        phase: Phase::Preparing,
                        votes: old(self)@.wait_with_own(PREPARE, crypto::ed25519_public_key(signing_key@)),
                        ..old(self)@
                    })
                    &&& action@ == (Output::Broadcast {
                        packet: wire::buffer_bytes(*old(serialization_pool)) + vote::vote_by(
                            signing_key@,
                            wire::text(PREPARE),
                        ).encoding(),
                        to_leader: old(self).role == Role::Peer,
                    })
                    &&& action matches EngineAction::Broadcast { packet, .. } && reader::routing(
                        wire::buffer_bytes(packet).skip(wire::buffer_bytes(*old(serialization_pool)).len() as int),
                        crypto::ed25519_public_key(signing_key@),
                        false,
                    ) == Routing::Forward(vote::vote_by(signing_key@, wire::text(PREPARE)))
                    &&& wire::buffer_bytes(*final(serialization_pool)) == Seq::<u8>::empty()
                },
                Some(text) => {
                    &&& final(self)@ == (RoundState { phase: Phase::Failed, ..old(self)@ })
                    &&& action@ == (Output::Fail { kind: ErrorKind::InvalidData, message: text })
                    &&& wire::buffer_bytes(*final(serialization_pool)) == wire::buffer_bytes(
                        *old(serialization_pool),
                    )
                },
            },
    {
        let verified = verify_transaction(
            self.transaction.client_key.as_slice(),
            self.transaction.unsigned_msg.as_slice(),
            self.transaction.signed_msg.as_slice(),
        );
        self.verified(verified, signing_key, serialization_pool)
    }

    /// Goes on once a stage is settled: with the commit vote after the prepare
    /// stage, and with storing the transaction after the commit stage.
    fn settled(&mut self, signing_key: &[u8; 32], serialization_pool: &mut BytesMut) -> (action: EngineAction)
        requires
            old(self).well_formed(),
            wire::buffer_bytes(*old(serialization_pool)).len() + vote::vote_size(wire::text(COMMIT)) <= isize::MAX,
        ensures
            final(self).well_formed(),
            if old(self).phase == Phase::AwaitingPrepare {
                &&& final(self)@ == (RoundState {
                    phase: Phase::Committing,
                    votes: old(self)@.wait_with_own(COMMIT, crypto::ed25519_public_key(signing_key@)),
                    ..old(self)@
                })
                &&& action@ == (Output::DrainAndBroadcast {
                    packet: wire::buffer_bytes(*old(serialization_pool)) + vote::vote_by(
                        signing_key@,
                        wire::text(COMMIT),
                    ).encoding(),
                    to_leader: old(self).role == Role::Peer,
                })
                &&& action matches EngineAction::DrainAndBroadcast { packet, .. } && reader::routing(
                    wire::buffer_bytes(packet).skip(wire::buffer_bytes(*old(serialization_pool)).len() as int),
                    crypto::ed25519_public_key(signing_key@),
                    false,
                ) == Routing::Forward(vote::vote_by(signing_key@, wire::text(COMMIT)))
                &&& wire::buffer_bytes(*final(serialization_pool)) == Seq::<u8>::empty()
            } else {
                &&& final(self)@ == (RoundState { phase: Phase::Storing, ..old(self)@ })
                &&& action@ == (Output::Store { proposal: old(self)@.proposal })
                &&& wire::buffer_bytes(*final(serialization_pool)) == wire::buffer_bytes(*old(serialization_pool))
            },
    {
        if self.phase == Phase::AwaitingPrepare {
            self.phase = Phase::Committing;
            self.votes = self.begin_wait(COMMIT, signing_key);
            let packet = create_vote(COMMIT, signing_key, serialization_pool);
            assert(wire::buffer_bytes(packet).skip(wire::buffer_bytes(*old(serialization_pool)).len() as int)
                =~= vote::vote_by(signing_key@, wire::text(COMMIT)).encoding());
            EngineAction::DrainAndBroadcast { packet, to_leader: self.role == Role::Peer }
        } else {
            self.phase = Phase::Storing;
            EngineAction::Store { transaction: self.transaction.duplicate() }
        }
    }

    /// Gives the round up, with the given text.
    fn fail(&mut self, text: &'static str) -> (action: EngineAction)
        requires
            old(self).well_formed(),
        ensures
            final(self).well_formed(),
            final(self)@ == (RoundState { phase: Phase::Failed, ..old(self)@ }),
            action@ == (Output::Fail { kind: ErrorKind::Other, message: text@ }),
    {
        self.phase = Phase::Failed;
        match return_err::<()>(text) {
            Ok(_) => EngineAction::KeepWaiting,
            Err(error) => EngineAction::Fail(error),
        }
    }

    /// Takes an event that leaders and peers take alike.
    fn advance<S>(
        &mut self,
        event: EngineEvent,
        tools: &mut ConsensusToolsStruct<S>,
        signing_key: &[u8; 32],
        serialization_pool: &mut BytesMut,
    ) -> (action: EngineAction)
        requires
            old(self).well_formed(),
            old(self).takes(event, wire::buffer_bytes(*old(serialization_pool)).len()),
            event !is Begin,
            event is Stored ==> old(tools).sequence_counter < u32::MAX,
        ensures
            final(self).well_formed(),
            final(self)@ == old(self)@.after(event@, crypto::ed25519_public_key(signing_key@)),
            action@ == old(self)@.output(event@, signing_key@, wire::buffer_bytes(*old(serialization_pool))),
            wire::buffer_bytes(*final(serialization_pool)) == (if action is Broadcast || action is DrainAndBroadcast {
                Seq::<u8>::empty()
            } else {
                wire::buffer_bytes(*old(serialization_pool))
            }),
            *final(tools) == tools_after(*old(tools), event@),
            final(self).phase == Phase::Preparing ==> (action matches EngineAction::Broadcast { packet, .. }
                && reader::routing(
                wire::buffer_bytes(packet).skip(wire::buffer_bytes(*old(serialization_pool)).len() as int),
                crypto::ed25519_public_key(signing_key@),
                false,
            ) == Routing::Forward(vote::vote_by(signing_key@, wire::text("PREPARE")))),
            final(self).phase == Phase::Committing ==> (action matches EngineAction::DrainAndBroadcast { packet, .. }
                && reader::routing(
                wire::buffer_bytes(packet).skip(wire::buffer_bytes(*old(serialization_pool)).len() as int),
                crypto::ed25519_public_key(signing_key@),
                false,
            ) == Routing::Forward(vote::vote_by(signing_key@, wire::text("COMMIT")))),
    {
        match event {
            EngineEvent::Begin => EngineAction::KeepWaiting,
            EngineEvent::Delivered => {
                if self.phase == Phase::Proposing {
                    self.verify(signing_key, serialization_pool)
                } else if self.phase == Phase::Preparing {
                    self.phase = Phase::AwaitingPrepare;
                    EngineAction::AwaitVotes { timeout: PREPARE_TIMEOUT }
                } else {
                    self.phase = Phase::AwaitingCommit;
                    EngineAction::AwaitVotes { timeout: COMMIT_TIMEOUT }
                }
            },
            EngineEvent::Received(request) => {
                match wait_for_quorum(&mut self.votes, Some(&request)) {
                    QuorumStep::Reached => self.settled(signing_key, serialization_pool),
                    QuorumStep::Waiting | QuorumStep::Closed => EngineAction::KeepWaiting,
                }
            },
            EngineEvent::Closed => self.fail("No more votes can arrive, quorum was not reached"),
            EngineEvent::TimedOut => self.fail("Time limit exceeded, prepare verification failed"),
            EngineEvent::Stored => {
                self.phase = Phase::Done;
                tools.sequence_counter = tools.sequence_counter + 1;
                EngineAction::Finished
            },
        }
    }
}

/// Takes the next event in a round of the leader.
pub fn consensus_engine<S>(
    round: &mut ConsensusRound,
    event: EngineEvent,
    tools: &mut ConsensusToolsStruct<S>,
    signing_key: &[u8; 32],
    serialization_pool: &mut BytesMut,
) -> (action: EngineAction)
    requires
        old(round).well_formed(),
        old(round).role == Role::Leader,
        old(round).takes(event, wire::buffer_bytes(*old(serialization_pool)).len()),
        event is Stored ==> old(tools).sequence_counter < u32::MAX,
    ensures
        final(round).well_formed(),
        final(round)@ == old(round)@.after(event@, crypto::ed25519_public_key(signing_key@)),
        action@ == old(round)@.output(event@, signing_key@, wire::buffer_bytes(*old(serialization_pool))),
        wire::buffer_bytes(*final(serialization_pool)) == (if action is Broadcast || action is DrainAndBroadcast {
            Seq::<u8>::empty()
        } else {
            wire::buffer_bytes(*old(serialization_pool))
        }),
        *final(tools) == tools_after(*old(tools), event@),
        final(round).phase == Phase::Preparing ==> (action matches EngineAction::Broadcast { packet, .. }
            && reader::routing(
            wire::buffer_bytes(packet).skip(wire::buffer_bytes(*old(serialization_pool)).len() as int),
            crypto::ed25519_public_key(signing_key@),
            false,
        ) == Routing::Forward(vote::vote_by(signing_key@, wire::text("PREPARE")))),
        final(round).phase == Phase::Committing ==> (action matches EngineAction::DrainAndBroadcast { packet, .. }
            && reader::routing(
            wire::buffer_bytes(packet).skip(wire::buffer_bytes(*old(serialization_pool)).len() as int),
            crypto::ed25519_public_key(signing_key@),
            false,
        ) == Routing::Forward(vote::vote_by(signing_key@, wire::text("COMMIT")))),
{
    match event {
        EngineEvent::Begin => {
            round.phase = Phase::Proposing;
            let request = ActorRequest::ConsensusRequest { transaction: round.transaction.duplicate() };
            let packet = serialize_into(serialization_pool, &request);
            EngineAction::Broadcast { packet, to_leader: false }
        },
        _ => round.advance(event, tools, signing_key, serialization_pool),
    }
}

/// Takes the next event in a round of a peer.
pub fn peer_consensus_engine<S>(
    round: &mut ConsensusRound,
    event: EngineEvent,
    tools: &mut ConsensusToolsStruct<S>,
    signing_key: &[u8; 32],
    serialization_pool: &mut BytesMut,
) -> (action: EngineAction)
    requires
        old(round).well_formed(),
        old(round).role == Role::Peer,
        old(round).takes(event, wire::buffer_bytes(*old(serialization_pool)).len()),
        event is Stored ==> old(tools).sequence_counter < u32::MAX,
    ensures
        final(round).well_formed(),
        final(round)@ == old(round)@.after(event@, crypto::ed25519_public_key(signing_key@)),
        action@ == old(round)@.output(event@, signing_key@, wire::buffer_bytes(*old(serialization_pool))),
        wire::buffer_bytes(*final(serialization_pool)) == (if action is Broadcast || action is DrainAndBroadcast {
            Seq::<u8>::empty()
        } else {
            wire::buffer_bytes(*old(serialization_pool))
        }),
        *final(tools) == tools_after(*old(tools), event@),
        final(round).phase == Phase::Preparing ==> (action matches EngineAction::Broadcast { packet, .. }
            && reader::routing(
            wire::buffer_bytes(packet).skip(wire::buffer_bytes(*old(serialization_pool)).len() as int),
            crypto::ed25519_public_key(signing_key@),
            false,
        ) == Routing::Forward(vote::vote_by(signing_key@, wire::text("PREPARE")))),
        final(round).phase == Phase::Committing ==> (action matches EngineAction::DrainAndBroadcast { packet, .. }
            && reader::routing(
            wire::buffer_bytes(packet).skip(wire::buffer_bytes(*old(serialization_pool)).len() as int),
            crypto::ed25519_public_key(signing_key@),
            false,
        ) == Routing::Forward(vote::vote_by(signing_key@, wire::text("COMMIT")))),
{
    match event {
        EngineEvent::Begin => round.verify(signing_key, serialization_pool),
        _ => round.advance(event, tools, signing_key, serialization_pool),
    }
}

} // verus!
