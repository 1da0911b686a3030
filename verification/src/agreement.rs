//! What holds of every round of consensus, whatever happens in it.

use vstd::prelude::*;

use crate::bootnode;
use crate::crypto;
use crate::engine;
use crate::engine::{ConsensusRound, EngineAction, EngineEvent, Input, Output, Phase, Role, RoundState};
use crate::error::ErrorKind;
use crate::leader;
use crate::packet::{Message, Proposal, Wire};
use crate::peer;
use crate::quorum;
use crate::quorum::QuorumState;
use crate::reader;
use crate::reader::Routing;
use crate::tools::ConsensusToolsStruct;
use crate::vote;
use crate::vote::{COMMIT, PREPARE};
use crate::wire;

verus! {

// ---------------------------------------------------------------------------
// One round
// ---------------------------------------------------------------------------

/// The state of a round after all that happened in it, for the node that is
/// known by the key `node`.
pub open spec fn run(start: RoundState, inputs: Seq<Input>, node: Seq<u8>) -> RoundState
    decreases inputs.len(),
{
    if inputs.len() == 0 {
        start
    } else {
        run(start, inputs.drop_last(), node).after(inputs.last(), node)
    }
}

/// Whether everything happened when it could.
pub open spec fn orderly(start: RoundState, inputs: Seq<Input>, node: Seq<u8>) -> bool
    decreases inputs.len(),
{
    inputs.len() == 0 || (orderly(start, inputs.drop_last(), node) && run(start, inputs.drop_last(), node).awaits(
        inputs.last(),
    ))
}

/// The nodes whose votes for a stage arrived.
pub open spec fn voted(inputs: Seq<Input>, stage: Seq<u8>) -> Set<Seq<u8>> {
    Set::new(|voter: Seq<u8>| exists|i: int| 0 <= i < inputs.len() && vote_arrived(#[trigger] inputs[i], stage, voter))
}

/// Whether a vote of a node for a stage arrives.
pub open spec fn vote_arrived(input: Input, stage: Seq<u8>, voter: Seq<u8>) -> bool {
    input matches Input::Received(message) && quorum::votes_for(message, stage, voter)
}

/// The nodes that support a stage: those whose votes arrived, and the node
/// itself.
pub open spec fn supporters(inputs: Seq<Input>, stage: Seq<u8>, node: Seq<u8>) -> Set<Seq<u8>> {
    voted(inputs, stage).insert(node)
}

/// A round as a node opens it.
pub open spec fn opened(round: RoundState) -> bool {
    round.phase == Phase::Idle && round.faulty >= 1
}

/// How many votes decide each stage of a round.
pub open spec fn quorum_in(round: RoundState) -> nat {
    quorum::quorum_of(round.faulty as nat)
}

/// Only finitely many nodes vote.
proof fn voted_is_finite(inputs: Seq<Input>, stage: Seq<u8>)
    ensures
        voted(inputs, stage).finite(),
    decreases inputs.len(),
{
    if inputs.len() == 0 {
        assert(voted(inputs, stage) =~= Set::empty());
    } else {
        let earlier = inputs.drop_last();
        voted_is_finite(earlier, stage);
        let candidate: Seq<u8> = match inputs.last() {
            Input::Received(Message::Vote { voter, .. }) => voter,
            _ => Seq::empty(),
        };
        let bound = voted(earlier, stage).insert(candidate);
        assert forall|voter: Seq<u8>| voted(inputs, stage).contains(voter) implies bound.contains(voter) by {
            let i = choose|i: int| 0 <= i < inputs.len() && vote_arrived(#[trigger] inputs[i], stage, voter);
            if i < earlier.len() {
                assert(vote_arrived(earlier[i], stage, voter));
            }
        }
        vstd::set_lib::lemma_set_subset_finite(bound, voted(inputs, stage));
    }
}

/// Votes that arrived have arrived, whatever happens next.
proof fn supporters_grow(inputs: Seq<Input>, stage: Seq<u8>, node: Seq<u8>)
    requires
        inputs.len() > 0,
    ensures
        supporters(inputs, stage, node).finite(),
        supporters(inputs.drop_last(), stage, node).subset_of(supporters(inputs, stage, node)),
        supporters(inputs.drop_last(), stage, node).len() <= supporters(inputs, stage, node).len(),
{
    let earlier = inputs.drop_last();
    assert forall|voter: Seq<u8>| voted(earlier, stage).contains(voter) implies voted(inputs, stage).contains(
        voter,
    ) by {
        let i = choose|i: int| 0 <= i < earlier.len() && vote_arrived(#[trigger] earlier[i], stage, voter);
        assert(vote_arrived(inputs[i], stage, voter));
    }
    voted_is_finite(inputs, stage);
    vstd::set_lib::lemma_len_subset(supporters(earlier, stage, node), supporters(inputs, stage, node));
}

/// Whether a stage was decided by enough different nodes, in sequence.
pub open spec fn decided(start: RoundState, inputs: Seq<Input>, stage: &str, node: Seq<u8>) -> bool {
    &&& supporters(inputs, wire::text(stage), node).len() >= quorum_in(start)
    &&& start.sequence_counters.0 == start.sequence_counters.1
}

/// The voters that were counted in the current wait do support its stage.
spec fn counted_soundly(start: RoundState, inputs: Seq<Input>, votes: QuorumState, stage: &str, node: Seq<u8>) -> bool {
    &&& votes.stage == wire::text(stage)
    &&& votes.quorum == quorum_in(start)
    &&& votes.in_sequence == (start.sequence_counters.0 == start.sequence_counters.1)
    &&& votes.voters.finite()
    &&& votes.counter == votes.voters.len()
    &&& !votes.in_sequence ==> votes.counter == 0
    &&& votes.voters.subset_of(supporters(inputs, wire::text(stage), node))
}

/// What holds of a round at every point.
spec fn sound(start: RoundState, inputs: Seq<Input>, node: Seq<u8>) -> bool {
    let round = run(start, inputs, node);
    &&& round.role == start.role
    &&& round.proposal == start.proposal
    &&& round.sequence_counters == start.sequence_counters
    &&& round.faulty == start.faulty
    &&& match round.phase {
        Phase::Idle | Phase::Proposing | Phase::Failed => true,
        Phase::Preparing | Phase::AwaitingPrepare => {
            &&& start.rejection() is None
            &&& counted_soundly(start, inputs, round.votes, PREPARE, node)
        },
        Phase::Committing | Phase::AwaitingCommit => {
            &&& start.rejection() is None
            &&& counted_soundly(start, inputs, round.votes, COMMIT, node)
            &&& decided(start, inputs, PREPARE, node)
        },
        Phase::Storing | Phase::Done => {
            &&& start.rejection() is None
            &&& decided(start, inputs, PREPARE, node)
            &&& decided(start, inputs, COMMIT, node)
        },
    }
}

/// Counting one more message keeps the count sound, and if the message decides
/// the stage, enough different nodes support it.
proof fn counting_is_sound(start: RoundState, inputs: Seq<Input>, votes: QuorumState, stage: &str, node: Seq<u8>)
    requires
        inputs.len() > 0,
        inputs.last() is Received,
        counted_soundly(start, inputs.drop_last(), votes, stage, node),
    ensures
        counted_soundly(start, inputs, votes.receive(inputs.last()->Received_0), stage, node),
        votes.decided_by(inputs.last()->Received_0) ==> decided(start, inputs, stage, node),
{
    let message = inputs.last()->Received_0;
    let after = votes.receive(message);
    let name = wire::text(stage);
    supporters_grow(inputs, name, node);
    if votes.counts(message) {
        assert(vote_arrived(inputs[inputs.len() - 1], name, message->voter));
        assert(voted(inputs, name).contains(message->voter));
    }
    assert(after.voters.subset_of(supporters(inputs, name, node)));
    vstd::set_lib::lemma_len_subset(after.voters, supporters(inputs, name, node));
}

/// A round is sound at every point.
proof fn rounds_are_sound(start: RoundState, inputs: Seq<Input>, node: Seq<u8>)
    requires
        opened(start),
        orderly(start, inputs, node),
    ensures
        sound(start, inputs, node),
    decreases inputs.len(),
{
    if inputs.len() > 0 {
        let earlier = inputs.drop_last();
        let before = run(start, earlier, node);
        rounds_are_sound(start, earlier, node);
        supporters_grow(inputs, wire::text(PREPARE), node);
        supporters_grow(inputs, wire::text(COMMIT), node);
        if inputs.last() is Received {
            if before.phase == Phase::AwaitingPrepare {
                counting_is_sound(start, inputs, before.votes, PREPARE, node);
            } else {
                counting_is_sound(start, inputs, before.votes, COMMIT, node);
            }
        }
    }
}

/// A transaction is stored only if the client's signature on it was accepted,
/// it was the next in the node's sequence, and a quorum of different nodes, the
/// node itself counted, voted to prepare it and a quorum voted to commit it.
pub proof fn stored_only_by_agreement(start: RoundState, inputs: Seq<Input>, node: Seq<u8>)
    requires
        opened(start),
        orderly(start, inputs, node),
        run(start, inputs, node).phase == Phase::Storing || run(start, inputs, node).phase == Phase::Done,
    ensures
        start.rejection() is None,
        start.sequence_counters.0 == start.sequence_counters.1,
        supporters(inputs, wire::text(PREPARE), node).len() >= quorum_in(start),
        supporters(inputs, wire::text(COMMIT), node).len() >= quorum_in(start),
{
    rounds_are_sound(start, inputs, node);
}

/// A transaction whose client signature is not accepted is never voted for: the
/// round fails before the prepare vote.
pub proof fn bad_signature_is_never_voted_for(start: RoundState, inputs: Seq<Input>, node: Seq<u8>)
    requires
        opened(start),
        orderly(start, inputs, node),
        start.rejection() is Some,
    ensures
        ({
            let phase = run(start, inputs, node).phase;
            phase == Phase::Idle || phase == Phase::Proposing || phase == Phase::Failed
        }),
{
    rounds_are_sound(start, inputs, node);
}

/// A round asks for a transaction to be stored exactly when the commit stage is
/// settled, and what it asks to be stored is the transaction that it was opened
/// on.
pub proof fn stores_what_was_proposed(
    start: RoundState,
    inputs: Seq<Input>,
    last: Input,
    node: Seq<u8>,
    secret: Seq<u8>,
    pooled: Seq<u8>,
)
    requires
        opened(start),
        orderly(start, inputs.push(last), node),
    ensures
        ({
            let round = run(start, inputs, node);
            let output = round.output(last, secret, pooled);
            &&& output is Store <==> round.stores_on(last)
            &&& output is Store ==> output->proposal == start.proposal
        }),
{
    assert(inputs.push(last).drop_last() =~= inputs);
    rounds_are_sound(start, inputs, node);
}

/// The leader sends every transaction to the peers before it looks at the
/// client's signature, whether that is good or bad.
pub proof fn leader_proposes_before_it_verifies(start: RoundState, node: Seq<u8>, secret: Seq<u8>, pooled: Seq<u8>)
    requires
        opened(start),
        start.role == Role::Leader,
    ensures
        start.output(Input::Begin, secret, pooled) == (Output::Broadcast {
            packet: pooled + Message::Consensus(start.proposal).encoding(),
            to_leader: false,
        }),
        start.after(Input::Begin, node).verifies_on(Input::Delivered),
{
}

/// A round that awaits votes fails if no more can arrive.
pub proof fn silence_fails_a_round(round: RoundState, node: Seq<u8>)
    requires
        round.awaits(Input::Closed),
    ensures
        round.after(Input::Closed, node).phase == Phase::Failed,
        round.after(Input::TimedOut, node).phase == Phase::Failed,
{
}

/// A round that has ended, well or badly, takes nothing more.
pub proof fn ended_rounds_stay_ended(round: RoundState, input: Input)
    requires
        round.phase == Phase::Done || round.phase == Phase::Failed,
    ensures
        !round.awaits(input),
{
}

// ---------------------------------------------------------------------------
// Enough votes
// ---------------------------------------------------------------------------

/// The arrival of messages, in their order.
pub open spec fn arrivals(messages: Seq<Message>) -> Seq<Input> {
    messages.map_values(|message: Message| Input::Received(message))
}

/// Whether the first `count` messages take a round that awaits votes to the
/// next phase.
pub open spec fn settled_after(round: RoundState, messages: Seq<Message>, count: int, node: Seq<u8>) -> bool {
    let inputs = arrivals(messages.take(count));
    &&& orderly(round, inputs, node)
    &&& run(round, inputs, node).phase == (if round.phase == Phase::AwaitingPrepare {
        Phase::Committing
    } else {
        Phase::Storing
    })
}

/// Whether a round has begun to await the votes for a stage, in sequence.
pub open spec fn awaits_votes(round: RoundState, stage: &str, node: Seq<u8>) -> bool {
    &&& round.phase == Phase::AwaitingPrepare || round.phase == Phase::AwaitingCommit
    &&& round.votes == round.wait_with_own(stage, node)
    &&& round.sequence_counters.0 == round.sequence_counters.1
    &&& round.faulty >= 1
}

/// The nodes that support a stage, where some messages have arrived.
pub open spec fn support(messages: Seq<Message>, stage: &str, node: Seq<u8>) -> Set<Seq<u8>> {
    quorum::voters_in(messages, wire::text(stage)).insert(node)
}

/// A message in front of others is received first.
proof fn received_first(votes: QuorumState, first: Message, messages: Seq<Message>)
    ensures
        votes.receive_all(seq![first] + messages) == votes.receive(first).receive_all(messages),
    decreases messages.len(),
{
    let all = seq![first] + messages;
    if messages.len() == 0 {
        assert(all.drop_last() =~= Seq::empty());
        assert(votes.receive_all(all.drop_last()) == votes);
    } else {
        received_first(votes, first, messages.drop_last());
        assert(all.drop_last() =~= seq![first] + messages.drop_last());
    }
}

/// The count of a round that began with the node's own vote is the number of
/// nodes that support the stage.
proof fn support_is_counted(round: RoundState, messages: Seq<Message>, stage: &str, node: Seq<u8>)
    requires
        awaits_votes(round, stage, node),
    ensures
        ({
            let votes = round.votes.receive_all(messages);
            &&& votes.stage == wire::text(stage)
            &&& votes.quorum == quorum_in(round)
            &&& votes.in_sequence
            &&& votes.voters == support(messages, stage, node)
            &&& votes.counter == support(messages, stage, node).len()
        }),
{
    let name = wire::text(stage);
    let own = Message::Vote { stage: name, signature: Seq::empty(), voter: node };
    let all = seq![own] + messages;
    let fresh = round.wait_for(stage);
    received_first(fresh, own, messages);
    quorum::each_voter_counts_once(fresh, all);
    assert forall|voter: Seq<u8>| quorum::voters_in(all, name).contains(voter) == support(
        messages,
        stage,
        node,
    ).contains(voter) by {
        if quorum::voters_in(all, name).contains(voter) {
            let i = choose|i: int| 0 <= i < all.len() && quorum::votes_for(#[trigger] all[i], name, voter);
            if i > 0 {
                assert(quorum::votes_for(messages[i - 1], name, voter));
            }
        }
        if quorum::voters_in(messages, name).contains(voter) {
            let i = choose|i: int| 0 <= i < messages.len() && quorum::votes_for(#[trigger] messages[i], name, voter);
            assert(quorum::votes_for(all[i + 1], name, voter));
        }
        if voter == node {
            assert(quorum::votes_for(all[0], name, voter));
        }
    }
    assert(quorum::voters_in(all, name) =~= support(messages, stage, node));
}

/// While fewer nodes than a quorum support the stage, the round goes on
/// counting.
proof fn counts_on(round: RoundState, messages: Seq<Message>, stage: &str, node: Seq<u8>)
    requires
        awaits_votes(round, stage, node),
        support(messages, stage, node).len() < quorum_in(round),
    ensures
        orderly(round, arrivals(messages), node),
        run(round, arrivals(messages), node) == (RoundState { votes: round.votes.receive_all(messages), ..round }),
    decreases messages.len(),
{
    if messages.len() > 0 {
        let earlier = messages.drop_last();
        support_is_counted(round, earlier, stage, node);
        support_is_counted(round, messages, stage, node);
        counts_on(round, earlier, stage, node);
        assert(arrivals(messages).drop_last() =~= arrivals(earlier));
    }
}

/// Once a quorum of different nodes, the node itself counted, supports the stage
/// that a round awaits, whatever else arrives in between, the round is in the
/// next phase.
pub proof fn enough_votes_settle_a_stage(round: RoundState, messages: Seq<Message>, stage: &str, node: Seq<u8>)
    requires
        awaits_votes(round, stage, node),
        support(messages, stage, node).len() >= quorum_in(round),
    ensures
        exists|count: int| 0 < count <= messages.len() && settled_after(round, messages, count, node),
    decreases messages.len(),
{
    support_is_counted(round, messages, stage, node);
    if messages.len() > 0 {
        let earlier = messages.drop_last();
        support_is_counted(round, earlier, stage, node);
        if support(earlier, stage, node).len() >= quorum_in(round) {
            enough_votes_settle_a_stage(round, earlier, stage, node);
            let count = choose|count: int| 0 < count <= earlier.len() && settled_after(round, earlier, count, node);
            assert(messages.take(count) =~= earlier.take(count));
            assert(settled_after(round, messages, count, node));
        } else {
            counts_on(round, earlier, stage, node);
            assert(messages.take(messages.len() as int) =~= messages);
            assert(arrivals(messages).drop_last() =~= arrivals(earlier));
            assert(settled_after(round, messages, messages.len() as int, node));
        }
    }
}

// ---------------------------------------------------------------------------
// One round after another
// ---------------------------------------------------------------------------

/// A round of a node, with all that happened in it.
pub struct PlayedRound {
    pub start: RoundState,
    pub inputs: Seq<Input>,
}

impl PlayedRound {
    /// How far the round came.
    pub open spec fn phase(self, node: Seq<u8>) -> Phase {
        run(self.start, self.inputs, node).phase
    }

    /// Whether the transaction was stored.
    pub open spec fn stored(self, node: Seq<u8>) -> bool {
        self.phase(node) == Phase::Done
    }

    /// Whether the round was opened as it has to be, and everything happened
    /// when it could.
    pub open spec fn played_well(self, node: Seq<u8>) -> bool {
        opened(self.start) && orderly(self.start, self.inputs, node)
    }
}

/// The tools of a node after all that happened in a round.
pub open spec fn tools_through<S>(tools: ConsensusToolsStruct<S>, inputs: Seq<Input>) -> ConsensusToolsStruct<S>
    decreases inputs.len(),
{
    if inputs.len() == 0 {
        tools
    } else {
        engine::tools_after(tools_through(tools, inputs.drop_last()), inputs.last())
    }
}

/// The tools of a node after some rounds.
pub open spec fn tools_through_all<S>(
    tools: ConsensusToolsStruct<S>,
    rounds: Seq<PlayedRound>,
) -> ConsensusToolsStruct<S>
    decreases rounds.len(),
{
    if rounds.len() == 0 {
        tools
    } else {
        tools_through(tools_through_all(tools, rounds.drop_last()), rounds.last().inputs)
    }
}

/// How many of the rounds have stored their transaction.
pub open spec fn stored_count(rounds: Seq<PlayedRound>, node: Seq<u8>) -> nat
    decreases rounds.len(),
{
    if rounds.len() == 0 {
        0
    } else {
        stored_count(rounds.drop_last(), node) + (if rounds.last().stored(node) {
            1nat
        } else {
            0nat
        })
    }
}

/// The transactions that a round asks to be stored, in their order.
pub open spec fn handed_over(start: RoundState, inputs: Seq<Input>, node: Seq<u8>) -> Seq<Proposal>
    decreases inputs.len(),
{
    if inputs.len() == 0 {
        Seq::empty()
    } else {
        let before = run(start, inputs.drop_last(), node);
        let earlier = handed_over(start, inputs.drop_last(), node);
        if before.stores_on(inputs.last()) {
            earlier.push(before.proposal)
        } else {
            earlier
        }
    }
}

/// The transactions that some rounds ask to be stored, in their order.
pub open spec fn all_handed_over(rounds: Seq<PlayedRound>, node: Seq<u8>) -> Seq<Proposal>
    decreases rounds.len(),
{
    if rounds.len() == 0 {
        Seq::empty()
    } else {
        all_handed_over(rounds.drop_last(), node) + handed_over(rounds.last().start, rounds.last().inputs, node)
    }
}

/// The transactions of the rounds that have stored theirs, in their order.
pub open spec fn stored_proposals(rounds: Seq<PlayedRound>, node: Seq<u8>) -> Seq<Proposal>
    decreases rounds.len(),
{
    if rounds.len() == 0 {
        Seq::empty()
    } else if rounds.last().stored(node) {
        stored_proposals(rounds.drop_last(), node).push(rounds.last().start.proposal)
    } else {
        stored_proposals(rounds.drop_last(), node)
    }
}

/// What a round does to the tools, at every point.
proof fn round_moves_tools<S>(tools: ConsensusToolsStruct<S>, round: PlayedRound, node: Seq<u8>)
    requires
        round.played_well(node),
    ensures
        tools_through(tools, round.inputs) == (if round.stored(node) {
            engine::tools_after(tools, Input::Stored)
        } else {
            tools
        }),
    decreases round.inputs.len(),
{
    if round.inputs.len() > 0 {
        let earlier = PlayedRound { start: round.start, inputs: round.inputs.drop_last() };
        round_moves_tools(tools, earlier, node);
    }
}

/// What a round hands over, at every point.
proof fn round_hands_over(round: PlayedRound, node: Seq<u8>)
    requires
        round.played_well(node),
    ensures
        handed_over(round.start, round.inputs, node) == (if round.phase(node) == Phase::Storing || round.stored(
            node,
        ) {
            seq![round.start.proposal]
        } else {
            Seq::<Proposal>::empty()
        }),
    decreases round.inputs.len(),
{
    if round.inputs.len() > 0 {
        let earlier = PlayedRound { start: round.start, inputs: round.inputs.drop_last() };
        round_hands_over(earlier, node);
        rounds_are_sound(earlier.start, earlier.inputs, node);
        assert(Seq::<Proposal>::empty().push(round.start.proposal) =~= seq![round.start.proposal]);
    }
}

/// A round that failed changes nothing of the tools and hands no transaction
/// over.
pub proof fn failed_rounds_change_nothing<S>(tools: ConsensusToolsStruct<S>, round: PlayedRound, node: Seq<u8>)
    requires
        round.played_well(node),
        round.phase(node) == Phase::Failed,
    ensures
        tools_through(tools, round.inputs) == tools,
        handed_over(round.start, round.inputs, node) == Seq::<Proposal>::empty(),
{
    round_moves_tools(tools, round, node);
    round_hands_over(round, node);
}

/// Over any rounds of a node, the sequence counter grows by the number of those
/// that have stored their transaction, and nothing else of the tools changes.
pub proof fn finished_rounds_are_counted<S>(
    tools: ConsensusToolsStruct<S>,
    rounds: Seq<PlayedRound>,
    node: Seq<u8>,
)
    requires
        forall|i: int| 0 <= i < rounds.len() ==> (#[trigger] rounds[i]).played_well(node),
        tools.sequence_counter + stored_count(rounds, node) <= u32::MAX,
    ensures
        tools_through_all(tools, rounds) == (ConsensusToolsStruct {
            sequence_counter: (tools.sequence_counter + stored_count(rounds, node)) as u32,
            ..tools
        }),
    decreases rounds.len(),
{
    if rounds.len() > 0 {
        let earlier = rounds.drop_last();
        assert forall|i: int| 0 <= i < earlier.len() implies (#[trigger] earlier[i]).played_well(node) by {
            assert(rounds[i].played_well(node));
        }
        finished_rounds_are_counted(tools, earlier, node);
        assert(rounds[rounds.len() - 1].played_well(node));
        round_moves_tools(tools_through_all(tools, earlier), rounds.last(), node);
    }
}

/// Over any rounds of a node that have ended, exactly the transactions of those
/// that succeeded are handed over to be stored, in the order of the rounds.
pub proof fn finished_rounds_hand_over(rounds: Seq<PlayedRound>, node: Seq<u8>)
    requires
        forall|i: int|
            0 <= i < rounds.len() ==> (#[trigger] rounds[i]).played_well(node) && (rounds[i].phase(node) == Phase::Done
                || rounds[i].phase(node) == Phase::Failed),
    ensures
        all_handed_over(rounds, node) == stored_proposals(rounds, node),
        all_handed_over(rounds, node).len() == stored_count(rounds, node),
    decreases rounds.len(),
{
    if rounds.len() > 0 {
        let earlier = rounds.drop_last();
        let last = rounds.last();
        assert forall|i: int| 0 <= i < earlier.len() implies (#[trigger] earlier[i]).played_well(node) && (
        earlier[i].phase(node) == Phase::Done || earlier[i].phase(node) == Phase::Failed) by {
            assert(rounds[i].played_well(node));
        }
        finished_rounds_hand_over(earlier, node);
        assert(rounds[rounds.len() - 1].played_well(node));
        round_hands_over(last, node);
        let before = all_handed_over(earlier, node);
        assert(before + seq![last.start.proposal] =~= before.push(last.start.proposal));
        assert(before + Seq::<Proposal>::empty() =~= before);
    }
}

/// Whether a node with the given tools played the rounds one after another: it
/// opened each with the sequence counter of its tools at that point.
pub open spec fn one_after_another<S>(tools: ConsensusToolsStruct<S>, rounds: Seq<PlayedRound>, node: Seq<u8>) -> bool {
    forall|i: int|
        0 <= i < rounds.len() ==> {
            let round = #[trigger] rounds[i];
            &&& round.played_well(node)
            &&& round.start.sequence_counters == (
                tools_through_all(tools, rounds.take(i)).sequence_counter,
                round.start.proposal.seq_counter,
            )
        }
}

/// More rounds have stored at least as many transactions.
proof fn stored_count_grows(rounds: Seq<PlayedRound>, fewer: int, more: int, node: Seq<u8>)
    requires
        0 <= fewer <= more <= rounds.len(),
    ensures
        stored_count(rounds.take(fewer), node) <= stored_count(rounds.take(more), node),
    decreases more - fewer,
{
    if fewer < more {
        stored_count_grows(rounds, fewer, more - 1, node);
        assert(rounds.take(more).drop_last() =~= rounds.take(more - 1));
    }
}

/// A node stores transactions in the order of their sequence numbers, without a
/// gap: the number of each follows on those that were stored before it.
pub proof fn stored_in_sequence<S>(
    tools: ConsensusToolsStruct<S>,
    rounds: Seq<PlayedRound>,
    index: int,
    node: Seq<u8>,
)
    requires
        one_after_another(tools, rounds, node),
        tools.sequence_counter + stored_count(rounds, node) <= u32::MAX,
        0 <= index < rounds.len(),
        rounds[index].stored(node),
    ensures
        rounds[index].start.proposal.seq_counter == tools.sequence_counter + stored_count(rounds.take(index), node),
{
    let earlier = rounds.take(index);
    assert forall|i: int| 0 <= i < earlier.len() implies (#[trigger] earlier[i]).played_well(node) by {
        assert(rounds[i].played_well(node));
    }
    stored_count_grows(rounds, index, rounds.len() as int, node);
    assert(rounds.take(rounds.len() as int) =~= rounds);
    finished_rounds_are_counted(tools, earlier, node);
    stored_only_by_agreement(rounds[index].start, rounds[index].inputs, node);
}

/// No sequence number is stored twice, and a later transaction has a larger one.
pub proof fn sequence_numbers_grow<S>(
    tools: ConsensusToolsStruct<S>,
    rounds: Seq<PlayedRound>,
    earlier: int,
    later: int,
    node: Seq<u8>,
)
    requires
        one_after_another(tools, rounds, node),
        tools.sequence_counter + stored_count(rounds, node) <= u32::MAX,
        0 <= earlier < later < rounds.len(),
        rounds[earlier].stored(node),
        rounds[later].stored(node),
    ensures
        rounds[earlier].start.proposal.seq_counter < rounds[later].start.proposal.seq_counter,
{
    stored_in_sequence(tools, rounds, earlier, node);
    stored_in_sequence(tools, rounds, later, node);
    assert(rounds.take(earlier + 1).drop_last() =~= rounds.take(earlier));
    assert(rounds.take(earlier + 1).last() == rounds[earlier]);
    stored_count_grows(rounds, earlier + 1, later, node);
}

// ---------------------------------------------------------------------------
// What each step does
// ---------------------------------------------------------------------------

/// Whether the signatures of the node with the given secret key over the names of
/// the stages are accepted under its public key, as the signatures of every node
/// are that signs its own votes.
pub open spec fn signs_its_votes(secret: Seq<u8>) -> bool {
    let node = crypto::ed25519_public_key(secret);
    &&& crypto::rejection(
        node,
        wire::text("PREPARE"),
        crypto::ed25519_signature(secret, wire::text("PREPARE")),
    ) is None
    &&& crypto::rejection(
        node,
        wire::text("COMMIT"),
        crypto::ed25519_signature(secret, wire::text("COMMIT")),
    ) is None
}

/// Whether a packet holds, behind what the buffer held, a vote for a stage that
/// every reader hands on that knows the node by its public key: in the node's own
/// name, and with its signature over the name of that stage.
pub open spec fn is_heard(packet: Seq<u8>, pooled: Seq<u8>, secret: Seq<u8>, stage: Seq<u8>) -> bool {
    let node = crypto::ed25519_public_key(secret);
    &&& packet.len() > pooled.len()
    &&& packet.take(pooled.len() as int) == pooled
    &&& reader::routing(packet.skip(pooled.len() as int), node, false) == Routing::Forward(
        Message::Vote { stage, signature: crypto::ed25519_signature(secret, stage), voter: node },
    )
}

/// A vote behind what the buffer held is heard.
proof fn own_votes_are_heard(pooled: Seq<u8>, secret: Seq<u8>, stage: Seq<u8>)
    requires
        stage.len() <= u64::MAX,
        crypto::rejection(
            crypto::ed25519_public_key(secret),
            stage,
            crypto::ed25519_signature(secret, stage),
        ) is None,
    ensures
        is_heard(pooled + vote::vote_by(secret, stage).encoding(), pooled, secret, stage),
{
    let cast = vote::vote_by(secret, stage);
    let packet = pooled + cast.encoding();
    cast.round_trip(Seq::empty());
    wire::le_bytes_len(1, 4);
    assert(cast.encoding() + Seq::<u8>::empty() =~= cast.encoding());
    assert(packet.skip(pooled.len() as int) =~= cast.encoding());
    assert(packet.take(pooled.len() as int) =~= pooled);
}

/// The names of the stages are short.
proof fn stage_names_are_short()
    ensures
        wire::text("PREPARE").len() == 7,
        wire::text("COMMIT").len() == 6,
{
    reveal_strlit("PREPARE");
    reveal_strlit("COMMIT");
    wire::ascii_text("PREPARE");
    wire::ascii_text("COMMIT");
}

/// Whenever a round enters the prepare or the commit stage, the node is to send
/// its own vote for just that stage, which every node that knows it hands on: to
/// all peers, and to the leader too if the node is a peer. On entering the commit
/// stage, what has arrived is dropped first. Nothing else but the leader's
/// proposal is ever to be sent.
pub proof fn broadcast_votes_are_heard(round: RoundState, input: Input, secret: Seq<u8>, pooled: Seq<u8>)
    requires
        round.awaits(input),
        signs_its_votes(secret),
    ensures
        ({
            let entered = round.after(input, crypto::ed25519_public_key(secret)).phase;
            let output = round.output(input, secret, pooled);
            &&& entered == Phase::Preparing ==> (output matches Output::Broadcast { packet, to_leader } && is_heard(
                packet,
                pooled,
                secret,
                wire::text("PREPARE"),
            ) && (to_leader <==> round.role == Role::Peer))
            &&& entered == Phase::Committing ==> (output matches Output::DrainAndBroadcast { packet, to_leader }
                && is_heard(packet, pooled, secret, wire::text("COMMIT")) && (to_leader <==> round.role == Role::Peer))
            &&& output is Broadcast <==> entered == Phase::Proposing || entered == Phase::Preparing
            &&& output is DrainAndBroadcast <==> entered == Phase::Committing
        }),
{
    stage_names_are_short();
    own_votes_are_heard(pooled, secret, wire::text("PREPARE"));
    own_votes_are_heard(pooled, secret, wire::text("COMMIT"));
}

/// The leader begins a round by sending its peers the transaction, which those
/// that may take it from the leader read as it is.
pub proof fn proposals_are_read_as_they_are(
    round: RoundState,
    node: Seq<u8>,
    pubkey: Seq<u8>,
    secret: Seq<u8>,
    pooled: Seq<u8>,
)
    requires
        round.phase == Phase::Idle,
        round.role == Role::Leader,
        round.proposal.fits(),
    ensures
        round.after(Input::Begin, node) == (RoundState { phase: Phase::Proposing, ..round }),
        round.output(Input::Begin, secret, pooled) matches Output::Broadcast { packet, to_leader } && {
            &&& !to_leader
            &&& packet.take(pooled.len() as int) == pooled
            &&& reader::routing(packet.skip(pooled.len() as int), pubkey, true) == Routing::Forward(
                Message::Consensus(round.proposal),
            )
        },
{
    let message = Message::Consensus(round.proposal);
    let packet = pooled + message.encoding();
    message.round_trip(Seq::empty());
    assert(message.encoding() + Seq::<u8>::empty() =~= message.encoding());
    assert(packet.skip(pooled.len() as int) =~= message.encoding());
    assert(packet.take(pooled.len() as int) =~= pooled);
}

/// The client's signature is looked at by a peer when the round begins, and by
/// the leader when its proposal was sent, and at no other time: if the client
/// signed the transaction, the round enters the prepare stage, and otherwise it
/// fails with what is wrong.
pub proof fn signature_decides_once(
    round: RoundState,
    input: Input,
    node: Seq<u8>,
    secret: Seq<u8>,
    pooled: Seq<u8>,
)
    requires
        round.awaits(input),
    ensures
        ({
            let looks = (round.phase == Phase::Idle && round.role == Role::Peer) || round.phase == Phase::Proposing;
            let fault = crypto::rejection(
                round.proposal.client_key,
                round.proposal.unsigned_msg,
                round.proposal.signed_msg,
            );
            let entered = round.after(input, node).phase;
            &&& looks && fault is None ==> entered == Phase::Preparing
            &&& looks && fault is Some ==> round.after(input, node) == (RoundState { phase: Phase::Failed, ..round })
                && round.output(input, secret, pooled) == (
            Output::Fail { kind: ErrorKind::InvalidData, message: fault.unwrap() })
            &&& !looks ==> entered != Phase::Preparing
            &&& round.rejection() == fault
            &&& round.verifies_on(input) <==> looks
        }),
{
}

/// Once a vote was sent, the node waits for the votes of that stage: 3000
/// milliseconds for prepare votes, and 1500 for commit votes.
pub proof fn sent_votes_are_waited_for(round: RoundState, node: Seq<u8>, secret: Seq<u8>, pooled: Seq<u8>)
    ensures
        round.phase == Phase::Preparing ==> {
            &&& round.after(Input::Delivered, node) == (RoundState { phase: Phase::AwaitingPrepare, ..round })
            &&& round.output(Input::Delivered, secret, pooled) == (Output::AwaitVotes { timeout: 3000 })
        },
        round.phase == Phase::Committing ==> {
            &&& round.after(Input::Delivered, node) == (RoundState { phase: Phase::AwaitingCommit, ..round })
            &&& round.output(Input::Delivered, secret, pooled) == (Output::AwaitVotes { timeout: 1500 })
        },
{
}

/// What a message does while votes are awaited: a vote for the stage, by a node
/// that was not counted before, with which the count is a quorum, takes the round
/// to the next phase; any other message is counted, if it is to be, and the round
/// waits on.
pub proof fn votes_take_a_round_on(
    round: RoundState,
    message: Message,
    node: Seq<u8>,
    secret: Seq<u8>,
    pooled: Seq<u8>,
)
    requires
        round.phase == Phase::AwaitingPrepare || round.phase == Phase::AwaitingCommit,
    ensures
        ({
            let input = Input::Received(message);
            let after = round.after(input, node);
            let output = round.output(input, secret, pooled);
            let counted = round.votes.receive(message);
            let decides = message matches Message::Vote { stage, voter, .. } && stage == round.votes.stage
                && !round.votes.voters.contains(voter) && counted.counter >= round.votes.quorum;
            &&& !decides ==> after == (RoundState { votes: counted, ..round }) && output == Output::KeepWaiting
            &&& decides && round.phase == Phase::AwaitingPrepare ==> after.phase == Phase::Committing
                && output is DrainAndBroadcast
            &&& decides && round.phase == Phase::AwaitingCommit ==> after == (RoundState {
                phase: Phase::Storing,
                votes: counted,
                ..round
            }) && output == (Output::Store { proposal: round.proposal })
        }),
{
}

/// A round in which votes are awaited fails when the time is up or no more votes
/// can arrive.
pub proof fn rounds_fail_without_votes(round: RoundState, node: Seq<u8>, secret: Seq<u8>, pooled: Seq<u8>)
    requires
        round.phase == Phase::AwaitingPrepare || round.phase == Phase::AwaitingCommit,
    ensures
        round.after(Input::TimedOut, node) == (RoundState { phase: Phase::Failed, ..round }),
        round.output(Input::TimedOut, secret, pooled) == (Output::Fail {
            kind: ErrorKind::Other,
            message: "Time limit exceeded, prepare verification failed"@,
        }),
        round.after(Input::Closed, node) == (RoundState { phase: Phase::Failed, ..round }),
        round.output(Input::Closed, secret, pooled) == (Output::Fail {
            kind: ErrorKind::Other,
            message: "No more votes can arrive, quorum was not reached"@,
        }),
{
}

/// What is to be done tells what has become of the round: it has finished exactly
/// if its transaction was stored just now, it is to store exactly if it has come
/// to that phase, it has failed exactly if it is told so, it waits for votes
/// exactly if it has begun to, and it waits on exactly if it has not moved.
pub proof fn outputs_tell_the_phase(
    round: RoundState,
    input: Input,
    node: Seq<u8>,
    secret: Seq<u8>,
    pooled: Seq<u8>,
)
    requires
        round.awaits(input),
    ensures
        ({
            let after = round.after(input, node);
            let output = round.output(input, secret, pooled);
            &&& output is Finished <==> input is Stored
            &&& output is Finished <==> after.phase == Phase::Done
            &&& input is Stored ==> after == (RoundState { phase: Phase::Done, ..round })
            &&& output is Store <==> after.phase == Phase::Storing
            &&& output is Store <==> round.stores_on(input)
            &&& output is Fail <==> after.phase == Phase::Failed
            &&& output is AwaitVotes <==> input is Delivered && after.phase != Phase::Preparing && after.phase
                != Phase::Failed
            &&& output is AwaitVotes <==> (round.phase != after.phase && (after.phase == Phase::AwaitingPrepare
                || after.phase == Phase::AwaitingCommit))
            &&& output is KeepWaiting <==> after.phase == round.phase
            &&& output matches Output::Store { proposal } ==> proposal == round.proposal
        }),
{
}

/// Nothing that happens changes the part of the node, the transaction, the
/// sequence counters or the number of faulty nodes.
pub proof fn rounds_keep_what_they_are_about(round: RoundState, input: Input, node: Seq<u8>)
    ensures
        round.after(input, node).role == round.role,
        round.after(input, node).proposal == round.proposal,
        round.after(input, node).sequence_counters == round.sequence_counters,
        round.after(input, node).faulty == round.faulty,
{
}

/// A round that enters a stage begins to wait for the votes of that stage, of
/// which it needs two for each faulty node and one more; its own is counted, if
/// the sequence counters agree, and no other.
pub proof fn stages_begin_with_the_own_vote(round: RoundState, input: Input, node: Seq<u8>)
    requires
        round.awaits(input),
    ensures
        ({
            let after = round.after(input, node);
            let in_sequence = round.sequence_counters.0 == round.sequence_counters.1;
            after.phase == Phase::Preparing || after.phase == Phase::Committing ==> {
                &&& after.votes.stage == (if after.phase == Phase::Preparing {
                    wire::text("PREPARE")
                } else {
                    wire::text("COMMIT")
                })
                &&& after.votes.quorum == 2 * round.faulty + 1
                &&& after.votes.in_sequence == in_sequence
                &&& in_sequence ==> after.votes.counter == 1 && after.votes.voters == set![node]
                &&& !in_sequence ==> after.votes.counter == 0 && after.votes.voters == Set::<Seq<u8>>::empty()
            }
        }),
{
    assert(Set::<Seq<u8>>::empty().insert(node) =~= set![node]);
}

/// What can happen in each phase.
pub proof fn what_each_phase_awaits(round: RoundState, message: Message)
    ensures
        round.awaits(Input::Begin) <==> round.phase == Phase::Idle,
        round.awaits(Input::Delivered) <==> round.phase == Phase::Proposing || round.phase == Phase::Preparing
            || round.phase == Phase::Committing,
        round.awaits(Input::Received(message)) <==> round.phase == Phase::AwaitingPrepare || round.phase
            == Phase::AwaitingCommit,
        round.awaits(Input::Closed) <==> round.phase == Phase::AwaitingPrepare || round.phase == Phase::AwaitingCommit,
        round.awaits(Input::TimedOut) <==> round.phase == Phase::AwaitingPrepare || round.phase
            == Phase::AwaitingCommit,
        round.awaits(Input::Stored) <==> round.phase == Phase::Storing,
{
}

/// An event can be taken exactly if it can happen in this phase, a vote that
/// counts does not exhaust the counter, and what is to be written fits a buffer.
pub proof fn what_can_be_taken(round: ConsensusRound, event: EngineEvent, pooled: nat)
    ensures
        round.takes(event, pooled) <==> {
            &&& round@.awaits(event@)
            &&& event matches EngineEvent::Received(request) ==> round.votes@.has_room(request@)
            &&& pooled + round@.writes(event@) <= isize::MAX
        },
{
}

/// A stored transaction moves the sequence counter by one, and nothing else that
/// happens in a round changes the tools.
pub proof fn only_storing_moves_the_counter<S>(tools: ConsensusToolsStruct<S>, input: Input)
    requires
        tools.sequence_counter < u32::MAX,
    ensures
        input is Stored ==> engine::tools_after(tools, input).sequence_counter == tools.sequence_counter + 1,
        input !is Stored ==> engine::tools_after(tools, input).sequence_counter == tools.sequence_counter,
        engine::tools_after(tools, input).view_number == tools.view_number,
        engine::tools_after(tools, input).registry == tools.registry,
        engine::tools_after(tools, input).address_list == tools.address_list,
{
}

/// What is to be written when something happens is no more than the proposal,
/// for the leader, or a vote.
pub proof fn little_is_written(round: RoundState, input: Input)
    ensures
        input is Begin && round.role == Role::Leader ==> round.writes(input) == Message::Consensus(
            round.proposal,
        ).encoding().len(),
        !(input is Begin && round.role == Role::Leader) ==> round.writes(input) <= 123,
        input is Stored || input is TimedOut || input is Closed ==> round.writes(input) == 0,
{
    stage_names_are_short();
}

/// What happens and what is to be done are seen as what they are.
pub proof fn engine_says(event: EngineEvent, action: EngineAction)
    ensures
        event is Begin <==> event@ is Begin,
        event is Delivered <==> event@ is Delivered,
        event is Closed <==> event@ is Closed,
        event is TimedOut <==> event@ is TimedOut,
        event is Stored <==> event@ is Stored,
        event matches EngineEvent::Received(request) ==> event@ == Input::Received(request@),
        action matches EngineAction::Broadcast { packet, to_leader } ==> action@ == (Output::Broadcast {
            packet: wire::buffer_bytes(packet),
            to_leader,
        }),
        action matches EngineAction::DrainAndBroadcast { packet, to_leader } ==> action@ == (
        Output::DrainAndBroadcast { packet: wire::buffer_bytes(packet), to_leader }),
        action matches EngineAction::AwaitVotes { timeout } ==> action@ == (Output::AwaitVotes { timeout }),
        action is KeepWaiting <==> action@ is KeepWaiting,
        action matches EngineAction::Store { transaction } ==> action@ == (Output::Store { proposal: transaction@ }),
        action is Finished <==> action@ is Finished,
        action matches EngineAction::Fail(error) ==> action@ == (Output::Fail {
            kind: error.kind,
            message: error.message@,
        }),
{
}

/// The state of a round is what its fields hold.
pub proof fn round_says(round: ConsensusRound)
    ensures
        round@.role == round.role,
        round@.proposal == round.transaction@,
        round@.sequence_counters == round.sequence_counters,
        round@.faulty == round.faulty,
        round@.phase == round.phase,
        round@.votes == round.votes@,
{
}

/// Where nodes listen.
pub proof fn listening_addresses()
    ensures
        wire::text(leader::ADDRESS) == wire::text("127.0.0.1:8070"),
        wire::text(peer::ADDRESS) == wire::text("127.0.0.1:6376"),
        wire::text(bootnode::BOOTNODE_ADDRESS) == wire::text("127.0.0.1:1100"),
{
}

/// How long nodes wait, in milliseconds, and who may propose transactions to
/// them.
pub proof fn waiting_times()
    ensures
        engine::SEND_TIMEOUT == 1500,
        engine::PREPARE_TIMEOUT == 3000,
        engine::COMMIT_TIMEOUT == 1500,
        leader::INTRODUCTION_TIMEOUT == 2000,
        peer::INTRODUCTION_TIMEOUT == 2000,
        bootnode::INTRODUCTION_TIMEOUT == 100,
        leader::PEERS_MAY_PROPOSE,
        !peer::PEERS_MAY_PROPOSE,
{
}

} // verus!
