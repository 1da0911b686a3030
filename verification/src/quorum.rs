//! Counting votes: how many are needed, whose are counted, and when enough are
//! there.

use heapless::index_set::FnvIndexSet;
use vstd::prelude::*;
use vstd::slice::slice_to_vec;

use crate::packet::{ActorRequest, Message, Proposal};
use crate::wire;
use crate::wire::same_bytes;

verus! {

// ---------------------------------------------------------------------------
// How many votes are needed
// ---------------------------------------------------------------------------

/// The number of faulty nodes that is reckoned with in a network of `nodes`
/// nodes, all of them counted: `(nodes - 1) / 3`, at least one.
pub open spec fn fault_bound(nodes: nat) -> nat {
    if (nodes - 1) / 3 > 1 {
        ((nodes - 1) / 3) as nat
    } else {
        1
    }
}

/// How many nodes the leader knows of, where its registry holds `registered`
/// peers: those and itself.
pub open spec fn nodes_of_leader(registered: nat) -> nat {
    registered + 1
}

/// How many nodes a peer knows of, where its registry holds `registered` other
/// peers: those, the leader and itself.
pub open spec fn nodes_of_peer(registered: nat) -> nat {
    registered + 2
}

/// The votes that decide a stage: two for each faulty node and one more.
pub open spec fn quorum_of(faulty: nat) -> nat {
    2 * faulty + 1
}

/// The number of faulty nodes that the leader reckons with.
pub fn leader_faulty(registered: usize) -> (faulty: u32)
    ensures
        faulty == fault_bound(nodes_of_leader(registered as nat)) as u32,
{
    let third: usize = registered / 3;
    if third > 1 {
        third as u32
    } else {
        1
    }
}

/// The number of faulty nodes that a peer reckons with.
pub fn peer_faulty(registered: usize) -> (faulty: u32)
    ensures
        faulty == fault_bound(nodes_of_peer(registered as nat)) as u32,
{
    let third: usize = if registered % 3 == 2 {
        registered / 3 + 1
    } else {
        registered / 3
    };
    if third > 1 {
        third as u32
    } else {
        1
    }
}

/// In a network of `n` nodes, at least four, a quorum is `2 ((n - 1) / 3) + 1`
/// votes.
pub proof fn quorum_formula(nodes: nat)
    requires
        nodes >= 4,
    ensures
        quorum_of(fault_bound(nodes)) == 2 * ((nodes - 1) / 3) + 1,
{
}

/// In a network of a leader and some peers that all know one another, the
/// leader and every peer reckon with the same number of faulty nodes.
pub proof fn nodes_reckon_alike(peers: nat)
    requires
        peers >= 1,
    ensures
        fault_bound(nodes_of_leader(peers)) == fault_bound(nodes_of_peer((peers - 1) as nat)),
{
}

/// In a network of at least three nodes a quorum can be gathered.
pub proof fn quorum_is_within_reach(nodes: nat)
    requires
        nodes >= 3,
    ensures
        quorum_of(fault_bound(nodes)) <= nodes,
{
}

/// In a network of at least four nodes a quorum can be gathered though all
/// faulty nodes keep silent.
pub proof fn quorum_survives_faults(nodes: nat)
    requires
        nodes >= 4,
    ensures
        quorum_of(fault_bound(nodes)) <= nodes - fault_bound(nodes),
{
}

/// In a network of `3f + 1` nodes any two quorums share more nodes than can be
/// faulty, so that an honest node is among them.
pub proof fn quorums_share_an_honest_node<N>(nodes: Set<N>, left: Set<N>, right: Set<N>, faulty: nat)
    requires
        nodes.finite(),
        nodes.len() == 3 * faulty + 1,
        left.subset_of(nodes),
        right.subset_of(nodes),
        left.len() >= quorum_of(faulty),
        right.len() >= quorum_of(faulty),
    ensures
        left.intersect(right).len() > faulty,
{
    vstd::set_lib::lemma_set_subset_finite(nodes, left);
    vstd::set_lib::lemma_set_subset_finite(nodes, right);
    vstd::set_lib::lemma_set_intersect_union_lens(left, right);
    vstd::set_lib::lemma_len_subset(left.union(right), nodes);
}

// ---------------------------------------------------------------------------
// Whose votes are counted
// ---------------------------------------------------------------------------

/// How many public keys one set can hold.
pub const SET_CAPACITY: usize = 16;

/// Some public keys of nodes whose votes were counted, in the fixed-capacity
/// hash set of the crate `heapless`.
#[verifier::external_body]
pub struct VoterSet {
    keys: FnvIndexSet<[u8; 32], 16>,
}

/// The public keys that the set holds.
pub uninterp spec fn voter_keys(voters: VoterSet) -> Set<Seq<u8>>;

/// Calls `FnvIndexSet::new`, which makes a set that holds nothing.
#[verifier::external_body]
fn no_voters() -> (voters: VoterSet)
    ensures
        voter_keys(voters) == Set::<Seq<u8>>::empty(),
{
    VoterSet { keys: FnvIndexSet::new() }
}

/// Calls `FnvIndexSet::contains`, which tells whether the set holds a key.
#[verifier::external_body]
fn holds_voter(voters: &VoterSet, key: &[u8; 32]) -> (held: bool)
    ensures
        held == voter_keys(*voters).contains(key@),
{
    voters.keys.contains(key)
}

/// Calls `FnvIndexSet::insert`, which adds a key while there is room for one.
#[verifier::external_body]
fn add_voter(voters: &mut VoterSet, key: [u8; 32])
    requires
        voter_keys(*old(voters)).finite(),
        voter_keys(*old(voters)).len() < SET_CAPACITY,
    ensures
        voter_keys(*final(voters)) == voter_keys(*old(voters)).insert(key@),
{
    voters.keys.insert(key).unwrap();
}

/// The public keys of all nodes whose votes were counted. As many sets are used
/// as it takes to hold them.
pub struct Voters {
    sets: Vec<VoterSet>,
    /// How many keys the last set can still take.
    room: usize,
}

impl View for Voters {
    type V = Set<Seq<u8>>;

    closed spec fn view(&self) -> Set<Seq<u8>> {
        Set::new(|key: Seq<u8>| exists|i: int| #[trigger] self.holds_at(i, key))
    }
}

impl Voters {
    /// Whether the set at an index holds a key.
    spec fn holds_at(&self, index: int, key: Seq<u8>) -> bool {
        0 <= index < self.sets@.len() && voter_keys(self.sets@[index]).contains(key)
    }

    /// The last set has the room that it is said to have.
    pub closed spec fn well_formed(&self) -> bool {
        self.room > 0 ==> {
            &&& self.sets@.len() > 0
            &&& voter_keys(self.sets@.last()).finite()
            &&& voter_keys(self.sets@.last()).len() + self.room <= SET_CAPACITY
        }
    }

    /// Nobody's vote was counted.
    fn new() -> (voters: Voters)
        ensures
            voters.well_formed(),
            voters@ == Set::<Seq<u8>>::empty(),
    {
        let voters = Voters { sets: Vec::new(), room: 0 };
        assert(voters@ =~= Set::empty());
        voters
    }

    /// Whether the vote of the node with the key was counted.
    fn contains(&self, key: &[u8; 32]) -> (held: bool)
        ensures
            held == self@.contains(key@),
    {
        let mut i: usize = 0;
        while i < self.sets.len()
            invariant
                i <= self.sets@.len(),
                forall|k: int| 0 <= k < i ==> !(#[trigger] self.holds_at(k, key@)),
            decreases self.sets.len() - i,
        {
            if holds_voter(&self.sets[i], key) {
                assert(self.holds_at(i as int, key@));
                return true;
            }
            i += 1;
        }
        false
    }

    /// Adds the key of a node whose vote is counted.
    fn insert(&mut self, key: [u8; 32])
        requires
            old(self).well_formed(),
        ensures
            final(self).well_formed(),
            final(self)@ == old(self)@.insert(key@),
    {
        let mut last = if self.room == 0 {
            self.room = SET_CAPACITY;
            no_voters()
        } else {
            self.sets.pop().unwrap()
        };
        let ghost others = self.sets@;
        let ghost before = voter_keys(last);
        add_voter(&mut last, key);
        self.sets.push(last);
        self.room = self.room - 1;
        proof {
            let at = others.len() as int;
            assert forall|k: Seq<u8>| self@.contains(k) == old(self)@.insert(key@).contains(k) by {
                if old(self)@.contains(k) {
                    let i = choose|i: int| #[trigger] old(self).holds_at(i, k);
                    assert(self.holds_at(i, k));
                }
                if k == key@ {
                    assert(self.holds_at(at, k));
                }
                if self@.contains(k) && k != key@ {
                    let i = choose|i: int| #[trigger] self.holds_at(i, k);
                    if i == at {
                        assert(before.contains(k));
                    }
                    assert(old(self).holds_at(i, k));
                }
            }
            assert(self@ =~= old(self)@.insert(key@));
        }
    }
}

// ---------------------------------------------------------------------------
// Waiting for a quorum
// ---------------------------------------------------------------------------

/// A node that waits for the votes of one stage.
pub struct QuorumWait {
    /// The name of the stage.
    pub stage: Vec<u8>,
    /// How many votes decide the stage.
    pub quorum: u32,
    /// The count of votes before the first was received.
    pub start: u32,
    /// The count of votes.
    pub counter: u32,
    /// Whether the transaction is the next in the node's sequence.
    pub in_sequence: bool,
    /// Whose votes were counted.
    pub voters: Voters,
}

/// The state of a wait.
#[verifier::ext_equal]
pub struct QuorumState {
    pub stage: Seq<u8>,
    pub quorum: nat,
    pub start: nat,
    pub counter: nat,
    pub in_sequence: bool,
    pub voters: Set<Seq<u8>>,
}

/// What one received message did to a wait.
#[derive(Clone, Copy, Debug, PartialEq, Eq, Structural)]
pub enum QuorumStep {
    /// More votes are needed.
    Waiting,
    /// Enough votes are there.
    Reached,
    /// No more votes can come.
    Closed,
}

/// Whether a message is a vote for a stage by a node.
pub open spec fn votes_for(message: Message, stage: Seq<u8>, voter: Seq<u8>) -> bool {
    message matches Message::Vote { stage: voted, voter: by, .. } && voted == stage && by == voter
}

impl QuorumState {
    /// The state in which a wait begins.
    pub open spec fn begin(stage: Seq<u8>, counters: (u32, u32), start: nat, quorum: nat) -> QuorumState {
        QuorumState {
            stage,
            quorum,
            start,
            counter: start,
            in_sequence: counters.0 == counters.1,
            voters: Set::empty(),
        }
    }

    /// Each vote that was counted has its voter.
    pub open spec fn well_formed(self) -> bool {
        &&& self.voters.finite()
        &&& self.counter == self.start + self.voters.len()
        &&& self.counter <= u32::MAX
    }

    /// Whether a message is a vote for the stage by a node that has none
    /// counted.
    pub open spec fn new_vote(self, message: Message) -> bool {
        message matches Message::Vote { stage, voter, .. } && stage == self.stage && !self.voters.contains(voter)
    }

    /// Whether a message adds to the count.
    pub open spec fn counts(self, message: Message) -> bool {
        self.new_vote(message) && self.in_sequence
    }

    /// Whether a vote that adds to the count still can: the count is a number
    /// of 32 bits.
    pub open spec fn has_room(self, message: Message) -> bool {
        self.counts(message) ==> self.counter < u32::MAX
    }

    /// The state after the vote of a node for the stage was counted, if it is to
    /// be.
    pub open spec fn count(self, voter: Seq<u8>) -> QuorumState {
        if self.in_sequence && !self.voters.contains(voter) {
            QuorumState { counter: self.counter + 1, voters: self.voters.insert(voter), ..self }
        } else {
            self
        }
    }

    /// The state after a message.
    pub open spec fn receive(self, message: Message) -> QuorumState {
        match message {
            Message::Vote { stage, voter, .. } => if stage == self.stage {
                self.count(voter)
            } else {
                self
            },
            Message::Consensus(_) => self,
        }
    }

    /// Whether the message decides the stage.
    pub open spec fn decided_by(self, message: Message) -> bool {
        self.new_vote(message) && self.receive(message).counter >= self.quorum
    }

    /// What the message does to the wait.
    pub open spec fn step(self, message: Message) -> QuorumStep {
        if self.decided_by(message) {
            QuorumStep::Reached
        } else {
            QuorumStep::Waiting
        }
    }

    /// The state after some messages, in their order.
    pub open spec fn receive_all(self, messages: Seq<Message>) -> QuorumState
        decreases messages.len(),
    {
        if messages.len() == 0 {
            self
        } else {
            self.receive_all(messages.drop_last()).receive(messages.last())
        }
    }
}

impl View for QuorumWait {
    type V = QuorumState;

    open spec fn view(&self) -> QuorumState {
        QuorumState {
            stage: self.stage@,
            quorum: self.quorum as nat,
            start: self.start as nat,
            counter: self.counter as nat,
            in_sequence: self.in_sequence,
            voters: self.voters@,
        }
    }
}

impl QuorumWait {
    /// Each vote that was counted has its voter.
    pub open spec fn well_formed(&self) -> bool {
        self@.well_formed() && self.voters.well_formed()
    }

    /// Begins to wait for the votes of a stage, with `quorum_counter` votes
    /// counted already. Votes count only if the two sequence counters agree.
    pub fn begin(sequence_counters: (u32, u32), quorum_counter: u32, faulty: u32, stage: &str) -> (wait: QuorumWait)
        requires
            2 * faulty + 1 <= u32::MAX,
        ensures
            wait.well_formed(),
            wait@ == QuorumState::begin(
                wire::text(stage),
                sequence_counters,
                quorum_counter as nat,
                quorum_of(faulty as nat),
            ),
    {
        QuorumWait {
            stage: slice_to_vec(stage.as_bytes()),
            quorum: 2 * faulty + 1,
            start: quorum_counter,
            counter: quorum_counter,
            in_sequence: sequence_counters.0 == sequence_counters.1,
            voters: Voters::new(),
        }
    }

    /// Counts the vote of a node for the stage, if it is to be counted.
    pub fn count(&mut self, pubkey: &[u8; 32])
        requires
            old(self).well_formed(),
            old(self).counter < u32::MAX,
        ensures
            final(self).well_formed(),
            final(self)@ == old(self)@.count(pubkey@),
    {
        if self.in_sequence && !self.voters.contains(pubkey) {
            self.counter = self.counter + 1;
            self.voters.insert(*pubkey);
        }
    }

    /// Whether a message can be received: a vote that adds to the count must not
    /// exhaust the counter.
    pub fn can_receive(&self, request: &ActorRequest) -> (can: bool)
        requires
            self.well_formed(),
        ensures
            can == self@.has_room(request@),
    {
        match request {
            ActorRequest::PeerVote { vote_type, pubkey, .. } => {
                let counts = same_bytes(vote_type.as_slice(), self.stage.as_slice()) && !self.voters.contains(pubkey)
                    && self.in_sequence;
                !counts || self.counter < u32::MAX
            },
            ActorRequest::ConsensusRequest { .. } => true,
        }
    }
}

/// Takes the next message, or the end of all messages, while a node waits for
/// a quorum. A vote is counted if it is for the stage, its voter has none
/// counted yet, and the sequence counters agree.
pub fn wait_for_quorum(wait: &mut QuorumWait, received: Option<&ActorRequest>) -> (step: QuorumStep)
    requires
        old(wait).well_formed(),
        received matches Some(request) ==> old(wait)@.has_room(request@),
    ensures
        final(wait).well_formed(),
        match received {
            Some(request) => final(wait)@ == old(wait)@.receive(request@) && step == old(wait)@.step(request@),
            None => final(wait)@ == old(wait)@ && step == QuorumStep::Closed,
        },
{
    match received {
        None => QuorumStep::Closed,
        Some(ActorRequest::ConsensusRequest { .. }) => QuorumStep::Waiting,
        Some(ActorRequest::PeerVote { vote_type, pubkey, .. }) => {
            if !same_bytes(vote_type.as_slice(), wait.stage.as_slice()) {
                return QuorumStep::Waiting;
            }
            if wait.voters.contains(pubkey) {
                return QuorumStep::Waiting;
            }
            if wait.in_sequence {
                wait.count(pubkey);
            }
            if wait.counter >= wait.quorum {
                QuorumStep::Reached
            } else {
                QuorumStep::Waiting
            }
        },
    }
}

/// What a peer knows of the leader while it waits.
#[derive(Clone, Copy, Debug, PartialEq, Eq, Structural)]
pub struct ViewChange {
    /// Whether the leader has responded.
    pub leader_response: bool,
    /// Whether the time for its response is up.
    pub tick: bool,
}

/// What a waiting peer is told.
pub enum PeerEvent<'a> {
    /// The next message, or that none can come.
    Received(Option<&'a ActorRequest>),
    /// The time for the leader's response has passed.
    Tick,
}

/// Takes the next event while a peer waits for a quorum and watches the leader:
/// messages are counted as in `wait_for_quorum`, and if the time is up before
/// the leader has responded, that is noted.
pub fn peer_wait_for_quorum(wait: &mut QuorumWait, view_change: &mut ViewChange, event: PeerEvent) -> (step:
    QuorumStep)
    requires
        old(wait).well_formed(),
        event matches PeerEvent::Received(Some(request)) ==> old(wait)@.has_room(request@),
    ensures
        final(wait).well_formed(),
        match event {
            PeerEvent::Received(Some(request)) => {
                &&& final(wait)@ == old(wait)@.receive(request@)
                &&& step == old(wait)@.step(request@)
                &&& *final(view_change) == *old(view_change)
            },
            PeerEvent::Received(None) => {
                &&& final(wait)@ == old(wait)@
                &&& step == QuorumStep::Closed
                &&& *final(view_change) == *old(view_change)
            },
            PeerEvent::Tick => {
                &&& final(wait)@ == old(wait)@
                &&& step == QuorumStep::Waiting
                &&& final(view_change).leader_response == old(view_change).leader_response
                &&& final(view_change).tick == (old(view_change).tick || !old(view_change).leader_response)
            },
        },
{
    match event {
        PeerEvent::Received(received) => wait_for_quorum(wait, received),
        PeerEvent::Tick => {
            if !view_change.leader_response {
                view_change.tick = true;
            }
            QuorumStep::Waiting
        },
    }
}

// ---------------------------------------------------------------------------
// What holds of every wait
// ---------------------------------------------------------------------------

/// A second vote of a node for the stage changes nothing, whatever its
/// signature.
pub proof fn second_vote_changes_nothing(state: QuorumState, first: Message, second: Message, voter: Seq<u8>)
    requires
        votes_for(first, state.stage, voter),
        votes_for(second, state.stage, voter),
    ensures
        state.receive(first).receive(second) == state.receive(first),
{
}

/// Where the sequence counters differ, nothing is ever counted.
pub proof fn nothing_counts_out_of_sequence(state: QuorumState, messages: Seq<Message>)
    requires
        !state.in_sequence,
    ensures
        state.receive_all(messages) == state,
    decreases messages.len(),
{
    if messages.len() > 0 {
        nothing_counts_out_of_sequence(state, messages.drop_last());
    }
}

/// The nodes that voted for a stage in some messages.
pub open spec fn voters_in(messages: Seq<Message>, stage: Seq<u8>) -> Set<Seq<u8>> {
    Set::new(|voter: Seq<u8>| exists|i: int| 0 <= i < messages.len() && votes_for(#[trigger] messages[i], stage, voter))
}

/// In sequence, the voters that were counted are those that voted for the
/// stage, and the count grew by their number: by one for each, however often
/// it voted and in whatever order.
pub proof fn each_voter_counts_once(state: QuorumState, messages: Seq<Message>)
    requires
        state.in_sequence,
        state.voters == Set::<Seq<u8>>::empty(),
        state.counter == state.start,
    ensures
        state.receive_all(messages).voters == voters_in(messages, state.stage),
        state.receive_all(messages).voters.finite(),
        state.receive_all(messages).counter == state.start + voters_in(messages, state.stage).len(),
        state.receive_all(messages).stage == state.stage,
        state.receive_all(messages).quorum == state.quorum,
        state.receive_all(messages).start == state.start,
        state.receive_all(messages).in_sequence,
    decreases messages.len(),
{
    let stage = state.stage;
    if messages.len() == 0 {
        assert(voters_in(messages, stage) =~= Set::empty());
    } else {
        let earlier = messages.drop_last();
        let last = messages.last();
        each_voter_counts_once(state, earlier);
        let before = state.receive_all(earlier);
        let after = before.receive(last);
        assert forall|voter: Seq<u8>| voters_in(messages, stage).contains(voter) implies after.voters.contains(
            voter,
        ) by {
            let i = choose|i: int| 0 <= i < messages.len() && votes_for(#[trigger] messages[i], stage, voter);
            if i < earlier.len() {
                assert(votes_for(earlier[i], stage, voter));
                assert(voters_in(earlier, stage).contains(voter));
            }
        }
        assert forall|voter: Seq<u8>| after.voters.contains(voter) implies voters_in(messages, stage).contains(
            voter,
        ) by {
            if before.voters.contains(voter) {
                let i = choose|i: int| 0 <= i < earlier.len() && votes_for(#[trigger] earlier[i], stage, voter);
                assert(votes_for(messages[i], stage, voter));
            } else {
                assert(votes_for(messages[messages.len() - 1], stage, voter));
            }
        }
        assert(after.voters =~= voters_in(messages, stage));
    }
}

/// A wait that began with no votes is decided by a new vote exactly if, with
/// it, as many different nodes have voted for the stage as the quorum asks for.
pub proof fn decided_by_distinct_voters(state: QuorumState, messages: Seq<Message>, last: Message)
    requires
        state.in_sequence,
        state.voters == Set::<Seq<u8>>::empty(),
        state.counter == 0,
        state.start == 0,
        state.receive_all(messages).new_vote(last),
    ensures
        state.receive_all(messages).decided_by(last) <==> voters_in(messages.push(last), state.stage).len()
            >= state.quorum,
{
    each_voter_counts_once(state, messages);
    each_voter_counts_once(state, messages.push(last));
    assert(messages.push(last).drop_last() =~= messages);
}

/// While a wait is undecided, there is room for the next voter.
pub proof fn undecided_wait_has_room(state: QuorumState, message: Message)
    requires
        state.well_formed(),
        state.counter < state.quorum,
        state.quorum <= u32::MAX,
    ensures
        state.has_room(message),
{
}

// ---------------------------------------------------------------------------
// What is counted
// ---------------------------------------------------------------------------

/// As many faulty nodes are reckoned with as a network can bear: `f` of them
/// need `3f + 1` nodes, and one more would need more than there are. With fewer
/// than four nodes one is reckoned with.
pub proof fn as_many_faults_as_can_be_borne(nodes: nat)
    ensures
        nodes >= 4 ==> 3 * fault_bound(nodes) + 1 <= nodes < 3 * (fault_bound(nodes) + 1) + 1,
        nodes < 4 ==> fault_bound(nodes) == 1,
{
}

/// All nodes are counted: the leader counts itself along with its registry, and
/// a peer counts itself and the leader along with its registry.
pub proof fn every_node_is_counted(registered: nat)
    ensures
        registered >= 3 ==> 3 * fault_bound(nodes_of_leader(registered)) <= registered < 3 * (fault_bound(
            nodes_of_leader(registered),
        ) + 1),
        registered >= 2 ==> 3 * fault_bound(nodes_of_peer(registered)) <= registered + 1 < 3 * (fault_bound(
            nodes_of_peer(registered),
        ) + 1),
        registered < 3 ==> fault_bound(nodes_of_leader(registered)) == 1,
        registered < 2 ==> fault_bound(nodes_of_peer(registered)) == 1,
{
}

/// A quorum is just large enough that the faulty nodes cannot make up half of
/// it.
pub proof fn quorum_outvotes_the_faulty(faulty: nat)
    ensures
        quorum_of(faulty) > 2 * faulty,
        quorum_of(faulty) - 1 <= 2 * faulty,
{
}

/// A wait begins with what was counted before and with no voters, and votes
/// count in it exactly if the sequence counters agree.
pub proof fn waits_begin_afresh(stage: Seq<u8>, counters: (u32, u32), start: nat, quorum: nat)
    ensures
        ({
            let state = QuorumState::begin(stage, counters, start, quorum);
            &&& state.stage == stage
            &&& state.quorum == quorum
            &&& state.start == start
            &&& state.counter == start
            &&& state.voters == Set::<Seq<u8>>::empty()
            &&& state.in_sequence <==> counters.0 == counters.1
        }),
{
}

/// What one vote does to a wait: if it is for the stage, in sequence, its voter
/// is among those that were counted, and the count has grown by one if it was
/// not before. It decides the stage exactly if it is for the stage, by a voter
/// that was not counted before, and the count is then a quorum.
pub proof fn what_a_vote_does(state: QuorumState, stage: Seq<u8>, signature: Seq<u8>, voter: Seq<u8>)
    ensures
        ({
            let vote = Message::Vote { stage, signature, voter };
            let after = state.receive(vote);
            let fresh = stage == state.stage && !state.voters.contains(voter);
            &&& after.stage == state.stage
            &&& after.quorum == state.quorum
            &&& after.start == state.start
            &&& after.in_sequence == state.in_sequence
            &&& state.in_sequence && stage == state.stage ==> after.voters == state.voters.insert(voter)
            &&& !state.in_sequence || stage != state.stage ==> after.voters == state.voters
            &&& state.in_sequence && fresh ==> after.counter == state.counter + 1
            &&& !state.in_sequence || !fresh ==> after.counter == state.counter
            &&& state.step(vote) == QuorumStep::Reached <==> fresh && after.counter >= state.quorum
            &&& state.step(vote) == QuorumStep::Waiting <==> !(fresh && after.counter >= state.quorum)
            &&& state.decided_by(vote) <==> state.step(vote) == QuorumStep::Reached
            &&& state.has_room(vote) <==> !(state.in_sequence && fresh && state.counter >= u32::MAX)
        }),
{
    if state.voters.contains(voter) {
        assert(state.voters.insert(voter) =~= state.voters);
    }
}

/// A consensus request does nothing to a wait.
pub proof fn requests_are_not_counted(state: QuorumState, proposal: Proposal)
    ensures
        state.receive(Message::Consensus(proposal)) == state,
        state.step(Message::Consensus(proposal)) == QuorumStep::Waiting,
        !state.decided_by(Message::Consensus(proposal)),
        state.has_room(Message::Consensus(proposal)),
{
}

/// Counting a vote of a node by itself is the same as receiving one for the
/// stage.
pub proof fn counted_as_received(state: QuorumState, signature: Seq<u8>, voter: Seq<u8>)
    ensures
        state.count(voter) == state.receive(Message::Vote { stage: state.stage, signature, voter }),
{
}

/// Messages are received one after the other.
pub proof fn received_one_by_one(state: QuorumState, messages: Seq<Message>, last: Message)
    ensures
        state.receive_all(Seq::empty()) == state,
        state.receive_all(messages.push(last)) == state.receive_all(messages).receive(last),
{
    assert(messages.push(last).drop_last() =~= messages);
}

/// A message is a vote of a node for a stage exactly if it names both.
pub proof fn votes_name_stage_and_voter(message: Message, stage: Seq<u8>, voter: Seq<u8>)
    ensures
        message is Consensus ==> !votes_for(message, stage, voter),
        message matches Message::Vote { stage: named, voter: by, .. } ==> (votes_for(message, stage, voter) <==> named
            == stage && by == voter),
{
}

/// The state of a wait is what its fields hold.
pub proof fn wait_says(wait: QuorumWait)
    ensures
        wait@.stage == wait.stage@,
        wait@.quorum == wait.quorum,
        wait@.start == wait.start,
        wait@.counter == wait.counter,
        wait@.in_sequence == wait.in_sequence,
        wait@.voters == wait.voters@,
        wait.well_formed() ==> wait.counter == wait.start + wait.voters@.len(),
{
}

} // verus!
