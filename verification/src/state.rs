//! The state that the network agrees on, and the log it came from.

use vstd::prelude::*;
use vstd::slice::slice_to_vec;

use crate::packet::{Proposal, Transaction};
use crate::wire::same_bytes;

verus! {

/// A key and the value last written to it.
#[derive(Debug)]
pub struct StoredValue {
    pub key: Vec<u8>,
    pub value: Vec<u8>,
}

/// Keeps the log of committed transactions and the state they lead to.
#[derive(Debug)]
pub struct StateManager {
    entries: Vec<StoredValue>,
    log: Vec<Transaction>,
}

/// The state after the transactions of a log, in their order: each key has the
/// value that was written to it last.
pub open spec fn replay(log: Seq<Proposal>) -> Map<Seq<u8>, Seq<u8>>
    decreases log.len(),
{
    if log.len() == 0 {
        Map::empty()
    } else {
        replay(log.drop_last()).insert(log.last().key, log.last().value)
    }
}

impl StateManager {
    /// The value of each key.
    pub closed spec fn state(&self) -> Map<Seq<u8>, Seq<u8>> {
        Map::new(
            |key: Seq<u8>| exists|i: int| #[trigger] self.holds_at(i, key),
            |key: Seq<u8>| self.entries@[choose|i: int| #[trigger] self.holds_at(i, key)].value@,
        )
    }

    /// The committed transactions, the first first.
    pub closed spec fn committed(&self) -> Seq<Proposal> {
        self.log@.map_values(|transaction: Transaction| transaction@)
    }

    /// Whether the entry at an index is for a key.
    spec fn holds_at(&self, index: int, key: Seq<u8>) -> bool {
        0 <= index < self.entries@.len() && self.entries@[index].key@ == key
    }

    /// No key has two entries.
    spec fn one_entry_per_key(&self) -> bool {
        forall|i: int, j: int, key: Seq<u8>| #[trigger]
            self.holds_at(i, key) && #[trigger] self.holds_at(j, key) ==> i == j
    }

    /// An entry gives the value of its key.
    proof fn entry_is_state(&self, index: int, key: Seq<u8>)
        requires
            self.one_entry_per_key(),
            self.holds_at(index, key),
        ensures
            self.state().dom().contains(key),
            self.state()[key] == self.entries@[index].value@,
    {
        let chosen = choose|i: int| #[trigger] self.holds_at(i, key);
        assert(self.holds_at(chosen, key));
    }

    /// No key has two entries, and the state is what the log leads to.
    pub closed spec fn well_formed(&self) -> bool {
        &&& self.one_entry_per_key()
        &&& self.state() == replay(self.committed())
    }

    /// The state before any transaction.
    pub fn new() -> (manager: StateManager)
        ensures
            manager.well_formed(),
            manager.state() == Map::<Seq<u8>, Seq<u8>>::empty(),
            manager.committed() == Seq::<Proposal>::empty(),
    {
        let manager = StateManager { entries: Vec::new(), log: Vec::new() };
        assert(manager.state() =~= Map::empty());
        assert(manager.committed() =~= Seq::empty());
        manager
    }

    /// Where the entry for a key is, if there is one.
    fn find(&self, key: &[u8]) -> (found: Option<usize>)
        ensures
            match found {
                Some(index) => self.holds_at(index as int, key@),
                None => forall|i: int| !(#[trigger] self.holds_at(i, key@)),
            },
    {
        let mut i: usize = 0;
        while i < self.entries.len()
            invariant
                i <= self.entries@.len(),
                forall|k: int| 0 <= k < i ==> !(#[trigger] self.holds_at(k, key@)),
            decreases self.entries.len() - i,
        {
            if same_bytes(self.entries[i].key.as_slice(), key) {
                assert(self.holds_at(i as int, key@));
                return Some(i);
            }
            i += 1;
        }
        None
    }

    /// The value of a key, if one was written.
    pub fn get(&self, key: &[u8]) -> (value: Option<&Vec<u8>>)
        requires
            self.well_formed(),
        ensures
            match value {
                Some(value) => self.state().dom().contains(key@) && self.state()[key@] == value@,
                None => !self.state().dom().contains(key@),
            },
    {
        match self.find(key) {
            Some(index) => {
                proof {
                    self.entry_is_state(index as int, key@);
                }
                Some(&self.entries[index].value)
            },
            None => None,
        }
    }

    /// Writes the value of a committed transaction to its key and appends the
    /// transaction to the log.
    pub fn commit(&mut self, transaction: Transaction)
        requires
            old(self).well_formed(),
        ensures
            final(self).well_formed(),
            final(self).state() == old(self).state().insert(transaction@.key, transaction@.value),
            final(self).committed() == old(self).committed().push(transaction@),
    {
        let entry = StoredValue {
            key: slice_to_vec(transaction.key.as_slice()),
            value: slice_to_vec(transaction.value.as_slice()),
        };
        let ghost proposal = transaction@;
        let found = self.find(transaction.key.as_slice());
        let ghost at: int = match found {
            Some(index) => index as int,
            None => self.entries@.len() as int,
        };
        match found {
            Some(index) => {
                self.entries.set(index, entry);
            },
            None => {
                self.entries.push(entry);
            },
        }
        self.log.push(transaction);
        proof {
            assert(self.holds_at(at, proposal.key));
            assert forall|i: int, key: Seq<u8>| #[trigger] self.holds_at(i, key) implies old(self).holds_at(i, key) || (
            i == at && key == proposal.key) by {
            }
            assert forall|i: int, key: Seq<u8>| #[trigger] old(self).holds_at(i, key) implies self.holds_at(i, key) by {
                if found is Some && i == at {
                    assert(old(self).holds_at(at, proposal.key));
                }
            }
            assert(self.one_entry_per_key()) by {
                assert forall|i: int, j: int, key: Seq<u8>| #[trigger]
                    self.holds_at(i, key) && #[trigger] self.holds_at(j, key) implies i == j by {
                    if found is Some {
                        assert(old(self).holds_at(at, proposal.key));
                        assert(old(self).holds_at(i, key) && old(self).holds_at(j, key));
                    } else if key == proposal.key {
                        assert(!old(self).holds_at(i, key) && !old(self).holds_at(j, key));
                    }
                }
            }
            let before = old(self).state();
            let after = before.insert(proposal.key, proposal.value);
            assert forall|key: Seq<u8>| self.state().dom().contains(key) == after.dom().contains(key) by {
                if before.dom().contains(key) {
                    let i = choose|i: int| #[trigger] old(self).holds_at(i, key);
                    assert(self.holds_at(i, key));
                }
            }
            assert forall|key: Seq<u8>| after.dom().contains(key) implies self.state()[key] == after[key] by {
                if key == proposal.key {
                    self.entry_is_state(at, key);
                } else {
                    let i = choose|i: int| #[trigger] old(self).holds_at(i, key);
                    old(self).entry_is_state(i, key);
                    self.entry_is_state(i, key);
                }
            }
            assert(self.state() =~= after);
            assert(self.committed() =~= old(self).committed().push(proposal));
            assert(self.committed().drop_last() =~= old(self).committed());
        }
    }

    /// How many transactions were committed.
    pub fn committed_count(&self) -> (count: usize)
        ensures
            count == self.committed().len(),
    {
        self.log.len()
    }

    /// The transaction at a place in the log.
    pub fn committed_at(&self, index: usize) -> (transaction: &Transaction)
        requires
            index < self.committed().len(),
        ensures
            transaction@ == self.committed()[index as int],
    {
        &self.log[index]
    }
}

/// Nodes that committed the same transactions in the same order have the same
/// state.
pub proof fn same_log_same_state(left: StateManager, right: StateManager)
    requires
        left.well_formed(),
        right.well_formed(),
        left.committed() == right.committed(),
    ensures
        left.state() == right.state(),
{
}

/// The state is what the log leads to.
pub proof fn state_is_replayed_log(manager: StateManager)
    requires
        manager.well_formed(),
    ensures
        manager.state() == replay(manager.committed()),
{
}

/// Whether some transaction of a log writes to a key.
pub open spec fn writes_to(log: Seq<Proposal>, key: Seq<u8>) -> bool {
    exists|i: int| 0 <= i < log.len() && (#[trigger] log[i]).key == key
}

/// A key has a value exactly if some transaction of the log wrote to it.
pub proof fn written_keys_have_values(log: Seq<Proposal>, key: Seq<u8>)
    ensures
        replay(log).dom().contains(key) <==> writes_to(log, key),
    decreases log.len(),
{
    if log.len() > 0 {
        let earlier = log.drop_last();
        let last = log.len() - 1;
        written_keys_have_values(earlier, key);
        if writes_to(earlier, key) {
            let i = choose|i: int| 0 <= i < earlier.len() && (#[trigger] earlier[i]).key == key;
            assert(log[i].key == key);
        }
        if writes_to(log, key) && log[last].key != key {
            let i = choose|i: int| 0 <= i < log.len() && (#[trigger] log[i]).key == key;
            assert(earlier[i].key == key);
        }
        assert(log[last] == log.last());
    }
}

/// The value of a key is that of the last transaction that wrote to it.
pub proof fn last_write_wins(log: Seq<Proposal>, index: int)
    requires
        0 <= index < log.len(),
        !writes_to(log.skip(index + 1), log[index].key),
    ensures
        replay(log).dom().contains(log[index].key),
        replay(log)[log[index].key] == log[index].value,
    decreases log.len(),
{
    let key = log[index].key;
    let last = log.len() - 1;
    if index < last {
        let earlier = log.drop_last();
        assert(log.skip(index + 1)[last - index - 1] == log[last]);
        if writes_to(earlier.skip(index + 1), key) {
            let later = earlier.skip(index + 1);
            let i = choose|i: int| 0 <= i < later.len() && (#[trigger] later[i]).key == key;
            assert(log.skip(index + 1)[i].key == key);
        }
        last_write_wins(earlier, index);
    }
}

} // verus!
