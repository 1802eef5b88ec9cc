//! The transition function of a machine with a single tape.

pub mod transition;

use vstd::prelude::*;
use crate::turing_machine::tape_function::transition::Transition;

verus! {

/// The mathematical model of a transition function: the transition of each
/// pair of a state and a symbol that has one.
pub type FunctionView = Map<(usize, char), Transition>;

/// The map that a sequence of transitions stands for, each filed under its
/// own state and symbol.
spec fn transitions_map(entries: Seq<Transition>) -> FunctionView
    decreases entries.len(),
{
    if entries.len() == 0 {
        Map::empty()
    } else {
        transitions_map(entries.drop_last()).insert(entries.last().key(), entries.last())
    }
}

/// No two transitions of `entries` have the same state and symbol.
spec fn distinct_keys(entries: Seq<Transition>) -> bool {
    forall|a: int, b: int|
        0 <= a < b < entries.len() ==> (#[trigger] entries[a]).key() != (#[trigger] entries[b]).key()
}

/// A key that no transition has is not in the map.
proof fn lemma_absent(entries: Seq<Transition>, key: (usize, char))
    requires
        forall|i: int| 0 <= i < entries.len() ==> (#[trigger] entries[i]).key() != key,
    ensures
        !transitions_map(entries).dom().contains(key),
    decreases entries.len(),
{
    if entries.len() > 0 {
        let front = entries.drop_last();
        assert forall|i: int| 0 <= i < front.len() implies (#[trigger] front[i]).key() != key by {
            assert(front[i] == entries[i]);
        }
        lemma_absent(front, key);
        assert(entries.last() == entries[entries.len() - 1]);
    }
}

/// Where no key occurs twice, the map holds each transition under its key.
proof fn lemma_present(entries: Seq<Transition>, i: int)
    requires
        0 <= i < entries.len(),
        distinct_keys(entries),
    ensures
        transitions_map(entries).dom().contains(entries[i].key()),
        transitions_map(entries)[entries[i].key()] == entries[i],
    decreases entries.len(),
{
    let front = entries.drop_last();
    assert(entries.last() == entries[entries.len() - 1]);
    if i < entries.len() - 1 {
        assert forall|a: int, b: int| 0 <= a < b < front.len() implies (#[trigger] front[a]).key()
            != (#[trigger] front[b]).key() by {
            assert(front[a] == entries[a]);
            assert(front[b] == entries[b]);
        }
        lemma_present(front, i);
        assert(front[i] == entries[i]);
        assert(entries[i].key() != entries[entries.len() - 1].key());
    }
}

/// Putting a transition in the place of one with the same key is inserting
/// it into the map.
proof fn lemma_replace(entries: Seq<Transition>, i: int, tr: Transition)
    requires
        0 <= i < entries.len(),
        distinct_keys(entries),
        entries[i].key() == tr.key(),
    ensures
        distinct_keys(entries.update(i, tr)),
        transitions_map(entries.update(i, tr)) == transitions_map(entries).insert(tr.key(), tr),
    decreases entries.len(),
{
    let changed = entries.update(i, tr);
    let front = entries.drop_last();
    assert(entries.last() == entries[entries.len() - 1]);
    assert(changed.last() == changed[entries.len() - 1]);
    assert forall|a: int, b: int| 0 <= a < b < changed.len() implies (#[trigger] changed[a]).key()
        != (#[trigger] changed[b]).key() by {
        assert(changed[a].key() == entries[a].key());
        assert(changed[b].key() == entries[b].key());
    }
    if i == entries.len() - 1 {
        assert(changed.drop_last() =~= front);
        assert(transitions_map(changed) =~= transitions_map(entries).insert(tr.key(), tr));
    } else {
        assert forall|a: int, b: int| 0 <= a < b < front.len() implies (#[trigger] front[a]).key()
            != (#[trigger] front[b]).key() by {
            assert(front[a] == entries[a]);
            assert(front[b] == entries[b]);
        }
        assert(front[i] == entries[i]);
        lemma_replace(front, i, tr);
        assert(changed.drop_last() =~= front.update(i, tr));
        assert(entries[i].key() != entries[entries.len() - 1].key());
        assert(transitions_map(changed) =~= transitions_map(entries).insert(tr.key(), tr));
    }
}

/// The transition function of a single-tape machine: at most one transition
/// for each pair of a state and a symbol read.
#[derive(Debug)]
pub struct TapeFunction {
    func: Vec<Transition>,
}

impl View for TapeFunction {
    type V = FunctionView;

    closed spec fn view(&self) -> FunctionView {
        transitions_map(self.func@)
    }
}

impl TapeFunction {
    /// No pair of a state and a symbol is stored twice.
    pub closed spec fn wf(&self) -> bool {
        distinct_keys(self.func@)
    }

    /// A transition function without transitions.
    pub fn new() -> (f: TapeFunction)
        ensures
            f.wf(),
            f@ == FunctionView::empty(),
    {
        TapeFunction { func: Vec::new() }
    }

    /// The index of the transition for `state` and `sym`, if there is one.
    fn position(&self, state: usize, sym: char) -> (r: Option<usize>)
        ensures
            match r {
                Some(i) => i < self.func@.len() && self.func@[i as int].key() == (state, sym),
                None => forall|i: int|
                    0 <= i < self.func@.len() ==> (#[trigger] self.func@[i]).key() != (state, sym),
            },
    {
        let mut i: usize = 0;
        while i < self.func.len()
            invariant
                0 <= i <= self.func@.len(),
                forall|j: int| 0 <= j < i ==> (#[trigger] self.func@[j]).key() != (state, sym),
            decreases self.func@.len() - i,
        {
            let parts = self.func[i].get();
            if parts.0 == state && parts.1 == sym {
                return Some(i);
            }
            i = i + 1;
        }
        None
    }

    /// Files `tr` under its state and the symbol it reads, in the place of
    /// the transition that was filed there, and gives that one back.
    pub fn add(&mut self, tr: Transition) -> (r: Option<Transition>)
        requires
            old(self).wf(),
        ensures
            final(self).wf(),
            final(self)@ == old(self)@.insert(tr.key(), tr),
            r == if old(self)@.dom().contains(tr.key()) {
                Some(old(self)@[tr.key()])
            } else {
                None
            },
    {
        let parts = tr.get();
        match self.position(parts.0, parts.1) {
            Some(i) => {
                proof {
                    lemma_present(self.func@, i as int);
                    lemma_replace(self.func@, i as int, tr);
                }
                let previous = self.func[i];
                self.func[i] = tr;
                Some(previous)
            },
            None => {
                proof {
                    lemma_absent(self.func@, tr.key());
                }
                self.func.push(tr);
                assert(self.func@.drop_last() == old(self).func@);
                None
            },
        }
    }

    /// The transition for `state` and the symbol `sym`, if there is one.
    pub fn get(&self, state: usize, sym: char) -> (r: Option<&Transition>)
        requires
            self.wf(),
        ensures
            r is Some <==> self@.dom().contains((state, sym)),
            r matches Some(t) ==> *t == self@[(state, sym)] && t.key() == (state, sym),
    {
        match self.position(state, sym) {
            Some(i) => {
                proof {
                    lemma_present(self.func@, i as int);
                }
                Some(&self.func[i])
            },
            None => {
                proof {
                    lemma_absent(self.func@, (state, sym));
                }
                None
            },
        }
    }
}

impl Default for TapeFunction {
    fn default() -> (f: TapeFunction)
        ensures
            f.wf(),
            f@ == FunctionView::empty(),
    {
        TapeFunction::new()
    }
}

impl Clone for TapeFunction {
    fn clone(&self) -> (f: TapeFunction)
        ensures
            self.wf() ==> f.wf(),
            f@ == self@,
    {
        let func = self.func.clone();
        assert(func@ =~= self.func@);
        TapeFunction { func }
    }
}

} // verus!
