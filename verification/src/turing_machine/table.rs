//! The transition table of a deterministic machine.
//!
//! The table maps a state and the symbols read on all tapes to the one
//! transition that the machine takes there.

use vstd::prelude::*;
use vstd::slice::slice_to_vec;
use crate::error::Error;
use crate::turing_machine::transition::{Transition, TransitionView};

verus! {

/// The mathematical model of a table: the transition of each pair of a state
/// and a vector of symbols read that has one.
pub type TableView = Map<(usize, Seq<char>), TransitionView>;

/// One stored transition with the state and the symbols read that lead to it.
#[derive(Debug)]
struct Entry {
    state: usize,
    read: Vec<char>,
    transition: Transition,
}

impl Entry {
    spec fn key(self) -> (usize, Seq<char>) {
        (self.state, self.read@)
    }
}

/// The map that a sequence of entries stands for.
spec fn entries_map(entries: Seq<Entry>) -> TableView
    decreases entries.len(),
{
    if entries.len() == 0 {
        Map::empty()
    } else {
        entries_map(entries.drop_last()).insert(entries.last().key(), entries.last().transition@)
    }
}

/// A key that no entry has is not in the map.
proof fn lemma_absent(entries: Seq<Entry>, key: (usize, Seq<char>))
    requires
        forall|i: int| 0 <= i < entries.len() ==> (#[trigger] entries[i]).key() != key,
    ensures
        !entries_map(entries).dom().contains(key),
    decreases entries.len(),
{
    if entries.len() > 0 {
        let front = entries.drop_last();
        assert forall|i: int| 0 <= i < front.len() implies (#[trigger] front[i]).key() != key by {
            assert(front[i] == entries[i]);
        }
        lemma_absent(front, key);
        assert(entries.last() == entries[entries.len() - 1]);
    }
}

/// Where no key occurs twice, the map holds the transition of each entry
/// under the entry's key.
proof fn lemma_present(entries: Seq<Entry>, i: int)
    requires
        0 <= i < entries.len(),
        forall|a: int, b: int|
            0 <= a < b < entries.len() ==> (#[trigger] entries[a]).key() != (
            #[trigger] entries[b]).key(),
    ensures
        entries_map(entries).dom().contains(entries[i].key()),
        entries_map(entries)[entries[i].key()] == entries[i].transition@,
    decreases entries.len(),
{
    let front = entries.drop_last();
    assert(entries.last() == entries[entries.len() - 1]);
    if i < entries.len() - 1 {
        assert forall|a: int, b: int| 0 <= a < b < front.len() implies (#[trigger] front[a]).key()
            != (#[trigger] front[b]).key() by {
            assert(front[a] == entries[a]);
            assert(front[b] == entries[b]);
        }
        lemma_present(front, i);
        assert(front[i] == entries[i]);
        assert(entries[i].key() != entries[entries.len() - 1].key());
    }
}

/// Two sequences of entries with the same keys and transitions, place by
/// place, stand for the same map.
proof fn lemma_same_entries(a: Seq<Entry>, b: Seq<Entry>)
    requires
        a.len() == b.len(),
        forall|i: int|
            0 <= i < a.len() ==> (#[trigger] a[i]).key() == b[i].key() && a[i].transition@
                == b[i].transition@,
    ensures
        entries_map(a) == entries_map(b),
    decreases a.len(),
{
    if a.len() > 0 {
        let a_front = a.drop_last();
        let b_front = b.drop_last();
        assert forall|i: int| 0 <= i < a_front.len() implies (#[trigger] a_front[i]).key()
            == b_front[i].key() && a_front[i].transition@ == b_front[i].transition@ by {
            assert(a_front[i] == a[i]);
            assert(b_front[i] == b[i]);
        }
        lemma_same_entries(a_front, b_front);
        assert(a.last() == a[a.len() - 1]);
        assert(b.last() == b[b.len() - 1]);
    }
}

/// A deterministic transition table for a fixed number of tapes.
#[derive(Debug)]
pub struct TransitionTable {
    ntapes: usize,
    entries: Vec<Entry>,
}

impl View for TransitionTable {
    type V = TableView;

    closed spec fn view(&self) -> TableView {
        entries_map(self.entries@)
    }
}

/// Whether the two slices hold the same symbols.
fn same_symbols(a: &[char], b: &[char]) -> (r: bool)
    ensures
        r == (a@ == b@),
{
    if a.len() != b.len() {
        return false;
    }
    let mut i: usize = 0;
    while i < a.len()
        invariant
            0 <= i <= a.len(),
            a.len() == b.len(),
            forall|j: int| 0 <= j < i ==> a@[j] == b@[j],
        decreases a.len() - i,
    {
        if a[i] != b[i] {
            return false;
        }
        i = i + 1;
    }
    assert(a@ =~= b@);
    true
}

impl TransitionTable {
    /// The number of tapes that the table is for.
    pub closed spec fn tape_count(&self) -> usize {
        self.ntapes
    }

    /// No key is stored twice, and every stored vector has one entry per
    /// tape.
    pub closed spec fn wf(&self) -> bool {
        &&& forall|a: int, b: int|
            0 <= a < b < self.entries@.len() ==> (#[trigger] self.entries@[a]).key() != (
            #[trigger] self.entries@[b]).key()
        &&& forall|i: int|
            0 <= i < self.entries@.len() ==> {
                &&& (#[trigger] self.entries@[i]).read@.len() == self.ntapes
                &&& self.entries@[i].transition.wf()
                &&& self.entries@[i].transition@.len() == self.ntapes
            }
    }

    /// Whether every key and every transition of `table` has one entry per
    /// tape, for `ntapes` tapes.
    pub open spec fn fits(table: TableView, ntapes: usize) -> bool {
        forall|k: (usize, Seq<char>)| #[trigger]
            table.dom().contains(k) ==> {
                &&& k.1.len() == ntapes
                &&& table[k].wf()
                &&& table[k].len() == ntapes
            }
    }

    /// The model of a well-formed table holds only keys and transitions for
    /// the table's number of tapes.
    pub proof fn lemma_view_fits(&self)
        requires
            self.wf(),
        ensures
            Self::fits(self@, self.tape_count()),
    {
        Self::lemma_entries_fit(self.entries@, self.ntapes);
    }

    proof fn lemma_entries_fit(entries: Seq<Entry>, ntapes: usize)
        requires
            forall|i: int|
                0 <= i < entries.len() ==> {
                    &&& (#[trigger] entries[i]).read@.len() == ntapes
                    &&& entries[i].transition.wf()
                    &&& entries[i].transition@.len() == ntapes
                },
        ensures
            Self::fits(entries_map(entries), ntapes),
        decreases entries.len(),
    {
        if entries.len() > 0 {
            let front = entries.drop_last();
            assert forall|i: int| 0 <= i < front.len() implies {
                &&& (#[trigger] front[i]).read@.len() == ntapes
                &&& front[i].transition.wf()
                &&& front[i].transition@.len() == ntapes
            } by {
                assert(front[i] == entries[i]);
            }
            Self::lemma_entries_fit(front, ntapes);
            let last = entries[entries.len() - 1];
            assert(entries.last() == last);
            last.transition.lemma_view_wf();
        }
    }

    /// An empty table for `ntapes` tapes.
    pub fn new(ntapes: usize) -> (t: TransitionTable)
        ensures
            t.wf(),
            t.tape_count() == ntapes,
            t@ == TableView::empty(),
    {
        TransitionTable { ntapes, entries: Vec::new() }
    }

    /// The number of tapes that the table is for.
    pub fn ntapes(&self) -> (n: usize)
        ensures
            n == self.tape_count(),
    {
        self.ntapes
    }

    /// The index of the entry for `state` and `read`, if there is one.
    fn position(&self, state: usize, read: &[char]) -> (r: Option<usize>)
        requires
            self.wf(),
        ensures
            match r {
                Some(i) => i < self.entries@.len() && self.entries@[i as int].key() == (
                    state,
                    read@,
                ),
                None => forall|i: int|
                    0 <= i < self.entries@.len() ==> (#[trigger] self.entries@[i]).key() != (
                        state,
                        read@,
                    ),
            },
    {
        let mut i: usize = 0;
        while i < self.entries.len()
            invariant
                0 <= i <= self.entries@.len(),
                forall|j: int|
                    0 <= j < i ==> (#[trigger] self.entries@[j]).key() != (state, read@),
            decreases self.entries@.len() - i,
        {
            if self.entries[i].state == state && same_symbols(
                self.entries[i].read.as_slice(),
                read,
            ) {
                return Some(i);
            }
            i = i + 1;
        }
        None
    }

    /// The transition for `state` and the symbols `read`, if the table has
    /// one.
    pub fn lookup(&self, state: usize, read: &[char]) -> (r: Option<&Transition>)
        requires
            self.wf(),
        ensures
            r is Some <==> self@.dom().contains((state, read@)),
            r matches Some(t) ==> t.wf() && t@ == self@[(state, read@)],
    {
        match self.position(state, read) {
            Some(i) => {
                proof {
                    lemma_present(self.entries@, i as int);
                }
                Some(&self.entries[i].transition)
            },
            None => {
                proof {
                    lemma_absent(self.entries@, (state, read@));
                }
                None
            },
        }
    }

    /// Stores `tr` as the transition for `state` and the symbols `read`.
    ///
    /// The vectors of `tr` and `read` must have one entry per tape, and the
    /// table must not hold a transition for `state` and `read` yet. Otherwise
    /// the table stays as it is.
    pub fn insert(&mut self, state: usize, read: &[char], tr: &Transition) -> (r: Result<
        (),
        Error,
    >)
        requires
            old(self).wf(),
            tr.wf(),
        ensures
            final(self).wf(),
            final(self).tape_count() == old(self).tape_count(),
            r == Self::insert_result(old(self)@, old(self).tape_count(), state, read@, tr@),
            final(self)@ == Self::insert_into(
                old(self)@,
                old(self).tape_count(),
                state,
                read@,
                tr@,
            ),
    {
        if tr.len() != self.ntapes {
            return Err(Error::UnmatchingSizes(self.ntapes, tr.len()));
        } else if read.len() != self.ntapes {
            return Err(Error::UnmatchingSizes(self.ntapes, read.len()));
        }
        match self.position(state, read) {
            Some(i) => {
                proof {
                    lemma_present(self.entries@, i as int);
                }
                Err(Error::Indeterminancy)
            },
            None => {
                proof {
                    lemma_absent(self.entries@, (state, read@));
                }
                let entry = Entry { state, read: slice_to_vec(read), transition: tr.clone() };
                self.entries.push(entry);
                assert(self.entries@.drop_last() == old(self).entries@);
                Ok(())
            },
        }
    }

    /// What `insert` answers on a table with the model `table` for `ntapes`
    /// tapes: the first of the three failures that applies, or success.
    pub open spec fn insert_result(
        table: TableView,
        ntapes: usize,
        state: usize,
        read: Seq<char>,
        tr: TransitionView,
    ) -> Result<(), Error> {
        if tr.len() != ntapes {
            Err(Error::UnmatchingSizes(ntapes, tr.len() as usize))
        } else if read.len() != ntapes {
            Err(Error::UnmatchingSizes(ntapes, read.len() as usize))
        } else if table.dom().contains((state, read)) {
            Err(Error::Indeterminancy)
        } else {
            Ok(())
        }
    }

    /// The table that `insert` leaves: the table with the new transition
    /// where `insert` succeeds, the table as it was where it fails.
    pub open spec fn insert_into(
        table: TableView,
        ntapes: usize,
        state: usize,
        read: Seq<char>,
        tr: TransitionView,
    ) -> TableView {
        if Self::insert_result(table, ntapes, state, read, tr) is Ok {
            table.insert((state, read), tr)
        } else {
            table
        }
    }

    /// A transition or a vector of symbols read that does not have one entry
    /// per tape is refused with the two lengths, and the table stays as it
    /// was: a key that had no transition has none afterwards.
    pub proof fn lemma_arity_enforced(
        table: TableView,
        ntapes: usize,
        state: usize,
        read: Seq<char>,
        tr: TransitionView,
    )
        requires
            tr.len() <= usize::MAX,
            read.len() <= usize::MAX,
            tr.len() != ntapes || read.len() != ntapes,
        ensures
            Self::insert_result(table, ntapes, state, read, tr) == Err::<(), Error>(
                Error::UnmatchingSizes(
                    ntapes,
                    if tr.len() != ntapes {
                        tr.len() as usize
                    } else {
                        read.len() as usize
                    },
                ),
            ),
            Self::insert_into(table, ntapes, state, read, tr) == table,
            !table.dom().contains((state, read)) ==> !Self::insert_into(
                table,
                ntapes,
                state,
                read,
                tr,
            ).dom().contains((state, read)),
    {
    }

    /// A second transition for a pair of state and symbols read is refused,
    /// as a second one wherever it has one entry per tape, and the table
    /// keeps the first one.
    pub proof fn lemma_no_overwrite(
        table: TableView,
        ntapes: usize,
        state: usize,
        read: Seq<char>,
        first: TransitionView,
        second: TransitionView,
    )
        requires
            Self::insert_result(table, ntapes, state, read, first) is Ok,
        ensures
            Self::insert_result(
                Self::insert_into(table, ntapes, state, read, first),
                ntapes,
                state,
                read,
                second,
            ) is Err,
            second.len() == ntapes ==> Self::insert_result(
                Self::insert_into(table, ntapes, state, read, first),
                ntapes,
                state,
                read,
                second,
            ) == Err::<(), Error>(Error::Indeterminancy),
            Self::insert_into(
                Self::insert_into(table, ntapes, state, read, first),
                ntapes,
                state,
                read,
                second,
            ) == Self::insert_into(table, ntapes, state, read, first),
            Self::insert_into(table, ntapes, state, read, first)[(state, read)] == first,
    {
    }

    /// Insertion keeps a table one for its number of tapes.
    pub proof fn lemma_insert_fits(
        table: TableView,
        ntapes: usize,
        state: usize,
        read: Seq<char>,
        tr: TransitionView,
    )
        requires
            Self::fits(table, ntapes),
            tr.wf(),
        ensures
            Self::fits(Self::insert_into(table, ntapes, state, read, tr), ntapes),
    {
    }

    /// The order of two insertions under different keys does not matter.
    pub proof fn lemma_insert_order(
        table: TableView,
        ntapes: usize,
        s1: usize,
        r1: Seq<char>,
        t1: TransitionView,
        s2: usize,
        r2: Seq<char>,
        t2: TransitionView,
    )
        requires
            (s1, r1) != (s2, r2),
        ensures
            Self::insert_into(Self::insert_into(table, ntapes, s1, r1, t1), ntapes, s2, r2, t2)
                == Self::insert_into(
                Self::insert_into(table, ntapes, s2, r2, t2),
                ntapes,
                s1,
                r1,
                t1,
            ),
    {
        let a = Self::insert_into(Self::insert_into(table, ntapes, s1, r1, t1), ntapes, s2, r2, t2);
        let b = Self::insert_into(Self::insert_into(table, ntapes, s2, r2, t2), ntapes, s1, r1, t1);
        assert(a =~= b);
    }
}

impl Clone for TransitionTable {
    fn clone(&self) -> (t: TransitionTable)
        ensures
            self.wf() ==> t.wf(),
            t.tape_count() == self.tape_count(),
            t@ == self@,
    {
        let mut entries: Vec<Entry> = Vec::new();
        let mut i: usize = 0;
        while i < self.entries.len()
            invariant
                0 <= i <= self.entries@.len(),
                entries@.len() == i,
                forall|j: int|
                    0 <= j < i ==> {
                        &&& (#[trigger] entries@[j]).key() == self.entries@[j].key()
                        &&& entries@[j].transition@ == self.entries@[j].transition@
                        &&& self.entries@[j].transition.wf() ==> entries@[j].transition.wf()
                    },
            decreases self.entries@.len() - i,
        {
            let entry = &self.entries[i];
            entries.push(
                Entry {
                    state: entry.state,
                    read: slice_to_vec(entry.read.as_slice()),
                    transition: entry.transition.clone(),
                },
            );
            i = i + 1;
        }
        proof {
            lemma_same_entries(entries@, self.entries@);
        }
        TransitionTable { ntapes: self.ntapes, entries }
    }
}

} // verus!
