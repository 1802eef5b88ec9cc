//! The machine: its tapes, its transitions and the engine that runs them.

pub mod record;
pub mod table;
pub mod tape;
pub mod tape_function;
pub mod transition;

use std::collections::HashSet;
use vstd::prelude::*;
use crate::error::Error;
use crate::turing_machine::table::{TableView, TransitionTable};
use crate::turing_machine::tape::{Tape, TapeView};
use crate::turing_machine::transition::{Transition, TransitionView};

verus! {

broadcast use vstd::std_specs::hash::group_hash_axioms;

/// The number of transitions that a run may apply unless the machine is told
/// otherwise.
pub const MAX_STEP: usize = 500;

/// A configuration of a running machine: its state and its tapes.
pub struct Config {
    pub state: usize,
    pub tapes: Seq<TapeView>,
}

/// The symbols under the heads of `tapes`, in tape order.
pub open spec fn reads_of(tapes: Seq<TapeView>) -> Seq<char> {
    Seq::new(tapes.len(), |i: int| tapes[i].read())
}

/// The tapes after each took its part of `t`: the symbol is written first,
/// then the head moves. No tape sees what happens on another.
pub open spec fn updated(tapes: Seq<TapeView>, t: TransitionView) -> Seq<TapeView> {
    Seq::new(tapes.len(), |i: int| tapes[i].write(t.write[i]).mov(t.direction[i]))
}

impl Config {
    /// Every tape is well-formed.
    pub open spec fn wf(self) -> bool {
        forall|i: int| 0 <= i < self.tapes.len() ==> (#[trigger] self.tapes[i]).wf()
    }

    /// The symbols under the heads, in tape order.
    pub open spec fn reads(self) -> Seq<char> {
        reads_of(self.tapes)
    }

    /// The configuration after the transition `t` was applied.
    pub open spec fn apply(self, t: TransitionView) -> Config {
        Config { state: t.next, tapes: updated(self.tapes, t) }
    }
}

/// The mathematical model of a machine.
pub struct MachineView {
    pub initial: usize,
    pub ntapes: usize,
    pub table: TableView,
    pub acceptance: Set<usize>,
    pub max_steps: usize,
}

impl MachineView {
    /// There is a tape, and the table is one for the machine's number of
    /// tapes.
    pub open spec fn wf(self) -> bool {
        &&& self.ntapes >= 1
        &&& TransitionTable::fits(self.table, self.ntapes)
    }

    /// The configuration that a run on `input` starts from: the initial
    /// state, `input` on the first tape, every other tape blank.
    pub open spec fn start(self, input: Seq<char>) -> Config {
        Config {
            state: self.initial,
            tapes: Seq::new(
                self.ntapes as nat,
                |i: int|
                    if i == 0 {
                        TapeView::loaded(input)
                    } else {
                        TapeView::blank()
                    },
            ),
        }
    }

    /// Whether no transition leaves the configuration `c`.
    pub open spec fn halted(self, c: Config) -> bool {
        !self.table.dom().contains((c.state, c.reads()))
    }

    /// The configuration that follows `c`; a halted one stays as it is.
    pub open spec fn step(self, c: Config) -> Config {
        if self.halted(c) {
            c
        } else {
            c.apply(self.table[(c.state, c.reads())])
        }
    }

    /// The configuration reached from `c` by `n` steps, or by as many as
    /// lead to a halted one.
    pub open spec fn after(self, c: Config, n: nat) -> Config
        decreases n,
    {
        if n == 0 {
            c
        } else {
            self.step(self.after(c, (n - 1) as nat))
        }
    }

    /// The number of transitions that the machine applies from `c` when it
    /// may apply `bound` at most.
    pub open spec fn steps_from(self, c: Config, bound: nat) -> nat
        decreases bound,
    {
        if bound == 0 || self.halted(c) {
            0
        } else {
            1 + self.steps_from(self.step(c), (bound - 1) as nat)
        }
    }

    /// The verdict of a run on `input`: whether the state in which the
    /// machine halts is an accepting one, or the failure that the machine has
    /// not halted when `max_steps` transitions were applied.
    pub open spec fn run(self, input: Seq<char>) -> Result<bool, Error> {
        let end = self.after(self.start(input), self.max_steps as nat);
        if self.halted(end) {
            Ok(self.acceptance.contains(end.state))
        } else {
            Err(Error::MaxStepsReached)
        }
    }

    /// The number of transitions that a run on `input` applies.
    pub open spec fn steps(self, input: Seq<char>) -> nat {
        self.steps_from(self.start(input), self.max_steps as nat)
    }

    /// A run starts with one well-formed tape for each tape of the machine.
    pub proof fn lemma_start_wf(self, input: Seq<char>)
        ensures
            self.start(input).wf(),
            self.start(input).tapes.len() == self.ntapes,
            self.start(input).state == self.initial,
    {
        TapeView::lemma_loaded(input);
        TapeView::lemma_loaded(Seq::empty());
    }

    /// A step keeps the number of tapes and keeps every tape well-formed:
    /// the cell under each head is stored before it is read.
    pub proof fn lemma_step_wf(self, c: Config)
        requires
            self.wf(),
            c.wf(),
            c.tapes.len() == self.ntapes,
        ensures
            self.step(c).wf(),
            self.step(c).tapes.len() == self.ntapes,
    {
        if !self.halted(c) {
            let t = self.table[(c.state, c.reads())];
            assert(self.table.dom().contains((c.state, c.reads())));
            assert forall|i: int| 0 <= i < self.step(c).tapes.len() implies (
            #[trigger] self.step(c).tapes[i]).wf() by {
                c.tapes[i].lemma_write(t.write[i]);
                c.tapes[i].write(t.write[i]).lemma_mov(t.direction[i]);
            }
        }
    }

    /// Every configuration of a run has one well-formed tape for each tape
    /// of the machine.
    pub proof fn lemma_after_wf(self, c: Config, n: nat)
        requires
            self.wf(),
            c.wf(),
            c.tapes.len() == self.ntapes,
        ensures
            self.after(c, n).wf(),
            self.after(c, n).tapes.len() == self.ntapes,
        decreases n,
    {
        if n > 0 {
            self.lemma_after_wf(c, (n - 1) as nat);
            self.lemma_step_wf(self.after(c, (n - 1) as nat));
        }
    }

    /// Once the machine has halted, further steps change nothing.
    pub proof fn lemma_halted_stays(self, c: Config, k: nat, n: nat)
        requires
            k <= n,
            self.halted(self.after(c, k)),
        ensures
            self.after(c, n) == self.after(c, k),
        decreases n,
    {
        if k < n {
            self.lemma_halted_stays(c, k, (n - 1) as nat);
        }
    }

    /// Taking one step first and `n` after it is taking `n + 1` steps.
    pub proof fn lemma_after_shift(self, c: Config, n: nat)
        ensures
            self.after(self.step(c), n) == self.after(c, n + 1),
        decreases n,
    {
        if n == 0 {
            assert(self.after(c, 0) == c);
            assert(self.after(c, 1) == self.step(self.after(c, 0)));
        } else {
            self.lemma_after_shift(c, (n - 1) as nat);
            assert(self.after(c, n + 1) == self.step(self.after(c, n)));
        }
    }

    /// A run applies no more transitions than the bound allows.
    pub proof fn lemma_steps_bounded(self, c: Config, bound: nat)
        ensures
            self.steps_from(c, bound) <= bound,
        decreases bound,
    {
        if bound > 0 && !self.halted(c) {
            self.lemma_steps_bounded(self.step(c), (bound - 1) as nat);
        }
    }

    /// A run ends in one of two ways. Either the machine halts after the
    /// transitions that the run applies, no more than `max_steps`, and the
    /// verdict is whether the state reached is an accepting one. Or the run
    /// has applied `max_steps` transitions, the machine has not halted, and
    /// the run fails with `MaxStepsReached`.
    pub proof fn lemma_run_bounded(self, input: Seq<char>)
        ensures
            self.steps(input) <= self.max_steps,
            self.run(input) is Ok ==> {
                let end = self.after(self.start(input), self.steps(input));
                &&& self.halted(end)
                &&& self.run(input) == Ok::<bool, Error>(self.acceptance.contains(end.state))
            },
            self.run(input) is Err ==> {
                &&& self.run(input) == Err::<bool, Error>(Error::MaxStepsReached)
                &&& self.steps(input) == self.max_steps
                &&& !self.halted(self.after(self.start(input), self.max_steps as nat))
            },
    {
        let start = self.start(input);
        let bound = self.max_steps as nat;
        self.lemma_steps_bounded(start, bound);
        let k = self.first_halt(start, bound);
        self.lemma_first_halt(start, bound);
        self.lemma_steps_count(start, bound, k);
        if self.halted(self.after(start, k)) {
            self.lemma_halted_stays(start, k, bound);
        }
    }

    /// A machine that has no transition for its first configuration is
    /// judged at once: the verdict is whether the initial state is an
    /// accepting one, and no transition is applied.
    pub proof fn lemma_halted_at_start(self, input: Seq<char>)
        requires
            self.halted(self.start(input)),
        ensures
            self.run(input) == Ok::<bool, Error>(self.acceptance.contains(self.initial)),
            self.steps(input) == 0,
    {
        let start = self.start(input);
        assert(self.after(start, 0) == start);
        self.lemma_halted_stays(start, 0, self.max_steps as nat);
    }

    /// The number of steps after which the machine has halted for the first
    /// time, or `bound` where it has not halted before.
    pub open spec fn first_halt(self, c: Config, bound: nat) -> nat
        decreases bound,
    {
        if bound == 0 {
            0
        } else {
            let before = self.first_halt(c, (bound - 1) as nat);
            if self.halted(self.after(c, before)) {
                before
            } else {
                bound
            }
        }
    }

    /// Before `first_halt` steps the machine has not halted; after them it
    /// has, unless the bound was reached.
    pub proof fn lemma_first_halt(self, c: Config, bound: nat)
        ensures
            self.first_halt(c, bound) <= bound,
            forall|j: nat|
                j < self.first_halt(c, bound) ==> !self.halted(#[trigger] self.after(c, j)),
            self.first_halt(c, bound) == bound || self.halted(
                self.after(c, self.first_halt(c, bound)),
            ),
        decreases bound,
    {
        if bound > 0 {
            self.lemma_first_halt(c, (bound - 1) as nat);
        }
    }

    /// The machine applies `k` transitions where it has not halted before
    /// the `k`-th step and then either has halted or has used up the bound.
    pub proof fn lemma_steps_count(self, c: Config, bound: nat, k: nat)
        requires
            k <= bound,
            forall|j: nat| j < k ==> !self.halted(#[trigger] self.after(c, j)),
            k == bound || self.halted(self.after(c, k)),
        ensures
            self.steps_from(c, bound) == k,
        decreases bound,
    {
        if k == 0 {
        } else {
            assert(!self.halted(self.after(c, 0)));
            let next = self.step(c);
            assert forall|j: nat| j < k - 1 implies !self.halted(
                #[trigger] self.after(next, j),
            ) by {
                self.lemma_after_shift(c, j);
                assert(!self.halted(self.after(c, j + 1)));
            }
            self.lemma_after_shift(c, (k - 1) as nat);
            self.lemma_steps_count(next, (bound - 1) as nat, (k - 1) as nat);
        }
    }
}

/// The models of the tapes in `tapes`, in order.
pub open spec fn tape_views(tapes: Seq<Tape>) -> Seq<TapeView> {
    Seq::new(tapes.len(), |i: int| tapes[i]@)
}

/// Every tape in `tapes` is well-formed.
pub open spec fn tapes_wf(tapes: Seq<Tape>) -> bool {
    forall|i: int| 0 <= i < tapes.len() ==> (#[trigger] tapes[i]).wf()
}

/// A deterministic Turing machine with one or more tapes.
///
/// The machine holds its definition only. Each run has tapes of its own.
#[derive(Debug)]
pub struct TuringMachine {
    initial: usize,
    table: TransitionTable,
    acceptance: HashSet<usize>,
    max_steps: usize,
}

impl View for TuringMachine {
    type V = MachineView;

    closed spec fn view(&self) -> MachineView {
        MachineView {
            initial: self.initial,
            ntapes: self.table.tape_count(),
            table: self.table@,
            acceptance: self.acceptance@,
            max_steps: self.max_steps,
        }
    }
}

/// A set with the members of `set`.
fn copy_set(set: &HashSet<usize>) -> (r: HashSet<usize>)
    ensures
        r@ == set@,
{
    let mut r: HashSet<usize> = HashSet::new();
    for x in it: set.iter()
        invariant
            it.seq().unref().to_set() == set@,
            forall|v: usize| r@.contains(v) ==> set@.contains(v),
            forall|j: int| 0 <= j < it.index() ==> r@.contains(#[trigger] it.seq().unref()[j]),
    {
        assert(it.seq().unref()[it.index() as int] == *x);
        assert(it.seq().unref().contains(*x));
        r.insert(*x);
    }
    r
}

/// The symbols under the heads of `tapes`, in tape order.
fn read_tapes(tapes: &Vec<Tape>) -> (r: Vec<char>)
    requires
        tapes_wf(tapes@),
    ensures
        r@ == reads_of(tape_views(tapes@)),
{
    let mut r: Vec<char> = Vec::new();
    let mut i: usize = 0;
    while i < tapes.len()
        invariant
            0 <= i <= tapes@.len(),
            tapes_wf(tapes@),
            r@.len() == i,
            forall|j: int| 0 <= j < i ==> r@[j] == (#[trigger] tapes@[j])@.read(),
        decreases tapes@.len() - i,
    {
        r.push(tapes[i].read());
        i = i + 1;
    }
    assert(r@ =~= reads_of(tape_views(tapes@)));
    r
}

/// Lets every tape take its part of `tr`: the symbol is written first, then
/// the head moves.
fn update_tapes(tapes: &mut Vec<Tape>, tr: &Transition)
    requires
        tapes_wf(old(tapes)@),
        tr.wf(),
        tr@.len() == old(tapes)@.len(),
    ensures
        tapes_wf(final(tapes)@),
        tape_views(final(tapes)@) == updated(tape_views(old(tapes)@), tr@),
{
    proof {
        tr.lemma_view_wf();
    }
    let write = tr.write_slice();
    let direction = tr.move_slice();
    let n: usize = tapes.len();
    let mut i: usize = 0;
    while i < n
        invariant
            0 <= i <= n,
            n == tapes@.len(),
            n == old(tapes)@.len(),
            write@ == tr@.write,
            direction@ == tr@.direction,
            write@.len() == n,
            direction@.len() == n,
            tapes_wf(tapes@),
            forall|j: int|
                0 <= j < i ==> (#[trigger] tapes@[j])@ == old(tapes)@[j]@.write(write@[j]).mov(
                    direction@[j],
                ),
            forall|j: int| i <= j < n ==> (#[trigger] tapes@[j]) == old(tapes)@[j],
        decreases n - i,
    {
        let symbol: char = write[i];
        let dir = direction[i];
        tapes[i].write(symbol);
        tapes[i].mov(dir);
        i = i + 1;
    }
    assert(tape_views(tapes@) =~= updated(tape_views(old(tapes)@), tr@));
}

impl TuringMachine {
    /// The table is well-formed and the machine has a tape.
    pub closed spec fn wf(&self) -> bool {
        &&& self.table.wf()
        &&& self.table.tape_count() >= 1
    }

    /// The model of a well-formed machine is well-formed.
    pub proof fn lemma_view_wf(&self)
        requires
            self.wf(),
        ensures
            self@.wf(),
    {
        self.table.lemma_view_fits();
    }

    /// A machine with `ntapes` tapes that starts in `initial` and accepts in
    /// the states of `accept`. It has no transition yet, and a run may apply
    /// `MAX_STEP` transitions. A machine needs one tape at least.
    pub fn new(initial: usize, ntapes: usize, accept: &HashSet<usize>) -> (r: Result<
        TuringMachine,
        Error,
    >)
        ensures
            ntapes == 0 ==> r == Err::<TuringMachine, Error>(Error::TapeErrorCount),
            ntapes >= 1 ==> r is Ok && r->Ok_0.wf() && r->Ok_0@ == (MachineView {
                initial,
                ntapes,
                table: TableView::empty(),
                acceptance: accept@,
                max_steps: MAX_STEP,
            }),
    {
        if ntapes == 0 {
            Err(Error::TapeErrorCount)
        } else {
            Ok(
                TuringMachine {
                    initial,
                    table: TransitionTable::new(ntapes),
                    acceptance: copy_set(accept),
                    max_steps: MAX_STEP,
                },
            )
        }
    }

    /// The number of transitions that a run may apply.
    pub fn max_steps(&self) -> (n: usize)
        ensures
            n == self@.max_steps,
    {
        self.max_steps
    }

    /// Lets a run apply `bound` transitions at most.
    pub fn set_max_steps(&mut self, bound: usize)
        ensures
            old(self).wf() ==> final(self).wf(),
            final(self)@ == (MachineView { max_steps: bound, ..old(self)@ }),
    {
        self.max_steps = bound;
    }

    /// Adds `tr` as the transition that the machine takes in `state` when it
    /// reads `read`.
    ///
    /// The vectors of `tr` and `read` must have one entry per tape, and the
    /// machine must not have a transition for `state` and `read` yet.
    /// Otherwise the machine stays as it is.
    pub fn insert_transition(&mut self, state: usize, read: &[char], tr: &Transition) -> (r:
        Result<(), Error>)
        requires
            old(self).wf(),
            tr.wf(),
        ensures
            final(self).wf(),
            r == TransitionTable::insert_result(
                old(self)@.table,
                old(self)@.ntapes,
                state,
                read@,
                tr@,
            ),
            final(self)@ == (MachineView {
                table: TransitionTable::insert_into(
                    old(self)@.table,
                    old(self)@.ntapes,
                    state,
                    read@,
                    tr@,
                ),
                ..old(self)@
            }),
    {
        self.table.insert(state, read, tr)
    }

    /// Takes one step from the state `current` on `tapes`, if a transition
    /// leaves that configuration, and says whether one did.
    fn step(&self, current: &mut usize, tapes: &mut Vec<Tape>) -> (applied: bool)
        requires
            self.wf(),
            tapes_wf(old(tapes)@),
            old(tapes)@.len() == self@.ntapes,
        ensures
            tapes_wf(final(tapes)@),
            final(tapes)@.len() == self@.ntapes,
            applied == !self@.halted(Config { state: *old(current), tapes: tape_views(old(tapes)@) }),
            (Config { state: *final(current), tapes: tape_views(final(tapes)@) }) == self@.step(
                Config { state: *old(current), tapes: tape_views(old(tapes)@) },
            ),
    {
        let ghost before = Config { state: *current, tapes: tape_views(tapes@) };
        let readed = read_tapes(tapes);
        assert(readed@ == before.reads());
        proof {
            self.table.lemma_view_fits();
        }
        match self.table.lookup(*current, readed.as_slice()) {
            Some(tr) => {
                *current = tr.next();
                update_tapes(tapes, tr);
                assert(tape_views(tapes@).len() == self@.ntapes);
                true
            },
            None => {
                assert(tape_views(tapes@) =~= before.tapes);
                false
            },
        }
    }

    /// Whether no transition leaves the state `current` with `tapes`.
    fn halted(&self, current: usize, tapes: &Vec<Tape>) -> (r: bool)
        requires
            self.wf(),
            tapes_wf(tapes@),
        ensures
            r == self@.halted(Config { state: current, tapes: tape_views(tapes@) }),
    {
        let readed = read_tapes(tapes);
        self.table.lookup(current, readed.as_slice()).is_none()
    }

    /// Runs the machine on the string `s` and gives its verdict together
    /// with the number of transitions that were applied.
    ///
    /// The verdict tells whether the state in which the machine halted is an
    /// accepting one. A machine that has not halted when `max_steps`
    /// transitions were applied gives `MaxStepsReached`.
    pub fn run_counted(&self, s: &str) -> (r: (Result<bool, Error>, usize))
        requires
            self.wf(),
        ensures
            r.0 == self@.run(s@),
            r.1 == self@.steps(s@),
            r.1 <= self@.max_steps,
    {
        let mut tapes: Vec<Tape> = Vec::new();
        tapes.push(Tape::from_string(s));
        let ntapes: usize = self.table.ntapes();
        while tapes.len() < ntapes
            invariant
                1 <= tapes@.len() <= ntapes,
                tapes_wf(tapes@),
                tapes@[0]@ == TapeView::loaded(s@),
                forall|i: int| 1 <= i < tapes@.len() ==> (#[trigger] tapes@[i])@ == TapeView::blank(),
            decreases ntapes - tapes@.len(),
        {
            tapes.push(Tape::new());
        }
        let ghost start = self@.start(s@);
        assert(tape_views(tapes@) =~= start.tapes);
        let mut current: usize = self.initial;
        let mut counter: usize = 0;
        loop
            invariant
                self.wf(),
                ntapes == self@.ntapes,
                start == self@.start(s@),
                tapes_wf(tapes@),
                tapes@.len() == ntapes,
                counter <= self@.max_steps,
                (Config { state: current, tapes: tape_views(tapes@) }) == self@.after(
                    start,
                    counter as nat,
                ),
                forall|j: nat| j < counter ==> !self@.halted(#[trigger] self@.after(start, j)),
            decreases self@.max_steps - counter,
        {
            if counter >= self.max_steps {
                proof {
                    self@.lemma_steps_count(start, self@.max_steps as nat, counter as nat);
                }
                if self.halted(current, &tapes) {
                    return (Ok(self.acceptance.contains(&current)), counter);
                } else {
                    return (Err(Error::MaxStepsReached), counter);
                }
            }
            let applied = self.step(&mut current, &mut tapes);
            if !applied {
                proof {
                    self@.lemma_halted_stays(start, counter as nat, self@.max_steps as nat);
                    self@.lemma_steps_count(start, self@.max_steps as nat, counter as nat);
                }
                return (Ok(self.acceptance.contains(&current)), counter);
            }
            counter = counter + 1;
        }
    }

    /// Runs the machine on the string `s`.
    ///
    /// The verdict tells whether the state in which the machine halted is an
    /// accepting one. A machine that has not halted when `max_steps`
    /// transitions were applied gives `MaxStepsReached`.
    pub fn run(&self, s: &str) -> (r: Result<bool, Error>)
        requires
            self.wf(),
        ensures
            r == self@.run(s@),
    {
        self.run_counted(s).0
    }
}

impl Clone for TuringMachine {
    fn clone(&self) -> (m: TuringMachine)
        ensures
            self.wf() ==> m.wf(),
            m@ == self@,
    {
        TuringMachine {
            initial: self.initial,
            table: self.table.clone(),
            acceptance: copy_set(&self.acceptance),
            max_steps: self.max_steps,
        }
    }
}

} // verus!
