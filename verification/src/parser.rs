//! From the description of a machine, as a document gives it, to the
//! machine.

use std::collections::HashSet;
use vstd::prelude::*;
use crate::error::{Error, ErrorView};
use crate::text::chars_of;
use crate::turing_machine::table::{TableView, TransitionTable};
use crate::turing_machine::tape::{BLANK, BLANK_REP};
use crate::turing_machine::transition::{Direction, Transition, TransitionView};
use crate::turing_machine::{MachineView, TuringMachine, MAX_STEP};

verus! {

broadcast use vstd::std_specs::hash::group_hash_axioms;

/// A transition as a description gives it, unchecked: the state it leaves,
/// the state it goes to, the symbols read and written as text with one
/// character per tape, and one word per tape for the directions.
#[derive(Debug)]
pub struct RawTransition {
    pub from: usize,
    pub next: usize,
    pub read: String,
    pub write: String,
    pub direction: Vec<String>,
}

/// A machine as a description gives it, unchecked.
#[derive(Debug)]
pub struct RawTuringMachine {
    pub ntapes: usize,
    pub accept: Vec<usize>,
    pub initial: usize,
    pub transition: Vec<RawTransition>,
}

/// The direction that `word` names, if it names one: `Left`, `Right` and
/// `Stop`, or their first letters.
pub open spec fn direction_of(word: Seq<char>) -> Option<Direction> {
    if word == "Left"@ || word == "L"@ {
        Some(Direction::Left)
    } else if word == "Right"@ || word == "R"@ {
        Some(Direction::Right)
    } else if word == "Stop"@ || word == "S"@ {
        Some(Direction::Stop)
    } else {
        None
    }
}

/// The symbols that `text` stands for: the blank where the text has the
/// blank's stand-in, the character itself everywhere else.
pub open spec fn symbols_of(text: Seq<char>) -> Seq<char> {
    Seq::new(
        text.len(),
        |i: int|
            if text[i] == BLANK_REP {
                BLANK
            } else {
                text[i]
            },
    )
}

/// The index of the first of `words` that names no direction, or the number
/// of words where each names one.
pub open spec fn first_unknown(words: Seq<String>) -> int
    decreases words.len(),
{
    if words.len() == 0 {
        0
    } else {
        let before = first_unknown(words.drop_last());
        if before < words.len() - 1 {
            before
        } else if direction_of(words.last()@) is None {
            words.len() - 1
        } else {
            words.len() as int
        }
    }
}

/// The directions that `words` name, where each names one.
pub open spec fn directions_of(words: Seq<String>) -> Seq<Direction> {
    Seq::new(words.len(), |i: int| direction_of(words[i]@)->Some_0)
}

/// The first unknown word is unknown, and every word before it names a
/// direction.
pub proof fn lemma_first_unknown(words: Seq<String>)
    ensures
        0 <= first_unknown(words) <= words.len(),
        forall|i: int|
            0 <= i < first_unknown(words) ==> direction_of((#[trigger] words[i])@) is Some,
        first_unknown(words) < words.len() ==> direction_of(words[first_unknown(words)]@) is None,
    decreases words.len(),
{
    if words.len() > 0 {
        let front = words.drop_last();
        lemma_first_unknown(front);
        assert forall|i: int| 0 <= i < first_unknown(words) implies direction_of(
            (#[trigger] words[i])@,
        ) is Some by {
            if i < front.len() {
                assert(front[i] == words[i]);
            }
        }
        if first_unknown(front) < front.len() {
            assert(front[first_unknown(front)] == words[first_unknown(front)]);
        }
    }
}

/// What a machine with the model `m` becomes when the transition `raw` is
/// added to it, or the first failure on the way: a word that names no
/// direction, then vectors to write and to move by that differ in length,
/// then what the insertion refuses.
pub open spec fn add_raw(m: MachineView, raw: RawTransition) -> Result<MachineView, ErrorView> {
    let k = first_unknown(raw.direction@);
    let write = symbols_of(raw.write@);
    let direction = directions_of(raw.direction@);
    let tr = TransitionView { write, direction, next: raw.next };
    let read = symbols_of(raw.read@);
    if k < raw.direction@.len() {
        Err(ErrorView::UnkownDirection(raw.direction@[k]@))
    } else if write.len() != direction.len() {
        Err(ErrorView::TransitionSizeUnmatch(direction.len() as usize, write.len() as usize))
    } else {
        match TransitionTable::insert_result(m.table, m.ntapes, raw.from, read, tr) {
            Err(e) => Err(e@),
            Ok(_) => Ok(
                MachineView {
                    table: TransitionTable::insert_into(m.table, m.ntapes, raw.from, read, tr),
                    ..m
                },
            ),
        }
    }
}

/// What a machine with the model `m` becomes when the transitions `raws`
/// are added to it in order, or the first failure.
pub open spec fn add_raws(m: MachineView, raws: Seq<RawTransition>) -> Result<
    MachineView,
    ErrorView,
>
    decreases raws.len(),
{
    if raws.len() == 0 {
        Ok(m)
    } else {
        match add_raw(m, raws[0]) {
            Err(e) => Err(e),
            Ok(next) => add_raws(next, raws.drop_first()),
        }
    }
}

/// The machine that the description `rtm` stands for, or the first failure:
/// no tape at all, or what one of the transitions, taken in order, fails
/// with.
pub open spec fn parsed(rtm: RawTuringMachine) -> Result<MachineView, ErrorView> {
    if rtm.ntapes == 0 {
        Err(ErrorView::TapeErrorCount)
    } else {
        add_raws(
            MachineView {
                initial: rtm.initial,
                ntapes: rtm.ntapes,
                table: TableView::empty(),
                acceptance: rtm.accept@.to_set(),
                max_steps: MAX_STEP,
            },
            rtm.transition@,
        )
    }
}

/// Whether the two strings hold the same characters.
fn same_text(a: &str, b: &str) -> (r: bool)
    ensures
        r == (a@ == b@),
{
    let x = chars_of(a);
    let y = chars_of(b);
    if x.len() != y.len() {
        return false;
    }
    let mut i: usize = 0;
    while i < x.len()
        invariant
            0 <= i <= x@.len(),
            x@ == a@,
            y@ == b@,
            x@.len() == y@.len(),
            forall|j: int| 0 <= j < i ==> x@[j] == y@[j],
        decreases x@.len() - i,
    {
        if x[i] != y[i] {
            return false;
        }
        i = i + 1;
    }
    assert(x@ =~= y@);
    true
}

/// The direction that the word `d` names.
pub fn convert_direction(d: &str) -> (r: Result<Direction, Error>)
    ensures
        match direction_of(d@) {
            Some(direction) => r == Ok::<Direction, Error>(direction),
            None => r is Err && r->Err_0@ == ErrorView::UnkownDirection(d@),
        },
{
    if same_text(d, "Left") || same_text(d, "L") {
        Ok(Direction::Left)
    } else if same_text(d, "Right") || same_text(d, "R") {
        Ok(Direction::Right)
    } else if same_text(d, "Stop") || same_text(d, "S") {
        Ok(Direction::Stop)
    } else {
        Err(Error::UnkownDirection(d.to_owned()))
    }
}

/// The directions that the words `dir` name, or the failure of the first
/// word that names none.
pub fn map_direction_vec(dir: &[String]) -> (r: Result<Vec<Direction>, Error>)
    ensures
        first_unknown(dir@) == dir@.len() ==> r is Ok && r->Ok_0@ == directions_of(dir@),
        first_unknown(dir@) < dir@.len() ==> r is Err && r->Err_0@ == ErrorView::UnkownDirection(
            dir@[first_unknown(dir@)]@,
        ),
{
    let mut vec: Vec<Direction> = Vec::new();
    let mut i: usize = 0;
    while i < dir.len()
        invariant
            0 <= i <= dir@.len(),
            vec@.len() == i,
            first_unknown(dir@.take(i as int)) == i,
            forall|j: int| 0 <= j < i ==> direction_of(dir@[j]@) == Some(#[trigger] vec@[j]),
        decreases dir@.len() - i,
    {
        let ghost prefix = dir@.take(i + 1);
        assert(prefix.drop_last() =~= dir@.take(i as int));
        assert(prefix.last() == dir@[i as int]);
        match convert_direction(dir[i].as_str()) {
            Ok(direction) => {
                vec.push(direction);
            },
            Err(e) => {
                proof {
                    lemma_unknown_in_prefix(dir@, i + 1);
                }
                return Err(e);
            },
        }
        i = i + 1;
    }
    assert(dir@.take(i as int) =~= dir@);
    assert(vec@ =~= directions_of(dir@));
    Ok(vec)
}

/// An unknown word among the first `k` words is the first unknown word of
/// all of them.
pub proof fn lemma_unknown_in_prefix(words: Seq<String>, k: int)
    requires
        0 <= k <= words.len(),
        first_unknown(words.take(k)) < k,
    ensures
        first_unknown(words) == first_unknown(words.take(k)),
    decreases words.len() - k,
{
    if k < words.len() {
        let longer = words.take(k + 1);
        assert(longer.drop_last() =~= words.take(k));
        lemma_unknown_in_prefix(words, k + 1);
    } else {
        assert(words.take(k) =~= words);
    }
}

/// The symbols that the text `text` stands for.
fn symbols(text: &str) -> (r: Vec<char>)
    ensures
        r@ == symbols_of(text@),
{
    let chars = chars_of(text);
    let mut r: Vec<char> = Vec::new();
    let mut i: usize = 0;
    while i < chars.len()
        invariant
            0 <= i <= chars@.len(),
            chars@ == text@,
            r@.len() == i,
            forall|j: int| 0 <= j < i ==> r@[j] == symbols_of(text@)[j],
        decreases chars@.len() - i,
    {
        let c = chars[i];
        if c == BLANK_REP {
            r.push(BLANK);
        } else {
            r.push(c);
        }
        i = i + 1;
    }
    assert(r@ =~= symbols_of(text@));
    r
}

/// A set with the members of `states`.
fn set_of(states: &Vec<usize>) -> (r: HashSet<usize>)
    ensures
        r@ == states@.to_set(),
{
    let mut r: HashSet<usize> = HashSet::new();
    let mut i: usize = 0;
    while i < states.len()
        invariant
            0 <= i <= states@.len(),
            r@ == states@.take(i as int).to_set(),
        decreases states@.len() - i,
    {
        r.insert(states[i]);
        proof {
            let before = states@.take(i as int);
            let after = states@.take(i + 1);
            assert(after =~= before.push(states@[i as int]));
            assert forall|v: usize| after.to_set().contains(v) <==> before.to_set().insert(
                states@[i as int],
            ).contains(v) by {
                if before.contains(v) {
                    let j = choose|j: int| 0 <= j < before.len() && before[j] == v;
                    assert(after[j] == v);
                }
                assert(after[i as int] == states@[i as int]);
            }
            assert(after.to_set() =~= before.to_set().insert(states@[i as int]));
        }
        i = i + 1;
    }
    assert(states@.take(states@.len() as int) =~= states@);
    r
}

/// Adds the transition `raw` to the machine `tm`.
fn add_transition(tm: &mut TuringMachine, raw: &RawTransition) -> (r: Result<(), Error>)
    requires
        old(tm).wf(),
    ensures
        final(tm).wf(),
        match add_raw(old(tm)@, *raw) {
            Ok(m) => r is Ok && final(tm)@ == m,
            Err(e) => r is Err && r->Err_0@ == e,
        },
{
    let read = symbols(raw.read.as_str());
    let write = symbols(raw.write.as_str());
    proof {
        lemma_first_unknown(raw.direction@);
    }
    let direc = match map_direction_vec(raw.direction.as_slice()) {
        Ok(direc) => direc,
        Err(e) => {
            return Err(e);
        },
    };
    let transition = match Transition::new(write.as_slice(), direc.as_slice(), raw.next) {
        Ok(transition) => transition,
        Err(e) => {
            return Err(e);
        },
    };
    tm.insert_transition(raw.from, read.as_slice(), &transition)
}

/// The machine that the description `rtm` stands for.
///
/// The transitions are added in the order of the description, and the first
/// failure ends the work.
pub fn parse(rtm: &RawTuringMachine) -> (r: Result<TuringMachine, Error>)
    ensures
        match parsed(*rtm) {
            Ok(m) => r is Ok && r->Ok_0.wf() && r->Ok_0@ == m,
            Err(e) => r is Err && r->Err_0@ == e,
        },
{
    let accept_set = set_of(&rtm.accept);
    let mut tm = match TuringMachine::new(rtm.initial, rtm.ntapes, &accept_set) {
        Ok(tm) => tm,
        Err(e) => {
            return Err(e);
        },
    };
    let ghost first = tm@;
    let mut i: usize = 0;
    assert(rtm.transition@.skip(0) =~= rtm.transition@);
    while i < rtm.transition.len()
        invariant
            0 <= i <= rtm.transition@.len(),
            tm.wf(),
            parsed(*rtm) == add_raws(first, rtm.transition@),
            add_raws(first, rtm.transition@) == add_raws(tm@, rtm.transition@.skip(i as int)),
        decreases rtm.transition@.len() - i,
    {
        let ghost rest = rtm.transition@.skip(i as int);
        assert(rest[0] == rtm.transition@[i as int]);
        assert(rest.drop_first() =~= rtm.transition@.skip(i + 1));
        match add_transition(&mut tm, &rtm.transition[i]) {
            Ok(_) => {},
            Err(e) => {
                return Err(e);
            },
        }
        i = i + 1;
    }
    assert(rtm.transition@.skip(i as int).len() == 0);
    Ok(tm)
}

} // verus!
