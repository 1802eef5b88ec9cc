//! Directions and the transitions of a multi-tape machine.

use vstd::prelude::*;
use vstd::slice::slice_to_vec;
use crate::error::Error;
use crate::text::string_of;

verus! {

/// Where a head goes after a step.
#[derive(Clone, Copy, Debug, PartialEq, Eq, Structural)]
pub enum Direction {
    Left,
    Right,
    Stop,
}

impl Direction {
    /// The change of the head's offset that the direction stands for.
    pub open spec fn delta(self) -> int {
        match self {
            Direction::Left => -1,
            Direction::Right => 1,
            Direction::Stop => 0,
        }
    }

    /// The letter that stands for the direction in text.
    pub open spec fn letter(self) -> char {
        match self {
            Direction::Left => 'L',
            Direction::Right => 'R',
            Direction::Stop => 'S',
        }
    }

    /// The letter that stands for the direction in text.
    pub fn to_char(&self) -> (c: char)
        ensures
            c == self.letter(),
    {
        match self {
            Direction::Left => 'L',
            Direction::Right => 'R',
            Direction::Stop => 'S',
        }
    }

    /// The text of the direction: its letter.
    pub fn to_string(&self) -> (s: String)
        ensures
            s@ == seq![self.letter()],
    {
        let mut out: Vec<char> = Vec::new();
        out.push(self.to_char());
        string_of(&out)
    }
}

/// The mathematical model of a transition: per tape the symbol to write and
/// the direction to move in, and the state that the machine goes to.
pub struct TransitionView {
    pub write: Seq<char>,
    pub direction: Seq<Direction>,
    pub next: usize,
}

impl TransitionView {
    /// There is one direction for each symbol to write.
    pub open spec fn wf(self) -> bool {
        self.write.len() == self.direction.len()
    }

    /// The number of tapes that the transition acts on.
    pub open spec fn len(self) -> nat {
        self.write.len()
    }
}

/// What a machine does in one step: the symbol it writes on each tape, the
/// direction in which each head moves, and the state it goes to.
#[derive(Debug)]
pub struct Transition {
    write: Vec<char>,
    direction: Vec<Direction>,
    next: usize,
}

impl View for Transition {
    type V = TransitionView;

    closed spec fn view(&self) -> TransitionView {
        TransitionView { write: self.write@, direction: self.direction@, next: self.next }
    }
}

impl Transition {
    /// There is one direction for each symbol to write.
    pub closed spec fn wf(&self) -> bool {
        self.write@.len() == self.direction@.len()
    }

    /// The model of a well-formed transition is well-formed.
    pub proof fn lemma_view_wf(&self)
        requires
            self.wf(),
        ensures
            self@.wf(),
    {
    }

    /// A transition that writes `write` and moves by `direction`, tape by
    /// tape, and goes to `next`. The two vectors must have one length.
    pub fn new(write: &[char], direction: &[Direction], next: usize) -> (r: Result<
        Transition,
        Error,
    >)
        ensures
            write@.len() == direction@.len() ==> r is Ok && r->Ok_0.wf() && r->Ok_0@ == (
            TransitionView { write: write@, direction: direction@, next }),
            write@.len() != direction@.len() ==> r == Err::<Transition, Error>(
                Error::TransitionSizeUnmatch(direction@.len() as usize, write@.len() as usize),
            ),
    {
        if write.len() != direction.len() {
            return Err(Error::TransitionSizeUnmatch(direction.len(), write.len()));
        }
        Ok(Transition { write: slice_to_vec(write), direction: slice_to_vec(direction), next })
    }

    /// The number of tapes that the transition acts on.
    pub fn len(&self) -> (n: usize)
        ensures
            n == self@.len(),
    {
        self.write.len()
    }

    /// The symbols to write, tape by tape.
    pub fn write_slice(&self) -> (w: &[char])
        ensures
            w@ == self@.write,
    {
        self.write.as_slice()
    }

    /// The directions to move in, tape by tape.
    pub fn move_slice(&self) -> (d: &[Direction])
        ensures
            d@ == self@.direction,
    {
        self.direction.as_slice()
    }

    /// The state that the machine goes to.
    pub fn next(&self) -> (n: usize)
        ensures
            n == self@.next,
    {
        self.next
    }
}

impl Clone for Transition {
    fn clone(&self) -> (t: Transition)
        ensures
            self.wf() ==> t.wf(),
            t@ == self@,
    {
        Transition {
            write: slice_to_vec(self.write.as_slice()),
            direction: slice_to_vec(self.direction.as_slice()),
            next: self.next,
        }
    }
}

} // verus!
