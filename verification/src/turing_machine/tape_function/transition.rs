//! One transition of a machine with a single tape.

use vstd::prelude::*;
use crate::text::{decimal, push_decimal, string_of};
pub use crate::turing_machine::transition::Direction;

verus! {

/// What a single-tape machine does in one state on one symbol: the state it
/// is in, the symbol it reads, the symbol it writes, the state it goes to
/// and the direction in which the head moves.
#[derive(Clone, Copy, Debug, PartialEq, Eq, Structural)]
pub struct Transition {
    current_state: usize,
    read: char,
    write: char,
    next_state: usize,
    direction: Direction,
}

impl View for Transition {
    type V = (usize, char, char, usize, Direction);

    closed spec fn view(&self) -> (usize, char, char, usize, Direction) {
        (self.current_state, self.read, self.write, self.next_state, self.direction)
    }
}

/// The text of a transition with the parts `t`: the parts between square
/// brackets, with a comma and a space between them, the states as decimal
/// numerals and the direction as its letter.
pub open spec fn transition_text(t: (usize, char, char, usize, Direction)) -> Seq<char> {
    seq!['['] + decimal(t.0 as nat) + seq![',', ' ', t.1, ',', ' ', t.2, ',', ' '] + decimal(
        t.3 as nat,
    ) + seq![',', ' ', t.4.letter(), ']']
}

impl Transition {
    /// The state and the symbol under which a table files the transition.
    pub open spec fn key(&self) -> (usize, char) {
        (self@.0, self@.1)
    }

    /// The transition with the parts `t`.
    pub fn new(t: (usize, char, char, usize, Direction)) -> (r: Transition)
        ensures
            r@ == t,
    {
        Transition { current_state: t.0, read: t.1, write: t.2, next_state: t.3, direction: t.4 }
    }

    /// The parts of the transition.
    pub fn get(&self) -> (t: (usize, char, char, usize, Direction))
        ensures
            t == self@,
    {
        (self.current_state, self.read, self.write, self.next_state, self.direction)
    }

    /// The text of the transition.
    pub fn to_string(&self) -> (s: String)
        ensures
            s@ == transition_text(self@),
    {
        let mut out: Vec<char> = Vec::new();
        out.push('[');
        push_decimal(&mut out, self.current_state);
        out.push(',');
        out.push(' ');
        out.push(self.read);
        out.push(',');
        out.push(' ');
        out.push(self.write);
        out.push(',');
        out.push(' ');
        push_decimal(&mut out, self.next_state);
        out.push(',');
        out.push(' ');
        out.push(self.direction.to_char());
        out.push(']');
        assert(out@ =~= transition_text(self@));
        string_of(&out)
    }
}

} // verus!
