//! A transition as a machine description lists it: with the state that it
//! leaves and, for each tape, the symbol that it reads.

use vstd::prelude::*;
use vstd::slice::slice_to_vec;
use crate::text::{decimal, push_decimal, string_of};
use crate::turing_machine::tape::{print_sym, print_symbol};
use crate::turing_machine::transition::Direction;

verus! {

/// The mathematical model of a listed transition: the state it leaves, for
/// each tape the symbol read, the symbol written and the direction, and the
/// state it goes to.
pub struct RecordView {
    pub from: usize,
    pub info: Seq<(char, char, Direction)>,
    pub next: usize,
}

/// The text of what a listed transition does on one tape: the symbol read,
/// the symbol written and the direction's letter between round brackets,
/// and a space after them.
pub open spec fn tape_text(t: (char, char, Direction)) -> Seq<char> {
    seq!['(', print_symbol(t.0), ' ', print_symbol(t.1), ' ', t.2.letter(), ')', ' ']
}

/// The texts of the first `k` tapes of `info`, one after the other.
pub open spec fn tapes_text(info: Seq<(char, char, Direction)>, k: nat) -> Seq<char>
    decreases k,
{
    if k == 0 {
        Seq::empty()
    } else {
        tapes_text(info, (k - 1) as nat) + tape_text(info[k - 1])
    }
}

impl RecordView {
    /// The text of the transition: between square brackets the state it
    /// leaves, the text of each tape and the state it goes to.
    pub open spec fn render(self) -> Seq<char> {
        seq!['['] + decimal(self.from as nat) + seq![' '] + tapes_text(self.info, self.info.len())
            + decimal(self.next as nat) + seq![']']
    }
}

/// A transition of a multi-tape machine with the state that it leaves.
#[derive(Debug)]
pub struct Transition {
    from: usize,
    info: Vec<(char, char, Direction)>,
    next: usize,
}

impl View for Transition {
    type V = RecordView;

    closed spec fn view(&self) -> RecordView {
        RecordView { from: self.from, info: self.info@, next: self.next }
    }
}

impl Transition {
    /// The transition from `fr` to `nx` that does `infv` on the tapes.
    pub fn new(fr: usize, nx: usize, infv: &[(char, char, Direction)]) -> (t: Transition)
        ensures
            t@ == (RecordView { from: fr, info: infv@, next: nx }),
    {
        Transition { from: fr, info: slice_to_vec(infv), next: nx }
    }

    /// The state that the transition leaves and the state that it goes to.
    pub fn state(&self) -> (s: (usize, usize))
        ensures
            s == (self@.from, self@.next),
    {
        (self.from, self.next)
    }

    /// For each tape the symbol read, the symbol written and the direction.
    pub fn info(&self) -> (i: &[(char, char, Direction)])
        ensures
            i@ == self@.info,
    {
        self.info.as_slice()
    }

    /// The text of the transition.
    pub fn to_string(&self) -> (s: String)
        ensures
            s@ == self@.render(),
    {
        let mut out: Vec<char> = Vec::new();
        out.push('[');
        push_decimal(&mut out, self.from);
        out.push(' ');
        let ghost head = out@;
        assert(head =~= seq!['['] + decimal(self.from as nat) + seq![' ']);
        let mut i: usize = 0;
        while i < self.info.len()
            invariant
                0 <= i <= self.info@.len(),
                out@ == head + tapes_text(self.info@, i as nat),
            decreases self.info@.len() - i,
        {
            let tape = self.info[i];
            out.push('(');
            out.push(print_sym(tape.0));
            out.push(' ');
            out.push(print_sym(tape.1));
            out.push(' ');
            out.push(tape.2.to_char());
            out.push(')');
            out.push(' ');
            assert(out@ =~= head + tapes_text(self.info@, i as nat) + tape_text(self.info@[i as int]));
            assert(out@ =~= head + tapes_text(self.info@, (i + 1) as nat));
            i = i + 1;
        }
        push_decimal(&mut out, self.next);
        out.push(']');
        assert(out@ =~= self@.render());
        string_of(&out)
    }
}

impl Clone for Transition {
    fn clone(&self) -> (t: Transition)
        ensures
            t@ == self@,
    {
        Transition { from: self.from, info: slice_to_vec(self.info.as_slice()), next: self.next }
    }
}

} // verus!
