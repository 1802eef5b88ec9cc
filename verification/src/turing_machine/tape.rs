//! One tape: an unbounded row of cells in both directions, with a head.
//!
//! Cells are addressed by their signed offset from the origin. Only the cells
//! that the head has reached, or that a string was loaded on, are stored;
//! every other cell holds the blank.

use vstd::prelude::*;
use crate::text::{chars_of, string_of};
use crate::turing_machine::transition::Direction;

verus! {

/// The symbol of a cell that was never written.
pub const BLANK: char = '\0';

/// The character that stands for the blank in text.
pub const BLANK_REP: char = '\u{3b2}';

/// The mathematical model of a tape.
///
/// `cells` holds the stored cells, those at the offsets from `low` up to, but
/// not including, `high`. `head` is the offset of the cell under the head.
pub struct TapeView {
    pub head: int,
    pub low: int,
    pub high: int,
    pub cells: Map<int, char>,
}

impl TapeView {
    /// The offsets from `low` to `high - 1` are the stored ones, the origin
    /// and the head's cell among them.
    pub open spec fn wf(self) -> bool {
        &&& self.low <= 0 < self.high
        &&& self.low <= self.head < self.high
        &&& self.cells.dom() =~= Set::new(|i: int| self.low <= i < self.high)
    }

    /// A tape whose stored cells are the symbols of `s` from the origin on,
    /// or one blank cell where `s` is empty, with the head on the origin.
    pub open spec fn loaded(s: Seq<char>) -> TapeView {
        if s.len() == 0 {
            TapeView { head: 0, low: 0, high: 1, cells: Map::new(|i: int| i == 0, |i: int| BLANK) }
        } else {
            TapeView {
                head: 0,
                low: 0,
                high: s.len() as int,
                cells: Map::new(|i: int| 0 <= i < s.len(), |i: int| s[i]),
            }
        }
    }

    /// The tape with one blank cell.
    pub open spec fn blank() -> TapeView {
        TapeView::loaded(Seq::empty())
    }

    /// The symbol at offset `i`: the stored one, or the blank.
    pub open spec fn symbol(self, i: int) -> char {
        if self.cells.dom().contains(i) {
            self.cells[i]
        } else {
            BLANK
        }
    }

    /// The symbol under the head.
    pub open spec fn read(self) -> char {
        self.symbol(self.head)
    }

    /// The tape after `c` was written under the head.
    pub open spec fn write(self, c: char) -> TapeView {
        TapeView {
            head: self.head,
            low: self.low,
            high: self.high,
            cells: self.cells.insert(self.head, c),
        }
    }

    /// The tape after the head moved by `dir`. A cell that the head reaches
    /// for the first time is stored as a blank.
    pub open spec fn mov(self, dir: Direction) -> TapeView {
        let h = self.head + dir.delta();
        TapeView {
            head: h,
            low: if h < self.low { h } else { self.low },
            high: if h >= self.high { h + 1 } else { self.high },
            cells: if self.cells.dom().contains(h) {
                self.cells
            } else {
                self.cells.insert(h, BLANK)
            },
        }
    }

    /// The number of stored cells.
    pub open spec fn size(self) -> int {
        self.high - self.low
    }

    /// The index of offset `h` in the half of the tape that stores it.
    pub open spec fn half_index(h: int) -> int {
        if h >= 0 {
            h
        } else {
            -h - 1
        }
    }

    /// The tape after the head moved `n` cells to the right.
    pub open spec fn moved_right(self, n: nat) -> TapeView
        decreases n,
    {
        if n == 0 {
            self
        } else {
            self.moved_right((n - 1) as nat).mov(Direction::Right)
        }
    }

    /// The symbol shown in the `k`-th place of the tape's text. The places
    /// of the negative offsets come first and show the cells from offset -1
    /// outwards; the places from the origin on show the cells in order.
    pub open spec fn shown_symbol(self, k: int) -> char {
        if k < -self.low {
            print_symbol(self.cells[-1 - k])
        } else {
            print_symbol(self.cells[k + self.low])
        }
    }

    /// The text of the `k`-th place: a bar and the symbol shown there, in
    /// square brackets where the place is the head's.
    pub open spec fn shown_place(self, k: int) -> Seq<char> {
        if self.low + k == self.head {
            seq!['|', '[', self.shown_symbol(k), ']']
        } else {
            seq!['|', self.shown_symbol(k)]
        }
    }

    /// The text of the first `k` places.
    pub open spec fn shown_places(self, k: nat) -> Seq<char>
        decreases k,
    {
        if k == 0 {
            Seq::empty()
        } else {
            self.shown_places((k - 1) as nat) + self.shown_place(k - 1)
        }
    }

    /// The text of the tape: one place for each stored cell, and a closing
    /// bar.
    pub open spec fn render(self) -> Seq<char> {
        self.shown_places(self.size() as nat).push('|')
    }

    /// Writing keeps a tape well-formed, changes the symbol under the head
    /// and no other.
    pub proof fn lemma_write(self, c: char)
        requires
            self.wf(),
        ensures
            self.write(c).wf(),
            self.write(c).read() == c,
            self.write(c).size() == self.size(),
            forall|i: int| i != self.head ==> self.write(c).symbol(i) == self.symbol(i),
    {
    }

    /// Moving keeps a tape well-formed and changes no symbol. The tape grows
    /// by the one cell that the head reaches, and only where that cell was
    /// not stored.
    pub proof fn lemma_mov(self, dir: Direction)
        requires
            self.wf(),
        ensures
            self.mov(dir).wf(),
            self.mov(dir).head == self.head + dir.delta(),
            forall|i: int| self.mov(dir).symbol(i) == self.symbol(i),
            self.mov(dir).size() == if self.low <= self.head + dir.delta() < self.high {
                self.size()
            } else {
                self.size() + 1
            },
    {
    }

    /// A head that moves out of the stored cells reads the blank.
    pub proof fn lemma_lazy_growth(self, dir: Direction)
        requires
            self.wf(),
            !(self.low <= self.head + dir.delta() < self.high),
        ensures
            self.mov(dir).wf(),
            self.mov(dir).read() == BLANK,
    {
    }

    /// A loaded tape is well-formed and holds the string from the origin
    /// on; loading the empty string gives one blank cell.
    pub proof fn lemma_loaded(s: Seq<char>)
        ensures
            TapeView::loaded(s).wf(),
            TapeView::loaded(s).head == 0,
            forall|i: int| 0 <= i < s.len() ==> TapeView::loaded(s).symbol(i) == s[i],
            TapeView::loaded(s).size() == if s.len() == 0 {
                1
            } else {
                s.len() as int
            },
            s.len() == 0 ==> TapeView::loaded(s).symbol(0) == BLANK,
    {
    }

    /// Reading a loaded tape cell by cell from the origin gives the string
    /// back: after `k` moves to the right the head reads the `k`-th symbol.
    pub proof fn lemma_load_round_trip(s: Seq<char>, k: nat)
        requires
            k < s.len(),
        ensures
            TapeView::loaded(s).moved_right(k).read() == s[k as int],
            TapeView::loaded(s).moved_right(k).head == k,
            TapeView::loaded(s).moved_right(k).cells == TapeView::loaded(s).cells,
            TapeView::loaded(s).moved_right(k).low == 0,
            TapeView::loaded(s).moved_right(k).high == s.len(),
        decreases k,
    {
        if k > 0 {
            Self::lemma_load_round_trip(s, (k - 1) as nat);
        }
    }
}

/// The character that shows the symbol `x` in text: the blank's stand-in for
/// the blank, the symbol itself otherwise.
pub open spec fn print_symbol(x: char) -> char {
    if x == BLANK {
        BLANK_REP
    } else {
        x
    }
}

/// The character that shows the symbol `x` in text.
pub fn print_sym(x: char) -> (c: char)
    ensures
        c == print_symbol(x),
{
    if x == BLANK {
        BLANK_REP
    } else {
        x
    }
}

/// A tape of a running machine.
#[derive(Debug)]
pub struct Tape {
    /// The cells at the offsets -1, -2, ... in that order.
    n_half: Vec<char>,
    /// The cells at the offsets 0, 1, ... in that order.
    p_half: Vec<char>,
    /// Whether the head stands at a negative offset.
    on_negative: bool,
    /// The index of the head's cell in the half it stands on.
    index: usize,
}

impl View for Tape {
    type V = TapeView;

    closed spec fn view(&self) -> TapeView {
        TapeView {
            head: if self.on_negative {
                -(self.index as int) - 1
            } else {
                self.index as int
            },
            low: -(self.n_half@.len() as int),
            high: self.p_half@.len() as int,
            cells: Map::new(
                |i: int| -(self.n_half@.len() as int) <= i < self.p_half@.len(),
                |i: int|
                    if i >= 0 {
                        self.p_half@[i]
                    } else {
                        self.n_half@[-i - 1]
                    },
            ),
        }
    }
}

impl Tape {
    /// The tape stores the origin and the cell under the head.
    pub closed spec fn wf(&self) -> bool {
        &&& self.p_half@.len() >= 1
        &&& if self.on_negative {
            self.index < self.n_half@.len()
        } else {
            self.index < self.p_half@.len()
        }
    }

    /// The model of a well-formed tape is well-formed.
    pub proof fn lemma_view_wf(&self)
        requires
            self.wf(),
        ensures
            self@.wf(),
    {
    }

    /// A tape with one blank cell and the head on it.
    pub fn new() -> (t: Tape)
        ensures
            t.wf(),
            t@ == TapeView::blank(),
    {
        let mut p: Vec<char> = Vec::new();
        p.push(BLANK);
        let t = Tape { n_half: Vec::new(), p_half: p, on_negative: false, index: 0 };
        assert(t@.cells =~= TapeView::blank().cells);
        t
    }

    /// A tape that holds `f` from the origin on, with the head on the origin.
    /// An empty `f` gives one blank cell.
    pub fn from_string(f: &str) -> (t: Tape)
        ensures
            t.wf(),
            t@ == TapeView::loaded(f@),
    {
        let mut p: Vec<char> = chars_of(f);
        if p.len() == 0 {
            p.push(BLANK);
        }
        let t = Tape { n_half: Vec::new(), p_half: p, on_negative: false, index: 0 };
        assert(t@.cells =~= TapeView::loaded(f@).cells);
        t
    }

    /// Forgets what the tape held and loads `f` as `from_string` does.
    pub fn load_string(&mut self, f: &str)
        ensures
            final(self).wf(),
            final(self)@ == TapeView::loaded(f@),
    {
        *self = Tape::from_string(f);
    }

    /// Moves the head one cell in the direction `dir`, or leaves it for
    /// `Stop`. A cell reached for the first time is stored as a blank.
    pub fn mov(&mut self, dir: Direction)
        requires
            old(self).wf(),
        ensures
            final(self).wf(),
            final(self)@ == old(self)@.mov(dir),
    {
        match dir {
            Direction::Left => {
                self.move_left();
            },
            Direction::Right => {
                self.move_right();
            },
            Direction::Stop => {
                assert(self@.cells =~= old(self)@.mov(dir).cells);
            },
        }
    }

    /// Moves the head one cell to the right.
    pub fn move_right(&mut self)
        requires
            old(self).wf(),
        ensures
            final(self).wf(),
            final(self)@ == old(self)@.mov(Direction::Right),
    {
        if self.on_negative {
            if self.index == 0 {
                self.on_negative = false;
            } else {
                self.index = self.index - 1;
            }
        } else {
            if self.index == self.p_half.len() - 1 {
                self.p_half.push(BLANK);
            }
            self.index = self.index + 1;
        }
        assert(self@.cells =~= old(self)@.mov(Direction::Right).cells);
    }

    /// Moves the head one cell to the left.
    pub fn move_left(&mut self)
        requires
            old(self).wf(),
        ensures
            final(self).wf(),
            final(self)@ == old(self)@.mov(Direction::Left),
    {
        if self.on_negative {
            if self.index == self.n_half.len() - 1 {
                self.n_half.push(BLANK);
            }
            self.index = self.index + 1;
        } else {
            if self.index == 0 {
                if self.n_half.len() == 0 {
                    self.n_half.push(BLANK);
                }
                self.on_negative = true;
            } else {
                self.index = self.index - 1;
            }
        }
        assert(self@.cells =~= old(self)@.mov(Direction::Left).cells);
    }

    /// The symbol under the head.
    pub fn read(&self) -> (c: char)
        requires
            self.wf(),
        ensures
            c == self@.read(),
    {
        if self.on_negative {
            self.n_half[self.index]
        } else {
            self.p_half[self.index]
        }
    }

    /// Writes `f` under the head.
    pub fn write(&mut self, f: char)
        requires
            old(self).wf(),
        ensures
            final(self).wf(),
            final(self)@ == old(self)@.write(f),
    {
        let i: usize = self.index;
        if self.on_negative {
            self.n_half[i] = f;
        } else {
            self.p_half[i] = f;
        }
        assert(self@.cells =~= old(self)@.write(f).cells);
    }

    /// The number of stored cells.
    pub fn size(&self) -> (n: usize)
        requires
            self.wf(),
            self@.size() <= usize::MAX,
        ensures
            n == self@.size(),
    {
        self.n_half.len() + self.p_half.len()
    }

    /// The text of the tape: a bar before each stored cell and one at the
    /// end, the head's place in square brackets.
    pub fn to_string(&self) -> (s: String)
        requires
            self.wf(),
        ensures
            s@ == self@.render(),
    {
        let mut out: Vec<char> = Vec::new();
        let n: usize = self.n_half.len();
        let mut j: usize = 0;
        while j < n
            invariant
                0 <= j <= n,
                n == self.n_half@.len(),
                self.wf(),
                out@ == self@.shown_places(j as nat),
            decreases n - j,
        {
            out.push('|');
            if self.on_negative && j == n - 1 - self.index {
                out.push('[');
                out.push(print_sym(self.n_half[j]));
                out.push(']');
            } else {
                out.push(print_sym(self.n_half[j]));
            }
            assert(out@ =~= self@.shown_places(j as nat) + self@.shown_place(j as int));
            j = j + 1;
        }
        let p: usize = self.p_half.len();
        let mut i: usize = 0;
        while i < p
            invariant
                0 <= i <= p,
                n == self.n_half@.len(),
                p == self.p_half@.len(),
                self.wf(),
                out@ == self@.shown_places((n + i) as nat),
            decreases p - i,
        {
            out.push('|');
            if !self.on_negative && i == self.index {
                out.push('[');
                out.push(print_sym(self.p_half[i]));
                out.push(']');
            } else {
                out.push(print_sym(self.p_half[i]));
            }
            assert(out@ =~= self@.shown_places((n + i) as nat) + self@.shown_place(n + i));
            i = i + 1;
        }
        out.push('|');
        string_of(&out)
    }

    /// The index of the head's cell in the half of the tape that stores it.
    pub fn absolute_pos(&self) -> (i: usize)
        requires
            self.wf(),
        ensures
            i == TapeView::half_index(self@.head),
    {
        self.index
    }
}

impl Clone for Tape {
    fn clone(&self) -> (t: Tape)
        ensures
            self.wf() ==> t.wf(),
            t@ == self@,
    {
        let t = Tape {
            n_half: self.n_half.clone(),
            p_half: self.p_half.clone(),
            on_negative: self.on_negative,
            index: self.index,
        };
        assert(t@.cells =~= self@.cells);
        t
    }
}

impl Default for Tape {
    fn default() -> (t: Tape)
        ensures
            t.wf(),
            t@ == TapeView::blank(),
    {
        Tape::new()
    }
}

} // verus!
