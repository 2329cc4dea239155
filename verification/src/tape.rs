//! The tape: a fixed ring of byte cells and the pointer to the active cell.

use vstd::prelude::*;

verus! {

/// Number of cells on the tape.
pub const TAPE_LEN: usize = 30_000;

/// A byte plus one, where 255 wraps to 0.
pub open spec fn wrap_inc(b: u8) -> u8 {
    if b == 255 {
        0u8
    } else {
        (b + 1) as u8
    }
}

/// A byte minus one, where 0 wraps to 255.
pub open spec fn wrap_dec(b: u8) -> u8 {
    if b == 0 {
        255u8
    } else {
        (b - 1) as u8
    }
}

/// Mathematical model of a tape: its cells and the index of the active one.
pub ghost struct TapeView {
    pub cells: Seq<u8>,
    pub pointer: int,
}

impl TapeView {
    /// The tape has its fixed length and the pointer is on it.
    pub open spec fn wf(self) -> bool {
        self.cells.len() == TAPE_LEN && 0 <= self.pointer < TAPE_LEN
    }

    /// The active cell.
    pub open spec fn current(self) -> u8 {
        self.cells[self.pointer]
    }

    /// The tape with the active cell overwritten.
    pub open spec fn write(self, b: u8) -> TapeView {
        TapeView { cells: self.cells.update(self.pointer, b), pointer: self.pointer }
    }

    /// The tape with the pointer one cell to the right, the last cell wrapping to the first.
    pub open spec fn advance(self) -> TapeView {
        TapeView { cells: self.cells, pointer: (self.pointer + 1) % (self.cells.len() as int) }
    }

    /// The tape with the pointer one cell to the left, the first cell wrapping to the last.
    pub open spec fn retreat(self) -> TapeView {
        TapeView {
            cells: self.cells,
            pointer: (self.pointer - 1 + self.cells.len()) % (self.cells.len() as int),
        }
    }

    /// The tape with the active cell raised by one, modulo 256.
    pub open spec fn increment(self) -> TapeView {
        self.write(wrap_inc(self.current()))
    }

    /// The tape with the active cell lowered by one, modulo 256.
    pub open spec fn decrement(self) -> TapeView {
        self.write(wrap_dec(self.current()))
    }
}

/// The tape of a running machine.
pub struct MachineState {
    tape: [u8; TAPE_LEN],
    pointer: usize,
}

impl View for MachineState {
    type V = TapeView;

    closed spec fn view(&self) -> TapeView {
        TapeView { cells: self.tape@, pointer: self.pointer as int }
    }
}

impl MachineState {
    /// The pointer is on the tape.
    pub open spec fn wf(&self) -> bool {
        self@.wf()
    }

    /// A tape of zeros with the pointer on the first cell.
    pub fn new() -> (m: MachineState)
        ensures
            m.wf(),
            m@.pointer == 0,
            forall|i: int| 0 <= i < TAPE_LEN ==> m@.cells[i] == 0,
    {
        MachineState { tape: [0u8; TAPE_LEN], pointer: 0 }
    }

    /// Index of the active cell.
    pub fn pointer(&self) -> (p: usize)
        ensures
            p == self@.pointer,
    {
        self.pointer
    }

    /// The cell at `index`, or `None` beyond the end of the tape.
    pub fn cell(&self, index: usize) -> (c: Option<u8>)
        ensures
            c == (if index < TAPE_LEN {
                Some(self@.cells[index as int])
            } else {
                None
            }),
    {
        if index < TAPE_LEN {
            Some(self.tape[index])
        } else {
            None
        }
    }

    /// The active cell.
    pub fn read_current(&self) -> (b: u8)
        requires
            self.wf(),
        ensures
            b == self@.current(),
    {
        self.tape[self.pointer]
    }

    /// Overwrites the active cell; every other cell and the pointer stay.
    pub fn write_current(&mut self, b: u8)
        requires
            old(self).wf(),
        ensures
            final(self).wf(),
            final(self)@ == old(self)@.write(b),
    {
        self.tape[self.pointer] = b;
    }

    /// Moves the pointer one cell to the right, wrapping past the last cell.
    pub fn advance(&mut self)
        requires
            old(self).wf(),
        ensures
            final(self).wf(),
            final(self)@ == old(self)@.advance(),
    {
        self.pointer = (self.pointer + 1) % TAPE_LEN;
    }

    /// Moves the pointer one cell to the left, wrapping past the first cell.
    pub fn retreat(&mut self)
        requires
            old(self).wf(),
        ensures
            final(self).wf(),
            final(self)@ == old(self)@.retreat(),
    {
        if self.pointer == 0 {
            self.pointer = TAPE_LEN - 1;
        } else {
            self.pointer = self.pointer - 1;
        }
    }

    /// Adds one to the active cell, 255 wrapping to 0.
    pub fn increment_current(&mut self)
        requires
            old(self).wf(),
        ensures
            final(self).wf(),
            final(self)@ == old(self)@.increment(),
    {
        let b: u8 = self.tape[self.pointer];
        self.tape[self.pointer] = b.wrapping_add(1);
    }

    /// Subtracts one from the active cell, 0 wrapping to 255.
    pub fn decrement_current(&mut self)
        requires
            old(self).wf(),
        ensures
            final(self).wf(),
            final(self)@ == old(self)@.decrement(),
    {
        let b: u8 = self.tape[self.pointer];
        self.tape[self.pointer] = b.wrapping_sub(1);
    }

    /// The first `till` cells, or the whole tape where `till` is beyond its end.
    pub fn window(&self, till: usize) -> (cells: Vec<u8>)
        ensures
            cells@ == self@.cells.take(
                if till < TAPE_LEN {
                    till as int
                } else {
                    TAPE_LEN as int
                },
            ),
    {
        let stop: usize = if TAPE_LEN < till {
            TAPE_LEN
        } else {
            till
        };
        let mut cells: Vec<u8> = Vec::new();
        let mut i: usize = 0;
        while i < stop
            invariant
                i <= stop <= TAPE_LEN,
                cells@ == self.tape@.take(i as int),
            decreases stop - i,
        {
            cells.push(self.tape[i]);
            assert(cells@ =~= self.tape@.take(i + 1));
            i = i + 1;
        }
        cells
    }
}

/// Number of times that `c` occurs in `ops`.
pub open spec fn occurrences(ops: Seq<char>, c: char) -> int
    decreases ops.len(),
{
    if ops.len() == 0 {
        0
    } else {
        occurrences(ops.drop_last(), c) + if ops.last() == c {
            1int
        } else {
            0int
        }
    }
}

impl TapeView {
    /// The tape after the cell instructions of `ops`, in order: `+` increments the active
    /// cell and `-` decrements it.
    pub open spec fn apply_cell_ops(self, ops: Seq<char>) -> TapeView
        decreases ops.len(),
    {
        if ops.len() == 0 {
            self
        } else {
            let before = self.apply_cell_ops(ops.drop_last());
            if ops.last() == '+' {
                before.increment()
            } else if ops.last() == '-' {
                before.decrement()
            } else {
                before
            }
        }
    }
}

/// After any sequence of `+` and `-`, in whatever order, the active cell holds its old value
/// plus the number of `+` minus the number of `-`, modulo 256; the pointer and every other
/// cell are as they were.
pub proof fn lemma_cell_ops_count(t: TapeView, ops: Seq<char>)
    requires
        t.wf(),
        forall|i: int| 0 <= i < ops.len() ==> ops[i] == '+' || ops[i] == '-',
    ensures
        t.apply_cell_ops(ops) == t.write(
            ((t.current() + occurrences(ops, '+') - occurrences(ops, '-')) % 256) as u8,
        ),
    decreases ops.len(),
{
    if ops.len() == 0 {
        assert(t.cells.update(t.pointer, t.current()) =~= t.cells);
    } else {
        let rest = ops.drop_last();
        lemma_cell_ops_count(t, rest);
        let d = occurrences(rest, '+') - occurrences(rest, '-');
        let v = ((t.current() + d) % 256) as u8;
        let before = t.write(v);
        assert(before.current() == v);
        if ops.last() == '+' {
            assert(wrap_inc(v) == ((t.current() + d + 1) % 256) as u8);
            assert(before.increment().cells =~= t.cells.update(t.pointer, wrap_inc(v)));
        } else {
            assert(wrap_dec(v) == ((t.current() + d - 1) % 256) as u8);
            assert(before.decrement().cells =~= t.cells.update(t.pointer, wrap_dec(v)));
        }
    }
}

/// Moving the pointer right and then left, or left and then right, from any position
/// brings it back: the two moves undo each other.
pub proof fn lemma_advance_retreat_inverse(t: TapeView)
    requires
        t.wf(),
    ensures
        t.advance().retreat() == t,
        t.retreat().advance() == t,
        t.advance().wf(),
        t.retreat().wf(),
{
    let n = t.cells.len() as int;
    assert(n == 30_000);
    let right = t.advance();
    let left = t.retreat();
    assert(right.pointer == if t.pointer == n - 1 {
        0
    } else {
        t.pointer + 1
    });
    assert(left.pointer == if t.pointer == 0 {
        n - 1
    } else {
        t.pointer - 1
    });
    assert(right.cells.len() == 30_000 && left.cells.len() == 30_000);
    assert((right.pointer - 1 + 30_000) % 30_000 == t.pointer);
    assert((left.pointer + 1) % 30_000 == t.pointer);
}

} // verus!
