//! The diagnostic view of the tape: its first cells as decimal numbers, the active one
//! highlighted.

use vstd::prelude::*;
use crate::escape::DIGIT_ZERO;
use crate::tape::{MachineState, TAPE_LEN};

verus! {

/// ASCII space.
pub const SPACE: u8 = 0x20;

/// ASCII escape, which starts a terminal control sequence.
pub const ESCAPE: u8 = 0x1b;

/// ASCII `[`.
pub const LEFT_BRACKET: u8 = 0x5b;

/// ASCII `m`.
pub const LOWER_M: u8 = 0x6d;

/// A byte in decimal, without leading zeros, as ASCII digits.
pub open spec fn decimal(b: u8) -> Seq<u8> {
    if b < 10 {
        seq![(DIGIT_ZERO + b) as u8]
    } else if b < 100 {
        seq![(DIGIT_ZERO + b / 10) as u8, (DIGIT_ZERO + b % 10) as u8]
    } else {
        seq![
            (DIGIT_ZERO + b / 100) as u8,
            (DIGIT_ZERO + b / 10 % 10) as u8,
            (DIGIT_ZERO + b % 10) as u8,
        ]
    }
}

/// The terminal sequence that switches to bright cyan and bold: `ESC [ 9 6 m ESC [ 1 m`.
pub open spec fn highlight_on() -> Seq<u8> {
    seq![
        ESCAPE,
        LEFT_BRACKET,
        0x39u8,
        0x36u8,
        LOWER_M,
        ESCAPE,
        LEFT_BRACKET,
        0x31u8,
        LOWER_M,
    ]
}

/// The terminal sequence that switches all attributes off: `ESC [ 0 m`.
pub open spec fn highlight_off() -> Seq<u8> {
    seq![ESCAPE, LEFT_BRACKET, 0x30u8, LOWER_M]
}

/// One cell as shown: its value in decimal and a space, the value wrapped in the highlight
/// where the cell is the active one.
pub open spec fn rendered_cell(b: u8, active: bool) -> Seq<u8> {
    if active {
        highlight_on() + decimal(b) + highlight_off() + seq![SPACE]
    } else {
        decimal(b) + seq![SPACE]
    }
}

/// The cells as shown, one after the other; the cell at index `pointer` is the active one.
pub open spec fn rendered(cells: Seq<u8>, pointer: int) -> Seq<u8>
    decreases cells.len(),
{
    if cells.len() == 0 {
        Seq::empty()
    } else {
        rendered(cells.drop_last(), pointer) + rendered_cell(
            cells.last(),
            cells.len() - 1 == pointer,
        )
    }
}

/// Appends `b` in decimal to `out`.
fn push_decimal(out: &mut Vec<u8>, b: u8)
    ensures
        final(out)@ == old(out)@ + decimal(b),
{
    if b >= 100 {
        out.push(DIGIT_ZERO + b / 100);
    }
    if b >= 10 {
        out.push(DIGIT_ZERO + b / 10 % 10);
    }
    out.push(DIGIT_ZERO + b % 10);
    assert(out@ =~= old(out)@ + decimal(b));
}

/// Appends one cell as shown to `out`.
fn push_cell(out: &mut Vec<u8>, b: u8, active: bool)
    ensures
        final(out)@ == old(out)@ + rendered_cell(b, active),
{
    if active {
        out.push(ESCAPE);
        out.push(LEFT_BRACKET);
        out.push(0x39);
        out.push(0x36);
        out.push(LOWER_M);
        out.push(ESCAPE);
        out.push(LEFT_BRACKET);
        out.push(0x31);
        out.push(LOWER_M);
        assert(out@ =~= old(out)@ + highlight_on());
        push_decimal(out, b);
        out.push(ESCAPE);
        out.push(LEFT_BRACKET);
        out.push(0x30);
        out.push(LOWER_M);
        out.push(SPACE);
    } else {
        push_decimal(out, b);
        out.push(SPACE);
    }
    assert(out@ =~= old(out)@ + rendered_cell(b, active));
}

/// The first `till` cells of the tape as a line of text (the whole tape where `till` is
/// beyond its end): each cell in decimal followed by a space, the active cell highlighted
/// where it is among them.
pub fn render_tape(machine: &MachineState, till: usize) -> (line: Vec<u8>)
    ensures
        line@ == rendered(
            machine@.cells.take(
                if till < TAPE_LEN {
                    till as int
                } else {
                    TAPE_LEN as int
                },
            ),
            machine@.pointer,
        ),
{
    let cells: Vec<u8> = machine.window(till);
    let pointer: usize = machine.pointer();
    let mut line: Vec<u8> = Vec::new();
    let mut i: usize = 0;
    while i < cells.len()
        invariant
            i <= cells@.len(),
            line@ == rendered(cells@.take(i as int), pointer as int),
        decreases cells.len() - i,
    {
        assert(cells@.take(i + 1).drop_last() =~= cells@.take(i as int));
        push_cell(&mut line, cells[i], i == pointer);
        i = i + 1;
    }
    assert(cells@.take(i as int) =~= cells@);
    line
}

} // verus!
