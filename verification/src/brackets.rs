//! Bracket matching: which `]` closes the loop whose body starts at a given position.

use vstd::prelude::*;
use crate::error::VMError;

verus! {

/// What a character adds to the nesting depth: `[` opens, `]` closes.
pub open spec fn bracket_delta(c: char) -> int {
    if c == '[' {
        1
    } else if c == ']' {
        -1
    } else {
        0
    }
}

/// Number of `[` minus number of `]` among `prog[start..end]`.
pub open spec fn net_depth(prog: Seq<char>, start: int, end: int) -> int
    decreases end - start,
{
    if end <= start {
        0
    } else {
        net_depth(prog, start, end - 1) + bracket_delta(prog[end - 1])
    }
}

/// No prefix of `prog[start..end]` closes more loops than it has opened.
pub open spec fn well_nested(prog: Seq<char>, start: int, end: int) -> bool {
    forall|k: int| start <= k <= end ==> net_depth(prog, start, k) >= 0
}

/// `prog[start..end]` is well bracketed: every `[` in it is closed in it and every `]` in it
/// closes a `[` in it.
pub open spec fn balanced(prog: Seq<char>, start: int, end: int) -> bool {
    well_nested(prog, start, end) && net_depth(prog, start, end) == 0
}

/// The `]` at `close` ends the loop whose body starts at `start`: the text between is
/// well bracketed.
pub open spec fn is_matching_close(prog: Seq<char>, start: int, close: int) -> bool {
    &&& 0 <= start <= close < prog.len()
    &&& prog[close] == ']'
    &&& balanced(prog, start, close)
}

/// Some `]` ends the loop whose body starts at `start`.
pub open spec fn has_matching_close(prog: Seq<char>, start: int) -> bool {
    exists|close: int| is_matching_close(prog, start, close)
}

/// The `]` that ends the loop whose body starts at `start`, where there is one.
pub open spec fn matching_close(prog: Seq<char>, start: int) -> int {
    choose|close: int| is_matching_close(prog, start, close)
}

/// A loop body has at most one closing `]`.
pub proof fn lemma_matching_close_unique(prog: Seq<char>, start: int, a: int, b: int)
    requires
        is_matching_close(prog, start, a),
        is_matching_close(prog, start, b),
    ensures
        a == b,
{
    if a < b {
        assert(net_depth(prog, start, a + 1) == -1);
        assert(net_depth(prog, start, a + 1) >= 0);
    } else if b < a {
        assert(net_depth(prog, start, b + 1) == -1);
        assert(net_depth(prog, start, b + 1) >= 0);
    }
}

/// A `]` that follows a well-bracketed text is the closing bracket found from the start of
/// that text, however deep the text nests.
pub proof fn lemma_balanced_body_closes(prog: Seq<char>, start: int, close: int)
    requires
        0 <= start <= close < prog.len(),
        balanced(prog, start, close),
        prog[close] == ']',
    ensures
        has_matching_close(prog, start),
        matching_close(prog, start) == close,
{
    assert(is_matching_close(prog, start, close));
    lemma_matching_close_unique(prog, start, matching_close(prog, start), close);
}

/// Scans forward from `i_pointer` for the `]` that closes the loop whose body starts there,
/// stepping over nested loops.
pub fn seek_closing_brace(commands: &Vec<char>, i_pointer: usize) -> (r: Result<usize, VMError>)
    ensures
        match r {
            Ok(close) => is_matching_close(commands@, i_pointer as int, close as int),
            Err(e) => e == VMError::UnmatchedOpenBrace && !has_matching_close(
                commands@,
                i_pointer as int,
            ),
        },
{
    let mut depth: usize = 0;
    let mut i: usize = i_pointer;
    while i < commands.len()
        invariant
            i_pointer <= i,
            depth <= i - i_pointer,
            depth == net_depth(commands@, i_pointer as int, i as int),
            well_nested(commands@, i_pointer as int, i as int),
            forall|j: int| i_pointer <= j < i ==> !is_matching_close(commands@, i_pointer as int, j),
        decreases commands.len() - i,
    {
        let c: char = commands[i];
        if c == ']' {
            if depth == 0 {
                return Ok(i);
            }
            depth = depth - 1;
        } else if c == '[' {
            depth = depth + 1;
        }
        i = i + 1;
    }
    Err(VMError::UnmatchedOpenBrace)
}

} // verus!
