//! How the engine's jumps respect the program's bracket structure.

use vstd::prelude::*;
use crate::brackets::{
    balanced, bracket_delta, has_matching_close, is_matching_close, lemma_balanced_body_closes,
    matching_close, net_depth,
};
use crate::engine::{step_spec, Action, EngineView};
use crate::error::Fault;

verus! {

/// The depth gained over `prog[start..end]` is the depth gained up to `mid` plus the depth
/// gained from there on.
pub proof fn lemma_net_depth_split(prog: Seq<char>, start: int, mid: int, end: int)
    requires
        start <= mid <= end,
    ensures
        net_depth(prog, start, end) == net_depth(prog, start, mid) + net_depth(prog, mid, end),
    decreases end - mid,
{
    if mid < end {
        lemma_net_depth_split(prog, start, mid, end - 1);
    }
}

/// A well-bracketed text followed by a character that is no bracket is well bracketed.
pub proof fn lemma_balanced_extend(prog: Seq<char>, start: int, end: int)
    requires
        start <= end,
        balanced(prog, start, end),
        bracket_delta(prog[end]) == 0,
    ensures
        balanced(prog, start, end + 1),
{
}

/// A well-bracketed text followed by a loop, that is `[`, a well-bracketed body and `]`,
/// is well bracketed.
pub proof fn lemma_balanced_append_loop(prog: Seq<char>, start: int, open: int, close: int)
    requires
        start <= open < close,
        balanced(prog, start, open),
        prog[open] == '[',
        balanced(prog, open + 1, close),
        prog[close] == ']',
    ensures
        balanced(prog, start, close + 1),
{
    assert(net_depth(prog, start, open + 1) == 1);
    assert forall|k: int| start <= k <= close + 1 implies net_depth(prog, start, k) >= 0 by {
        if open < k {
            if k <= close {
                lemma_net_depth_split(prog, start, open + 1, k);
                assert(net_depth(prog, open + 1, k) >= 0);
            } else {
                lemma_net_depth_split(prog, start, open + 1, close);
            }
        }
    }
    lemma_net_depth_split(prog, start, open + 1, close);
}

/// Where the text in front of the `k`-th open loop begins: just past the `[` of the loop
/// opened before it, or at the program's start for the outermost. With `k` the number of
/// open loops, where the text that leads to the cursor begins.
pub open spec fn segment_start(stack: Seq<usize>, k: int) -> int {
    if k <= 0 {
        0
    } else {
        stack[k - 1] + 1
    }
}

/// The open loops mirror the program's brackets: each entry of the stack is the position of
/// a `[`, the entries rise, and the text between one open loop and the next, as well as
/// the text from the innermost open loop to the cursor, is well bracketed.
pub open spec fn loops_nested(prog: Seq<char>, m: EngineView) -> bool {
    &&& forall|k: int|
        0 <= k < m.stack.len() ==> {
            &&& prog[#[trigger] m.stack[k] as int] == '['
            &&& segment_start(m.stack, k) <= m.stack[k]
            &&& balanced(prog, segment_start(m.stack, k), m.stack[k] as int)
        }
    &&& segment_start(m.stack, m.stack.len() as int) <= m.cursor
    &&& balanced(prog, segment_start(m.stack, m.stack.len() as int), m.cursor as int)
}

/// At the start of a run the open loops mirror the program's brackets.
pub proof fn lemma_start_loops_nested(prog: Seq<char>, m: EngineView)
    requires
        m.cursor == 0,
        m.stack.len() == 0,
    ensures
        loops_nested(prog, m),
{
}

/// A `[` on a zero cell, followed by a well-bracketed body of any nesting depth and its
/// `]`, moves the cursor to the position just past that `]` and changes nothing else.
pub proof fn lemma_skip_lands_past_close(
    prog: Seq<char>,
    m: EngineView,
    close: int,
    input: Option<u8>,
)
    requires
        m.wf(prog),
        m.cursor < close < prog.len(),
        prog[m.cursor as int] == '[',
        m.tape.current() == 0,
        balanced(prog, m.cursor + 1, close),
        prog[close] == ']',
    ensures
        step_spec(prog, m, input) == Ok::<(EngineView, Action), Fault>(
            (m.jump((close + 1) as usize), Action::Continue),
        ),
{
    lemma_balanced_body_closes(prog, m.cursor + 1, close);
}

/// A step keeps the open loops in line with the program's brackets.
pub proof fn lemma_step_keeps_loops_nested(prog: Seq<char>, m: EngineView, input: Option<u8>)
    requires
        m.wf(prog),
        loops_nested(prog, m),
    ensures
        match step_spec(prog, m, input) {
            Ok((next, _)) => loops_nested(prog, next) && next.wf(prog),
            Err(_) => true,
        },
{
    if m.cursor < prog.len() {
        let c = prog[m.cursor as int];
        let at = m.cursor as int;
        let depth = m.stack.len() as int;
        let base = segment_start(m.stack, depth);
        match step_spec(prog, m, input) {
            Ok((next, _)) => {
                if c == '[' {
                    if m.tape.current() != 0 {
                        assert(next.stack == m.stack.push(m.cursor));
                        assert forall|k: int| 0 <= k < next.stack.len() implies {
                            &&& prog[#[trigger] next.stack[k] as int] == '['
                            &&& segment_start(next.stack, k) <= next.stack[k]
                            &&& balanced(prog, segment_start(next.stack, k), next.stack[k] as int)
                        } by {
                            if k < depth {
                                assert(next.stack[k] == m.stack[k]);
                                assert(segment_start(next.stack, k) == segment_start(m.stack, k));
                            } else {
                                assert(segment_start(next.stack, k) == base);
                            }
                        }
                        assert(segment_start(next.stack, next.stack.len() as int) == at + 1);
                    } else {
                        let close = matching_close(prog, at + 1);
                        assert(is_matching_close(prog, at + 1, close));
                        lemma_balanced_append_loop(prog, base, at, close);
                    }
                } else if c == ']' {
                    assert(next.stack == m.stack.drop_last());
                    assert forall|k: int| 0 <= k < next.stack.len() implies {
                        &&& prog[#[trigger] next.stack[k] as int] == '['
                        &&& segment_start(next.stack, k) <= next.stack[k]
                        &&& balanced(prog, segment_start(next.stack, k), next.stack[k] as int)
                    } by {
                        assert(next.stack[k] == m.stack[k]);
                        assert(segment_start(next.stack, k) == segment_start(m.stack, k));
                    }
                    assert(m.stack[depth - 1] == m.stack.last());
                    assert(segment_start(next.stack, depth - 1) == segment_start(
                        m.stack,
                        depth - 1,
                    ));
                } else {
                    lemma_balanced_extend(prog, base, at);
                }
            },
            Err(_) => {},
        }
    }
}

/// A `]` reached while a loop is open sends the cursor back to the `[` that it closes:
/// the popped position holds a `[`, and this `]` is the closing bracket of the body that
/// starts just past it. The loop is no longer open and the tape is untouched, so the next
/// step tests the cell at that `[` again.
pub proof fn lemma_close_reenters_matching_open(
    prog: Seq<char>,
    m: EngineView,
    input: Option<u8>,
)
    requires
        m.wf(prog),
        loops_nested(prog, m),
        m.cursor < prog.len(),
        prog[m.cursor as int] == ']',
        m.stack.len() > 0,
    ensures
        step_spec(prog, m, input) == Ok::<(EngineView, Action), Fault>(
            (
                EngineView { tape: m.tape, cursor: m.stack.last(), stack: m.stack.drop_last() },
                Action::Continue,
            ),
        ),
        prog[m.stack.last() as int] == '[',
        has_matching_close(prog, m.stack.last() + 1),
        matching_close(prog, m.stack.last() + 1) == m.cursor,
{
    let top = m.stack.len() - 1;
    assert(m.stack[top] == m.stack.last());
    assert(prog[m.stack[top] as int] == '[');
    lemma_balanced_body_closes(prog, m.stack.last() + 1, m.cursor as int);
}

/// The text in front of the `k`-th open loop opens `k` loops more than it closes.
pub proof fn lemma_depth_at_open_loop(prog: Seq<char>, m: EngineView, k: int)
    requires
        loops_nested(prog, m),
        0 <= k <= m.stack.len(),
    ensures
        net_depth(prog, 0, segment_start(m.stack, k)) == k,
    decreases k,
{
    if k > 0 {
        lemma_depth_at_open_loop(prog, m, k - 1);
        let from = segment_start(m.stack, k - 1);
        let open = m.stack[k - 1] as int;
        assert(prog[open] == '[');
        lemma_net_depth_split(prog, 0, from, open);
    }
}

/// The number of open loops is the nesting depth at the cursor: the number of `[` behind
/// the cursor minus the number of `]` behind it. So when a program whose brackets pair up
/// has run to its end, no loop is open.
pub proof fn lemma_open_loops_equal_depth(prog: Seq<char>, m: EngineView)
    requires
        loops_nested(prog, m),
    ensures
        net_depth(prog, 0, m.cursor as int) == m.stack.len(),
        m.cursor == prog.len() && net_depth(prog, 0, prog.len() as int) == 0
            ==> m.stack.len() == 0,
{
    let depth = m.stack.len() as int;
    lemma_depth_at_open_loop(prog, m, depth);
    lemma_net_depth_split(prog, 0, segment_start(m.stack, depth), m.cursor as int);
}

} // verus!
