//! What holds of whole runs, and of a loop from one test of its cell to the next.

use vstd::prelude::*;
use crate::engine::{
    run_spec, run_start, run_step, step_spec, wants_input, Action, EngineView, RunView, Status,
};
use crate::error::Fault;
use crate::loops::{
    lemma_close_reenters_matching_open, lemma_step_keeps_loops_nested, loops_nested,
};
use crate::tape::{lemma_cell_ops_count, occurrences};

verus! {

/// A run of `a + b` steps is a run of `a` steps continued for `b` more.
pub proof fn lemma_run_split(prog: Seq<char>, r: RunView, input: Seq<u8>, a: nat, b: nat)
    ensures
        run_spec(prog, r, input, a + b) == run_spec(
            prog,
            run_spec(prog, r, input, a),
            input,
            b,
        ),
    decreases a,
{
    if a == 0 {
    } else if r.status != Status::Running {
        assert(run_spec(prog, r, input, a + b) == r);
        assert(run_spec(prog, r, input, a) == r);
        assert(run_spec(prog, r, input, b) == r);
    } else {
        lemma_run_split(prog, run_step(prog, r, input), input, (a - 1) as nat, b);
        assert((a + b - 1) as nat == (a - 1) as nat + b);
    }
}

/// However long a run goes on, the engine's state fits the program and the open loops
/// mirror its brackets.
pub proof fn lemma_run_keeps_loops_nested(prog: Seq<char>, r: RunView, input: Seq<u8>, fuel: nat)
    requires
        r.engine.wf(prog),
        loops_nested(prog, r.engine),
    ensures
        run_spec(prog, r, input, fuel).engine.wf(prog),
        loops_nested(prog, run_spec(prog, r, input, fuel).engine),
    decreases fuel,
{
    if fuel > 0 && r.status == Status::Running {
        let offered = if wants_input(prog, r.engine) && r.consumed < input.len() {
            Some(input[r.consumed as int])
        } else {
            None
        };
        lemma_step_keeps_loops_nested(prog, r.engine, offered);
        lemma_run_keeps_loops_nested(prog, run_step(prog, r, input), input, (fuel - 1) as nat);
    }
}

/// A program made of `+` and `-` alone, in any order, run from its start: after `k` steps the
/// cursor has passed `k` instructions, and the active cell holds its old value plus the
/// number of `+` among them minus the number of `-`, modulo 256. Nothing else has
/// changed.
pub proof fn lemma_cell_program_counts(prog: Seq<char>, m: EngineView, input: Seq<u8>, k: nat)
    requires
        m.wf(prog),
        m.cursor == 0,
        k <= prog.len(),
        forall|i: int| 0 <= i < prog.len() ==> prog[i] == '+' || prog[i] == '-',
    ensures
        run_spec(prog, run_start(m), input, k) == (RunView {
            engine: EngineView {
                tape: m.tape.write(
                    ((m.tape.current() + occurrences(prog.take(k as int), '+') - occurrences(
                        prog.take(k as int),
                        '-',
                    )) % 256) as u8,
                ),
                cursor: k as usize,
                stack: m.stack,
            },
            consumed: 0,
            output: Seq::empty(),
            status: Status::Running,
        }),
    decreases k,
{
    lemma_cell_ops_count(m.tape, prog.take(k as int));
    if k == 0 {
        assert(m.tape.apply_cell_ops(prog.take(0)) == m.tape);
    } else {
        let j = (k - 1) as nat;
        lemma_cell_program_counts(prog, m, input, j);
        lemma_cell_ops_count(m.tape, prog.take(j as int));
        lemma_run_split(prog, run_start(m), input, j, 1);
        let before = run_spec(prog, run_start(m), input, j);
        assert(run_spec(prog, before, input, 1) == run_step(prog, before, input)) by {
            assert(run_spec(prog, run_step(prog, before, input), input, 0) == run_step(
                prog,
                before,
                input,
            ));
        }
        assert(prog.take(k as int).drop_last() =~= prog.take(j as int));
        assert(prog.take(k as int).last() == prog[j as int]);
        assert(before.engine.tape == m.tape.apply_cell_ops(prog.take(j as int)));
    }
}

/// A loop goes round exactly while its cell is not zero. When a `]` has sent the cursor
/// back to its `[`, the next step tests the active cell: on zero the cursor lands just
/// past that same `]` and the loop stays closed; otherwise the loop is open again and the
/// cursor is on the first instruction of its body.
pub proof fn lemma_loop_repeats_while_nonzero(prog: Seq<char>, m: EngineView, input: Option<u8>)
    requires
        m.wf(prog),
        loops_nested(prog, m),
        m.cursor < prog.len(),
        prog[m.cursor as int] == ']',
        m.stack.len() > 0,
    ensures
        ({
            let back = EngineView {
                tape: m.tape,
                cursor: m.stack.last(),
                stack: m.stack.drop_last(),
            };
            &&& step_spec(prog, m, input) == Ok::<(EngineView, Action), Fault>(
                (back, Action::Continue),
            )
            &&& step_spec(prog, back, input) == Ok::<(EngineView, Action), Fault>(
                if m.tape.current() == 0 {
                    (back.jump((m.cursor + 1) as usize), Action::Continue)
                } else {
                    (
                        EngineView {
                            tape: m.tape,
                            cursor: (m.stack.last() + 1) as usize,
                            stack: m.stack,
                        },
                        Action::Continue,
                    )
                },
            )
        }),
{
    lemma_close_reenters_matching_open(prog, m, input);
    let top = m.stack.len() - 1;
    assert(m.stack[top] == m.stack.last());
    assert(m.stack.drop_last().push(m.stack.last()) =~= m.stack);
}

} // verus!
