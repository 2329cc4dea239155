//! The execution engine: one instruction at a time, against a tape and a stack of open loops.

use vstd::prelude::*;
use crate::brackets::{
    has_matching_close, lemma_matching_close_unique, matching_close, seek_closing_brace,
};
use crate::error::{Fault, VMError};
use crate::loops::{lemma_step_keeps_loops_nested, loops_nested};
use crate::tape::{MachineState, TapeView};

verus! {

/// What one step did, as far as the outside world is concerned.
#[derive(Clone, Copy, Debug, PartialEq, Eq, Structural)]
pub enum Action {
    /// The cursor stands at the program's end; nothing changed.
    Halted,
    /// An instruction ran and nothing is to be sent.
    Continue,
    /// A `.` ran: the byte is to be sent to the output.
    Emit(u8),
}

/// Mathematical model of the engine: the tape, the instruction cursor and the positions of
/// the loops that are open, innermost last.
pub ghost struct EngineView {
    pub tape: TapeView,
    pub cursor: usize,
    pub stack: Seq<usize>,
}

impl EngineView {
    /// The cursor is on the program or at its end, and every open loop is a position of it.
    pub open spec fn wf(self, prog: Seq<char>) -> bool {
        &&& self.tape.wf()
        &&& self.cursor <= prog.len()
        &&& prog.len() <= usize::MAX
        &&& forall|k: int| 0 <= k < self.stack.len() ==> self.stack[k] < prog.len()
    }

    /// The engine with the cursor on the next instruction and the given tape.
    pub open spec fn next_with(self, tape: TapeView) -> EngineView {
        EngineView { tape, cursor: (self.cursor + 1) as usize, stack: self.stack }
    }

    /// The engine with the cursor moved to `cursor`.
    pub open spec fn jump(self, cursor: usize) -> EngineView {
        EngineView { tape: self.tape, cursor, stack: self.stack }
    }
}

/// The instruction under the cursor reads a byte of input.
pub open spec fn wants_input(prog: Seq<char>, m: EngineView) -> bool {
    m.cursor < prog.len() && prog[m.cursor as int] == ','
}

/// One step of the engine. `input` is the byte on offer to a `,`; no other instruction
/// looks at it.
pub open spec fn step_spec(prog: Seq<char>, m: EngineView, input: Option<u8>) -> Result<
    (EngineView, Action),
    Fault,
> {
    if m.cursor >= prog.len() {
        Ok((m, Action::Halted))
    } else {
        let c = prog[m.cursor as int];
        if c == '+' {
            Ok((m.next_with(m.tape.increment()), Action::Continue))
        } else if c == '-' {
            Ok((m.next_with(m.tape.decrement()), Action::Continue))
        } else if c == '>' {
            Ok((m.next_with(m.tape.advance()), Action::Continue))
        } else if c == '<' {
            Ok((m.next_with(m.tape.retreat()), Action::Continue))
        } else if c == '.' {
            Ok((m.next_with(m.tape), Action::Emit(m.tape.current())))
        } else if c == ',' {
            match input {
                Some(b) => Ok((m.next_with(m.tape.write(b)), Action::Continue)),
                None => Err(Fault { error: VMError::InputExhausted, position: m.cursor }),
            }
        } else if c == '[' {
            if m.tape.current() != 0 {
                Ok(
                    (
                        EngineView {
                            tape: m.tape,
                            cursor: (m.cursor + 1) as usize,
                            stack: m.stack.push(m.cursor),
                        },
                        Action::Continue,
                    ),
                )
            } else if has_matching_close(prog, m.cursor + 1) {
                Ok((m.jump((matching_close(prog, m.cursor + 1) + 1) as usize), Action::Continue))
            } else {
                Err(Fault { error: VMError::UnmatchedOpenBrace, position: m.cursor })
            }
        } else if c == ']' {
            if m.stack.len() == 0 {
                Err(Fault { error: VMError::UnmatchedCloseBrace, position: m.cursor })
            } else {
                Ok(
                    (
                        EngineView {
                            tape: m.tape,
                            cursor: m.stack.last(),
                            stack: m.stack.drop_last(),
                        },
                        Action::Continue,
                    ),
                )
            }
        } else {
            Ok((m.next_with(m.tape), Action::Continue))
        }
    }
}

/// An interpreter: a program, its tape, the instruction cursor and the stack of open loops.
pub struct Interpreter {
    program: Vec<char>,
    machine: MachineState,
    cursor: usize,
    loop_stack: Vec<usize>,
}

impl View for Interpreter {
    type V = EngineView;

    closed spec fn view(&self) -> EngineView {
        EngineView { tape: self.machine@, cursor: self.cursor, stack: self.loop_stack@ }
    }
}

impl Interpreter {
    /// The program that this interpreter runs.
    pub closed spec fn program(&self) -> Seq<char> {
        self.program@
    }

    /// The engine's state fits its program, and the open loops mirror the program's brackets.
    pub open spec fn wf(&self) -> bool {
        self@.wf(self.program()) && loops_nested(self.program(), self@)
    }

    /// An interpreter at the start of `program`: a tape of zeros, the pointer on its first
    /// cell, no loop open.
    pub fn new(program: Vec<char>) -> (it: Interpreter)
        ensures
            it.wf(),
            it.program() == program@,
            it@.cursor == 0,
            it@.stack == Seq::<usize>::empty(),
            it@.tape.pointer == 0,
            forall|i: int| 0 <= i < it@.tape.cells.len() ==> it@.tape.cells[i] == 0,
    {
        assert(program@.len() == program.len());
        Interpreter { program, machine: MachineState::new(), cursor: 0, loop_stack: Vec::new() }
    }

    /// The tape.
    pub fn machine(&self) -> (m: &MachineState)
        ensures
            m@ == self@.tape,
            self.wf() ==> m.wf(),
    {
        &self.machine
    }

    /// The instruction cursor.
    pub fn cursor(&self) -> (c: usize)
        ensures
            c == self@.cursor,
    {
        self.cursor
    }

    /// Number of loops that are open.
    pub fn open_loops(&self) -> (n: usize)
        ensures
            n == self@.stack.len(),
    {
        self.loop_stack.len()
    }

    /// The instruction under the cursor, or `None` at the program's end.
    pub fn current_instruction(&self) -> (c: Option<char>)
        ensures
            c == (if self@.cursor < self.program().len() {
                Some(self.program()[self@.cursor as int])
            } else {
                None
            }),
    {
        if self.cursor < self.program.len() {
            Some(self.program[self.cursor])
        } else {
            None
        }
    }

    /// Whether the cursor stands at the program's end.
    pub fn is_halted(&self) -> (h: bool)
        ensures
            h == (self@.cursor >= self.program().len()),
    {
        self.cursor >= self.program.len()
    }

    /// Whether the next step reads a byte of input.
    pub fn wants_input(&self) -> (w: bool)
        ensures
            w == wants_input(self.program(), self@),
    {
        self.cursor < self.program.len() && self.program[self.cursor] == ','
    }

    /// Runs the instruction under the cursor. A `,` stores `input`, and fails where there is
    /// none. On a fault nothing changes.
    pub fn step(&mut self, input: Option<u8>) -> (r: Result<Action, Fault>)
        requires
            old(self).wf(),
        ensures
            final(self).wf(),
            final(self).program() == old(self).program(),
            match step_spec(old(self).program(), old(self)@, input) {
                Ok((m, a)) => r == Ok::<Action, Fault>(a) && final(self)@ == m,
                Err(f) => r == Err::<Action, Fault>(f) && final(self)@ == old(self)@,
            },
    {
        proof {
            lemma_step_keeps_loops_nested(self.program@, self@, input);
        }
        if self.cursor >= self.program.len() {
            return Ok(Action::Halted);
        }
        let c: char = self.program[self.cursor];
        let at: usize = self.cursor;
        if c == '+' {
            self.machine.increment_current();
            self.cursor = at + 1;
            Ok(Action::Continue)
        } else if c == '-' {
            self.machine.decrement_current();
            self.cursor = at + 1;
            Ok(Action::Continue)
        } else if c == '>' {
            self.machine.advance();
            self.cursor = at + 1;
            Ok(Action::Continue)
        } else if c == '<' {
            self.machine.retreat();
            self.cursor = at + 1;
            Ok(Action::Continue)
        } else if c == '.' {
            let b: u8 = self.machine.read_current();
            self.cursor = at + 1;
            Ok(Action::Emit(b))
        } else if c == ',' {
            match input {
                Some(b) => {
                    self.machine.write_current(b);
                    self.cursor = at + 1;
                    Ok(Action::Continue)
                },
                None => Err(Fault { error: VMError::InputExhausted, position: at }),
            }
        } else if c == '[' {
            if self.machine.read_current() != 0 {
                self.loop_stack.push(at);
                self.cursor = at + 1;
                Ok(Action::Continue)
            } else {
                match seek_closing_brace(&self.program, at + 1) {
                    Ok(close) => {
                        proof {
                            lemma_matching_close_unique(
                                self.program@,
                                at + 1,
                                close as int,
                                matching_close(self.program@, at + 1),
                            );
                        }
                        self.cursor = close + 1;
                        Ok(Action::Continue)
                    },
                    Err(_) => Err(Fault { error: VMError::UnmatchedOpenBrace, position: at }),
                }
            }
        } else if c == ']' {
            match self.loop_stack.pop() {
                Some(p) => {
                    self.cursor = p;
                    Ok(Action::Continue)
                },
                None => Err(Fault { error: VMError::UnmatchedCloseBrace, position: at }),
            }
        } else {
            self.cursor = at + 1;
            Ok(Action::Continue)
        }
    }
}

/// How a run stands.
#[derive(Clone, Copy, Debug, PartialEq, Eq, Structural)]
pub enum Status {
    /// The step budget ran out before the program's end.
    Running,
    /// The cursor reached the program's end.
    Halted,
    /// A fatal condition stopped the run.
    Faulted(Fault),
}

/// Mathematical model of a run in progress: the engine, how many input bytes were read,
/// the bytes sent so far, and how the run stands.
pub ghost struct RunView {
    pub engine: EngineView,
    pub consumed: nat,
    pub output: Seq<u8>,
    pub status: Status,
}

/// A run about to begin from engine state `m`.
pub open spec fn run_start(m: EngineView) -> RunView {
    RunView { engine: m, consumed: 0, output: Seq::empty(), status: Status::Running }
}

/// One step of a run that reads its input from `input`: a `,` takes the next unread byte
/// and fails when none is left, a `.` appends to the output.
pub open spec fn run_step(prog: Seq<char>, r: RunView, input: Seq<u8>) -> RunView {
    let offered = if wants_input(prog, r.engine) && r.consumed < input.len() {
        Some(input[r.consumed as int])
    } else {
        None
    };
    match step_spec(prog, r.engine, offered) {
        Ok((m, a)) => RunView {
            engine: m,
            consumed: if wants_input(prog, r.engine) {
                r.consumed + 1
            } else {
                r.consumed
            },
            output: match a {
                Action::Emit(b) => r.output.push(b),
                _ => r.output,
            },
            status: if a == Action::Halted {
                Status::Halted
            } else {
                Status::Running
            },
        },
        Err(f) => RunView {
            engine: r.engine,
            consumed: r.consumed,
            output: r.output,
            status: Status::Faulted(f),
        },
    }
}

/// A run continued for at most `fuel` steps; it stops early when it halts or faults.
pub open spec fn run_spec(prog: Seq<char>, r: RunView, input: Seq<u8>, fuel: nat) -> RunView
    decreases fuel,
{
    if fuel == 0 || r.status != Status::Running {
        r
    } else {
        run_spec(prog, run_step(prog, r, input), input, (fuel - 1) as nat)
    }
}

/// What a run produced.
pub struct RunReport {
    /// The bytes sent by `.`, in order.
    pub output: Vec<u8>,
    /// Number of input bytes read by `,`.
    pub consumed: usize,
    /// How the run ended.
    pub status: Status,
}

impl Interpreter {
    /// Runs at most `fuel` steps from the current state, reading `,` bytes from the start of
    /// `input` in order and collecting what `.` sends. Stops at the program's end, at a
    /// fault, or with status `Running` when the steps are used up; a later call goes on
    /// from there, with the input that is left.
    pub fn run(&mut self, input: &Vec<u8>, fuel: usize) -> (report: RunReport)
        requires
            old(self).wf(),
        ensures
            final(self).wf(),
            final(self).program() == old(self).program(),
            (RunView {
                engine: final(self)@,
                consumed: report.consumed as nat,
                output: report.output@,
                status: report.status,
            }) == run_spec(old(self).program(), run_start(old(self)@), input@, fuel as nat),
    {
        let mut output: Vec<u8> = Vec::new();
        let mut consumed: usize = 0;
        let mut status: Status = Status::Running;
        let mut left: usize = fuel;
        while left > 0 && status == Status::Running
            invariant
                self.wf(),
                self.program() == old(self).program(),
                consumed <= input@.len(),
                run_spec(
                    self.program(),
                    (RunView {
                        engine: self@,
                        consumed: consumed as nat,
                        output: output@,
                        status: status,
                    }),
                    input@,
                    left as nat,
                ) == run_spec(old(self).program(), run_start(old(self)@), input@, fuel as nat),
            decreases left,
        {
            let reads: bool = self.wants_input();
            let offered: Option<u8> = if reads && consumed < input.len() {
                Some(input[consumed])
            } else {
                None
            };
            match self.step(offered) {
                Ok(action) => {
                    if reads {
                        consumed = consumed + 1;
                    }
                    match action {
                        Action::Emit(b) => {
                            output.push(b);
                        },
                        Action::Halted => {
                            status = Status::Halted;
                        },
                        Action::Continue => {},
                    }
                },
                Err(fault) => {
                    status = Status::Faulted(fault);
                },
            }
            left = left - 1;
        }
        RunReport { output, consumed, status }
    }
}

} // verus!
