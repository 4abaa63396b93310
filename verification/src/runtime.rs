//! The tape machine, interpreted at run time.
//!
//! [`Program::parse`] turns source text into a [`Program`] tree, and
//! [`Program::run`] executes such a tree against a fresh [`Tape`] and an
//! input stream, following the transition function of [`crate::semantics`]
//! step for step.

use vstd::prelude::*;

use crate::semantics::{
    init_config, is_halted, lemma_halted_run_stable, lemma_steps_snoc, mem_init, mem_left,
    mem_right, mem_with_cell, steps, wrap_decr, wrap_incr, Config, MemState,
};

verus! {

/// A parsed program fragment: one instruction together with everything
/// after it, so the whole program is a right-leaning tree rooted at its
/// first instruction. Each node owns its continuation (and, for `Loop`, its
/// body) exclusively; once parsed the tree is immutable and may be run any
/// number of times.
#[derive(Debug, PartialEq, Eq)]
pub enum Program {
    /// No more instructions.
    Empty,
    /// `<`: move the cursor one cell to the left.
    Left(Box<Program>),
    /// `>`: move the cursor one cell to the right.
    Right(Box<Program>),
    /// `+`: increment the cell under the cursor, wrapping modulo 256.
    Incr(Box<Program>),
    /// `-`: decrement the cell under the cursor, wrapping modulo 256.
    Decr(Box<Program>),
    /// `,`: read the next input byte into the cell under the cursor; an
    /// exhausted input reads as zero.
    Input(Box<Program>),
    /// `.`: append the cell under the cursor to the output.
    Output(Box<Program>),
    /// `[body]next`: run `body` repeatedly as long as the cell under the
    /// cursor is non-zero, then go on with `next`.
    Loop(Box<Program>, Box<Program>),
}

/// The machine's memory: a logically bi-infinite sequence of byte cells,
/// all zero until touched, with a cursor on the current cell. It is stored
/// as a zipper, the cells on either side of the cursor each in their own
/// growable vector with the nearest cell last, so both cursor moves are
/// constant-time and the tape extends in either direction without bound.
pub struct Tape {
    left: Vec<u8>,
    cell: u8,
    right: Vec<u8>,
}

impl View for Tape {
    type V = MemState;

    closed spec fn view(&self) -> MemState {
        MemState { left: self.left@, cell: self.cell, right: self.right@ }
    }
}

impl Tape {
    /// A fresh tape: a single zero cell with the cursor on it.
    pub fn new() -> (t: Tape)
        ensures
            t@ == mem_init(),
    {
        let t = Tape { left: Vec::new(), cell: 0, right: Vec::new() };
        proof {
            assert(t@ =~= mem_init());
        }
        t
    }

    /// The cell under the cursor.
    pub fn get(&self) -> (v: u8)
        ensures
            v == self@.cell,
    {
        self.cell
    }

    /// Replaces the cell under the cursor.
    pub fn set(&mut self, v: u8)
        ensures
            final(self)@ == mem_with_cell(old(self)@, v),
    {
        self.cell = v;
        proof {
            assert(self@ =~= mem_with_cell(old(self)@, v));
        }
    }

    /// Increments the cell under the cursor, wrapping modulo 256.
    pub fn incr(&mut self)
        ensures
            final(self)@ == mem_with_cell(old(self)@, wrap_incr(old(self)@.cell)),
    {
        if self.cell == 255 {
            self.cell = 0;
        } else {
            self.cell = self.cell + 1;
        }
        proof {
            assert(self@ =~= mem_with_cell(old(self)@, wrap_incr(old(self)@.cell)));
        }
    }

    /// Decrements the cell under the cursor, wrapping modulo 256.
    pub fn decr(&mut self)
        ensures
            final(self)@ == mem_with_cell(old(self)@, wrap_decr(old(self)@.cell)),
    {
        if self.cell == 0 {
            self.cell = 255;
        } else {
            self.cell = self.cell - 1;
        }
        proof {
            assert(self@ =~= mem_with_cell(old(self)@, wrap_decr(old(self)@.cell)));
        }
    }

    /// Moves the cursor one cell to the left. Never fails: past the tape's
    /// current bound a fresh zero cell appears under the cursor.
    pub fn move_left(&mut self)
        ensures
            final(self)@ == mem_left(old(self)@),
    {
        self.right.push(self.cell);
        match self.left.pop() {
            Some(v) => {
                self.cell = v;
            },
            None => {
                self.cell = 0;
            },
        }
        proof {
            assert(self@ =~= mem_left(old(self)@));
        }
    }

    /// Moves the cursor one cell to the right, the mirror image of
    /// [`Tape::move_left`].
    pub fn move_right(&mut self)
        ensures
            final(self)@ == mem_right(old(self)@),
    {
        self.left.push(self.cell);
        match self.right.pop() {
            Some(v) => {
                self.cell = v;
            },
            None => {
                self.cell = 0;
            },
        }
        proof {
            assert(self@ =~= mem_right(old(self)@));
        }
    }
}

/// What a run with a step budget ended in: either the program ran to
/// completion and this is its full output, or the budget ran out first.
/// The language is Turing-complete, so a run cannot promise to finish; the
/// budget makes every run finite, and a caller that wants completion picks
/// a larger budget and runs again.
#[derive(Debug, PartialEq, Eq)]
pub enum RunOutcome {
    /// The program ran to completion; the accumulated output.
    Done(Vec<u8>),
    /// The step budget was exhausted before the program completed.
    OutOfFuel,
}

/// The control stack of the executing machine holds references into the
/// program tree; this is the sequence of fragments those references point
/// at, which is what the configurations of [`crate::semantics`] hold.
pub open spec fn ctrl_of(stack: Seq<&Program>) -> Seq<Program> {
    stack.map_values(|p: &Program| *p)
}

/// The configuration that an interpreter state stands for: the input
/// stream still to be read is the part of `input` from the read position
/// `pos` on.
pub open spec fn exec_config(
    ctrl: Seq<Program>,
    mem: MemState,
    input: Seq<u8>,
    pos: int,
    output: Seq<u8>,
) -> Config {
    Config { ctrl: ctrl, mem: mem, input: input.skip(pos), output: output }
}

impl Program {
    /// One transition of the machine: `self` is the control fragment just
    /// taken off the stack, its first instruction is applied, and what
    /// remains to run afterwards is pushed back. Follows
    /// [`crate::semantics::step`] exactly.
    fn step<'a>(
        &'a self,
        stack: &mut Vec<&'a Program>,
        tape: &mut Tape,
        input: &Vec<u8>,
        pos: &mut usize,
        output: &mut Vec<u8>,
    )
        requires
            *old(pos) <= input@.len(),
        ensures
            *final(pos) <= input@.len(),
            ({
                let before = exec_config(
                    ctrl_of(old(stack)@).push(*self),
                    old(tape)@,
                    input@,
                    *old(pos) as int,
                    old(output)@,
                );
                exec_config(
                    ctrl_of(final(stack)@),
                    final(tape)@,
                    input@,
                    *final(pos) as int,
                    final(output)@,
                ) == crate::semantics::step(before)
            }),
    {
        proof {
            let before = exec_config(
                ctrl_of(stack@).push(*self),
                tape@,
                input@,
                *pos as int,
                output@,
            );
            assert(before.ctrl.last() == *self);
            assert(before.ctrl.drop_last() =~= ctrl_of(stack@));
        }
        match self {
            Program::Empty => {},
            Program::Left(n) => {
                tape.move_left();
                stack.push(&**n);
                proof {
                    assert(ctrl_of(stack@) =~= ctrl_of(old(stack)@).push(**n));
                }
            },
            Program::Right(n) => {
                tape.move_right();
                stack.push(&**n);
                proof {
                    assert(ctrl_of(stack@) =~= ctrl_of(old(stack)@).push(**n));
                }
            },
            Program::Incr(n) => {
                tape.incr();
                stack.push(&**n);
                proof {
                    assert(ctrl_of(stack@) =~= ctrl_of(old(stack)@).push(**n));
                }
            },
            Program::Decr(n) => {
                tape.decr();
                stack.push(&**n);
                proof {
                    assert(ctrl_of(stack@) =~= ctrl_of(old(stack)@).push(**n));
                }
            },
            Program::Input(n) => {
                if *pos < input.len() {
                    let b = input[*pos];
                    tape.set(b);
                    *pos = *pos + 1;
                    proof {
                        assert(input@.skip(*pos as int) =~= input@.skip(
                            *old(pos) as int,
                        ).drop_first());
                        assert(input@.skip(*old(pos) as int).first() == b);
                    }
                } else {
                    tape.set(0);
                }
                stack.push(&**n);
                proof {
                    assert(ctrl_of(stack@) =~= ctrl_of(old(stack)@).push(**n));
                }
            },
            Program::Output(n) => {
                let v = tape.get();
                output.push(v);
                stack.push(&**n);
                proof {
                    assert(ctrl_of(stack@) =~= ctrl_of(old(stack)@).push(**n));
                }
            },
            Program::Loop(body, next) => {
                if tape.get() != 0 {
                    stack.push(self);
                    stack.push(&**body);
                    proof {
                        assert(ctrl_of(stack@) =~= ctrl_of(old(stack)@).push(*self).push(
                            **body,
                        ));
                    }
                } else {
                    stack.push(&**next);
                    proof {
                        assert(ctrl_of(stack@) =~= ctrl_of(old(stack)@).push(**next));
                    }
                }
            },
        }
        proof {
            let before = exec_config(
                ctrl_of(old(stack)@).push(*self),
                old(tape)@,
                input@,
                *old(pos) as int,
                old(output)@,
            );
            let after = exec_config(
                ctrl_of(stack@),
                tape@,
                input@,
                *pos as int,
                output@,
            );
            assert(after =~= crate::semantics::step(before));
        }
    }

    /// Runs `self` to completion against an existing machine state, or
    /// until the step budget `fuel` runs out; says which of the two
    /// happened. The machine state afterwards is the one that the
    /// transition function of [`crate::semantics`] reaches from the given
    /// state in some number of steps within the budget, and the budget is
    /// exhausted only if the program did not complete earlier.
    pub fn run_context(
        &self,
        tape: &mut Tape,
        input: &Vec<u8>,
        pos: &mut usize,
        output: &mut Vec<u8>,
        fuel: u64,
    ) -> (halted: bool)
        requires
            *old(pos) <= input@.len(),
        ensures
            *final(pos) <= input@.len(),
            ({
                let c0 = exec_config(
                    seq![*self],
                    old(tape)@,
                    input@,
                    *old(pos) as int,
                    old(output)@,
                );
                exists|n: nat|
                    {
                        let cn = #[trigger] steps(c0, n);
                        &&& n <= fuel
                        &&& final(tape)@ == cn.mem
                        &&& input@.skip(*final(pos) as int) == cn.input
                        &&& final(output)@ == cn.output
                        &&& (halted <==> is_halted(cn))
                        &&& (halted || n == fuel)
                    }
            }),
    {
        let ghost c0 = exec_config(seq![*self], tape@, input@, *pos as int, output@);
        let mut stack: Vec<&Program> = Vec::new();
        stack.push(self);
        proof {
            assert(ctrl_of(stack@) =~= seq![*self]);
            assert(exec_config(ctrl_of(stack@), tape@, input@, *pos as int, output@) =~= steps(
                c0,
                0,
            ));
        }
        let mut i: u64 = 0;
        while i < fuel && stack.len() != 0
            invariant
                i <= fuel,
                *pos <= input@.len(),
                exec_config(ctrl_of(stack@), tape@, input@, *pos as int, output@) == steps(
                    c0,
                    i as nat,
                ),
            decreases fuel - i,
        {
            let ghost pre_stack = stack@;
            let t = stack.pop();
            match t {
                Some(t) => {
                    proof {
                        assert(ctrl_of(pre_stack) =~= ctrl_of(stack@).push(*t));
                    }
                    t.step(&mut stack, tape, input, pos, output);
                    proof {
                        lemma_steps_snoc(c0, i as nat);
                        assert(exec_config(
                            ctrl_of(stack@),
                            tape@,
                            input@,
                            *pos as int,
                            output@,
                        ) =~= steps(c0, (i + 1) as nat));
                    }
                    i = i + 1;
                },
                None => {
                    proof {
                        assert(false);
                    }
                },
            }
        }
        let halted = stack.len() == 0;
        proof {
            let cn = steps(c0, i as nat);
            assert(cn.ctrl == ctrl_of(stack@));
            assert(is_halted(cn) <==> stack@.len() == 0);
        }
        halted
    }

    /// Executes the program against a fresh tape (a single zero cell with
    /// the cursor on it) and the given input stream, within a budget of
    /// `fuel` machine transitions. Returns the accumulated output when the
    /// program ran to completion, and reports the exhausted budget
    /// otherwise; the outcome is exactly what the transition function of
    /// [`crate::semantics`] prescribes for this program, input and budget.
    pub fn run(&self, input: &Vec<u8>, fuel: u64) -> (r: RunOutcome)
        ensures
            ({
                let c = steps(init_config(*self, input@), fuel as nat);
                match r {
                    RunOutcome::Done(out) => is_halted(c) && out@ == c.output,
                    RunOutcome::OutOfFuel => !is_halted(c),
                }
            }),
    {
        let mut tape = Tape::new();
        let mut pos: usize = 0;
        let mut output: Vec<u8> = Vec::new();
        let ghost c0 = exec_config(seq![*self], tape@, input@, 0, output@);
        proof {
            assert(c0 =~= init_config(*self, input@));
        }
        let halted = self.run_context(&mut tape, input, &mut pos, &mut output, fuel);
        proof {
            let n = choose|n: nat|
                {
                    let cn = #[trigger] steps(c0, n);
                    &&& n <= fuel
                    &&& tape@ == cn.mem
                    &&& input@.skip(pos as int) == cn.input
                    &&& output@ == cn.output
                    &&& (halted <==> is_halted(cn))
                    &&& (halted || n == fuel)
                };
            if halted {
                lemma_halted_run_stable(c0, n, fuel as nat);
            }
        }
        if halted {
            RunOutcome::Done(output)
        } else {
            RunOutcome::OutOfFuel
        }
    }
}

} // verus!
