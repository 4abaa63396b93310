//! The machine semantics, stated once.
//!
//! A configuration holds a control stack of program fragments, the tape, the
//! input still to be read and the output written so far. [`step`] performs
//! exactly one transition; [`steps`] iterates it. The runtime interpreter in
//! [`crate::runtime`] is verified to follow these transitions step for step.
//!
//! Cell arithmetic wraps modulo 256 in both directions, the tape grows with
//! a fresh zero cell whenever the cursor moves past either bound, and
//! reading from an exhausted input writes zero to the current cell; those
//! policies are fixed here, once, for every evaluation strategy.

use vstd::prelude::*;

use crate::runtime::Program;

verus! {

/// The tape together with the cursor, as mathematical values: `left` holds
/// the cells left of the cursor and `right` those right of it, in both
/// cases with the cell nearest the cursor last; `cell` is the cell under
/// the cursor.
#[verifier::ext_equal]
pub struct MemState {
    pub left: Seq<u8>,
    pub cell: u8,
    pub right: Seq<u8>,
}

/// One machine configuration: the control stack (`ctrl`, next fragment
/// last), the tape, the input still to be read and the output written so
/// far.
#[verifier::ext_equal]
pub struct Config {
    pub ctrl: Seq<Program>,
    pub mem: MemState,
    pub input: Seq<u8>,
    pub output: Seq<u8>,
}

/// A fresh tape: a single zero cell with the cursor on it.
pub open spec fn mem_init() -> MemState {
    MemState { left: Seq::empty(), cell: 0, right: Seq::empty() }
}

/// Incrementing a cell wraps: 255 becomes 0.
pub open spec fn wrap_incr(c: u8) -> u8 {
    if c == 255 {
        0
    } else {
        (c + 1) as u8
    }
}

/// Decrementing a cell wraps: 0 becomes 255.
pub open spec fn wrap_decr(c: u8) -> u8 {
    if c == 0 {
        255
    } else {
        (c - 1) as u8
    }
}

/// The tape with the cell under the cursor replaced by `v`.
pub open spec fn mem_with_cell(m: MemState, v: u8) -> MemState {
    MemState { cell: v, ..m }
}

/// Moving the cursor one cell to the left. Past the tape's current left
/// bound this never fails: a fresh zero cell appears under the cursor.
pub open spec fn mem_left(m: MemState) -> MemState {
    if m.left.len() == 0 {
        MemState { left: m.left, cell: 0, right: m.right.push(m.cell) }
    } else {
        MemState { left: m.left.drop_last(), cell: m.left.last(), right: m.right.push(m.cell) }
    }
}

/// Moving the cursor one cell to the right, the mirror image of
/// [`mem_left`].
pub open spec fn mem_right(m: MemState) -> MemState {
    if m.right.len() == 0 {
        MemState { left: m.left.push(m.cell), cell: 0, right: m.right }
    } else {
        MemState { left: m.left.push(m.cell), cell: m.right.last(), right: m.right.drop_last() }
    }
}

/// A configuration whose control stack is exhausted: the machine has
/// halted, and [`step`] leaves it unchanged.
pub open spec fn is_halted(c: Config) -> bool {
    c.ctrl.len() == 0
}

/// One transition of the machine: the topmost control fragment is examined,
/// its first instruction is applied to the tape and the streams, and the
/// fragments that remain to run afterwards replace it on the stack. A
/// halted configuration steps to itself.
pub open spec fn step(c: Config) -> Config {
    if c.ctrl.len() == 0 {
        c
    } else {
        let rest = c.ctrl.drop_last();
        match c.ctrl.last() {
            Program::Empty => Config { ctrl: rest, ..c },
            Program::Left(n) => Config { ctrl: rest.push(*n), mem: mem_left(c.mem), ..c },
            Program::Right(n) => Config { ctrl: rest.push(*n), mem: mem_right(c.mem), ..c },
            Program::Incr(n) => Config {
                ctrl: rest.push(*n),
                mem: mem_with_cell(c.mem, wrap_incr(c.mem.cell)),
                ..c
            },
            Program::Decr(n) => Config {
                ctrl: rest.push(*n),
                mem: mem_with_cell(c.mem, wrap_decr(c.mem.cell)),
                ..c
            },
            Program::Input(n) => if c.input.len() == 0 {
                Config { ctrl: rest.push(*n), mem: mem_with_cell(c.mem, 0), ..c }
            } else {
                Config {
                    ctrl: rest.push(*n),
                    mem: mem_with_cell(c.mem, c.input.first()),
                    input: c.input.drop_first(),
                    ..c
                }
            },
            Program::Output(n) => Config {
                ctrl: rest.push(*n),
                output: c.output.push(c.mem.cell),
                ..c
            },
            Program::Loop(body, next) => if c.mem.cell == 0 {
                Config { ctrl: rest.push(*next), ..c }
            } else {
                // The loop fragment stays beneath its body, so the cell is
                // tested again once the body has run to completion.
                Config { ctrl: c.ctrl.push(*body), ..c }
            },
        }
    }
}

/// `n` transitions of the machine.
pub open spec fn steps(c: Config, n: nat) -> Config
    decreases n,
{
    if n == 0 {
        c
    } else {
        steps(step(c), (n - 1) as nat)
    }
}

/// The configuration a run of `p` starts from: only `p` on the control
/// stack, a fresh tape, the whole input ahead, nothing written.
pub open spec fn init_config(p: Program, input: Seq<u8>) -> Config {
    Config { ctrl: seq![p], mem: mem_init(), input, output: Seq::empty() }
}

/// Whether a run of `p` on `input` reaches the end of the program within
/// `fuel` transitions. A program may loop forever, so every statement about
/// a run is relative to such a budget.
pub open spec fn halts_within(p: Program, input: Seq<u8>, fuel: nat) -> bool {
    is_halted(steps(init_config(p, input), fuel))
}

/// The output accumulated after `fuel` transitions of a run of `p` on
/// `input`. When [`halts_within`] holds this is the run's full result.
pub open spec fn output_within(p: Program, input: Seq<u8>, fuel: nat) -> Seq<u8> {
    steps(init_config(p, input), fuel).output
}

/// The cell after `n` increments.
pub open spec fn incr_n(c: u8, n: nat) -> u8
    decreases n,
{
    if n == 0 {
        c
    } else {
        incr_n(wrap_incr(c), (n - 1) as nat)
    }
}

/// The cell after `n` decrements.
pub open spec fn decr_n(c: u8, n: nat) -> u8
    decreases n,
{
    if n == 0 {
        c
    } else {
        decr_n(wrap_decr(c), (n - 1) as nat)
    }
}

/// Repeated increments can be peeled off at either end.
proof fn lemma_incr_n_commute(c: u8, n: nat)
    ensures
        incr_n(wrap_incr(c), n) == wrap_incr(incr_n(c, n)),
    decreases n,
{
    if n > 0 {
        lemma_incr_n_commute(wrap_incr(c), (n - 1) as nat);
    }
}

/// Wraparound law: cell arithmetic is modulo 256 in both directions —
/// decrementing a cell at 0 yields 255 and incrementing one at 255 yields
/// 0 — and therefore `n` increments followed by `n` decrements return any
/// cell to its original value.
pub proof fn lemma_cell_wraparound(c: u8, n: nat)
    ensures
        wrap_decr(0) == 255,
        wrap_incr(255) == 0,
        decr_n(incr_n(c, n), n) == c,
    decreases n,
{
    if n > 0 {
        lemma_incr_n_commute(c, (n - 1) as nat);
        assert(incr_n(c, n) == wrap_incr(incr_n(c, (n - 1) as nat)));
        assert(wrap_decr(wrap_incr(incr_n(c, (n - 1) as nat))) == incr_n(c, (n - 1) as nat));
        lemma_cell_wraparound(c, (n - 1) as nat);
    }
}

/// Tape growth law: moving the cursor past either current bound of the
/// tape never fails — [`mem_left`] and [`mem_right`] are total — and the
/// cell it uncovers there is freshly zeroed. Every cell enters the tape
/// this way (or as the zero cell of [`mem_init`]), so a cell that was
/// never written reads 0.
pub proof fn lemma_move_past_bound_reads_zero(m: MemState)
    ensures
        m.left.len() == 0 ==> mem_left(m).cell == 0,
        m.right.len() == 0 ==> mem_right(m).cell == 0,
{
}

/// Stepping commutes with itself: `m + n` transitions are `m` transitions
/// followed by `n` more.
pub proof fn lemma_steps_add(c: Config, m: nat, n: nat)
    ensures
        steps(c, m + n) == steps(steps(c, m), n),
    decreases m,
{
    if m > 0 {
        lemma_steps_add(step(c), (m - 1) as nat, n);
    }
}

/// One more transition after `n` is the transition of the `n`-th
/// configuration.
pub proof fn lemma_steps_snoc(c: Config, n: nat)
    ensures
        steps(c, n + 1) == step(steps(c, n)),
    decreases n,
{
    assert(steps(c, n + 1) == steps(step(c), n));
    if n > 0 {
        lemma_steps_snoc(step(c), (n - 1) as nat);
        assert(steps(c, n) == steps(step(c), (n - 1) as nat));
    }
}

/// A halted machine stays halted, unchanged, for any number of further
/// transitions.
pub proof fn lemma_halted_steps(c: Config, n: nat)
    requires
        is_halted(c),
    ensures
        steps(c, n) == c,
    decreases n,
{
    if n > 0 {
        lemma_halted_steps(step(c), (n - 1) as nat);
    }
}

/// A run that has halted looks the same under any larger budget: the
/// configuration, and with it the output, no longer changes.
pub proof fn lemma_halted_run_stable(c: Config, n: nat, fuel: nat)
    requires
        n <= fuel,
        is_halted(steps(c, n)),
    ensures
        steps(c, fuel) == steps(c, n),
{
    lemma_steps_add(c, n, (fuel - n) as nat);
    lemma_halted_steps(steps(c, n), (fuel - n) as nat);
}

/// Re-running a program is idempotent: two runs of the same program on the
/// same input that both reach the end of the program produce the same
/// output, whatever step budgets the two runs were given. A `Program` is
/// pure data, so a run leaves no trace behind that could sway the next one.
pub proof fn lemma_rerun_same_output(p: Program, input: Seq<u8>, fuel1: nat, fuel2: nat)
    requires
        halts_within(p, input, fuel1),
        halts_within(p, input, fuel2),
    ensures
        output_within(p, input, fuel1) == output_within(p, input, fuel2),
{
    let c = init_config(p, input);
    if fuel1 <= fuel2 {
        lemma_halted_run_stable(c, fuel1, fuel2);
    } else {
        lemma_halted_run_stable(c, fuel2, fuel1);
    }
}

} // verus!
