//! The tape machine, evaluated by the type checker.
//!
//! This module encodes the same machine that [`crate::runtime`] interprets,
//! but as type-level derivation: a program is a [`Cons`] list of instruction
//! types, the tape is a [`Memory`] zipper of [`crate::peano`] numerals, and
//! one trait resolution step of [`RunMachine`] performs one instruction.
//! Running a program means asking the compiler for an associated type; no
//! run-time work is left except reading the answer off with [`Make`].
//!
//! The cells here are unbounded Peano naturals, so unlike the byte cells of
//! the runtime tape their arithmetic does not wrap: incrementing never
//! overflows and decrementing zero saturates at zero (see
//! [`crate::peano::DecrNat`]).

use core::marker::PhantomData;
use vstd::prelude::*;

use vstd::string::StringExecFns;

use crate::peano::{DecrNat, IncrNat, IsNonZero, S, True, False, U8, Zero};

verus! {

/// The empty type-level list, and also the empty program.
pub struct Nil;

/// The type-level list cell: head `H`, rest `R`.
pub struct Cons<H, R>(PhantomData<(H, R)>);

/// The machine's tape as a zipper: the cells left of the cursor (`L`,
/// nearest first), the cell under the cursor (`V`), and the cells right of
/// it (`R`, nearest first). The tape `[1, 2, 3, 4, 5]` with the cursor on
/// the `3` reads `Memory<Cons<2, Cons<1, Nil>>, 3, Cons<4, Cons<5, Nil>>>`.
pub struct Memory<L, V, R>(PhantomData<(L, V, R)>);

/// The whole machine state: the tape `Mem`, the input still to be read
/// (`Inp`, next character first) and the output written so far (`Out`, most
/// recent character first).
pub struct Machine<Mem, Inp, Out>(PhantomData<(Mem, Inp, Out)>);

/// Instruction: increment the cell under the cursor.
pub struct Incr;

/// Instruction: decrement the cell under the cursor.
pub struct Decr;

/// Instruction: move the cursor one cell to the right.
pub struct Right;

/// Instruction: move the cursor one cell to the left.
pub struct Left;

/// Instruction: as long as the cell under the cursor is non-zero, run
/// `Body`.
pub struct Loop<Body>(PhantomData<Body>);

/// Instruction: write the cell under the cursor to the output.
pub struct Write;

/// Instruction: pop the next input character into the cell under the
/// cursor; an exhausted input reads as zero.
pub struct Read;

/// A type-level function from a tape and an instruction to the next tape:
/// `<Mem as MemoryOp<Op>>::Next` is the tape after `Op`.
pub trait MemoryOp<Mem> {
    type Next;
}

/// `Memory<L, V, R>` becomes `Memory<L, V + 1, R>`.
impl<Ml, Mv: IncrNat, Mr> MemoryOp<Incr> for Memory<Ml, Mv, Mr> {
    type Next = Memory<Ml, <Mv as IncrNat>::Result, Mr>;
}

/// `Memory<L, V, R>` becomes `Memory<L, V - 1, R>` (saturating at zero).
impl<Ml, Mv: DecrNat, Mr> MemoryOp<Decr> for Memory<Ml, Mv, Mr> {
    type Next = Memory<Ml, <Mv as DecrNat>::Result, Mr>;
}

/// Moving right onto an allocated cell: the current cell is pushed onto the
/// left list and the nearest right cell becomes current.
impl<Ml, Mv, Mr1, Mrr> MemoryOp<Right> for Memory<Ml, Mv, Cons<Mr1, Mrr>> {
    type Next = Memory<Cons<Mv, Ml>, Mr1, Mrr>;
}

/// Moving right past the tape's edge: a fresh zero cell appears there.
impl<Ml, Mv> MemoryOp<Right> for Memory<Ml, Mv, Nil> {
    type Next = Memory<Cons<Mv, Ml>, Zero, Nil>;
}

/// Moving left onto an allocated cell.
impl<Mr, Mv, Ml1, Mlr> MemoryOp<Left> for Memory<Cons<Ml1, Mlr>, Mv, Mr> {
    type Next = Memory<Mlr, Ml1, Cons<Mv, Mr>>;
}

/// Moving left past the tape's edge: a fresh zero cell appears there.
impl<Mr, Mv> MemoryOp<Left> for Memory<Nil, Mv, Mr> {
    type Next = Memory<Nil, Zero, Cons<Mv, Mr>>;
}

/// Helper for running a loop, dispatching on the zero test of the current
/// cell: given [`False`] the loop is over and the rest of the program runs;
/// given [`True`] the body runs once and the whole loop runs again.
pub trait RunMachineIntermediate<Body, Rest, T> {
    type Result;
}

impl<Body, Rest, M> RunMachineIntermediate<Body, Rest, M> for False where M: RunMachine<Rest> {
    type Result = <M as RunMachine<Rest>>::Next;
}

impl<Body, Rest, M> RunMachineIntermediate<Body, Rest, M> for True where
    M: RunMachine<Body>,
    <M as RunMachine<Body>>::Next: RunMachine<Cons<Loop<Body>, Rest>>,
 {
    type Result = <<M as RunMachine<Body>>::Next as RunMachine<Cons<Loop<Body>, Rest>>>::Next;
}

/// The machine's driver: `<M as RunMachine<Prog>>::Next` is the machine
/// state after running the whole program `Prog` on the state `M`.
pub trait RunMachine<Prog> {
    type Next;
}

/// An exhausted program leaves the machine as it is.
impl<T> RunMachine<Nil> for T {
    type Next = T;
}

/// An instruction that only touches the tape is handed to [`MemoryOp`].
impl<Action, Rest, Mem, In, Out> RunMachine<Cons<Action, Rest>> for Machine<Mem, In, Out> where
    Mem: MemoryOp<Action>,
    Machine<<Mem as MemoryOp<Action>>::Next, In, Out>: RunMachine<Rest>,
 {
    type Next = <Machine<<Mem as MemoryOp<Action>>::Next, In, Out> as RunMachine<Rest>>::Next;
}

/// A loop defers to [`RunMachineIntermediate`] on the zero test of the
/// current cell.
impl<Body, Rest, Ml, Mr, In, Out, N> RunMachine<Cons<Loop<Body>, Rest>> for Machine<
    Memory<Ml, N, Mr>,
    In,
    Out,
> where
    N: IsNonZero,
    <N as IsNonZero>::Result: RunMachineIntermediate<
        Body,
        Rest,
        Machine<Memory<Ml, N, Mr>, In, Out>,
    >,
 {
    type Next = <<N as IsNonZero>::Result as RunMachineIntermediate<
        Body,
        Rest,
        Machine<Memory<Ml, N, Mr>, In, Out>,
    >>::Result;
}

/// Writing pushes the current cell onto the output list.
impl<Pn, Ml, Mv, Mr, In, Out> RunMachine<Cons<Write, Pn>> for Machine<
    Memory<Ml, Mv, Mr>,
    In,
    Out,
> where Machine<Memory<Ml, Mv, Mr>, In, Cons<Mv, Out>>: RunMachine<Pn> {
    type Next = <Machine<Memory<Ml, Mv, Mr>, In, Cons<Mv, Out>> as RunMachine<Pn>>::Next;
}

/// Reading from an exhausted input writes zero to the current cell.
impl<Pn, Ml, Mv, Mr, Out> RunMachine<Cons<Read, Pn>> for Machine<Memory<Ml, Mv, Mr>, Nil, Out> where
    Machine<Memory<Ml, Zero, Mr>, Nil, Out>: RunMachine<Pn>,
 {
    type Next = <Machine<Memory<Ml, Zero, Mr>, Nil, Out> as RunMachine<Pn>>::Next;
}

/// Reading pops the next input character into the current cell.
impl<Pn, Ml, Mv, Mr, Inv, Inr, Out> RunMachine<Cons<Read, Pn>> for Machine<
    Memory<Ml, Mv, Mr>,
    Cons<Inv, Inr>,
    Out,
> where Machine<Memory<Ml, Inv, Mr>, Inr, Out>: RunMachine<Pn> {
    type Next = <Machine<Memory<Ml, Inv, Mr>, Inr, Out> as RunMachine<Pn>>::Next;
}

/// A machine at the start of a run: a single zero tape cell, the given
/// input, and nothing written yet.
pub type MakeMachine<Input> = Machine<Memory<Nil, Zero, Nil>, Input, Nil>;

/// Reads the output list off a finished machine state.
pub trait GetOutput {
    type Output;
}

impl<Mem, In, Out> GetOutput for Machine<Mem, In, Out> {
    type Output = Out;
}

/// Run-time extraction: `T::make()` builds the ordinary value that the type
/// `T` encodes, verified to equal the specification-level reflection
/// `T::value()`.
pub trait Make<T: DeepView> {
    /// Whether the encoded value fits the target type (a numeral above 255
    /// has no `u8` form).
    spec fn makable() -> bool;

    /// The encoded value, reflected into specification land.
    spec fn value() -> <T as DeepView>::V;

    fn make() -> (r: T)
        requires
            Self::makable(),
        ensures
            r.deep_view() == Self::value(),
    ;
}

/// Run-time extraction of a whole machine component as nested values:
/// every numeral comes out as a byte, every list cell and every state
/// structure as a tuple, and the empty list as its name.
pub trait ToValue {
    type T: DeepView;

    /// Whether every numeral in the extracted value fits in a byte.
    spec fn representable() -> bool;

    /// The extracted value, reflected into specification land.
    spec fn extracted() -> <Self::T as DeepView>::V;

    fn to_value() -> (r: Self::T)
        requires
            Self::representable(),
        ensures
            r.deep_view() == Self::extracted(),
    ;
}

impl<T: U8> ToValue for T {
    type T = u8;

    open spec fn representable() -> bool {
        T::val() < 256
    }

    open spec fn extracted() -> u8 {
        T::val() as u8
    }

    fn to_value() -> u8 {
        T::u8()
    }
}

impl ToValue for Nil {
    type T = String;

    open spec fn representable() -> bool {
        true
    }

    open spec fn extracted() -> Seq<char> {
        "Nil"@
    }

    fn to_value() -> String {
        String::from_str("Nil")
    }
}

impl<H: ToValue, R: ToValue> ToValue for Cons<H, R> {
    type T = (<H as ToValue>::T, <R as ToValue>::T);

    open spec fn representable() -> bool {
        H::representable() && R::representable()
    }

    open spec fn extracted() -> (
        <<H as ToValue>::T as DeepView>::V,
        <<R as ToValue>::T as DeepView>::V,
    ) {
        (H::extracted(), R::extracted())
    }

    fn to_value() -> (<H as ToValue>::T, <R as ToValue>::T) {
        (H::to_value(), R::to_value())
    }
}

impl<L: ToValue, V: ToValue, R: ToValue> ToValue for Memory<L, V, R> {
    type T = (<L as ToValue>::T, <V as ToValue>::T, <R as ToValue>::T);

    open spec fn representable() -> bool {
        L::representable() && V::representable() && R::representable()
    }

    open spec fn extracted() -> (
        <<L as ToValue>::T as DeepView>::V,
        <<V as ToValue>::T as DeepView>::V,
        <<R as ToValue>::T as DeepView>::V,
    ) {
        (L::extracted(), V::extracted(), R::extracted())
    }

    fn to_value() -> (<L as ToValue>::T, <V as ToValue>::T, <R as ToValue>::T) {
        (L::to_value(), V::to_value(), R::to_value())
    }
}

impl<M: ToValue, I: ToValue, O: ToValue> ToValue for Machine<M, I, O> {
    type T = (<M as ToValue>::T, <I as ToValue>::T, <O as ToValue>::T);

    open spec fn representable() -> bool {
        M::representable() && I::representable() && O::representable()
    }

    open spec fn extracted() -> (
        <<M as ToValue>::T as DeepView>::V,
        <<I as ToValue>::T as DeepView>::V,
        <<O as ToValue>::T as DeepView>::V,
    ) {
        (M::extracted(), I::extracted(), O::extracted())
    }

    fn to_value() -> (<M as ToValue>::T, <I as ToValue>::T, <O as ToValue>::T) {
        (M::to_value(), I::to_value(), O::to_value())
    }
}

/// Relies on `String::push`: it appends the given character to the end of
/// the string.
#[verifier::external_body]
fn push_char(s: &mut String, c: char)
    ensures
        final(s)@ == old(s)@.push(c),
{
    s.push(c);
}

/// Run-time extraction of an output list as text, most recently written
/// character last, each cell read as the character with its code.
pub trait AsString {
    /// Whether every cell in the list fits in a byte.
    spec fn printable() -> bool;

    /// The extracted text, reflected into specification land.
    spec fn text() -> Seq<char>;

    fn as_string() -> (r: String)
        requires
            Self::printable(),
        ensures
            r@ == Self::text(),
    ;
}

impl AsString for Nil {
    open spec fn printable() -> bool {
        true
    }

    open spec fn text() -> Seq<char> {
        Seq::empty()
    }

    fn as_string() -> String {
        String::new()
    }
}

impl<H: U8, T: AsString> AsString for Cons<H, T> {
    open spec fn printable() -> bool {
        H::val() < 256 && T::printable()
    }

    open spec fn text() -> Seq<char> {
        T::text().push(H::val() as u8 as char)
    }

    fn as_string() -> String {
        let mut s = T::as_string();
        push_char(&mut s, H::u8() as char);
        s
    }
}

impl Make<u8> for Zero {
    open spec fn makable() -> bool {
        true
    }

    open spec fn value() -> u8 {
        0
    }

    fn make() -> u8 {
        0
    }
}

impl Make<u32> for Zero {
    open spec fn makable() -> bool {
        true
    }

    open spec fn value() -> u32 {
        0
    }

    fn make() -> u32 {
        0
    }
}

impl<P: Make<u8>> Make<u8> for S<P> {
    open spec fn makable() -> bool {
        P::makable() && P::value() < 255
    }

    open spec fn value() -> u8 {
        (P::value() + 1) as u8
    }

    fn make() -> u8 {
        P::make() + 1
    }
}

impl<P: Make<u32>> Make<u32> for S<P> {
    open spec fn makable() -> bool {
        P::makable() && P::value() < 0xffff_ffff
    }

    open spec fn value() -> u32 {
        (P::value() + 1) as u32
    }

    fn make() -> u32 {
        P::make() + 1
    }
}

impl<T: DeepView> Make<Vec<T>> for Nil {
    open spec fn makable() -> bool {
        true
    }

    open spec fn value() -> Seq<<T as DeepView>::V> {
        Seq::empty()
    }

    fn make() -> Vec<T> {
        let res: Vec<T> = Vec::new();
        proof {
            assert(res.deep_view() =~= Seq::<<T as DeepView>::V>::empty());
        }
        res
    }
}

/// A list is extracted back to front: the head of the output list is the
/// most recently written character, so it comes last in the extracted
/// vector.
impl<H: Make<T>, Tail: Make<Vec<T>>, T: DeepView> Make<Vec<T>> for Cons<H, Tail> {
    open spec fn makable() -> bool {
        H::makable() && Tail::makable()
    }

    open spec fn value() -> Seq<<T as DeepView>::V> {
        Tail::value().push(H::value())
    }

    fn make() -> Vec<T> {
        let mut res = Tail::make();
        res.push(H::make());
        proof {
            assert(res.deep_view() =~= Tail::value().push(H::value()));
        }
        res
    }
}

} // verus!
