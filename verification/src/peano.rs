//! Type-level Peano numerals.
//!
//! A natural number is encoded as a type: [`Zero`], or [`S<P>`] for the
//! successor of `P`. The types are zero-sized; the numbers exist only while
//! the type checker runs. Arithmetic on them is performed by trait
//! resolution: each operation is a trait whose associated type names the
//! result.
//!
//! Every numeral type also reflects its mathematical value into
//! specification land through [`Peano::val`], and [`U8::u8`] extracts that
//! value at run time, verified to agree with the reflection.

use core::marker::PhantomData;
use vstd::prelude::*;

verus! {

/// The numeral for zero. A zero-sized type: it has no run-time content.
pub struct Zero;

/// The successor numeral: `S<P>` stands for `P + 1`, so `S<Zero>` is one,
/// `S<S<Zero>>` is two, and so on. The `PhantomData` field only ties the
/// otherwise unused type parameter down.
pub struct S<P>(PhantomData<P>);

pub type One = S<Zero>;

pub type Two = S<One>;

pub type Three = S<Two>;

pub type Four = S<Three>;

pub type Five = S<Four>;

pub type Six = S<Five>;

/// Reflection of a numeral type into its mathematical value.
pub trait Peano {
    /// The natural number that this type encodes.
    spec fn val() -> nat;
}

impl Peano for Zero {
    open spec fn val() -> nat {
        0
    }
}

impl<P: Peano> Peano for S<P> {
    open spec fn val() -> nat {
        P::val() + 1
    }
}

/// Type-level addition: `<A as Add<B>>::Sum` is the numeral for `A + B`.
pub trait Add<A> {
    type Sum;
}

impl<A> Add<Zero> for A {
    type Sum = A;
}

impl<A, B> Add<S<B>> for A where S<A>: Add<B> {
    type Sum = <S<A> as Add<B>>::Sum;
}

/// Type-level multiplication: `<A as Mul<B>>::Prod` is the numeral for
/// `A * B`.
pub trait Mul<A> {
    type Prod;
}

impl<A> Mul<Zero> for A {
    type Prod = Zero;
}

impl<A, B> Mul<S<B>> for A where A: Mul<B>, <A as Mul<B>>::Prod: Add<A> {
    type Prod = <<A as Mul<B>>::Prod as Add<A>>::Sum;
}

/// Type-level predecessor, saturating at zero: decrementing [`Zero`] yields
/// [`Zero`] again.
pub trait DecrNat {
    type Result;
}

impl DecrNat for Zero {
    type Result = Zero;
}

impl<A> DecrNat for S<A> {
    type Result = A;
}

/// Type-level truth, the answer given by [`IsNonZero`].
pub struct True;

/// Type-level falsehood, the answer given by [`IsNonZero`].
pub struct False;

/// Type-level zero test: the associated type is [`True`] for a successor and
/// [`False`] for [`Zero`].
pub trait IsNonZero {
    type Result;
}

impl IsNonZero for Zero {
    type Result = False;
}

impl<T> IsNonZero for S<T> {
    type Result = True;
}

/// Type-level increment: the associated type is the successor.
pub trait IncrNat {
    type Result;
}

impl<T> IncrNat for T {
    type Result = S<T>;
}

/// Marker for the numerals that are not [`Zero`].
pub trait NonZero {

}

impl<T> NonZero for S<T> {

}

/// Run-time extraction of a numeral: `T::u8()` computes the value that the
/// type `T` encodes, provided it fits in a byte.
pub trait U8: Peano {
    fn u8() -> (r: u8)
        requires
            Self::val() < 256,
        ensures
            r == Self::val(),
    ;
}

impl U8 for Zero {
    fn u8() -> u8 {
        0
    }
}

impl<P: U8> U8 for S<P> {
    fn u8() -> u8 {
        P::u8() + 1
    }
}

} // verus!
