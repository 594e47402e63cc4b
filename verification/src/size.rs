//! The abstract numeric capability that every data quantity satisfies:
//! a total order, an addition, and a zero value. Both byte counts and
//! block counts implement it, so the rest of the crate is generic over it.

use vstd::prelude::*;

verus! {

/// Saturating addition on the mathematical values of two sizes: quantities
/// add exactly while the sum fits in a `u64` and stick at `u64::MAX` beyond.
pub open spec fn sat_add_u64(a: u64, b: u64) -> u64 {
    if a + b <= u64::MAX {
        (a + b) as u64
    } else {
        u64::MAX
    }
}

/// An orderable, summable quantity with a zero value, measured by the `u64`
/// it stands for. Addition saturates at `u64::MAX`, which keeps it total,
/// commutative and associative.
pub trait Size: Copy + Sized {
    /// The mathematical value of this quantity.
    spec fn val(self) -> u64;

    /// The zero quantity.
    fn zero() -> (r: Self)
        ensures
            r.val() == 0,
    ;

    /// Saturating addition.
    fn add(self, other: Self) -> (r: Self)
        ensures
            r.val() == sat_add_u64(self.val(), other.val()),
    ;

    /// Total order by value.
    fn le(self, other: Self) -> (r: bool)
        ensures
            r == (self.val() <= other.val()),
    ;

    /// The value as a plain integer, for display and layout arithmetic.
    fn value(self) -> (r: u64)
        ensures
            r == self.val(),
    ;
}

/// A quantity of bytes.
#[derive(Clone, Copy, Debug, PartialEq, Eq, Structural)]
pub struct Bytes(pub u64);

impl Bytes {
    /// Wrap a raw byte count.
    pub fn new(inner: u64) -> (r: Self)
        ensures
            r.val() == inner,
    {
        Bytes(inner)
    }

    /// The raw byte count.
    pub fn inner(self) -> (r: u64)
        ensures
            r == self.val(),
    {
        self.0
    }
}

impl Size for Bytes {
    open spec fn val(self) -> u64 {
        self.0
    }

    fn zero() -> (r: Self)
        ensures
            r.val() == 0,
    {
        Bytes(0)
    }

    fn add(self, other: Self) -> (r: Self)
        ensures
            r.val() == sat_add_u64(self.val(), other.val()),
    {
        Bytes(self.0.saturating_add(other.0))
    }

    fn le(self, other: Self) -> (r: bool)
        ensures
            r == (self.val() <= other.val()),
    {
        self.0 <= other.0
    }

    fn value(self) -> (r: u64)
        ensures
            r == self.val(),
    {
        self.0
    }
}

/// A quantity of filesystem blocks.
#[derive(Clone, Copy, Debug, PartialEq, Eq, Structural)]
pub struct Blocks(pub u64);

impl Blocks {
    /// Wrap a raw block count.
    pub fn new(inner: u64) -> (r: Self)
        ensures
            r.val() == inner,
    {
        Blocks(inner)
    }

    /// The raw block count.
    pub fn inner(self) -> (r: u64)
        ensures
            r == self.val(),
    {
        self.0
    }
}

impl Size for Blocks {
    open spec fn val(self) -> u64 {
        self.0
    }

    fn zero() -> (r: Self)
        ensures
            r.val() == 0,
    {
        Blocks(0)
    }

    fn add(self, other: Self) -> (r: Self)
        ensures
            r.val() == sat_add_u64(self.val(), other.val()),
    {
        Blocks(self.0.saturating_add(other.0))
    }

    fn le(self, other: Self) -> (r: bool)
        ensures
            r == (self.val() <= other.val()),
    {
        self.0 <= other.0
    }

    fn value(self) -> (r: u64)
        ensures
            r == self.val(),
    {
        self.0
    }
}

} // verus!
