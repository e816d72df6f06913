//! Values that are numbers of the machine, or a few of them.

use vstd::prelude::*;

verus! {

/// A 32-bit IEEE-754 number, kept as its bit pattern.
#[derive(Clone, Copy, Debug, PartialEq, Eq)]
pub struct OrderedF32 {
    bits: u32,
}

impl View for OrderedF32 {
    type V = u32;

    closed spec fn view(&self) -> u32 {
        self.bits
    }
}

impl OrderedF32 {
    pub fn from_bits(bits: u32) -> (r: Self)
        ensures
            r@ == bits,
    {
        OrderedF32 { bits }
    }

    pub fn to_bits(&self) -> (bits: u32)
        ensures
            bits == self@,
    {
        self.bits
    }
}

/// A 64-bit IEEE-754 number, kept as its bit pattern.
#[derive(Clone, Copy, Debug, PartialEq, Eq)]
pub struct OrderedF64 {
    bits: u64,
}

impl View for OrderedF64 {
    type V = u64;

    closed spec fn view(&self) -> u64 {
        self.bits
    }
}

impl OrderedF64 {
    pub fn from_bits(bits: u64) -> (r: Self)
        ensures
            r@ == bits,
    {
        OrderedF64 { bits }
    }

    pub fn to_bits(&self) -> (bits: u64)
        ensures
            bits == self@,
    {
        self.bits
    }
}

/// A fixed-precision decimal, kept as the sixteen bytes of its unordered
/// serialization.
#[derive(Clone, Copy, Debug, PartialEq, Eq)]
pub struct Decimal {
    bytes: [u8; 16],
}

impl View for Decimal {
    type V = Seq<u8>;

    closed spec fn view(&self) -> Seq<u8> {
        self.bytes@
    }
}

impl Decimal {
    pub fn unordered_deserialize(bytes: [u8; 16]) -> (r: Self)
        ensures
            r@ == bytes@,
    {
        Decimal { bytes }
    }

    pub fn unordered_serialize(&self) -> (bytes: [u8; 16])
        ensures
            bytes@ == self@,
    {
        self.bytes
    }

    /// A decimal is sixteen bytes.
    pub proof fn lemma_view_len(self)
        ensures
            self@.len() == 16,
    {
    }
}

/// A calendar offset. The three parts are independent: none is carried over
/// into another.
#[derive(Clone, Copy, Debug, PartialEq, Eq)]
pub struct IntervalUnit {
    months: i32,
    days: i32,
    ms: i64,
}

impl View for IntervalUnit {
    type V = (i32, i32, i64);

    closed spec fn view(&self) -> (i32, i32, i64) {
        (self.months, self.days, self.ms)
    }
}

impl IntervalUnit {
    pub fn new(months: i32, days: i32, ms: i64) -> (r: Self)
        ensures
            r@ == (months, days, ms),
    {
        IntervalUnit { months, days, ms }
    }

    pub fn get_months(&self) -> (months: i32)
        ensures
            months == self@.0,
    {
        self.months
    }

    pub fn get_days(&self) -> (days: i32)
        ensures
            days == self@.1,
    {
        self.days
    }

    pub fn get_ms(&self) -> (ms: i64)
        ensures
            ms == self@.2,
    {
        self.ms
    }
}

} // verus!
