//! Fixed-point scalars as the track header stores them: an integer value kept
//! in the upper half of a wider raw word.
use vstd::prelude::*;

verus! {

/// An 8.8 fixed-point value held as its raw 16-bit wire word.
#[derive(Debug, Clone, Copy, PartialEq, Eq, Structural)]
pub struct FixedPointU8 {
    pub raw: u16,
}

impl FixedPointU8 {
    /// The fixed-point form of an integer value.
    pub fn new(val: u8) -> (r: FixedPointU8)
        ensures
            r.raw == 256 * (val as u16),
    {
        FixedPointU8 { raw: 256 * (val as u16) }
    }

    /// A fixed-point value taken directly from its wire word.
    pub fn new_raw(raw: u16) -> (r: FixedPointU8)
        ensures
            r.raw == raw,
    {
        FixedPointU8 { raw }
    }

    /// The integer part of the value.
    pub fn value(&self) -> (r: u8)
        ensures
            r == self.raw / 256,
    {
        (self.raw / 256) as u8
    }

    /// The raw wire word.
    pub fn raw_value(&self) -> (r: u16)
        ensures
            r == self.raw,
    {
        self.raw
    }
}

/// A 16.16 fixed-point value held as its raw 32-bit wire word.
#[derive(Debug, Clone, Copy, PartialEq, Eq, Structural)]
pub struct FixedPointU16 {
    pub raw: u32,
}

impl FixedPointU16 {
    /// The fixed-point form of an integer value.
    pub fn new(val: u16) -> (r: FixedPointU16)
        ensures
            r.raw == 65536 * (val as u32),
    {
        FixedPointU16 { raw: 65536 * (val as u32) }
    }

    /// A fixed-point value taken directly from its wire word.
    pub fn new_raw(raw: u32) -> (r: FixedPointU16)
        ensures
            r.raw == raw,
    {
        FixedPointU16 { raw }
    }

    /// The integer part of the value.
    pub fn value(&self) -> (r: u16)
        ensures
            r == self.raw / 65536,
    {
        (self.raw / 65536) as u16
    }

    /// The raw wire word.
    pub fn raw_value(&self) -> (r: u32)
        ensures
            r == self.raw,
    {
        self.raw
    }
}

} // verus!
