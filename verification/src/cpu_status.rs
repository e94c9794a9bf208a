use vstd::prelude::*;

verus! {

/// The 6502 processor status register: seven named single-bit flags packed
/// into one byte. One bit (bit 5) carries no named flag; every operation
/// below touches only the bits of the mask it is given, so that bit, like
/// every flag outside the mask, is preserved.
#[derive(Debug, PartialEq, Eq, Structural)]
pub struct CpuStatus(u8);

/// Holds exactly when every bit of `mask` is set in `status`.
pub open spec fn has_flags(status: u8, mask: u8) -> bool {
    status & mask == mask
}

impl View for CpuStatus {
    type V = u8;

    closed spec fn view(&self) -> u8 {
        self.0
    }
}

impl CpuStatus {
    pub const CARRY: u8 = 0b1;
    pub const ZERO: u8 = 0b10;
    pub const INTERRUPTDISABLE: u8 = 0b100;
    pub const DECIMALMODE: u8 = 0b1000;
    pub const BREAK: u8 = 0b10000;
    pub const OVERFLOW: u8 = 0b1000000;
    pub const NEGATIVE: u8 = 0b10000000;

    /// A status register with every flag clear.
    pub fn new() -> (s: Self)
        ensures
            s@ == 0,
    {
        CpuStatus(0)
    }

    /// The raw register byte.
    pub fn get(&self) -> (r: u8)
        ensures
            r == self@,
    {
        self.0
    }

    /// ORs `flags` into the register; returns the new register byte.
    pub fn set(&mut self, flags: u8) -> (r: u8)
        ensures
            final(self)@ == (old(self)@ | flags),
            r == final(self)@,
    {
        self.0 |= flags;
        self.0
    }

    /// Clears every bit of `flags`, leaving all other bits untouched;
    /// returns the new register byte.
    pub fn clear(&mut self, flags: u8) -> (r: u8)
        ensures
            final(self)@ == (old(self)@ & !flags),
            r == final(self)@,
    {
        self.0 &= !flags;
        self.0
    }

    /// True iff every bit of `flags` is set. Querying with an empty mask is
    /// a caller error, ruled out by the precondition.
    pub fn is_set(&self, flags: u8) -> (r: bool)
        requires
            flags != 0,
        ensures
            r == has_flags(self@, flags),
    {
        self.0 & flags == flags
    }
}

} // verus!
