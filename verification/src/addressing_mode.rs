use vstd::prelude::*;

verus! {

/// The rule by which an instruction's operand location is computed. A closed
/// tag set: the addressing resolver switches on it.
#[derive(Debug, Clone, Copy)]
pub enum AddressingMode {
    Immediate,
    ZeroPage,
    ZeroPageY,
    ZeroPageX,
    Absolute,
    AbsoluteX,
    AbsoluteY,
    Relative,
    Indirect,
    IndirectX,
    IndirectY,
    NoneAddressing,
}

} // verus!
