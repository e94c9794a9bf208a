//! A verified interpreter core for the 6502 microprocessor: the register
//! file and status flags, a 64KB little-endian memory bus, the
//! addressing-mode resolver, and the fetch-decode-execute loop.

pub mod addressing_mode;
pub mod cpu;
pub mod cpu_status;
