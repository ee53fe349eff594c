//! The register file's addressing: eight general-purpose registers, the
//! program counter, and the condition-flags register.

use vstd::prelude::*;

verus! {

/// Total number of registers: eight general-purpose, PC, condition flags.
pub const NUM_REGISTERS: usize = 10;

/// Index of the program counter in the register file.
pub const PC_INDEX: u8 = 8;

/// Index of the condition-flags register in the register file.
pub const COND_INDEX: u8 = 9;

#[derive(Clone, Copy, PartialEq, Eq, Debug)]
pub enum Register {
    RR0,
    RR1,
    RR2,
    RR3,
    RR4,
    RR5,
    RR6,
    RR7,
    RPC,
    RCond,
}

impl Register {
    /// The register's index in the register file.
    pub open spec fn index_spec(self) -> u8 {
        match self {
            Register::RR0 => 0,
            Register::RR1 => 1,
            Register::RR2 => 2,
            Register::RR3 => 3,
            Register::RR4 => 4,
            Register::RR5 => 5,
            Register::RR6 => 6,
            Register::RR7 => 7,
            Register::RPC => 8,
            Register::RCond => 9,
        }
    }

    pub fn to_u8(self) -> (r: u8)
        ensures
            r == self.index_spec(),
            r < 10,
    {
        match self {
            Register::RR0 => 0,
            Register::RR1 => 1,
            Register::RR2 => 2,
            Register::RR3 => 3,
            Register::RR4 => 4,
            Register::RR5 => 5,
            Register::RR6 => 6,
            Register::RR7 => 7,
            Register::RPC => 8,
            Register::RCond => 9,
        }
    }
}

} // verus!
