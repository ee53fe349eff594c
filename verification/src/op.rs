//! The sixteen opcodes. The 4-bit opcode space is exactly saturated: every
//! value a 4-bit field can take names a defined opcode.

use crate::error::{LC3Error, LC3Result};
use vstd::prelude::*;

verus! {

#[derive(Clone, Copy, PartialEq, Eq, Debug)]
pub enum Op {
    Br,
    Add,
    Ld,
    St,
    Jsr,
    And,
    Ldr,
    Str,
    Rti,
    Not,
    Ldi,
    Sti,
    Jmp,
    Res,
    Lea,
    Trap,
}

/// The opcode a 4-bit value names.
pub open spec fn op_of(v: u16) -> Op {
    if v == 0 {
        Op::Br
    } else if v == 1 {
        Op::Add
    } else if v == 2 {
        Op::Ld
    } else if v == 3 {
        Op::St
    } else if v == 4 {
        Op::Jsr
    } else if v == 5 {
        Op::And
    } else if v == 6 {
        Op::Ldr
    } else if v == 7 {
        Op::Str
    } else if v == 8 {
        Op::Rti
    } else if v == 9 {
        Op::Not
    } else if v == 10 {
        Op::Ldi
    } else if v == 11 {
        Op::Sti
    } else if v == 12 {
        Op::Jmp
    } else if v == 13 {
        Op::Res
    } else if v == 14 {
        Op::Lea
    } else {
        Op::Trap
    }
}

impl Op {
    /// Decode a 4-bit opcode value. Values 16 and above cannot come out of
    /// a 4-bit field; meeting one is an internal error.
    pub fn from_int(v: u16) -> (r: LC3Result<Op>)
        ensures
            v < 16 ==> r == Ok::<Op, LC3Error>(op_of(v)),
            v >= 16 ==> r == Err::<Op, LC3Error>(LC3Error::Internal),
    {
        match v {
            0 => Ok(Op::Br),
            1 => Ok(Op::Add),
            2 => Ok(Op::Ld),
            3 => Ok(Op::St),
            4 => Ok(Op::Jsr),
            5 => Ok(Op::And),
            6 => Ok(Op::Ldr),
            7 => Ok(Op::Str),
            8 => Ok(Op::Rti),
            9 => Ok(Op::Not),
            10 => Ok(Op::Ldi),
            11 => Ok(Op::Sti),
            12 => Ok(Op::Jmp),
            13 => Ok(Op::Res),
            14 => Ok(Op::Lea),
            15 => Ok(Op::Trap),
            _ => Err(LC3Error::Internal),
        }
    }
}

} // verus!
