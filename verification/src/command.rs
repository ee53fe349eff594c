//! One fetched instruction word and the pure field extractions the opcode
//! handlers apply to it: opcode, register fields, mode bits, and the
//! sign-extended immediates and offsets of widths 5, 6, 9 and 11 bits.

use vstd::prelude::*;

verus! {

/// An immutable 16-bit instruction word. The opcode is the high 4 bits; the
/// low 12 bits are operand fields whose meaning depends on the opcode.
#[derive(Clone, Copy, PartialEq, Eq, Debug)]
pub struct Command {
    bytes: u16,
}

/// The opcode: the high 4 bits of the instruction word.
pub open spec fn op_code_of(b: u16) -> u16 {
    b / 0x1000
}

/// The destination (or source, for stores) register field: bits 11..9.
pub open spec fn dr_of(b: u16) -> u16 {
    (b / 0x200) % 8
}

/// The first source (or base) register field: bits 8..6.
pub open spec fn sr1_of(b: u16) -> u16 {
    (b / 0x40) % 8
}

/// The second source register field: bits 2..0.
pub open spec fn sr2_of(b: u16) -> u16 {
    b % 8
}

/// The immediate-mode bit of ADD and AND: bit 5.
pub open spec fn imm_mode_of(b: u16) -> bool {
    (b / 0x20) % 2 == 1
}

/// The long-offset-mode bit of JSR: bit 11.
pub open spec fn long_mode_of(b: u16) -> bool {
    (b / 0x800) % 2 == 1
}

/// Sign extension of an `n`-bit two's-complement field to 16 bits, with the
/// field given as `x < full` where `full == 2^n`: values below `full / 2`
/// stay as they are, the rest represent negatives and gain `0x10000 - full`.
pub open spec fn sext_spec(x: u16, full: u16) -> u16 {
    if x >= full / 2 {
        (x + 0x10000 - full) as u16
    } else {
        x
    }
}

/// The sign-extended 5-bit immediate of ADD and AND: bits 4..0.
pub open spec fn imm5_of(b: u16) -> u16 {
    sext_spec(b % 0x20, 0x20)
}

/// The sign-extended 6-bit offset of LDR and STR: bits 5..0.
pub open spec fn offset6_of(b: u16) -> u16 {
    sext_spec(b % 0x40, 0x40)
}

/// The sign-extended 9-bit PC-relative offset: bits 8..0.
pub open spec fn offset9_of(b: u16) -> u16 {
    sext_spec(b % 0x200, 0x200)
}

/// The sign-extended 11-bit offset of JSR: bits 10..0.
pub open spec fn offset11_of(b: u16) -> u16 {
    sext_spec(b % 0x800, 0x800)
}

/// The trap vector of TRAP: the low 8 bits.
pub open spec fn trap_vector_of(b: u16) -> u16 {
    b % 0x100
}

/// Modular 16-bit addition, the machine's only arithmetic.
pub open spec fn word_add(a: u16, b: u16) -> u16 {
    if a + b > 0xFFFF {
        (a + b - 0x10000) as u16
    } else {
        (a + b) as u16
    }
}

impl Command {
    pub closed spec fn bytes_spec(self) -> u16 {
        self.bytes
    }

    pub fn new(bytes: u16) -> (r: Self)
        ensures
            r.bytes_spec() == bytes,
    {
        Command { bytes }
    }

    pub fn get_bytes(&self) -> (r: u16)
        ensures
            r == self.bytes_spec(),
    {
        self.bytes
    }

    pub fn op_code(&self) -> (r: u16)
        ensures
            r == op_code_of(self.bytes_spec()),
            r < 16,
    {
        self.bytes / 0x1000
    }
}

/// Law: adding a sign-extended field is two's-complement arithmetic modulo
/// 2^16. A field below `full / 2` adds its own value; any other field is
/// negative and subtracts `full - x`, in both cases wrapping modularly.
pub proof fn lemma_sext_adds_signed(a: u16, x: u16, full: u16)
    requires
        2 <= full <= 0x800,
        x < full,
    ensures
        x < full / 2 ==> word_add(a, sext_spec(x, full)) == (if a + x <= 0xFFFF {
            a + x
        } else {
            a + x - 0x10000
        }),
        x >= full / 2 ==> word_add(a, sext_spec(x, full)) == (if a >= full - x {
            a - (full - x)
        } else {
            a + 0x10000 - (full - x)
        }),
{
}

/// Sign extension of an `n`-bit field to 16 bits, with `full == 2^n`.
pub fn sign_extend(x: u16, full: u16) -> (r: u16)
    requires
        2 <= full,
        x < full,
    ensures
        r == sext_spec(x, full),
{
    if x >= full / 2 {
        let complement: u32 = 0x10000 - (full as u32);
        x + (complement as u16)
    } else {
        x
    }
}

} // verus!
