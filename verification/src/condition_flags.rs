//! Condition flags: exactly one of POSITIVE, ZERO, NEGATIVE is set after
//! every flag-updating register write, derived from the written value.

use vstd::prelude::*;

verus! {

pub const FL_POS: u16 = 1;

pub const FL_ZRO: u16 = 2;

pub const FL_NEG: u16 = 4;

/// The flag value derived from a 16-bit word: ZERO for zero, NEGATIVE when
/// the sign bit (bit 15) is set, POSITIVE otherwise.
pub open spec fn flag_of(v: u16) -> u16 {
    if v == 0 {
        FL_ZRO
    } else if v >= 0x8000 {
        FL_NEG
    } else {
        FL_POS
    }
}

/// Law: for every value, the derived flag is exactly one of
/// {ZERO, NEGATIVE, POSITIVE}: ZERO exactly when the value is zero,
/// NEGATIVE exactly when bit 15 is set, POSITIVE in every other case.
pub proof fn lemma_flag_of_exclusive(v: u16)
    ensures
        flag_of(v) == FL_ZRO || flag_of(v) == FL_NEG || flag_of(v) == FL_POS,
        (flag_of(v) == FL_ZRO) <==> (v == 0),
        (flag_of(v) == FL_NEG) <==> ((v >> 15) & 1 == 1),
        (flag_of(v) == FL_POS) <==> (v != 0 && (v >> 15) & 1 == 0),
{
    assert((v >= 0x8000) <==> ((v >> 15) & 1 == 1)) by (bit_vector);
    assert((v >> 15) & 1 == 0 || (v >> 15) & 1 == 1) by (bit_vector);
}

} // verus!
