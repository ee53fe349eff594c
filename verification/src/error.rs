//! Error taxonomy of the machine: load-time size failures, the two
//! unimplemented privileged opcodes, unknown trap vectors, internal
//! invariant violations, and failures of the character-I/O capability.

use vstd::prelude::*;

verus! {

#[derive(Clone, Copy, PartialEq, Eq, Debug)]
pub enum LC3Error {
    /// A program longer than the space between the load address and the end
    /// of memory was handed to the loader; the load was aborted.
    ProgramSize { len: usize, max_len: usize },
    /// One of the two privileged opcodes (RTI, the reserved opcode) was
    /// fetched; their interrupt semantics are out of scope.
    UnimplementedOpcode { op_code: u16 },
    /// A TRAP instruction named a vector outside the defined set.
    UnknownTrapVector { vector: u16 },
    /// An internal invariant did not hold; indicates a bug in the core.
    Internal,
    /// The character-I/O capability reported a failure.
    IO,
}

pub type LC3Result<T> = Result<T, LC3Error>;

} // verus!
