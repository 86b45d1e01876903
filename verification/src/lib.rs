//! Decoder and emulator for a subset of the ARMv6-M Thumb instruction set.
//!
//! A byte stream is decoded into structured instructions ([`disassemble`]),
//! and those instructions are executed against a register file, a set of
//! condition flags and a flat byte-addressable memory ([`arm_cpu::Cpu`]).

use vstd::prelude::*;

pub mod arm_cpu;
pub mod ast;
pub mod decode;
pub mod encode;
pub mod loader;
pub mod program;

pub use decode::disassemble;
pub use loader::read_elf_file;
pub use program::Program;



verus! {

/// Why decoding or executing an instruction stopped.
#[derive(Copy, Clone, Debug, PartialEq, Eq, Structural)]
pub enum Error {
    /// Fewer bytes are left than the instruction at hand needs.
    ChunkNotLongEnough,
    /// The bit pattern belongs to no instruction that the decoder knows.
    IllegalEncoding,
    /// The instruction decodes, but its execution is not modelled.
    NotImplemented,
    /// The operands are of a form that the architecture deprecates.
    DeprecatedOperand,
    /// A memory access does not lie within the memory.
    OutOfBounds,
}

} // verus!
