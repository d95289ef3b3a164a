//! In-process memory and operand model for a small register/stack virtual
//! machine: a bounded operand stack of tagged scalar values, a pooled
//! allocator for typed register storage addressed by handle, and a scope
//! layer that presents a fixed named register file backed by pool slots.
//!
//! Bytecode decoding, the dispatch loop, and byte-addressable memory are
//! external collaborators; the `Ptr::Memory` variant only reserves a place
//! for the latter.
use vstd::prelude::*;

pub mod pointer;
pub mod register;
pub mod scope;
pub mod stack;

pub use pointer::Ptr;
pub use register::{REGISTER_AMT, Reg, Register, RegisterPool};
pub use scope::Scope;
pub use stack::Stack;

verus! {

/// Errors reported to the immediate caller, never retried internally.
///
/// Two families: stack capacity (`StackOverflow`, `StackUnderflow`) and pool
/// validity (`TooManyRegisters`, `InvalidPointer`). `TypeMismatch` is the
/// same-variant check on register writes. Malformed rotate arguments, by
/// contrast, are a caller contract violation and are excluded by `requires`
/// rather than reported.
#[derive(Debug, Clone, Copy, PartialEq, Eq, Structural)]
pub enum ProgramError {
    StackOverflow,
    StackUnderflow,
    InvalidPointer,
    TooManyRegisters,
    TypeMismatch,
}

} // verus!
