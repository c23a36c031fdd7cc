//! A type-and-capability verifier for a stack-based bytecode language.
//!
//! Programs arrive as lists of functions, each a flat sequence of opcodes.
//! A first pass interprets the constructor opcodes at the head of each
//! function to synthesize its type signature; a second pass re-interprets
//! the whole opcode list against that signature, tracking a symbolic
//! run-time stack of types, a compile-time stack of constructors, and the
//! set of live regions, and emits layout-resolved opcodes.

pub mod equiv;
pub mod header;
pub mod laws;
pub mod model;
pub mod sem;
pub mod verify;
