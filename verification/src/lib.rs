//! A verified emulator core for a 16-bit educational instruction set.
//!
//! The machine has a flat word-addressed memory of 65536 16-bit words,
//! eight general-purpose registers, a program counter, a one-hot condition
//! register, and a software-trap layer for console input and output.
//! Console traffic is modelled as queues of plain values held by the
//! machine, so the whole fetch-decode-execute engine is pure and its
//! behaviour is pinned down by the specification functions in `state`
//! and `isa`.

pub mod isa;
pub mod laws;
pub mod machine;
pub mod state;

pub use machine::Machine;
