//! A CHIP-8 virtual machine: instruction decoding and a fetch-decode-execute
//! engine whose behaviour is stated over a mathematical model of its state.
//!
//! - [`instruction`] splits a 16-bit instruction word into its fields.
//! - [`state`] is the model: the state of a machine as sequences and integers.
//! - [`semantics`] defines on the model what one step does.
//! - [`machine`] is the executable machine, proved to compute that step.
//! - [`laws`] proves properties of the instruction set from its definition.
//! - [`error`] lists the ways in which a machine can fail.
//! - [`frontend`] holds what a window on the machine has to decide.

pub mod error;
pub mod frontend;
pub mod instruction;
pub mod laws;
pub mod machine;
pub mod semantics;
pub mod state;
