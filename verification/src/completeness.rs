//! Completeness: the trace of an execution that halted, loaded into a blank
//! assignment, satisfies the circuit.

pub mod circuit;
pub mod field;
pub mod history;
pub mod instruction;
pub mod memory;
pub mod processor;
pub mod streams;
