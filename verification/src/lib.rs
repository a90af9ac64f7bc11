//! Trace generation and constraint design for proving Brainfuck executions.

pub mod acceptance;
pub mod bn256;
pub mod code;
pub mod completeness;
pub mod instruction_linkage;
pub mod interpreter;
pub mod invariants;
pub mod jumps;
pub mod linkage;
pub mod main_config;
pub mod matrix;
pub mod plonk;
pub mod poly;
pub mod poseidon_hash;
pub mod prover;
pub mod sort;
pub mod tables;
pub mod u256;
pub mod utils;
