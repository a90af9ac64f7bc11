//! The tables of the circuit: for each, the columns it lives in, the gates
//! that constrain it and the loading of a trace into it.

pub mod input_table;
pub mod instruction_table;
pub mod memory_table;
pub mod output_table;
pub mod processor_table;
pub mod program_table;
pub mod range_table;
pub mod running_sum;
