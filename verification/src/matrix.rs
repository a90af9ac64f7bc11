//! The tables that one execution leaves behind.

use crate::bn256::fr::Fr;
use crate::interpreter::Register;
use crate::interpreter::RegisterView;
use crate::sort::SortKey;
use vstd::prelude::*;
use vstd::std_specs::convert::FromSpecImpl;

verus! {

/// The witness of one execution: one table per view of the same run.
pub struct Matrix {
    pub processor_matrix: Vec<Register>,
    pub instruction_matrix: Vec<InstructionMatrixRow>,
    pub memory_matrix: Vec<MemoryMatrixRow>,
    pub input_matrix: Vec<Fr>,
    pub output_matrix: Vec<Fr>,
    pub program: Vec<Fr>,
}

impl Default for Matrix {
    fn default() -> (r: Matrix)
        ensures
            r.processor_matrix@.len() == 0,
            r.instruction_matrix@.len() == 0,
            r.memory_matrix@.len() == 0,
            r.input_matrix@.len() == 0,
            r.output_matrix@.len() == 0,
            r.program@.len() == 0,
    {
        Matrix {
            processor_matrix: Vec::new(),
            instruction_matrix: Vec::new(),
            memory_matrix: Vec::new(),
            input_matrix: Vec::new(),
            output_matrix: Vec::new(),
            program: Vec::new(),
        }
    }
}

/// A row of the instruction table as numbers.
pub struct InstructionRowView {
    pub instruction_pointer: nat,
    pub current_instruction: nat,
    pub next_instruction: nat,
}

/// A row of the instruction table: an address with the cell at it and the
/// cell after it.
#[derive(Clone, Copy, Debug)]
pub struct InstructionMatrixRow {
    pub instruction_pointer: Fr,
    pub current_instruction: Fr,
    pub next_instruction: Fr,
}

impl View for InstructionMatrixRow {
    type V = InstructionRowView;

    open spec fn view(&self) -> InstructionRowView {
        InstructionRowView {
            instruction_pointer: self.instruction_pointer@,
            current_instruction: self.current_instruction@,
            next_instruction: self.next_instruction@,
        }
    }
}

impl InstructionMatrixRow {
    /// The row with the given numbers.
    pub open spec fn of_view(v: InstructionRowView) -> InstructionMatrixRow {
        InstructionMatrixRow {
            instruction_pointer: Fr::from_nat(v.instruction_pointer),
            current_instruction: Fr::from_nat(v.current_instruction),
            next_instruction: Fr::from_nat(v.next_instruction),
        }
    }

    /// The instruction columns of a register.
    pub open spec fn of_register(r: RegisterView) -> InstructionRowView {
        InstructionRowView {
            instruction_pointer: r.instruction_pointer,
            current_instruction: r.current_instruction,
            next_instruction: r.next_instruction,
        }
    }

    /// Every row is the row of its numbers.
    pub proof fn lemma_of_view(self)
        ensures
            InstructionMatrixRow::of_view(self@) == self,
    {
        self.instruction_pointer.lemma_from_nat_of_view();
        self.current_instruction.lemma_from_nat_of_view();
        self.next_instruction.lemma_from_nat_of_view();
    }

    /// The instruction columns of a register, as a row.
    pub fn from_register(r: &Register) -> (row: InstructionMatrixRow)
        ensures
            row@ == InstructionMatrixRow::of_register(r@),
            row == InstructionMatrixRow::of_view(InstructionMatrixRow::of_register(r@)),
    {
        let row = InstructionMatrixRow {
            instruction_pointer: r.instruction_pointer,
            current_instruction: r.current_instruction,
            next_instruction: r.next_instruction,
        };
        proof {
            row.lemma_of_view();
        }
        row
    }
}

impl<'a> From<&'a Register> for InstructionMatrixRow {
    fn from(r: &'a Register) -> (row: Self) {
        InstructionMatrixRow::from_register(r)
    }
}

impl<'a> FromSpecImpl<&'a Register> for InstructionMatrixRow {
    open spec fn obeys_from_spec() -> bool {
        true
    }

    open spec fn from_spec(r: &'a Register) -> Self {
        InstructionMatrixRow::of_view(InstructionMatrixRow::of_register(r@))
    }
}

impl SortKey for InstructionMatrixRow {
    open spec fn key(&self) -> nat {
        self.instruction_pointer@
    }

    fn sort_key(&self) -> (k: (u128, u128)) {
        self.instruction_pointer.to_halves()
    }
}

/// A row of the memory table as numbers.
pub struct MemoryRowView {
    pub cycle: nat,
    pub memory_pointer: nat,
    pub memory_value: nat,
    pub interweave_indicator: nat,
}

/// A row of the memory table: what one cycle saw at the memory pointer.
#[derive(Clone, Copy, Debug)]
pub struct MemoryMatrixRow {
    pub cycle: Fr,
    pub memory_pointer: Fr,
    pub memory_value: Fr,
    pub interweave_indicator: Fr,
}

impl View for MemoryMatrixRow {
    type V = MemoryRowView;

    open spec fn view(&self) -> MemoryRowView {
        MemoryRowView {
            cycle: self.cycle@,
            memory_pointer: self.memory_pointer@,
            memory_value: self.memory_value@,
            interweave_indicator: self.interweave_indicator@,
        }
    }
}

impl MemoryMatrixRow {
    /// The row with the given numbers.
    pub open spec fn of_view(v: MemoryRowView) -> MemoryMatrixRow {
        MemoryMatrixRow {
            cycle: Fr::from_nat(v.cycle),
            memory_pointer: Fr::from_nat(v.memory_pointer),
            memory_value: Fr::from_nat(v.memory_value),
            interweave_indicator: Fr::from_nat(v.interweave_indicator),
        }
    }

    /// The memory columns of a register; the indicator is zero.
    pub open spec fn of_register(r: RegisterView) -> MemoryRowView {
        MemoryRowView {
            cycle: r.cycle,
            memory_pointer: r.memory_pointer,
            memory_value: r.memory_value,
            interweave_indicator: 0,
        }
    }

    /// Every row is the row of its numbers.
    pub proof fn lemma_of_view(self)
        ensures
            MemoryMatrixRow::of_view(self@) == self,
    {
        self.cycle.lemma_from_nat_of_view();
        self.memory_pointer.lemma_from_nat_of_view();
        self.memory_value.lemma_from_nat_of_view();
        self.interweave_indicator.lemma_from_nat_of_view();
    }

    /// The memory columns of a register, as a row.
    pub fn from_register(r: &Register) -> (row: MemoryMatrixRow)
        ensures
            row@ == MemoryMatrixRow::of_register(r@),
            row == MemoryMatrixRow::of_view(MemoryMatrixRow::of_register(r@)),
    {
        let row = MemoryMatrixRow {
            cycle: r.cycle,
            memory_pointer: r.memory_pointer,
            memory_value: r.memory_value,
            interweave_indicator: Fr::zero(),
        };
        proof {
            row.lemma_of_view();
        }
        row
    }
}

impl<'a> From<&'a Register> for MemoryMatrixRow {
    fn from(r: &'a Register) -> (row: Self) {
        MemoryMatrixRow::from_register(r)
    }
}

impl<'a> FromSpecImpl<&'a Register> for MemoryMatrixRow {
    open spec fn obeys_from_spec() -> bool {
        true
    }

    open spec fn from_spec(r: &'a Register) -> Self {
        MemoryMatrixRow::of_view(MemoryMatrixRow::of_register(r@))
    }
}

impl SortKey for MemoryMatrixRow {
    open spec fn key(&self) -> nat {
        self.memory_pointer@
    }

    fn sort_key(&self) -> (k: (u128, u128)) {
        self.memory_pointer.to_halves()
    }
}

} // verus!
