use vstd::prelude::*;

use crate::vm::decoder::instruction::{execute_instruction, Instruction, InstructionError};
use crate::vm::memory::Memory;
use crate::vm::register_file::RegisterFile;
use crate::vm::token::InstructionType;

verus! {

/// Subtracts the second register from the first and sets the flags.
pub struct Sub<'a> {
    argument: &'a [u8],
    instruction_length: usize,
}

impl<'a> Sub<'a> {
    pub fn new(argument: &'a [u8], instruction_length: usize) -> (r: Sub<'a>)
        ensures
            r.argument() == argument@,
            r.length() == instruction_length,
    {
        Sub { argument, instruction_length }
    }
}

impl<'a> Instruction for Sub<'a> {
    open spec fn kind(&self) -> InstructionType {
        InstructionType::Sub
    }

    closed spec fn argument(&self) -> Seq<u8> {
        self.argument@
    }

    closed spec fn length(&self) -> usize {
        self.instruction_length
    }

    fn execute(&self, register: &mut RegisterFile, memory: &mut Memory) -> (r: Result<(), InstructionError>) {
        execute_instruction(InstructionType::Sub, self.argument, self.instruction_length, register, memory)
    }

    fn op_code(&self) -> (r: u16) {
        InstructionType::Sub.opcode()
    }
}

} // verus!
