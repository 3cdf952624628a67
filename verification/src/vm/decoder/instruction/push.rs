use vstd::prelude::*;

use crate::vm::decoder::instruction::{execute_instruction, Instruction, InstructionError};
use crate::vm::memory::Memory;
use crate::vm::register_file::RegisterFile;
use crate::vm::token::InstructionType;

verus! {

/// Pushes a register on the stack.
pub struct Push<'a> {
    argument: &'a [u8],
    instruction_length: usize,
}

impl<'a> Push<'a> {
    pub fn new(argument: &'a [u8], instruction_length: usize) -> (r: Push<'a>)
        ensures
            r.argument() == argument@,
            r.length() == instruction_length,
    {
        Push { argument, instruction_length }
    }
}

impl<'a> Instruction for Push<'a> {
    open spec fn kind(&self) -> InstructionType {
        InstructionType::Push
    }

    closed spec fn argument(&self) -> Seq<u8> {
        self.argument@
    }

    closed spec fn length(&self) -> usize {
        self.instruction_length
    }

    fn execute(&self, register: &mut RegisterFile, memory: &mut Memory) -> (r: Result<(), InstructionError>) {
        execute_instruction(InstructionType::Push, self.argument, self.instruction_length, register, memory)
    }

    fn op_code(&self) -> (r: u16) {
        InstructionType::Push.opcode()
    }
}

} // verus!
