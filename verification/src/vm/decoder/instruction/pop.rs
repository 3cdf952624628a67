use vstd::prelude::*;

use crate::vm::decoder::instruction::{execute_instruction, Instruction, InstructionError};
use crate::vm::memory::Memory;
use crate::vm::register_file::RegisterFile;
use crate::vm::token::InstructionType;

verus! {

/// Pops a register from the stack.
pub struct Pop<'a> {
    argument: &'a [u8],
    instruction_length: usize,
}

impl<'a> Pop<'a> {
    pub fn new(argument: &'a [u8], instruction_length: usize) -> (r: Pop<'a>)
        ensures
            r.argument() == argument@,
            r.length() == instruction_length,
    {
        Pop { argument, instruction_length }
    }
}

impl<'a> Instruction for Pop<'a> {
    open spec fn kind(&self) -> InstructionType {
        InstructionType::Pop
    }

    closed spec fn argument(&self) -> Seq<u8> {
        self.argument@
    }

    closed spec fn length(&self) -> usize {
        self.instruction_length
    }

    fn execute(&self, register: &mut RegisterFile, memory: &mut Memory) -> (r: Result<(), InstructionError>) {
        execute_instruction(InstructionType::Pop, self.argument, self.instruction_length, register, memory)
    }

    fn op_code(&self) -> (r: u16) {
        InstructionType::Pop.opcode()
    }
}

} // verus!
