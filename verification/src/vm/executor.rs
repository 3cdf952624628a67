//! Running the machine: one instruction per step, until it halts.

use vstd::prelude::*;

use crate::vm::argument_memory::ArgumentMemory;
use crate::vm::decoder::instruction::{effect_matches, execute_instruction, step, InstructionError};
use crate::vm::decoder::{fetch, fetch_instruction, DecoderError};
use crate::vm::memory::Memory;
use crate::vm::register_file::{RegisterFile, RegisterFileView};
use crate::vm::token::{spec_opcode, InstructionType};

verus! {

/// Why the machine stopped before halting.
#[derive(Debug, Clone, Copy, PartialEq, Eq, Structural)]
pub enum ExecutionError {
    /// No instruction could be read at `ip`.
    Decoder(DecoderError),
    /// The instruction with this opcode failed.
    Instruction(InstructionError, u16),
}

/// A machine: its memory, registers, and the buffer that holds the current
/// instruction's argument.
pub struct Executor {
    memory: Memory,
    register: RegisterFile,
    argument_memory: ArgumentMemory,
}

impl Executor {
    /// The registers.
    pub closed spec fn registers(&self) -> RegisterFileView {
        self.register@
    }

    /// The memory.
    pub closed spec fn mem(&self) -> Seq<u8> {
        self.memory@
    }

    pub closed spec fn wf(&self) -> bool {
        self.argument_memory.wf()
    }

    pub fn new(memory: Memory, register: RegisterFile, argument_memory: ArgumentMemory) -> (r: Executor)
        requires
            argument_memory.wf(),
        ensures
            r.registers() == register@,
            r.mem() == memory@,
            r.wf(),
    {
        Executor { memory, register, argument_memory }
    }

    pub fn register(&self) -> (r: &RegisterFile)
        ensures
            r@ == self.registers(),
    {
        &self.register
    }

    pub fn memory(&self) -> (r: &Memory)
        ensures
            r@ == self.mem(),
    {
        &self.memory
    }

    /// Whether the machine has halted.
    pub fn halted(&self) -> (r: bool)
        ensures
            r == self.registers().halt,
    {
        self.register.get_halt()
    }

    /// Reads the instruction at `ip` and executes it.
    pub fn step(&mut self) -> (r: Result<(), ExecutionError>)
        requires
            old(self).wf(),
        ensures
            final(self).wf(),
            match fetch(old(self).registers(), old(self).mem()) {
                Err(e) => r == Err::<(), ExecutionError>(ExecutionError::Decoder(e))
                    && final(self).registers() == old(self).registers() && final(self).mem()
                    == old(self).mem(),
                Ok((t, args, il)) => {
                    let e = step(t, args, il, old(self).registers(), old(self).mem());
                    &&& final(self).registers() == e.regs
                    &&& final(self).mem() == e.mem
                    &&& e.result is Ok ==> r is Ok
                    &&& e.result matches Err(x) ==> r == Err::<(), ExecutionError>(
                        ExecutionError::Instruction(x, spec_opcode(t)),
                    )
                },
            },
    {
        // The memory's length bounds where the instruction ends.
        let _size = self.memory.len();
        let (t, argument, instruction_length) = match fetch_instruction(&self.memory, &self.register) {
            Ok(x) => x,
            Err(e) => {
                return Err(ExecutionError::Decoder(e));
            },
        };
        self.argument_memory.set_arguement(argument.as_slice());
        let result = execute_instruction(
            t,
            self.argument_memory.get_argument(),
            instruction_length,
            &mut self.register,
            &mut self.memory,
        );
        match result {
            Ok(_) => Ok(()),
            Err(e) => Err(ExecutionError::Instruction(e, t.opcode())),
        }
    }
}

} // verus!
