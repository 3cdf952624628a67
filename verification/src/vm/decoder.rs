//! Fetching, decoding and executing one instruction at `ip`.
//!
//! An instruction in memory is its length in bytes, its opcode (two bytes,
//! least significant first) and its argument.

use vstd::prelude::*;

use crate::vm::address::Address;
use crate::compiler::asm_compiler::instruction_bytes;
use crate::vm::argument::le_to_u64;
use crate::vm::memory::{read_bytes, Memory, MemoryError};
use crate::vm::register_file::{RegisterFile, RegisterFileView};
use crate::vm::token::InstructionType;

use self::instruction::{effect_matches, execute_instruction, step, InstructionError};

pub mod instruction;

verus! {

/// Why no instruction could be read at `ip`.
#[derive(Debug, Clone, Copy, PartialEq, Eq, Structural)]
pub enum DecoderError {
    /// No instruction has this opcode.
    InvalidOpCode(u16),
    /// `ip` lies outside the memory.
    InvalidIp(Address),
    /// The instruction's length runs past the memory or is below three.
    InvalidIl(Address, usize),
}

/// The instruction that an opcode names, among those the machine executes.
/// The numbers are those of the opcode table that the assembler writes
/// (`InstructionType::opcode`): 33 is `sub` and 65 is `jmz`, 64 is `jmp`.
/// The mnemonics `jmn`, `jacz`, `jme` and `jmc` have opcodes but no
/// instruction, and are refused.
pub open spec fn decode_op(op_code: u16) -> Option<InstructionType> {
    if op_code == 16 {
        Some(InstructionType::Mov)
    } else if op_code == 17 {
        Some(InstructionType::Push)
    } else if op_code == 18 {
        Some(InstructionType::Pop)
    } else if op_code == 30 {
        Some(InstructionType::Inc)
    } else if op_code == 31 {
        Some(InstructionType::Cmp)
    } else if op_code == 32 {
        Some(InstructionType::Add)
    } else if op_code == 33 {
        Some(InstructionType::Sub)
    } else if op_code == 64 {
        Some(InstructionType::Jmp)
    } else if op_code == 65 {
        Some(InstructionType::Jmz)
    } else if op_code == 67 {
        Some(InstructionType::Jacn)
    } else if op_code == 69 {
        Some(InstructionType::Jacc)
    } else if op_code == 70 {
        Some(InstructionType::Jace)
    } else if op_code == 65535 {
        Some(InstructionType::Halt)
    } else {
        None
    }
}

/// The instruction that the machine runs for an opcode.
pub fn decode(op_code: u16) -> (r: Result<InstructionType, DecoderError>)
    ensures
        r == (match decode_op(op_code) {
            Some(t) => Ok::<InstructionType, DecoderError>(t),
            None => Err(DecoderError::InvalidOpCode(op_code)),
        }),
{
    match op_code {
        16 => Ok(InstructionType::Mov),
        17 => Ok(InstructionType::Push),
        18 => Ok(InstructionType::Pop),
        30 => Ok(InstructionType::Inc),
        31 => Ok(InstructionType::Cmp),
        32 => Ok(InstructionType::Add),
        33 => Ok(InstructionType::Sub),
        64 => Ok(InstructionType::Jmp),
        65 => Ok(InstructionType::Jmz),
        67 => Ok(InstructionType::Jacn),
        69 => Ok(InstructionType::Jacc),
        70 => Ok(InstructionType::Jace),
        65535 => Ok(InstructionType::Halt),
        _ => Err(DecoderError::InvalidOpCode(op_code)),
    }
}

/// The instruction at `ip`: which one, its argument and its length.
pub open spec fn fetch(r: RegisterFileView, m: Seq<u8>) -> Result<(InstructionType, Seq<u8>, usize), DecoderError> {
    let ip = Address(r.regs.ip);
    if ip@ >= m.len() {
        Err(DecoderError::InvalidIp(ip))
    } else {
        let il = m[ip@ as int] as usize;
        match read_bytes(m, ip, il) {
            Err(MemoryError::InvalidAddr(a)) => Err(DecoderError::InvalidIl(a, il)),
            Err(MemoryError::OutOfRange(a, _)) => Err(DecoderError::InvalidIl(a, il)),
            Ok(bytes) => if il < 3 {
                Err(DecoderError::InvalidIl(ip, il))
            } else {
                let op_code = (bytes[1] + 256 * bytes[2]) as u16;
                match decode_op(op_code) {
                    None => Err(DecoderError::InvalidOpCode(op_code)),
                    Some(t) => Ok((t, bytes.subrange(3, il as int), il)),
                }
            },
        }
    }
}

/// Reads the instruction at `ip`.
pub fn fetch_instruction(memory: &Memory, register: &RegisterFile) -> (r: Result<
    (InstructionType, Vec<u8>, usize),
    DecoderError,
>)
    ensures
        match fetch(register@, memory@) {
            Ok((t, args, il)) => r matches Ok((t2, a2, il2)) && t2 == t && a2@ == args && il2 == il
                && register@.regs.ip + il <= memory@.len(),
            Err(e) => r == Err::<(InstructionType, Vec<u8>, usize), DecoderError>(e),
        },
{
    let ip = register.get_ip();
    let instruction_length = match memory.mem_get(ip) {
        Ok(il) => il as usize,
        Err(err) => match err {
            MemoryError::InvalidAddr(address) => {
                return Err(DecoderError::InvalidIp(address));
            },
            MemoryError::OutOfRange(address, _) => {
                return Err(DecoderError::InvalidIp(address));
            },
        },
    };
    let instruction = match memory.mem_gets(ip, instruction_length) {
        Ok(is) => is,
        Err(err) => match err {
            MemoryError::InvalidAddr(address) => {
                return Err(DecoderError::InvalidIl(address, instruction_length));
            },
            MemoryError::OutOfRange(address, _) => {
                return Err(DecoderError::InvalidIl(address, instruction_length));
            },
        },
    };
    if instruction_length < 3 {
        return Err(DecoderError::InvalidIl(ip, instruction_length));
    }
    let op_bytes = vstd::slice::slice_subrange(instruction.as_slice(), 1, 3);
    proof {
        reveal_with_fuel(crate::vm::argument::le_value, 3);
    }
    let op_code = le_to_u64(op_bytes) as u16;
    let t = match decode(op_code) {
        Ok(t) => t,
        Err(e) => {
            return Err(e);
        },
    };
    let argument = vstd::slice::slice_subrange(instruction.as_slice(), 3, instruction_length);
    Ok((t, vstd::slice::slice_to_vec(argument), instruction_length))
}

/// Runs the machine one instruction at a time, on the memory and registers
/// it borrows.
pub struct Decoder<'a, 'b> {
    pub memory: &'a mut Memory,
    pub register: &'b mut RegisterFile,
}

impl<'a, 'b> Decoder<'a, 'b> {
    pub fn new(memory: &'a mut Memory, register: &'b mut RegisterFile) -> (r: Decoder<'a, 'b>)
        ensures
            *r.memory == *old(memory),
            *r.register == *old(register),
            *final(memory) == *final(r.memory),
            *final(register) == *final(r.register),
    {
        Decoder { memory, register }
    }

    /// Reads the instruction at `ip` and executes it. An instruction that
    /// fails is left out: the caller knows it succeeds.
    pub fn decode_and_execute(&mut self) -> (r: Result<(), DecoderError>)
        requires
            fetch(old(self).register@, old(self).memory@) matches Ok((t, args, il)) ==> step(
                t,
                args,
                il,
                old(self).register@,
                old(self).memory@,
            ).result is Ok,
        ensures
            *final(final(self).memory) == *final(old(self).memory),
            *final(final(self).register) == *final(old(self).register),
            match fetch(old(self).register@, old(self).memory@) {
                Ok((t, args, il)) => r is Ok && effect_matches(
                    step(t, args, il, old(self).register@, old(self).memory@),
                    final(self).register@,
                    final(self).memory@,
                    Ok(()),
                ),
                Err(e) => r == Err::<(), DecoderError>(e) && final(self).register@ == old(
                    self,
                ).register@ && final(self).memory@ == old(self).memory@,
            },
    {
        // The memory's length bounds where the instruction ends.
        let _size = self.memory.len();
        let (t, argument, instruction_length) = match fetch_instruction(self.memory, self.register) {
            Ok(x) => x,
            Err(e) => {
                return Err(e);
            },
        };
        let _ = execute_instruction(
            t,
            argument.as_slice(),
            instruction_length,
            self.register,
            self.memory,
        );
        Ok(())
    }
}

/// What the assembler writes, the machine reads back: at `ip`, the bytes
/// of an instruction with opcode `op_code` and argument `argument` fetch as
/// that instruction, that argument and that length, when the length fits in
/// its byte.
pub proof fn law_fetch_reads_written_instruction(
    op_code: u16,
    argument: Seq<u8>,
    before: Seq<u8>,
    after: Seq<u8>,
    r: RegisterFileView,
)
    requires
        argument.len() + 3 < 256,
        decode_op(op_code) is Some,
        r.regs.ip == before.len(),
    ensures
        fetch(r, before + instruction_bytes(op_code, argument) + after) == Ok::<
            (InstructionType, Seq<u8>, usize),
            DecoderError,
        >((decode_op(op_code)->0, argument, (argument.len() + 3) as usize)),
{
    let bytes = instruction_bytes(op_code, argument);
    let m = before + bytes + after;
    let ip = before.len();
    let il = (argument.len() + 3) as usize;
    assert(m[ip as int] == bytes[0]);
    assert(m.subrange(ip as int, ip + il) =~= bytes);
    assert(bytes.subrange(3, il as int) =~= argument);
    assert((bytes[1] + 256 * bytes[2]) as u16 == op_code) by {
        assert(bytes[1] == op_code % 256);
        assert(bytes[2] == op_code / 256);
    }
}

} // verus!
