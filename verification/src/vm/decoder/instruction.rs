//! What each instruction of the machine does to the registers and memory.

use vstd::prelude::*;

pub mod add;
pub mod cmp;
pub mod halt;
pub mod inc;
pub mod jacc;
pub mod jace;
pub mod jacn;
pub mod jmp;
pub mod jmz;
pub mod mov;
pub mod pop;
pub mod push;
pub mod sub;

use crate::compiler::argument_parser::{le_bytes, push_le};
use crate::vm::address::Address;
use crate::vm::argument::{
    arg_address, arg_number, arg_register, arg_u8, le_to_u64, le_value, pow256, Argument, ArgumentParseError,
};
use crate::vm::memory::{read_bytes, write_bytes, Memory, MemoryError};
use crate::vm::register_file::{
    general_value, size_bytes, size_of_register, with_general, RegisterFile, RegisterFileError,
    RegisterFileView,
};
use crate::vm::registers::{RegisterValues, WIDTH_16, WIDTH_32, WIDTH_8};
use crate::vm::token::{
    spec_opcode, spec_register_byte, InstructionType, RegisterType, MOV_NUM2REG, MOV_REG2DEREF_REG,
    MOV_REG2MEM, MOV_REG2REG,
};

verus! {

/// Why an instruction failed.
#[derive(Debug, Clone, Copy, PartialEq, Eq, Structural)]
pub enum InstructionError {
    ArgumentParseError(ArgumentParseError),
    RegisterFileError(RegisterFileError),
    InvalidSubOpCode(u16, u8),
    MemoryError(MemoryError),
}

/// The state after an instruction, and whether it failed. A failing
/// instruction keeps what it changed before the failure.
pub struct Effect {
    pub regs: RegisterFileView,
    pub mem: Seq<u8>,
    pub result: Result<(), InstructionError>,
}

/// The instructions that the machine executes.
pub open spec fn executable(t: InstructionType) -> bool {
    match t {
        InstructionType::Mov | InstructionType::Push | InstructionType::Pop | InstructionType::Inc
        | InstructionType::Add | InstructionType::Sub | InstructionType::Cmp | InstructionType::Jmp
        | InstructionType::Jmz | InstructionType::Jacn | InstructionType::Jacc | InstructionType::Jace
        | InstructionType::Halt => true,
        _ => false,
    }
}

pub open spec fn done(regs: RegisterFileView, mem: Seq<u8>) -> Effect {
    Effect { regs, mem, result: Ok(()) }
}

pub open spec fn fail(regs: RegisterFileView, mem: Seq<u8>, e: InstructionError) -> Effect {
    Effect { regs, mem, result: Err(e) }
}

/// `ip` moved past an instruction of `len` bytes.
pub open spec fn advanced(r: RegisterFileView, len: usize) -> RegisterFileView {
    RegisterFileView { regs: RegisterValues { ip: (r.regs.ip + len) as usize, ..r.regs }, ..r }
}

/// `ip` set to `target`.
pub open spec fn jumped(r: RegisterFileView, target: Address) -> RegisterFileView {
    RegisterFileView { regs: RegisterValues { ip: target@, ..r.regs }, ..r }
}

pub open spec fn with_regs(r: RegisterFileView, regs: RegisterValues) -> RegisterFileView {
    RegisterFileView { regs, ..r }
}

pub open spec fn arg_error(regs: RegisterFileView, mem: Seq<u8>, e: ArgumentParseError) -> Effect {
    fail(regs, mem, InstructionError::ArgumentParseError(e))
}

pub open spec fn not_general(regs: RegisterFileView, mem: Seq<u8>, reg: RegisterType) -> Effect {
    fail(regs, mem, InstructionError::RegisterFileError(RegisterFileError::NotGeneral(reg)))
}

/// The flags after an arithmetic result: carry on overflow, zero, and the
/// sign bit.
pub open spec fn flagged(r: RegisterFileView, result: u64, overflow: bool) -> RegisterFileView {
    RegisterFileView {
        carry: overflow,
        zero: result == 0,
        negative: result >= 0x8000_0000_0000_0000u64,
        ..r
    }
}

/// `mov`: sub-operation 1 copies a register into another, 2 stores a
/// register at an address, least significant byte first.
pub open spec fn mov_effect(args: Seq<u8>, len: usize, r: RegisterFileView, m: Seq<u8>) -> Effect {
    let r0 = advanced(r, len);
    match arg_u8(args, 0) {
        Err(e) => arg_error(r0, m, e),
        Ok((sub, p)) => if sub == MOV_REG2REG {
            match arg_register(args, p) {
                Err(e) => arg_error(r0, m, e),
                Ok((dst, p2)) => match arg_register(args, p2) {
                    Err(e) => arg_error(r0, m, e),
                    Ok((src, _)) => match general_value(r0.regs, src) {
                        None => not_general(r0, m, src),
                        Some(v) => match with_general(r0.regs, dst, v) {
                            None => not_general(r0, m, dst),
                            Some(g) => done(with_regs(r0, g), m),
                        },
                    },
                },
            }
        } else if sub == MOV_REG2MEM {
            match arg_address(args, p) {
                Err(e) => arg_error(r0, m, e),
                Ok((address, p2)) => match arg_register(args, p2) {
                    Err(e) => arg_error(r0, m, e),
                    Ok((reg, _)) => match general_value(r0.regs, reg) {
                        None => not_general(r0, m, reg),
                        Some(v) => match write_bytes(
                            m,
                            address,
                            le_bytes(v as nat, size_bytes(size_of_register(reg)) as nat),
                        ) {
                            Err(e) => fail(r0, m, InstructionError::MemoryError(e)),
                            Ok(m2) => done(r0, m2),
                        },
                    },
                },
            }
        } else if sub == MOV_NUM2REG {
            match arg_register(args, p) {
                Err(e) => arg_error(r0, m, e),
                Ok((reg, p2)) => match arg_number(args, p2, size_bytes(size_of_register(reg)) as nat) {
                    Err(e) => arg_error(r0, m, e),
                    Ok((v, _)) => match with_general(r0.regs, reg, v) {
                        None => not_general(r0, m, reg),
                        Some(g) => done(with_regs(r0, g), m),
                    },
                },
            }
        } else if sub == MOV_REG2DEREF_REG {
            match arg_register(args, p) {
                Err(e) => arg_error(r0, m, e),
                Ok((src, p2)) => match arg_register(args, p2) {
                    Err(e) => arg_error(r0, m, e),
                    Ok((holder, _)) => match general_value(r0.regs, holder) {
                        None => not_general(r0, m, holder),
                        Some(a) => match general_value(r0.regs, src) {
                            None => not_general(r0, m, src),
                            Some(v) => match write_bytes(
                                m,
                                Address(a as usize),
                                le_bytes(v as nat, size_bytes(size_of_register(src)) as nat),
                            ) {
                                Err(e) => fail(r0, m, InstructionError::MemoryError(e)),
                                Ok(m2) => done(r0, m2),
                            },
                        },
                    },
                },
            }
        } else {
            fail(r0, m, InstructionError::InvalidSubOpCode(16, sub))
        },
    }
}

/// `push`: moves `sp` down by the register's size and stores the register there.
pub open spec fn push_effect(args: Seq<u8>, len: usize, r: RegisterFileView, m: Seq<u8>) -> Effect {
    let r0 = advanced(r, len);
    match arg_register(args, 0) {
        Err(e) => arg_error(r0, m, e),
        Ok((reg, _)) => match general_value(r0.regs, reg) {
            None => not_general(r0, m, reg),
            Some(v) => {
                let n = size_bytes(size_of_register(reg));
                let r1 = RegisterFileView {
                    sp: vstd::wrapping::usize_specs::wrapping_sub(r0.sp, n),
                    ..r0
                };
                match write_bytes(m, Address(r1.sp), le_bytes(v as nat, n as nat)) {
                    Err(e) => fail(r1, m, InstructionError::MemoryError(e)),
                    Ok(m2) => done(r1, m2),
                }
            },
        },
    }
}

/// `pop`: loads the register from `sp` and moves `sp` up by its size.
pub open spec fn pop_effect(args: Seq<u8>, len: usize, r: RegisterFileView, m: Seq<u8>) -> Effect {
    let r0 = advanced(r, len);
    match arg_register(args, 0) {
        Err(e) => arg_error(r0, m, e),
        Ok((reg, _)) => {
            let n = size_bytes(size_of_register(reg));
            match read_bytes(m, Address(r0.sp), n) {
                Err(e) => fail(r0, m, InstructionError::MemoryError(e)),
                Ok(bytes) => match with_general(r0.regs, reg, le_value(bytes) as u64) {
                    None => not_general(r0, m, reg),
                    Some(g) => done(RegisterFileView { regs: g, sp: (r0.sp + n) as usize, ..r0 }, m),
                },
            }
        },
    }
}

/// `inc`: adds one to a register.
pub open spec fn inc_effect(args: Seq<u8>, len: usize, r: RegisterFileView, m: Seq<u8>) -> Effect {
    let r0 = advanced(r, len);
    match arg_register(args, 0) {
        Err(e) => arg_error(r0, m, e),
        Ok((reg, _)) => match general_value(r0.regs, reg) {
            None => not_general(r0, m, reg),
            Some(v) => match with_general(r0.regs, reg, vstd::wrapping::u64_specs::wrapping_add(v, 1)) {
                None => not_general(r0, m, reg),
                Some(g) => done(with_regs(r0, g), m),
            },
        },
    }
}

/// `add` and `sub`: combine two registers into the first and set the flags.
pub open spec fn arith_effect(
    add: bool,
    args: Seq<u8>,
    len: usize,
    r: RegisterFileView,
    m: Seq<u8>,
) -> Effect {
    let r0 = advanced(r, len);
    match arg_register(args, 0) {
        Err(e) => arg_error(r0, m, e),
        Ok((reg1, p)) => match arg_register(args, p) {
            Err(e) => arg_error(r0, m, e),
            Ok((reg2, _)) => match general_value(r0.regs, reg1) {
                None => not_general(r0, m, reg1),
                Some(n1) => match general_value(r0.regs, reg2) {
                    None => not_general(r0, m, reg2),
                    Some(n2) => {
                        let result = if add {
                            vstd::wrapping::u64_specs::wrapping_add(n1, n2)
                        } else {
                            vstd::wrapping::u64_specs::wrapping_sub(n1, n2)
                        };
                        let overflow = if add {
                            n1 + n2 > u64::MAX
                        } else {
                            n1 < n2
                        };
                        let r1 = flagged(r0, result, overflow);
                        match with_general(r1.regs, reg1, result) {
                            None => not_general(r1, m, reg1),
                            Some(g) => done(with_regs(r1, g), m),
                        }
                    },
                },
            },
        },
    }
}

/// `cmp`: subtracts the second register from the first and sets the flags
/// as `sub` does, keeping both registers.
pub open spec fn cmp_effect(args: Seq<u8>, len: usize, r: RegisterFileView, m: Seq<u8>) -> Effect {
    let r0 = advanced(r, len);
    match arg_register(args, 0) {
        Err(e) => arg_error(r0, m, e),
        Ok((reg1, p)) => match arg_register(args, p) {
            Err(e) => arg_error(r0, m, e),
            Ok((reg2, _)) => match general_value(r0.regs, reg1) {
                None => not_general(r0, m, reg1),
                Some(n1) => match general_value(r0.regs, reg2) {
                    None => not_general(r0, m, reg2),
                    Some(n2) => done(
                        flagged(r0, vstd::wrapping::u64_specs::wrapping_sub(n1, n2), n1 < n2),
                        m,
                    ),
                },
            },
        },
    }
}

/// `jmp`: jumps to the address.
pub open spec fn jmp_effect(args: Seq<u8>, r: RegisterFileView, m: Seq<u8>) -> Effect {
    match arg_address(args, 0) {
        Err(e) => arg_error(r, m, e),
        Ok((target, _)) => done(jumped(r, target), m),
    }
}

/// `halt`: stops the machine.
pub open spec fn halt_effect(len: usize, r: RegisterFileView, m: Seq<u8>) -> Effect {
    done(RegisterFileView { halt: true, ..advanced(r, len) }, m)
}

/// `jmz`: jumps to the address when the zero flag is set.
pub open spec fn jmz_effect(args: Seq<u8>, len: usize, r: RegisterFileView, m: Seq<u8>) -> Effect {
    if r.zero {
        match arg_address(args, 0) {
            Err(e) => arg_error(r, m, e),
            Ok((target, _)) => done(jumped(r, target), m),
        }
    } else {
        done(advanced(r, len), m)
    }
}

/// Whether a compare-and-jump instruction jumps for the two values.
pub open spec fn jump_taken(t: InstructionType, n1: u64, n2: u64) -> bool {
    let difference = vstd::wrapping::u64_specs::wrapping_sub(n1, n2);
    match t {
        InstructionType::Jacc => n1 < n2,
        InstructionType::Jace => !(n1 < n2) && difference != 0 && difference
            < 0x8000_0000_0000_0000u64,
        _ => difference >= 0x8000_0000_0000_0000u64,
    }
}

/// `jacc`, `jace` and `jacn`: compare two registers and jump to the
/// address when the difference borrows, is positive, or is negative.
pub open spec fn compare_jump_effect(
    t: InstructionType,
    args: Seq<u8>,
    len: usize,
    r: RegisterFileView,
    m: Seq<u8>,
) -> Effect {
    match arg_register(args, 0) {
        Err(e) => arg_error(r, m, e),
        Ok((reg1, p)) => match arg_register(args, p) {
            Err(e) => arg_error(r, m, e),
            Ok((reg2, p2)) => match general_value(r.regs, reg1) {
                None => not_general(r, m, reg1),
                Some(n1) => match general_value(r.regs, reg2) {
                    None => not_general(r, m, reg2),
                    Some(n2) => if jump_taken(t, n1, n2) {
                        match arg_address(args, p2) {
                            Err(e) => arg_error(r, m, e),
                            Ok((target, _)) => done(jumped(r, target), m),
                        }
                    } else {
                        done(advanced(r, len), m)
                    },
                },
            },
        },
    }
}

/// What executing instruction `t` with argument `args`, `len` bytes long in
/// all, does to registers `r` and memory `m`. Instructions the machine does
/// not execute change nothing.
#[verifier::opaque]
pub open spec fn step(t: InstructionType, args: Seq<u8>, len: usize, r: RegisterFileView, m: Seq<u8>) -> Effect {
    match t {
        InstructionType::Mov => mov_effect(args, len, r, m),
        InstructionType::Push => push_effect(args, len, r, m),
        InstructionType::Pop => pop_effect(args, len, r, m),
        InstructionType::Inc => inc_effect(args, len, r, m),
        InstructionType::Add => arith_effect(true, args, len, r, m),
        InstructionType::Sub => arith_effect(false, args, len, r, m),
        InstructionType::Cmp => cmp_effect(args, len, r, m),
        InstructionType::Jmp => jmp_effect(args, r, m),
        InstructionType::Halt => halt_effect(len, r, m),
        InstructionType::Jmz => jmz_effect(args, len, r, m),
        InstructionType::Jacc | InstructionType::Jace | InstructionType::Jacn => compare_jump_effect(
            t,
            args,
            len,
            r,
            m,
        ),
        _ => done(r, m),
    }
}

/// Whether the registers, memory and result are those of the effect.
pub open spec fn effect_matches(
    e: Effect,
    regs: RegisterFileView,
    mem: Seq<u8>,
    result: Result<(), InstructionError>,
) -> bool {
    e.regs == regs && e.mem == mem && same_result(e.result, result)
}

/// Both succeeded, or both failed with the same error.
pub open spec fn same_result(a: Result<(), InstructionError>, b: Result<(), InstructionError>) -> bool {
    match (a, b) {
        (Ok(_), Ok(_)) => true,
        (Err(x), Err(y)) => x == y,
        _ => false,
    }
}

} // verus!

verus! {

/// An instruction ready to run: which one it is, its argument bytes and
/// its length in memory.
pub trait Instruction {
    spec fn kind(&self) -> InstructionType;

    spec fn argument(&self) -> Seq<u8>;

    spec fn length(&self) -> usize;

    /// Runs the instruction on the registers and memory.
    fn execute(&self, register: &mut RegisterFile, memory: &mut Memory) -> (r: Result<(), InstructionError>)
        requires
            old(register)@.regs.ip + self.length() <= usize::MAX,
        ensures
            effect_matches(
                step(self.kind(), self.argument(), self.length(), old(register)@, old(memory)@),
                final(register)@,
                final(memory)@,
                r,
            ),
    ;

    fn op_code(&self) -> (r: u16)
        ensures
            r == spec_opcode(self.kind()),
    ;
}

/// The flag that a result's top bit is set.
fn sign_bit(result: u64) -> (r: bool)
    ensures
        r == (result >= 0x8000_0000_0000_0000u64),
{
    let r = result & (1u64 << 63u64) != 0;
    assert((result & (1u64 << 63u64) != 0) == (result >= 0x8000_0000_0000_0000u64)) by (bit_vector);
    r
}

/// The bytes of `value` that a register of `n` bytes holds, least
/// significant first.
fn value_bytes(value: u64, n: usize) -> (r: Vec<u8>)
    requires
        n <= 8,
    ensures
        r@ == le_bytes(value as nat, n as nat),
{
    let mut bytes: Vec<u8> = Vec::new();
    push_le(&mut bytes, value, n);
    assert(bytes@ =~= le_bytes(value as nat, n as nat));
    bytes
}

#[verifier::rlimit(40)]
fn exec_mov(args: &[u8], len: usize, register: &mut RegisterFile, memory: &mut Memory) -> (r: Result<
    (),
    InstructionError,
>)
    requires
        old(register)@.regs.ip + len <= usize::MAX,
    ensures
        effect_matches(
            mov_effect(args@, len, old(register)@, old(memory)@),
            final(register)@,
            final(memory)@,
            r,
        ),
{
    register.inc_ip(len);
    let mut argument = Argument::new(args);
    let sub = match argument.parse_u8() {
        Ok(s) => s,
        Err(e) => {
            return Err(InstructionError::ArgumentParseError(e));
        },
    };
    if sub == MOV_REG2REG {
        let dst = match argument.parse_register() {
            Ok(x) => x,
            Err(e) => {
                return Err(InstructionError::ArgumentParseError(e));
            },
        };
        let src = match argument.parse_register() {
            Ok(x) => x,
            Err(e) => {
                return Err(InstructionError::ArgumentParseError(e));
            },
        };
        let value = match register.get_general(&src) {
            Ok(v) => v,
            Err(e) => {
                return Err(InstructionError::RegisterFileError(e));
            },
        };
        match register.set_general(&dst, value) {
            Ok(()) => Ok(()),
            Err(e) => Err(InstructionError::RegisterFileError(e)),
        }
    } else if sub == MOV_REG2MEM {
        let address = match argument.parse_address() {
            Ok(x) => x,
            Err(e) => {
                return Err(InstructionError::ArgumentParseError(e));
            },
        };
        let reg = match argument.parse_register() {
            Ok(x) => x,
            Err(e) => {
                return Err(InstructionError::ArgumentParseError(e));
            },
        };
        let value = match register.get_general(&reg) {
            Ok(v) => v,
            Err(e) => {
                return Err(InstructionError::RegisterFileError(e));
            },
        };
        let bytes = value_bytes(value, reg.size().byte());
        match memory.mem_sets(address, bytes.as_slice()) {
            Ok(()) => Ok(()),
            Err(e) => Err(InstructionError::MemoryError(e)),
        }
    } else if sub == MOV_NUM2REG {
        let reg = match argument.parse_register() {
            Ok(x) => x,
            Err(e) => {
                return Err(InstructionError::ArgumentParseError(e));
            },
        };
        let value = match argument.parse_number(reg.size().byte()) {
            Ok(v) => v,
            Err(e) => {
                return Err(InstructionError::ArgumentParseError(e));
            },
        };
        match register.set_general(&reg, value) {
            Ok(()) => Ok(()),
            Err(e) => Err(InstructionError::RegisterFileError(e)),
        }
    } else if sub == MOV_REG2DEREF_REG {
        let src = match argument.parse_register() {
            Ok(x) => x,
            Err(e) => {
                return Err(InstructionError::ArgumentParseError(e));
            },
        };
        let holder = match argument.parse_register() {
            Ok(x) => x,
            Err(e) => {
                return Err(InstructionError::ArgumentParseError(e));
            },
        };
        let address = match register.get_general(&holder) {
            Ok(a) => a,
            Err(e) => {
                return Err(InstructionError::RegisterFileError(e));
            },
        };
        let value = match register.get_general(&src) {
            Ok(v) => v,
            Err(e) => {
                return Err(InstructionError::RegisterFileError(e));
            },
        };
        let bytes = value_bytes(value, src.size().byte());
        match memory.mem_sets(Address(#[verifier::truncate] (address as usize)), bytes.as_slice()) {
            Ok(()) => Ok(()),
            Err(e) => Err(InstructionError::MemoryError(e)),
        }
    } else {
        Err(InstructionError::InvalidSubOpCode(16, sub))
    }
}

fn exec_push(args: &[u8], len: usize, register: &mut RegisterFile, memory: &mut Memory) -> (r: Result<
    (),
    InstructionError,
>)
    requires
        old(register)@.regs.ip + len <= usize::MAX,
    ensures
        effect_matches(
            push_effect(args@, len, old(register)@, old(memory)@),
            final(register)@,
            final(memory)@,
            r,
        ),
{
    register.inc_ip(len);
    let mut argument = Argument::new(args);
    let reg = match argument.parse_register() {
        Ok(x) => x,
        Err(e) => {
            return Err(InstructionError::ArgumentParseError(e));
        },
    };
    let value = match register.get_general(&reg) {
        Ok(v) => v,
        Err(e) => {
            return Err(InstructionError::RegisterFileError(e));
        },
    };
    let n = reg.size().byte();
    let sp = register.dec_sp(n);
    let bytes = value_bytes(value, n);
    match memory.mem_sets(sp, bytes.as_slice()) {
        Ok(()) => Ok(()),
        Err(e) => Err(InstructionError::MemoryError(e)),
    }
}

fn exec_pop(args: &[u8], len: usize, register: &mut RegisterFile, memory: &mut Memory) -> (r: Result<
    (),
    InstructionError,
>)
    requires
        old(register)@.regs.ip + len <= usize::MAX,
    ensures
        effect_matches(
            pop_effect(args@, len, old(register)@, old(memory)@),
            final(register)@,
            final(memory)@,
            r,
        ),
{
    register.inc_ip(len);
    let mut argument = Argument::new(args);
    let reg = match argument.parse_register() {
        Ok(x) => x,
        Err(e) => {
            return Err(InstructionError::ArgumentParseError(e));
        },
    };
    let n = reg.size().byte();
    let sp = register.get_sp();
    let total = memory.len();
    let bytes = match memory.mem_gets(sp, n) {
        Ok(b) => b,
        Err(e) => {
            return Err(InstructionError::MemoryError(e));
        },
    };
    let value = le_to_u64(bytes.as_slice());
    match register.set_general(&reg, value) {
        Ok(()) => {},
        Err(e) => {
            return Err(InstructionError::RegisterFileError(e));
        },
    }
    register.inc_sp(n);
    Ok(())
}

fn exec_inc(args: &[u8], len: usize, register: &mut RegisterFile, memory: &mut Memory) -> (r: Result<
    (),
    InstructionError,
>)
    requires
        old(register)@.regs.ip + len <= usize::MAX,
    ensures
        effect_matches(
            inc_effect(args@, len, old(register)@, old(memory)@),
            final(register)@,
            final(memory)@,
            r,
        ),
{
    register.inc_ip(len);
    let mut argument = Argument::new(args);
    let reg = match argument.parse_register() {
        Ok(x) => x,
        Err(e) => {
            return Err(InstructionError::ArgumentParseError(e));
        },
    };
    let value = match register.get_general(&reg) {
        Ok(v) => v,
        Err(e) => {
            return Err(InstructionError::RegisterFileError(e));
        },
    };
    match register.set_general(&reg, value.wrapping_add(1)) {
        Ok(()) => Ok(()),
        Err(e) => Err(InstructionError::RegisterFileError(e)),
    }
}

/// The result of adding or subtracting, and whether it overflowed.
fn combine(add: bool, n1: u64, n2: u64) -> (r: (u64, bool))
    ensures
        r.0 == (if add {
            vstd::wrapping::u64_specs::wrapping_add(n1, n2)
        } else {
            vstd::wrapping::u64_specs::wrapping_sub(n1, n2)
        }),
        r.1 == (if add {
            n1 + n2 > u64::MAX
        } else {
            n1 < n2
        }),
{
    if add {
        (n1.wrapping_add(n2), n1 > u64::MAX - n2)
    } else {
        (n1.wrapping_sub(n2), n1 < n2)
    }
}

#[verifier::rlimit(30)]
fn exec_arith(
    add: bool,
    args: &[u8],
    len: usize,
    register: &mut RegisterFile,
    memory: &mut Memory,
) -> (r: Result<(), InstructionError>)
    requires
        old(register)@.regs.ip + len <= usize::MAX,
    ensures
        effect_matches(
            arith_effect(add, args@, len, old(register)@, old(memory)@),
            final(register)@,
            final(memory)@,
            r,
        ),
{
    register.inc_ip(len);
    let mut argument = Argument::new(args);
    let reg1 = match argument.parse_register() {
        Ok(x) => x,
        Err(e) => {
            return Err(InstructionError::ArgumentParseError(e));
        },
    };
    let reg2 = match argument.parse_register() {
        Ok(x) => x,
        Err(e) => {
            return Err(InstructionError::ArgumentParseError(e));
        },
    };
    let n1 = match register.get_general(&reg1) {
        Ok(v) => v,
        Err(e) => {
            return Err(InstructionError::RegisterFileError(e));
        },
    };
    let n2 = match register.get_general(&reg2) {
        Ok(v) => v,
        Err(e) => {
            return Err(InstructionError::RegisterFileError(e));
        },
    };
    let (result, overflow) = combine(add, n1, n2);
    register.set_carry(overflow);
    register.set_zero(result == 0);
    register.set_negative(sign_bit(result));
    match register.set_general(&reg1, result) {
        Ok(()) => Ok(()),
        Err(e) => Err(InstructionError::RegisterFileError(e)),
    }
}

fn exec_cmp(args: &[u8], len: usize, register: &mut RegisterFile, memory: &mut Memory) -> (r: Result<
    (),
    InstructionError,
>)
    requires
        old(register)@.regs.ip + len <= usize::MAX,
    ensures
        effect_matches(
            cmp_effect(args@, len, old(register)@, old(memory)@),
            final(register)@,
            final(memory)@,
            r,
        ),
{
    register.inc_ip(len);
    let mut argument = Argument::new(args);
    let reg1 = match argument.parse_register() {
        Ok(x) => x,
        Err(e) => {
            return Err(InstructionError::ArgumentParseError(e));
        },
    };
    let reg2 = match argument.parse_register() {
        Ok(x) => x,
        Err(e) => {
            return Err(InstructionError::ArgumentParseError(e));
        },
    };
    let n1 = match register.get_general(&reg1) {
        Ok(v) => v,
        Err(e) => {
            return Err(InstructionError::RegisterFileError(e));
        },
    };
    let n2 = match register.get_general(&reg2) {
        Ok(v) => v,
        Err(e) => {
            return Err(InstructionError::RegisterFileError(e));
        },
    };
    let (result, overflow) = combine(false, n1, n2);
    register.set_carry(overflow);
    register.set_zero(result == 0);
    register.set_negative(sign_bit(result));
    Ok(())
}

fn exec_jmp(args: &[u8], register: &mut RegisterFile, memory: &mut Memory) -> (r: Result<
    (),
    InstructionError,
>)
    ensures
        effect_matches(
            jmp_effect(args@, old(register)@, old(memory)@),
            final(register)@,
            final(memory)@,
            r,
        ),
{
    let mut argument = Argument::new(args);
    let target = match argument.parse_address() {
        Ok(x) => x,
        Err(e) => {
            return Err(InstructionError::ArgumentParseError(e));
        },
    };
    register.set_ip(target);
    Ok(())
}

fn exec_jmz(args: &[u8], len: usize, register: &mut RegisterFile, memory: &mut Memory) -> (r: Result<
    (),
    InstructionError,
>)
    requires
        old(register)@.regs.ip + len <= usize::MAX,
    ensures
        effect_matches(
            jmz_effect(args@, len, old(register)@, old(memory)@),
            final(register)@,
            final(memory)@,
            r,
        ),
{
    if register.get_zero() {
        let mut argument = Argument::new(args);
        let target = match argument.parse_address() {
            Ok(x) => x,
            Err(e) => {
                return Err(InstructionError::ArgumentParseError(e));
            },
        };
        register.set_ip(target);
    } else {
        register.inc_ip(len);
    }
    Ok(())
}

fn exec_compare_jump(
    t: InstructionType,
    args: &[u8],
    len: usize,
    register: &mut RegisterFile,
    memory: &mut Memory,
) -> (r: Result<(), InstructionError>)
    requires
        old(register)@.regs.ip + len <= usize::MAX,
    ensures
        effect_matches(
            compare_jump_effect(t, args@, len, old(register)@, old(memory)@),
            final(register)@,
            final(memory)@,
            r,
        ),
{
    let mut argument = Argument::new(args);
    let reg1 = match argument.parse_register() {
        Ok(x) => x,
        Err(e) => {
            return Err(InstructionError::ArgumentParseError(e));
        },
    };
    let reg2 = match argument.parse_register() {
        Ok(x) => x,
        Err(e) => {
            return Err(InstructionError::ArgumentParseError(e));
        },
    };
    let n1 = match register.get_general(&reg1) {
        Ok(v) => v,
        Err(e) => {
            return Err(InstructionError::RegisterFileError(e));
        },
    };
    let n2 = match register.get_general(&reg2) {
        Ok(v) => v,
        Err(e) => {
            return Err(InstructionError::RegisterFileError(e));
        },
    };
    let difference = n1.wrapping_sub(n2);
    let taken = match t {
        InstructionType::Jacc => n1 < n2,
        InstructionType::Jace => !(n1 < n2) && difference != 0 && !sign_bit(difference),
        _ => sign_bit(difference),
    };
    if taken {
        let target = match argument.parse_address() {
            Ok(x) => x,
            Err(e) => {
                return Err(InstructionError::ArgumentParseError(e));
            },
        };
        register.set_ip(target);
    } else {
        register.inc_ip(len);
    }
    Ok(())
}

/// Executes instruction `t` with argument `args`, `len` bytes long in all.
pub fn execute_instruction(
    t: InstructionType,
    args: &[u8],
    len: usize,
    register: &mut RegisterFile,
    memory: &mut Memory,
) -> (r: Result<(), InstructionError>)
    requires
        old(register)@.regs.ip + len <= usize::MAX,
    ensures
        effect_matches(
            step(t, args@, len, old(register)@, old(memory)@),
            final(register)@,
            final(memory)@,
            r,
        ),
{
    reveal(step);
    match t {
        InstructionType::Mov => exec_mov(args, len, register, memory),
        InstructionType::Push => exec_push(args, len, register, memory),
        InstructionType::Pop => exec_pop(args, len, register, memory),
        InstructionType::Inc => exec_inc(args, len, register, memory),
        InstructionType::Add => exec_arith(true, args, len, register, memory),
        InstructionType::Sub => exec_arith(false, args, len, register, memory),
        InstructionType::Cmp => exec_cmp(args, len, register, memory),
        InstructionType::Jmp => exec_jmp(args, register, memory),
        InstructionType::Halt => {
            register.inc_ip(len);
            register.set_halt(true);
            Ok(())
        },
        InstructionType::Jmz => exec_jmz(args, len, register, memory),
        InstructionType::Jacc | InstructionType::Jace | InstructionType::Jacn => exec_compare_jump(
            t,
            args,
            len,
            register,
            memory,
        ),
        _ => Ok(()),
    }
}

} // verus!

verus! {

/// Bytes written least significant first read back as the number modulo
/// the power of 256 of their count.
pub proof fn lemma_le_round_trip(v: nat, n: nat)
    ensures
        le_value(le_bytes(v, n)) == v % pow256(n),
        le_bytes(v, n).len() == n,
    decreases n,
{
    if n == 0 {
        assert(v % 1 == 0);
    } else {
        lemma_le_round_trip(v / 256, (n - 1) as nat);
        let rest = le_bytes(v / 256, (n - 1) as nat);
        assert(le_bytes(v, n).drop_first() =~= rest);
        lemma_pow256_positive((n - 1) as nat);
        vstd::arithmetic::div_mod::lemma_mod_breakdown(v as int, 256, pow256((n - 1) as nat) as int);
    }
}

/// What `step` is for each instruction.
pub proof fn lemma_step_is(t: InstructionType, args: Seq<u8>, len: usize, r: RegisterFileView, m: Seq<u8>)
    ensures
        t == InstructionType::Push ==> step(t, args, len, r, m) == push_effect(args, len, r, m),
        t == InstructionType::Pop ==> step(t, args, len, r, m) == pop_effect(args, len, r, m),
{
    reveal(step);
}

/// Powers of 256 are positive.
pub proof fn lemma_pow256_positive(n: nat)
    ensures
        pow256(n) > 0,
    decreases n,
{
    if n > 0 {
        lemma_pow256_positive((n - 1) as nat);
    }
}

/// What a general register reads fits in its width.
pub proof fn lemma_general_value_fits(regs: RegisterValues, reg: RegisterType)
    requires
        general_value(regs, reg) is Some,
    ensures
        general_value(regs, reg)->0 < pow256(size_bytes(size_of_register(reg)) as nat),
{
    reveal_with_fuel(pow256, 9);
}

/// Writing back what a general register reads changes nothing.
#[verifier::spinoff_prover]
#[verifier::rlimit(50)]
pub proof fn lemma_write_back(regs: RegisterValues, reg: RegisterType)
    requires
        general_value(regs, reg) is Some,
    ensures
        with_general(regs, reg, general_value(regs, reg)->0) == Some(regs),
{
}

/// Pushing a general register and then popping the same register leaves
/// the registers as they were, `sp` included, with `ip` past both
/// instructions; the memory keeps the pushed bytes. (Pushing must succeed:
/// the stack slot lies inside the memory.)
pub proof fn law_push_then_pop_restores(
    reg: RegisterType,
    push_args: Seq<u8>,
    pop_args: Seq<u8>,
    push_len: usize,
    pop_len: usize,
    r: RegisterFileView,
    m: Seq<u8>,
)
    requires
        push_args.len() >= 1,
        push_args[0] == spec_register_byte(reg),
        pop_args.len() >= 1,
        pop_args[0] == spec_register_byte(reg),
        general_value(r.regs, reg) is Some,
        m.len() <= usize::MAX,
        r.regs.ip + push_len + pop_len <= usize::MAX,
        step(InstructionType::Push, push_args, push_len, r, m).result is Ok,
    ensures
        ({
            let pushed = step(InstructionType::Push, push_args, push_len, r, m);
            let popped = step(InstructionType::Pop, pop_args, pop_len, pushed.regs, pushed.mem);
            &&& popped.result is Ok
            &&& popped.regs == advanced(advanced(r, push_len), pop_len)
            &&& popped.mem == pushed.mem
        }),
{
    lemma_step_is(InstructionType::Push, push_args, push_len, r, m);
    crate::vm::argument::law_register_byte_round_trip(reg);
    let v = general_value(r.regs, reg)->0;
    let n = size_bytes(size_of_register(reg));
    let r0 = advanced(r, push_len);
    assert(general_value(r0.regs, reg) == Some(v));
    let sp1 = vstd::wrapping::usize_specs::wrapping_sub(r0.sp, n);
    let bytes = le_bytes(v as nat, n as nat);
    lemma_le_round_trip(v as nat, n as nat);
    lemma_general_value_fits(r.regs, reg);
    vstd::arithmetic::div_mod::lemma_small_mod(v as nat, pow256(n as nat));
    let pushed = step(InstructionType::Push, push_args, push_len, r, m);
    assert(write_bytes(m, Address(sp1), bytes) is Ok);
    assert(sp1 == r.sp - n);
    assert(pushed.mem == m.take(sp1 as int) + bytes + m.skip(sp1 + n));
    assert(pushed.regs == RegisterFileView { sp: sp1, ..r0 });
    let r2 = advanced(pushed.regs, pop_len);
    lemma_step_is(InstructionType::Pop, pop_args, pop_len, pushed.regs, pushed.mem);
    assert(read_bytes(pushed.mem, Address(r2.sp), n) == Ok::<Seq<u8>, MemoryError>(bytes)) by {
        assert(pushed.mem.subrange(sp1 as int, sp1 + n) =~= bytes);
    }
    assert(le_value(bytes) as u64 == v);
    lemma_write_back(r2.regs, reg);
    assert(general_value(r2.regs, reg) == Some(v));
}

/// The stack slot that a push of `reg` at registers `r` writes: from the
/// lowered `sp` on, as many bytes as the register holds.
pub open spec fn pushed_slot(reg: RegisterType, r: RegisterFileView) -> (int, int) {
    let n = size_bytes(size_of_register(reg));
    ((r.sp - n) as int, r.sp as int)
}

/// A pop reads back what a push wrote, whatever ran in between, as long as
/// that kept `sp` where the push left it and left the pushed bytes alone: the
/// popped register holds its value from before the push again, `sp` is back
/// where it was before the push, the memory is unchanged, and every other
/// register and flag is as the instructions in between left it. Applied
/// twice, `push a; push b; ...; pop b; pop a` restores both (last in, first
/// out). (Pushing must succeed: the stack slot lies inside the memory.)
pub proof fn law_pop_restores_pushed(
    reg: RegisterType,
    push_args: Seq<u8>,
    pop_args: Seq<u8>,
    push_len: usize,
    pop_len: usize,
    r: RegisterFileView,
    m: Seq<u8>,
    between: RegisterFileView,
    between_mem: Seq<u8>,
)
    requires
        push_args.len() >= 1,
        push_args[0] == spec_register_byte(reg),
        pop_args.len() >= 1,
        pop_args[0] == spec_register_byte(reg),
        general_value(r.regs, reg) is Some,
        m.len() <= usize::MAX,
        r.regs.ip + push_len <= usize::MAX,
        between.regs.ip + pop_len <= usize::MAX,
        step(InstructionType::Push, push_args, push_len, r, m).result is Ok,
        between.sp == step(InstructionType::Push, push_args, push_len, r, m).regs.sp,
        between_mem.len() == m.len(),
        between_mem.subrange(pushed_slot(reg, r).0, pushed_slot(reg, r).1) == step(
            InstructionType::Push,
            push_args,
            push_len,
            r,
            m,
        ).mem.subrange(pushed_slot(reg, r).0, pushed_slot(reg, r).1),
    ensures
        ({
            let popped = step(InstructionType::Pop, pop_args, pop_len, between, between_mem);
            let b0 = advanced(between, pop_len);
            &&& popped.result is Ok
            &&& general_value(popped.regs.regs, reg) == general_value(r.regs, reg)
            &&& popped.regs.sp == r.sp
            &&& popped.mem == between_mem
            &&& popped.regs == RegisterFileView {
                regs: with_general(b0.regs, reg, general_value(r.regs, reg)->0)->0,
                sp: r.sp,
                ..b0
            }
        }),
{
    lemma_step_is(InstructionType::Push, push_args, push_len, r, m);
    crate::vm::argument::law_register_byte_round_trip(reg);
    let v = general_value(r.regs, reg)->0;
    let n = size_bytes(size_of_register(reg));
    let r0 = advanced(r, push_len);
    assert(general_value(r0.regs, reg) == Some(v));
    let sp1 = vstd::wrapping::usize_specs::wrapping_sub(r0.sp, n);
    let bytes = le_bytes(v as nat, n as nat);
    lemma_le_round_trip(v as nat, n as nat);
    lemma_general_value_fits(r.regs, reg);
    vstd::arithmetic::div_mod::lemma_small_mod(v as nat, pow256(n as nat));
    let pushed = step(InstructionType::Push, push_args, push_len, r, m);
    assert(write_bytes(m, Address(sp1), bytes) is Ok);
    assert(sp1 == r.sp - n);
    assert(pushed.mem == m.take(sp1 as int) + bytes + m.skip(sp1 + n));
    assert(pushed.regs == RegisterFileView { sp: sp1, ..r0 });
    let b0 = advanced(between, pop_len);
    lemma_step_is(InstructionType::Pop, pop_args, pop_len, between, between_mem);
    assert(pushed.mem.subrange(sp1 as int, sp1 + n) =~= bytes);
    assert(read_bytes(between_mem, Address(b0.sp), n) == Ok::<Seq<u8>, MemoryError>(bytes));
    assert(le_value(bytes) as u64 == v);
    lemma_with_general_reads_back(b0.regs, reg, v);
}

} // verus!

verus! {

/// A value that fits the register is read back as written.
proof fn lemma_with_general_reads_back(regs: RegisterValues, reg: RegisterType, v: u64)
    requires
        general_value(regs, reg) is Some,
        v < pow256(size_bytes(size_of_register(reg)) as nat),
    ensures
        with_general(regs, reg, v) is Some,
        general_value(with_general(regs, reg, v)->0, reg) == Some(v),
{
    reveal_with_fuel(pow256, 9);
    let (full, width) = match reg {
        RegisterType::A8 => (regs.a, WIDTH_8),
        RegisterType::A16 => (regs.a, WIDTH_16),
        RegisterType::A32 => (regs.a, WIDTH_32),
        RegisterType::B8 => (regs.b, WIDTH_8),
        RegisterType::B16 => (regs.b, WIDTH_16),
        RegisterType::B32 => (regs.b, WIDTH_32),
        RegisterType::C8 => (regs.c, WIDTH_8),
        RegisterType::C16 => (regs.c, WIDTH_16),
        RegisterType::C32 => (regs.c, WIDTH_32),
        RegisterType::D8 => (regs.d, WIDTH_8),
        RegisterType::D16 => (regs.d, WIDTH_16),
        RegisterType::D32 => (regs.d, WIDTH_32),
        _ => (0, 0),
    };
    if width != 0 {
        assert(v < width);
        assert(width == WIDTH_8 ==> (v as u8) as int == v as int);
        assert(width == WIDTH_16 ==> (v as u16) as int == v as int);
        assert(width == WIDTH_32 ==> (v as u32) as int == v as int);
        crate::vm::registers::law_sub_register_write_read(full, v as int, width);
    }
}

/// Writing a general register keeps `ip`.
proof fn lemma_with_general_keeps_ip()
    ensures
        forall|v: RegisterValues, reg: RegisterType, value: u64|
            #[trigger] with_general(v, reg, value) matches Some(g) ==> g.ip == v.ip,
{
}

/// The compare-and-jump instructions compare two general registers by the
/// difference of the first minus the second, taken modulo 2^64, and jump to
/// the address in the eight bytes after the register bytes exactly when:
/// - `jacc`: the subtraction borrows (the first is below the second);
/// - `jacn`: the difference has its top (sign) bit set;
/// - `jace`: the difference is neither zero nor has its top bit set, and
///   the subtraction does not borrow.
/// Otherwise `ip` moves past the instruction. Flags, other registers and
/// memory are left alone, and the instruction succeeds. In particular equal
/// registers never jump on any of the three.
#[verifier::spinoff_prover]
#[verifier::rlimit(50)]
pub proof fn law_compare_jump_condition(
    t: InstructionType,
    args: Seq<u8>,
    len: usize,
    r: RegisterFileView,
    m: Seq<u8>,
    reg1: RegisterType,
    reg2: RegisterType,
    n1: u64,
    n2: u64,
)
    requires
        t == InstructionType::Jacc || t == InstructionType::Jacn || t == InstructionType::Jace,
        args.len() >= 10,
        args[0] == spec_register_byte(reg1),
        args[1] == spec_register_byte(reg2),
        general_value(r.regs, reg1) == Some(n1),
        general_value(r.regs, reg2) == Some(n2),
        r.regs.ip + len <= usize::MAX,
    ensures
        ({
            let e = step(t, args, len, r, m);
            let d = (n1 - n2) % 0x1_0000_0000_0000_0000int;
            let jumps = if t == InstructionType::Jacc {
                n1 < n2
            } else if t == InstructionType::Jacn {
                d >= 0x8000_0000_0000_0000int
            } else {
                n1 >= n2 && d != 0 && d < 0x8000_0000_0000_0000int
            };
            &&& e.result is Ok
            &&& e.mem == m
            &&& e.regs == RegisterFileView {
                regs: RegisterValues {
                    ip: if jumps {
                        le_value(args.subrange(2, 10)) as usize
                    } else {
                        (r.regs.ip + len) as usize
                    },
                    ..r.regs
                },
                ..r
            }
            &&& n1 == n2 ==> e.regs.regs.ip == r.regs.ip + len
        }),
{
    reveal(step);
    assert(step(t, args, len, r, m) == compare_jump_effect(t, args, len, r, m));
    crate::vm::argument::law_register_byte_round_trip(reg1);
    crate::vm::argument::law_register_byte_round_trip(reg2);
    assert(arg_register(args, 0) == Ok::<(RegisterType, int), ArgumentParseError>((reg1, 1)));
    assert(arg_register(args, 1) == Ok::<(RegisterType, int), ArgumentParseError>((reg2, 2)));
    assert(arg_address(args, 2) == Ok::<(Address, int), ArgumentParseError>(
        (Address(le_value(args.subrange(2, 10)) as usize), 10),
    ));
    let w = vstd::wrapping::u64_specs::wrapping_sub(n1, n2);
    assert(w == (n1 - n2) % 0x1_0000_0000_0000_0000int);
}

/// Every instruction but the jumps moves `ip` past itself, whether it
/// succeeds or fails.
#[verifier::spinoff_prover]
pub proof fn law_straight_line_advances_ip(
    t: InstructionType,
    args: Seq<u8>,
    len: usize,
    r: RegisterFileView,
    m: Seq<u8>,
)
    requires
        executable(t),
        t != InstructionType::Jmp && t != InstructionType::Jmz && t != InstructionType::Jacc && t
            != InstructionType::Jace && t != InstructionType::Jacn,
        r.regs.ip + len <= usize::MAX,
    ensures
        step(t, args, len, r, m).regs.regs.ip == r.regs.ip + len,
{
    reveal(step);
    lemma_with_general_keeps_ip();
    match t {
        InstructionType::Mov => assert(mov_effect(args, len, r, m).regs.regs.ip == r.regs.ip + len),
        InstructionType::Push => assert(push_effect(args, len, r, m).regs.regs.ip == r.regs.ip + len),
        InstructionType::Pop => assert(pop_effect(args, len, r, m).regs.regs.ip == r.regs.ip + len),
        InstructionType::Inc => assert(inc_effect(args, len, r, m).regs.regs.ip == r.regs.ip + len),
        InstructionType::Add => assert(arith_effect(true, args, len, r, m).regs.regs.ip == r.regs.ip
            + len),
        InstructionType::Sub => assert(arith_effect(false, args, len, r, m).regs.regs.ip == r.regs.ip
            + len),
        InstructionType::Cmp => assert(cmp_effect(args, len, r, m).regs.regs.ip == r.regs.ip + len),
        _ => {},
    }
}

/// Only `mov` and `push` write memory; no instruction changes its size.
pub proof fn law_memory_written_only_by_mov_and_push(
    t: InstructionType,
    args: Seq<u8>,
    len: usize,
    r: RegisterFileView,
    m: Seq<u8>,
)
    ensures
        t != InstructionType::Mov && t != InstructionType::Push ==> step(t, args, len, r, m).mem
            == m,
        step(t, args, len, r, m).mem.len() == m.len(),
{
    reveal(step);
    if t == InstructionType::Mov {
        if let Ok((sub, p)) = arg_u8(args, 0) {
            if sub == MOV_REG2MEM {
                if let Ok((address, p2)) = arg_address(args, p) {
                    if let Ok((reg, _)) = arg_register(args, p2) {
                        if let Some(v) = general_value(advanced(r, len).regs, reg) {
                            lemma_le_round_trip(v as nat, size_bytes(size_of_register(reg)) as nat);
                        }
                    }
                }
            }
        }
    } else if t == InstructionType::Push {
        if let Ok((reg, _)) = arg_register(args, 0) {
            if let Some(v) = general_value(advanced(r, len).regs, reg) {
                lemma_le_round_trip(v as nat, size_bytes(size_of_register(reg)) as nat);
            }
        }
    }
}

} // verus!
