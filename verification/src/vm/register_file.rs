use vstd::prelude::*;

use crate::vm::address::Address;
use crate::vm::registers::{low_part, with_low_part, Register, RegisterValues, WIDTH_16, WIDTH_32, WIDTH_8};
use crate::vm::token::RegisterType;

verus! {

/// Why a register access failed.
#[derive(Debug, Clone, Copy, PartialEq, Eq, Structural)]
pub enum RegisterFileError {
    /// `ip` and `sp` are not general registers.
    NotGeneral(RegisterType),
}

/// How many bytes a register holds.
#[derive(Debug, Clone, Copy, PartialEq, Eq, Structural)]
pub enum RegisterSizes {
    SizeU8,
    SizeU16,
    SizeU32,
    SizeU64,
}

/// The width of each register (`ip` and `sp` are full words).
pub open spec fn size_of_register(r: RegisterType) -> RegisterSizes {
    match r {
        RegisterType::A8 | RegisterType::B8 | RegisterType::C8 | RegisterType::D8 => RegisterSizes::SizeU8,
        RegisterType::A16 | RegisterType::B16 | RegisterType::C16 | RegisterType::D16 => RegisterSizes::SizeU16,
        RegisterType::A32 | RegisterType::B32 | RegisterType::C32 | RegisterType::D32 => RegisterSizes::SizeU32,
        _ => RegisterSizes::SizeU64,
    }
}

/// The number of bytes of a size.
pub open spec fn size_bytes(s: RegisterSizes) -> usize {
    match s {
        RegisterSizes::SizeU8 => 1,
        RegisterSizes::SizeU16 => 2,
        RegisterSizes::SizeU32 => 4,
        RegisterSizes::SizeU64 => 8,
    }
}

impl RegisterType {
    pub fn size(&self) -> (r: RegisterSizes)
        ensures
            r == size_of_register(*self),
    {
        match self {
            RegisterType::A8 | RegisterType::B8 | RegisterType::C8 | RegisterType::D8 => RegisterSizes::SizeU8,
            RegisterType::A16 | RegisterType::B16 | RegisterType::C16 | RegisterType::D16 => RegisterSizes::SizeU16,
            RegisterType::A32 | RegisterType::B32 | RegisterType::C32 | RegisterType::D32 => RegisterSizes::SizeU32,
            _ => RegisterSizes::SizeU64,
        }
    }
}

impl RegisterSizes {
    pub fn byte(&self) -> (r: usize)
        ensures
            r == size_bytes(*self),
    {
        match self {
            RegisterSizes::SizeU8 => 1,
            RegisterSizes::SizeU16 => 2,
            RegisterSizes::SizeU32 => 4,
            RegisterSizes::SizeU64 => 8,
        }
    }
}

/// The whole state of the machine's registers.
pub struct RegisterFileView {
    pub regs: RegisterValues,
    pub sp: usize,
    pub carry: bool,
    pub zero: bool,
    pub negative: bool,
    pub halt: bool,
}

/// The value a general register reads, zero-extended to 64 bits.
pub open spec fn general_value(v: RegisterValues, r: RegisterType) -> Option<u64> {
    match r {
        RegisterType::A8 => Some(low_part(v.a, WIDTH_8) as u64),
        RegisterType::A16 => Some(low_part(v.a, WIDTH_16) as u64),
        RegisterType::A32 => Some(low_part(v.a, WIDTH_32) as u64),
        RegisterType::A64 => Some(v.a),
        RegisterType::B8 => Some(low_part(v.b, WIDTH_8) as u64),
        RegisterType::B16 => Some(low_part(v.b, WIDTH_16) as u64),
        RegisterType::B32 => Some(low_part(v.b, WIDTH_32) as u64),
        RegisterType::B64 => Some(v.b),
        RegisterType::C8 => Some(low_part(v.c, WIDTH_8) as u64),
        RegisterType::C16 => Some(low_part(v.c, WIDTH_16) as u64),
        RegisterType::C32 => Some(low_part(v.c, WIDTH_32) as u64),
        RegisterType::C64 => Some(v.c),
        RegisterType::D8 => Some(low_part(v.d, WIDTH_8) as u64),
        RegisterType::D16 => Some(low_part(v.d, WIDTH_16) as u64),
        RegisterType::D32 => Some(low_part(v.d, WIDTH_32) as u64),
        RegisterType::D64 => Some(v.d),
        RegisterType::IP | RegisterType::SP => None,
    }
}

/// The registers after writing `value`, cut to the register's width, into
/// a general register: a sub-register keeps the bits above it.
pub open spec fn with_general(v: RegisterValues, r: RegisterType, value: u64) -> Option<RegisterValues> {
    match r {
        RegisterType::A8 => Some(RegisterValues { a: with_low_part(v.a, (value as u8) as int, WIDTH_8) as u64, ..v }),
        RegisterType::A16 => Some(RegisterValues { a: with_low_part(v.a, (value as u16) as int, WIDTH_16) as u64, ..v }),
        RegisterType::A32 => Some(RegisterValues { a: with_low_part(v.a, (value as u32) as int, WIDTH_32) as u64, ..v }),
        RegisterType::A64 => Some(RegisterValues { a: value, ..v }),
        RegisterType::B8 => Some(RegisterValues { b: with_low_part(v.b, (value as u8) as int, WIDTH_8) as u64, ..v }),
        RegisterType::B16 => Some(RegisterValues { b: with_low_part(v.b, (value as u16) as int, WIDTH_16) as u64, ..v }),
        RegisterType::B32 => Some(RegisterValues { b: with_low_part(v.b, (value as u32) as int, WIDTH_32) as u64, ..v }),
        RegisterType::B64 => Some(RegisterValues { b: value, ..v }),
        RegisterType::C8 => Some(RegisterValues { c: with_low_part(v.c, (value as u8) as int, WIDTH_8) as u64, ..v }),
        RegisterType::C16 => Some(RegisterValues { c: with_low_part(v.c, (value as u16) as int, WIDTH_16) as u64, ..v }),
        RegisterType::C32 => Some(RegisterValues { c: with_low_part(v.c, (value as u32) as int, WIDTH_32) as u64, ..v }),
        RegisterType::C64 => Some(RegisterValues { c: value, ..v }),
        RegisterType::D8 => Some(RegisterValues { d: with_low_part(v.d, (value as u8) as int, WIDTH_8) as u64, ..v }),
        RegisterType::D16 => Some(RegisterValues { d: with_low_part(v.d, (value as u16) as int, WIDTH_16) as u64, ..v }),
        RegisterType::D32 => Some(RegisterValues { d: with_low_part(v.d, (value as u32) as int, WIDTH_32) as u64, ..v }),
        RegisterType::D64 => Some(RegisterValues { d: value, ..v }),
        RegisterType::IP | RegisterType::SP => None,
    }
}

/// The registers of the machine: the four general registers and `ip`, the
/// stack pointer, the flags that arithmetic sets, and whether it halted.
pub struct RegisterFile {
    general: Register,
    sp: Address,
    carry: bool,
    zero: bool,
    negative: bool,
    halt: bool,
}

impl View for RegisterFile {
    type V = RegisterFileView;

    closed spec fn view(&self) -> RegisterFileView {
        RegisterFileView {
            regs: self.general@,
            sp: self.sp@,
            carry: self.carry,
            zero: self.zero,
            negative: self.negative,
            halt: self.halt,
        }
    }
}

impl RegisterFile {
    /// All registers zero, no flag set, running.
    pub fn new() -> (r: RegisterFile)
        ensures
            r@ == (RegisterFileView {
                regs: RegisterValues { a: 0, b: 0, c: 0, d: 0, ip: 0 },
                sp: 0,
                carry: false,
                zero: false,
                negative: false,
                halt: false,
            }),
    {
        RegisterFile {
            general: Register::new(),
            sp: Address::new(0),
            carry: false,
            zero: false,
            negative: false,
            halt: false,
        }
    }

    /// The value of a general register, zero-extended.
    pub fn get_general(&self, reg: &RegisterType) -> (r: Result<u64, RegisterFileError>)
        ensures
            r == (match general_value(self@.regs, *reg) {
                Some(v) => Ok::<u64, RegisterFileError>(v),
                None => Err(RegisterFileError::NotGeneral(*reg)),
            }),
    {
        let g = &self.general;
        match reg {
            RegisterType::A8 => Ok(g.get_a8() as u64),
            RegisterType::A16 => Ok(g.get_a16() as u64),
            RegisterType::A32 => Ok(g.get_a32() as u64),
            RegisterType::A64 => Ok(g.get_a64()),
            RegisterType::B8 => Ok(g.get_b8() as u64),
            RegisterType::B16 => Ok(g.get_b16() as u64),
            RegisterType::B32 => Ok(g.get_b32() as u64),
            RegisterType::B64 => Ok(g.get_b64()),
            RegisterType::C8 => Ok(g.get_c8() as u64),
            RegisterType::C16 => Ok(g.get_c16() as u64),
            RegisterType::C32 => Ok(g.get_c32() as u64),
            RegisterType::C64 => Ok(g.get_c64()),
            RegisterType::D8 => Ok(g.get_d8() as u64),
            RegisterType::D16 => Ok(g.get_d16() as u64),
            RegisterType::D32 => Ok(g.get_d32() as u64),
            RegisterType::D64 => Ok(g.get_d64()),
            _ => Err(RegisterFileError::NotGeneral(*reg)),
        }
    }

    /// Writes `value`, cut to the register's width, into a general register.
    pub fn set_general(&mut self, reg: &RegisterType, value: u64) -> (r: Result<(), RegisterFileError>)
        ensures
            match with_general(old(self)@.regs, *reg, value) {
                Some(regs) => r is Ok && final(self)@ == (RegisterFileView { regs, ..old(self)@ }),
                None => r == Err::<(), RegisterFileError>(RegisterFileError::NotGeneral(*reg))
                    && final(self)@ == old(self)@,
            },
    {
        match reg {
            RegisterType::A8 => self.general.set_a8(value as u8),
            RegisterType::A16 => self.general.set_a16(value as u16),
            RegisterType::A32 => self.general.set_a32(value as u32),
            RegisterType::A64 => self.general.set_a64(value),
            RegisterType::B8 => self.general.set_b8(value as u8),
            RegisterType::B16 => self.general.set_b16(value as u16),
            RegisterType::B32 => self.general.set_b32(value as u32),
            RegisterType::B64 => self.general.set_b64(value),
            RegisterType::C8 => self.general.set_c8(value as u8),
            RegisterType::C16 => self.general.set_c16(value as u16),
            RegisterType::C32 => self.general.set_c32(value as u32),
            RegisterType::C64 => self.general.set_c64(value),
            RegisterType::D8 => self.general.set_d8(value as u8),
            RegisterType::D16 => self.general.set_d16(value as u16),
            RegisterType::D32 => self.general.set_d32(value as u32),
            RegisterType::D64 => self.general.set_d64(value),
            _ => {
                return Err(RegisterFileError::NotGeneral(*reg));
            },
        }
        Ok(())
    }

    pub fn get_ip(&self) -> (r: Address)
        ensures
            r@ == self@.regs.ip,
    {
        self.general.get_ip()
    }

    pub fn set_ip(&mut self, data: Address)
        ensures
            final(self)@ == (RegisterFileView {
                regs: RegisterValues { ip: data@, ..old(self)@.regs },
                ..old(self)@
            }),
    {
        self.general.set_ip(data);
    }

    /// Moves `ip` on by `amount` and returns it.
    pub fn inc_ip(&mut self, amount: usize) -> (r: Address)
        requires
            old(self)@.regs.ip + amount <= usize::MAX,
        ensures
            r@ == old(self)@.regs.ip + amount,
            final(self)@ == (RegisterFileView {
                regs: RegisterValues { ip: r@, ..old(self)@.regs },
                ..old(self)@
            }),
    {
        self.general.inc_ip(amount)
    }

    pub fn get_sp(&self) -> (r: Address)
        ensures
            r@ == self@.sp,
    {
        self.sp
    }

    pub fn set_sp(&mut self, data: Address)
        ensures
            final(self)@ == (RegisterFileView { sp: data@, ..old(self)@ }),
    {
        self.sp = data;
    }

    /// Moves `sp` up by `amount` (the stack shrinks) and returns it.
    pub fn inc_sp(&mut self, amount: usize) -> (r: Address)
        requires
            old(self)@.sp + amount <= usize::MAX,
        ensures
            r@ == old(self)@.sp + amount,
            final(self)@ == (RegisterFileView { sp: r@, ..old(self)@ }),
    {
        self.sp = self.sp.add(amount);
        self.sp
    }

    /// Moves `sp` down by `amount` (the stack grows), wrapping below zero,
    /// and returns it.
    pub fn dec_sp(&mut self, amount: usize) -> (r: Address)
        ensures
            r@ == vstd::wrapping::usize_specs::wrapping_sub(old(self)@.sp, amount),
            final(self)@ == (RegisterFileView { sp: r@, ..old(self)@ }),
    {
        self.sp = Address::new(self.sp.get_raw().wrapping_sub(amount));
        self.sp
    }

    pub fn get_carry(&self) -> (r: bool)
        ensures
            r == self@.carry,
    {
        self.carry
    }

    pub fn set_carry(&mut self, value: bool)
        ensures
            final(self)@ == (RegisterFileView { carry: value, ..old(self)@ }),
    {
        self.carry = value;
    }

    pub fn get_zero(&self) -> (r: bool)
        ensures
            r == self@.zero,
    {
        self.zero
    }

    pub fn set_zero(&mut self, value: bool)
        ensures
            final(self)@ == (RegisterFileView { zero: value, ..old(self)@ }),
    {
        self.zero = value;
    }

    pub fn get_negative(&self) -> (r: bool)
        ensures
            r == self@.negative,
    {
        self.negative
    }

    pub fn set_negative(&mut self, value: bool)
        ensures
            final(self)@ == (RegisterFileView { negative: value, ..old(self)@ }),
    {
        self.negative = value;
    }

    pub fn get_halt(&self) -> (r: bool)
        ensures
            r == self@.halt,
    {
        self.halt
    }

    pub fn set_halt(&mut self, value: bool)
        ensures
            final(self)@ == (RegisterFileView { halt: value, ..old(self)@ }),
    {
        self.halt = value;
    }
}


/// One write to the registers: a general register set to a value, or `ip`
/// set to an address.
pub enum RegisterWrite {
    General(RegisterType, u64),
    Ip(usize),
}

/// The registers after one write; a write to `ip` or `sp` through the
/// general-register path is refused and changes nothing.
pub open spec fn write_one(v: RegisterValues, w: RegisterWrite) -> RegisterValues {
    match w {
        RegisterWrite::General(r, x) => match with_general(v, r, x) {
            Some(g) => g,
            None => v,
        },
        RegisterWrite::Ip(a) => RegisterValues { ip: a, ..v },
    }
}

/// The registers after the writes `ws`, in order.
pub open spec fn write_all(v: RegisterValues, ws: Seq<RegisterWrite>) -> RegisterValues
    decreases ws.len(),
{
    if ws.len() == 0 {
        v
    } else {
        write_one(write_all(v, ws.drop_last()), ws.last())
    }
}

/// Which of the four general registers a register name is part of (`a` is
/// 0, `b` 1, `c` 2, `d` 3); `ip` and `sp` are 4.
pub open spec fn family(r: RegisterType) -> int {
    match r {
        RegisterType::A8 | RegisterType::A16 | RegisterType::A32 | RegisterType::A64 => 0,
        RegisterType::B8 | RegisterType::B16 | RegisterType::B32 | RegisterType::B64 => 1,
        RegisterType::C8 | RegisterType::C16 | RegisterType::C32 | RegisterType::C64 => 2,
        RegisterType::D8 | RegisterType::D16 | RegisterType::D32 | RegisterType::D64 => 3,
        _ => 4,
    }
}

/// `x` cut to the width of register `r`.
pub open spec fn cut_to(r: RegisterType, x: u64) -> u64 {
    match size_of_register(r) {
        RegisterSizes::SizeU8 => (x as u8) as u64,
        RegisterSizes::SizeU16 => (x as u16) as u64,
        RegisterSizes::SizeU32 => (x as u32) as u64,
        RegisterSizes::SizeU64 => x,
    }
}

/// Whether the write leaves register family `f` alone.
pub open spec fn spares(w: RegisterWrite, f: int) -> bool {
    match w {
        RegisterWrite::General(r, _) => family(r) != f,
        RegisterWrite::Ip(_) => f != 4,
    }
}

proof fn lemma_write_one_spares(v: RegisterValues, w: RegisterWrite, reg: RegisterType)
    requires
        spares(w, family(reg)),
    ensures
        general_value(write_one(v, w), reg) == general_value(v, reg),
        family(reg) == 4 ==> write_one(v, w).ip == v.ip,
{
}

/// Writes to other registers, and to `ip`, never change what a general
/// register reads: after any sequence of such writes it reads as before.
pub proof fn law_other_writes_keep_register(v: RegisterValues, reg: RegisterType, ws: Seq<RegisterWrite>)
    requires
        family(reg) != 4,
        forall|i: int| 0 <= i < ws.len() ==> spares(#[trigger] ws[i], family(reg)),
    ensures
        general_value(write_all(v, ws), reg) == general_value(v, reg),
    decreases ws.len(),
{
    if ws.len() > 0 {
        law_other_writes_keep_register(v, reg, ws.drop_last());
        lemma_write_one_spares(write_all(v, ws.drop_last()), ws.last(), reg);
    }
}

/// Writes to general registers never move `ip`: after `ip` is set, it reads
/// the same until the next write to `ip`.
pub proof fn law_general_writes_keep_ip(v: RegisterValues, ws: Seq<RegisterWrite>)
    requires
        forall|i: int| 0 <= i < ws.len() ==> #[trigger] ws[i] is General,
    ensures
        write_all(v, ws).ip == v.ip,
    decreases ws.len(),
{
    if ws.len() > 0 {
        law_general_writes_keep_ip(v, ws.drop_last());
        assert(ws[ws.len() - 1] is General);
    }
}

/// A general register reads back the last value written to it, cut to its
/// width, whatever writes to other registers or to `ip` came after.
pub proof fn law_last_write_is_read(
    v: RegisterValues,
    reg: RegisterType,
    x: u64,
    ws: Seq<RegisterWrite>,
)
    requires
        family(reg) != 4,
        forall|i: int| 0 <= i < ws.len() ==> spares(#[trigger] ws[i], family(reg)),
    ensures
        general_value(write_all(write_one(v, RegisterWrite::General(reg, x)), ws), reg) == Some(
            cut_to(reg, x),
        ),
{
    law_other_writes_keep_register(write_one(v, RegisterWrite::General(reg, x)), reg, ws);
    let (full, width) = match reg {
        RegisterType::A8 | RegisterType::A16 | RegisterType::A32 => (v.a, if reg == RegisterType::A8 {
            WIDTH_8
        } else if reg == RegisterType::A16 {
            WIDTH_16
        } else {
            WIDTH_32
        }),
        RegisterType::B8 | RegisterType::B16 | RegisterType::B32 => (v.b, if reg == RegisterType::B8 {
            WIDTH_8
        } else if reg == RegisterType::B16 {
            WIDTH_16
        } else {
            WIDTH_32
        }),
        RegisterType::C8 | RegisterType::C16 | RegisterType::C32 => (v.c, if reg == RegisterType::C8 {
            WIDTH_8
        } else if reg == RegisterType::C16 {
            WIDTH_16
        } else {
            WIDTH_32
        }),
        RegisterType::D8 | RegisterType::D16 | RegisterType::D32 => (v.d, if reg == RegisterType::D8 {
            WIDTH_8
        } else if reg == RegisterType::D16 {
            WIDTH_16
        } else {
            WIDTH_32
        }),
        _ => (0u64, 0u64),
    };
    if width != 0 {
        let data: int = if width == WIDTH_8 {
            (x as u8) as int
        } else if width == WIDTH_16 {
            (x as u16) as int
        } else {
            (x as u32) as int
        };
        crate::vm::registers::law_sub_register_write_read(full, data, width);
    }
}

} // verus!
