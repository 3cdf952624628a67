use vstd::prelude::*;

use crate::chars::str_eq;

verus! {

pub const MOV_REG2REG: u8 = 1;
pub const MOV_REG2MEM: u8 = 2;
pub const MOV_NUM2REG: u8 = 3;
pub const MOV_ADD2SP: u8 = 4;
pub const MOV_REG2SP: u8 = 5;
/// `mov` that stores a register at the address held in another register.
pub const MOV_REG2DEREF_REG: u8 = 6;

#[derive(Debug, Clone, Copy, PartialEq, Eq, Structural)]
pub enum InstructionType {
    Add,
    Cmp,
    Halt,
    Inc,
    Sub,
    Push,
    Pop,
    Mov,
    Jmp,
    Jmn,
    Jme,
    Jmz,
    Jmc,
    Jacc,
    Jace,
    Jacn,
    Jacz,
}

#[derive(Debug, Clone, Copy, PartialEq, Eq, Structural)]
pub enum RegisterType {
    A8,
    A16,
    A32,
    A64,
    B8,
    B16,
    B32,
    B64,
    C8,
    C16,
    C32,
    C64,
    D8,
    D16,
    D32,
    D64,
    IP,
    SP,
}

/// The opcode that the machine decodes for each instruction.
pub open spec fn spec_opcode(i: InstructionType) -> u16 {
    match i {
        InstructionType::Mov => 16,
        InstructionType::Push => 17,
        InstructionType::Pop => 18,
        InstructionType::Inc => 30,
        InstructionType::Cmp => 31,
        InstructionType::Add => 32,
        InstructionType::Sub => 33,
        InstructionType::Jmp => 64,
        InstructionType::Jmz => 65,
        InstructionType::Jmn => 66,
        InstructionType::Jacn => 67,
        InstructionType::Jacz => 68,
        InstructionType::Jacc => 69,
        InstructionType::Jace => 70,
        InstructionType::Jme => 71,
        InstructionType::Jmc => 72,
        InstructionType::Halt => 65535,
    }
}

/// The byte that encodes each register in an instruction's argument.
pub open spec fn spec_register_byte(r: RegisterType) -> u8 {
    match r {
        RegisterType::A8 => 1,
        RegisterType::A16 => 2,
        RegisterType::A32 => 3,
        RegisterType::A64 => 4,
        RegisterType::B8 => 5,
        RegisterType::B16 => 6,
        RegisterType::B32 => 7,
        RegisterType::B64 => 8,
        RegisterType::C8 => 9,
        RegisterType::C16 => 10,
        RegisterType::C32 => 11,
        RegisterType::C64 => 12,
        RegisterType::D8 => 13,
        RegisterType::D16 => 14,
        RegisterType::D32 => 15,
        RegisterType::D64 => 16,
        RegisterType::IP => 255,
        RegisterType::SP => 254,
    }
}

/// The instruction that a mnemonic names, if any. (`jmc` reads as `jmz`.)
pub open spec fn instruction_from_name(s: Seq<char>) -> Option<InstructionType> {
    if s == "mov"@ {
        Some(InstructionType::Mov)
    } else if s == "add"@ {
        Some(InstructionType::Add)
    } else if s == "sub"@ {
        Some(InstructionType::Sub)
    } else if s == "inc"@ {
        Some(InstructionType::Inc)
    } else if s == "push"@ {
        Some(InstructionType::Push)
    } else if s == "pop"@ {
        Some(InstructionType::Pop)
    } else if s == "cmp"@ {
        Some(InstructionType::Cmp)
    } else if s == "jmp"@ {
        Some(InstructionType::Jmp)
    } else if s == "jmn"@ {
        Some(InstructionType::Jmn)
    } else if s == "jme"@ {
        Some(InstructionType::Jme)
    } else if s == "jmz"@ {
        Some(InstructionType::Jmz)
    } else if s == "jmc"@ {
        Some(InstructionType::Jmz)
    } else if s == "jacc"@ {
        Some(InstructionType::Jacc)
    } else if s == "jace"@ {
        Some(InstructionType::Jace)
    } else if s == "jacn"@ {
        Some(InstructionType::Jacn)
    } else if s == "jacz"@ {
        Some(InstructionType::Jacz)
    } else if s == "halt"@ {
        Some(InstructionType::Halt)
    } else {
        None
    }
}

/// The register that a name denotes, if any.
pub open spec fn register_from_name(s: Seq<char>) -> Option<RegisterType> {
    if s == "a8"@ {
        Some(RegisterType::A8)
    } else if s == "a16"@ {
        Some(RegisterType::A16)
    } else if s == "a32"@ {
        Some(RegisterType::A32)
    } else if s == "a64"@ {
        Some(RegisterType::A64)
    } else if s == "b8"@ {
        Some(RegisterType::B8)
    } else if s == "b16"@ {
        Some(RegisterType::B16)
    } else if s == "b32"@ {
        Some(RegisterType::B32)
    } else if s == "b64"@ {
        Some(RegisterType::B64)
    } else if s == "c8"@ {
        Some(RegisterType::C8)
    } else if s == "c16"@ {
        Some(RegisterType::C16)
    } else if s == "c32"@ {
        Some(RegisterType::C32)
    } else if s == "c64"@ {
        Some(RegisterType::C64)
    } else if s == "d8"@ {
        Some(RegisterType::D8)
    } else if s == "d16"@ {
        Some(RegisterType::D16)
    } else if s == "d32"@ {
        Some(RegisterType::D32)
    } else if s == "d64"@ {
        Some(RegisterType::D64)
    } else if s == "sp"@ {
        Some(RegisterType::SP)
    } else if s == "ip"@ {
        Some(RegisterType::IP)
    } else {
        None
    }
}

/// Returned when a string names no instruction or register.
pub struct FailToParseFromString;

/// The text that messages print for each value.
pub open spec fn instruction_type_name(x: InstructionType) -> Seq<char> {
    match x {
        InstructionType::Add => "add"@,
        InstructionType::Cmp => "cmp"@,
        InstructionType::Halt => "halt"@,
        InstructionType::Inc => "inc"@,
        InstructionType::Sub => "sub"@,
        InstructionType::Push => "push"@,
        InstructionType::Pop => "pop"@,
        InstructionType::Mov => "mov"@,
        InstructionType::Jmp => "jmp"@,
        InstructionType::Jmn => "jmn"@,
        InstructionType::Jme => "jme"@,
        InstructionType::Jmz => "jmz"@,
        InstructionType::Jmc => "jmc"@,
        InstructionType::Jacc => "jacc"@,
        InstructionType::Jace => "jace"@,
        InstructionType::Jacn => "jacn"@,
        InstructionType::Jacz => "jacz"@,
    }
}

impl InstructionType {
    pub fn opcode(&self) -> (r: u16)
        ensures
            r == spec_opcode(*self),
    {
        match self {
            Self::Mov => 16,
            Self::Push => 17,
            Self::Pop => 18,
            Self::Inc => 30,
            Self::Cmp => 31,
            Self::Add => 32,
            Self::Sub => 33,
            Self::Jmp => 64,
            Self::Jmz => 65,
            Self::Jmn => 66,
            Self::Jacn => 67,
            Self::Jacz => 68,
            Self::Jacc => 69,
            Self::Jace => 70,
            Self::Jme => 71,
            Self::Jmc => 72,
            Self::Halt => 65535,
        }
    }

    pub fn from_str(s: &str) -> (r: Result<InstructionType, FailToParseFromString>)
        ensures
            r is Ok <==> instruction_from_name(s@) is Some,
            r matches Ok(i) ==> instruction_from_name(s@) == Some(i),
    {
        if str_eq(s, "mov") {
            Ok(Self::Mov)
        } else if str_eq(s, "add") {
            Ok(Self::Add)
        } else if str_eq(s, "sub") {
            Ok(Self::Sub)
        } else if str_eq(s, "inc") {
            Ok(Self::Inc)
        } else if str_eq(s, "push") {
            Ok(Self::Push)
        } else if str_eq(s, "pop") {
            Ok(Self::Pop)
        } else if str_eq(s, "cmp") {
            Ok(Self::Cmp)
        } else if str_eq(s, "jmp") {
            Ok(Self::Jmp)
        } else if str_eq(s, "jmn") {
            Ok(Self::Jmn)
        } else if str_eq(s, "jme") {
            Ok(Self::Jme)
        } else if str_eq(s, "jmz") {
            Ok(Self::Jmz)
        } else if str_eq(s, "jmc") {
            Ok(Self::Jmz)
        } else if str_eq(s, "jacc") {
            Ok(Self::Jacc)
        } else if str_eq(s, "jace") {
            Ok(Self::Jace)
        } else if str_eq(s, "jacn") {
            Ok(Self::Jacn)
        } else if str_eq(s, "jacz") {
            Ok(Self::Jacz)
        } else if str_eq(s, "halt") {
            Ok(Self::Halt)
        } else {
            Err(FailToParseFromString)
        }
    }

    /// The mnemonic of the instruction.
    pub fn name(&self) -> (r: &'static str)
        ensures
            r@ == instruction_type_name(*self),
    {
        match self {
            Self::Add => "add",
            Self::Cmp => "cmp",
            Self::Halt => "halt",
            Self::Inc => "inc",
            Self::Sub => "sub",
            Self::Push => "push",
            Self::Pop => "pop",
            Self::Mov => "mov",
            Self::Jmp => "jmp",
            Self::Jmn => "jmn",
            Self::Jme => "jme",
            Self::Jmz => "jmz",
            Self::Jmc => "jmc",
            Self::Jacc => "jacc",
            Self::Jace => "jace",
            Self::Jacn => "jacn",
            Self::Jacz => "jacz",
        }
    }
}

/// The text that messages print for each value.
pub open spec fn register_type_name(x: RegisterType) -> Seq<char> {
    match x {
        RegisterType::A8 => "a8"@,
        RegisterType::A16 => "a16"@,
        RegisterType::A32 => "a32"@,
        RegisterType::A64 => "a64"@,
        RegisterType::B8 => "b8"@,
        RegisterType::B16 => "b16"@,
        RegisterType::B32 => "b32"@,
        RegisterType::B64 => "b64"@,
        RegisterType::C8 => "c8"@,
        RegisterType::C16 => "c16"@,
        RegisterType::C32 => "c32"@,
        RegisterType::C64 => "c64"@,
        RegisterType::D8 => "d8"@,
        RegisterType::D16 => "d16"@,
        RegisterType::D32 => "d32"@,
        RegisterType::D64 => "d64"@,
        RegisterType::IP => "instruction pointer"@,
        RegisterType::SP => "stack pointer"@,
    }
}

impl RegisterType {
    pub fn to_byte(&self) -> (r: u8)
        ensures
            r == spec_register_byte(*self),
    {
        match self {
            Self::A8 => 1,
            Self::A16 => 2,
            Self::A32 => 3,
            Self::A64 => 4,
            Self::B8 => 5,
            Self::B16 => 6,
            Self::B32 => 7,
            Self::B64 => 8,
            Self::C8 => 9,
            Self::C16 => 10,
            Self::C32 => 11,
            Self::C64 => 12,
            Self::D8 => 13,
            Self::D16 => 14,
            Self::D32 => 15,
            Self::D64 => 16,
            Self::IP => 255,
            Self::SP => 254,
        }
    }

    pub fn from_str(s: &str) -> (r: Result<RegisterType, FailToParseFromString>)
        ensures
            r is Ok <==> register_from_name(s@) is Some,
            r matches Ok(x) ==> register_from_name(s@) == Some(x),
    {
        if str_eq(s, "a8") {
            Ok(Self::A8)
        } else if str_eq(s, "a16") {
            Ok(Self::A16)
        } else if str_eq(s, "a32") {
            Ok(Self::A32)
        } else if str_eq(s, "a64") {
            Ok(Self::A64)
        } else if str_eq(s, "b8") {
            Ok(Self::B8)
        } else if str_eq(s, "b16") {
            Ok(Self::B16)
        } else if str_eq(s, "b32") {
            Ok(Self::B32)
        } else if str_eq(s, "b64") {
            Ok(Self::B64)
        } else if str_eq(s, "c8") {
            Ok(Self::C8)
        } else if str_eq(s, "c16") {
            Ok(Self::C16)
        } else if str_eq(s, "c32") {
            Ok(Self::C32)
        } else if str_eq(s, "c64") {
            Ok(Self::C64)
        } else if str_eq(s, "d8") {
            Ok(Self::D8)
        } else if str_eq(s, "d16") {
            Ok(Self::D16)
        } else if str_eq(s, "d32") {
            Ok(Self::D32)
        } else if str_eq(s, "d64") {
            Ok(Self::D64)
        } else if str_eq(s, "sp") {
            Ok(Self::SP)
        } else if str_eq(s, "ip") {
            Ok(Self::IP)
        } else {
            Err(FailToParseFromString)
        }
    }

    /// The name of the register as messages write it.
    pub fn name(&self) -> (r: &'static str)
        ensures
            r@ == register_type_name(*self),
    {
        match self {
            Self::A8 => "a8",
            Self::A16 => "a16",
            Self::A32 => "a32",
            Self::A64 => "a64",
            Self::B8 => "b8",
            Self::B16 => "b16",
            Self::B32 => "b32",
            Self::B64 => "b64",
            Self::C8 => "c8",
            Self::C16 => "c16",
            Self::C32 => "c32",
            Self::C64 => "c64",
            Self::D8 => "d8",
            Self::D16 => "d16",
            Self::D32 => "d32",
            Self::D64 => "d64",
            Self::IP => "instruction pointer",
            Self::SP => "stack pointer",
        }
    }
}

#[derive(Debug, Clone, PartialEq)]
pub enum ASMToken {
    Instruction(InstructionType),
    Label(String),
    Register(RegisterType),
    Number(u64),
    ToLabel(String),
    Comma,
    NewLine,
}

/// A token with its text as a sequence of characters.
pub enum ASMTokenView {
    Instruction(InstructionType),
    Label(Seq<char>),
    Register(RegisterType),
    Number(u64),
    ToLabel(Seq<char>),
    Comma,
    NewLine,
}

impl View for ASMToken {
    type V = ASMTokenView;

    open spec fn view(&self) -> ASMTokenView {
        match self {
            ASMToken::Instruction(i) => ASMTokenView::Instruction(*i),
            ASMToken::Label(s) => ASMTokenView::Label(s@),
            ASMToken::Register(r) => ASMTokenView::Register(*r),
            ASMToken::Number(n) => ASMTokenView::Number(*n),
            ASMToken::ToLabel(s) => ASMTokenView::ToLabel(s@),
            ASMToken::Comma => ASMTokenView::Comma,
            ASMToken::NewLine => ASMTokenView::NewLine,
        }
    }
}

impl ASMToken {
    /// A copy of the token.
    pub fn duplicate(&self) -> (r: ASMToken)
        ensures
            r@ == self@,
    {
        match self {
            ASMToken::Instruction(i) => ASMToken::Instruction(*i),
            ASMToken::Label(s) => ASMToken::Label(s.clone()),
            ASMToken::Register(r) => ASMToken::Register(*r),
            ASMToken::Number(n) => ASMToken::Number(*n),
            ASMToken::ToLabel(s) => ASMToken::ToLabel(s.clone()),
            ASMToken::Comma => ASMToken::Comma,
            ASMToken::NewLine => ASMToken::NewLine,
        }
    }
}

} // verus!
