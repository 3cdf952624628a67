//! What the register machine's errors and tokens print.

use vstd::prelude::*;

use crate::text::{decimal_digits, hex_digits, string_append, string_push_str, u64_to_decimal};
use crate::vm::address::Address;
use crate::vm::argument::ArgumentParseError;
use crate::vm::compiler::{CompileErrorView, CompilerError};
use crate::vm::decoder::instruction::InstructionError;
use crate::vm::decoder::DecoderError;
use crate::vm::executor::ExecutionError;
use crate::vm::lexer::LexerError;
use crate::vm::memory::MemoryError;
use crate::vm::register_file::RegisterFileError;
use crate::vm::token::{instruction_type_name, register_type_name, ASMToken, ASMTokenView};

verus! {

/// An address as messages print it: `0x` and lower-case hexadecimal digits.
pub open spec fn address_text(a: Address) -> Seq<char> {
    seq!['0', 'x'] + hex_digits(a@ as nat)
}

/// A number as messages print it.
pub open spec fn number_text(n: nat) -> Seq<char> {
    decimal_digits(n)
}

/// How a token of the machine's assembly is described in messages.
pub open spec fn vm_token_text(t: ASMTokenView) -> Seq<char> {
    match t {
        ASMTokenView::Instruction(i) => "Instruction token with value: "@ + instruction_type_name(i),
        ASMTokenView::Label(l) => "Label token with value: "@ + l,
        ASMTokenView::Register(r) => "Register token with value: "@ + register_type_name(r),
        ASMTokenView::Number(n) => "Number token with value: "@ + number_text(n as nat),
        ASMTokenView::ToLabel(l) => "ToLabel token with value: "@ + l,
        ASMTokenView::Comma => "Comma token"@,
        ASMTokenView::NewLine => "New line token"@,
    }
}

/// What a failed assembly prints.
pub open spec fn vm_compile_text(e: CompileErrorView) -> Seq<char> {
    match e {
        CompileErrorView::UnexpectedToken(t) => "Trying to compile with unexpected token "@ + vm_token_text(t),
        CompileErrorView::TokenNotFound => "No token found where one was expected."@,
        CompileErrorView::UndefinedLabel(l) => "Undefied label: "@ + l,
    }
}

/// What an instruction that could not be read prints.
pub open spec fn decoder_text(e: DecoderError) -> Seq<char> {
    match e {
        DecoderError::InvalidOpCode(op) => "Trying to decode invalid op code: "@ + number_text(op as nat),
        DecoderError::InvalidIp(ip) =>
            "Trying to get instruction length from invalid instruction pointer: "@ + address_text(ip),
        DecoderError::InvalidIl(ip, il) =>
            "Trying to get instruction data from invalid instruction length: "@ + number_text(il as nat)
                + ", with instruction pointer: "@ + address_text(ip),
    }
}

/// What an argument that could not be read prints.
pub open spec fn argument_text(e: ArgumentParseError) -> Seq<char> {
    match e {
        ArgumentParseError::EndOfArgument => "the instruction's argument ended too early"@,
        ArgumentParseError::InvalidRegister(b) => "no register is encoded as "@ + number_text(b as nat),
    }
}

/// What a refused register access prints.
pub open spec fn register_file_text(e: RegisterFileError) -> Seq<char> {
    match e {
        RegisterFileError::NotGeneral(r) => register_type_name(r) + " is not a general register"@,
    }
}

/// What a refused memory access prints.
pub open spec fn memory_text(e: MemoryError) -> Seq<char> {
    match e {
        MemoryError::InvalidAddr(a) => "invalid memory address "@ + address_text(a),
        MemoryError::OutOfRange(a, n) => number_text(n as nat) + " bytes from "@ + address_text(a)
            + " run past the memory"@,
    }
}

/// What a failed instruction prints.
pub open spec fn instruction_text(e: InstructionError) -> Seq<char> {
    match e {
        InstructionError::ArgumentParseError(a) => argument_text(a),
        InstructionError::RegisterFileError(r) => register_file_text(r),
        InstructionError::InvalidSubOpCode(main, sub) =>
            "Trying to execute invalid sup op code. Main OP Code "@ + number_text(main as nat)
                + ", Sub OP Code: "@ + number_text(sub as nat),
        InstructionError::MemoryError(m) => memory_text(m),
    }
}

/// What a machine that stopped on an error prints.
pub open spec fn execution_text(e: ExecutionError) -> Seq<char> {
    match e {
        ExecutionError::Decoder(d) => decoder_text(d),
        ExecutionError::Instruction(i, op) => "Error occur while executing instruction: "@
            + instruction_text(i) + ", with opcode: "@ + number_text(op as nat),
    }
}

/// `a` followed by `b`.
fn joined(a: &str, b: &String) -> (r: String)
    ensures
        r@ == a@ + b@,
{
    let mut r = String::new();
    string_push_str(&mut r, a);
    string_append(&mut r, b);
    assert(r@ =~= a@ + b@);
    r
}

/// `a`, `b`, `c` and `d` one after another.
fn joined4(a: &str, b: &String, c: &str, d: &String) -> (r: String)
    ensures
        r@ == a@ + b@ + c@ + d@,
{
    let mut r = String::new();
    string_push_str(&mut r, a);
    string_append(&mut r, b);
    string_push_str(&mut r, c);
    string_append(&mut r, d);
    assert(r@ =~= a@ + b@ + c@ + d@);
    r
}

fn decimal(n: u64) -> (r: String)
    ensures
        r@ == number_text(n as nat),
{
    u64_to_decimal(n)
}

impl Address {
    /// The address as messages print it.
    pub fn message(&self) -> (r: String)
        ensures
            r@ == address_text(*self),
    {
        self.to_hex_string()
    }
}

impl ASMToken {
    /// The token as messages describe it.
    pub fn describe(&self) -> (r: String)
        ensures
            r@ == vm_token_text(self@),
    {
        match self {
            ASMToken::Instruction(i) => {
                let name = String::from_str(i.name());
                joined("Instruction token with value: ", &name)
            },
            ASMToken::Label(l) => joined("Label token with value: ", l),
            ASMToken::Register(r) => {
                let name = String::from_str(r.name());
                joined("Register token with value: ", &name)
            },
            ASMToken::Number(n) => joined("Number token with value: ", &decimal(*n)),
            ASMToken::ToLabel(l) => joined("ToLabel token with value: ", l),
            ASMToken::Comma => String::from_str("Comma token"),
            ASMToken::NewLine => String::from_str("New line token"),
        }
    }
}

impl LexerError {
    /// What the error prints.
    pub fn message(&self) -> (r: String)
        ensures
            match self {
                LexerError::InvalidToken(buffer) => r@ == "Trying to tokenize invalid input: "@ + buffer@,
            },
    {
        match self {
            LexerError::InvalidToken(buffer) => joined("Trying to tokenize invalid input: ", buffer),
        }
    }
}

impl CompilerError {
    /// What the error prints.
    pub fn message(&self) -> (r: String)
        ensures
            r@ == vm_compile_text(self@),
    {
        match self {
            CompilerError::UnexpectedToken(t) => {
                joined("Trying to compile with unexpected token ", &t.describe())
            },
            CompilerError::TokenNotFound => String::from_str("No token found where one was expected."),
            CompilerError::UndefinedLabel(l) => joined("Undefied label: ", l),
        }
    }
}

impl DecoderError {
    /// What the error prints.
    pub fn message(&self) -> (r: String)
        ensures
            r@ == decoder_text(*self),
    {
        match self {
            DecoderError::InvalidOpCode(op) => {
                joined("Trying to decode invalid op code: ", &decimal(*op as u64))
            },
            DecoderError::InvalidIp(ip) => {
                joined("Trying to get instruction length from invalid instruction pointer: ", &ip.message())
            },
            DecoderError::InvalidIl(ip, il) => joined4(
                "Trying to get instruction data from invalid instruction length: ",
                &decimal(*il as u64),
                ", with instruction pointer: ",
                &ip.message(),
            ),
        }
    }
}

impl ArgumentParseError {
    /// What the error prints.
    pub fn message(&self) -> (r: String)
        ensures
            r@ == argument_text(*self),
    {
        match self {
            ArgumentParseError::EndOfArgument => String::from_str("the instruction's argument ended too early"),
            ArgumentParseError::InvalidRegister(b) => joined("no register is encoded as ", &decimal(*b as u64)),
        }
    }
}

impl RegisterFileError {
    /// What the error prints.
    pub fn message(&self) -> (r: String)
        ensures
            r@ == register_file_text(*self),
    {
        match self {
            RegisterFileError::NotGeneral(reg) => {
                let mut r = String::from_str(reg.name());
                string_push_str(&mut r, " is not a general register");
                r
            },
        }
    }
}

impl MemoryError {
    /// What the error prints.
    pub fn message(&self) -> (r: String)
        ensures
            r@ == memory_text(*self),
    {
        match self {
            MemoryError::InvalidAddr(a) => joined("invalid memory address ", &a.message()),
            MemoryError::OutOfRange(a, n) => {
                let mut r = decimal(*n as u64);
                string_push_str(&mut r, " bytes from ");
                string_append(&mut r, &a.message());
                string_push_str(&mut r, " run past the memory");
                r
            },
        }
    }
}

impl InstructionError {
    /// What the error prints.
    pub fn message(&self) -> (r: String)
        ensures
            r@ == instruction_text(*self),
    {
        match self {
            InstructionError::ArgumentParseError(a) => a.message(),
            InstructionError::RegisterFileError(e) => e.message(),
            InstructionError::InvalidSubOpCode(main, sub) => joined4(
                "Trying to execute invalid sup op code. Main OP Code ",
                &decimal(*main as u64),
                ", Sub OP Code: ",
                &decimal(*sub as u64),
            ),
            InstructionError::MemoryError(m) => m.message(),
        }
    }
}

impl ExecutionError {
    /// What the error prints.
    pub fn message(&self) -> (r: String)
        ensures
            r@ == execution_text(*self),
    {
        match self {
            ExecutionError::Decoder(d) => d.message(),
            ExecutionError::Instruction(i, op) => joined4(
                "Error occur while executing instruction: ",
                &i.message(),
                ", with opcode: ",
                &decimal(*op as u64),
            ),
        }
    }
}

} // verus!
