use vstd::prelude::*;

use crate::chars::str_eq;
use crate::constants::{LOADOS_OPCODE, LOCAL_OPCODE, PUSHU64_OPCODE, RETL_OPCODE};
use crate::token::Token;

verus! {

#[derive(Debug, Clone, Copy, PartialEq, Eq, Structural)]
pub enum IntergerType {
    U64,
    U32,
    U16,
    U8,
    I8,
    I16,
    I32,
    I64,
}

#[derive(Debug, Clone, Copy, PartialEq, Eq, Structural)]
pub enum InstructionType {
    Local,
    RetL,
    PushU64,
    LoadOs,
}

/// Returned when a string names no instruction, type, keyword or attribute.
pub struct FailToParseFromString;

#[derive(Debug, Clone, Copy, PartialEq, Eq, Structural)]
pub enum AttributeToken {
    Public,
    Private,
    Implemented,
    Contain,
    Static,
    Accept,
    Return,
    Overwrite,
}

#[derive(Debug, Clone, Copy, PartialEq, Eq, Structural)]
pub enum ASMKeyword {
    Proc,
    VProc,
    Field,
    Struct,
    Interface,
}

/// The opcode of each instruction.
pub open spec fn spec_opcode(i: InstructionType) -> u16 {
    match i {
        InstructionType::Local => LOCAL_OPCODE,
        InstructionType::RetL => RETL_OPCODE,
        InstructionType::PushU64 => PUSHU64_OPCODE,
        InstructionType::LoadOs => LOADOS_OPCODE,
    }
}

/// The instruction that a mnemonic names, if any.
pub open spec fn instruction_from_name(s: Seq<char>) -> Option<InstructionType> {
    if s == "local"@ {
        Some(InstructionType::Local)
    } else if s == "retl"@ {
        Some(InstructionType::RetL)
    } else if s == "pushu64"@ {
        Some(InstructionType::PushU64)
    } else if s == "loados"@ {
        Some(InstructionType::LoadOs)
    } else {
        None
    }
}

/// The integer type that a name denotes, if any.
pub open spec fn integer_type_from_name(s: Seq<char>) -> Option<IntergerType> {
    if s == "u64"@ {
        Some(IntergerType::U64)
    } else if s == "u32"@ {
        Some(IntergerType::U32)
    } else if s == "u16"@ {
        Some(IntergerType::U16)
    } else if s == "u8"@ {
        Some(IntergerType::U8)
    } else if s == "i8"@ {
        Some(IntergerType::I8)
    } else if s == "i16"@ {
        Some(IntergerType::I16)
    } else if s == "i32"@ {
        Some(IntergerType::I32)
    } else if s == "i64"@ {
        Some(IntergerType::I64)
    } else {
        None
    }
}

/// The keyword that a word is, if any.
pub open spec fn keyword_from_name(s: Seq<char>) -> Option<ASMKeyword> {
    if s == "proc"@ {
        Some(ASMKeyword::Proc)
    } else if s == "field"@ {
        Some(ASMKeyword::Field)
    } else if s == "struct"@ {
        Some(ASMKeyword::Struct)
    } else if s == "interface"@ {
        Some(ASMKeyword::Interface)
    } else if s == "vproc"@ {
        Some(ASMKeyword::VProc)
    } else {
        None
    }
}

/// The attribute that a name denotes, if any.
pub open spec fn attribute_from_name(s: Seq<char>) -> Option<AttributeToken> {
    if s == "Public"@ {
        Some(AttributeToken::Public)
    } else if s == "Private"@ {
        Some(AttributeToken::Private)
    } else if s == "Static"@ {
        Some(AttributeToken::Static)
    } else if s == "Accept"@ {
        Some(AttributeToken::Accept)
    } else if s == "Implemented"@ {
        Some(AttributeToken::Implemented)
    } else if s == "Contain"@ {
        Some(AttributeToken::Contain)
    } else if s == "Return"@ {
        Some(AttributeToken::Return)
    } else if s == "Overwrite"@ {
        Some(AttributeToken::Overwrite)
    } else {
        None
    }
}

/// The text that messages print for each value.
pub open spec fn instruction_type_name(x: InstructionType) -> Seq<char> {
    match x {
        InstructionType::Local => "local"@,
        InstructionType::RetL => "retl"@,
        InstructionType::PushU64 => "pushu64"@,
        InstructionType::LoadOs => "loados"@,
    }
}

impl InstructionType {
    pub fn opcode(&self) -> (r: u16)
        ensures
            r == spec_opcode(*self),
    {
        match self {
            Self::Local => LOCAL_OPCODE,
            Self::RetL => RETL_OPCODE,
            Self::PushU64 => PUSHU64_OPCODE,
            Self::LoadOs => LOADOS_OPCODE,
        }
    }

    pub fn from_str(s: &str) -> (r: Result<InstructionType, FailToParseFromString>)
        ensures
            r is Ok <==> instruction_from_name(s@) is Some,
            r matches Ok(x) ==> instruction_from_name(s@) == Some(x),
    {
        if str_eq(s, "local") {
            Ok(Self::Local)
        } else if str_eq(s, "retl") {
            Ok(Self::RetL)
        } else if str_eq(s, "pushu64") {
            Ok(Self::PushU64)
        } else if str_eq(s, "loados") {
            Ok(Self::LoadOs)
        } else {
            Err(FailToParseFromString)
        }
    }

    /// The text that messages print for this value.
    pub fn name(&self) -> (r: &'static str)
        ensures
            r@ == instruction_type_name(*self),
    {
        match self {
            Self::Local => "local",
            Self::RetL => "retl",
            Self::PushU64 => "pushu64",
            Self::LoadOs => "loados",
        }
    }
}

/// The text that messages print for each value.
pub open spec fn interger_type_name(x: IntergerType) -> Seq<char> {
    match x {
        IntergerType::U64 => "unsigned 64 bit interger"@,
        IntergerType::U32 => "unsigned 32 bit interger"@,
        IntergerType::U16 => "unsigned 16 bit interger"@,
        IntergerType::U8 => "unsigned 8 bit interger"@,
        IntergerType::I8 => "signed 8 bit interger"@,
        IntergerType::I16 => "signed 16 bit interger"@,
        IntergerType::I32 => "signed 32 bit interger"@,
        IntergerType::I64 => "signed 64 bit interger"@,
    }
}

impl IntergerType {
    pub fn from_str(s: &str) -> (r: Result<IntergerType, FailToParseFromString>)
        ensures
            r is Ok <==> integer_type_from_name(s@) is Some,
            r matches Ok(x) ==> integer_type_from_name(s@) == Some(x),
    {
        if str_eq(s, "u64") {
            Ok(Self::U64)
        } else if str_eq(s, "u32") {
            Ok(Self::U32)
        } else if str_eq(s, "u16") {
            Ok(Self::U16)
        } else if str_eq(s, "u8") {
            Ok(Self::U8)
        } else if str_eq(s, "i8") {
            Ok(Self::I8)
        } else if str_eq(s, "i16") {
            Ok(Self::I16)
        } else if str_eq(s, "i32") {
            Ok(Self::I32)
        } else if str_eq(s, "i64") {
            Ok(Self::I64)
        } else {
            Err(FailToParseFromString)
        }
    }

    /// The text that messages print for this value.
    pub fn name(&self) -> (r: &'static str)
        ensures
            r@ == interger_type_name(*self),
    {
        match self {
            Self::U64 => "unsigned 64 bit interger",
            Self::U32 => "unsigned 32 bit interger",
            Self::U16 => "unsigned 16 bit interger",
            Self::U8 => "unsigned 8 bit interger",
            Self::I8 => "signed 8 bit interger",
            Self::I16 => "signed 16 bit interger",
            Self::I32 => "signed 32 bit interger",
            Self::I64 => "signed 64 bit interger",
        }
    }
}

/// The text that messages print for each value.
pub open spec fn asm_keyword_name(x: ASMKeyword) -> Seq<char> {
    match x {
        ASMKeyword::Proc => "proc"@,
        ASMKeyword::Field => "field"@,
        ASMKeyword::Struct => "struct"@,
        ASMKeyword::Interface => "interface"@,
        ASMKeyword::VProc => "vproc"@,
    }
}

impl ASMKeyword {
    pub fn from_str(s: &str) -> (r: Result<ASMKeyword, FailToParseFromString>)
        ensures
            r is Ok <==> keyword_from_name(s@) is Some,
            r matches Ok(x) ==> keyword_from_name(s@) == Some(x),
    {
        if str_eq(s, "proc") {
            Ok(Self::Proc)
        } else if str_eq(s, "field") {
            Ok(Self::Field)
        } else if str_eq(s, "struct") {
            Ok(Self::Struct)
        } else if str_eq(s, "interface") {
            Ok(Self::Interface)
        } else if str_eq(s, "vproc") {
            Ok(Self::VProc)
        } else {
            Err(FailToParseFromString)
        }
    }

    /// The text that messages print for this value.
    pub fn name(&self) -> (r: &'static str)
        ensures
            r@ == asm_keyword_name(*self),
    {
        match self {
            Self::Proc => "proc",
            Self::Field => "field",
            Self::Struct => "struct",
            Self::Interface => "interface",
            Self::VProc => "vproc",
        }
    }
}

/// The text that messages print for each value.
pub open spec fn attribute_token_name(x: AttributeToken) -> Seq<char> {
    match x {
        AttributeToken::Public => "Public"@,
        AttributeToken::Private => "Private"@,
        AttributeToken::Static => "Static"@,
        AttributeToken::Accept => "Accept"@,
        AttributeToken::Implemented => "Implemented"@,
        AttributeToken::Contain => "Contain"@,
        AttributeToken::Return => "Return"@,
        AttributeToken::Overwrite => "Overwrite"@,
    }
}

impl AttributeToken {
    pub fn from_str(s: &str) -> (r: Result<AttributeToken, FailToParseFromString>)
        ensures
            r is Ok <==> attribute_from_name(s@) is Some,
            r matches Ok(x) ==> attribute_from_name(s@) == Some(x),
    {
        if str_eq(s, "Public") {
            Ok(Self::Public)
        } else if str_eq(s, "Private") {
            Ok(Self::Private)
        } else if str_eq(s, "Static") {
            Ok(Self::Static)
        } else if str_eq(s, "Accept") {
            Ok(Self::Accept)
        } else if str_eq(s, "Implemented") {
            Ok(Self::Implemented)
        } else if str_eq(s, "Contain") {
            Ok(Self::Contain)
        } else if str_eq(s, "Return") {
            Ok(Self::Return)
        } else if str_eq(s, "Overwrite") {
            Ok(Self::Overwrite)
        } else {
            Err(FailToParseFromString)
        }
    }

    /// The text that messages print for this value.
    pub fn name(&self) -> (r: &'static str)
        ensures
            r@ == attribute_token_name(*self),
    {
        match self {
            Self::Public => "Public",
            Self::Private => "Private",
            Self::Static => "Static",
            Self::Accept => "Accept",
            Self::Implemented => "Implemented",
            Self::Contain => "Contain",
            Self::Return => "Return",
            Self::Overwrite => "Overwrite",
        }
    }
}

#[derive(Debug, Clone, PartialEq)]
pub enum ASMToken {
    Instruction(InstructionType),
    Label(String),
    IntergerType(IntergerType),
    Keyword(ASMKeyword),
    Interger(u64),
    Identifier(String),
    HashName(String),
    String(String),
    Attribute(AttributeToken),
    Plus,
    Minus,
    Comma,
    LBracket,
    RBracket,
    LCurly,
    RCurly,
    LRoundBracket,
    RRoundBracket,
    Arrow,
    NewLine,
}

/// A token with its text as a sequence of characters.
pub enum ASMTokenView {
    Instruction(InstructionType),
    Label(Seq<char>),
    IntergerType(IntergerType),
    Keyword(ASMKeyword),
    Interger(u64),
    Identifier(Seq<char>),
    HashName(Seq<char>),
    String(Seq<char>),
    Attribute(AttributeToken),
    Plus,
    Minus,
    Comma,
    LBracket,
    RBracket,
    LCurly,
    RCurly,
    LRoundBracket,
    RRoundBracket,
    Arrow,
    NewLine,
}

impl View for ASMToken {
    type V = ASMTokenView;

    open spec fn view(&self) -> ASMTokenView {
        match self {
            ASMToken::Instruction(x) => ASMTokenView::Instruction(*x),
            ASMToken::Label(x) => ASMTokenView::Label(x@),
            ASMToken::IntergerType(x) => ASMTokenView::IntergerType(*x),
            ASMToken::Keyword(x) => ASMTokenView::Keyword(*x),
            ASMToken::Interger(x) => ASMTokenView::Interger(*x),
            ASMToken::Identifier(x) => ASMTokenView::Identifier(x@),
            ASMToken::HashName(x) => ASMTokenView::HashName(x@),
            ASMToken::String(x) => ASMTokenView::String(x@),
            ASMToken::Attribute(x) => ASMTokenView::Attribute(*x),
            ASMToken::Plus => ASMTokenView::Plus,
            ASMToken::Minus => ASMTokenView::Minus,
            ASMToken::Comma => ASMTokenView::Comma,
            ASMToken::LBracket => ASMTokenView::LBracket,
            ASMToken::RBracket => ASMTokenView::RBracket,
            ASMToken::LCurly => ASMTokenView::LCurly,
            ASMToken::RCurly => ASMTokenView::RCurly,
            ASMToken::LRoundBracket => ASMTokenView::LRoundBracket,
            ASMToken::RRoundBracket => ASMTokenView::RRoundBracket,
            ASMToken::Arrow => ASMTokenView::Arrow,
            ASMToken::NewLine => ASMTokenView::NewLine,
        }
    }
}

impl ASMToken {
    /// A copy of the token.
    pub fn duplicate(&self) -> (r: ASMToken)
        ensures
            r@ == self@,
    {
        match self {
            ASMToken::Instruction(x) => ASMToken::Instruction(*x),
            ASMToken::Label(x) => ASMToken::Label(x.clone()),
            ASMToken::IntergerType(x) => ASMToken::IntergerType(*x),
            ASMToken::Keyword(x) => ASMToken::Keyword(*x),
            ASMToken::Interger(x) => ASMToken::Interger(*x),
            ASMToken::Identifier(x) => ASMToken::Identifier(x.clone()),
            ASMToken::HashName(x) => ASMToken::HashName(x.clone()),
            ASMToken::String(x) => ASMToken::String(x.clone()),
            ASMToken::Attribute(x) => ASMToken::Attribute(*x),
            ASMToken::Plus => ASMToken::Plus,
            ASMToken::Minus => ASMToken::Minus,
            ASMToken::Comma => ASMToken::Comma,
            ASMToken::LBracket => ASMToken::LBracket,
            ASMToken::RBracket => ASMToken::RBracket,
            ASMToken::LCurly => ASMToken::LCurly,
            ASMToken::RCurly => ASMToken::RCurly,
            ASMToken::LRoundBracket => ASMToken::LRoundBracket,
            ASMToken::RRoundBracket => ASMToken::RRoundBracket,
            ASMToken::Arrow => ASMToken::Arrow,
            ASMToken::NewLine => ASMToken::NewLine,
        }
    }
}

impl Token for ASMToken {
    open spec fn string_view(text: Seq<char>) -> ASMTokenView {
        ASMTokenView::String(text)
    }

    open spec fn number_view(num: u64) -> ASMTokenView {
        ASMTokenView::Interger(num)
    }

    fn same_token(&self, other: &Self) -> (r: bool) {
        match (self, other) {
            (ASMToken::Instruction(a), ASMToken::Instruction(b)) => *a == *b,
            (ASMToken::Label(a), ASMToken::Label(b)) => *a == *b,
            (ASMToken::IntergerType(a), ASMToken::IntergerType(b)) => *a == *b,
            (ASMToken::Keyword(a), ASMToken::Keyword(b)) => *a == *b,
            (ASMToken::Interger(a), ASMToken::Interger(b)) => *a == *b,
            (ASMToken::Identifier(a), ASMToken::Identifier(b)) => *a == *b,
            (ASMToken::HashName(a), ASMToken::HashName(b)) => *a == *b,
            (ASMToken::String(a), ASMToken::String(b)) => *a == *b,
            (ASMToken::Attribute(a), ASMToken::Attribute(b)) => *a == *b,
            (ASMToken::Plus, ASMToken::Plus) => true,
            (ASMToken::Minus, ASMToken::Minus) => true,
            (ASMToken::Comma, ASMToken::Comma) => true,
            (ASMToken::LBracket, ASMToken::LBracket) => true,
            (ASMToken::RBracket, ASMToken::RBracket) => true,
            (ASMToken::LCurly, ASMToken::LCurly) => true,
            (ASMToken::RCurly, ASMToken::RCurly) => true,
            (ASMToken::LRoundBracket, ASMToken::LRoundBracket) => true,
            (ASMToken::RRoundBracket, ASMToken::RRoundBracket) => true,
            (ASMToken::Arrow, ASMToken::Arrow) => true,
            (ASMToken::NewLine, ASMToken::NewLine) => true,
            _ => false,
        }
    }

    fn copy_token(&self) -> (r: Self) {
        self.duplicate()
    }

    fn from_string(string: String) -> (r: Self) {
        Self::String(string)
    }

    fn from_u64(num: u64) -> (r: Self) {
        Self::Interger(num)
    }
}

} // verus!
