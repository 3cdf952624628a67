use vstd::prelude::*;

use crate::chars::str_eq;
use crate::token::Token;

verus! {

#[derive(Debug, Clone, Copy, PartialEq, Eq, Structural)]
pub enum PrimitiveType {
    U64,
    U32,
    U16,
    U8,
    I8,
    I16,
    I32,
    I64,
    Bool,
}

/// A reserved word. The lexer reads `import`, `module`, `return` and `proc`; the parser also
/// knows `Let`, `True` and `False`, which no source text produces.
#[derive(Debug, Clone, Copy, PartialEq, Eq, Structural)]
pub enum Keyword {
    Import,
    Module,
    Procedure,
    Return,
    Let,
    True,
    False,
}

#[derive(Debug, Clone, Copy, PartialEq, Eq, Structural)]
pub enum Operator {
    Add,
    Subtract,
    Multiply,
    Divide,
}

/// The primitive type that a name denotes, if any.
pub open spec fn primitive_type_from_name(s: Seq<char>) -> Option<PrimitiveType> {
    if s == "u64"@ {
        Some(PrimitiveType::U64)
    } else if s == "u32"@ {
        Some(PrimitiveType::U32)
    } else if s == "u16"@ {
        Some(PrimitiveType::U16)
    } else if s == "u8"@ {
        Some(PrimitiveType::U8)
    } else if s == "i8"@ {
        Some(PrimitiveType::I8)
    } else if s == "i16"@ {
        Some(PrimitiveType::I16)
    } else if s == "i32"@ {
        Some(PrimitiveType::I32)
    } else if s == "i64"@ {
        Some(PrimitiveType::I64)
    } else if s == "bool"@ {
        Some(PrimitiveType::Bool)
    } else {
        None
    }
}

/// The keyword that a word is, if any.
pub open spec fn keyword_from_name(s: Seq<char>) -> Option<Keyword> {
    if s == "import"@ {
        Some(Keyword::Import)
    } else if s == "module"@ {
        Some(Keyword::Module)
    } else if s == "return"@ {
        Some(Keyword::Return)
    } else if s == "proc"@ {
        Some(Keyword::Procedure)
    } else {
        None
    }
}

/// The operator that a symbol is, if any.
pub open spec fn operator_from_name(s: Seq<char>) -> Option<Operator> {
    if s == "+"@ {
        Some(Operator::Add)
    } else if s == "-"@ {
        Some(Operator::Subtract)
    } else if s == "*"@ {
        Some(Operator::Multiply)
    } else if s == "/"@ {
        Some(Operator::Divide)
    } else {
        None
    }
}

/// Returned when a name is no primitive type.
pub struct InvalidType;

/// Returned when a word is no keyword.
pub struct InvalidKeyword;

/// Returned when a symbol is no operator.
#[derive(Debug)]
pub struct InvalidOperator;

/// The text that messages print for each value.
pub open spec fn primitive_type_name(x: PrimitiveType) -> Seq<char> {
    match x {
        PrimitiveType::Bool => "boolean"@,
        PrimitiveType::U64 => "unsigned 64 bit interger"@,
        PrimitiveType::U32 => "unsigned 32 bit interger"@,
        PrimitiveType::U16 => "unsigned 16 bit interger"@,
        PrimitiveType::U8 => "unsigned 8 bit interger"@,
        PrimitiveType::I8 => "signed 8 bit interger"@,
        PrimitiveType::I16 => "signed 16 bit interger"@,
        PrimitiveType::I32 => "signed 32 bit interger"@,
        PrimitiveType::I64 => "signed 64 bit interger"@,
    }
}

impl PrimitiveType {
    pub fn from_str(s: &str) -> (r: Result<PrimitiveType, InvalidType>)
        ensures
            r is Ok <==> primitive_type_from_name(s@) is Some,
            r matches Ok(x) ==> primitive_type_from_name(s@) == Some(x),
    {
        if str_eq(s, "u64") {
            Ok(Self::U64)
        } else if str_eq(s, "u32") {
            Ok(Self::U32)
        } else if str_eq(s, "u16") {
            Ok(Self::U16)
        } else if str_eq(s, "u8") {
            Ok(Self::U8)
        } else if str_eq(s, "i8") {
            Ok(Self::I8)
        } else if str_eq(s, "i16") {
            Ok(Self::I16)
        } else if str_eq(s, "i32") {
            Ok(Self::I32)
        } else if str_eq(s, "i64") {
            Ok(Self::I64)
        } else if str_eq(s, "bool") {
            Ok(Self::Bool)
        } else {
            Err(InvalidType)
        }
    }

    /// The text that messages print for this value.
    pub fn name(&self) -> (r: &'static str)
        ensures
            r@ == primitive_type_name(*self),
    {
        match self {
            Self::Bool => "boolean",
            Self::U64 => "unsigned 64 bit interger",
            Self::U32 => "unsigned 32 bit interger",
            Self::U16 => "unsigned 16 bit interger",
            Self::U8 => "unsigned 8 bit interger",
            Self::I8 => "signed 8 bit interger",
            Self::I16 => "signed 16 bit interger",
            Self::I32 => "signed 32 bit interger",
            Self::I64 => "signed 64 bit interger",
        }
    }
}

/// The text that messages print for each value.
pub open spec fn keyword_name(x: Keyword) -> Seq<char> {
    match x {
        Keyword::Import => "import"@,
        Keyword::Return => "return"@,
        Keyword::Module => "module"@,
        Keyword::Procedure => "procedure"@,
        Keyword::Let => "let"@,
        Keyword::True => "true"@,
        Keyword::False => "false"@,
    }
}

impl Keyword {
    pub fn from_str(s: &str) -> (r: Result<Keyword, InvalidKeyword>)
        ensures
            r is Ok <==> keyword_from_name(s@) is Some,
            r matches Ok(x) ==> keyword_from_name(s@) == Some(x),
    {
        if str_eq(s, "import") {
            Ok(Self::Import)
        } else if str_eq(s, "module") {
            Ok(Self::Module)
        } else if str_eq(s, "return") {
            Ok(Self::Return)
        } else if str_eq(s, "proc") {
            Ok(Self::Procedure)
        } else {
            Err(InvalidKeyword)
        }
    }

    /// The text that messages print for this value.
    pub fn name(&self) -> (r: &'static str)
        ensures
            r@ == keyword_name(*self),
    {
        match self {
            Self::Import => "import",
            Self::Return => "return",
            Self::Module => "module",
            Self::Procedure => "procedure",
            Self::Let => "let",
            Self::True => "true",
            Self::False => "false",
        }
    }
}

/// How tightly an operator binds: multiplication and division before
/// addition and subtraction.
pub open spec fn spec_prec(op: Operator) -> nat {
    match op {
        Operator::Add | Operator::Subtract => 1,
        Operator::Multiply | Operator::Divide => 2,
    }
}

/// The text that messages print for each value.
pub open spec fn operator_name(x: Operator) -> Seq<char> {
    match x {
        Operator::Add => "add"@,
        Operator::Multiply => "multiply"@,
        Operator::Divide => "divide"@,
        Operator::Subtract => "subtract"@,
    }
}

impl Operator {
    pub fn from_str(s: &str) -> (r: Result<Operator, InvalidOperator>)
        ensures
            r is Ok <==> operator_from_name(s@) is Some,
            r matches Ok(x) ==> operator_from_name(s@) == Some(x),
    {
        if str_eq(s, "+") {
            Ok(Self::Add)
        } else if str_eq(s, "-") {
            Ok(Self::Subtract)
        } else if str_eq(s, "*") {
            Ok(Self::Multiply)
        } else if str_eq(s, "/") {
            Ok(Self::Divide)
        } else {
            Err(InvalidOperator)
        }
    }

    /// The text that messages print for this value.
    pub fn name(&self) -> (r: &'static str)
        ensures
            r@ == operator_name(*self),
    {
        match self {
            Self::Add => "add",
            Self::Multiply => "multiply",
            Self::Divide => "divide",
            Self::Subtract => "subtract",
        }
    }

    /// How tightly the operator binds.
    pub fn prec(&self) -> (r: usize)
        ensures
            r == spec_prec(*self),
    {
        match self {
            Operator::Add | Operator::Subtract => 1,
            Operator::Multiply | Operator::Divide => 2,
        }
    }
}

#[derive(Debug, Clone, PartialEq)]
pub enum RinToken {
    Identifier(String),
    String(String),
    Type(PrimitiveType),
    Keyword(Keyword),
    Operator(Operator),
    Interger(u64),
    Dot,
    Comma,
    Equals,
    Semicolon,
    LCurly,
    RCurly,
    LRoundBracket,
    RRoundBracket,
    Colon,
    Arrow,
    NewLine,
}

/// A token with its text as a sequence of characters.
pub enum RinTokenView {
    Identifier(Seq<char>),
    String(Seq<char>),
    Type(PrimitiveType),
    Keyword(Keyword),
    Operator(Operator),
    Interger(u64),
    Dot,
    Comma,
    Equals,
    Semicolon,
    LCurly,
    RCurly,
    LRoundBracket,
    RRoundBracket,
    Colon,
    Arrow,
    NewLine,
}

impl View for RinToken {
    type V = RinTokenView;

    open spec fn view(&self) -> RinTokenView {
        match self {
            RinToken::Identifier(x) => RinTokenView::Identifier(x@),
            RinToken::String(x) => RinTokenView::String(x@),
            RinToken::Type(x) => RinTokenView::Type(*x),
            RinToken::Keyword(x) => RinTokenView::Keyword(*x),
            RinToken::Operator(x) => RinTokenView::Operator(*x),
            RinToken::Interger(x) => RinTokenView::Interger(*x),
            RinToken::Dot => RinTokenView::Dot,
            RinToken::Comma => RinTokenView::Comma,
            RinToken::Equals => RinTokenView::Equals,
            RinToken::Semicolon => RinTokenView::Semicolon,
            RinToken::LCurly => RinTokenView::LCurly,
            RinToken::RCurly => RinTokenView::RCurly,
            RinToken::LRoundBracket => RinTokenView::LRoundBracket,
            RinToken::RRoundBracket => RinTokenView::RRoundBracket,
            RinToken::Colon => RinTokenView::Colon,
            RinToken::Arrow => RinTokenView::Arrow,
            RinToken::NewLine => RinTokenView::NewLine,
        }
    }
}

impl RinToken {
    /// A copy of the token.
    pub fn duplicate(&self) -> (r: RinToken)
        ensures
            r@ == self@,
    {
        match self {
            RinToken::Identifier(x) => RinToken::Identifier(x.clone()),
            RinToken::String(x) => RinToken::String(x.clone()),
            RinToken::Type(x) => RinToken::Type(*x),
            RinToken::Keyword(x) => RinToken::Keyword(*x),
            RinToken::Operator(x) => RinToken::Operator(*x),
            RinToken::Interger(x) => RinToken::Interger(*x),
            RinToken::Dot => RinToken::Dot,
            RinToken::Comma => RinToken::Comma,
            RinToken::Equals => RinToken::Equals,
            RinToken::Semicolon => RinToken::Semicolon,
            RinToken::LCurly => RinToken::LCurly,
            RinToken::RCurly => RinToken::RCurly,
            RinToken::LRoundBracket => RinToken::LRoundBracket,
            RinToken::RRoundBracket => RinToken::RRoundBracket,
            RinToken::Colon => RinToken::Colon,
            RinToken::Arrow => RinToken::Arrow,
            RinToken::NewLine => RinToken::NewLine,
        }
    }

    pub fn is_newline(&self) -> (r: bool)
        ensures
            r == (self@ is NewLine),
    {
        matches!(self, RinToken::NewLine)
    }
}

impl Token for RinToken {
    open spec fn string_view(text: Seq<char>) -> RinTokenView {
        RinTokenView::String(text)
    }

    open spec fn number_view(num: u64) -> RinTokenView {
        RinTokenView::Interger(num)
    }

    fn same_token(&self, other: &Self) -> (r: bool) {
        match (self, other) {
            (RinToken::Identifier(a), RinToken::Identifier(b)) => *a == *b,
            (RinToken::String(a), RinToken::String(b)) => *a == *b,
            (RinToken::Type(a), RinToken::Type(b)) => *a == *b,
            (RinToken::Keyword(a), RinToken::Keyword(b)) => *a == *b,
            (RinToken::Operator(a), RinToken::Operator(b)) => *a == *b,
            (RinToken::Interger(a), RinToken::Interger(b)) => *a == *b,
            (RinToken::Dot, RinToken::Dot) => true,
            (RinToken::Comma, RinToken::Comma) => true,
            (RinToken::Equals, RinToken::Equals) => true,
            (RinToken::Semicolon, RinToken::Semicolon) => true,
            (RinToken::LCurly, RinToken::LCurly) => true,
            (RinToken::RCurly, RinToken::RCurly) => true,
            (RinToken::LRoundBracket, RinToken::LRoundBracket) => true,
            (RinToken::RRoundBracket, RinToken::RRoundBracket) => true,
            (RinToken::Colon, RinToken::Colon) => true,
            (RinToken::Arrow, RinToken::Arrow) => true,
            (RinToken::NewLine, RinToken::NewLine) => true,
            _ => false,
        }
    }

    fn copy_token(&self) -> (r: Self) {
        self.duplicate()
    }

    fn from_string(string: String) -> (r: Self) {
        Self::String(string)
    }

    fn from_u64(num: u64) -> (r: Self) {
        Self::Interger(num)
    }
}

} // verus!
