//! The rin parser: procedures made of statements and expressions, module
//! declarations and imports, read into a syntax tree.

use vstd::prelude::*;

use crate::compiler::{expect_at, token_at, token_views, unexpected_at, CompileErrorView, CompilerBase, CompilerError};
use crate::location::{Location, LocationView, WithLocation};
use crate::text::{string_append, string_push};
use crate::token::rin_token::{Keyword, Operator, PrimitiveType, RinToken, RinTokenView, spec_prec};

pub mod generator;

verus! {

/// The tokens of a rin file as plain values.
pub type RinToks = Seq<(RinTokenView, LocationView)>;

/// A parse error of a rin file as plain values.
pub type RinError = CompileErrorView<RinTokenView>;

/// What reading a part of a file gives: the part and the index after it, an
/// error, or a panic (an integer literal of a signed or boolean type, which
/// is not supported, or an import at the very end of the file).
pub enum ParseResult<T> {
    Parsed(T, int),
    Failed(RinError),
    Panics,
}

#[derive(Debug, Clone, Copy, PartialEq, Eq, Structural)]
pub enum Type {
    U64,
    U32,
    U16,
    U8,
    I8,
    I16,
    I32,
    I64,
    Bool,
    Void,
}

impl View for Type {
    type V = Type;

    open spec fn view(&self) -> Type {
        *self
    }
}

pub enum TypeSizes {
    SizeVoid,
    SizeU8,
    SizeU16,
    SizeU32,
    SizeU64,
}

#[derive(Debug, Clone, Copy, PartialEq, Eq, Structural)]
pub enum BinaryOperator {
    Add,
    Subtract,
    Multiply,
    Divide,
}

/// The type that a primitive type names.
pub open spec fn type_of(p: PrimitiveType) -> Type {
    match p {
        PrimitiveType::Bool => Type::Bool,
        PrimitiveType::U64 => Type::U64,
        PrimitiveType::U32 => Type::U32,
        PrimitiveType::U16 => Type::U16,
        PrimitiveType::U8 => Type::U8,
        PrimitiveType::I8 => Type::I8,
        PrimitiveType::I16 => Type::I16,
        PrimitiveType::I32 => Type::I32,
        PrimitiveType::I64 => Type::I64,
    }
}

/// The binary operator that an operator token stands for.
pub open spec fn binary_of(op: Operator) -> BinaryOperator {
    match op {
        Operator::Add => BinaryOperator::Add,
        Operator::Multiply => BinaryOperator::Multiply,
        Operator::Subtract => BinaryOperator::Subtract,
        Operator::Divide => BinaryOperator::Divide,
    }
}

/// A literal as plain values.
pub enum LiteralView {
    U64(u64),
    U32(u32),
    U16(u16),
    U8(u8),
    String(Seq<char>),
    Boolean(bool),
}

/// A term as plain values.
pub enum TermView {
    Literal((LiteralView, LocationView)),
    ProcedureCall((Seq<Seq<char>>, LocationView), Seq<(ExprView, LocationView)>),
    LocalVariableAccess((Seq<char>, LocationView)),
}

/// An expression as plain values.
pub enum ExprView {
    Term((TermView, LocationView)),
    BinaryOp(
        Box<(ExprView, LocationView)>,
        (BinaryOperator, LocationView),
        Box<(ExprView, LocationView)>,
    ),
}

/// A statement as plain values.
pub enum StatementView {
    Expression((ExprView, LocationView)),
    Return((ExprView, LocationView)),
    VariableDecl { name: (Seq<char>, LocationView), value: (ExprView, LocationView) },
    VariableMutate { name: (Seq<char>, LocationView), value: (ExprView, LocationView) },
}

/// A parameter as plain values: its type and its name.
pub struct ParameterView {
    pub param_type: (Type, LocationView),
    pub name: (Seq<char>, LocationView),
}

/// A procedure as plain values.
pub struct ProcedureView {
    pub name: (Seq<char>, LocationView),
    pub return_type: (Type, LocationView),
    pub parameters: Seq<ParameterView>,
    pub body: (Seq<(StatementView, LocationView)>, LocationView),
}

/// A whole file as plain values: the paths it imports, the modules it
/// declares and its procedures with where each begins.
pub struct RinAstView {
    pub imports: Seq<Seq<Seq<char>>>,
    pub modules: Seq<Seq<char>>,
    pub procedures: Seq<(ProcedureView, LocationView)>,
}

/// The literal that an integer followed by a type gives, if the type is
/// unsigned.
pub open spec fn literal_of(n: u64, p: PrimitiveType) -> Option<LiteralView> {
    match p {
        PrimitiveType::U64 => Some(LiteralView::U64(n)),
        PrimitiveType::U32 => Some(LiteralView::U32(n as u32)),
        PrimitiveType::U16 => Some(LiteralView::U16(n as u16)),
        PrimitiveType::U8 => Some(LiteralView::U8(n as u8)),
        _ => None,
    }
}

/// The identifier at `i`.
pub open spec fn ident_at(toks: RinToks, i: int) -> ParseResult<(Seq<char>, LocationView)> {
    match token_at(toks, i) {
        Some((RinTokenView::Identifier(name), loc)) => ParseResult::Parsed((name, loc), i + 1),
        _ => ParseResult::Failed(unexpected_at(toks, i)),
    }
}

/// The type at `i`.
pub open spec fn type_at(toks: RinToks, i: int) -> ParseResult<(Type, LocationView)> {
    match token_at(toks, i) {
        Some((RinTokenView::Type(p), loc)) => ParseResult::Parsed((type_of(p), loc), i + 1),
        _ => ParseResult::Failed(unexpected_at(toks, i)),
    }
}

/// A dotted path from `i` on; `segments` are the names read before and
/// `first` where the path begins, once known.
pub open spec fn path_loop(
    toks: RinToks,
    i: int,
    segments: Seq<Seq<char>>,
    first: Option<LocationView>,
) -> ParseResult<(Seq<Seq<char>>, LocationView)>
    decreases toks.len() - i,
{
    if i < 0 || i >= toks.len() {
        match first {
            None => ParseResult::Panics,
            Some(l) => ParseResult::Parsed((segments, l), i),
        }
    } else {
        let (t, loc) = toks[i];
        let f = match first {
            None => loc,
            Some(l) => l,
        };
        match t {
            RinTokenView::Identifier(name) => {
                let segs = segments.push(name);
                match token_at(toks, i + 1) {
                    None => ParseResult::Failed(unexpected_at(toks, i + 1)),
                    Some((RinTokenView::Dot, _)) => path_loop(toks, i + 1, segs, Some(f)),
                    Some(_) => ParseResult::Parsed((segs, f), i + 1),
                }
            },
            RinTokenView::Dot => path_loop(toks, i + 1, segments, Some(f)),
            _ => ParseResult::Failed(unexpected_at(toks, i)),
        }
    }
}

/// The dotted path at `i` and where it begins.
pub open spec fn path_at(toks: RinToks, i: int) -> ParseResult<(Seq<Seq<char>>, LocationView)> {
    path_loop(toks, i, seq![], None)
}

pub proof fn lemma_path_loop_advances(
    toks: RinToks,
    i: int,
    segments: Seq<Seq<char>>,
    first: Option<LocationView>,
)
    requires
        0 <= i <= toks.len(),
    ensures
        path_loop(toks, i, segments, first) matches ParseResult::Parsed(_, j) ==> i <= j
            <= toks.len() && (i < toks.len() ==> i < j),
    decreases toks.len() - i,
{
    if i < toks.len() {
        let (t, loc) = toks[i];
        let f = match first {
            None => loc,
            Some(l) => l,
        };
        match t {
            RinTokenView::Identifier(name) => {
                lemma_path_loop_advances(toks, i + 1, segments.push(name), Some(f));
            },
            RinTokenView::Dot => {
                lemma_path_loop_advances(toks, i + 1, segments, Some(f));
            },
            _ => {},
        }
    }
}

/// The arguments of a call from `k` on, after its opening bracket; `params`
/// are those read before.
pub open spec fn call_args(toks: RinToks, k: int, params: Seq<(ExprView, LocationView)>) -> ParseResult<
    Seq<(ExprView, LocationView)>,
>
    decreases toks.len() - k, 4int,
{
    if k < 0 || k >= toks.len() {
        ParseResult::Parsed(params, k)
    } else {
        match expr_at(toks, k, 0) {
            ParseResult::Panics => ParseResult::Panics,
            ParseResult::Failed(e) => ParseResult::Failed(e),
            ParseResult::Parsed(x, m) => {
                let ps = params.push(x);
                match token_at(toks, m) {
                    None => ParseResult::Failed(unexpected_at(toks, m)),
                    Some((RinTokenView::RRoundBracket, _)) => ParseResult::Parsed(ps, m + 1),
                    Some(_) => match expect_at(toks, m, RinTokenView::Comma) {
                        Err(e) => ParseResult::Failed(e),
                        Ok(m2) => if k < m2 <= toks.len() {
                            call_args(toks, m2, ps)
                        } else {
                            ParseResult::Failed(unexpected_at(toks, k))
                        },
                    },
                }
            },
        }
    }
}

/// A procedure call `path(arguments)` at `i`.
pub open spec fn fn_call_at(toks: RinToks, i: int) -> ParseResult<(TermView, LocationView)>
    decreases toks.len() - i, 1int,
{
    match path_at(toks, i) {
        ParseResult::Panics => ParseResult::Panics,
        ParseResult::Failed(e) => ParseResult::Failed(e),
        ParseResult::Parsed((segs, loc), j) => match expect_at(toks, j, RinTokenView::LRoundBracket) {
            Err(e) => ParseResult::Failed(e),
            Ok(k) => if token_at(toks, k) matches Some((RinTokenView::RRoundBracket, _)) {
                ParseResult::Parsed((TermView::ProcedureCall((segs, loc), seq![]), loc), k + 1)
            } else if i < k <= toks.len() {
                match call_args(toks, k, seq![]) {
                    ParseResult::Panics => ParseResult::Panics,
                    ParseResult::Failed(e) => ParseResult::Failed(e),
                    ParseResult::Parsed(args, m) => ParseResult::Parsed(
                        (TermView::ProcedureCall((segs, loc), args), loc),
                        m,
                    ),
                }
            } else {
                ParseResult::Failed(unexpected_at(toks, i))
            },
        },
    }
}

/// The term at `i`: a literal, a call or a variable.
pub open spec fn term_at(toks: RinToks, i: int) -> ParseResult<(TermView, LocationView)>
    decreases toks.len() - i, 2int,
{
    match token_at(toks, i) {
        None => ParseResult::Failed(unexpected_at(toks, i)),
        Some((t, loc)) => match t {
            RinTokenView::Interger(n) => match token_at(toks, i + 1) {
                Some((RinTokenView::Type(p), loc2)) => match literal_of(n, p) {
                    None => ParseResult::Panics,
                    Some(lit) => ParseResult::Parsed((TermView::Literal((lit, loc2)), loc), i + 2),
                },
                _ => ParseResult::Failed(unexpected_at(toks, i + 1)),
            },
            RinTokenView::String(s) => ParseResult::Parsed(
                (TermView::Literal((LiteralView::String(s), loc)), loc),
                i + 1,
            ),
            RinTokenView::Keyword(Keyword::True) => ParseResult::Parsed(
                (TermView::Literal((LiteralView::Boolean(true), loc)), loc),
                i + 1,
            ),
            RinTokenView::Keyword(Keyword::False) => ParseResult::Parsed(
                (TermView::Literal((LiteralView::Boolean(false), loc)), loc),
                i + 1,
            ),
            RinTokenView::Identifier(name) => match token_at(toks, i + 1) {
                Some((RinTokenView::LRoundBracket, _)) => fn_call_at(toks, i),
                Some((RinTokenView::Dot, _)) => fn_call_at(toks, i),
                _ => ParseResult::Parsed(
                    (TermView::LocalVariableAccess((name, loc)), loc),
                    i + 1,
                ),
            },
            _ => ParseResult::Failed(unexpected_at(toks, i)),
        },
    }
}

/// The operators from `j` on that bind at least as tightly as `min_prec`,
/// each with its right-hand side, applied to `lhs` from the left.
pub open spec fn expr_tail(toks: RinToks, j: int, lhs: (ExprView, LocationView), min_prec: int) -> ParseResult<
    (ExprView, LocationView),
>
    decreases toks.len() - j, 4int,
{
    match token_at(toks, j) {
        Some((RinTokenView::Operator(op), oloc)) => if spec_prec(op) < min_prec {
            ParseResult::Parsed(lhs, j)
        } else {
            match expr_at(toks, j + 1, spec_prec(op) + 1int) {
                ParseResult::Panics => ParseResult::Panics,
                ParseResult::Failed(e) => ParseResult::Failed(e),
                ParseResult::Parsed(rhs, k) => {
                    let e = (
                        ExprView::BinaryOp(Box::new(lhs), (binary_of(op), oloc), Box::new(rhs)),
                        oloc,
                    );
                    if j < k <= toks.len() {
                        expr_tail(toks, k, e, min_prec)
                    } else {
                        ParseResult::Failed(unexpected_at(toks, j))
                    }
                },
            }
        },
        _ => ParseResult::Parsed(lhs, j),
    }
}

/// The expression at `i` whose operators bind at least as tightly as
/// `min_prec`.
pub open spec fn expr_at(toks: RinToks, i: int, min_prec: int) -> ParseResult<(ExprView, LocationView)>
    decreases toks.len() - i, 3int,
{
    match term_at(toks, i) {
        ParseResult::Panics => ParseResult::Panics,
        ParseResult::Failed(e) => ParseResult::Failed(e),
        ParseResult::Parsed((t, loc), j) => if i < j <= toks.len() {
            expr_tail(toks, j, (ExprView::Term((t, loc)), loc), min_prec)
        } else {
            ParseResult::Failed(unexpected_at(toks, i))
        },
    }
}

pub proof fn lemma_term_advances(toks: RinToks, i: int)
    ensures
        term_at(toks, i) matches ParseResult::Parsed(_, j) ==> i < j <= toks.len(),
    decreases toks.len() - i, 2int,
{
    if 0 <= i < toks.len() {
        if let RinTokenView::Identifier(_) = toks[i].0 {
            lemma_fn_call_advances(toks, i);
        }
    }
}

pub proof fn lemma_fn_call_advances(toks: RinToks, i: int)
    ensures
        fn_call_at(toks, i) matches ParseResult::Parsed(_, j) ==> i < j <= toks.len(),
    decreases toks.len() - i, 1int,
{
    if 0 <= i < toks.len() {
        lemma_path_loop_advances(toks, i, seq![], None);
        if let ParseResult::Parsed(_, j) = path_at(toks, i) {
            if let Ok(k) = expect_at(toks, j, RinTokenView::LRoundBracket) {
                if !(token_at(toks, k) matches Some((RinTokenView::RRoundBracket, _))) {
                    lemma_call_args_advances(toks, k, seq![]);
                }
            }
        }
    }
}

pub proof fn lemma_call_args_advances(toks: RinToks, k: int, params: Seq<(ExprView, LocationView)>)
    ensures
        0 <= k <= toks.len() ==> (call_args(toks, k, params) matches ParseResult::Parsed(_, m)
            ==> k <= m <= toks.len()),
    decreases toks.len() - k, 4int,
{
    if 0 <= k < toks.len() {
        lemma_expr_advances(toks, k, 0);
        if let ParseResult::Parsed(x, m) = expr_at(toks, k, 0) {
            if let Ok(m2) = expect_at(toks, m, RinTokenView::Comma) {
                lemma_call_args_advances(toks, m2, params.push(x));
            }
        }
    }
}

pub proof fn lemma_expr_tail_advances(
    toks: RinToks,
    j: int,
    lhs: (ExprView, LocationView),
    min_prec: int,
)
    ensures
        0 <= j <= toks.len() ==> (expr_tail(toks, j, lhs, min_prec) matches ParseResult::Parsed(
            _,
            k,
        ) ==> j <= k <= toks.len()),
    decreases toks.len() - j, 4int,
{
    if 0 <= j < toks.len() {
        if let RinTokenView::Operator(op) = toks[j].0 {
            if spec_prec(op) >= min_prec {
                lemma_expr_advances(toks, j + 1, spec_prec(op) + 1int);
                if let ParseResult::Parsed(rhs, k) = expr_at(toks, j + 1, spec_prec(op) + 1int) {
                    let e = (
                        ExprView::BinaryOp(Box::new(lhs), (binary_of(op), toks[j].1), Box::new(rhs)),
                        toks[j].1,
                    );
                    lemma_expr_tail_advances(toks, k, e, min_prec);
                }
            }
        }
    }
}

pub proof fn lemma_expr_advances(toks: RinToks, i: int, min_prec: int)
    ensures
        expr_at(toks, i, min_prec) matches ParseResult::Parsed(_, j) ==> i < j <= toks.len(),
    decreases toks.len() - i, 3int,
{
    lemma_term_advances(toks, i);
    if let ParseResult::Parsed((t, loc), j) = term_at(toks, i) {
        lemma_expr_tail_advances(toks, j, (ExprView::Term((t, loc)), loc), min_prec);
    }
}

/// A statement's value followed by its semicolon.
pub open spec fn then_semicolon(toks: RinToks, r: ParseResult<StatementView>) -> ParseResult<StatementView> {
    match r {
        ParseResult::Parsed(st, m) => match expect_at(toks, m, RinTokenView::Semicolon) {
            Err(e) => ParseResult::Failed(e),
            Ok(n) => ParseResult::Parsed(st, n),
        },
        other => other,
    }
}

/// `name = expression` from `i` on.
pub open spec fn assignment_at(toks: RinToks, i: int) -> ParseResult<((Seq<char>, LocationView), (ExprView, LocationView))> {
    match ident_at(toks, i) {
        ParseResult::Parsed(name, j) => match expect_at(toks, j, RinTokenView::Equals) {
            Err(e) => ParseResult::Failed(e),
            Ok(k) => match expr_at(toks, k, 0) {
                ParseResult::Parsed(value, m) => ParseResult::Parsed((name, value), m),
                ParseResult::Failed(e) => ParseResult::Failed(e),
                ParseResult::Panics => ParseResult::Panics,
            },
        },
        ParseResult::Failed(e) => ParseResult::Failed(e),
        ParseResult::Panics => ParseResult::Panics,
    }
}

/// An expression as a statement's value.
pub open spec fn expression_statement(toks: RinToks, i: int) -> ParseResult<StatementView> {
    match expr_at(toks, i, 0) {
        ParseResult::Parsed(v, m) => ParseResult::Parsed(StatementView::Expression(v), m),
        ParseResult::Failed(e) => ParseResult::Failed(e),
        ParseResult::Panics => ParseResult::Panics,
    }
}

/// The statement at `i`, with its semicolon.
pub open spec fn statement_at(toks: RinToks, i: int) -> ParseResult<StatementView> {
    match token_at(toks, i) {
        None => ParseResult::Failed(unexpected_at(toks, i)),
        Some((t, _)) => match t {
            RinTokenView::Keyword(Keyword::Let) => then_semicolon(
                toks,
                match assignment_at(toks, i + 1) {
                    ParseResult::Parsed((name, value), m) => ParseResult::Parsed(
                        StatementView::VariableDecl { name, value },
                        m,
                    ),
                    ParseResult::Failed(e) => ParseResult::Failed(e),
                    ParseResult::Panics => ParseResult::Panics,
                },
            ),
            RinTokenView::Identifier(_) => then_semicolon(
                toks,
                match token_at(toks, i + 1) {
                    Some((RinTokenView::Dot, _)) => expression_statement(toks, i),
                    Some((RinTokenView::LRoundBracket, _)) => expression_statement(toks, i),
                    _ => match assignment_at(toks, i) {
                        ParseResult::Parsed((name, value), m) => ParseResult::Parsed(
                            StatementView::VariableMutate { name, value },
                            m,
                        ),
                        ParseResult::Failed(e) => ParseResult::Failed(e),
                        ParseResult::Panics => ParseResult::Panics,
                    },
                },
            ),
            RinTokenView::Keyword(Keyword::Return) => then_semicolon(
                toks,
                match expr_at(toks, i + 1, 0) {
                    ParseResult::Parsed(v, m) => ParseResult::Parsed(StatementView::Return(v), m),
                    ParseResult::Failed(e) => ParseResult::Failed(e),
                    ParseResult::Panics => ParseResult::Panics,
                },
            ),
            RinTokenView::Keyword(_) => ParseResult::Failed(unexpected_at(toks, i)),
            _ => then_semicolon(toks, expression_statement(toks, i)),
        },
    }
}

pub proof fn lemma_statement_advances(toks: RinToks, i: int)
    ensures
        statement_at(toks, i) matches ParseResult::Parsed(_, j) ==> i < j <= toks.len(),
{
    lemma_expr_advances(toks, i, 0);
    lemma_expr_advances(toks, i + 1, 0);
    lemma_expr_advances(toks, i + 2, 0);
    lemma_expr_advances(toks, i + 3, 0);
}

/// The statements of a block from `i` on, up to its closing brace;
/// `stmts` are those read before, each with where it begins.
pub open spec fn block_body(toks: RinToks, i: int, stmts: Seq<(StatementView, LocationView)>) -> ParseResult<
    Seq<(StatementView, LocationView)>,
>
    decreases toks.len() - i,
{
    if i < 0 || i >= toks.len() {
        ParseResult::Parsed(stmts, i)
    } else {
        let (t, loc) = toks[i];
        match t {
            RinTokenView::Keyword(_) | RinTokenView::Identifier(_) | RinTokenView::Type(_) => {
                match statement_at(toks, i) {
                    ParseResult::Parsed(st, j) => {
                        proof {
                            lemma_statement_advances(toks, i);
                        }
                        block_body(toks, j, stmts.push((st, loc)))
                    },
                    ParseResult::Failed(e) => ParseResult::Failed(e),
                    ParseResult::Panics => ParseResult::Panics,
                }
            },
            RinTokenView::RCurly => ParseResult::Parsed(stmts, i),
            _ => ParseResult::Failed(unexpected_at(toks, i)),
        }
    }
}

/// A block `{ statements }` at `i`, with where it begins.
pub open spec fn block_at(toks: RinToks, i: int) -> ParseResult<(Seq<(StatementView, LocationView)>, LocationView)> {
    match expect_at(toks, i, RinTokenView::LCurly) {
        Err(e) => ParseResult::Failed(e),
        Ok(j) => match block_body(toks, j, seq![]) {
            ParseResult::Parsed(stmts, k) => match expect_at(toks, k, RinTokenView::RCurly) {
                Err(e) => ParseResult::Failed(e),
                Ok(m) => ParseResult::Parsed((stmts, toks[i].1), m),
            },
            ParseResult::Failed(e) => ParseResult::Failed(e),
            ParseResult::Panics => ParseResult::Panics,
        },
    }
}

/// The parameters from `i` on, after the opening bracket; `params` are
/// those read before.
pub open spec fn params_loop(toks: RinToks, i: int, params: Seq<ParameterView>) -> ParseResult<
    Seq<ParameterView>,
>
    decreases toks.len() - i,
{
    if i < 0 || i >= toks.len() {
        ParseResult::Parsed(params, i)
    } else {
        match toks[i].0 {
            RinTokenView::Type(p) => match ident_at(toks, i + 1) {
                ParseResult::Parsed(name, _) => {
                    let ps = params.push(
                        ParameterView { param_type: (type_of(p), toks[i].1), name: name },
                    );
                    match token_at(toks, i + 2) {
                        None => ParseResult::Failed(unexpected_at(toks, i + 2)),
                        Some((RinTokenView::RRoundBracket, _)) => ParseResult::Parsed(ps, i + 3),
                        Some(_) => match expect_at(toks, i + 2, RinTokenView::Comma) {
                            Err(e) => ParseResult::Failed(e),
                            Ok(_) => params_loop(toks, i + 3, ps),
                        },
                    }
                },
                ParseResult::Failed(e) => ParseResult::Failed(e),
                ParseResult::Panics => ParseResult::Panics,
            },
            RinTokenView::RRoundBracket => ParseResult::Parsed(params, i + 1),
            _ => ParseResult::Failed(unexpected_at(toks, i)),
        }
    }
}

/// The parameter list `( type name, ... )` at `i`.
pub open spec fn params_at(toks: RinToks, i: int) -> ParseResult<Seq<ParameterView>> {
    match expect_at(toks, i, RinTokenView::LRoundBracket) {
        Err(e) => ParseResult::Failed(e),
        Ok(j) => params_loop(toks, j, seq![]),
    }
}

/// A procedure `proc name(parameters): type -> { ... }` at `i`.
pub open spec fn proc_at(toks: RinToks, i: int) -> ParseResult<ProcedureView> {
    match expect_at(toks, i, RinTokenView::Keyword(Keyword::Procedure)) {
        Err(e) => ParseResult::Failed(e),
        Ok(j) => match ident_at(toks, j) {
            ParseResult::Parsed(name, k) => match params_at(toks, k) {
                ParseResult::Parsed(params, m) => match expect_at(toks, m, RinTokenView::Colon) {
                    Err(e) => ParseResult::Failed(e),
                    Ok(n) => match type_at(toks, n) {
                        ParseResult::Parsed(rt, o) => match expect_at(toks, o, RinTokenView::Arrow) {
                            Err(e) => ParseResult::Failed(e),
                            Ok(p) => match block_at(toks, p) {
                                ParseResult::Parsed(body, q) => ParseResult::Parsed(
                                    ProcedureView {
                                        name: name,
                                        return_type: rt,
                                        parameters: params,
                                        body: body,
                                    },
                                    q,
                                ),
                                ParseResult::Failed(e) => ParseResult::Failed(e),
                                ParseResult::Panics => ParseResult::Panics,
                            },
                        },
                        ParseResult::Failed(e) => ParseResult::Failed(e),
                        ParseResult::Panics => ParseResult::Panics,
                    },
                },
                ParseResult::Failed(e) => ParseResult::Failed(e),
                ParseResult::Panics => ParseResult::Panics,
            },
            ParseResult::Failed(e) => ParseResult::Failed(e),
            ParseResult::Panics => ParseResult::Panics,
        },
    }
}

/// An import `import path;` at `i`.
pub open spec fn import_at(toks: RinToks, i: int) -> ParseResult<Seq<Seq<char>>> {
    match expect_at(toks, i, RinTokenView::Keyword(Keyword::Import)) {
        Err(e) => ParseResult::Failed(e),
        Ok(j) => match path_at(toks, j) {
            ParseResult::Parsed((segs, _), k) => match expect_at(toks, k, RinTokenView::Semicolon) {
                Err(e) => ParseResult::Failed(e),
                Ok(m) => ParseResult::Parsed(segs, m),
            },
            ParseResult::Failed(e) => ParseResult::Failed(e),
            ParseResult::Panics => ParseResult::Panics,
        },
    }
}

/// A module declaration `module name;` at `i`.
pub open spec fn module_at(toks: RinToks, i: int) -> ParseResult<Seq<char>> {
    match expect_at(toks, i, RinTokenView::Keyword(Keyword::Module)) {
        Err(e) => ParseResult::Failed(e),
        Ok(j) => match ident_at(toks, j) {
            ParseResult::Parsed((name, _), k) => match expect_at(toks, k, RinTokenView::Semicolon) {
                Err(e) => ParseResult::Failed(e),
                Ok(m) => ParseResult::Parsed(name, m),
            },
            ParseResult::Failed(e) => ParseResult::Failed(e),
            ParseResult::Panics => ParseResult::Panics,
        },
    }
}

pub proof fn lemma_block_body_advances(toks: RinToks, i: int, stmts: Seq<(StatementView, LocationView)>)
    ensures
        0 <= i <= toks.len() ==> (block_body(toks, i, stmts) matches ParseResult::Parsed(_, j)
            ==> i <= j <= toks.len()),
    decreases toks.len() - i,
{
    if 0 <= i < toks.len() {
        lemma_statement_advances(toks, i);
        if let ParseResult::Parsed(st, j) = statement_at(toks, i) {
            lemma_block_body_advances(toks, j, stmts.push((st, toks[i].1)));
        }
    }
}

pub proof fn lemma_params_loop_advances(toks: RinToks, i: int, params: Seq<ParameterView>)
    ensures
        0 <= i <= toks.len() ==> (params_loop(toks, i, params) matches ParseResult::Parsed(_, j)
            ==> i <= j <= toks.len()),
    decreases toks.len() - i,
{
    if 0 <= i < toks.len() {
        if let RinTokenView::Type(p) = toks[i].0 {
            if let ParseResult::Parsed(name, _) = ident_at(toks, i + 1) {
                let ps = params.push(ParameterView { param_type: (type_of(p), toks[i].1), name: name });
                if i + 3 <= toks.len() {
                    lemma_params_loop_advances(toks, i + 3, ps);
                }
            }
        }
    }
}

pub proof fn lemma_proc_advances(toks: RinToks, i: int)
    ensures
        proc_at(toks, i) matches ParseResult::Parsed(_, j) ==> i < j <= toks.len(),
{
    if let Ok(j) = expect_at(toks, i, RinTokenView::Keyword(Keyword::Procedure)) {
        if let ParseResult::Parsed(_, k) = ident_at(toks, j) {
            if let Ok(m) = expect_at(toks, k, RinTokenView::LRoundBracket) {
                lemma_params_loop_advances(toks, m, seq![]);
            }
            if let ParseResult::Parsed(_, m) = params_at(toks, k) {
                if let Ok(n) = expect_at(toks, m, RinTokenView::Colon) {
                    if let ParseResult::Parsed(_, o) = type_at(toks, n) {
                        if let Ok(p) = expect_at(toks, o, RinTokenView::Arrow) {
                            lemma_block_body_advances(toks, p + 1, seq![]);
                        }
                    }
                }
            }
        }
    }
}

pub proof fn lemma_import_advances(toks: RinToks, i: int)
    ensures
        import_at(toks, i) matches ParseResult::Parsed(_, j) ==> i < j <= toks.len(),
{
    if 0 <= i < toks.len() {
        lemma_path_loop_advances(toks, i + 1, seq![], None);
    }
}

/// The file from `i` on: imports, module declarations and procedures.
/// `ast` holds what was read before.
pub open spec fn program_body(toks: RinToks, i: int, ast: RinAstView) -> ParseResult<RinAstView>
    decreases toks.len() - i,
{
    if i < 0 || i >= toks.len() {
        ParseResult::Parsed(ast, i)
    } else {
        let (t, loc) = toks[i];
        match t {
            RinTokenView::Keyword(Keyword::Import) => match import_at(toks, i) {
                ParseResult::Parsed(path, j) => {
                    proof {
                        lemma_import_advances(toks, i);
                    }
                    program_body(
                        toks,
                        j,
                        RinAstView {
                            imports: ast.imports.push(path),
                            modules: ast.modules,
                            procedures: ast.procedures,
                        },
                    )
                },
                ParseResult::Failed(e) => ParseResult::Failed(e),
                ParseResult::Panics => ParseResult::Panics,
            },
            RinTokenView::Keyword(Keyword::Module) => match module_at(toks, i) {
                ParseResult::Parsed(name, j) => program_body(
                    toks,
                    j,
                    RinAstView {
                        imports: ast.imports,
                        modules: ast.modules.push(name),
                        procedures: ast.procedures,
                    },
                ),
                ParseResult::Failed(e) => ParseResult::Failed(e),
                ParseResult::Panics => ParseResult::Panics,
            },
            RinTokenView::Keyword(Keyword::Procedure) => match proc_at(toks, i) {
                ParseResult::Parsed(p, j) => {
                    proof {
                        lemma_proc_advances(toks, i);
                    }
                    program_body(
                        toks,
                        j,
                        RinAstView {
                            imports: ast.imports,
                            modules: ast.modules,
                            procedures: ast.procedures.push((p, loc)),
                        },
                    )
                },
                ParseResult::Failed(e) => ParseResult::Failed(e),
                ParseResult::Panics => ParseResult::Panics,
            },
            _ => ParseResult::Failed(unexpected_at(toks, i)),
        }
    }
}

/// A whole rin file: its imports, module declarations and procedures.
pub struct RinAst {
    pub imports: Vec<Import>,
    pub module: Vec<Module>,
    pub procedures: Vec<WithLocation<Procedure>>,
}

pub struct Import {
    pub path: Path,
}

pub struct Module {
    pub name: String,
}

pub struct Procedure {
    pub name: WithLocation<String>,
    pub return_type: WithLocation<Type>,
    pub parameters: Vec<Parameter>,
    pub body: WithLocation<Block>,
}

pub struct Block {
    pub body: Vec<WithLocation<Statement>>,
}

pub struct Parameter {
    pub param_type: WithLocation<Type>,
    pub name: WithLocation<String>,
}

pub enum Statement {
    Expression(WithLocation<Expression>),
    Return(WithLocation<Expression>),
    VariableDecl { name: WithLocation<String>, value: WithLocation<Expression> },
    VariableMutate { name: WithLocation<String>, value: WithLocation<Expression> },
}

pub enum Expression {
    Term(WithLocation<Term>),
    BinaryOp(
        Box<WithLocation<Expression>>,
        WithLocation<BinaryOperator>,
        Box<WithLocation<Expression>>,
    ),
}

pub enum Term {
    Literal(WithLocation<Literal>),
    ProcedureCall(WithLocation<Path>, Vec<WithLocation<Expression>>),
    LocalVariableAccess(WithLocation<String>),
}

pub enum Literal {
    U64(u64),
    U32(u32),
    U16(u16),
    U8(u8),
    String(String),
    Boolean(bool),
}

/// A dotted name such as `package.module.procedure`.
#[derive(Debug, Clone)]
pub struct Path {
    path: Vec<String>,
}

impl View for Path {
    type V = Seq<Seq<char>>;

    closed spec fn view(&self) -> Seq<Seq<char>> {
        self.path@.map_values(|s: String| s@)
    }
}

/// A literal as plain values.
pub open spec fn literal_view(l: Literal) -> LiteralView {
    match l {
        Literal::U64(v) => LiteralView::U64(v),
        Literal::U32(v) => LiteralView::U32(v),
        Literal::U16(v) => LiteralView::U16(v),
        Literal::U8(v) => LiteralView::U8(v),
        Literal::String(s) => LiteralView::String(s@),
        Literal::Boolean(b) => LiteralView::Boolean(b),
    }
}

/// An expression as plain values.
pub open spec fn expr_view(e: Expression) -> ExprView
    decreases e,
{
    match e {
        Expression::Term(t) => ExprView::Term((term_view(t.value), t.location@)),
        Expression::BinaryOp(l, op, r) => ExprView::BinaryOp(
            Box::new((expr_view(l.value), l.location@)),
            (op.value, op.location@),
            Box::new((expr_view(r.value), r.location@)),
        ),
    }
}

/// A term as plain values.
pub open spec fn term_view(t: Term) -> TermView
    decreases t,
{
    match t {
        Term::Literal(l) => TermView::Literal((literal_view(l.value), l.location@)),
        Term::ProcedureCall(p, args) => TermView::ProcedureCall(
            (p.value@, p.location@),
            args_view(args@),
        ),
        Term::LocalVariableAccess(name) => TermView::LocalVariableAccess(
            (name.value@, name.location@),
        ),
    }
}

/// The arguments of a call as plain values.
pub open spec fn args_view(args: Seq<WithLocation<Expression>>) -> Seq<(ExprView, LocationView)>
    decreases args,
{
    if args.len() == 0 {
        seq![]
    } else {
        args_view(args.drop_last()).push((expr_view(args.last().value), args.last().location@))
    }
}

/// An expression with its location as plain values.
pub open spec fn located_expr(e: WithLocation<Expression>) -> (ExprView, LocationView) {
    (expr_view(e.value), e.location@)
}

/// A statement as plain values.
pub open spec fn statement_view(s: Statement) -> StatementView {
    match s {
        Statement::Expression(e) => StatementView::Expression(located_expr(e)),
        Statement::Return(e) => StatementView::Return(located_expr(e)),
        Statement::VariableDecl { name, value } => StatementView::VariableDecl {
            name: name@,
            value: located_expr(value),
        },
        Statement::VariableMutate { name, value } => StatementView::VariableMutate {
            name: name@,
            value: located_expr(value),
        },
    }
}

/// The statements of a block as plain values.
pub open spec fn statements_view(stmts: Seq<WithLocation<Statement>>) -> Seq<(StatementView, LocationView)> {
    stmts.map_values(|s: WithLocation<Statement>| (statement_view(s.value), s.location@))
}

/// A parameter as plain values.
pub open spec fn parameter_view(p: Parameter) -> ParameterView {
    ParameterView { param_type: p.param_type@, name: p.name@ }
}

/// A procedure as plain values.
pub open spec fn procedure_view(p: Procedure) -> ProcedureView {
    ProcedureView {
        name: p.name@,
        return_type: p.return_type@,
        parameters: p.parameters@.map_values(|q: Parameter| parameter_view(q)),
        body: (statements_view(p.body.value.body@), p.body.location@),
    }
}

impl View for RinAst {
    type V = RinAstView;

    open spec fn view(&self) -> RinAstView {
        RinAstView {
            imports: self.imports@.map_values(|i: Import| i.path@),
            modules: self.module@.map_values(|m: Module| m.name@),
            procedures: self.procedures@.map_values(
                |p: WithLocation<Procedure>| (procedure_view(p.value), p.location@),
            ),
        }
    }
}

impl Default for RinAst {
    fn default() -> (r: Self)
        ensures
            r@.imports.len() == 0,
            r@.modules.len() == 0,
            r@.procedures.len() == 0,
    {
        RinAst { imports: Vec::new(), module: Vec::new(), procedures: Vec::new() }
    }
}

/// The names of a dotted path, split at each `.`.
pub open spec fn split_dots(s: Seq<char>) -> Seq<Seq<char>>
    decreases s.len(),
{
    if s.len() == 0 {
        seq![seq![]]
    } else {
        let init = split_dots(s.drop_last());
        if s.last() == '.' {
            init.push(seq![])
        } else {
            init.update(init.len() - 1, init.last().push(s.last()))
        }
    }
}

/// The names joined with `sep` between each two.
pub open spec fn join_with(names: Seq<Seq<char>>, sep: char) -> Seq<char>
    decreases names.len(),
{
    if names.len() == 0 {
        seq![]
    } else if names.len() == 1 {
        names[0]
    } else {
        join_with(names.drop_last(), sep).push(sep) + names.last()
    }
}

/// Whether `prefix` names `path` or a place above it.
pub open spec fn is_prefix(prefix: Seq<Seq<char>>, path: Seq<Seq<char>>) -> bool {
    prefix.len() <= path.len() && forall|i: int| 0 <= i < prefix.len() ==> prefix[i] == path[i]
}

/// `path` as seen through an import of `prefix`: the import's last name,
/// then what follows it.
pub open spec fn through_import(path: Seq<Seq<char>>, prefix: Seq<Seq<char>>) -> Seq<Seq<char>> {
    if prefix.len() == 0 {
        path
    } else {
        path.subrange(prefix.len() - 1, path.len() as int)
    }
}

/// A name without dots is a path of one name.
pub proof fn lemma_split_no_dots(s: Seq<char>)
    requires
        forall|i: int| 0 <= i < s.len() ==> s[i] != '.',
    ensures
        split_dots(s) == seq![s],
    decreases s.len(),
{
    if s.len() > 0 {
        lemma_split_no_dots(s.drop_last());
        assert(s.drop_last().push(s.last()) =~= s);
    } else {
        assert(s =~= Seq::<char>::empty());
    }
}

pub proof fn lemma_split_dots_nonempty(s: Seq<char>)
    ensures
        split_dots(s).len() >= 1,
    decreases s.len(),
{
    if s.len() > 0 {
        lemma_split_dots_nonempty(s.drop_last());
    }
}

/// The path's last name followed by `x`.
pub open spec fn extend_last(names: Seq<Seq<char>>, x: Seq<char>) -> Seq<Seq<char>> {
    names.update(names.len() - 1, names.last() + x)
}

proof fn lemma_join_extend_last(names: Seq<Seq<char>>, x: Seq<char>, sep: char)
    requires
        names.len() >= 1,
    ensures
        join_with(extend_last(names, x), sep) == join_with(names, sep) + x,
{
    let e = extend_last(names, x);
    if names.len() >= 2 {
        assert(e.drop_last() =~= names.drop_last());
        assert(join_with(e, sep) =~= join_with(names, sep) + x);
    }
}

proof fn lemma_split_append_no_dots(a: Seq<char>, b: Seq<char>)
    requires
        forall|i: int| 0 <= i < b.len() ==> b[i] != '.',
    ensures
        split_dots(a + b) == extend_last(split_dots(a), b),
    decreases b.len(),
{
    lemma_split_dots_nonempty(a);
    if b.len() == 0 {
        assert(a + b =~= a);
        assert(extend_last(split_dots(a), b) =~= split_dots(a));
    } else {
        let b0 = b.drop_last();
        lemma_split_append_no_dots(a, b0);
        assert((a + b).drop_last() =~= a + b0);
        assert((a + b).last() == b.last());
        assert(b0.push(b.last()) =~= b);
        assert(split_dots(a + b) =~= extend_last(split_dots(a), b));
    }
}

/// Writing a path with dots and reading it back gives the text again:
/// `Path::new(s).dotted()` is `s` for every string `s`.
pub proof fn law_dotted_round_trip(s: Seq<char>)
    ensures
        join_with(split_dots(s), '.') == s,
    decreases s.len(),
{
    if s.len() > 0 {
        let t = s.drop_last();
        law_dotted_round_trip(t);
        lemma_split_dots_nonempty(t);
        let init = split_dots(t);
        if s.last() == '.' {
            assert(init.push(seq![]).drop_last() =~= init);
            assert(t.push('.') =~= s);
        } else {
            lemma_join_extend_last(init, seq![s.last()], '.');
            assert(init.last().push(s.last()) =~= init.last() + seq![s.last()]);
            assert(init.update(init.len() - 1, init.last().push(s.last())) =~= extend_last(
                init,
                seq![s.last()],
            ));
            assert(t + seq![s.last()] =~= s);
        }
    }
}

/// Reading back the dotted text of a path gives the path again, where the
/// path has a name and no name holds a dot: `Path::new(&p.dotted())` names
/// what `p` names.
pub proof fn law_path_round_trip(names: Seq<Seq<char>>)
    requires
        names.len() >= 1,
        forall|k: int, i: int| 0 <= k < names.len() && 0 <= i < names[k].len() ==> names[k][i] != '.',
    ensures
        split_dots(join_with(names, '.')) == names,
    decreases names.len(),
{
    if names.len() == 1 {
        assert(seq![] + names[0] =~= names[0]);
        lemma_split_append_no_dots(seq![], names[0]);
        assert(extend_last(seq![seq![]], names[0]) =~= names);
    } else {
        let init = names.drop_last();
        law_path_round_trip(init);
        let j = join_with(init, '.');
        lemma_split_append_no_dots(j.push('.'), names.last());
        assert(j.push('.').drop_last() =~= j);
        assert(split_dots(j.push('.')) == init.push(seq![]));
        assert(extend_last(init.push(seq![]), names.last()) =~= names);
    }
}

impl Path {
    /// The path that `value` spells, split at each `.`.
    pub fn new(value: &str) -> (r: Path)
        ensures
            r@ == split_dots(value@),
    {
        let n = value.unicode_len();
        let mut path: Vec<String> = Vec::new();
        let mut current = String::new();
        let mut i: usize = 0;
        while i < n
            invariant
                n == value@.len(),
                i <= n,
                path@.map_values(|s: String| s@).push(current@) == split_dots(value@.take(i as int)),
            decreases n - i,
        {
            let ghost before = path@.map_values(|s: String| s@).push(current@);
            proof {
                lemma_split_dots_nonempty(value@.take(i as int));
            }
            let c = value.get_char(i);
            assert(value@.take(i + 1).drop_last() =~= value@.take(i as int));
            if c == '.' {
                let mut done = String::new();
                std::mem::swap(&mut done, &mut current);
                path.push(done);
                assert(path@.map_values(|s: String| s@).push(current@) =~= before.push(seq![]));
            } else {
                string_push(&mut current, c);
                assert(path@.map_values(|s: String| s@).push(current@) =~= before.update(
                    before.len() - 1,
                    before.last().push(c),
                ));
            }
            i = i + 1;
        }
        assert(value@.take(n as int) =~= value@);
        path.push(current);
        let r = Path { path };
        assert(r@ =~= split_dots(value@));
        r
    }

    /// This path followed by `other`.
    pub fn join(self, other: Self) -> (r: Path)
        ensures
            r@ == self@ + other@,
    {
        let mut path = self.path;
        let mut rest = other.path;
        let ghost a = path@.map_values(|s: String| s@);
        let ghost b = rest@.map_values(|s: String| s@);
        path.append(&mut rest);
        let r = Path { path };
        assert(r@ =~= a + b);
        r
    }

    /// The names joined with `$`: the name of the procedure in rasm.
    pub fn parse(&self) -> (r: String)
        ensures
            r@ == join_with(self@, '$'),
    {
        self.joined('$')
    }

    /// The names joined with `.`, as the path is written in rin.
    pub fn dotted(&self) -> (r: String)
        ensures
            r@ == join_with(self@, '.'),
    {
        self.joined('.')
    }

    fn joined(&self, sep: char) -> (r: String)
        ensures
            r@ == join_with(self@, sep),
    {
        let ghost names = self@;
        let mut out = String::new();
        let mut i: usize = 0;
        while i < self.path.len()
            invariant
                names == self@,
                i <= self.path@.len(),
                out@ == join_with(names.take(i as int), sep),
            decreases self.path@.len() - i,
        {
            assert(names.take(i + 1).drop_last() =~= names.take(i as int));
            if i > 0 {
                string_push(&mut out, sep);
            }
            string_append(&mut out, &self.path[i]);
            i = i + 1;
            assert(out@ =~= join_with(names.take(i as int), sep));
        }
        assert(names.take(self.path@.len() as int) =~= names);
        out
    }

    /// Whether two paths name the same thing.
    pub fn same_path(&self, other: &Path) -> (r: bool)
        ensures
            r == (self@ == other@),
    {
        if self.path.len() != other.path.len() {
            assert(self@.len() != other@.len());
            return false;
        }
        let mut i: usize = 0;
        while i < self.path.len()
            invariant
                self.path@.len() == other.path@.len(),
                i <= self.path@.len(),
                forall|k: int| 0 <= k < i ==> self@[k] == other@[k],
            decreases self.path@.len() - i,
        {
            if !crate::chars::str_eq(self.path[i].as_str(), other.path[i].as_str()) {
                assert(self@[i as int] != other@[i as int]);
                return false;
            }
            i = i + 1;
        }
        assert(self@ =~= other@);
        true
    }

    /// The number of names.
    pub fn len(&self) -> (r: usize)
        ensures
            r == self@.len(),
    {
        self.path.len()
    }

    /// Whether `prefix` names this path or a place above it.
    pub fn starts_with(&self, prefix: &Path) -> (r: bool)
        ensures
            r == is_prefix(prefix@, self@),
    {
        if prefix.path.len() > self.path.len() {
            return false;
        }
        let mut i: usize = 0;
        while i < prefix.path.len()
            invariant
                prefix.path@.len() <= self.path@.len(),
                i <= prefix.path@.len(),
                forall|k: int| 0 <= k < i ==> prefix@[k] == self@[k],
            decreases prefix.path@.len() - i,
        {
            if !crate::chars::str_eq(prefix.path[i].as_str(), self.path[i].as_str()) {
                assert(prefix@[i as int] != self@[i as int]);
                return false;
            }
            i = i + 1;
        }
        true
    }

    /// This path as seen through an import of `prefix`: the import's last
    /// name, then what follows it here.
    pub fn import(&self, prefix: &Path) -> (r: Path)
        requires
            is_prefix(prefix@, self@),
        ensures
            r@ == through_import(self@, prefix@),
    {
        let start = if prefix.path.len() == 0 {
            0
        } else {
            prefix.path.len() - 1
        };
        let mut path: Vec<String> = Vec::new();
        let mut i: usize = start;
        while i < self.path.len()
            invariant
                start <= i <= self.path@.len(),
                path@.map_values(|s: String| s@) == self@.subrange(start as int, i as int),
            decreases self.path@.len() - i,
        {
            let ghost before = path@.map_values(|s: String| s@);
            let name = self.path[i].clone();
            path.push(name);
            assert(path@.map_values(|s: String| s@) =~= before.push(self.path@[i as int]@));
            assert(self@.subrange(start as int, i + 1) =~= self@.subrange(start as int, i as int).push(
                self@[i as int],
            ));
            i = i + 1;
        }
        let r = Path { path };
        assert(r@ =~= through_import(self@, prefix@));
        r
    }

    /// A copy of the path.
    pub fn duplicate(&self) -> (r: Path)
        ensures
            r@ == self@,
    {
        let mut path: Vec<String> = Vec::new();
        let mut i: usize = 0;
        while i < self.path.len()
            invariant
                i <= self.path@.len(),
                path@.map_values(|s: String| s@) == self@.take(i as int),
            decreases self.path@.len() - i,
        {
            let ghost before = path@.map_values(|s: String| s@);
            let name = self.path[i].clone();
            path.push(name);
            assert(path@.map_values(|s: String| s@) =~= before.push(self.path@[i as int]@));
            i = i + 1;
            assert(path@.map_values(|s: String| s@) =~= self@.take(i as int));
        }
        assert(self@.take(self.path@.len() as int) =~= self@);
        Path { path }
    }
}

/// The size of a value of each type.
pub open spec fn type_size(t: Type) -> TypeSizes {
    match t {
        Type::U64 | Type::I64 => TypeSizes::SizeU64,
        Type::U32 | Type::I32 => TypeSizes::SizeU32,
        Type::U16 | Type::I16 => TypeSizes::SizeU16,
        Type::U8 | Type::I8 | Type::Bool => TypeSizes::SizeU8,
        Type::Void => TypeSizes::SizeVoid,
    }
}

/// The number of bytes of each size.
pub open spec fn size_bytes(s: TypeSizes) -> nat {
    match s {
        TypeSizes::SizeU8 => 1,
        TypeSizes::SizeU16 => 2,
        TypeSizes::SizeU32 => 4,
        TypeSizes::SizeU64 => 8,
        TypeSizes::SizeVoid => 0,
    }
}

/// The text that messages print for each value.
pub open spec fn rin_type_name(x: Type) -> Seq<char> {
    match x {
        Type::U64 => "u64"@,
        Type::U32 => "u32"@,
        Type::U16 => "u16"@,
        Type::U8 => "u8"@,
        Type::I8 => "i8"@,
        Type::I16 => "i16"@,
        Type::I32 => "i32"@,
        Type::I64 => "i64"@,
        Type::Void => "void"@,
        Type::Bool => "bool"@,
    }
}

impl Type {
    pub fn size(&self) -> (r: TypeSizes)
        ensures
            r == type_size(*self),
    {
        match self {
            Self::U64 | Self::I64 => TypeSizes::SizeU64,
            Self::U32 | Self::I32 => TypeSizes::SizeU32,
            Self::U16 | Self::I16 => TypeSizes::SizeU16,
            Self::U8 | Self::I8 | Self::Bool => TypeSizes::SizeU8,
            Self::Void => TypeSizes::SizeVoid,
        }
    }

    /// The type as it is written in rin.
    pub fn name(&self) -> (r: &'static str)
        ensures
            r@ == rin_type_name(*self),
    {
        match self {
            Self::U64 => "u64",
            Self::U32 => "u32",
            Self::U16 => "u16",
            Self::U8 => "u8",
            Self::I8 => "i8",
            Self::I16 => "i16",
            Self::I32 => "i32",
            Self::I64 => "i64",
            Self::Void => "void",
            Self::Bool => "bool",
        }
    }

    /// The type that a primitive type names.
    pub fn from_primitive(primitive_type: PrimitiveType) -> (r: Type)
        ensures
            r == type_of(primitive_type),
    {
        match primitive_type {
            PrimitiveType::Bool => Self::Bool,
            PrimitiveType::U64 => Self::U64,
            PrimitiveType::U32 => Self::U32,
            PrimitiveType::U16 => Self::U16,
            PrimitiveType::U8 => Self::U8,
            PrimitiveType::I8 => Self::I8,
            PrimitiveType::I16 => Self::I16,
            PrimitiveType::I32 => Self::I32,
            PrimitiveType::I64 => Self::I64,
        }
    }
}

impl TypeSizes {
    pub fn byte(&self) -> (r: usize)
        ensures
            r == size_bytes(*self),
    {
        match self {
            TypeSizes::SizeU8 => 1,
            TypeSizes::SizeU16 => 2,
            TypeSizes::SizeU32 => 4,
            TypeSizes::SizeU64 => 8,
            TypeSizes::SizeVoid => 0,
        }
    }
}

impl BinaryOperator {
    /// The binary operator that an operator token stands for.
    pub fn from_operator(value: Operator) -> (r: BinaryOperator)
        ensures
            r == binary_of(value),
    {
        match value {
            Operator::Add => Self::Add,
            Operator::Multiply => Self::Multiply,
            Operator::Subtract => Self::Subtract,
            Operator::Divide => Self::Divide,
        }
    }
}

impl From<PrimitiveType> for Type {
    fn from(primitive_type: PrimitiveType) -> (r: Type) {
        Type::from_primitive(primitive_type)
    }
}

impl vstd::std_specs::convert::FromSpecImpl<PrimitiveType> for Type {
    open spec fn obeys_from_spec() -> bool {
        true
    }

    open spec fn from_spec(primitive_type: PrimitiveType) -> Type {
        type_of(primitive_type)
    }
}

impl From<Operator> for BinaryOperator {
    fn from(value: Operator) -> (r: BinaryOperator) {
        BinaryOperator::from_operator(value)
    }
}

impl vstd::std_specs::convert::FromSpecImpl<Operator> for BinaryOperator {
    open spec fn obeys_from_spec() -> bool {
        true
    }

    open spec fn from_spec(value: Operator) -> BinaryOperator {
        binary_of(value)
    }
}

/// Reads the tokens of a rin file into a syntax tree.
pub struct RinCompiler<'a> {
    base: CompilerBase<RinToken>,
    program: RinAst,
    owner_path: &'a Path,
}

impl<'a> RinCompiler<'a> {
    /// The tokens.
    pub closed spec fn toks(&self) -> RinToks {
        self.base.toks()
    }

    /// The position of the next token.
    pub closed spec fn pos(&self) -> int {
        self.base.pos()
    }

    /// The syntax tree read so far.
    pub closed spec fn ast(&self) -> RinAstView {
        self.program@
    }

    /// The position is within the tokens.
    pub closed spec fn wf(&self) -> bool {
        0 <= self.base.pos() <= self.base.toks().len()
    }

    pub fn new(tokens: Vec<WithLocation<RinToken>>, owner_path: &'a Path) -> (r: RinCompiler<'a>)
        ensures
            r.wf(),
            r.owner() == owner_path@,
            r.toks() == token_views(tokens@),
            r.pos() == 0,
            r.ast() == (RinAstView { imports: seq![], modules: seq![], procedures: seq![] }),
    {
        let r = Self { base: CompilerBase::new(tokens), program: RinAst::default(), owner_path };
        assert(r.ast().imports =~= Seq::<Seq<Seq<char>>>::empty());
        assert(r.ast().modules =~= Seq::<Seq<char>>::empty());
        assert(r.ast().procedures =~= Seq::<(ProcedureView, LocationView)>::empty());
        r
    }

    /// The syntax tree read, taken out of the parser.
    pub fn ast_owned(self) -> (r: RinAst)
        ensures
            r@ == self.ast(),
    {
        self.program
    }

    /// The syntax tree read so far.
    pub fn program(&self) -> (r: &RinAst)
        ensures
            r@ == self.ast(),
    {
        &self.program
    }

    /// The identifier at the position.
    fn parse_identifier(&mut self) -> (r: Result<WithLocation<String>, CompilerError<RinToken>>)
        requires
            old(self).wf(),
        ensures
            final(self).wf(),
            final(self).toks() == old(self).toks(),
            final(self).ast() == old(self).ast(),
            final(self).owner() == old(self).owner(),
            match ident_at(old(self).toks(), old(self).pos()) {
                ParseResult::Parsed(v, j) => r is Ok && r->Ok_0@ == v && final(self).pos() == j,
                ParseResult::Failed(e) => r is Err && r->Err_0@ == e,
                ParseResult::Panics => false,
            },
    {
        let token = match self.base.peek_owned(0) {
            None => {
                return Err(CompilerError::UnexpectedToken(None));
            },
            Some(t) => t,
        };
        match token.value {
            RinToken::Identifier(ident) => {
                self.base.consume();
                Ok(WithLocation::new(ident, token.location))
            },
            _ => Err(self.base.unexpected()),
        }
    }

    /// The type at the position.
    fn parse_type(&mut self) -> (r: Result<WithLocation<Type>, CompilerError<RinToken>>)
        requires
            old(self).wf(),
        ensures
            final(self).wf(),
            final(self).toks() == old(self).toks(),
            final(self).ast() == old(self).ast(),
            final(self).owner() == old(self).owner(),
            match type_at(old(self).toks(), old(self).pos()) {
                ParseResult::Parsed(v, j) => r is Ok && r->Ok_0@ == v && final(self).pos() == j,
                ParseResult::Failed(e) => r is Err && r->Err_0@ == e,
                ParseResult::Panics => false,
            },
    {
        let token = match self.base.peek_owned(0) {
            None => {
                return Err(CompilerError::UnexpectedToken(None));
            },
            Some(t) => t,
        };
        match token.value {
            RinToken::Type(typ) => {
                self.base.consume();
                Ok(WithLocation::new(Type::from_primitive(typ), token.location))
            },
            _ => Err(self.base.unexpected()),
        }
    }

    /// The dotted path at the position.
    fn parse_path(&mut self) -> (r: Result<WithLocation<Path>, CompilerError<RinToken>>)
        requires
            old(self).wf(),
            !(path_at(old(self).toks(), old(self).pos()) is Panics),
        ensures
            final(self).wf(),
            final(self).toks() == old(self).toks(),
            final(self).ast() == old(self).ast(),
            final(self).owner() == old(self).owner(),
            match path_at(old(self).toks(), old(self).pos()) {
                ParseResult::Parsed(v, j) => r is Ok && r->Ok_0@ == v && final(self).pos() == j,
                ParseResult::Failed(e) => r is Err && r->Err_0@ == e,
                ParseResult::Panics => true,
            },
    {
        let ghost toks = self.toks();
        let mut path: Vec<String> = Vec::new();
        let mut location: Option<Location> = None;
        assert(path@.map_values(|s: String| s@) =~= Seq::<Seq<char>>::empty());
        loop
            invariant_except_break
                path_loop(
                    toks,
                    self.pos(),
                    path@.map_values(|s: String| s@),
                    match location {
                        None => None,
                        Some(l) => Some(l@),
                    },
                ) == path_at(toks, old(self).pos()),
            invariant
                self.wf(),
                self.toks() == toks,
                toks == old(self).toks(),
                self.owner() == old(self).owner(),
                self.ast() == old(self).ast(),
                !(path_at(toks, old(self).pos()) is Panics),
            ensures
                path_at(toks, old(self).pos()) == match location {
                    None => ParseResult::<(Seq<Seq<char>>, LocationView)>::Panics,
                    Some(l) => ParseResult::Parsed(
                        (path@.map_values(|s: String| s@), l@),
                        self.pos(),
                    ),
                },
            decreases toks.len() - self.pos(),
        {
            let token = match self.base.peek_owned(0) {
                None => {
                    break;
                },
                Some(t) => t,
            };
            let ghost before = path@.map_values(|s: String| s@);
            match token.value {
                RinToken::Identifier(ident) => {
                    if location.is_none() {
                        location = Some(token.location);
                    }
                    self.base.consume();
                    path.push(ident);
                    assert(path@.map_values(|s: String| s@) =~= before.push(ident@));
                },
                RinToken::Dot => {
                    if location.is_none() {
                        location = Some(token.location);
                    }
                    self.base.consume();
                    continue;
                },
                _ => {
                    return Err(self.base.unexpected());
                },
            }
            let more = match self.base.peek(0) {
                None => {
                    return Err(CompilerError::UnexpectedToken(None));
                },
                Some(t) => match t.value() {
                    RinToken::Dot => true,
                    _ => false,
                },
            };
            if !more {
                break;
            }
        }
        match location {
            None => Err(CompilerError::UnexpectedToken(None)),
            Some(l) => Ok(WithLocation::new(Path { path }, l)),
        }
    }
}

impl<'a> RinCompiler<'a> {
    /// The term at the position.
    fn parse_term(&mut self) -> (r: Result<WithLocation<Term>, CompilerError<RinToken>>)
        requires
            old(self).wf(),
            !(term_at(old(self).toks(), old(self).pos()) is Panics),
        ensures
            final(self).wf(),
            final(self).toks() == old(self).toks(),
            final(self).ast() == old(self).ast(),
            final(self).owner() == old(self).owner(),
            match term_at(old(self).toks(), old(self).pos()) {
                ParseResult::Parsed(v, j) => r is Ok && (term_view(r->Ok_0.value), r->Ok_0.location@)
                    == v && final(self).pos() == j,
                ParseResult::Failed(e) => r is Err && r->Err_0@ == e,
                ParseResult::Panics => true,
            },
        decreases old(self).toks().len() - old(self).pos(), 2int,
    {
        let token = match self.base.peek_owned(0) {
            None => {
                return Err(CompilerError::UnexpectedToken(None));
            },
            Some(t) => t,
        };
        let location = token.location;
        match token.value {
            RinToken::Interger(interger) => {
                self.base.consume();
                let next = match self.base.peek_owned(0) {
                    None => {
                        return Err(CompilerError::UnexpectedToken(None));
                    },
                    Some(t) => t,
                };
                let literal = match next.value {
                    RinToken::Type(typ) => match typ {
                        PrimitiveType::U64 => Literal::U64(interger),
                        PrimitiveType::U32 => Literal::U32(interger as u32),
                        PrimitiveType::U16 => Literal::U16(interger as u16),
                        PrimitiveType::U8 => Literal::U8(interger as u8),
                        _ => {
                            // The other types are ruled out by the precondition.
                            return Err(self.base.unexpected());
                        },
                    },
                    _ => {
                        return Err(self.base.unexpected());
                    },
                };
                self.base.consume();
                Ok(WithLocation::new(Term::Literal(WithLocation::new(literal, next.location)), location))
            },
            RinToken::String(string) => {
                self.base.consume();
                let loc = location.clone();
                Ok(WithLocation::new(Term::Literal(WithLocation::new(Literal::String(string), loc)), location))
            },
            RinToken::Keyword(Keyword::True) => {
                self.base.consume();
                let loc = location.clone();
                Ok(WithLocation::new(Term::Literal(WithLocation::new(Literal::Boolean(true), loc)), location))
            },
            RinToken::Keyword(Keyword::False) => {
                self.base.consume();
                let loc = location.clone();
                Ok(WithLocation::new(Term::Literal(WithLocation::new(Literal::Boolean(false), loc)), location))
            },
            RinToken::Identifier(ident) => {
                let call = match self.base.peek(1) {
                    Some(t) => match t.value() {
                        RinToken::LRoundBracket => true,
                        RinToken::Dot => true,
                        _ => false,
                    },
                    None => false,
                };
                if call {
                    return self.parse_fn_call();
                }
                self.base.consume();
                let loc = location.clone();
                Ok(WithLocation::new(Term::LocalVariableAccess(WithLocation::new(ident, loc)), location))
            },
            _ => Err(self.base.unexpected()),
        }
    }

    /// A procedure call `path(arguments)` at the position.
    fn parse_fn_call(&mut self) -> (r: Result<WithLocation<Term>, CompilerError<RinToken>>)
        requires
            old(self).wf(),
            !(fn_call_at(old(self).toks(), old(self).pos()) is Panics),
        ensures
            final(self).wf(),
            final(self).toks() == old(self).toks(),
            final(self).ast() == old(self).ast(),
            final(self).owner() == old(self).owner(),
            match fn_call_at(old(self).toks(), old(self).pos()) {
                ParseResult::Parsed(v, j) => r is Ok && (term_view(r->Ok_0.value), r->Ok_0.location@)
                    == v && final(self).pos() == j,
                ParseResult::Failed(e) => r is Err && r->Err_0@ == e,
                ParseResult::Panics => true,
            },
        decreases old(self).toks().len() - old(self).pos(), 1int,
    {
        let ghost toks = self.toks();
        let ghost i = self.pos();
        proof {
            lemma_path_loop_advances(toks, i, seq![], None);
        }
        let path = match self.parse_path() {
            Ok(p) => p,
            Err(e) => {
                return Err(e);
            },
        };
        let location = path.location;
        let path = path.value;
        match self.base.expect_token(RinToken::LRoundBracket) {
            Ok(_) => {},
            Err(e) => {
                return Err(e);
            },
        }
        let mut params: Vec<WithLocation<Expression>> = Vec::new();
        let close = match self.base.peek(0) {
            Some(t) => match t.value() {
                RinToken::RRoundBracket => true,
                _ => false,
            },
            None => false,
        };
        if close {
            self.base.consume();
            let loc = location.clone();
            assert(args_view(params@) =~= Seq::<(ExprView, LocationView)>::empty());
            return Ok(WithLocation::new(Term::ProcedureCall(WithLocation::new(path, loc), params), location));
        }
        let ghost k0 = self.pos();
        let ghost pv = path@;
        let ghost lv = location@;
        assert(args_view(params@) =~= Seq::<(ExprView, LocationView)>::empty());
        assert(fn_call_at(toks, i) == match call_args(toks, k0, seq![]) {
            ParseResult::Panics => ParseResult::Panics,
            ParseResult::Failed(e) => ParseResult::Failed(e),
            ParseResult::Parsed(args, m) => ParseResult::Parsed(
                (TermView::ProcedureCall((pv, lv), args), lv),
                m,
            ),
        });
        proof {
            lemma_call_args_advances(toks, k0, seq![]);
        }
        loop
            invariant_except_break
                call_args(toks, self.pos(), args_view(params@)) == call_args(toks, k0, seq![]),
            invariant
                self.wf(),
                self.toks() == toks,
                toks == old(self).toks(),
                self.owner() == old(self).owner(),
                self.ast() == old(self).ast(),
                i == old(self).pos(),
                i < k0 <= self.pos(),
                !(call_args(toks, k0, seq![]) is Panics),
                pv == path@,
                lv == location@,
                fn_call_at(toks, i) == match call_args(toks, k0, seq![]) {
                    ParseResult::Panics => ParseResult::Panics,
                    ParseResult::Failed(e) => ParseResult::Failed(e),
                    ParseResult::Parsed(args, m) => ParseResult::Parsed(
                        (TermView::ProcedureCall((pv, lv), args), lv),
                        m,
                    ),
                },
            ensures
                call_args(toks, k0, seq![]) == ParseResult::Parsed(args_view(params@), self.pos()),
            decreases toks.len() - self.pos(),
        {
            if self.base.peek(0).is_none() {
                break;
            }
            let ghost k = self.pos();
            let ghost before = args_view(params@);
            proof {
                lemma_expr_advances(toks, k, 0);
            }
            let param = match self.parse_expression(0) {
                Ok(p) => p,
                Err(e) => {
                    return Err(e);
                },
            };
            let ghost x = located_expr(param);
            let ghost old_params = params@;
            params.push(param);
            assert(params@.drop_last() =~= old_params);
            assert(args_view(params@) == before.push(x));
            let close = match self.base.peek(0) {
                None => {
                    return Err(CompilerError::UnexpectedToken(None));
                },
                Some(t) => match t.value() {
                    RinToken::RRoundBracket => true,
                    _ => false,
                },
            };
            if close {
                self.base.consume();
                break;
            }
            match self.base.expect_token(RinToken::Comma) {
                Ok(_) => {},
                Err(e) => {
                    return Err(e);
                },
            }
        }
        let loc = location.clone();
        Ok(WithLocation::new(Term::ProcedureCall(WithLocation::new(path, loc), params), location))
    }
}

impl<'a> RinCompiler<'a> {
    /// The expression at the position whose operators bind at least as
    /// tightly as `min_prec`.
    fn parse_expression(&mut self, min_prec: usize) -> (r: Result<
        WithLocation<Expression>,
        CompilerError<RinToken>,
    >)
        requires
            old(self).wf(),
            !(expr_at(old(self).toks(), old(self).pos(), min_prec as int) is Panics),
        ensures
            final(self).wf(),
            final(self).toks() == old(self).toks(),
            final(self).ast() == old(self).ast(),
            final(self).owner() == old(self).owner(),
            match expr_at(old(self).toks(), old(self).pos(), min_prec as int) {
                ParseResult::Parsed(v, j) => r is Ok && located_expr(r->Ok_0) == v
                    && final(self).pos() == j,
                ParseResult::Failed(e) => r is Err && r->Err_0@ == e,
                ParseResult::Panics => true,
            },
        decreases old(self).toks().len() - old(self).pos(), 3int,
    {
        let ghost toks = self.toks();
        let ghost i = self.pos();
        proof {
            lemma_term_advances(toks, i);
        }
        let term = match self.parse_term() {
            Ok(t) => t,
            Err(e) => {
                return Err(e);
            },
        };
        let location = term.location.clone();
        let mut lhs = WithLocation::new(Expression::Term(term), location);
        let ghost j0 = self.pos();
        let ghost lhs0 = located_expr(lhs);
        proof {
            lemma_expr_tail_advances(toks, j0, lhs0, min_prec as int);
        }
        loop
            invariant_except_break
                expr_tail(toks, self.pos(), located_expr(lhs), min_prec as int) == expr_tail(
                    toks,
                    j0,
                    lhs0,
                    min_prec as int,
                ),
            invariant
                self.wf(),
                self.toks() == toks,
                toks == old(self).toks(),
                self.owner() == old(self).owner(),
                self.ast() == old(self).ast(),
                i == old(self).pos(),
                i < j0 <= self.pos(),
                expr_at(toks, i, min_prec as int) == expr_tail(toks, j0, lhs0, min_prec as int),
                !(expr_tail(toks, j0, lhs0, min_prec as int) is Panics),
            ensures
                expr_tail(toks, j0, lhs0, min_prec as int) == ParseResult::Parsed(
                    located_expr(lhs),
                    self.pos(),
                ),
            decreases toks.len() - self.pos(),
        {
            let token = match self.base.peek_owned(0) {
                None => {
                    break;
                },
                Some(t) => t,
            };
            let operator = match token.value {
                RinToken::Operator(operator) => operator,
                _ => {
                    break;
                },
            };
            let prec = operator.prec();
            if prec < min_prec {
                break;
            }
            let ghost j = self.pos();
            self.base.consume();
            proof {
                lemma_expr_advances(toks, j + 1, prec + 1);
            }
            let rhs = match self.parse_expression(prec + 1) {
                Ok(e) => e,
                Err(e) => {
                    return Err(e);
                },
            };
            let loc = token.location.clone();
            lhs = WithLocation::new(
                Expression::BinaryOp(
                    Box::new(lhs),
                    WithLocation::new(BinaryOperator::from_operator(operator), loc),
                    Box::new(rhs),
                ),
                token.location,
            );
        }
        Ok(lhs)
    }
}

impl<'a> RinCompiler<'a> {
    /// The statement at the position, with its semicolon.
    fn parse_statement(&mut self) -> (r: Result<Statement, CompilerError<RinToken>>)
        requires
            old(self).wf(),
            !(statement_at(old(self).toks(), old(self).pos()) is Panics),
        ensures
            final(self).wf(),
            final(self).toks() == old(self).toks(),
            final(self).ast() == old(self).ast(),
            final(self).owner() == old(self).owner(),
            match statement_at(old(self).toks(), old(self).pos()) {
                ParseResult::Parsed(v, j) => r is Ok && statement_view(r->Ok_0) == v
                    && final(self).pos() == j,
                ParseResult::Failed(e) => r is Err && r->Err_0@ == e,
                ParseResult::Panics => true,
            },
    {
        let token = match self.base.peek_owned(0) {
            None => {
                return Err(CompilerError::UnexpectedToken(None));
            },
            Some(t) => t,
        };
        let value = match token.value {
            RinToken::Keyword(Keyword::Let) => {
                self.base.consume();
                let name = match self.parse_identifier() {
                    Ok(n) => n,
                    Err(e) => {
                        return Err(e);
                    },
                };
                match self.base.expect_token(RinToken::Equals) {
                    Ok(_) => {},
                    Err(e) => {
                        return Err(e);
                    },
                }
                let value = match self.parse_expression(0) {
                    Ok(v) => v,
                    Err(e) => {
                        return Err(e);
                    },
                };
                Statement::VariableDecl { name, value }
            },
            RinToken::Identifier(_) => {
                let expression = match self.base.peek(1) {
                    Some(t) => match t.value() {
                        RinToken::Dot => true,
                        RinToken::LRoundBracket => true,
                        _ => false,
                    },
                    None => false,
                };
                if expression {
                    let expr = match self.parse_expression(0) {
                        Ok(v) => v,
                        Err(e) => {
                            return Err(e);
                        },
                    };
                    Statement::Expression(expr)
                } else {
                    let name = match self.parse_identifier() {
                        Ok(n) => n,
                        Err(e) => {
                            return Err(e);
                        },
                    };
                    match self.base.expect_token(RinToken::Equals) {
                        Ok(_) => {},
                        Err(e) => {
                            return Err(e);
                        },
                    }
                    let value = match self.parse_expression(0) {
                        Ok(v) => v,
                        Err(e) => {
                            return Err(e);
                        },
                    };
                    Statement::VariableMutate { name, value }
                }
            },
            RinToken::Keyword(Keyword::Return) => {
                self.base.consume();
                let expr = match self.parse_expression(0) {
                    Ok(v) => v,
                    Err(e) => {
                        return Err(e);
                    },
                };
                Statement::Return(expr)
            },
            RinToken::Keyword(_) => {
                return Err(self.base.unexpected());
            },
            _ => {
                let expr = match self.parse_expression(0) {
                    Ok(v) => v,
                    Err(e) => {
                        return Err(e);
                    },
                };
                Statement::Expression(expr)
            },
        };
        match self.base.expect_token(RinToken::Semicolon) {
            Ok(_) => {},
            Err(e) => {
                return Err(e);
            },
        }
        Ok(value)
    }

    /// A block `{ statements }` at the position.
    fn parse_block(&mut self) -> (r: Result<WithLocation<Block>, CompilerError<RinToken>>)
        requires
            old(self).wf(),
            !(block_at(old(self).toks(), old(self).pos()) is Panics),
        ensures
            final(self).wf(),
            final(self).toks() == old(self).toks(),
            final(self).ast() == old(self).ast(),
            final(self).owner() == old(self).owner(),
            match block_at(old(self).toks(), old(self).pos()) {
                ParseResult::Parsed(v, j) => r is Ok && (
                    statements_view(r->Ok_0.value.body@),
                    r->Ok_0.location@,
                ) == v && final(self).pos() == j,
                ParseResult::Failed(e) => r is Err && r->Err_0@ == e,
                ParseResult::Panics => true,
            },
    {
        let ghost toks = self.toks();
        let ghost i = self.pos();
        let loc = match self.base.expect_token(RinToken::LCurly) {
            Ok(l) => l.clone(),
            Err(e) => {
                return Err(e);
            },
        };
        let mut statements: Vec<WithLocation<Statement>> = Vec::new();
        let ghost j0 = self.pos();
        assert(statements_view(statements@) =~= Seq::<(StatementView, LocationView)>::empty());
        loop
            invariant_except_break
                block_body(toks, self.pos(), statements_view(statements@)) == block_body(
                    toks,
                    j0,
                    seq![],
                ),
            invariant
                self.wf(),
                self.toks() == toks,
                toks == old(self).toks(),
                self.owner() == old(self).owner(),
                self.ast() == old(self).ast(),
                i == old(self).pos(),
                j0 == i + 1,
                expect_at(toks, i, RinTokenView::LCurly) == Ok::<int, RinError>(j0),
                loc@ == toks[i].1,
                !(block_body(toks, j0, seq![]) is Panics),
            ensures
                block_body(toks, j0, seq![]) == ParseResult::Parsed(
                    statements_view(statements@),
                    self.pos(),
                ),
            decreases toks.len() - self.pos(),
        {
            let token = match self.base.peek_owned(0) {
                None => {
                    break;
                },
                Some(t) => t,
            };
            let statement_start = match token.value {
                RinToken::Keyword(_) => true,
                RinToken::Identifier(_) => true,
                RinToken::Type(_) => true,
                RinToken::RCurly => false,
                _ => {
                    return Err(self.base.unexpected());
                },
            };
            if !statement_start {
                break;
            }
            let ghost before = statements_view(statements@);
            proof {
                lemma_statement_advances(toks, self.pos());
            }
            let statement = match self.parse_statement() {
                Ok(s) => s,
                Err(e) => {
                    return Err(e);
                },
            };
            statements.push(WithLocation::new(statement, token.location));
            assert(statements_view(statements@) =~= before.push(
                (statement_view(statements@.last().value), statements@.last().location@),
            ));
        }
        match self.base.expect_token(RinToken::RCurly) {
            Ok(_) => {},
            Err(e) => {
                return Err(e);
            },
        }
        Ok(WithLocation::new(Block { body: statements }, loc))
    }

    /// A parameter `type name` at the position.
    fn parse_parameter(&mut self) -> (r: Result<Parameter, CompilerError<RinToken>>)
        requires
            old(self).wf(),
        ensures
            final(self).wf(),
            final(self).toks() == old(self).toks(),
            final(self).ast() == old(self).ast(),
            final(self).owner() == old(self).owner(),
            match type_at(old(self).toks(), old(self).pos()) {
                ParseResult::Parsed(t, j) => match ident_at(old(self).toks(), j) {
                    ParseResult::Parsed(n, k) => r is Ok && parameter_view(r->Ok_0) == (ParameterView {
                        param_type: t,
                        name: n,
                    }) && final(self).pos() == k,
                    ParseResult::Failed(e) => r is Err && r->Err_0@ == e,
                    ParseResult::Panics => false,
                },
                ParseResult::Failed(e) => r is Err && r->Err_0@ == e,
                ParseResult::Panics => false,
            },
    {
        let param_type = match self.parse_type() {
            Ok(t) => t,
            Err(e) => {
                return Err(e);
            },
        };
        let name = match self.parse_identifier() {
            Ok(n) => n,
            Err(e) => {
                return Err(e);
            },
        };
        Ok(Parameter { param_type, name })
    }

    /// The parameter list `( type name, ... )` at the position.
    fn parse_parameters(&mut self) -> (r: Result<Vec<Parameter>, CompilerError<RinToken>>)
        requires
            old(self).wf(),
        ensures
            final(self).wf(),
            final(self).toks() == old(self).toks(),
            final(self).ast() == old(self).ast(),
            final(self).owner() == old(self).owner(),
            match params_at(old(self).toks(), old(self).pos()) {
                ParseResult::Parsed(v, j) => r is Ok && r->Ok_0@.map_values(
                    |q: Parameter| parameter_view(q),
                ) == v && final(self).pos() == j,
                ParseResult::Failed(e) => r is Err && r->Err_0@ == e,
                ParseResult::Panics => false,
            },
    {
        let ghost toks = self.toks();
        match self.base.expect_token(RinToken::LRoundBracket) {
            Ok(_) => {},
            Err(e) => {
                return Err(e);
            },
        }
        let mut params: Vec<Parameter> = Vec::new();
        let ghost j0 = self.pos();
        assert(params@.map_values(|q: Parameter| parameter_view(q)) =~= Seq::<ParameterView>::empty());
        loop
            invariant_except_break
                params_loop(toks, self.pos(), params@.map_values(|q: Parameter| parameter_view(q)))
                    == params_loop(toks, j0, seq![]),
            invariant
                self.wf(),
                self.toks() == toks,
                toks == old(self).toks(),
                self.owner() == old(self).owner(),
                self.ast() == old(self).ast(),
                params_at(toks, old(self).pos()) == params_loop(toks, j0, seq![]),
            ensures
                params_loop(toks, j0, seq![]) == ParseResult::Parsed(
                    params@.map_values(|q: Parameter| parameter_view(q)),
                    self.pos(),
                ),
            decreases toks.len() - self.pos(),
        {
            let is_type = match self.base.peek(0) {
                None => {
                    break;
                },
                Some(t) => match t.value() {
                    RinToken::Type(_) => true,
                    RinToken::RRoundBracket => false,
                    _ => {
                        return Err(self.base.unexpected());
                    },
                },
            };
            if !is_type {
                self.base.consume();
                break;
            }
            let ghost before = params@.map_values(|q: Parameter| parameter_view(q));
            let param = match self.parse_parameter() {
                Ok(p) => p,
                Err(e) => {
                    return Err(e);
                },
            };
            params.push(param);
            assert(params@.map_values(|q: Parameter| parameter_view(q)) =~= before.push(
                parameter_view(params@.last()),
            ));
            let close = match self.base.peek(0) {
                None => {
                    return Err(CompilerError::UnexpectedToken(None));
                },
                Some(t) => match t.value() {
                    RinToken::RRoundBracket => true,
                    _ => false,
                },
            };
            if close {
                self.base.consume();
                break;
            }
            match self.base.expect_token(RinToken::Comma) {
                Ok(_) => {},
                Err(e) => {
                    return Err(e);
                },
            }
        }
        Ok(params)
    }
}

impl<'a> RinCompiler<'a> {
    /// A procedure `proc name(parameters): type -> { ... }` at the position.
    fn parse_proc(&mut self) -> (r: Result<Procedure, CompilerError<RinToken>>)
        requires
            old(self).wf(),
            !(proc_at(old(self).toks(), old(self).pos()) is Panics),
        ensures
            final(self).wf(),
            final(self).toks() == old(self).toks(),
            final(self).ast() == old(self).ast(),
            final(self).owner() == old(self).owner(),
            match proc_at(old(self).toks(), old(self).pos()) {
                ParseResult::Parsed(v, j) => r is Ok && procedure_view(r->Ok_0) == v
                    && final(self).pos() == j,
                ParseResult::Failed(e) => r is Err && r->Err_0@ == e,
                ParseResult::Panics => true,
            },
    {
        match self.base.expect_token(RinToken::Keyword(Keyword::Procedure)) {
            Ok(_) => {},
            Err(e) => {
                return Err(e);
            },
        }
        let name = match self.parse_identifier() {
            Ok(n) => n,
            Err(e) => {
                return Err(e);
            },
        };
        let params = match self.parse_parameters() {
            Ok(p) => p,
            Err(e) => {
                return Err(e);
            },
        };
        match self.base.expect_token(RinToken::Colon) {
            Ok(_) => {},
            Err(e) => {
                return Err(e);
            },
        }
        let return_type = match self.parse_type() {
            Ok(t) => t,
            Err(e) => {
                return Err(e);
            },
        };
        match self.base.expect_token(RinToken::Arrow) {
            Ok(_) => {},
            Err(e) => {
                return Err(e);
            },
        }
        let block = match self.parse_block() {
            Ok(b) => b,
            Err(e) => {
                return Err(e);
            },
        };
        Ok(Procedure { name, return_type, parameters: params, body: block })
    }

    /// An import `import path;` at the position.
    fn parse_imports(&mut self) -> (r: Result<Import, CompilerError<RinToken>>)
        requires
            old(self).wf(),
            !(import_at(old(self).toks(), old(self).pos()) is Panics),
        ensures
            final(self).wf(),
            final(self).toks() == old(self).toks(),
            final(self).ast() == old(self).ast(),
            final(self).owner() == old(self).owner(),
            match import_at(old(self).toks(), old(self).pos()) {
                ParseResult::Parsed(v, j) => r is Ok && r->Ok_0.path@ == v && final(self).pos() == j,
                ParseResult::Failed(e) => r is Err && r->Err_0@ == e,
                ParseResult::Panics => true,
            },
    {
        match self.base.expect_token(RinToken::Keyword(Keyword::Import)) {
            Ok(_) => {},
            Err(e) => {
                return Err(e);
            },
        }
        let path = match self.parse_path() {
            Ok(p) => p,
            Err(e) => {
                return Err(e);
            },
        };
        match self.base.expect_token(RinToken::Semicolon) {
            Ok(_) => {},
            Err(e) => {
                return Err(e);
            },
        }
        Ok(Import { path: path.value })
    }

    /// A module declaration `module name;` at the position.
    fn parse_module(&mut self) -> (r: Result<Module, CompilerError<RinToken>>)
        requires
            old(self).wf(),
        ensures
            final(self).wf(),
            final(self).toks() == old(self).toks(),
            final(self).ast() == old(self).ast(),
            final(self).owner() == old(self).owner(),
            match module_at(old(self).toks(), old(self).pos()) {
                ParseResult::Parsed(v, j) => r is Ok && r->Ok_0.name@ == v && final(self).pos() == j,
                ParseResult::Failed(e) => r is Err && r->Err_0@ == e,
                ParseResult::Panics => false,
            },
    {
        match self.base.expect_token(RinToken::Keyword(Keyword::Module)) {
            Ok(_) => {},
            Err(e) => {
                return Err(e);
            },
        }
        let name = match self.parse_identifier() {
            Ok(n) => n,
            Err(e) => {
                return Err(e);
            },
        };
        match self.base.expect_token(RinToken::Semicolon) {
            Ok(_) => {},
            Err(e) => {
                return Err(e);
            },
        }
        Ok(Module { name: name.value })
    }

    /// Reads the rest of the file: imports, module declarations and
    /// procedures, added to the syntax tree.
    pub fn parse(&mut self) -> (r: Result<(), CompilerError<RinToken>>)
        requires
            old(self).wf(),
            !(program_body(old(self).toks(), old(self).pos(), old(self).ast()) is Panics),
        ensures
            final(self).wf(),
            final(self).toks() == old(self).toks(),
            final(self).owner() == old(self).owner(),
            match program_body(old(self).toks(), old(self).pos(), old(self).ast()) {
                ParseResult::Parsed(a, j) => r is Ok && final(self).ast() == a && final(self).pos()
                    == j,
                ParseResult::Failed(e) => r is Err && r->Err_0@ == e,
                ParseResult::Panics => true,
            },
    {
        let ghost toks = self.toks();
        loop
            invariant_except_break
                program_body(toks, self.pos(), self.ast()) == program_body(
                    toks,
                    old(self).pos(),
                    old(self).ast(),
                ),
            invariant
                self.wf(),
                self.toks() == toks,
                toks == old(self).toks(),
                self.owner() == old(self).owner(),
                !(program_body(toks, old(self).pos(), old(self).ast()) is Panics),
            ensures
                program_body(toks, old(self).pos(), old(self).ast()) == ParseResult::Parsed(
                    self.ast(),
                    self.pos(),
                ),
            decreases toks.len() - self.pos(),
        {
            let token = match self.base.peek_owned(0) {
                None => {
                    break;
                },
                Some(t) => t,
            };
            let keyword = match token.value {
                RinToken::Keyword(keyword) => keyword,
                _ => {
                    return Err(self.base.unexpected());
                },
            };
            let ghost a = self.ast();
            let ghost i = self.pos();
            match keyword {
                Keyword::Import => {
                    proof {
                        lemma_import_advances(toks, i);
                    }
                    let import = match self.parse_imports() {
                        Ok(im) => im,
                        Err(e) => {
                            return Err(e);
                        },
                    };
                    self.program.imports.push(import);
                    assert(self.ast().imports =~= a.imports.push(self.program.imports@.last().path@));
                    assert(self.ast().modules =~= a.modules);
                    assert(self.ast().procedures =~= a.procedures);
                },
                Keyword::Module => {
                    let module = match self.parse_module() {
                        Ok(m) => m,
                        Err(e) => {
                            return Err(e);
                        },
                    };
                    self.program.module.push(module);
                    assert(self.ast().imports =~= a.imports);
                    assert(self.ast().modules =~= a.modules.push(self.program.module@.last().name@));
                    assert(self.ast().procedures =~= a.procedures);
                },
                Keyword::Procedure => {
                    proof {
                        lemma_proc_advances(toks, i);
                    }
                    let proc = match self.parse_proc() {
                        Ok(p) => p,
                        Err(e) => {
                            return Err(e);
                        },
                    };
                    self.program.procedures.push(WithLocation::new(proc, token.location));
                    assert(self.ast().imports =~= a.imports);
                    assert(self.ast().modules =~= a.modules);
                    assert(self.ast().procedures =~= a.procedures.push(
                        (
                            procedure_view(self.program.procedures@.last().value),
                            self.program.procedures@.last().location@,
                        ),
                    ));
                },
                _ => {
                    return Err(self.base.unexpected());
                },
            }
        }
        Ok(())
    }
}

/// Whether each integer literal is followed, if by a type, by an unsigned
/// one, and the file does not end in `import`: the files the parser reads
/// without reaching an unsupported case.
pub open spec fn supported(toks: RinToks) -> bool {
    &&& forall|i: int|
        #![trigger toks[i], toks[i + 1]]
        0 <= i && i + 1 < toks.len() && toks[i].0 is Interger && toks[i + 1].0 is Type ==> literal_of(
            toks[i].0->Interger_0,
            toks[i + 1].0->Type_0,
        ) is Some
    &&& toks.len() > 0 ==> toks.last().0 != RinTokenView::Keyword(Keyword::Import)
}

pub proof fn lemma_path_no_panic(toks: RinToks, i: int, segments: Seq<Seq<char>>, first: Option<LocationView>)
    requires
        0 <= i < toks.len() || first is Some,
    ensures
        !(path_loop(toks, i, segments, first) is Panics),
    decreases toks.len() - i,
{
    if 0 <= i < toks.len() {
        let (t, loc) = toks[i];
        let f = match first {
            None => loc,
            Some(l) => l,
        };
        match t {
            RinTokenView::Identifier(name) => {
                lemma_path_no_panic(toks, i + 1, segments.push(name), Some(f));
            },
            RinTokenView::Dot => {
                lemma_path_no_panic(toks, i + 1, segments, Some(f));
            },
            _ => {},
        }
    }
}

pub proof fn lemma_term_no_panic(toks: RinToks, i: int)
    requires
        supported(toks),
    ensures
        !(term_at(toks, i) is Panics),
    decreases toks.len() - i, 2int,
{
    if 0 <= i < toks.len() {
        match toks[i].0 {
            RinTokenView::Identifier(_) => {
                lemma_fn_call_no_panic(toks, i);
            },
            RinTokenView::Interger(_) => {
                if i + 1 < toks.len() {
                    assert(toks[i + 1] == toks[i + 1]);
                }
            },
            _ => {},
        }
    }
}

pub proof fn lemma_fn_call_no_panic(toks: RinToks, i: int)
    requires
        supported(toks),
    ensures
        0 <= i < toks.len() ==> !(fn_call_at(toks, i) is Panics),
    decreases toks.len() - i, 1int,
{
    if 0 <= i < toks.len() {
        lemma_path_no_panic(toks, i, seq![], None);
        lemma_path_loop_advances(toks, i, seq![], None);
        if let ParseResult::Parsed(_, j) = path_at(toks, i) {
            if let Ok(k) = expect_at(toks, j, RinTokenView::LRoundBracket) {
                if !(token_at(toks, k) matches Some((RinTokenView::RRoundBracket, _))) {
                    lemma_call_args_no_panic(toks, k, seq![]);
                }
            }
        }
    }
}

pub proof fn lemma_call_args_no_panic(toks: RinToks, k: int, params: Seq<(ExprView, LocationView)>)
    requires
        supported(toks),
    ensures
        !(call_args(toks, k, params) is Panics),
    decreases toks.len() - k, 4int,
{
    if 0 <= k < toks.len() {
        lemma_expr_no_panic(toks, k, 0);
        lemma_expr_advances(toks, k, 0);
        if let ParseResult::Parsed(x, m) = expr_at(toks, k, 0) {
            if let Ok(m2) = expect_at(toks, m, RinTokenView::Comma) {
                lemma_call_args_no_panic(toks, m2, params.push(x));
            }
        }
    }
}

pub proof fn lemma_expr_tail_no_panic(toks: RinToks, j: int, lhs: (ExprView, LocationView), min_prec: int)
    requires
        supported(toks),
    ensures
        !(expr_tail(toks, j, lhs, min_prec) is Panics),
    decreases toks.len() - j, 4int,
{
    if 0 <= j < toks.len() {
        if let RinTokenView::Operator(op) = toks[j].0 {
            if spec_prec(op) >= min_prec {
                lemma_expr_no_panic(toks, j + 1, spec_prec(op) + 1int);
                lemma_expr_advances(toks, j + 1, spec_prec(op) + 1int);
                if let ParseResult::Parsed(rhs, k) = expr_at(toks, j + 1, spec_prec(op) + 1int) {
                    let e = (
                        ExprView::BinaryOp(Box::new(lhs), (binary_of(op), toks[j].1), Box::new(rhs)),
                        toks[j].1,
                    );
                    lemma_expr_tail_no_panic(toks, k, e, min_prec);
                }
            }
        }
    }
}

pub proof fn lemma_expr_no_panic(toks: RinToks, i: int, min_prec: int)
    requires
        supported(toks),
    ensures
        !(expr_at(toks, i, min_prec) is Panics),
    decreases toks.len() - i, 3int,
{
    lemma_term_no_panic(toks, i);
    lemma_term_advances(toks, i);
    if let ParseResult::Parsed((t, loc), j) = term_at(toks, i) {
        lemma_expr_tail_no_panic(toks, j, (ExprView::Term((t, loc)), loc), min_prec);
    }
}

pub proof fn lemma_statement_no_panic(toks: RinToks, i: int)
    requires
        supported(toks),
    ensures
        !(statement_at(toks, i) is Panics),
{
    lemma_expr_no_panic(toks, i, 0);
    lemma_expr_no_panic(toks, i + 1, 0);
    lemma_expr_no_panic(toks, i + 2, 0);
    lemma_expr_no_panic(toks, i + 3, 0);
}

pub proof fn lemma_block_body_no_panic(toks: RinToks, i: int, stmts: Seq<(StatementView, LocationView)>)
    requires
        supported(toks),
    ensures
        !(block_body(toks, i, stmts) is Panics),
    decreases toks.len() - i,
{
    if 0 <= i < toks.len() {
        lemma_statement_no_panic(toks, i);
        lemma_statement_advances(toks, i);
        if let ParseResult::Parsed(st, j) = statement_at(toks, i) {
            lemma_block_body_no_panic(toks, j, stmts.push((st, toks[i].1)));
        }
    }
}

pub proof fn lemma_params_no_panic(toks: RinToks, i: int, params: Seq<ParameterView>)
    ensures
        !(params_loop(toks, i, params) is Panics),
    decreases toks.len() - i,
{
    if 0 <= i < toks.len() {
        if let RinTokenView::Type(p) = toks[i].0 {
            if let ParseResult::Parsed(name, _) = ident_at(toks, i + 1) {
                let ps = params.push(ParameterView { param_type: (type_of(p), toks[i].1), name: name });
                if i + 3 <= toks.len() {
                    lemma_params_no_panic(toks, i + 3, ps);
                }
            }
        }
    }
}

pub proof fn lemma_proc_no_panic(toks: RinToks, i: int)
    requires
        supported(toks),
    ensures
        !(proc_at(toks, i) is Panics),
{
    if let Ok(j) = expect_at(toks, i, RinTokenView::Keyword(Keyword::Procedure)) {
        if let ParseResult::Parsed(_, k) = ident_at(toks, j) {
            if let Ok(m) = expect_at(toks, k, RinTokenView::LRoundBracket) {
                lemma_params_no_panic(toks, m, seq![]);
            }
            if let ParseResult::Parsed(_, m) = params_at(toks, k) {
                if let Ok(n) = expect_at(toks, m, RinTokenView::Colon) {
                    if let ParseResult::Parsed(_, o) = type_at(toks, n) {
                        if let Ok(p) = expect_at(toks, o, RinTokenView::Arrow) {
                            lemma_block_body_no_panic(toks, p + 1, seq![]);
                        }
                    }
                }
            }
        }
    }
}

/// On a supported file the parser never reaches an unsupported case,
/// wherever it starts and whatever it has read before.
pub proof fn law_supported_parse_never_panics(toks: RinToks, i: int, ast: RinAstView)
    requires
        supported(toks),
    ensures
        !(program_body(toks, i, ast) is Panics),
    decreases toks.len() - i,
{
    if 0 <= i < toks.len() {
        let (t, loc) = toks[i];
        match t {
            RinTokenView::Keyword(Keyword::Import) => {
                if i + 1 < toks.len() {
                    lemma_path_no_panic(toks, i + 1, seq![], None);
                } else {
                    assert(toks.last() == toks[i]);
                }
                lemma_import_advances(toks, i);
                if let ParseResult::Parsed(path, j) = import_at(toks, i) {
                    law_supported_parse_never_panics(
                        toks,
                        j,
                        RinAstView {
                            imports: ast.imports.push(path),
                            modules: ast.modules,
                            procedures: ast.procedures,
                        },
                    );
                }
            },
            RinTokenView::Keyword(Keyword::Module) => {
                if let ParseResult::Parsed(name, j) = module_at(toks, i) {
                    law_supported_parse_never_panics(
                        toks,
                        j,
                        RinAstView {
                            imports: ast.imports,
                            modules: ast.modules.push(name),
                            procedures: ast.procedures,
                        },
                    );
                }
            },
            RinTokenView::Keyword(Keyword::Procedure) => {
                lemma_proc_no_panic(toks, i);
                lemma_proc_advances(toks, i);
                if let ParseResult::Parsed(p, j) = proc_at(toks, i) {
                    law_supported_parse_never_panics(
                        toks,
                        j,
                        RinAstView {
                            imports: ast.imports,
                            modules: ast.modules,
                            procedures: ast.procedures.push((p, loc)),
                        },
                    );
                }
            },
            _ => {},
        }
    }
}

/// Whether the tokens are [`supported`].
pub fn parse_supported(tokens: &Vec<WithLocation<RinToken>>) -> (r: bool)
    ensures
        r == supported(token_views(tokens@)),
{
    let ghost toks = token_views(tokens@);
    let n = tokens.len();
    let last = if n == 0 {
        0
    } else {
        n - 1
    };
    let mut i: usize = 0;
    while i < last
        invariant
            toks == token_views(tokens@),
            n == tokens@.len(),
            last == if n == 0 {
                0
            } else {
                n - 1
            },
            toks.len() == n,
            i <= n,
            forall|k: int|
                #![trigger toks[k], toks[k + 1]]
                0 <= k < i && k + 1 < toks.len() && toks[k].0 is Interger && toks[k + 1].0 is Type
                    ==> literal_of(toks[k].0->Interger_0, toks[k + 1].0->Type_0) is Some,
        decreases last - i,
    {
        match (&tokens[i].value, &tokens[i + 1].value) {
            (RinToken::Interger(_), RinToken::Type(p)) => {
                match p {
                    PrimitiveType::U64 | PrimitiveType::U32 | PrimitiveType::U16 | PrimitiveType::U8 => {},
                    _ => {
                        assert(toks[i as int] == tokens@[i as int]@);
                        assert(toks[i + 1] == tokens@[i + 1]@);
                        return false;
                    },
                }
            },
            _ => {},
        }
        assert(toks[i as int] == tokens@[i as int]@);
        assert(toks[i + 1] == tokens@[i + 1]@);
        i = i + 1;
    }
    if n > 0 {
        assert(toks.last() == tokens@[n - 1]@);
        match tokens[n - 1].value {
            RinToken::Keyword(Keyword::Import) => {
                return false;
            },
            _ => {},
        }
    }
    true
}

impl<'a> RinCompiler<'a> {
    /// The path that the file's procedures are placed under.
    pub closed spec fn owner(&self) -> Seq<Seq<char>> {
        self.owner_path@
    }

    /// The rasm text of the file read so far.
    pub fn generate(&self) -> (r: Result<String, generator::GeneratorError>)
        requires
            !(generator::gen_program(self.ast(), self.owner(), seq![]) is Panics),
        ensures
            match generator::gen_program(self.ast(), self.owner(), seq![]) {
                generator::GenResult::Generated(t) => r is Ok && r->Ok_0@ == t,
                generator::GenResult::Failed(e) => r is Err && r->Err_0@ == e,
                generator::GenResult::Panics => true,
            },
    {
        let generator = generator::Generator::new();
        let none: Vec<generator::ProcedureHeader> = Vec::new();
        assert(generator::headers_view(none@) =~= Seq::<generator::HeaderView>::empty());
        generator.generate(&self.program, self.owner_path, &none)
    }
}

} // verus!
