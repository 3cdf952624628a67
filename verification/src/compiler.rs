//! The parsers and compilers of the two source languages and the token
//! reader they share.

use vstd::prelude::*;

use crate::location::{Location, LocationView, WithLocation};
use crate::token::Token;

pub mod argument_parser;
pub mod asm_compiler;
pub mod rin_compiler;

verus! {

#[derive(Debug)]
pub enum CompilerError<T> {
    UnexpectedToken(Option<WithLocation<T>>),
    UndefinedLabel(String, Location),
    MultipleLabel(String, Location),
    InvalidArgument(Location),
}

/// A compiler error as plain values.
pub enum CompileErrorView<V> {
    UnexpectedToken(Option<(V, LocationView)>),
    UndefinedLabel(Seq<char>, LocationView),
    MultipleLabel(Seq<char>, LocationView),
    InvalidArgument(LocationView),
}

impl<T: View> View for CompilerError<T> {
    type V = CompileErrorView<T::V>;

    open spec fn view(&self) -> CompileErrorView<T::V> {
        match self {
            CompilerError::UnexpectedToken(t) => CompileErrorView::UnexpectedToken(
                match t {
                    Some(t) => Some(t@),
                    None => None,
                },
            ),
            CompilerError::UndefinedLabel(s, l) => CompileErrorView::UndefinedLabel(s@, l@),
            CompilerError::MultipleLabel(s, l) => CompileErrorView::MultipleLabel(s@, l@),
            CompilerError::InvalidArgument(l) => CompileErrorView::InvalidArgument(l@),
        }
    }
}

/// The views of a list of tokens.
pub open spec fn token_views<T: View>(ts: Seq<WithLocation<T>>) -> Seq<(T::V, LocationView)> {
    ts.map_values(|t: WithLocation<T>| t@)
}

/// The token at `i`, if there is one.
pub open spec fn token_at<V>(toks: Seq<(V, LocationView)>, i: int) -> Option<(V, LocationView)> {
    if 0 <= i < toks.len() {
        Some(toks[i])
    } else {
        None
    }
}

/// The error for the token at `i`: it is not what was expected.
pub open spec fn unexpected_at<V>(toks: Seq<(V, LocationView)>, i: int) -> CompileErrorView<V> {
    CompileErrorView::UnexpectedToken(token_at(toks, i))
}

/// Expecting token `expected` at `i`: the index after it.
pub open spec fn expect_at<V>(toks: Seq<(V, LocationView)>, i: int, expected: V) -> Result<
    int,
    CompileErrorView<V>,
> {
    if 0 <= i < toks.len() && toks[i].0 == expected {
        Ok(i + 1)
    } else {
        Err(unexpected_at(toks, i))
    }
}

/// A list of tokens and the position of the next one to read.
pub struct CompilerBase<T> {
    tokens: Vec<WithLocation<T>>,
    index: usize,
}

impl<T: Token> CompilerBase<T> {
    /// The tokens as plain values.
    pub closed spec fn toks(&self) -> Seq<(T::V, LocationView)> {
        token_views(self.tokens@)
    }

    /// The position of the next token.
    pub closed spec fn pos(&self) -> int {
        self.index as int
    }

    pub fn new(tokens: Vec<WithLocation<T>>) -> (r: CompilerBase<T>)
        ensures
            r.toks() == token_views(tokens@),
            r.pos() == 0,
    {
        Self { tokens, index: 0 }
    }

    /// The token `offset` places after the next one.
    pub fn peek(&self, offset: usize) -> (r: Option<&WithLocation<T>>)
        ensures
            r matches Some(t) ==> token_at(self.toks(), self.pos() + offset) == Some(t@),
            r is None <==> token_at(self.toks(), self.pos() + offset) is None,
    {
        if offset < self.tokens.len() && self.index < self.tokens.len() - offset {
            Some(&self.tokens[self.index + offset])
        } else {
            None
        }
    }

    /// A copy of the token `offset` places after the next one.
    pub fn peek_owned(&self, offset: usize) -> (r: Option<WithLocation<T>>)
        ensures
            r matches Some(t) ==> token_at(self.toks(), self.pos() + offset) == Some(t@),
            r is None <==> token_at(self.toks(), self.pos() + offset) is None,
    {
        match self.peek(offset) {
            Some(t) => Some(WithLocation::new(t.value().copy_token(), t.location().clone())),
            None => None,
        }
    }

    /// Reads the next token.
    pub fn consume(&mut self) -> (r: Option<&WithLocation<T>>)
        ensures
            final(self).toks() == old(self).toks(),
            r matches Some(t) ==> token_at(old(self).toks(), old(self).pos()) == Some(t@)
                && final(self).pos() == old(self).pos() + 1,
            r is None ==> token_at(old(self).toks(), old(self).pos()) is None && final(self).pos()
                == old(self).pos(),
    {
        if self.index < self.tokens.len() {
            let i = self.index;
            self.index = self.index + 1;
            Some(&self.tokens[i])
        } else {
            None
        }
    }

    /// Moves past the next token, if there is one.
    pub fn skip(&mut self)
        ensures
            final(self).toks() == old(self).toks(),
            final(self).pos() == if old(self).pos() < old(self).toks().len() {
                old(self).pos() + 1
            } else {
                old(self).pos()
            },
    {
        if self.index < self.tokens.len() {
            self.index = self.index + 1;
        }
    }

    /// The error for the next token: it is not what was expected.
    pub fn unexpected(&self) -> (r: CompilerError<T>)
        ensures
            r@ == unexpected_at(self.toks(), self.pos()),
    {
        CompilerError::UnexpectedToken(self.peek_owned(0))
    }

    /// Reads the next token, which must be `expected`; its location.
    pub fn expect_token(&mut self, expected: T) -> (r: Result<&Location, CompilerError<T>>)
        ensures
            final(self).toks() == old(self).toks(),
            expect_at(old(self).toks(), old(self).pos(), expected@) matches Ok(n) ==> r is Ok
                && final(self).pos() == n && r->Ok_0@ == old(self).toks()[old(self).pos()].1,
            expect_at(old(self).toks(), old(self).pos(), expected@) matches Err(e) ==> r is Err
                && r->Err_0@ == e && final(self).pos() == old(self).pos(),
    {
        if self.index >= self.tokens.len() {
            return Err(CompilerError::UnexpectedToken(None));
        }
        let i = self.index;
        if self.tokens[i].value().same_token(&expected) {
            self.index = self.index + 1;
            Ok(self.tokens[i].location())
        } else {
            Err(self.unexpected())
        }
    }
}

} // verus!
