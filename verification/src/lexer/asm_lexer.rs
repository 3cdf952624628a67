use vstd::prelude::*;
use vstd::string::StringSliceAdditionalSpecFns;

use crate::chars::{
    alphabetic, bytes_as_chars, digit, is_alphabetic_byte, is_digit_byte, is_whitespace_byte,
    whitespace,
};
use crate::lexer::{
    advance, here, int_literal, lemma_advance_index, lemma_advance_step, lemma_advance_two,
    lemma_int_literal_progress, lemma_kept_all, lemma_prepend_tokens, lemma_run_end_bounds,
    lemma_string_literal_progress, matches_at, next_state, prepend_tokens, run_end,
    saved_here, string_literal, LexErrorView, LexState, LexerBase, LexerError, RunKind,
};
use crate::location::{LocationView, WithLocation};
use crate::token::asm_token::{
    attribute_from_name, instruction_from_name, keyword_from_name, ASMKeyword, ASMToken,
    ASMTokenView, AttributeToken, InstructionType,
};

verus! {

/// A token as plain values, with where it stands.
pub type ASMTokenAt = (ASMTokenView, LocationView);

/// What lexing a rasm source gives.
pub type ASMLexOutcome = Result<Seq<ASMTokenAt>, LexErrorView>;

/// The single-byte tokens: `,`, line break, `+`, brackets, braces and parentheses.
pub open spec fn single_byte_token(c: u8) -> Option<ASMTokenView> {
    if c == 44u8 {
        Some(ASMTokenView::Comma)
    } else if c == 10u8 {
        Some(ASMTokenView::NewLine)
    } else if c == 43u8 {
        Some(ASMTokenView::Plus)
    } else if c == 91u8 {
        Some(ASMTokenView::LBracket)
    } else if c == 93u8 {
        Some(ASMTokenView::RBracket)
    } else if c == 123u8 {
        Some(ASMTokenView::LCurly)
    } else if c == 125u8 {
        Some(ASMTokenView::RCurly)
    } else if c == 40u8 {
        Some(ASMTokenView::LRoundBracket)
    } else if c == 41u8 {
        Some(ASMTokenView::RRoundBracket)
    } else {
        None
    }
}

/// The tokens of the rasm source `b` (of file `file`) from state `st` on.
///
/// `//` starts a comment to the end of the line. A word (a letter, then
/// letters and digits) followed by `:` is a label; else a mnemonic, a
/// keyword or an identifier. `<...>` is a hashed name, `@word` an
/// attribute. Numbers and strings are literals. `->` is an arrow, `-` a
/// minus. Tokens carry the location last saved, which only number and
/// string literals (and errors) save.
pub open spec fn asm_lex(b: Seq<u8>, file: Seq<char>, st: LexState) -> ASMLexOutcome
    decreases b.len() - st.index,
    when 0 <= st.index <= b.len()
{
    if st.index >= b.len() {
        Ok(seq![])
    } else {
        let i = st.index;
        let v = b[i];
        let at = st.saved;
        if matches_at(b, i, seq![47u8, 47u8]) {
            let e = run_end(b, i, RunKind::NotNewline);
            proof {
                lemma_run_end_bounds(b, i, RunKind::NotNewline);
                lemma_advance_index(b, st, e);
            }
            asm_lex(b, file, advance(b, st, e))
        } else if is_alphabetic_byte(v) {
            let e = run_end(b, i, RunKind::Alphanumeric);
            let word = bytes_as_chars(b.subrange(i, e));
            let s1 = advance(b, st, e);
            proof {
                lemma_run_end_bounds(b, i, RunKind::Alphanumeric);
                lemma_advance_index(b, st, e);
            }
            if e < b.len() && b[e] == 58u8 {
                prepend_tokens(
                    seq![(ASMTokenView::Label(word), at)],
                    asm_lex(b, file, next_state(b, s1)),
                )
            } else if let Some(ins) = instruction_from_name(word) {
                prepend_tokens(seq![(ASMTokenView::Instruction(ins), at)], asm_lex(b, file, s1))
            } else if let Some(k) = keyword_from_name(word) {
                prepend_tokens(seq![(ASMTokenView::Keyword(k), at)], asm_lex(b, file, s1))
            } else {
                prepend_tokens(seq![(ASMTokenView::Identifier(word), at)], asm_lex(b, file, s1))
            }
        } else if v == 60u8 {
            let e = run_end(b, i + 1, RunKind::NotGreater);
            let name = bytes_as_chars(b.subrange(i + 1, e));
            let s1 = advance(b, st, e);
            proof {
                lemma_run_end_bounds(b, i + 1, RunKind::NotGreater);
                lemma_advance_index(b, st, e);
            }
            if e < b.len() {
                prepend_tokens(
                    seq![(ASMTokenView::HashName(name), at)],
                    asm_lex(b, file, next_state(b, s1)),
                )
            } else {
                Err(LexErrorView::ExpectedEndAngelBracket(None, at))
            }
        } else if v == 64u8 {
            let e = run_end(b, i + 1, RunKind::Alphanumeric);
            let name = bytes_as_chars(b.subrange(i + 1, e));
            let s1 = advance(b, st, e);
            proof {
                lemma_run_end_bounds(b, i + 1, RunKind::Alphanumeric);
                lemma_advance_index(b, st, e);
            }
            match attribute_from_name(name) {
                Some(a) => prepend_tokens(
                    seq![(ASMTokenView::Attribute(a), at)],
                    asm_lex(b, file, s1),
                ),
                None => Err(LexErrorView::InvalidAttribute(name, at)),
            }
        } else if is_digit_byte(v, 10) {
            proof {
                lemma_int_literal_progress(b, file, st);
            }
            match int_literal(b, file, st) {
                Ok((n, s1)) => prepend_tokens(
                    seq![(ASMTokenView::Interger(n), s1.saved)],
                    asm_lex(b, file, s1),
                ),
                Err(e) => Err(e),
            }
        } else if let Some(t) = single_byte_token(v) {
            prepend_tokens(seq![(t, at)], asm_lex(b, file, next_state(b, st)))
        } else if matches_at(b, i, seq![45u8, 62u8]) {
            prepend_tokens(
                seq![(ASMTokenView::Arrow, at)],
                asm_lex(b, file, next_state(b, next_state(b, st))),
            )
        } else if v == 45u8 {
            prepend_tokens(seq![(ASMTokenView::Minus, at)], asm_lex(b, file, next_state(b, st)))
        } else if v == 34u8 {
            proof {
                lemma_string_literal_progress(b, file, st);
            }
            match string_literal(b, file, st) {
                Ok((text, s1)) => prepend_tokens(
                    seq![(ASMTokenView::String(text), s1.saved)],
                    asm_lex(b, file, s1),
                ),
                Err(e) => Err(e),
            }
        } else if is_whitespace_byte(v) {
            asm_lex(b, file, next_state(b, st))
        } else {
            Err(LexErrorView::InvalidToken(seq![v as char], here(file, st)))
        }
    }
}

pub struct ASMLexer<'a> {
    base: LexerBase<'a, ASMToken>,
}

/// The views of a list of tokens.
pub open spec fn token_views(ts: Seq<WithLocation<ASMToken>>) -> Seq<ASMTokenAt> {
    ts.map_values(|t: WithLocation<ASMToken>| t@)
}

impl<'a> ASMLexer<'a> {
    /// The bytes of the source.
    pub closed spec fn source(&self) -> Seq<u8> {
        self.base.source()
    }

    /// The name of the source file.
    pub closed spec fn file_name(&self) -> Seq<char> {
        self.base.file_name()
    }

    /// Where the lexer stands.
    pub closed spec fn state(&self) -> LexState {
        self.base.state()
    }

    /// The lexer can read its whole source.
    pub closed spec fn wf(&self) -> bool {
        &&& self.base.wf()
        &&& self.base.tokens().len() == 0
    }

    pub fn new(buffer: &'a str, file: String) -> (r: ASMLexer<'a>)
        requires
            buffer.spec_bytes().len() + 2 < usize::MAX,
        ensures
            r.wf(),
            r.source() == buffer.spec_bytes(),
            r.file_name() == file@,
            r.state() == (LexState {
                index: 0,
                row: 0,
                column: 1,
                saved: LocationView { file: Seq::empty(), row: 0, column: 0 },
            }),
    {
        Self { base: LexerBase::new(buffer, file) }
    }

    fn push_token(&mut self, token: ASMToken)
        requires
            old(self).base.wf(),
        ensures
            final(self).base.wf(),
            final(self).base.source() == old(self).base.source(),
            final(self).base.file_name() == old(self).base.file_name(),
            final(self).base.state() == old(self).base.state(),
            token_views(final(self).base.tokens()) == token_views(old(self).base.tokens()).push(
                (token@, old(self).base.state().saved),
            ),
    {
        let ghost before = self.base.tokens();
        let ghost t = token;
        self.base.push(token);
        proof {
            let after = self.base.tokens();
            assert(after =~= before.push(after.last()));
            assert(token_views(after) =~= token_views(before).push(after.last()@));
        }
    }

    /// The tokens read so far followed by those of the rest of the source.
    pub closed spec fn pending(&self) -> ASMLexOutcome {
        prepend_tokens(
            token_views(self.base.tokens()),
            asm_lex(self.source(), self.file_name(), self.state()),
        )
    }

    pub fn tokenize(self) -> (r: Result<Vec<WithLocation<ASMToken>>, LexerError>)
        requires
            self.wf(),
        ensures
            r matches Ok(ts) ==> asm_lex(self.source(), self.file_name(), self.state()) == Ok::<
                Seq<ASMTokenAt>,
                LexErrorView,
            >(token_views(ts@)),
            r matches Err(e) ==> asm_lex(self.source(), self.file_name(), self.state()) == Err::<
                Seq<ASMTokenAt>,
                LexErrorView,
            >(e@),
    {
        let mut this = self;
        proof {
            assert(token_views(this.base.tokens()) =~= seq![]);
            assert(this.pending() == asm_lex(self.source(), self.file_name(), self.state()));
        }
        while this.base.peek(0).is_some()
            invariant
                this.base.wf(),
                this.source() == self.source(),
                this.file_name() == self.file_name(),
                this.pending() == asm_lex(self.source(), self.file_name(), self.state()),
            decreases this.source().len() - this.state().index,
        {
            this.step()?;
        }
        proof {
            assert(token_views(this.base.tokens()) + seq![] =~= token_views(this.base.tokens()));
        }
        Ok(this.base.into_tokens())
    }

    /// Reads the next token (or comment, or blank).
    fn step(&mut self) -> (r: Result<(), LexerError>)
        requires
            old(self).base.wf(),
            old(self).state().index < old(self).source().len(),
        ensures
            final(self).base.wf(),
            final(self).source() == old(self).source(),
            final(self).file_name() == old(self).file_name(),
            r is Ok ==> final(self).pending() == old(self).pending() && final(self).state().index
                > old(self).state().index,
            r matches Err(e) ==> old(self).pending() == Err::<Seq<ASMTokenAt>, LexErrorView>(e@),
    {
        let value = self.base.peek(0).unwrap();
        if self.base.peek_match2(47u8, 47u8) {
            self.skip_run(RunKind::NotNewline);
            return Ok(());
        }
        if alphabetic(value) {
            self.word();
            return Ok(());
        }
        if value == 60u8 {
            return self.hash_name();
        }
        if value == 64u8 {
            return self.attribute();
        }
        if digit(value) < 10 {
            return self.number();
        }
        let single = single_token(value);
        if single.is_some() {
            self.single(single.unwrap());
            return Ok(());
        }
        if self.base.peek_match2(45u8, 62u8) {
            self.arrow();
            return Ok(());
        }
        if value == 45u8 {
            self.single(ASMToken::Minus);
            return Ok(());
        }
        if value == 34u8 {
            return self.string();
        }
        if whitespace(value) {
            self.base.consume();
            return Ok(());
        }
        self.base.save_location();
        let c = self.base.consume().unwrap();
        let mut buffer = String::new();
        crate::text::string_push(&mut buffer, crate::chars::byte_char(c));
        Err(LexerError::InvalidToken(buffer, self.base.current_location()))
    }

    /// Skips a comment.
    fn skip_run(&mut self, kind: RunKind)
        requires
            old(self).base.wf(),
            old(self).state().index < old(self).source().len(),
            matches_at(old(self).source(), old(self).state().index, seq![47u8, 47u8]),
            kind == RunKind::NotNewline,
        ensures
            final(self).base.wf(),
            final(self).source() == old(self).source(),
            final(self).file_name() == old(self).file_name(),
            final(self).pending() == old(self).pending(),
            final(self).state().index > old(self).state().index,
    {
        let ghost b = self.source();
        let ghost i = self.state().index;
        proof {
            lemma_run_end_bounds(b, i, kind);
            lemma_advance_index(b, self.state(), run_end(b, i, kind));
            assert(b.subrange(i, i + 2)[0] == b[i]);
        }
        let mut comment = String::new();
        self.base.consume_while(&mut comment, kind);
    }

    /// Reads a label, mnemonic, keyword or identifier.
    fn word(&mut self)
        requires
            old(self).base.wf(),
            old(self).state().index < old(self).source().len(),
            !matches_at(old(self).source(), old(self).state().index, seq![47u8, 47u8]),
            is_alphabetic_byte(old(self).source()[old(self).state().index]),
        ensures
            final(self).base.wf(),
            final(self).source() == old(self).source(),
            final(self).file_name() == old(self).file_name(),
            final(self).pending() == old(self).pending(),
            final(self).state().index > old(self).state().index,
    {
        let ghost b = self.source();
        let ghost f = self.file_name();
        let ghost st = self.state();
        let ghost i = st.index;
        let ghost before = token_views(self.base.tokens());
        let mut buffer = String::new();
        self.base.consume_while(&mut buffer, RunKind::Alphanumeric);
        proof {
            lemma_run_end_bounds(b, i, RunKind::Alphanumeric);
            lemma_advance_index(b, st, run_end(b, i, RunKind::Alphanumeric));
            lemma_kept_all(
                b.subrange(i, run_end(b, i, RunKind::Alphanumeric)),
                RunKind::Alphanumeric,
            );
        }
        let ghost s1 = self.state();
        if self.base.peek(0) == Some(58u8) {
            self.base.consume();
            let ghost w = buffer@;
            self.push_token(ASMToken::Label(buffer));
            proof {
                lemma_prepend_tokens(
                    before,
                    (ASMTokenView::Label(w), st.saved),
                    asm_lex(b, f, next_state(b, s1)),
                );
            }
            return;
        }
        if let Ok(instruction_type) = InstructionType::from_str(buffer.as_str()) {
            self.push_token(ASMToken::Instruction(instruction_type));
            proof {
                lemma_prepend_tokens(
                    before,
                    (ASMTokenView::Instruction(instruction_type), st.saved),
                    asm_lex(b, f, s1),
                );
            }
            return;
        }
        if let Ok(keyword) = ASMKeyword::from_str(buffer.as_str()) {
            self.push_token(ASMToken::Keyword(keyword));
            proof {
                lemma_prepend_tokens(
                    before,
                    (ASMTokenView::Keyword(keyword), st.saved),
                    asm_lex(b, f, s1),
                );
            }
            return;
        }
        let ghost w = buffer@;
        self.push_token(ASMToken::Identifier(buffer));
        proof {
            lemma_prepend_tokens(before, (ASMTokenView::Identifier(w), st.saved), asm_lex(b, f, s1));
        }
    }

    /// Reads a hashed name `<...>`.
    fn hash_name(&mut self) -> (r: Result<(), LexerError>)
        requires
            old(self).base.wf(),
            old(self).state().index < old(self).source().len(),
            !matches_at(old(self).source(), old(self).state().index, seq![47u8, 47u8]),
            old(self).source()[old(self).state().index] == 60u8,
        ensures
            final(self).base.wf(),
            final(self).source() == old(self).source(),
            final(self).file_name() == old(self).file_name(),
            r is Ok ==> final(self).pending() == old(self).pending() && final(self).state().index
                > old(self).state().index,
            r matches Err(e) ==> old(self).pending() == Err::<Seq<ASMTokenAt>, LexErrorView>(e@),
    {
        let ghost b = self.source();
        let ghost f = self.file_name();
        let ghost st = self.state();
        let ghost i = st.index;
        let ghost before = token_views(self.base.tokens());
        self.base.consume();
        proof {
            lemma_run_end_bounds(b, i + 1, RunKind::NotGreater);
            lemma_advance_step(b, st, i);
            assert(advance(b, st, i) == st);
            lemma_advance_index(b, st, run_end(b, i + 1, RunKind::NotGreater));
            crate::lexer::lemma_advance_trans(b, st, i + 1, run_end(b, i + 1, RunKind::NotGreater));
        }
        let mut buffer = String::new();
        self.base.consume_while(&mut buffer, RunKind::NotGreater);
        proof {
            lemma_kept_all(
                b.subrange(i + 1, run_end(b, i + 1, RunKind::NotGreater)),
                RunKind::NotGreater,
            );
        }
        let ghost name = buffer@;
        self.push_token(ASMToken::HashName(buffer));
        if self.base.peek(0) == Some(62u8) {
            self.base.consume();
        } else {
            return Err(LexerError::ExpectedEndAngelBracket(None, self.base.current_location()));
        }
        proof {
            lemma_prepend_tokens(
                before,
                (ASMTokenView::HashName(name), st.saved),
                asm_lex(b, f, self.state()),
            );
        }
        Ok(())
    }

    /// Reads an attribute `@Name`.
    fn attribute(&mut self) -> (r: Result<(), LexerError>)
        requires
            old(self).base.wf(),
            old(self).state().index < old(self).source().len(),
            !matches_at(old(self).source(), old(self).state().index, seq![47u8, 47u8]),
            old(self).source()[old(self).state().index] == 64u8,
        ensures
            final(self).base.wf(),
            final(self).source() == old(self).source(),
            final(self).file_name() == old(self).file_name(),
            r is Ok ==> final(self).pending() == old(self).pending() && final(self).state().index
                > old(self).state().index,
            r matches Err(e) ==> old(self).pending() == Err::<Seq<ASMTokenAt>, LexErrorView>(e@),
    {
        let ghost b = self.source();
        let ghost f = self.file_name();
        let ghost st = self.state();
        let ghost i = st.index;
        let ghost before = token_views(self.base.tokens());
        self.base.consume();
        proof {
            lemma_run_end_bounds(b, i + 1, RunKind::Alphanumeric);
            lemma_advance_step(b, st, i);
            assert(advance(b, st, i) == st);
            lemma_advance_index(b, st, run_end(b, i + 1, RunKind::Alphanumeric));
            crate::lexer::lemma_advance_trans(
                b,
                st,
                i + 1,
                run_end(b, i + 1, RunKind::Alphanumeric),
            );
        }
        let mut buffer = String::new();
        self.base.consume_while(&mut buffer, RunKind::Alphanumeric);
        proof {
            lemma_kept_all(
                b.subrange(i + 1, run_end(b, i + 1, RunKind::Alphanumeric)),
                RunKind::Alphanumeric,
            );
        }
        match AttributeToken::from_str(buffer.as_str()) {
            Ok(attribute) => {
                self.push_token(ASMToken::Attribute(attribute));
                proof {
                    lemma_prepend_tokens(
                        before,
                        (ASMTokenView::Attribute(attribute), st.saved),
                        asm_lex(b, f, self.state()),
                    );
                }
                Ok(())
            },
            Err(_) => Err(LexerError::InvalidAttribute(buffer, self.base.current_location())),
        }
    }

    /// Reads a number literal.
    fn number(&mut self) -> (r: Result<(), LexerError>)
        requires
            old(self).base.wf(),
            old(self).state().index < old(self).source().len(),
            !matches_at(old(self).source(), old(self).state().index, seq![47u8, 47u8]),
            is_digit_byte(old(self).source()[old(self).state().index], 10),
        ensures
            final(self).base.wf(),
            final(self).source() == old(self).source(),
            final(self).file_name() == old(self).file_name(),
            r is Ok ==> final(self).pending() == old(self).pending() && final(self).state().index
                > old(self).state().index,
            r matches Err(e) ==> old(self).pending() == Err::<Seq<ASMTokenAt>, LexErrorView>(e@),
    {
        let ghost b = self.source();
        let ghost f = self.file_name();
        let ghost st = self.state();
        let ghost before = token_views(self.base.tokens());
        proof {
            lemma_int_literal_progress(b, f, st);
            assert(!is_alphabetic_byte(b[st.index]));
        }
        let ghost old_tokens = self.base.tokens();
        self.base.parse_interger()?;
        let ghost s1 = self.state();
        let ghost n = int_literal(b, f, st)->Ok_0.0;
        proof {
            let after = self.base.tokens();
            assert(after =~= old_tokens.push(after.last()));
            assert(token_views(after) =~= before.push(after.last()@));
            lemma_prepend_tokens(before, (ASMTokenView::Interger(n), s1.saved), asm_lex(b, f, s1));
        }
        Ok(())
    }

    /// Reads a string literal.
    fn string(&mut self) -> (r: Result<(), LexerError>)
        requires
            old(self).base.wf(),
            old(self).state().index < old(self).source().len(),
            old(self).source()[old(self).state().index] == 34u8,
        ensures
            final(self).base.wf(),
            final(self).source() == old(self).source(),
            final(self).file_name() == old(self).file_name(),
            r is Ok ==> final(self).pending() == old(self).pending() && final(self).state().index
                > old(self).state().index,
            r matches Err(e) ==> old(self).pending() == Err::<Seq<ASMTokenAt>, LexErrorView>(e@),
    {
        let ghost b = self.source();
        let ghost f = self.file_name();
        let ghost st = self.state();
        let ghost before = token_views(self.base.tokens());
        proof {
            lemma_string_literal_progress(b, f, st);
            assert(!matches_at(b, st.index, seq![47u8, 47u8])) by {
                if st.index + 2 <= b.len() {
                    assert(b.subrange(st.index, st.index + 2)[0] == b[st.index]);
                }
            }
            assert(!matches_at(b, st.index, seq![45u8, 62u8])) by {
                if st.index + 2 <= b.len() {
                    assert(b.subrange(st.index, st.index + 2)[0] == b[st.index]);
                }
            }
        }
        let ghost old_tokens = self.base.tokens();
        self.base.parse_string()?;
        let ghost s1 = self.state();
        let ghost tv = string_literal(b, f, st)->Ok_0.0;
        proof {
            let after = self.base.tokens();
            assert(after =~= old_tokens.push(after.last()));
            assert(token_views(after) =~= before.push(after.last()@));
            lemma_prepend_tokens(before, (ASMTokenView::String(tv), s1.saved), asm_lex(b, f, s1));
        }
        Ok(())
    }

    /// Reads a single-byte token (or `-`).
    fn single(&mut self, token: ASMToken)
        requires
            old(self).base.wf(),
            old(self).state().index < old(self).source().len(),
            !matches_at(old(self).source(), old(self).state().index, seq![47u8, 47u8]),
            ({
                let b = old(self).source();
                let i = old(self).state().index;
                &&& !is_alphabetic_byte(b[i])
                &&& b[i] != 60u8
                &&& b[i] != 64u8
                &&& !is_digit_byte(b[i], 10)
                &&& (single_byte_token(b[i]) == Some(token@) || (single_byte_token(b[i]) is None
                    && !matches_at(b, i, seq![45u8, 62u8]) && b[i] == 45u8 && token@
                    == ASMTokenView::Minus))
            }),
        ensures
            final(self).base.wf(),
            final(self).source() == old(self).source(),
            final(self).file_name() == old(self).file_name(),
            final(self).pending() == old(self).pending(),
            final(self).state().index > old(self).state().index,
    {
        let ghost b = self.source();
        let ghost f = self.file_name();
        let ghost st = self.state();
        let ghost before = token_views(self.base.tokens());
        let ghost tv = token@;
        self.base.consume();
        self.push_token(token);
        proof {
            lemma_prepend_tokens(before, (tv, st.saved), asm_lex(b, f, next_state(b, st)));
        }
    }

    /// Reads `->`.
    fn arrow(&mut self)
        requires
            old(self).base.wf(),
            old(self).state().index < old(self).source().len(),
            !matches_at(old(self).source(), old(self).state().index, seq![47u8, 47u8]),
            matches_at(old(self).source(), old(self).state().index, seq![45u8, 62u8]),
            single_byte_token(old(self).source()[old(self).state().index]) is None,
        ensures
            final(self).base.wf(),
            final(self).source() == old(self).source(),
            final(self).file_name() == old(self).file_name(),
            final(self).pending() == old(self).pending(),
            final(self).state().index > old(self).state().index,
    {
        let ghost b = self.source();
        let ghost f = self.file_name();
        let ghost st = self.state();
        let ghost before = token_views(self.base.tokens());
        proof {
            lemma_advance_two(b, st);
            assert(b.subrange(st.index, st.index + 2)[0] == b[st.index]);
        }
        self.base.consumes(2);
        self.push_token(ASMToken::Arrow);
        proof {
            lemma_prepend_tokens(
                before,
                (ASMTokenView::Arrow, st.saved),
                asm_lex(b, f, next_state(b, next_state(b, st))),
            );
        }
    }
}

/// The single-byte token that `c` is, if any.
fn single_token(c: u8) -> (r: Option<ASMToken>)
    ensures
        r is Some <==> single_byte_token(c) is Some,
        r matches Some(t) ==> single_byte_token(c) == Some(t@),
{
    if c == 44u8 {
        Some(ASMToken::Comma)
    } else if c == 10u8 {
        Some(ASMToken::NewLine)
    } else if c == 43u8 {
        Some(ASMToken::Plus)
    } else if c == 91u8 {
        Some(ASMToken::LBracket)
    } else if c == 93u8 {
        Some(ASMToken::RBracket)
    } else if c == 123u8 {
        Some(ASMToken::LCurly)
    } else if c == 125u8 {
        Some(ASMToken::RCurly)
    } else if c == 40u8 {
        Some(ASMToken::LRoundBracket)
    } else if c == 41u8 {
        Some(ASMToken::RRoundBracket)
    } else {
        None
    }
}

} // verus!
