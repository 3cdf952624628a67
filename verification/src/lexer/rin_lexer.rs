use vstd::prelude::*;
use vstd::string::StringSliceAdditionalSpecFns;

use crate::chars::{
    alphabetic, bytes_as_chars, digit, is_alphabetic_byte, is_digit_byte, is_whitespace_byte,
    whitespace,
};
use crate::lexer::{
    advance, here, int_literal, lemma_advance_index, lemma_advance_two,
    lemma_int_literal_progress, lemma_kept_all, lemma_prepend_tokens, lemma_run_end_bounds,
    lemma_string_literal_progress, matches_at, next_state, prepend_tokens, run_end,
    saved_here, string_literal, LexErrorView, LexState, LexerBase, LexerError, RunKind,
};
use crate::location::{LocationView, WithLocation};
use crate::token::rin_token::{
    keyword_from_name, primitive_type_from_name, Keyword, Operator, PrimitiveType, RinToken,
    RinTokenView,
};

verus! {

/// A token as plain values, with where it stands.
pub type RinTokenAt = (RinTokenView, LocationView);

/// What lexing a rin source gives.
pub type RinLexOutcome = Result<Seq<RinTokenAt>, LexErrorView>;

/// The single-byte tokens: punctuation, operators, `=`, braces and parentheses.
pub open spec fn single_byte_token(c: u8) -> Option<RinTokenView> {
    if c == 44u8 {
        Some(RinTokenView::Comma)
    } else if c == 59u8 {
        Some(RinTokenView::Semicolon)
    } else if c == 58u8 {
        Some(RinTokenView::Colon)
    } else if c == 46u8 {
        Some(RinTokenView::Dot)
    } else if c == 43u8 {
        Some(RinTokenView::Operator(Operator::Add))
    } else if c == 45u8 {
        Some(RinTokenView::Operator(Operator::Subtract))
    } else if c == 42u8 {
        Some(RinTokenView::Operator(Operator::Multiply))
    } else if c == 47u8 {
        Some(RinTokenView::Operator(Operator::Divide))
    } else if c == 61u8 {
        Some(RinTokenView::Equals)
    } else if c == 123u8 {
        Some(RinTokenView::LCurly)
    } else if c == 125u8 {
        Some(RinTokenView::RCurly)
    } else if c == 40u8 {
        Some(RinTokenView::LRoundBracket)
    } else if c == 41u8 {
        Some(RinTokenView::RRoundBracket)
    } else {
        None
    }
}

/// The token that a word is: a keyword, a primitive type or an identifier.
pub open spec fn word_token(word: Seq<char>) -> RinTokenView {
    if let Some(k) = keyword_from_name(word) {
        RinTokenView::Keyword(k)
    } else if let Some(t) = primitive_type_from_name(word) {
        RinTokenView::Type(t)
    } else {
        RinTokenView::Identifier(word)
    }
}

/// The tokens of the rin source `b` (of file `file`) from state `st` on.
///
/// `//` starts a comment to the end of the line; `->` is an arrow. A word
/// (a letter, then letters, digits and underscores) is a keyword, a type
/// or an identifier. Numbers and strings are literals; punctuation and
/// operators are tokens of one byte. Every token carries the location
/// where it starts.
pub open spec fn rin_lex(b: Seq<u8>, file: Seq<char>, st: LexState) -> RinLexOutcome
    decreases b.len() - st.index,
    when 0 <= st.index <= b.len()
{
    if st.index >= b.len() {
        Ok(seq![])
    } else {
        let i = st.index;
        let v = b[i];
        let at = here(file, st);
        if matches_at(b, i, seq![47u8, 47u8]) {
            let e = run_end(b, i, RunKind::NotNewline);
            proof {
                lemma_run_end_bounds(b, i, RunKind::NotNewline);
                lemma_advance_index(b, st, e);
            }
            rin_lex(b, file, advance(b, st, e))
        } else if matches_at(b, i, seq![45u8, 62u8]) {
            prepend_tokens(
                seq![(RinTokenView::Arrow, at)],
                rin_lex(b, file, next_state(b, next_state(b, saved_here(file, st)))),
            )
        } else if is_alphabetic_byte(v) {
            let e = run_end(b, i, RunKind::Identifier);
            let word = bytes_as_chars(b.subrange(i, e));
            let s1 = advance(b, saved_here(file, st), e);
            proof {
                lemma_run_end_bounds(b, i, RunKind::Identifier);
                lemma_advance_index(b, saved_here(file, st), e);
            }
            prepend_tokens(seq![(word_token(word), at)], rin_lex(b, file, s1))
        } else if is_digit_byte(v, 10) {
            proof {
                lemma_int_literal_progress(b, file, st);
            }
            match int_literal(b, file, st) {
                Ok((n, s1)) => prepend_tokens(
                    seq![(RinTokenView::Interger(n), s1.saved)],
                    rin_lex(b, file, s1),
                ),
                Err(e) => Err(e),
            }
        } else if let Some(t) = single_byte_token(v) {
            prepend_tokens(seq![(t, at)], rin_lex(b, file, next_state(b, saved_here(file, st))))
        } else if v == 34u8 {
            proof {
                lemma_string_literal_progress(b, file, st);
            }
            match string_literal(b, file, st) {
                Ok((text, s1)) => prepend_tokens(
                    seq![(RinTokenView::String(text), s1.saved)],
                    rin_lex(b, file, s1),
                ),
                Err(e) => Err(e),
            }
        } else if is_whitespace_byte(v) {
            rin_lex(b, file, next_state(b, st))
        } else {
            Err(LexErrorView::InvalidToken(seq![v as char], at))
        }
    }
}

pub struct RinLexer<'a> {
    base: LexerBase<'a, RinToken>,
}

/// The views of a list of tokens.
pub open spec fn token_views(ts: Seq<WithLocation<RinToken>>) -> Seq<RinTokenAt> {
    ts.map_values(|t: WithLocation<RinToken>| t@)
}

impl<'a> RinLexer<'a> {
    /// The bytes of the source.
    pub closed spec fn source(&self) -> Seq<u8> {
        self.base.source()
    }

    /// The name of the source file.
    pub closed spec fn file_name(&self) -> Seq<char> {
        self.base.file_name()
    }

    /// Where the lexer stands.
    pub closed spec fn state(&self) -> LexState {
        self.base.state()
    }

    /// The lexer can read its whole source.
    pub closed spec fn wf(&self) -> bool {
        &&& self.base.wf()
        &&& self.base.tokens().len() == 0
    }

    /// The tokens read so far followed by those of the rest of the source.
    pub closed spec fn pending(&self) -> RinLexOutcome {
        prepend_tokens(
            token_views(self.base.tokens()),
            rin_lex(self.source(), self.file_name(), self.state()),
        )
    }

    pub fn new(buffer: &'a str, file: String) -> (r: RinLexer<'a>)
        requires
            buffer.spec_bytes().len() + 2 < usize::MAX,
        ensures
            r.wf(),
            r.source() == buffer.spec_bytes(),
            r.file_name() == file@,
            r.state() == (LexState {
                index: 0,
                row: 0,
                column: 1,
                saved: LocationView { file: Seq::empty(), row: 0, column: 0 },
            }),
    {
        Self { base: LexerBase::new(buffer, file) }
    }

    fn push_token(&mut self, token: RinToken)
        requires
            old(self).base.wf(),
        ensures
            final(self).base.wf(),
            final(self).base.source() == old(self).base.source(),
            final(self).base.file_name() == old(self).base.file_name(),
            final(self).base.state() == old(self).base.state(),
            token_views(final(self).base.tokens()) == token_views(old(self).base.tokens()).push(
                (token@, old(self).base.state().saved),
            ),
    {
        let ghost before = self.base.tokens();
        self.base.push(token);
        proof {
            let after = self.base.tokens();
            assert(after =~= before.push(after.last()));
            assert(token_views(after) =~= token_views(before).push(after.last()@));
        }
    }

    pub fn tokenize(self) -> (r: Result<Vec<WithLocation<RinToken>>, LexerError>)
        requires
            self.wf(),
        ensures
            r matches Ok(ts) ==> rin_lex(self.source(), self.file_name(), self.state()) == Ok::<
                Seq<RinTokenAt>,
                LexErrorView,
            >(token_views(ts@)),
            r matches Err(e) ==> rin_lex(self.source(), self.file_name(), self.state()) == Err::<
                Seq<RinTokenAt>,
                LexErrorView,
            >(e@),
    {
        let mut this = self;
        proof {
            assert(token_views(this.base.tokens()) =~= seq![]);
            assert(this.pending() == rin_lex(self.source(), self.file_name(), self.state()));
        }
        while this.base.peek(0).is_some()
            invariant
                this.base.wf(),
                this.source() == self.source(),
                this.file_name() == self.file_name(),
                this.pending() == rin_lex(self.source(), self.file_name(), self.state()),
            decreases this.source().len() - this.state().index,
        {
            this.step()?;
        }
        proof {
            assert(token_views(this.base.tokens()) + seq![] =~= token_views(this.base.tokens()));
        }
        Ok(this.base.into_tokens())
    }

    /// Reads the next token (or comment, or blank).
    fn step(&mut self) -> (r: Result<(), LexerError>)
        requires
            old(self).base.wf(),
            old(self).state().index < old(self).source().len(),
        ensures
            final(self).base.wf(),
            final(self).source() == old(self).source(),
            final(self).file_name() == old(self).file_name(),
            r is Ok ==> final(self).pending() == old(self).pending() && final(self).state().index
                > old(self).state().index,
            r matches Err(e) ==> old(self).pending() == Err::<Seq<RinTokenAt>, LexErrorView>(e@),
    {
        let ghost b = self.source();
        let ghost f = self.file_name();
        let ghost st = self.state();
        let ghost i = st.index;
        let ghost before = token_views(self.base.tokens());
        let value = self.base.peek(0).unwrap();
        proof {
            if i + 2 <= b.len() {
                assert(b.subrange(i, i + 2)[0] == b[i]);
                assert(b.subrange(i, i + 2)[1] == b[i + 1]);
            }
        }
        if self.base.peek_match2(47u8, 47u8) {
            proof {
                lemma_run_end_bounds(b, i, RunKind::NotNewline);
                lemma_advance_index(b, st, run_end(b, i, RunKind::NotNewline));
            }
            let mut comment = String::new();
            self.base.consume_while(&mut comment, RunKind::NotNewline);
            return Ok(());
        }
        if self.base.peek_match2(45u8, 62u8) {
            self.base.save_location();
            proof {
                lemma_advance_two(b, saved_here(f, st));
            }
            self.base.consumes(2);
            self.push_token(RinToken::Arrow);
            proof {
                lemma_prepend_tokens(
                    before,
                    (RinTokenView::Arrow, here(f, st)),
                    rin_lex(b, f, self.state()),
                );
            }
            return Ok(());
        }
        if alphabetic(value) {
            self.word();
            return Ok(());
        }
        if digit(value) < 10 {
            proof {
                lemma_int_literal_progress(b, f, st);
            }
            let ghost old_tokens = self.base.tokens();
            self.base.parse_interger()?;
            let ghost s1 = self.state();
            proof {
                let n = int_literal(b, f, st)->Ok_0.0;
                let after = self.base.tokens();
                assert(after =~= old_tokens.push(after.last()));
                assert(token_views(after) =~= before.push(after.last()@));
                lemma_prepend_tokens(
                    before,
                    (RinTokenView::Interger(n), s1.saved),
                    rin_lex(b, f, s1),
                );
            }
            return Ok(());
        }
        let single = single_token(value);
        if single.is_some() {
            let token = single.unwrap();
            let ghost tv = token@;
            self.base.save_location();
            self.base.consume();
            self.push_token(token);
            proof {
                lemma_prepend_tokens(before, (tv, here(f, st)), rin_lex(b, f, self.state()));
            }
            return Ok(());
        }
        if value == 34u8 {
            proof {
                lemma_string_literal_progress(b, f, st);
            }
            let ghost old_tokens = self.base.tokens();
            self.base.parse_string()?;
            let ghost s1 = self.state();
            let ghost tv = string_literal(b, f, st)->Ok_0.0;
            proof {
                let after = self.base.tokens();
                assert(after =~= old_tokens.push(after.last()));
                assert(token_views(after) =~= before.push(after.last()@));
                lemma_prepend_tokens(before, (RinTokenView::String(tv), s1.saved), rin_lex(b, f, s1));
            }
            return Ok(());
        }
        if whitespace(value) {
            self.base.consume();
            return Ok(());
        }
        self.base.save_location();
        let c = self.base.consume().unwrap();
        let mut buffer = String::new();
        crate::text::string_push(&mut buffer, crate::chars::byte_char(c));
        Err(LexerError::InvalidToken(buffer, self.base.current_location()))
    }

    /// Reads a keyword, type name or identifier.
    fn word(&mut self)
        requires
            old(self).base.wf(),
            old(self).state().index < old(self).source().len(),
            !matches_at(old(self).source(), old(self).state().index, seq![47u8, 47u8]),
            !matches_at(old(self).source(), old(self).state().index, seq![45u8, 62u8]),
            is_alphabetic_byte(old(self).source()[old(self).state().index]),
        ensures
            final(self).base.wf(),
            final(self).source() == old(self).source(),
            final(self).file_name() == old(self).file_name(),
            final(self).pending() == old(self).pending(),
            final(self).state().index > old(self).state().index,
    {
        let ghost b = self.source();
        let ghost f = self.file_name();
        let ghost st = self.state();
        let ghost i = st.index;
        let ghost before = token_views(self.base.tokens());
        self.base.save_location();
        let mut buffer = String::new();
        self.base.consume_while(&mut buffer, RunKind::Identifier);
        proof {
            lemma_run_end_bounds(b, i, RunKind::Identifier);
            lemma_advance_index(b, saved_here(f, st), run_end(b, i, RunKind::Identifier));
            lemma_kept_all(b.subrange(i, run_end(b, i, RunKind::Identifier)), RunKind::Identifier);
        }
        let ghost s1 = self.state();
        let ghost w = buffer@;
        let token = if let Ok(keyword) = Keyword::from_str(buffer.as_str()) {
            RinToken::Keyword(keyword)
        } else if let Ok(primitive_type) = PrimitiveType::from_str(buffer.as_str()) {
            RinToken::Type(primitive_type)
        } else {
            RinToken::Identifier(buffer)
        };
        assert(token@ == word_token(w));
        self.push_token(token);
        proof {
            lemma_prepend_tokens(before, (word_token(w), here(f, st)), rin_lex(b, f, s1));
        }
    }
}

/// The single-byte token that `c` is, if any.
fn single_token(c: u8) -> (r: Option<RinToken>)
    ensures
        r is Some <==> single_byte_token(c) is Some,
        r matches Some(t) ==> single_byte_token(c) == Some(t@),
{
    if c == 44u8 {
        Some(RinToken::Comma)
    } else if c == 59u8 {
        Some(RinToken::Semicolon)
    } else if c == 58u8 {
        Some(RinToken::Colon)
    } else if c == 46u8 {
        Some(RinToken::Dot)
    } else if c == 43u8 {
        Some(RinToken::Operator(Operator::Add))
    } else if c == 45u8 {
        Some(RinToken::Operator(Operator::Subtract))
    } else if c == 42u8 {
        Some(RinToken::Operator(Operator::Multiply))
    } else if c == 47u8 {
        Some(RinToken::Operator(Operator::Divide))
    } else if c == 61u8 {
        Some(RinToken::Equals)
    } else if c == 123u8 {
        Some(RinToken::LCurly)
    } else if c == 125u8 {
        Some(RinToken::RCurly)
    } else if c == 40u8 {
        Some(RinToken::LRoundBracket)
    } else if c == 41u8 {
        Some(RinToken::RRoundBracket)
    } else {
        None
    }
}

} // verus!
