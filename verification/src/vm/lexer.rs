use vstd::prelude::*;
use vstd::string::StringSliceAdditionalSpecFns;

use crate::chars::{
    alphabetic, alphanumeric, byte_char, bytes_as_chars, digit, is_alphabetic_byte,
    is_alphanumeric_byte, is_digit_byte, is_whitespace_byte, whitespace,
};
use crate::text::{parse_radix, radix_value, string_push};
use crate::vm::token::{
    instruction_from_name, register_from_name, ASMToken, ASMTokenView, InstructionType,
    RegisterType,
};

verus! {

#[derive(Debug)]
pub enum LexerError {
    /// Text that starts no token; it holds the word read so far.
    InvalidToken(String),
}

/// What lexing a source gives: the tokens, or the text of the invalid token.
/// `None` stands for a number too large for 64 bits.
pub type LexOutcome = Option<Result<Seq<ASMTokenView>, Seq<char>>>;

/// The end of the run of alphanumeric bytes that starts at `i`.
pub open spec fn alphanumeric_run_end(b: Seq<u8>, i: int) -> int
    decreases b.len() - i,
{
    if 0 <= i < b.len() && is_alphanumeric_byte(b[i]) {
        alphanumeric_run_end(b, i + 1)
    } else {
        i
    }
}

/// The end of the run of decimal digits that starts at `i`.
pub open spec fn digit_run_end(b: Seq<u8>, i: int) -> int
    decreases b.len() - i,
{
    if 0 <= i < b.len() && is_digit_byte(b[i], 10) {
        digit_run_end(b, i + 1)
    } else {
        i
    }
}

/// `t` followed by the tokens of `rest`.
pub open spec fn prepend(t: ASMTokenView, rest: LexOutcome) -> LexOutcome {
    match rest {
        Some(Ok(ts)) => Some(Ok(seq![t] + ts)),
        other => other,
    }
}

/// `ts` followed by the tokens of `rest`.
pub open spec fn prepend_all(ts: Seq<ASMTokenView>, rest: LexOutcome) -> LexOutcome {
    match rest {
        Some(Ok(more)) => Some(Ok(ts + more)),
        other => other,
    }
}

/// The tokens of `b` from byte `i` on.
///
/// A word starts with a letter and goes on with letters and digits; followed
/// by `:` it is a label, else it must be a mnemonic or a register name. A
/// run of decimal digits is a number; `,` and a line break are tokens of
/// their own; other white space separates tokens.
pub open spec fn lex_from(b: Seq<u8>, i: int) -> LexOutcome
    decreases b.len() - i, 0int,
    when 0 <= i <= b.len()
{
    if i >= b.len() {
        Some(Ok(seq![]))
    } else {
        let v = b[i];
        proof {
            lemma_run_end_bounds(b, i + 1);
        }
        if is_alphabetic_byte(v) {
            let e = alphanumeric_run_end(b, i + 1);
            let word = bytes_as_chars(b.subrange(i, e));
            if e < b.len() && b[e] == 58u8 {
                prepend(ASMTokenView::Label(word), lex_from(b, e + 1))
            } else if let Some(ins) = instruction_from_name(word) {
                prepend(ASMTokenView::Instruction(ins), lex_from(b, e))
            } else if let Some(reg) = register_from_name(word) {
                prepend(ASMTokenView::Register(reg), lex_from(b, e))
            } else {
                Some(Err(word))
            }
        } else if is_digit_byte(v, 10) {
            let e = digit_run_end(b, i + 1);
            let n = radix_value(b.subrange(i, e), 10);
            if n > u64::MAX {
                None
            } else {
                prepend(ASMTokenView::Number(n as u64), lex_from(b, e))
            }
        } else if v == 44u8 {
            prepend(ASMTokenView::Comma, lex_from(b, i + 1))
        } else if v == 10u8 {
            prepend(ASMTokenView::NewLine, lex_from(b, i + 1))
        } else if is_whitespace_byte(v) {
            lex_from(b, i + 1)
        } else {
            Some(Err(seq![]))
        }
    }
}

pub struct Lexer<'a> {
    buffer: &'a str,
    index: usize,
}

proof fn lemma_prepend_all(ts: Seq<ASMTokenView>, t: ASMTokenView, rest: LexOutcome)
    ensures
        prepend_all(ts, prepend(t, rest)) == prepend_all(ts.push(t), rest),
{
    if let Some(Ok(more)) = rest {
        assert(ts + (seq![t] + more) =~= ts.push(t) + more);
    }
}

/// Runs end inside the source, no earlier than where they start.
pub proof fn lemma_run_end_bounds(b: Seq<u8>, i: int)
    requires
        0 <= i <= b.len(),
    ensures
        i <= alphanumeric_run_end(b, i) <= b.len(),
        i <= digit_run_end(b, i) <= b.len(),
    decreases b.len() - i,
{
    if i < b.len() {
        lemma_run_end_bounds(b, i + 1);
    }
}

impl<'a> Lexer<'a> {
    /// The bytes of the source.
    pub closed spec fn source(&self) -> Seq<u8> {
        self.buffer.spec_bytes()
    }

    /// The position of the next byte to read.
    pub closed spec fn position(&self) -> int {
        self.index as int
    }

    pub fn new(buffer: &'a str) -> (r: Lexer<'a>)
        ensures
            r.source() == buffer.spec_bytes(),
            r.position() == 0,
    {
        Self { buffer, index: 0 }
    }

    fn peek(&self, offset: usize) -> (r: Option<u8>)
        ensures
            r == (if self.index + offset < self.source().len() {
                Some(self.source()[self.index + offset])
            } else {
                None
            }),
    {
        let bytes = self.buffer.as_bytes();
        if offset < bytes.len() && self.index < bytes.len() - offset {
            Some(bytes[self.index + offset])
        } else {
            None
        }
    }

    fn consume(&mut self) -> (r: Option<u8>)
        ensures
            final(self).source() == old(self).source(),
            old(self).index < old(self).source().len() ==> r == Some(old(self).source()[old(
                self,
            ).index as int]) && final(self).index == old(self).index + 1,
            old(self).index >= old(self).source().len() ==> r is None && final(self).index == old(
                self,
            ).index,
    {
        let bytes = self.buffer.as_bytes();
        if self.index < bytes.len() {
            let byte = bytes[self.index];
            self.index = self.index + 1;
            Some(byte)
        } else {
            None
        }
    }

    /// Reads a word and, where it continues with more, its alphanumeric
    /// tail into `buffer`.
    fn consume_word(&mut self, buffer: &mut String)
        requires
            old(self).index < old(self).source().len(),
            old(buffer)@ == Seq::<char>::empty(),
        ensures
            final(self).source() == old(self).source(),
            final(self).index == alphanumeric_run_end(old(self).source(), old(self).index + 1),
            final(buffer)@ == bytes_as_chars(
                old(self).source().subrange(old(self).index as int, final(self).index as int),
            ),
    {
        let ghost b = self.source();
        let ghost start = self.index as int;
        proof {
            lemma_run_end_bounds(b, start + 1);
        }
        let first = self.consume().unwrap();
        string_push(buffer, byte_char(first));
        while self.peek(0).is_some() && alphanumeric(self.peek(0).unwrap())
            invariant
                self.source() == b,
                0 <= start < self.index <= b.len(),
                alphanumeric_run_end(b, self.index as int) == alphanumeric_run_end(b, start + 1),
                buffer@ == bytes_as_chars(b.subrange(start, self.index as int)),
            decreases b.len() - self.index,
        {
            let ghost idx0 = self.index;
            let c = self.consume().unwrap();
            string_push(buffer, byte_char(c));
            assert(b.subrange(start, idx0 + 1) =~= b.subrange(start, idx0 as int).push(c));
            assert(bytes_as_chars(b.subrange(start, self.index as int)) =~= bytes_as_chars(
                b.subrange(start, self.index - 1),
            ).push(c as char));
        }
    }

    /// Reads a run of decimal digits.
    fn consume_digits(&mut self) -> (r: Vec<u8>)
        requires
            old(self).index < old(self).source().len(),
            is_digit_byte(old(self).source()[old(self).index as int], 10),
        ensures
            crate::text::all_digits(r@, 10),
            final(self).source() == old(self).source(),
            final(self).index == digit_run_end(old(self).source(), old(self).index + 1),
            r@ == old(self).source().subrange(old(self).index as int, final(self).index as int),
    {
        let ghost b = self.source();
        let ghost start = self.index as int;
        proof {
            lemma_run_end_bounds(b, start + 1);
        }
        let mut digits: Vec<u8> = Vec::new();
        let first = self.consume().unwrap();
        digits.push(first);
        assert(digits@ =~= b.subrange(start, self.index as int));
        while self.peek(0).is_some() && digit(self.peek(0).unwrap()) < 10
            invariant
                self.source() == b,
                0 <= start < self.index <= b.len(),
                digit_run_end(b, self.index as int) == digit_run_end(b, start + 1),
                digits@ == b.subrange(start, self.index as int),
                crate::text::all_digits(digits@, 10),
            decreases b.len() - self.index,
        {
            let c = self.consume().unwrap();
            digits.push(c);
            assert(digits@ =~= b.subrange(start, self.index as int));
            assert(digits@.last() == c);
        }
        digits
    }

    /// The tokens of the rest of the buffer, or the invalid token; `None`
    /// where a number does not fit in 64 bits, on which `tokenize_asm`
    /// panics.
    pub fn tokenize_checked(self) -> (r: Option<Result<Vec<ASMToken>, LexerError>>)
        requires
            self.position() <= self.source().len(),
        ensures
            r is None <==> lex_from(self.source(), self.position()) is None,
            r matches Some(Ok(ts)) ==> lex_from(self.source(), self.position()) == Some(
                Ok::<Seq<ASMTokenView>, Seq<char>>(ts@.map_values(|t: ASMToken| t@)),
            ),
            r matches Some(Err(LexerError::InvalidToken(text))) ==> lex_from(
                self.source(),
                self.position(),
            ) == Some(Err::<Seq<ASMTokenView>, Seq<char>>(text@)),
    {
        let mut this = self;
        let ghost b = this.source();
        let ghost start = this.index as int;
        let mut tokens: Vec<ASMToken> = Vec::new();
        while this.peek(0).is_some()
            invariant
                this.source() == b,
                0 <= start <= this.index <= b.len(),
                b == self.source(),
                start == self.position(),
                lex_from(b, start) == prepend_all(
                    tokens@.map_values(|t: ASMToken| t@),
                    lex_from(b, this.index as int),
                ),
            decreases b.len() - this.index,
        {
            let ghost i = this.index as int;
            let ghost before = tokens@.map_values(|t: ASMToken| t@);
            let value = this.peek(0).unwrap();
            if alphabetic(value) {
                let mut buffer = String::new();
                this.consume_word(&mut buffer);
                let ghost e = this.index as int;
                proof {
                    lemma_run_end_bounds(b, i + 1);
                }
                if this.peek(0) == Some(58u8) {
                    this.consume();
                    tokens.push(ASMToken::Label(buffer));
                    proof {
                        lemma_prepend_all(before, tokens@.last()@, lex_from(b, e + 1));
                        assert(tokens@.map_values(|t: ASMToken| t@) =~= before.push(
                            tokens@.last()@,
                        ));
                    }
                    continue;
                }
                if let Ok(instruction_type) = InstructionType::from_str(buffer.as_str()) {
                    tokens.push(ASMToken::Instruction(instruction_type));
                    proof {
                        lemma_prepend_all(before, tokens@.last()@, lex_from(b, e));
                        assert(tokens@.map_values(|t: ASMToken| t@) =~= before.push(
                            tokens@.last()@,
                        ));
                    }
                    continue;
                }
                if let Ok(register_type) = RegisterType::from_str(buffer.as_str()) {
                    tokens.push(ASMToken::Register(register_type));
                    proof {
                        lemma_prepend_all(before, tokens@.last()@, lex_from(b, e));
                        assert(tokens@.map_values(|t: ASMToken| t@) =~= before.push(
                            tokens@.last()@,
                        ));
                    }
                    continue;
                }
                return Some(Err(LexerError::InvalidToken(buffer)));
            }
            if digit(value) < 10 {
                let digits = this.consume_digits();
                proof {
                    lemma_run_end_bounds(b, i + 1);
                }
                let ghost e = this.index as int;
                let number = match parse_radix(digits.as_slice(), 10) {
                    Some(n) => n,
                    None => return None,
                };
                tokens.push(ASMToken::Number(number));
                proof {
                    lemma_prepend_all(before, tokens@.last()@, lex_from(b, e));
                    assert(tokens@.map_values(|t: ASMToken| t@) =~= before.push(tokens@.last()@));
                }
                continue;
            }
            if value == 44u8 {
                this.consume();
                tokens.push(ASMToken::Comma);
                proof {
                    lemma_prepend_all(before, tokens@.last()@, lex_from(b, i + 1));
                    assert(tokens@.map_values(|t: ASMToken| t@) =~= before.push(tokens@.last()@));
                }
                continue;
            }
            if value == 10u8 {
                this.consume();
                tokens.push(ASMToken::NewLine);
                proof {
                    lemma_prepend_all(before, tokens@.last()@, lex_from(b, i + 1));
                    assert(tokens@.map_values(|t: ASMToken| t@) =~= before.push(tokens@.last()@));
                }
                continue;
            }
            if whitespace(value) {
                this.consume();
                continue;
            }
            return Some(Err(LexerError::InvalidToken(String::new())));
        }
        assert(prepend_all(tokens@.map_values(|t: ASMToken| t@), Some(Ok(seq![]))) == Some(
            Ok::<Seq<ASMTokenView>, Seq<char>>(tokens@.map_values(|t: ASMToken| t@)),
        )) by {
            assert(tokens@.map_values(|t: ASMToken| t@) + seq![] =~= tokens@.map_values(
                |t: ASMToken| t@,
            ));
        }
        Some(Ok(tokens))
    }

    pub fn tokenize_asm(self) -> (r: Result<Vec<ASMToken>, LexerError>)
        requires
            self.position() <= self.source().len(),
            lex_from(self.source(), self.position()) is Some,
        ensures
            r matches Ok(ts) ==> lex_from(self.source(), self.position()) == Some(
                Ok::<Seq<ASMTokenView>, Seq<char>>(ts@.map_values(|t: ASMToken| t@)),
            ),
            r matches Err(LexerError::InvalidToken(text)) ==> lex_from(
                self.source(),
                self.position(),
            ) == Some(Err::<Seq<ASMTokenView>, Seq<char>>(text@)),
    {
        match self.tokenize_checked() {
            Some(r) => r,
            None => Ok(Vec::new()),
        }
    }
}

} // verus!
