//! The lexers of the two source languages and the machinery they share:
//! reading bytes while keeping track of the position, runs of characters,
//! number literals and string literals.

use vstd::prelude::*;
use vstd::string::StringSliceAdditionalSpecFns;

use crate::chars::{
    digit_value,
    alphanumeric, byte_char, bytes_as_chars, digit, is_alphanumeric_byte, is_digit_byte,
    is_whitespace_byte, whitespace,
};
use crate::location::{Location, LocationView, WithLocation};
use crate::text::{parse_radix, radix_value, string_push};
use crate::token::Token;

pub mod asm_lexer;
pub mod rin_lexer;

verus! {

/// Why a number literal could not be read.
#[derive(Debug, Clone, Copy, PartialEq, Eq, Structural)]
pub enum IntErrorKind {
    /// No digits after the base prefix.
    Empty,
    /// The number does not fit in 64 bits.
    PosOverflow,
}

#[derive(Debug)]
pub enum LexerError {
    InvalidToken(String, Location),
    InvalidInterger(IntErrorKind),
    InvalidEscapeSequence(String, Location),
    ExpectedEndDoubleQuote(Option<char>, Location),
    ExpectedEndAngelBracket(Option<char>, Location),
    InvalidAttribute(String, Location),
    EndOfBuffer,
}

/// A lexer error as plain values.
pub enum LexErrorView {
    InvalidToken(Seq<char>, LocationView),
    InvalidInterger(IntErrorKind),
    InvalidEscapeSequence(Seq<char>, LocationView),
    ExpectedEndDoubleQuote(Option<char>, LocationView),
    ExpectedEndAngelBracket(Option<char>, LocationView),
    InvalidAttribute(Seq<char>, LocationView),
    EndOfBuffer,
}

impl View for LexerError {
    type V = LexErrorView;

    open spec fn view(&self) -> LexErrorView {
        match self {
            LexerError::InvalidToken(s, l) => LexErrorView::InvalidToken(s@, l@),
            LexerError::InvalidInterger(k) => LexErrorView::InvalidInterger(*k),
            LexerError::InvalidEscapeSequence(s, l) => LexErrorView::InvalidEscapeSequence(s@, l@),
            LexerError::ExpectedEndDoubleQuote(c, l) => LexErrorView::ExpectedEndDoubleQuote(*c, l@),
            LexerError::ExpectedEndAngelBracket(c, l) => LexErrorView::ExpectedEndAngelBracket(
                *c,
                l@,
            ),
            LexerError::InvalidAttribute(s, l) => LexErrorView::InvalidAttribute(s@, l@),
            LexerError::EndOfBuffer => LexErrorView::EndOfBuffer,
        }
    }
}

/// Where a lexer stands: the next byte, the position in the line (`row`),
/// the line (`column`) and the location it last saved for tokens.
pub struct LexState {
    pub index: int,
    pub row: int,
    pub column: int,
    pub saved: LocationView,
}

/// The state after reading the byte at the current index.
pub open spec fn next_state(b: Seq<u8>, st: LexState) -> LexState {
    if b[st.index] == 10u8 {
        LexState { index: st.index + 1, row: 1, column: st.column + 1, ..st }
    } else {
        LexState { index: st.index + 1, row: st.row + 1, ..st }
    }
}

/// The state after reading bytes up to index `e`.
pub open spec fn advance(b: Seq<u8>, st: LexState, e: int) -> LexState
    decreases e - st.index,
{
    if st.index < e && st.index < b.len() {
        advance(b, next_state(b, st), e)
    } else {
        st
    }
}

/// The location of the current position.
pub open spec fn here(file: Seq<char>, st: LexState) -> LocationView {
    LocationView { file: file, row: st.row as nat, column: st.column as nat }
}

/// `st` with its current position saved for the tokens to come.
pub open spec fn saved_here(file: Seq<char>, st: LexState) -> LexState {
    LexState { saved: here(file, st), ..st }
}

/// The kinds of character runs the lexers read.
#[derive(Clone, Copy)]
pub enum RunKind {
    Alphanumeric,
    Identifier,
    NotNewline,
    NotGreater,
    Digits(u64),
    PlainString,
    TripleString,
    Blank,
}

/// Whether byte `c` continues a run of `kind`.
pub open spec fn in_run(kind: RunKind, c: u8) -> bool {
    match kind {
        RunKind::Alphanumeric => is_alphanumeric_byte(c),
        RunKind::Identifier => is_alphanumeric_byte(c) || c == 95u8,
        RunKind::NotNewline => c != 10u8,
        RunKind::NotGreater => c != 62u8,
        RunKind::Digits(radix) => is_digit_byte(c, radix as nat) || c == 95u8,
        RunKind::PlainString => c != 92u8 && c != 34u8 && c != 10u8,
        RunKind::TripleString => c != 92u8 && c != 34u8,
        RunKind::Blank => is_whitespace_byte(c) || c == 10u8,
    }
}

/// Whether byte `c` of a run of `kind` is left out of the text read
/// (the underscores between digits).
pub open spec fn ignored(kind: RunKind, c: u8) -> bool {
    kind is Digits && c == 95u8
}

/// The end of the run of `kind` that starts at `i`.
pub open spec fn run_end(b: Seq<u8>, i: int, kind: RunKind) -> int
    decreases b.len() - i,
{
    if 0 <= i < b.len() && in_run(kind, b[i]) {
        run_end(b, i + 1, kind)
    } else {
        i
    }
}

/// A run ends inside the source, no earlier than where it starts.
pub proof fn lemma_run_end_bounds(b: Seq<u8>, i: int, kind: RunKind)
    requires
        0 <= i <= b.len(),
    ensures
        i <= run_end(b, i, kind) <= b.len(),
        forall|k: int| i <= k < run_end(b, i, kind) ==> #[trigger] in_run(kind, b[k]),
        run_end(b, i, kind) < b.len() ==> !in_run(kind, b[run_end(b, i, kind)]),
    decreases b.len() - i,
{
    if i < b.len() && in_run(kind, b[i]) {
        lemma_run_end_bounds(b, i + 1, kind);
    }
}

/// Advancing to an index inside the source gets there, and only the
/// position changes, not the saved location.
pub proof fn lemma_advance_index(b: Seq<u8>, st: LexState, e: int)
    requires
        st.index <= e <= b.len(),
    ensures
        advance(b, st, e).index == e,
        advance(b, st, e).saved == st.saved,
    decreases e - st.index,
{
    if st.index < e {
        lemma_advance_index(b, next_state(b, st), e);
    }
}

/// The bytes of a run of `kind` that the text keeps.
pub open spec fn kept(s: Seq<u8>, kind: RunKind) -> Seq<u8>
    decreases s.len(),
{
    if s.len() == 0 {
        s
    } else if ignored(kind, s.last()) {
        kept(s.drop_last(), kind)
    } else {
        kept(s.drop_last(), kind).push(s.last())
    }
}

/// Whether the bytes at `i` spell `pattern`.
pub open spec fn matches_at(b: Seq<u8>, i: int, pattern: Seq<u8>) -> bool {
    &&& 0 <= i
    &&& i + pattern.len() <= b.len()
    &&& b.subrange(i, i + pattern.len()) == pattern
}

/// The character that the escape `\c` stands for, if it is one.
pub open spec fn escape_char(c: u8) -> Option<char> {
    if c == 98u8 {
        Some('\u{08}')
    } else if c == 116u8 {
        Some('\u{09}')
    } else if c == 110u8 {
        Some('\u{0A}')
    } else if c == 102u8 {
        Some('\u{0C}')
    } else if c == 114u8 {
        Some('\u{0D}')
    } else if c == 34u8 {
        Some('\u{22}')
    } else if c == 48u8 {
        Some('\u{0}')
    } else if c == 92u8 {
        Some('\u{5C}')
    } else {
        None
    }
}

/// A number literal at `st.index` (which holds a decimal digit): its value
/// and the state after it. `0x`, `0o` and `0b` give hexadecimal, octal and
/// binary; underscores between digits are left out.
pub open spec fn int_literal(b: Seq<u8>, file: Seq<char>, st: LexState) -> Result<
    (u64, LexState),
    LexErrorView,
> {
    let s0 = saved_here(file, st);
    let i = st.index;
    let (radix, from) = if matches_at(b, i, seq![48u8, 120u8]) {
        (16u64, i + 2)
    } else if matches_at(b, i, seq![48u8, 111u8]) {
        (8u64, i + 2)
    } else if matches_at(b, i, seq![48u8, 98u8]) {
        (2u64, i + 2)
    } else {
        (10u64, i + 1)
    };
    let e = run_end(b, from, RunKind::Digits(radix));
    let digits = if radix == 10 {
        seq![b[i]] + kept(b.subrange(i + 1, e), RunKind::Digits(10))
    } else {
        kept(b.subrange(from, e), RunKind::Digits(radix))
    };
    if digits.len() == 0 {
        Err(LexErrorView::InvalidInterger(IntErrorKind::Empty))
    } else if radix_value(digits, radix as nat) > u64::MAX {
        Err(LexErrorView::InvalidInterger(IntErrorKind::PosOverflow))
    } else {
        Ok((radix_value(digits, radix as nat) as u64, advance(b, s0, e)))
    }
}

/// The rest of a `"""`-quoted string from `st`, with `buf` read so far.
pub open spec fn triple_body(b: Seq<u8>, st: LexState, buf: Seq<char>) -> Result<
    (Seq<char>, LexState),
    LexErrorView,
>
    decreases b.len() - st.index,
    when 0 <= st.index <= b.len()
{
    let e = run_end(b, st.index, RunKind::TripleString);
    let buf1 = buf + bytes_as_chars(b.subrange(st.index, e));
    let s1 = advance(b, st, e);
    proof {
        lemma_run_end_bounds(b, st.index, RunKind::TripleString);
        lemma_advance_index(b, st, e);
        if e + 2 <= b.len() {
            lemma_run_end_bounds(b, e + 2, RunKind::Blank);
            lemma_advance_index(
                b,
                next_state(b, next_state(b, s1)),
                run_end(b, e + 2, RunKind::Blank),
            );
        }
    }
    if matches_at(b, e, seq![34u8, 34u8, 34u8]) {
        let (buf2, s2) = if e + 3 < b.len() && b[e + 3] == 34u8 {
            (buf1.push('"'), next_state(b, s1))
        } else {
            (buf1, s1)
        };
        let (buf3, s3) = if s2.index + 3 < b.len() && b[s2.index + 3] == 34u8 {
            (buf2.push('"'), next_state(b, s2))
        } else {
            (buf2, s2)
        };
        Ok((buf3, advance(b, s3, s3.index + 3)))
    } else if e < b.len() && b[e] == 92u8 {
        if e + 1 >= b.len() {
            Err(LexErrorView::EndOfBuffer)
        } else {
            let s3 = next_state(b, next_state(b, s1));
            match escape_char(b[e + 1]) {
                Some(ch) => triple_body(b, s3, buf1.push(ch)),
                None => triple_body(
                    b,
                    advance(b, s3, run_end(b, e + 2, RunKind::Blank)),
                    buf1,
                ),
            }
        }
    } else if e < b.len() {
        if e + 1 < b.len() && b[e + 1] == 34u8 {
            triple_body(b, next_state(b, next_state(b, s1)), buf1 + seq!['"', '"'])
        } else {
            triple_body(b, next_state(b, s1), buf1.push('"'))
        }
    } else {
        Ok((buf1, s1))
    }
}

/// The rest of a `"`-quoted string from `st`, with `buf` read so far.
pub open spec fn string_body(b: Seq<u8>, file: Seq<char>, st: LexState, buf: Seq<char>) -> Result<
    (Seq<char>, LexState),
    LexErrorView,
>
    decreases b.len() - st.index,
    when 0 <= st.index <= b.len()
{
    let e = run_end(b, st.index, RunKind::PlainString);
    let buf1 = buf + bytes_as_chars(b.subrange(st.index, e));
    let s1 = advance(b, st, e);
    proof {
        lemma_run_end_bounds(b, st.index, RunKind::PlainString);
        lemma_advance_index(b, st, e);
    }
    if e + 1 < b.len() && b[e] == 34u8 && b[e + 1] == 34u8 {
        let s2 = next_state(b, next_state(b, s1));
        let s3 = if e + 2 < b.len() && b[e + 2] == 10u8 {
            next_state(b, s2)
        } else {
            s2
        };
        triple_body(b, s3, buf1)
    } else if e < b.len() && b[e] == 10u8 {
        Err(LexErrorView::ExpectedEndDoubleQuote(Some('\n'), s1.saved))
    } else if e < b.len() && b[e] == 92u8 {
        if e + 1 >= b.len() {
            Err(LexErrorView::EndOfBuffer)
        } else {
            let s3 = next_state(b, next_state(b, s1));
            match escape_char(b[e + 1]) {
                Some(ch) => string_body(b, file, s3, buf1.push(ch)),
                None => Err(
                    LexErrorView::InvalidEscapeSequence(
                        seq!['\\', b[e + 1] as char],
                        here(file, s1),
                    ),
                ),
            }
        }
    } else if e < b.len() {
        Ok((buf1, next_state(b, s1)))
    } else {
        Err(LexErrorView::ExpectedEndDoubleQuote(None, s1.saved))
    }
}

/// A string literal at `st.index` (which holds `"`): its text and the state
/// after it.
pub open spec fn string_literal(b: Seq<u8>, file: Seq<char>, st: LexState) -> Result<
    (Seq<char>, LexState),
    LexErrorView,
> {
    string_body(b, file, next_state(b, saved_here(file, st)), seq![])
}

/// `ts` followed by the tokens of `rest`.
pub open spec fn prepend_tokens<V>(ts: Seq<V>, rest: Result<Seq<V>, LexErrorView>) -> Result<
    Seq<V>,
    LexErrorView,
> {
    match rest {
        Ok(more) => Ok(ts + more),
        Err(e) => Err(e),
    }
}

/// Prepending tokens one at a time is prepending them all at once.
pub proof fn lemma_prepend_tokens<V>(ts: Seq<V>, t: V, rest: Result<Seq<V>, LexErrorView>)
    ensures
        prepend_tokens(ts, prepend_tokens(seq![t], rest)) == prepend_tokens(ts.push(t), rest),
{
    if let Ok(more) = rest {
        assert(ts + (seq![t] + more) =~= ts.push(t) + more);
    }
}

/// Reading past a number literal moves forward and stays inside the source.
pub proof fn lemma_int_literal_progress(b: Seq<u8>, file: Seq<char>, st: LexState)
    requires
        0 <= st.index < b.len(),
    ensures
        int_literal(b, file, st) matches Ok((v, s)) ==> st.index < s.index <= b.len(),
{
    let i = st.index;
    let s0 = saved_here(file, st);
    if matches_at(b, i, seq![48u8, 120u8]) || matches_at(b, i, seq![48u8, 111u8])
        || matches_at(b, i, seq![48u8, 98u8]) {
        lemma_run_end_bounds(b, i + 2, RunKind::Digits(16));
        lemma_run_end_bounds(b, i + 2, RunKind::Digits(8));
        lemma_run_end_bounds(b, i + 2, RunKind::Digits(2));
        lemma_advance_index(b, s0, run_end(b, i + 2, RunKind::Digits(16)));
        lemma_advance_index(b, s0, run_end(b, i + 2, RunKind::Digits(8)));
        lemma_advance_index(b, s0, run_end(b, i + 2, RunKind::Digits(2)));
    } else {
        lemma_run_end_bounds(b, i + 1, RunKind::Digits(10));
        lemma_advance_index(b, s0, run_end(b, i + 1, RunKind::Digits(10)));
    }
}

/// Reading the rest of a `"""`-string moves forward and stays inside the source.
pub proof fn lemma_triple_body_progress(b: Seq<u8>, st: LexState, buf: Seq<char>)
    requires
        0 <= st.index <= b.len(),
    ensures
        triple_body(b, st, buf) matches Ok((t, s)) ==> st.index <= s.index <= b.len(),
    decreases b.len() - st.index,
{
    let e = run_end(b, st.index, RunKind::TripleString);
    lemma_run_end_bounds(b, st.index, RunKind::TripleString);
    lemma_advance_index(b, st, e);
    let s1 = advance(b, st, e);
    let buf1 = buf + bytes_as_chars(b.subrange(st.index, e));
    if matches_at(b, e, seq![34u8, 34u8, 34u8]) {
        let (buf2, s2) = if e + 3 < b.len() && b[e + 3] == 34u8 {
            (buf1.push('"'), next_state(b, s1))
        } else {
            (buf1, s1)
        };
        let (buf3, s3) = if s2.index + 3 < b.len() && b[s2.index + 3] == 34u8 {
            (buf2.push('"'), next_state(b, s2))
        } else {
            (buf2, s2)
        };
        lemma_advance_index(b, s3, s3.index + 3);
    } else if e < b.len() && b[e] == 92u8 {
        if e + 1 < b.len() {
            let s3 = next_state(b, next_state(b, s1));
            match escape_char(b[e + 1]) {
                Some(ch) => lemma_triple_body_progress(b, s3, buf1.push(ch)),
                None => {
                    lemma_run_end_bounds(b, e + 2, RunKind::Blank);
                    lemma_advance_index(b, s3, run_end(b, e + 2, RunKind::Blank));
                    lemma_triple_body_progress(
                        b,
                        advance(b, s3, run_end(b, e + 2, RunKind::Blank)),
                        buf1,
                    );
                },
            }
        }
    } else if e < b.len() {
        if e + 1 < b.len() && b[e + 1] == 34u8 {
            lemma_triple_body_progress(b, next_state(b, next_state(b, s1)), buf1 + seq!['"', '"']);
        } else {
            lemma_triple_body_progress(b, next_state(b, s1), buf1.push('"'));
        }
    }
}

/// Reading the rest of a string moves forward and stays inside the source.
pub proof fn lemma_string_body_progress(
    b: Seq<u8>,
    file: Seq<char>,
    st: LexState,
    buf: Seq<char>,
)
    requires
        0 <= st.index <= b.len(),
    ensures
        string_body(b, file, st, buf) matches Ok((t, s)) ==> st.index <= s.index <= b.len(),
    decreases b.len() - st.index,
{
    let e = run_end(b, st.index, RunKind::PlainString);
    lemma_run_end_bounds(b, st.index, RunKind::PlainString);
    lemma_advance_index(b, st, e);
    let s1 = advance(b, st, e);
    let buf1 = buf + bytes_as_chars(b.subrange(st.index, e));
    if e + 1 < b.len() && b[e] == 34u8 && b[e + 1] == 34u8 {
        let s2 = next_state(b, next_state(b, s1));
        let s3 = if e + 2 < b.len() && b[e + 2] == 10u8 {
            next_state(b, s2)
        } else {
            s2
        };
        lemma_triple_body_progress(b, s3, buf1);
    } else if e < b.len() && b[e] == 92u8 {
        if e + 1 < b.len() {
            let s3 = next_state(b, next_state(b, s1));
            if let Some(ch) = escape_char(b[e + 1]) {
                lemma_string_body_progress(b, file, s3, buf1.push(ch));
            }
        }
    }
}

/// Reading a string literal moves forward and stays inside the source.
pub proof fn lemma_string_literal_progress(b: Seq<u8>, file: Seq<char>, st: LexState)
    requires
        0 <= st.index < b.len(),
    ensures
        string_literal(b, file, st) matches Ok((t, s)) ==> st.index < s.index <= b.len(),
{
    lemma_string_body_progress(b, file, next_state(b, saved_here(file, st)), seq![]);
}

/// A run of a kind other than digits keeps all of its bytes.
pub proof fn lemma_kept_all(s: Seq<u8>, kind: RunKind)
    requires
        !(kind is Digits),
    ensures
        kept(s, kind) == s,
    decreases s.len(),
{
    if s.len() > 0 {
        lemma_kept_all(s.drop_last(), kind);
        assert(s.drop_last().push(s.last()) =~= s);
    }
}

/// A run of `kind` that goes on to `e` and stops there ends at `e`.
proof fn lemma_run_end_at(b: Seq<u8>, i: int, e: int, kind: RunKind)
    requires
        0 <= i <= e <= b.len(),
        forall|k: int| i <= k < e ==> #[trigger] in_run(kind, b[k]),
        e == b.len() || !in_run(kind, b[e]),
    ensures
        run_end(b, i, kind) == e,
    decreases e - i,
{
    if i < e {
        lemma_run_end_at(b, i + 1, e, kind);
    }
}

/// A run with nothing to leave out is kept whole.
proof fn lemma_kept_none_ignored(s: Seq<u8>, kind: RunKind)
    requires
        forall|k: int| 0 <= k < s.len() ==> !ignored(kind, #[trigger] s[k]),
    ensures
        kept(s, kind) == s,
    decreases s.len(),
{
    if s.len() > 0 {
        assert(!ignored(kind, s[s.len() - 1]));
        lemma_kept_none_ignored(s.drop_last(), kind);
        assert(s.drop_last().push(s.last()) =~= s);
    }
}

/// A number literal written `0x`, `0o` or `0b` and then digits `d` of that
/// base (16, 8 or 2) is the number those digits write in that base, and
/// reading goes on right after the digits: `0o17` is fifteen, `0x1f` is
/// thirty-one, `0b101` is five.
pub proof fn law_prefixed_literal_radix(
    b: Seq<u8>,
    file: Seq<char>,
    st: LexState,
    p: u8,
    radix: nat,
    d: Seq<u8>,
)
    requires
        (p == 120u8 && radix == 16) || (p == 111u8 && radix == 8) || (p == 98u8 && radix == 2),
        0 <= st.index,
        st.index + 2 + d.len() <= b.len(),
        b[st.index] == 48u8,
        b[st.index + 1] == p,
        b.subrange(st.index + 2, st.index + 2 + d.len()) == d,
        d.len() > 0,
        forall|k: int| 0 <= k < d.len() ==> #[trigger] digit_value(d[k]) < radix,
        st.index + 2 + d.len() == b.len() || (digit_value(b[st.index + 2 + d.len()]) >= radix
            && b[st.index + 2 + d.len()] != 95u8),
        radix_value(d, radix) <= u64::MAX,
    ensures
        int_literal(b, file, st) matches Ok((v, s)) && v == radix_value(d, radix) && s.index
            == st.index + 2 + d.len(),
{
    let i = st.index;
    let from = i + 2;
    let e = from + d.len();
    assert(b.subrange(i, i + 2) =~= seq![48u8, p]);
    let kind = RunKind::Digits(radix as u64);
    assert forall|k: int| from <= k < e implies #[trigger] in_run(kind, b[k]) by {
        assert(b[k] == d[k - from]);
    }
    lemma_run_end_at(b, from, e, kind);
    assert forall|k: int| 0 <= k < d.len() implies !ignored(kind, #[trigger] d[k]) by {
        assert(digit_value(d[k]) < radix);
    }
    lemma_kept_none_ignored(d, kind);
    assert(b.subrange(from, e) == d);
    lemma_advance_index(b, saved_here(file, st), e);
}

/// Reading one more byte of a source advances one more step.
pub proof fn lemma_advance_step(b: Seq<u8>, st: LexState, e: int)
    requires
        st.index <= e < b.len(),
    ensures
        advance(b, st, e + 1) == next_state(b, advance(b, st, e)),
    decreases e - st.index,
{
    if st.index < e {
        lemma_advance_step(b, next_state(b, st), e);
    } else {
        assert(advance(b, next_state(b, st), e + 1) == next_state(b, st));
    }
}

/// The lexer machinery that both languages share.
pub struct LexerBase<'a, T> {
    buffer: &'a str,
    index: usize,
    row: usize,
    column: usize,
    tokens: Vec<WithLocation<T>>,
    file: String,
    saved_location: Location,
}

impl<'a, T> LexerBase<'a, T> {
    /// The bytes of the source.
    pub closed spec fn source(&self) -> Seq<u8> {
        self.buffer.spec_bytes()
    }

    /// The name of the source file.
    pub closed spec fn file_name(&self) -> Seq<char> {
        self.file@
    }

    /// Where the lexer stands.
    pub closed spec fn state(&self) -> LexState {
        LexState {
            index: self.index as int,
            row: self.row as int,
            column: self.column as int,
            saved: self.saved_location@,
        }
    }

    /// The tokens read so far.
    pub closed spec fn tokens(&self) -> Seq<WithLocation<T>> {
        self.tokens@
    }

    /// The position counters cannot overflow.
    pub closed spec fn wf(&self) -> bool {
        &&& self.index <= self.source().len()
        &&& self.row <= self.index + 1
        &&& 1 <= self.column <= self.index + 1
        &&& self.source().len() + 2 < usize::MAX
    }

    pub fn new(buffer: &'a str, file: String) -> (r: Self)
        requires
            buffer.spec_bytes().len() + 2 < usize::MAX,
        ensures
            r.wf(),
            r.source() == buffer.spec_bytes(),
            r.file_name() == file@,
            r.tokens() == Seq::<WithLocation<T>>::empty(),
            r.state() == (LexState {
                index: 0,
                row: 0,
                column: 1,
                saved: LocationView { file: Seq::empty(), row: 0, column: 0 },
            }),
    {
        Self {
            buffer,
            index: 0,
            row: 0,
            column: 1,
            tokens: Vec::new(),
            file,
            saved_location: Location::default(),
        }
    }

    /// The byte `offset` places after the current one, if there is one.
    pub fn peek(&self, offset: usize) -> (r: Option<u8>)
        ensures
            r == (if self.state().index + offset < self.source().len() {
                Some(self.source()[self.state().index + offset])
            } else {
                None
            }),
    {
        let bytes = self.buffer.as_bytes();
        if offset < bytes.len() && self.index < bytes.len() - offset {
            Some(bytes[self.index + offset])
        } else {
            None
        }
    }

    /// Reads the current byte, if there is one.
    pub fn consume(&mut self) -> (r: Option<u8>)
        requires
            old(self).wf(),
        ensures
            final(self).wf(),
            final(self).source() == old(self).source(),
            final(self).file_name() == old(self).file_name(),
            final(self).tokens() == old(self).tokens(),
            old(self).state().index < old(self).source().len() ==> r == Some(
                old(self).source()[old(self).state().index],
            ) && final(self).state() == next_state(old(self).source(), old(self).state()),
            old(self).state().index >= old(self).source().len() ==> r is None
                && final(self).state() == old(self).state(),
    {
        let bytes = self.buffer.as_bytes();
        if self.index < bytes.len() {
            let byte = bytes[self.index];
            if byte == 10u8 {
                self.row = 0;
                self.column = self.column + 1;
            }
            self.index = self.index + 1;
            self.row = self.row + 1;
            Some(byte)
        } else {
            None
        }
    }

    /// Reads `count` bytes, or all that are left.
    pub fn consumes(&mut self, count: usize)
        requires
            old(self).wf(),
        ensures
            final(self).wf(),
            final(self).source() == old(self).source(),
            final(self).file_name() == old(self).file_name(),
            final(self).tokens() == old(self).tokens(),
            final(self).state() == advance(
                old(self).source(),
                old(self).state(),
                old(self).state().index + count,
            ),
    {
        let ghost b = self.source();
        let ghost st0 = self.state();
        let mut i: usize = 0;
        while i < count
            invariant
                self.wf(),
                self.source() == b,
                self.file_name() == old(self).file_name(),
                self.tokens() == old(self).tokens(),
                st0 == old(self).state(),
                i <= count,
                self.state() == advance(b, st0, st0.index + i),
                self.state().index == if st0.index + i <= b.len() {
                    st0.index + i
                } else {
                    b.len() as int
                },
            decreases count - i,
        {
            proof {
                if st0.index + i < b.len() {
                    lemma_advance_step(b, st0, st0.index + i);
                } else {
                    lemma_advance_index(b, st0, b.len() as int);
                    lemma_advance_beyond(b, st0, st0.index + i);
                    lemma_advance_beyond(b, st0, st0.index + i + 1);
                }
            }
            self.consume();
            i = i + 1;
        }
    }

    /// Whether the next two bytes are `c0` and `c1`.
    pub fn peek_match2(&self, c0: u8, c1: u8) -> (r: bool)
        ensures
            r == matches_at(self.source(), self.state().index, seq![c0, c1]),
    {
        let r = self.peek(0) == Some(c0) && self.peek(1) == Some(c1);
        proof {
            let b = self.source();
            let i = self.state().index;
            if i + 2 <= b.len() {
                assert(r == (b.subrange(i, i + 2) =~= seq![c0, c1]));
            }
        }
        r
    }

    /// Whether the next three bytes are `c0`, `c1` and `c2`.
    pub fn peek_match3(&self, c0: u8, c1: u8, c2: u8) -> (r: bool)
        ensures
            r == matches_at(self.source(), self.state().index, seq![c0, c1, c2]),
    {
        let r = self.peek(0) == Some(c0) && self.peek(1) == Some(c1) && self.peek(2) == Some(c2);
        proof {
            let b = self.source();
            let i = self.state().index;
            if i + 3 <= b.len() {
                assert(r == (b.subrange(i, i + 3) =~= seq![c0, c1, c2]));
            }
        }
        r
    }

    /// Adds a token at the saved location.
    pub fn push(&mut self, token: T)
        ensures
            final(self).source() == old(self).source(),
            final(self).file_name() == old(self).file_name(),
            final(self).state() == old(self).state(),
            final(self).wf() == old(self).wf(),
            final(self).tokens().len() == old(self).tokens().len() + 1,
            final(self).tokens().take(old(self).tokens().len() as int) == old(self).tokens(),
            final(self).tokens().last().inner() == token,
            final(self).tokens().last().place() == old(self).state().saved,
    {
        let location = self.saved_location.clone();
        self.tokens.push(WithLocation::new(token, location));
        assert(self.tokens@.take(old(self).tokens@.len() as int) =~= old(self).tokens@);
    }

    /// A copy of the saved location.
    pub fn current_location(&self) -> (r: Location)
        ensures
            r@ == self.state().saved,
    {
        self.saved_location.clone()
    }

    /// Saves the current position for the tokens to come.
    pub fn save_location(&mut self)
        ensures
            final(self).source() == old(self).source(),
            final(self).file_name() == old(self).file_name(),
            final(self).tokens() == old(self).tokens(),
            final(self).wf() == old(self).wf(),
            final(self).state() == saved_here(old(self).file_name(), old(self).state()),
    {
        self.saved_location = Location::new(self.row, self.column, self.file.clone());
    }

    /// The location of the current position.
    pub fn location_here(&self) -> (r: Location)
        ensures
            r@ == here(self.file_name(), self.state()),
    {
        Location::new(self.row, self.column, self.file.clone())
    }

    /// The tokens read so far, giving up the lexer.
    pub fn into_tokens(self) -> (r: Vec<WithLocation<T>>)
        ensures
            r@ == self.tokens(),
    {
        self.tokens
    }

    /// Reads the run of `kind` that starts here, appending the bytes it
    /// keeps to `buffer`.
    pub fn consume_while(&mut self, buffer: &mut String, kind: RunKind)
        requires
            old(self).wf(),
        ensures
            final(self).wf(),
            final(self).source() == old(self).source(),
            final(self).file_name() == old(self).file_name(),
            final(self).tokens() == old(self).tokens(),
            final(self).state() == advance(
                old(self).source(),
                old(self).state(),
                run_end(old(self).source(), old(self).state().index, kind),
            ),
            final(buffer)@ == old(buffer)@ + bytes_as_chars(
                kept(
                    old(self).source().subrange(
                        old(self).state().index,
                        final(self).state().index,
                    ),
                    kind,
                ),
            ),
    {
        let ghost b = self.source();
        let ghost st0 = self.state();
        let ghost start = st0.index;
        let ghost buf0 = buffer@;
        proof {
            lemma_run_end_bounds(b, start, kind);
        }
        while self.peek(0).is_some() && run_continues(kind, self.peek(0).unwrap())
            invariant
                self.wf(),
                self.source() == b,
                self.file_name() == old(self).file_name(),
                self.tokens() == old(self).tokens(),
                st0 == old(self).state(),
                0 <= start == st0.index <= self.state().index <= b.len(),
                run_end(b, self.state().index, kind) == run_end(b, start, kind),
                self.state() == advance(b, st0, self.state().index),
                buffer@ == buf0 + bytes_as_chars(
                    kept(b.subrange(start, self.state().index), kind),
                ),
            decreases b.len() - self.state().index,
        {
            let ghost i = self.state().index;
            let c = self.peek(0).unwrap();
            proof {
                lemma_advance_step(b, st0, i);
            }
            if ignored_here(kind, c) {
                self.consume();
            } else {
                self.consume();
                string_push(buffer, byte_char(c));
            }
            proof {
                assert(b.subrange(start, i + 1).drop_last() =~= b.subrange(start, i));
            }
        }
        proof {
            lemma_advance_index(b, st0, start);
        }
    }

    /// Reads the run of digits of `radix` (with underscores) that starts
    /// here; the digits without underscores.
    pub fn consume_digits(&mut self, radix: u64) -> (r: Vec<u8>)
        requires
            old(self).wf(),
            2 <= radix <= 16,
        ensures
            final(self).wf(),
            final(self).source() == old(self).source(),
            final(self).file_name() == old(self).file_name(),
            final(self).tokens() == old(self).tokens(),
            final(self).state() == advance(
                old(self).source(),
                old(self).state(),
                run_end(old(self).source(), old(self).state().index, RunKind::Digits(radix)),
            ),
            r@ == kept(
                old(self).source().subrange(old(self).state().index, final(self).state().index),
                RunKind::Digits(radix),
            ),
            crate::text::all_digits(r@, radix as nat),
    {
        let ghost b = self.source();
        let ghost st0 = self.state();
        let ghost start = st0.index;
        let ghost kind = RunKind::Digits(radix);
        proof {
            lemma_run_end_bounds(b, start, kind);
        }
        let mut digits: Vec<u8> = Vec::new();
        while self.peek(0).is_some() && run_continues(
            RunKind::Digits(radix),
            self.peek(0).unwrap(),
        )
            invariant
                self.wf(),
                2 <= radix <= 16,
                kind == RunKind::Digits(radix),
                self.source() == b,
                self.file_name() == old(self).file_name(),
                self.tokens() == old(self).tokens(),
                st0 == old(self).state(),
                0 <= start == st0.index <= self.state().index <= b.len(),
                run_end(b, self.state().index, kind) == run_end(b, start, kind),
                self.state() == advance(b, st0, self.state().index),
                digits@ == kept(b.subrange(start, self.state().index), kind),
                crate::text::all_digits(digits@, radix as nat),
            decreases b.len() - self.state().index,
        {
            let ghost i = self.state().index;
            let c = self.peek(0).unwrap();
            proof {
                lemma_advance_step(b, st0, i);
            }
            self.consume();
            if c != 95u8 {
                digits.push(c);
            }
            proof {
                assert(b.subrange(start, i + 1).drop_last() =~= b.subrange(start, i));
            }
        }
        proof {
            lemma_advance_index(b, st0, start);
        }
        digits
    }

    /// Reads a number literal and gives its value. The location of the
    /// literal is saved for it.
    fn read_interger(&mut self) -> (r: Result<u64, LexerError>)
        requires
            old(self).wf(),
            old(self).state().index < old(self).source().len(),
            is_digit_byte(old(self).source()[old(self).state().index], 10),
        ensures
            final(self).wf(),
            final(self).source() == old(self).source(),
            final(self).file_name() == old(self).file_name(),
            final(self).tokens() == old(self).tokens(),
            r matches Ok(v) ==> int_literal(
                old(self).source(),
                old(self).file_name(),
                old(self).state(),
            ) == Ok::<(u64, LexState), LexErrorView>((v, final(self).state())),
            r matches Err(e) ==> int_literal(
                old(self).source(),
                old(self).file_name(),
                old(self).state(),
            ) == Err::<(u64, LexState), LexErrorView>(e@),
    {
        let ghost b = self.source();
        let ghost i = self.state().index;
        self.save_location();
        let ghost s0 = self.state();
        let radix: u64;
        let digits: Vec<u8>;
        if self.peek_match2(48u8, 120u8) {
            self.consumes(2);
            radix = 16;
            digits = self.consume_digits(16);
        } else if self.peek_match2(48u8, 111u8) {
            self.consumes(2);
            radix = 8;
            digits = self.consume_digits(8);
        } else if self.peek_match2(48u8, 98u8) {
            self.consumes(2);
            radix = 2;
            digits = self.consume_digits(2);
        } else {
            let first = self.consume().unwrap();
            let mut rest = self.consume_digits(10);
            let mut all: Vec<u8> = Vec::new();
            all.push(first);
            let ghost rest_view = rest@;
            all.append(&mut rest);
            assert(all@ =~= seq![first] + rest_view);
            radix = 10;
            digits = all;
        }
        proof {
            let from = if radix == 10 {
                i + 1
            } else {
                i + 2
            };
            lemma_run_end_bounds(b, from, RunKind::Digits(radix));
            let e = run_end(b, from, RunKind::Digits(radix));
            if radix == 10 {
                assert(advance(b, s0, i + 1) == next_state(b, s0)) by {
                    lemma_advance_step(b, s0, i);
                    assert(advance(b, s0, i) == s0);
                }
            } else {
                lemma_advance_two(b, s0);
            }
            lemma_advance_trans(b, s0, from, e);
            lemma_advance_index(b, s0, e);
            let spec_digits = if radix == 10 {
                seq![b[i]] + kept(b.subrange(i + 1, e), RunKind::Digits(10))
            } else {
                kept(b.subrange(from, e), RunKind::Digits(radix))
            };
            assert(digits@ =~= spec_digits);
            assert(self.state() == advance(b, s0, e));
        }
        if digits.len() == 0 {
            return Err(LexerError::InvalidInterger(IntErrorKind::Empty));
        }
        match parse_radix(digits.as_slice(), radix) {
            Some(value) => Ok(value),
            None => Err(LexerError::InvalidInterger(IntErrorKind::PosOverflow)),
        }
    }

    /// Reads a string literal and gives its text. The location of the
    /// literal is saved for it.
    fn read_string(&mut self) -> (r: Result<String, LexerError>)
        requires
            old(self).wf(),
            old(self).state().index < old(self).source().len(),
            old(self).source()[old(self).state().index] == 34u8,
        ensures
            final(self).wf(),
            final(self).source() == old(self).source(),
            final(self).file_name() == old(self).file_name(),
            final(self).tokens() == old(self).tokens(),
            r matches Ok(text) ==> string_literal(
                old(self).source(),
                old(self).file_name(),
                old(self).state(),
            ) == Ok::<(Seq<char>, LexState), LexErrorView>((text@, final(self).state())),
            r matches Err(e) ==> string_literal(
                old(self).source(),
                old(self).file_name(),
                old(self).state(),
            ) == Err::<(Seq<char>, LexState), LexErrorView>(e@),
    {
        let mut buffer = String::new();
        self.save_location();
        self.consume();
        match self.string_body(&mut buffer) {
            Ok(()) => Ok(buffer),
            Err(e) => Err(e),
        }
    }

    fn string_body(&mut self, buffer: &mut String) -> (r: Result<(), LexerError>)
        requires
            old(self).wf(),
        ensures
            final(self).wf(),
            final(self).source() == old(self).source(),
            final(self).file_name() == old(self).file_name(),
            final(self).tokens() == old(self).tokens(),
            r is Ok ==> string_body(
                old(self).source(),
                old(self).file_name(),
                old(self).state(),
                old(buffer)@,
            ) == Ok::<(Seq<char>, LexState), LexErrorView>((final(buffer)@, final(self).state())),
            r matches Err(e) ==> string_body(
                old(self).source(),
                old(self).file_name(),
                old(self).state(),
                old(buffer)@,
            ) == Err::<(Seq<char>, LexState), LexErrorView>(e@),
    {
        let ghost b = self.source();
        let ghost f = self.file_name();
        let ghost goal = string_body(b, f, self.state(), buffer@);
        loop
            invariant
                self.wf(),
                self.source() == b,
                self.file_name() == f,
                f == old(self).file_name(),
                b == old(self).source(),
                self.tokens() == old(self).tokens(),
                goal == string_body(old(self).source(), f, old(self).state(), old(buffer)@),
                goal == string_body(b, f, self.state(), buffer@),
            decreases b.len() - self.state().index,
        {
            let ghost st = self.state();
            let ghost buf = buffer@;
            proof {
                lemma_run_end_bounds(b, st.index, RunKind::PlainString);
                lemma_advance_index(b, st, run_end(b, st.index, RunKind::PlainString));
            }
            self.consume_while(buffer, RunKind::PlainString);
            proof {
                lemma_kept_all(b.subrange(st.index, self.state().index), RunKind::PlainString);
            }
            let ghost s1 = self.state();
            let ghost e = s1.index;
            if self.peek(0) == Some(34u8) && self.peek(1) == Some(34u8) {
                proof {
                    lemma_advance_two(b, s1);
                }
                self.consumes(2);
                if self.peek(0) == Some(10u8) {
                    self.consume();
                }
                return self.triple_body(buffer);
            }
            if self.peek(0) == Some(10u8) {
                return Err(LexerError::ExpectedEndDoubleQuote(Some('\n'), self.current_location()));
            }
            if self.peek(0) == Some(92u8) {
                let location = self.location_here();
                self.consume();
                match self.consume() {
                    None => {
                        return Err(LexerError::EndOfBuffer);
                    },
                    Some(c) => match escape(c) {
                        Some(ch) => {
                            string_push(buffer, ch);
                        },
                        None => {
                            let mut text = String::new();
                            string_push(&mut text, '\\');
                            string_push(&mut text, byte_char(c));
                            assert(text@ =~= seq!['\\', c as char]);
                            return Err(LexerError::InvalidEscapeSequence(text, location));
                        },
                    },
                }
                continue;
            }
            if self.peek(0) == Some(34u8) {
                self.consume();
                return Ok(());
            }
            return Err(LexerError::ExpectedEndDoubleQuote(None, self.current_location()));
        }
    }

    fn triple_body(&mut self, buffer: &mut String) -> (r: Result<(), LexerError>)
        requires
            old(self).wf(),
        ensures
            final(self).wf(),
            final(self).source() == old(self).source(),
            final(self).file_name() == old(self).file_name(),
            final(self).tokens() == old(self).tokens(),
            r is Ok ==> triple_body(old(self).source(), old(self).state(), old(buffer)@) == Ok::<
                (Seq<char>, LexState),
                LexErrorView,
            >((final(buffer)@, final(self).state())),
            r matches Err(e) ==> triple_body(old(self).source(), old(self).state(), old(buffer)@)
                == Err::<(Seq<char>, LexState), LexErrorView>(e@),
    {
        let ghost b = self.source();
        let ghost f = self.file_name();
        let ghost goal = triple_body(b, self.state(), buffer@);
        loop
            invariant
                self.wf(),
                self.source() == b,
                self.file_name() == f,
                f == old(self).file_name(),
                b == old(self).source(),
                self.tokens() == old(self).tokens(),
                goal == triple_body(old(self).source(), old(self).state(), old(buffer)@),
                goal == triple_body(b, self.state(), buffer@),
            decreases b.len() - self.state().index,
        {
            let ghost st = self.state();
            proof {
                lemma_run_end_bounds(b, st.index, RunKind::TripleString);
                lemma_advance_index(b, st, run_end(b, st.index, RunKind::TripleString));
            }
            self.consume_while(buffer, RunKind::TripleString);
            proof {
                lemma_kept_all(b.subrange(st.index, self.state().index), RunKind::TripleString);
            }
            if self.peek_match3(34u8, 34u8, 34u8) {
                if self.peek(3) == Some(34u8) {
                    string_push(buffer, '"');
                    self.consume();
                }
                if self.peek(3) == Some(34u8) {
                    string_push(buffer, '"');
                    self.consume();
                }
                self.consumes(3);
                return Ok(());
            }
            if self.peek(0) == Some(92u8) {
                self.consume();
                match self.consume() {
                    None => {
                        return Err(LexerError::EndOfBuffer);
                    },
                    Some(c) => match escape(c) {
                        Some(ch) => {
                            string_push(buffer, ch);
                        },
                        None => {
                            let ghost s3 = self.state();
                            proof {
                                lemma_run_end_bounds(b, s3.index, RunKind::Blank);
                                lemma_advance_index(
                                    b,
                                    s3,
                                    run_end(b, s3.index, RunKind::Blank),
                                );
                            }
                            let mut skipped = String::new();
                            self.consume_while(&mut skipped, RunKind::Blank);
                        },
                    },
                }
                continue;
            }
            if self.peek(0) == Some(34u8) || self.peek(1) == Some(34u8) {
                let ghost buf1 = buffer@;
                let two = self.peek_match2(34u8, 34u8);
                proof {
                    let e = self.state().index;
                    if e + 2 <= b.len() {
                        assert(b.subrange(e, e + 2)[0] == b[e]);
                        assert(b.subrange(e, e + 2)[1] == b[e + 1]);
                        if b[e] == 34u8 && b[e + 1] == 34u8 {
                            assert(b.subrange(e, e + 2) =~= seq![34u8, 34u8]);
                        }
                    }
                }
                if two {
                    let c = self.consume().unwrap();
                    string_push(buffer, byte_char(c));
                }
                let c = self.consume().unwrap();
                string_push(buffer, byte_char(c));
                proof {
                    assert(34u8 as char == '"');
                    if two {
                        assert(buffer@ =~= buf1 + seq!['"', '"']);
                    } else {
                        assert(buffer@ =~= buf1.push('"'));
                    }
                }
                continue;
            }
            return Ok(());
        }
    }
}
impl<'a, T: Token> LexerBase<'a, T> {
    /// Reads a number literal and adds its token at the literal's place.
    pub fn parse_interger(&mut self) -> (r: Result<(), LexerError>)
        requires
            old(self).wf(),
            old(self).state().index < old(self).source().len(),
            is_digit_byte(old(self).source()[old(self).state().index], 10),
        ensures
            final(self).wf(),
            final(self).source() == old(self).source(),
            final(self).file_name() == old(self).file_name(),
            r is Ok <==> int_literal(old(self).source(), old(self).file_name(), old(self).state()) is Ok,
            r is Ok ==> ({
                let (v, st) = int_literal(old(self).source(), old(self).file_name(), old(self).state())->Ok_0;
                &&& final(self).state() == st
                &&& final(self).tokens().len() == old(self).tokens().len() + 1
                &&& final(self).tokens().take(old(self).tokens().len() as int) == old(self).tokens()
                &&& final(self).tokens().last()@ == (T::number_view(v), st.saved)
            }),
            r matches Err(e) ==> int_literal(
                old(self).source(),
                old(self).file_name(),
                old(self).state(),
            ) == Err::<(u64, LexState), LexErrorView>(e@) && final(self).tokens() == old(self).tokens(),
    {
        let v = self.read_interger()?;
        self.push(T::from_u64(v));
        Ok(())
    }

    /// Reads a string literal and adds its token at the literal's place.
    pub fn parse_string(&mut self) -> (r: Result<(), LexerError>)
        requires
            old(self).wf(),
            old(self).state().index < old(self).source().len(),
            old(self).source()[old(self).state().index] == 34u8,
        ensures
            final(self).wf(),
            final(self).source() == old(self).source(),
            final(self).file_name() == old(self).file_name(),
            r is Ok <==> string_literal(old(self).source(), old(self).file_name(), old(self).state()) is Ok,
            r is Ok ==> ({
                let (text, st) = string_literal(
                    old(self).source(),
                    old(self).file_name(),
                    old(self).state(),
                )->Ok_0;
                &&& final(self).state() == st
                &&& final(self).tokens().len() == old(self).tokens().len() + 1
                &&& final(self).tokens().take(old(self).tokens().len() as int) == old(self).tokens()
                &&& final(self).tokens().last()@ == (T::string_view(text), st.saved)
            }),
            r matches Err(e) ==> string_literal(
                old(self).source(),
                old(self).file_name(),
                old(self).state(),
            ) == Err::<(Seq<char>, LexState), LexErrorView>(e@) && final(self).tokens() == old(self).tokens(),
    {
        let text = self.read_string()?;
        self.push(T::from_string(text));
        Ok(())
    }
}

/// Advancing in two legs is advancing at once.
pub proof fn lemma_advance_trans(b: Seq<u8>, st: LexState, m: int, e: int)
    requires
        st.index <= m <= e <= b.len(),
    ensures
        advance(b, advance(b, st, m), e) == advance(b, st, e),
    decreases m - st.index,
{
    if st.index < m {
        lemma_advance_trans(b, next_state(b, st), m, e);
    } else {
        assert(advance(b, st, m) == st);
    }
}

/// Advancing by two bytes is reading two bytes.
pub proof fn lemma_advance_two(b: Seq<u8>, st: LexState)
    requires
        0 <= st.index,
        st.index + 2 <= b.len(),
    ensures
        advance(b, st, st.index + 2) == next_state(b, next_state(b, st)),
{
    assert(advance(b, st, st.index) == st);
    lemma_advance_step(b, st, st.index);
    lemma_advance_step(b, st, st.index + 1);
}

/// The character that the escape `\c` stands for, if it is one.
pub fn escape(c: u8) -> (r: Option<char>)
    ensures
        r == escape_char(c),
{
    if c == 98u8 {
        Some('\u{08}')
    } else if c == 116u8 {
        Some('\u{09}')
    } else if c == 110u8 {
        Some('\u{0A}')
    } else if c == 102u8 {
        Some('\u{0C}')
    } else if c == 114u8 {
        Some('\u{0D}')
    } else if c == 34u8 {
        Some('\u{22}')
    } else if c == 48u8 {
        Some('\u{0}')
    } else if c == 92u8 {
        Some('\u{5C}')
    } else {
        None
    }
}

/// Beyond the end of the source, advancing stops there.
pub proof fn lemma_advance_beyond(b: Seq<u8>, st: LexState, e: int)
    requires
        st.index <= b.len() <= e,
    ensures
        advance(b, st, e) == advance(b, st, b.len() as int),
    decreases b.len() - st.index,
{
    if st.index < b.len() {
        lemma_advance_beyond(b, next_state(b, st), e);
    }
}

/// Whether byte `c` continues a run of `kind`.
pub fn run_continues(kind: RunKind, c: u8) -> (r: bool)
    ensures
        r == in_run(kind, c),
{
    match kind {
        RunKind::Alphanumeric => alphanumeric(c),
        RunKind::Identifier => alphanumeric(c) || c == 95u8,
        RunKind::NotNewline => c != 10u8,
        RunKind::NotGreater => c != 62u8,
        RunKind::Digits(radix) => (digit(c) as u64) < radix || c == 95u8,
        RunKind::PlainString => c != 92u8 && c != 34u8 && c != 10u8,
        RunKind::TripleString => c != 92u8 && c != 34u8,
        RunKind::Blank => whitespace(c) || c == 10u8,
    }
}

/// Whether byte `c` of a run of `kind` is left out of the text.
pub fn ignored_here(kind: RunKind, c: u8) -> (r: bool)
    ensures
        r == ignored(kind, c),
{
    match kind {
        RunKind::Digits(_) => c == 95u8,
        _ => false,
    }
}

} // verus!
