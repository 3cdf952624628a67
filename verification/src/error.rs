//! Error messages that quote the offending source line with a pointer under
//! the place, in colour.

use vstd::prelude::*;
use vstd::string::StrSliceExecFns;

use crate::compiler::rin_compiler::generator::{GenErrorView, GeneratorError};
use crate::compiler::rin_compiler::{join_with, rin_type_name};
use crate::compiler::{CompileErrorView, CompilerError};
use crate::lexer::{IntErrorKind, LexErrorView, LexerError};
use crate::location::{Location, LocationView, WithLocation};
use crate::text::{decimal_digits, string_append, string_push, string_push_str, u64_to_decimal};
use crate::token::asm_token::{
    asm_keyword_name, attribute_token_name, instruction_type_name, interger_type_name, ASMToken,
    ASMTokenView,
};
use crate::token::rin_token::{keyword_name, operator_name, primitive_type_name, RinToken, RinTokenView};

verus! {

/// `inline_colorization::style_bold`: the escape sequence that starts bold
/// text, as the crate's source defines it.
#[verifier::external_body]
fn style_bold() -> (r: &'static str)
    ensures
        r@ == bold(),
{
    inline_colorization::style_bold
}

/// `inline_colorization::style_reset`: the escape sequence that resets the
/// text style, as the crate's source defines it.
#[verifier::external_body]
fn style_reset() -> (r: &'static str)
    ensures
        r@ == unbold(),
{
    inline_colorization::style_reset
}

/// `inline_colorization::color_red`: the escape sequence for red text, as
/// the crate's source defines it.
#[verifier::external_body]
fn color_red() -> (r: &'static str)
    ensures
        r@ == red(),
{
    inline_colorization::color_red
}

/// `inline_colorization::color_blue`: the escape sequence for blue text, as
/// the crate's source defines it.
#[verifier::external_body]
fn color_blue() -> (r: &'static str)
    ensures
        r@ == blue(),
{
    inline_colorization::color_blue
}

/// `inline_colorization::color_reset`: the escape sequence that resets the
/// text colour, as the crate's source defines it.
#[verifier::external_body]
fn color_reset() -> (r: &'static str)
    ensures
        r@ == uncolor(),
{
    inline_colorization::color_reset
}

pub open spec fn bold() -> Seq<char> {
    "\x1B[1m"@
}

pub open spec fn unbold() -> Seq<char> {
    "\x1B[0m"@
}

pub open spec fn red() -> Seq<char> {
    "\x1B[31m"@
}

pub open spec fn blue() -> Seq<char> {
    "\x1B[34m"@
}

pub open spec fn uncolor() -> Seq<char> {
    "\x1B[39m"@
}

/// `text` in bold and in `color`.
pub open spec fn painted(color: Seq<char>, text: Seq<char>) -> Seq<char> {
    color + bold() + text + unbold() + uncolor()
}

/// `n` spaces.
pub open spec fn spaces(n: nat) -> Seq<char> {
    Seq::new(n, |i: int| ' ')
}

/// The source files a message may quote: each file's name and its lines.
pub open spec fn sources_view(sources: Seq<(String, Vec<String>)>) -> Seq<(Seq<char>, Seq<Seq<char>>)> {
    sources.map_values(|s: (String, Vec<String>)| (s.0@, s.1@.map_values(|l: String| l@)))
}

/// Line `column` (counted from one) of the file named `file`, if the
/// sources hold it.
pub open spec fn source_line(sources: Seq<(Seq<char>, Seq<Seq<char>>)>, file: Seq<char>, column: nat) -> Option<Seq<char>>
    decreases sources.len(),
{
    if sources.len() == 0 {
        None
    } else if sources[0].0 == file {
        if 1 <= column <= sources[0].1.len() {
            Some(sources[0].1[column - 1])
        } else {
            None
        }
    } else {
        source_line(sources.drop_first(), file, column)
    }
}

/// Appends `n` spaces.
fn push_spaces(s: &mut String, n: usize)
    ensures
        final(s)@ == old(s)@ + spaces(n as nat),
{
    let mut i: usize = 0;
    while i < n
        invariant
            i <= n,
            s@ == old(s)@ + spaces(i as nat),
        decreases n - i,
    {
        string_push(s, ' ');
        i = i + 1;
        assert(s@ =~= old(s)@ + spaces(i as nat));
    }
}

/// Appends `text` in bold and in `color`.
fn push_painted(s: &mut String, color: &str, text: &str)
    ensures
        final(s)@ == old(s)@ + painted(color@, text@),
{
    string_push_str(s, color);
    string_push_str(s, style_bold());
    string_push_str(s, text);
    string_push_str(s, style_reset());
    string_push_str(s, color_reset());
    assert(s@ =~= old(s)@ + painted(color@, text@));
}

/// Line `column` of `file`, looked up in `sources`.
fn find_line(sources: &Vec<(String, Vec<String>)>, file: &String, column: usize) -> (r: String)
    requires
        source_line(sources_view(sources@), file@, column as nat) is Some,
    ensures
        r@ == source_line(sources_view(sources@), file@, column as nat)->0,
{
    let ghost all = sources_view(sources@);
    assert(all.skip(0) =~= all);
    let mut k: usize = 0;
    while k < sources.len()
        invariant
            all == sources_view(sources@),
            k <= sources@.len(),
            source_line(all, file@, column as nat) == source_line(all.skip(k as int), file@, column as nat),
            source_line(all, file@, column as nat) is Some,
        decreases sources@.len() - k,
    {
        let ghost rest = all.skip(k as int);
        assert(rest[0] == all[k as int]);
        assert(rest.drop_first() =~= all.skip(k + 1));
        if crate::chars::str_eq(sources[k].0.as_str(), file.as_str()) {
            let lines = &sources[k].1;
            assert(lines@.map_values(|l: String| l@)[column - 1] == lines@[column - 1]@);
            return lines[column - 1].clone();
        }
        k = k + 1;
    }
    assert(all.skip(k as int) =~= Seq::<(Seq<char>, Seq<Seq<char>>)>::empty());
    String::new()
}

/// A message under construction: the headline, the width of the margin,
/// the place, and the lines written below it so far.
pub struct ErrorGenerator<'a> {
    message: String,
    identation: usize,
    sources: &'a Vec<(String, Vec<String>)>,
    location: &'a Location,
    buffer: String,
}

impl<'a> ErrorGenerator<'a> {
    /// The lines written so far.
    pub closed spec fn body(&self) -> Seq<char> {
        self.buffer@
    }

    pub closed spec fn headline(&self) -> Seq<char> {
        self.message@
    }

    pub closed spec fn margin(&self) -> nat {
        self.identation as nat
    }

    pub closed spec fn place(&self) -> LocationView {
        self.location@
    }

    pub closed spec fn files(&self) -> Seq<(Seq<char>, Seq<Seq<char>>)> {
        sources_view(self.sources@)
    }

    /// A message about `location` with headline `message` and a margin
    /// `identation` wide, quoting lines from `sources`.
    pub fn new(
        location: &'a Location,
        message: String,
        identation: usize,
        sources: &'a Vec<(String, Vec<String>)>,
    ) -> (r: ErrorGenerator<'a>)
        ensures
            r.body() == Seq::<char>::empty(),
            r.headline() == message@,
            r.margin() == identation,
            r.place() == location@,
            r.files() == sources_view(sources@),
    {
        ErrorGenerator { message, identation, sources, location, buffer: String::new() }
    }

    /// The margin: `message` (a line number, or nothing) padded to the
    /// margin's width, then a bar.
    pub fn vertical_pipe(self, message: &str) -> (r: ErrorGenerator<'a>)
        requires
            message@.len() <= self.margin(),
        ensures
            r.body() == self.body() + painted(blue(), message@) + seq![' '] + spaces(
                (self.margin() - message@.len()) as nat,
            ) + painted(blue(), seq!['|']),
            r.headline() == self.headline(),
            r.margin() == self.margin(),
            r.place() == self.place(),
            r.files() == self.files(),
    {
        let mut this = self;
        push_painted(&mut this.buffer, color_blue(), message);
        string_push(&mut this.buffer, ' ');
        push_spaces(&mut this.buffer, this.identation - message.unicode_len());
        proof {
            reveal_strlit("|");
        }
        push_painted(&mut this.buffer, color_blue(), "|");
        this
    }

    /// A space, then line `column` of the message's file.
    pub fn write_line(self, column: usize) -> (r: ErrorGenerator<'a>)
        requires
            source_line(self.files(), self.place().file, column as nat) is Some,
        ensures
            r.body() == self.body() + seq![' '] + source_line(
                self.files(),
                self.place().file,
                column as nat,
            )->0,
            r.headline() == self.headline(),
            r.margin() == self.margin(),
            r.place() == self.place(),
            r.files() == self.files(),
    {
        let mut this = self;
        let line = find_line(this.sources, this.location.file(), column);
        string_push(&mut this.buffer, ' ');
        string_append(&mut this.buffer, &line);
        this
    }

    /// A space, then line `column` of the file named `file`.
    pub fn write_line_file(self, column: usize, file: &String) -> (r: ErrorGenerator<'a>)
        requires
            source_line(self.files(), file@, column as nat) is Some,
        ensures
            r.body() == self.body() + seq![' '] + source_line(self.files(), file@, column as nat)->0,
            r.headline() == self.headline(),
            r.margin() == self.margin(),
            r.place() == self.place(),
            r.files() == self.files(),
    {
        let mut this = self;
        let line = find_line(this.sources, file, column);
        string_push(&mut this.buffer, ' ');
        string_append(&mut this.buffer, &line);
        this
    }

    /// `identation` spaces, then `pointer` and `message` in `color`.
    pub fn pointer(self, identation: usize, message: &str, pointer: char, color: &str) -> (r: ErrorGenerator<'a>)
        ensures
            r.body() == self.body() + spaces(identation as nat) + painted(
                color@,
                seq![pointer] + message@,
            ),
            r.headline() == self.headline(),
            r.margin() == self.margin(),
            r.place() == self.place(),
            r.files() == self.files(),
    {
        let mut this = self;
        push_spaces(&mut this.buffer, identation);
        string_push_str(&mut this.buffer, color);
        string_push_str(&mut this.buffer, style_bold());
        string_push(&mut this.buffer, pointer);
        string_push_str(&mut this.buffer, message);
        string_push_str(&mut this.buffer, style_reset());
        string_push_str(&mut this.buffer, color_reset());
        assert(this.buffer@ =~= self.body() + spaces(identation as nat) + painted(
            color@,
            seq![pointer] + message@,
        ));
        this
    }

    /// `identation` spaces, then `value` in `color`.
    pub fn ident_string(self, identation: usize, value: &str, color: &str) -> (r: ErrorGenerator<'a>)
        ensures
            r.body() == self.body() + spaces(identation as nat) + painted(color@, value@),
            r.headline() == self.headline(),
            r.margin() == self.margin(),
            r.place() == self.place(),
            r.files() == self.files(),
    {
        let mut this = self;
        push_spaces(&mut this.buffer, identation);
        push_painted(&mut this.buffer, color, value);
        assert(this.buffer@ =~= self.body() + spaces(identation as nat) + painted(color@, value@));
        this
    }

    pub fn new_line(self) -> (r: ErrorGenerator<'a>)
        ensures
            r.body() == self.body() + seq!['\n'],
            r.headline() == self.headline(),
            r.margin() == self.margin(),
            r.place() == self.place(),
            r.files() == self.files(),
    {
        let mut this = self;
        string_push(&mut this.buffer, '\n');
        this
    }

    /// The whole message: `error:` and the headline, an arrow to the place,
    /// then the lines written.
    pub fn build(self) -> (r: String)
        ensures
            r@ == built_message(self.headline(), self.margin(), self.place(), self.body()),
    {
        let mut out = String::new();
        proof {
            reveal_strlit("error");
            reveal_strlit("---->");
        }
        push_painted(&mut out, color_red(), "error");
        string_push_str(&mut out, ": ");
        string_append(&mut out, &self.message);
        string_push(&mut out, '\n');
        string_push(&mut out, ' ');
        let indent = if self.identation >= 2 {
            self.identation - 2
        } else {
            0
        };
        push_spaces(&mut out, indent);
        push_painted(&mut out, color_blue(), "---->");
        string_push(&mut out, ' ');
        let place = self.location.describe();
        string_append(&mut out, &place);
        string_push(&mut out, '\n');
        string_append(&mut out, &self.buffer);
        proof {
            reveal_strlit(": ");
        }
        assert(out@ =~= built_message(self.headline(), self.margin(), self.place(), self.body()));
        out
    }
}

/// `file:column:row`, as messages print a location.
pub open spec fn place_text(l: LocationView) -> Seq<char> {
    l.file + seq![':'] + decimal_digits(l.column) + seq![':'] + decimal_digits(l.row)
}

/// The whole message built from its parts.
pub open spec fn built_message(headline: Seq<char>, margin: nat, place: LocationView, body: Seq<char>) -> Seq<char> {
    painted(red(), "error"@) + ": "@ + headline + seq!['\n', ' '] + spaces(
        if margin >= 2 {
            (margin - 2) as nat
        } else {
            0
        },
    ) + painted(blue(), "---->"@) + seq![' '] + place_text(place) + seq!['\n'] + body
}

/// `a`, `b` and `c` one after another.
fn concat3(a: &str, b: &String, c: &str) -> (r: String)
    ensures
        r@ == a@ + b@ + c@,
{
    let mut r = String::new();
    string_push_str(&mut r, a);
    string_append(&mut r, b);
    string_push_str(&mut r, c);
    assert(r@ =~= a@ + b@ + c@);
    r
}

/// `text` in bold.
pub open spec fn emphasised(text: Seq<char>) -> Seq<char> {
    bold() + text + unbold()
}

fn emphasise(text: &String) -> (r: String)
    ensures
        r@ == emphasised(text@),
{
    concat3(style_bold(), text, style_reset())
}

/// How a token of rasm is described in messages.
pub open spec fn asm_token_text(t: ASMTokenView) -> Seq<char> {
    match t {
        ASMTokenView::Instruction(i) => "Instruction token with value: "@ + instruction_type_name(i),
        ASMTokenView::Label(l) => "Label token with value: "@ + l,
        ASMTokenView::Interger(n) => "Number token with value: "@ + decimal_digits(n as nat),
        ASMTokenView::HashName(n) => "Hash name token with value: "@ + n,
        ASMTokenView::Identifier(n) => "Identifier token with value: "@ + n,
        ASMTokenView::Attribute(a) => "Attribute token with value: "@ + attribute_token_name(a),
        ASMTokenView::IntergerType(it) => "IntergerType token with valie: "@ + interger_type_name(it),
        ASMTokenView::Keyword(k) => "Keyword token with value: "@ + asm_keyword_name(k),
        ASMTokenView::String(v) => "String token with value: "@ + v,
        ASMTokenView::Plus => "Plus token"@,
        ASMTokenView::LBracket => "Left Bracket token"@,
        ASMTokenView::RBracket => "Right Bracket token"@,
        ASMTokenView::LCurly => "Left Curly token"@,
        ASMTokenView::RCurly => "Right Curly token"@,
        ASMTokenView::LRoundBracket => "Left Round Bracket token"@,
        ASMTokenView::RRoundBracket => "Right Round Bracket token"@,
        ASMTokenView::Arrow => "Arrow token"@,
        ASMTokenView::Comma => "Comma token"@,
        ASMTokenView::Minus => "Minus token"@,
        ASMTokenView::NewLine => "New line token"@,
    }
}

/// How a token of rin is described in messages.
pub open spec fn rin_token_text(t: RinTokenView) -> Seq<char> {
    match t {
        RinTokenView::Identifier(i) => "Identifier token with value `"@ + i + "`"@,
        RinTokenView::Interger(n) => "Interger token with value `"@ + decimal_digits(n as nat) + "`"@,
        RinTokenView::Type(p) => "Type token with value `"@ + primitive_type_name(p) + "`"@,
        RinTokenView::String(v) => "String token with value `"@ + v + "`"@,
        RinTokenView::Keyword(k) => "Keyword token with value `"@ + keyword_name(k) + "`"@,
        RinTokenView::Operator(o) => "Operator token with valie `"@ + operator_name(o) + "`"@,
        RinTokenView::RRoundBracket => "Right Round bracket token"@,
        RinTokenView::LRoundBracket => "Left Round bracket token"@,
        RinTokenView::LCurly => "Left Curly token"@,
        RinTokenView::RCurly => "Right Curly token"@,
        RinTokenView::Semicolon => "Semicolon token"@,
        RinTokenView::Dot => "Dot token"@,
        RinTokenView::Equals => "Equals token"@,
        RinTokenView::Comma => "Comma token"@,
        RinTokenView::Colon => "Colon token"@,
        RinTokenView::Arrow => "Arrow token"@,
        RinTokenView::NewLine => "new line token"@,
    }
}

fn prefixed(prefix: &str, text: &str) -> (r: String)
    ensures
        r@ == prefix@ + text@,
{
    let mut r = String::new();
    string_push_str(&mut r, prefix);
    string_push_str(&mut r, text);
    assert(r@ =~= prefix@ + text@);
    r
}

fn prefixed_string(prefix: &str, text: &String) -> (r: String)
    ensures
        r@ == prefix@ + text@,
{
    let mut r = String::new();
    string_push_str(&mut r, prefix);
    string_append(&mut r, text);
    assert(r@ =~= prefix@ + text@);
    r
}

impl ASMToken {
    /// The token as messages describe it.
    pub fn describe(&self) -> (r: String)
        ensures
            r@ == asm_token_text(self@),
    {
        match self {
            ASMToken::Instruction(i) => prefixed("Instruction token with value: ", i.name()),
            ASMToken::Label(l) => prefixed_string("Label token with value: ", l),
            ASMToken::Interger(n) => prefixed_string("Number token with value: ", &u64_to_decimal(*n)),
            ASMToken::HashName(n) => prefixed_string("Hash name token with value: ", n),
            ASMToken::Identifier(n) => prefixed_string("Identifier token with value: ", n),
            ASMToken::Attribute(a) => prefixed("Attribute token with value: ", a.name()),
            ASMToken::IntergerType(it) => prefixed("IntergerType token with valie: ", it.name()),
            ASMToken::Keyword(k) => prefixed("Keyword token with value: ", k.name()),
            ASMToken::String(v) => prefixed_string("String token with value: ", v),
            ASMToken::Plus => String::from_str("Plus token"),
            ASMToken::LBracket => String::from_str("Left Bracket token"),
            ASMToken::RBracket => String::from_str("Right Bracket token"),
            ASMToken::LCurly => String::from_str("Left Curly token"),
            ASMToken::RCurly => String::from_str("Right Curly token"),
            ASMToken::LRoundBracket => String::from_str("Left Round Bracket token"),
            ASMToken::RRoundBracket => String::from_str("Right Round Bracket token"),
            ASMToken::Arrow => String::from_str("Arrow token"),
            ASMToken::Comma => String::from_str("Comma token"),
            ASMToken::Minus => String::from_str("Minus token"),
            ASMToken::NewLine => String::from_str("New line token"),
        }
    }
}

impl RinToken {
    /// The token as messages describe it.
    pub fn describe(&self) -> (r: String)
        ensures
            r@ == rin_token_text(self@),
    {
        match self {
            RinToken::Identifier(i) => concat3("Identifier token with value `", i, "`"),
            RinToken::Interger(n) => concat3("Interger token with value `", &u64_to_decimal(*n), "`"),
            RinToken::Type(p) => concat3(
                "Type token with value `",
                &String::from_str(p.name()),
                "`",
            ),
            RinToken::String(v) => concat3("String token with value `", v, "`"),
            RinToken::Keyword(k) => concat3(
                "Keyword token with value `",
                &String::from_str(k.name()),
                "`",
            ),
            RinToken::Operator(o) => concat3(
                "Operator token with valie `",
                &String::from_str(o.name()),
                "`",
            ),
            RinToken::RRoundBracket => String::from_str("Right Round bracket token"),
            RinToken::LRoundBracket => String::from_str("Left Round bracket token"),
            RinToken::LCurly => String::from_str("Left Curly token"),
            RinToken::RCurly => String::from_str("Right Curly token"),
            RinToken::Semicolon => String::from_str("Semicolon token"),
            RinToken::Dot => String::from_str("Dot token"),
            RinToken::Equals => String::from_str("Equals token"),
            RinToken::Comma => String::from_str("Comma token"),
            RinToken::Colon => String::from_str("Colon token"),
            RinToken::Arrow => String::from_str("Arrow token"),
            RinToken::NewLine => String::from_str("new line token"),
        }
    }
}

/// The margin: `text` padded to the margin's width, then a bar.
pub open spec fn pipe(text: Seq<char>, margin: nat) -> Seq<char> {
    painted(blue(), text) + seq![' '] + spaces((margin - text.len()) as nat) + painted(blue(), seq!['|'])
}

/// `n` spaces, then the mark `c` followed by `text`, in `color`.
pub open spec fn mark(n: nat, text: Seq<char>, c: char, color: Seq<char>) -> Seq<char> {
    spaces(n) + painted(color, seq![c] + text)
}

/// `n` spaces, then `text` in `color`.
pub open spec fn indented(n: nat, text: Seq<char>, color: Seq<char>) -> Seq<char> {
    spaces(n) + painted(color, text)
}

/// The number `n` in decimal.
pub open spec fn dec(n: nat) -> Seq<char> {
    decimal_digits(n)
}

/// The body of a message that points at `l` in `line`: the line number and
/// the line, then a caret under the place.
pub open spec fn pointed_body(l: LocationView, line: Seq<char>) -> Seq<char> {
    let margin = dec(l.column).len();
    pipe(dec(l.column), margin) + seq![' '] + line + seq!['\n'] + pipe(seq![], margin) + mark(
        l.row,
        seq![],
        '^',
        red(),
    )
}

/// A message with headline `headline` that quotes the line of `l`.
pub open spec fn pointed_message(
    l: LocationView,
    headline: Seq<char>,
    sources: Seq<(Seq<char>, Seq<Seq<char>>)>,
) -> Seq<char> {
    built_message(
        headline,
        dec(l.column).len(),
        l,
        pointed_body(l, source_line(sources, l.file, l.column)->0),
    )
}

/// Whether the sources hold the line of `l`.
pub open spec fn has_line(sources: Seq<(Seq<char>, Seq<Seq<char>>)>, l: LocationView) -> bool {
    source_line(sources, l.file, l.column) is Some
}

/// Whether a source line exists, as `source_line` says.
pub fn line_exists(sources: &Vec<(String, Vec<String>)>, file: &String, column: usize) -> (r: bool)
    ensures
        r == source_line(sources_view(sources@), file@, column as nat) is Some,
{
    let ghost all = sources_view(sources@);
    assert(all.skip(0) =~= all);
    let mut k: usize = 0;
    while k < sources.len()
        invariant
            all == sources_view(sources@),
            k <= sources@.len(),
            source_line(all, file@, column as nat) == source_line(all.skip(k as int), file@, column as nat),
        decreases sources@.len() - k,
    {
        let ghost rest = all.skip(k as int);
        assert(rest[0] == all[k as int]);
        assert(rest.drop_first() =~= all.skip(k + 1));
        if crate::chars::str_eq(sources[k].0.as_str(), file.as_str()) {
            return 1 <= column && column <= sources[k].1.len();
        }
        k = k + 1;
    }
    assert(all.skip(k as int) =~= Seq::<(Seq<char>, Seq<Seq<char>>)>::empty());
    false
}

/// A message with headline `message` that quotes the line of `location`.
fn pointed(location: &Location, message: String, sources: &Vec<(String, Vec<String>)>) -> (r: String)
    requires
        has_line(sources_view(sources@), location@),
    ensures
        r@ == pointed_message(location@, message@, sources_view(sources@)),
{
    let column = u64_to_decimal(location.column() as u64);
    let width = column.as_str().unicode_len();
    proof {
        reveal_strlit("");
    }
    let g = ErrorGenerator::new(location, message, width, sources).vertical_pipe(
        column.as_str(),
    ).write_line(location.column()).new_line().vertical_pipe("").pointer(
        location.row(),
        "",
        '^',
        color_red(),
    );
    assert(g.body() =~= pointed_body(
        location@,
        source_line(sources_view(sources@), location@.file, location@.column)->0,
    ));
    g.build()
}

/// What an invalid number literal is, as std's integer parser words it.
pub open spec fn int_error_text(k: IntErrorKind) -> Seq<char> {
    match k {
        IntErrorKind::Empty => "cannot parse integer from empty string"@,
        IntErrorKind::PosOverflow => "number too large to fit in target type"@,
    }
}

/// The message for a lexer error.
pub open spec fn lexer_message(e: LexErrorView, sources: Seq<(Seq<char>, Seq<Seq<char>>)>) -> Seq<char> {
    match e {
        LexErrorView::InvalidToken(b, l) => pointed_message(
            l,
            emphasised("Invalid token `"@ + b + "`"@),
            sources,
        ),
        LexErrorView::InvalidInterger(k) => "Trying to tokenize invalid number, "@ + int_error_text(k),
        LexErrorView::InvalidEscapeSequence(b, l) => pointed_message(
            l,
            emphasised("Invalid escape sequence `"@ + b + "` "@),
            sources,
        ),
        LexErrorView::ExpectedEndDoubleQuote(_, l) => pointed_message(
            l,
            emphasised("Unclosed string literal "@),
            sources,
        ),
        LexErrorView::ExpectedEndAngelBracket(_, l) => pointed_message(
            l,
            emphasised("Unclosed hash name "@),
            sources,
        ),
        LexErrorView::InvalidAttribute(b, l) => pointed_message(
            l,
            emphasised("Invalid attribute `"@ + b + "`"@),
            sources,
        ),
        LexErrorView::EndOfBuffer => "trying to read next token but already at the end of the buffer"@,
    }
}

/// Whether the sources hold every line the lexer error's message quotes.
pub open spec fn lexer_quotes(e: LexErrorView, sources: Seq<(Seq<char>, Seq<Seq<char>>)>) -> bool {
    match e {
        LexErrorView::InvalidToken(_, l) => has_line(sources, l),
        LexErrorView::InvalidEscapeSequence(_, l) => has_line(sources, l),
        LexErrorView::ExpectedEndDoubleQuote(_, l) => has_line(sources, l),
        LexErrorView::ExpectedEndAngelBracket(_, l) => has_line(sources, l),
        LexErrorView::InvalidAttribute(_, l) => has_line(sources, l),
        _ => true,
    }
}

impl LexerError {
    /// Whether `sources` hold every line the message quotes.
    pub fn can_describe(&self, sources: &Vec<(String, Vec<String>)>) -> (r: bool)
        ensures
            r == lexer_quotes(self@, sources_view(sources@)),
    {
        match self {
            LexerError::InvalidToken(_, l) => line_exists(sources, l.file(), l.column()),
            LexerError::InvalidEscapeSequence(_, l) => line_exists(sources, l.file(), l.column()),
            LexerError::ExpectedEndDoubleQuote(_, l) => line_exists(sources, l.file(), l.column()),
            LexerError::ExpectedEndAngelBracket(_, l) => line_exists(sources, l.file(), l.column()),
            LexerError::InvalidAttribute(_, l) => line_exists(sources, l.file(), l.column()),
            _ => true,
        }
    }

    /// The message, quoting the offending line from `sources`.
    pub fn message(&self, sources: &Vec<(String, Vec<String>)>) -> (r: String)
        requires
            lexer_quotes(self@, sources_view(sources@)),
        ensures
            r@ == lexer_message(self@, sources_view(sources@)),
    {
        match self {
            LexerError::InvalidToken(b, l) => pointed(
                l,
                emphasise(&concat3("Invalid token `", b, "`")),
                sources,
            ),
            LexerError::InvalidInterger(k) => prefixed(
                "Trying to tokenize invalid number, ",
                match k {
                    IntErrorKind::Empty => "cannot parse integer from empty string",
                    IntErrorKind::PosOverflow => "number too large to fit in target type",
                },
            ),
            LexerError::InvalidEscapeSequence(b, l) => pointed(
                l,
                emphasise(&concat3("Invalid escape sequence `", b, "` ")),
                sources,
            ),
            LexerError::ExpectedEndDoubleQuote(_, l) => pointed(
                l,
                emphasise(&String::from_str("Unclosed string literal ")),
                sources,
            ),
            LexerError::ExpectedEndAngelBracket(_, l) => pointed(
                l,
                emphasise(&String::from_str("Unclosed hash name ")),
                sources,
            ),
            LexerError::InvalidAttribute(b, l) => pointed(
                l,
                emphasise(&concat3("Invalid attribute `", b, "`")),
                sources,
            ),
            LexerError::EndOfBuffer => String::from_str(
                "trying to read next token but already at the end of the buffer",
            ),
        }
    }
}

/// The message for a parser or assembler error, the unexpected token
/// described as `token`.
pub open spec fn compiler_message<V>(
    e: CompileErrorView<V>,
    token: Seq<char>,
    sources: Seq<(Seq<char>, Seq<Seq<char>>)>,
) -> Seq<char> {
    match e {
        CompileErrorView::UnexpectedToken(Some((_, l))) => pointed_message(
            l,
            emphasised("Unexpected token `"@ + token + "`"@),
            sources,
        ),
        CompileErrorView::UnexpectedToken(None) => "Unexpected Token"@,
        CompileErrorView::UndefinedLabel(label, l) => "Undefied label `"@ + label + "` at line "@
            + place_text(l),
        CompileErrorView::MultipleLabel(label, l) => "the label name `"@ + label
            + "` is defined multiple times at line "@ + place_text(l),
        CompileErrorView::InvalidArgument(l) => "invalid argument on line "@ + place_text(l),
    }
}

/// Whether the sources hold every line the message quotes.
pub open spec fn compiler_quotes<V>(e: CompileErrorView<V>, sources: Seq<(Seq<char>, Seq<Seq<char>>)>) -> bool {
    match e {
        CompileErrorView::UnexpectedToken(Some((_, l))) => has_line(sources, l),
        _ => true,
    }
}

fn compiler_message_with<T: View>(
    e: &CompilerError<T>,
    token: &String,
    sources: &Vec<(String, Vec<String>)>,
) -> (r: String)
    requires
        compiler_quotes(e@, sources_view(sources@)),
    ensures
        r@ == compiler_message(e@, token@, sources_view(sources@)),
{
    match e {
        CompilerError::UnexpectedToken(Some(t)) => pointed(
            t.location(),
            emphasise(&concat3("Unexpected token `", token, "`")),
            sources,
        ),
        CompilerError::UnexpectedToken(None) => String::from_str("Unexpected Token"),
        CompilerError::UndefinedLabel(label, l) => {
            let mut r = concat3("Undefied label `", label, "` at line ");
            string_append(&mut r, &l.describe());
            r
        },
        CompilerError::MultipleLabel(label, l) => {
            let mut r = concat3("the label name `", label, "` is defined multiple times at line ");
            string_append(&mut r, &l.describe());
            r
        },
        CompilerError::InvalidArgument(l) => prefixed_string("invalid argument on line ", &l.describe()),
    }
}

/// Whether the sources hold the line of a located error.
fn compiler_can_describe<T: View>(e: &CompilerError<T>, sources: &Vec<(String, Vec<String>)>) -> (r: bool)
    ensures
        r == compiler_quotes(e@, sources_view(sources@)),
{
    match e {
        CompilerError::UnexpectedToken(Some(t)) => line_exists(
            sources,
            t.location().file(),
            t.location().column(),
        ),
        _ => true,
    }
}

/// The unexpected token of an error, as plain values.
pub open spec fn unexpected_token<V>(e: CompileErrorView<V>) -> Option<V> {
    match e {
        CompileErrorView::UnexpectedToken(Some((t, _))) => Some(t),
        _ => None,
    }
}

impl CompilerError<ASMToken> {
    /// Whether `sources` hold every line the message quotes.
    pub fn can_describe(&self, sources: &Vec<(String, Vec<String>)>) -> (r: bool)
        ensures
            r == compiler_quotes(self@, sources_view(sources@)),
    {
        compiler_can_describe(self, sources)
    }

    /// The message, quoting the offending line from `sources`.
    pub fn message(&self, sources: &Vec<(String, Vec<String>)>) -> (r: String)
        requires
            compiler_quotes(self@, sources_view(sources@)),
        ensures
            r@ == compiler_message(
                self@,
                match unexpected_token(self@) {
                    Some(t) => asm_token_text(t),
                    None => seq![],
                },
                sources_view(sources@),
            ),
    {
        let token = match self {
            CompilerError::UnexpectedToken(Some(t)) => t.value().describe(),
            _ => String::new(),
        };
        compiler_message_with(self, &token, sources)
    }
}

impl CompilerError<RinToken> {
    /// Whether `sources` hold every line the message quotes.
    pub fn can_describe(&self, sources: &Vec<(String, Vec<String>)>) -> (r: bool)
        ensures
            r == compiler_quotes(self@, sources_view(sources@)),
    {
        compiler_can_describe(self, sources)
    }

    /// The message, quoting the offending line from `sources`.
    pub fn message(&self, sources: &Vec<(String, Vec<String>)>) -> (r: String)
        requires
            compiler_quotes(self@, sources_view(sources@)),
        ensures
            r@ == compiler_message(
                self@,
                match unexpected_token(self@) {
                    Some(t) => rin_token_text(t),
                    None => seq![],
                },
                sources_view(sources@),
            ),
    {
        let token = match self {
            CompilerError::UnexpectedToken(Some(t)) => t.value().describe(),
            _ => String::new(),
        };
        compiler_message_with(self, &token, sources)
    }
}

/// The larger of two numbers.
pub open spec fn larger(a: nat, b: nat) -> nat {
    if a >= b {
        a
    } else {
        b
    }
}

/// Whether two places lie in the same line of the same file.
pub open spec fn same_line(a: LocationView, b: LocationView) -> bool {
    a.column == b.column && a.file == b.file
}

pub open spec fn argument_count_headline(kind: Seq<char>, expected: nat, found: nat) -> Seq<char> {
    emphasised(kind + " arguments. Expected "@ + dec(expected) + " arguments but found "@ + dec(found)
        + " arguments"@)
}

pub open spec fn type_headline(e: Seq<char>, u: Seq<char>) -> Seq<char> {
    emphasised("Unexpected type. expected `"@ + e + "` found `"@ + u + "`"@)
}

pub open spec fn type_note(e: Seq<char>, u: Seq<char>) -> Seq<char> {
    " expected `"@ + e + "`, found `"@ + u + "`"@
}

/// The body of a message about too many arguments whose call and argument
/// lie in one line.
pub open spec fn too_much_together_body(
    pl: LocationView,
    al: LocationView,
    line: Seq<char>,
    params: nat,
    unexpected: nat,
) -> Seq<char> {
    let margin = dec(pl.column).len();
    pipe(dec(pl.column), margin) + seq![' '] + line + seq!['\n'] + pipe(seq![], margin) + mark(
        pl.row,
        seq![],
        '^',
        blue(),
    ) + mark((al.row - pl.row - 1) as nat, " Unexpected argument #"@ + dec(unexpected), '^', red())
        + seq!['\n'] + pipe(seq![], margin) + mark(pl.row, seq![], '|', blue()) + seq!['\n'] + pipe(
        seq![],
        margin,
    ) + indented(pl.row, "Takes "@ + dec(params) + " arguments."@, blue())
}

/// The body of a message about too many arguments whose call and argument
/// lie in different lines.
pub open spec fn too_much_apart_body(
    pl: LocationView,
    al: LocationView,
    arg_line: Seq<char>,
    call_line: Seq<char>,
    params: nat,
    unexpected: nat,
) -> Seq<char> {
    let margin = larger(dec(pl.column).len(), dec(al.column).len());
    pipe(dec(al.column), margin) + seq![' '] + arg_line + seq!['\n'] + pipe(seq![], margin) + mark(
        al.row,
        " Unexpected argument #"@ + dec(unexpected) + "`"@,
        '^',
        red(),
    ) + seq!['\n'] + pipe(dec(pl.column), margin) + seq![' '] + call_line + seq!['\n'] + pipe(
        seq![],
        margin,
    ) + mark(pl.row, " Takes "@ + dec(params) + " arguments."@, '^', blue())
}

/// The body of a message about a type found where another was expected,
/// both in one line.
pub open spec fn type_together_body(
    l: LocationView,
    ul: LocationView,
    line: Seq<char>,
    note: Seq<char>,
) -> Seq<char> {
    let margin = dec(ul.column).len();
    pipe(dec(ul.column), margin) + seq![' '] + line + seq!['\n'] + pipe(seq![], margin) + mark(
        l.row,
        seq![],
        '^',
        blue(),
    ) + mark((ul.row - l.row - 1) as nat, note, '^', red()) + seq!['\n'] + pipe(seq![], margin)
        + mark(l.row, seq![], '|', blue()) + seq!['\n'] + pipe(seq![], margin) + indented(
        l.row,
        "expected due to this"@,
        blue(),
    )
}

/// The body of a message about a type found where another was expected,
/// in different lines.
pub open spec fn type_apart_body(
    l: LocationView,
    ul: LocationView,
    found_line: Seq<char>,
    expected_line: Seq<char>,
    note: Seq<char>,
) -> Seq<char> {
    let margin = larger(dec(ul.column).len(), dec(l.column).len());
    pipe(dec(ul.column), margin) + seq![' '] + found_line + seq!['\n'] + pipe(seq![], margin) + mark(
        ul.row,
        note,
        '^',
        red(),
    ) + seq!['\n'] + pipe(dec(l.column), margin) + seq![' '] + expected_line + seq!['\n'] + pipe(
        seq![],
        margin,
    ) + mark(l.row, seq![], '^', blue()) + seq!['\n'] + pipe(seq![], margin) + mark(
        l.row,
        seq![],
        '|',
        blue(),
    ) + seq!['\n'] + pipe(seq![], margin) + indented(l.row, "expected due to this"@, blue())
}

/// The message for a generation error.
pub open spec fn generator_message(e: GenErrorView, sources: Seq<(Seq<char>, Seq<Seq<char>>)>) -> Seq<char> {
    match e {
        GenErrorView::UndefinedVariable((name, l)) => pointed_message(
            l,
            emphasised("Use of undefined variable `"@ + name + "`"@),
            sources,
        ),
        GenErrorView::UndefinedProcedure((path, l)) => pointed_message(
            l,
            emphasised("Use of undefined procedure `"@ + join_with(path, '.') + "`"@),
            sources,
        ),
        GenErrorView::UndefinedModule(path) => painted(red(), "error"@) + ": "@ + emphasised(
            "Import of an undefined module `"@ + join_with(path, '.') + "`"@,
        ),
        GenErrorView::TooMuchArguments((_, pl), (_, al), args, params, unexpected) => {
            let headline = argument_count_headline("Too much"@, params, args);
            if same_line(pl, al) {
                built_message(
                    headline,
                    dec(pl.column).len(),
                    pl,
                    too_much_together_body(
                        pl,
                        al,
                        source_line(sources, pl.file, pl.column)->0,
                        params,
                        unexpected,
                    ),
                )
            } else {
                built_message(
                    headline,
                    larger(dec(pl.column).len(), dec(al.column).len()),
                    al,
                    too_much_apart_body(
                        pl,
                        al,
                        source_line(sources, al.file, al.column)->0,
                        source_line(sources, al.file, pl.column)->0,
                        params,
                        unexpected,
                    ),
                )
            }
        },
        GenErrorView::TooFewArguemnts((_, l), args, params, missing) => {
            let margin = dec(l.column).len();
            built_message(
                argument_count_headline("Too few"@, params, args),
                margin,
                l,
                pipe(dec(l.column), margin) + seq![' '] + source_line(sources, l.file, l.column)->0
                    + seq!['\n'] + pipe(seq![], margin) + mark(
                    l.row,
                    " argument #"@ + dec(missing) + " is missing"@,
                    '^',
                    red(),
                ),
            )
        },
        GenErrorView::UnexpectedType { expected: (et, l), unexpected: (ut, ul) } => {
            let headline = type_headline(rin_type_name(et), rin_type_name(ut));
            let note = type_note(rin_type_name(et), rin_type_name(ut));
            if same_line(l, ul) {
                built_message(
                    headline,
                    dec(ul.column).len(),
                    ul,
                    type_together_body(l, ul, source_line(sources, ul.file, ul.column)->0, note),
                )
            } else {
                built_message(
                    headline,
                    larger(dec(ul.column).len(), dec(l.column).len()),
                    ul,
                    type_apart_body(
                        l,
                        ul,
                        source_line(sources, ul.file, ul.column)->0,
                        source_line(sources, l.file, l.column)->0,
                        note,
                    ),
                )
            }
        },
    }
}

/// Whether the sources hold every line the message quotes, and the places
/// lie in the order the message draws them in.
pub open spec fn generator_quotes(e: GenErrorView, sources: Seq<(Seq<char>, Seq<Seq<char>>)>) -> bool {
    match e {
        GenErrorView::UndefinedVariable((_, l)) => has_line(sources, l),
        GenErrorView::UndefinedProcedure((_, l)) => has_line(sources, l),
        GenErrorView::UndefinedModule(_) => true,
        GenErrorView::TooMuchArguments((_, pl), (_, al), _, _, _) => if same_line(pl, al) {
            has_line(sources, pl) && al.row >= pl.row + 1
        } else {
            has_line(sources, al) && source_line(sources, al.file, pl.column) is Some
        },
        GenErrorView::TooFewArguemnts((_, l), _, _, _) => has_line(sources, l),
        GenErrorView::UnexpectedType { expected: (_, l), unexpected: (_, ul) } => if same_line(
            l,
            ul,
        ) {
            has_line(sources, ul) && ul.row >= l.row + 1
        } else {
            has_line(sources, ul) && has_line(sources, l)
        },
    }
}

fn dec_string(n: usize) -> (r: String)
    ensures
        r@ == dec(n as nat),
{
    u64_to_decimal(n as u64)
}

fn count_headline(kind: &str, expected: usize, found: usize) -> (r: String)
    ensures
        r@ == argument_count_headline(kind@, expected as nat, found as nat),
{
    let mut s = String::new();
    string_push_str(&mut s, kind);
    string_push_str(&mut s, " arguments. Expected ");
    string_append(&mut s, &dec_string(expected));
    string_push_str(&mut s, " arguments but found ");
    string_append(&mut s, &dec_string(found));
    string_push_str(&mut s, " arguments");
    let r = emphasise(&s);
    assert(s@ =~= kind@ + " arguments. Expected "@ + dec(expected as nat) + " arguments but found "@
        + dec(found as nat) + " arguments"@);
    r
}

fn type_strings(e: &crate::compiler::rin_compiler::Type, u: &crate::compiler::rin_compiler::Type) -> (r: (String, String))
    ensures
        r.0@ == type_headline(rin_type_name(*e), rin_type_name(*u)),
        r.1@ == type_note(rin_type_name(*e), rin_type_name(*u)),
{
    let mut h = String::new();
    string_push_str(&mut h, "Unexpected type. expected `");
    string_push_str(&mut h, e.name());
    string_push_str(&mut h, "` found `");
    string_push_str(&mut h, u.name());
    string_push_str(&mut h, "`");
    let mut n = String::new();
    string_push_str(&mut n, " expected `");
    string_push_str(&mut n, e.name());
    string_push_str(&mut n, "`, found `");
    string_push_str(&mut n, u.name());
    string_push_str(&mut n, "`");
    assert(h@ =~= "Unexpected type. expected `"@ + rin_type_name(*e) + "` found `"@ + rin_type_name(*u)
        + "`"@);
    assert(n@ =~= type_note(rin_type_name(*e), rin_type_name(*u)));
    (emphasise(&h), n)
}

impl GeneratorError {
    /// Whether `sources` hold every line the message quotes, and the places
    /// lie in the order the message draws them in.
    pub fn can_describe(&self, sources: &Vec<(String, Vec<String>)>) -> (r: bool)
        ensures
            r == generator_quotes(self@, sources_view(sources@)),
    {
        match self {
            GeneratorError::UndefinedVariable(n) => line_exists(sources, n.location.file(), n.location.column()),
            GeneratorError::UndefinedProcedure(p) => line_exists(sources, p.location.file(), p.location.column()),
            GeneratorError::UndefinedModule(_) => true,
            GeneratorError::TooMuchArguments(p, a, _, _, _) => {
                let pl = &p.location;
                let al = &a.location;
                if pl.column() == al.column() && crate::chars::str_eq(pl.file().as_str(), al.file().as_str()) {
                    line_exists(sources, pl.file(), pl.column()) && al.row() > pl.row()
                } else {
                    line_exists(sources, al.file(), al.column()) && line_exists(sources, al.file(), pl.column())
                }
            },
            GeneratorError::TooFewArguemnts(p, _, _, _) => line_exists(sources, p.location.file(), p.location.column()),
            GeneratorError::UnexpectedType { expected, unexpected } => {
                let l = &expected.location;
                let ul = &unexpected.location;
                if l.column() == ul.column() && crate::chars::str_eq(l.file().as_str(), ul.file().as_str()) {
                    line_exists(sources, ul.file(), ul.column()) && ul.row() > l.row()
                } else {
                    line_exists(sources, ul.file(), ul.column()) && line_exists(sources, l.file(), l.column())
                }
            },
        }
    }

    /// The message, quoting the offending lines from `sources`.
    pub fn message(&self, sources: &Vec<(String, Vec<String>)>) -> (r: String)
        requires
            generator_quotes(self@, sources_view(sources@)),
        ensures
            r@ == generator_message(self@, sources_view(sources@)),
    {
        match self {
            GeneratorError::UndefinedVariable(n) => pointed(
                &n.location,
                emphasise(&concat3("Use of undefined variable `", &n.value, "`")),
                sources,
            ),
            GeneratorError::UndefinedProcedure(p) => pointed(
                &p.location,
                emphasise(&concat3("Use of undefined procedure `", &p.value.dotted(), "`")),
                sources,
            ),
            GeneratorError::UndefinedModule(path) => undefined_module_message(path),
            GeneratorError::TooMuchArguments(p, a, args, params, unexpected) => too_much_message(
                &p.location,
                &a.location,
                *args,
                *params,
                *unexpected,
                sources,
            ),
            GeneratorError::TooFewArguemnts(p, args, params, missing) => too_few_message(
                &p.location,
                *args,
                *params,
                *missing,
                sources,
            ),
            GeneratorError::UnexpectedType { expected, unexpected } => type_message(
                &expected.location,
                &unexpected.location,
                &expected.value,
                &unexpected.value,
                sources,
            ),
        }
    }
}

fn undefined_module_message(path: &crate::compiler::rin_compiler::Path) -> (r: String)
    ensures
        r@ == painted(red(), "error"@) + ": "@ + emphasised(
            "Import of an undefined module `"@ + join_with(path@, '.') + "`"@,
        ),
{
    let mut r = String::new();
    push_painted(&mut r, color_red(), "error");
    string_push_str(&mut r, ": ");
    string_append(&mut r, &emphasise(&concat3("Import of an undefined module `", &path.dotted(), "`")));
    proof {
        reveal_strlit("error");
        reveal_strlit(": ");
    }
    assert(r@ =~= painted(red(), "error"@) + ": "@ + emphasised(
        "Import of an undefined module `"@ + join_with(path@, '.') + "`"@,
    ));
    r
}

fn too_much_message(
    pl: &Location,
    al: &Location,
    args: usize,
    params: usize,
    unexpected: usize,
    sources: &Vec<(String, Vec<String>)>,
) -> (r: String)
    requires
        if same_line(pl@, al@) {
            has_line(sources_view(sources@), pl@) && al@.row >= pl@.row + 1
        } else {
            has_line(sources_view(sources@), al@) && source_line(
                sources_view(sources@),
                al@.file,
                pl@.column,
            ) is Some
        },
    ensures
        r@ == (if same_line(pl@, al@) {
            built_message(
                argument_count_headline("Too much"@, params as nat, args as nat),
                dec(pl@.column).len(),
                pl@,
                too_much_together_body(
                    pl@,
                    al@,
                    source_line(sources_view(sources@), pl@.file, pl@.column)->0,
                    params as nat,
                    unexpected as nat,
                ),
            )
        } else {
            built_message(
                argument_count_headline("Too much"@, params as nat, args as nat),
                larger(dec(pl@.column).len(), dec(al@.column).len()),
                al@,
                too_much_apart_body(
                    pl@,
                    al@,
                    source_line(sources_view(sources@), al@.file, al@.column)->0,
                    source_line(sources_view(sources@), al@.file, pl@.column)->0,
                    params as nat,
                    unexpected as nat,
                ),
            )
        }),
{
    let headline = count_headline("Too much", params, args);
    let mut note = String::new();
    string_push_str(&mut note, " Unexpected argument #");
    string_append(&mut note, &dec_string(unexpected));
    if pl.column() == al.column() && crate::chars::str_eq(pl.file().as_str(), al.file().as_str()) {
        too_much_together(pl, al, headline, &note, params, sources)
    } else {
        string_push_str(&mut note, "`");
        too_much_apart(pl, al, headline, &note, params, sources)
    }
}

#[verifier::rlimit(60)]
#[verifier::spinoff_prover]
fn too_much_together(
    pl: &Location,
    al: &Location,
    headline: String,
    note: &String,
    params: usize,
    sources: &Vec<(String, Vec<String>)>,
) -> (r: String)
    requires
        has_line(sources_view(sources@), pl@),
        al@.row >= pl@.row + 1,
    ensures
        r@ == built_message(
            headline@,
            dec(pl@.column).len(),
            pl@,
            pipe(dec(pl@.column), dec(pl@.column).len()) + seq![' '] + source_line(
                sources_view(sources@),
                pl@.file,
                pl@.column,
            )->0 + seq!['\n'] + pipe(seq![], dec(pl@.column).len()) + mark(
                pl@.row,
                seq![],
                '^',
                blue(),
            ) + mark((al@.row - pl@.row - 1) as nat, note@, '^', red()) + seq!['\n'] + pipe(
                seq![],
                dec(pl@.column).len(),
            ) + mark(pl@.row, seq![], '|', blue()) + seq!['\n'] + pipe(
                seq![],
                dec(pl@.column).len(),
            ) + indented(pl@.row, "Takes "@ + dec(params as nat) + " arguments."@, blue()),
        ),
{
    proof {
        reveal_strlit("");
    }
    let column = dec_string(pl.column());
    let width = column.as_str().unicode_len();
    let takes = concat3("Takes ", &dec_string(params), " arguments.");
    let g = ErrorGenerator::new(pl, headline, width, sources)
        .vertical_pipe(column.as_str())
        .write_line(pl.column())
        .new_line()
        .vertical_pipe("")
        .pointer(pl.row(), "", '^', color_blue())
        .pointer(al.row() - pl.row() - 1, note.as_str(), '^', color_red())
        .new_line()
        .vertical_pipe("")
        .pointer(pl.row(), "", '|', color_blue())
        .new_line()
        .vertical_pipe("")
        .ident_string(pl.row(), takes.as_str(), color_blue());
    assert(g.body() =~= pipe(dec(pl@.column), dec(pl@.column).len()) + seq![' '] + source_line(
        sources_view(sources@),
        pl@.file,
        pl@.column,
    )->0 + seq!['\n'] + pipe(seq![], dec(pl@.column).len()) + mark(pl@.row, seq![], '^', blue())
        + mark((al@.row - pl@.row - 1) as nat, note@, '^', red()) + seq!['\n'] + pipe(
        seq![],
        dec(pl@.column).len(),
    ) + mark(pl@.row, seq![], '|', blue()) + seq!['\n'] + pipe(seq![], dec(pl@.column).len())
        + indented(pl@.row, "Takes "@ + dec(params as nat) + " arguments."@, blue()));
    g.build()
}

#[verifier::rlimit(60)]
#[verifier::spinoff_prover]
fn too_much_apart(
    pl: &Location,
    al: &Location,
    headline: String,
    note: &String,
    params: usize,
    sources: &Vec<(String, Vec<String>)>,
) -> (r: String)
    requires
        has_line(sources_view(sources@), al@),
        source_line(sources_view(sources@), al@.file, pl@.column) is Some,
    ensures
        r@ == built_message(
            headline@,
            larger(dec(pl@.column).len(), dec(al@.column).len()),
            al@,
            pipe(dec(al@.column), larger(dec(pl@.column).len(), dec(al@.column).len())) + seq![' ']
                + source_line(sources_view(sources@), al@.file, al@.column)->0 + seq!['\n'] + pipe(
                seq![],
                larger(dec(pl@.column).len(), dec(al@.column).len()),
            ) + mark(al@.row, note@, '^', red()) + seq!['\n'] + pipe(
                dec(pl@.column),
                larger(dec(pl@.column).len(), dec(al@.column).len()),
            ) + seq![' '] + source_line(sources_view(sources@), al@.file, pl@.column)->0 + seq!['\n']
                + pipe(seq![], larger(dec(pl@.column).len(), dec(al@.column).len())) + mark(
                pl@.row,
                " Takes "@ + dec(params as nat) + " arguments."@,
                '^',
                blue(),
            ),
        ),
{
    proof {
        reveal_strlit("");
    }
    let column = dec_string(al.column());
    let other = dec_string(pl.column());
    let width = if column.as_str().unicode_len() >= other.as_str().unicode_len() {
        column.as_str().unicode_len()
    } else {
        other.as_str().unicode_len()
    };
    let takes = concat3(" Takes ", &dec_string(params), " arguments.");
    let g = ErrorGenerator::new(al, headline, width, sources)
        .vertical_pipe(column.as_str())
        .write_line(al.column())
        .new_line()
        .vertical_pipe("")
        .pointer(al.row(), note.as_str(), '^', color_red())
        .new_line()
        .vertical_pipe(other.as_str())
        .write_line(pl.column())
        .new_line()
        .vertical_pipe("")
        .pointer(pl.row(), takes.as_str(), '^', color_blue());
    let ghost m = larger(dec(pl@.column).len(), dec(al@.column).len());
    assert(g.body() =~= pipe(dec(al@.column), m) + seq![' '] + source_line(
        sources_view(sources@),
        al@.file,
        al@.column,
    )->0 + seq!['\n'] + pipe(seq![], m) + mark(al@.row, note@, '^', red()) + seq!['\n'] + pipe(
        dec(pl@.column),
        m,
    ) + seq![' '] + source_line(sources_view(sources@), al@.file, pl@.column)->0 + seq!['\n'] + pipe(
        seq![],
        m,
    ) + mark(pl@.row, " Takes "@ + dec(params as nat) + " arguments."@, '^', blue()));
    g.build()
}

fn too_few_message(
    l: &Location,
    args: usize,
    params: usize,
    missing: usize,
    sources: &Vec<(String, Vec<String>)>,
) -> (r: String)
    requires
        has_line(sources_view(sources@), l@),
    ensures
        r@ == built_message(
            argument_count_headline("Too few"@, params as nat, args as nat),
            dec(l@.column).len(),
            l@,
            pipe(dec(l@.column), dec(l@.column).len()) + seq![' '] + source_line(
                sources_view(sources@),
                l@.file,
                l@.column,
            )->0 + seq!['\n'] + pipe(seq![], dec(l@.column).len()) + mark(
                l@.row,
                " argument #"@ + dec(missing as nat) + " is missing"@,
                '^',
                red(),
            ),
        ),
{
    proof {
        reveal_strlit("");
    }
    let column = dec_string(l.column());
    let width = column.as_str().unicode_len();
    let note = concat3(" argument #", &dec_string(missing), " is missing");
    let g = ErrorGenerator::new(l, count_headline("Too few", params, args), width, sources)
        .vertical_pipe(column.as_str())
        .write_line(l.column())
        .new_line()
        .vertical_pipe("")
        .pointer(l.row(), note.as_str(), '^', color_red());
    let ghost line = source_line(sources_view(sources@), l@.file, l@.column)->0;
    assert(g.body() =~= pipe(dec(l@.column), dec(l@.column).len()) + seq![' '] + line
        + seq!['\n'] + pipe(seq![], dec(l@.column).len()) + mark(
        l@.row,
        " argument #"@ + dec(missing as nat) + " is missing"@,
        '^',
        red(),
    ));
    g.build()
}

fn type_message(
    l: &Location,
    ul: &Location,
    et: &crate::compiler::rin_compiler::Type,
    ut: &crate::compiler::rin_compiler::Type,
    sources: &Vec<(String, Vec<String>)>,
) -> (r: String)
    requires
        if same_line(l@, ul@) {
            has_line(sources_view(sources@), ul@) && ul@.row >= l@.row + 1
        } else {
            has_line(sources_view(sources@), ul@) && has_line(sources_view(sources@), l@)
        },
    ensures
        r@ == (if same_line(l@, ul@) {
            built_message(
                type_headline(rin_type_name(*et), rin_type_name(*ut)),
                dec(ul@.column).len(),
                ul@,
                type_together_body(
                    l@,
                    ul@,
                    source_line(sources_view(sources@), ul@.file, ul@.column)->0,
                    type_note(rin_type_name(*et), rin_type_name(*ut)),
                ),
            )
        } else {
            built_message(
                type_headline(rin_type_name(*et), rin_type_name(*ut)),
                larger(dec(ul@.column).len(), dec(l@.column).len()),
                ul@,
                type_apart_body(
                    l@,
                    ul@,
                    source_line(sources_view(sources@), ul@.file, ul@.column)->0,
                    source_line(sources_view(sources@), l@.file, l@.column)->0,
                    type_note(rin_type_name(*et), rin_type_name(*ut)),
                ),
            )
        }),
{
    let (headline, note) = type_strings(et, ut);
    if l.column() == ul.column() && crate::chars::str_eq(l.file().as_str(), ul.file().as_str()) {
        type_together(l, ul, headline, &note, sources)
    } else {
        type_apart(l, ul, headline, &note, sources)
    }
}

#[verifier::rlimit(60)]
#[verifier::spinoff_prover]
fn type_together(
    l: &Location,
    ul: &Location,
    headline: String,
    note: &String,
    sources: &Vec<(String, Vec<String>)>,
) -> (r: String)
    requires
        has_line(sources_view(sources@), ul@),
        ul@.row >= l@.row + 1,
    ensures
        r@ == built_message(
            headline@,
            dec(ul@.column).len(),
            ul@,
            type_together_body(
                l@,
                ul@,
                source_line(sources_view(sources@), ul@.file, ul@.column)->0,
                note@,
            ),
        ),
{
    proof {
        reveal_strlit("");
    }
    let column = dec_string(ul.column());
    let width = column.as_str().unicode_len();
    let g = ErrorGenerator::new(ul, headline, width, sources)
        .vertical_pipe(column.as_str())
        .write_line(ul.column())
        .new_line()
        .vertical_pipe("")
        .pointer(l.row(), "", '^', color_blue())
        .pointer(ul.row() - l.row() - 1, note.as_str(), '^', color_red())
        .new_line()
        .vertical_pipe("")
        .pointer(l.row(), "", '|', color_blue())
        .new_line()
        .vertical_pipe("")
        .ident_string(l.row(), "expected due to this", color_blue());
    assert(g.body() =~= type_together_body(
        l@,
        ul@,
        source_line(sources_view(sources@), ul@.file, ul@.column)->0,
        note@,
    ));
    g.build()
}

#[verifier::rlimit(60)]
#[verifier::spinoff_prover]
fn type_apart(
    l: &Location,
    ul: &Location,
    headline: String,
    note: &String,
    sources: &Vec<(String, Vec<String>)>,
) -> (r: String)
    requires
        has_line(sources_view(sources@), ul@),
        has_line(sources_view(sources@), l@),
    ensures
        r@ == built_message(
            headline@,
            larger(dec(ul@.column).len(), dec(l@.column).len()),
            ul@,
            type_apart_body(
                l@,
                ul@,
                source_line(sources_view(sources@), ul@.file, ul@.column)->0,
                source_line(sources_view(sources@), l@.file, l@.column)->0,
                note@,
            ),
        ),
{
    proof {
        reveal_strlit("");
    }
    let column = dec_string(ul.column());
    let other = dec_string(l.column());
    let width = if column.as_str().unicode_len() >= other.as_str().unicode_len() {
        column.as_str().unicode_len()
    } else {
        other.as_str().unicode_len()
    };
    let g = ErrorGenerator::new(ul, headline, width, sources)
        .vertical_pipe(column.as_str())
        .write_line(ul.column())
        .new_line()
        .vertical_pipe("")
        .pointer(ul.row(), note.as_str(), '^', color_red())
        .new_line()
        .vertical_pipe(other.as_str())
        .write_line_file(l.column(), l.file())
        .new_line()
        .vertical_pipe("")
        .pointer(l.row(), "", '^', color_blue())
        .new_line()
        .vertical_pipe("")
        .pointer(l.row(), "", '|', color_blue())
        .new_line()
        .vertical_pipe("")
        .ident_string(l.row(), "expected due to this", color_blue());
    assert(g.body() =~= type_apart_body(
        l@,
        ul@,
        source_line(sources_view(sources@), ul@.file, ul@.column)->0,
        source_line(sources_view(sources@), l@.file, l@.column)->0,
        note@,
    ));
    g.build()
}

} // verus!
