use vstd::prelude::*;

use crate::compiler::{token_at, CompilerBase};
use crate::location::{Location, LocationView};
use crate::token::asm_token::{ASMToken, ASMTokenView, IntergerType};

verus! {

#[derive(Clone, Copy, Debug, PartialEq, Eq, Structural)]
pub enum ArgumentType {
    U64,
    U32,
    U16,
    U8,
    I8,
    I16,
    I32,
    I64,
    Section,
    Label,
}

/// An argument of an instruction, read from the source.
pub enum ParsedArgument {
    U64(u64),
    U32(u32),
    U16(u16),
    U8(u8),
    I8(i8),
    I16(i16),
    I32(i32),
    I64(i64),
    Boolean(bool),
    Section(u64),
    Label(String),
    Buffer(Vec<u8>),
}

/// An argument as plain values.
pub enum ParsedArgumentView {
    U64(u64),
    U32(u32),
    U16(u16),
    U8(u8),
    I8(i8),
    I16(i16),
    I32(i32),
    I64(i64),
    Boolean(bool),
    Section(u64),
    Label(Seq<char>),
    Buffer(Seq<u8>),
}

impl View for ParsedArgument {
    type V = ParsedArgumentView;

    open spec fn view(&self) -> ParsedArgumentView {
        match self {
            ParsedArgument::U64(v) => ParsedArgumentView::U64(*v),
            ParsedArgument::U32(v) => ParsedArgumentView::U32(*v),
            ParsedArgument::U16(v) => ParsedArgumentView::U16(*v),
            ParsedArgument::U8(v) => ParsedArgumentView::U8(*v),
            ParsedArgument::I8(v) => ParsedArgumentView::I8(*v),
            ParsedArgument::I16(v) => ParsedArgumentView::I16(*v),
            ParsedArgument::I32(v) => ParsedArgumentView::I32(*v),
            ParsedArgument::I64(v) => ParsedArgumentView::I64(*v),
            ParsedArgument::Boolean(v) => ParsedArgumentView::Boolean(*v),
            ParsedArgument::Section(v) => ParsedArgumentView::Section(*v),
            ParsedArgument::Label(s) => ParsedArgumentView::Label(s@),
            ParsedArgument::Buffer(b) => ParsedArgumentView::Buffer(b@),
        }
    }
}

/// The `n` low bytes of `v`, least significant first.
pub open spec fn le_bytes(v: nat, n: nat) -> Seq<u8>
    decreases n,
{
    if n == 0 {
        seq![]
    } else {
        seq![(v % 256) as u8] + le_bytes(v / 256, (n - 1) as nat)
    }
}

/// The bytes that encode an argument.
pub open spec fn argument_bytes(a: ParsedArgumentView) -> Seq<u8> {
    match a {
        ParsedArgumentView::U64(v) => le_bytes(v as nat, 8),
        ParsedArgumentView::Section(v) => le_bytes(v as nat, 8),
        ParsedArgumentView::U32(v) => le_bytes(v as nat, 4),
        ParsedArgumentView::U16(v) => le_bytes(v as nat, 2),
        ParsedArgumentView::U8(v) => le_bytes(v as nat, 1),
        ParsedArgumentView::I8(v) => le_bytes((v as u8) as nat, 1),
        ParsedArgumentView::I16(v) => le_bytes((v as u16) as nat, 2),
        ParsedArgumentView::I32(v) => le_bytes((v as u32) as nat, 4),
        ParsedArgumentView::I64(v) => le_bytes((v as u64) as nat, 8),
        ParsedArgumentView::Label(_) => le_bytes(0, 8),
        ParsedArgumentView::Boolean(b) => seq![
            if b {
                1u8
            } else {
                0u8
            },
        ],
        ParsedArgumentView::Buffer(data) => data,
    }
}

/// The encoding of a list of arguments, and for each label argument its
/// name and the position of its eight placeholder bytes.
pub open spec fn encode_arguments(args: Seq<ParsedArgumentView>) -> (Seq<u8>, Seq<(Seq<char>, nat)>)
    decreases args.len(),
{
    if args.len() == 0 {
        (seq![], seq![])
    } else {
        let (bytes, labels) = encode_arguments(args.drop_last());
        let a = args.last();
        (
            bytes + argument_bytes(a),
            match a {
                ParsedArgumentView::Label(l) => labels.push((l, bytes.len())),
                _ => labels,
            },
        )
    }
}

/// A place in compiled code that must receive the address of a label.
#[derive(Clone, Debug)]
pub struct LabelReplace {
    pub label: String,
    pub pos: usize,
    pub location: Location,
}

#[derive(Default)]
pub struct ParsedArguments {
    arguments: Vec<ParsedArgument>,
}

impl View for ParsedArguments {
    type V = Seq<ParsedArgumentView>;

    closed spec fn view(&self) -> Seq<ParsedArgumentView> {
        self.arguments@.map_values(|a: ParsedArgument| a@)
    }
}

/// Appends the `n` low bytes of `v`, least significant first.
pub(crate) fn push_le(buffer: &mut Vec<u8>, v: u64, n: usize)
    requires
        n <= 8,
    ensures
        final(buffer)@ == old(buffer)@ + le_bytes(v as nat, n as nat),
    decreases n,
{
    if n > 0 {
        buffer.push((v % 256) as u8);
        push_le(buffer, v / 256, n - 1);
        assert(old(buffer)@ + le_bytes(v as nat, n as nat) =~= old(buffer)@.push(
            (v % 256) as u8,
        ) + le_bytes((v / 256) as nat, (n - 1) as nat));
    }
}

/// Appends the encoding of an argument.
fn push_argument(buffer: &mut Vec<u8>, arg: &ParsedArgument)
    ensures
        final(buffer)@ == old(buffer)@ + argument_bytes(arg@),
{
    match arg {
        ParsedArgument::U64(v) => push_le(buffer, *v, 8),
        ParsedArgument::Section(v) => push_le(buffer, *v, 8),
        ParsedArgument::U32(v) => push_le(buffer, *v as u64, 4),
        ParsedArgument::U16(v) => push_le(buffer, *v as u64, 2),
        ParsedArgument::U8(v) => push_le(buffer, *v as u64, 1),
        ParsedArgument::I8(v) => push_le(buffer, (*v as u8) as u64, 1),
        ParsedArgument::I16(v) => push_le(buffer, (*v as u16) as u64, 2),
        ParsedArgument::I32(v) => push_le(buffer, (*v as u32) as u64, 4),
        ParsedArgument::I64(v) => push_le(buffer, *v as u64, 8),
        ParsedArgument::Label(_) => push_le(buffer, 0, 8),
        ParsedArgument::Boolean(v) => {
            buffer.push(
                if *v {
                    1
                } else {
                    0
                },
            );
        },
        ParsedArgument::Buffer(data) => {
            let ghost before = buffer@;
            let mut i: usize = 0;
            while i < data.len()
                invariant
                    i <= data@.len(),
                    buffer@ == before + data@.take(i as int),
                decreases data@.len() - i,
            {
                buffer.push(data[i]);
                i = i + 1;
                assert(buffer@ =~= before + data@.take(i as int));
            }
            assert(data@.take(data@.len() as int) =~= data@);
        },
    }
}

impl ParsedArguments {
    fn new(arguments: Vec<ParsedArgument>) -> (r: ParsedArguments)
        ensures
            r@ == arguments@.map_values(|a: ParsedArgument| a@),
    {
        Self { arguments }
    }

    /// Puts raw bytes before argument `index`.
    pub fn insert(&mut self, index: usize, buffer: Vec<u8>)
        requires
            index <= old(self)@.len(),
        ensures
            final(self)@ == old(self)@.insert(index as int, ParsedArgumentView::Buffer(buffer@)),
    {
        let ghost data = buffer@;
        self.arguments.insert(index, ParsedArgument::Buffer(buffer));
        assert(self@ =~= old(self)@.insert(index as int, ParsedArgumentView::Buffer(data)));
    }

    /// The encoded arguments, and where each label's address goes.
    pub fn finalize(self, location: Location) -> (r: (Vec<u8>, Vec<LabelReplace>))
        ensures
            r.0@ == encode_arguments(self@).0,
            r.1@.map_values(|l: LabelReplace| (l.label@, l.pos as nat)) == encode_arguments(
                self@,
            ).1,
            forall|k: int| 0 <= k < r.1@.len() ==> (#[trigger] r.1@[k]).location@ == location@,
    {
        let mut label_replaces: Vec<LabelReplace> = Vec::new();
        let mut buffer: Vec<u8> = Vec::new();
        let ghost args = self@;
        let mut i: usize = 0;
        while i < self.arguments.len()
            invariant
                i <= self.arguments@.len(),
                args == self@,
                args.len() == self.arguments@.len(),
                (buffer@, label_replaces@.map_values(|l: LabelReplace| (l.label@, l.pos as nat)))
                    == encode_arguments(args.take(i as int)),
                forall|k: int|
                    0 <= k < label_replaces@.len() ==> (#[trigger] label_replaces@[k]).location@
                        == location@,
            decreases self.arguments@.len() - i,
        {
            let arg = &self.arguments[i];
            proof {
                assert(args.take(i + 1).drop_last() =~= args.take(i as int));
                assert(args.take(i + 1).last() == arg@);
            }
            let ghost before = label_replaces@;
            match arg {
                ParsedArgument::Label(label) => {
                    label_replaces.push(
                        LabelReplace {
                            label: label.clone(),
                            pos: buffer.len(),
                            location: location.clone(),
                        },
                    );
                    assert(label_replaces@.map_values(|l: LabelReplace| (l.label@, l.pos as nat))
                        =~= before.map_values(|l: LabelReplace| (l.label@, l.pos as nat)).push(
                        (label@, buffer@.len()),
                    ));
                },
                _ => {},
            }
            push_argument(&mut buffer, arg);
            i = i + 1;
        }
        assert(args.take(args.len() as int) =~= args);
        (buffer, label_replaces)
    }
}

/// Whether a token is the number token `Interger`.
pub open spec fn is_number_token(t: Option<(ASMTokenView, LocationView)>) -> bool {
    t matches Some((ASMTokenView::Interger(_), _))
}

/// Whether a token is the integer type `it`.
pub open spec fn is_type_token(t: Option<(ASMTokenView, LocationView)>, it: IntergerType) -> bool {
    t matches Some((ASMTokenView::IntergerType(x), _)) && x == it
}

/// The integer type that an unsigned argument type names.
pub open spec fn unsigned_type(a: ArgumentType) -> IntergerType {
    match a {
        ArgumentType::U64 => IntergerType::U64,
        ArgumentType::U32 => IntergerType::U32,
        ArgumentType::U16 => IntergerType::U16,
        _ => IntergerType::U8,
    }
}

pub open spec fn is_unsigned(a: ArgumentType) -> bool {
    a == ArgumentType::U64 || a == ArgumentType::U32 || a == ArgumentType::U16 || a
        == ArgumentType::U8
}

pub open spec fn is_signed(a: ArgumentType) -> bool {
    a == ArgumentType::I64 || a == ArgumentType::I32 || a == ArgumentType::I16 || a
        == ArgumentType::I8
}

/// How many tokens an argument of type `a` takes.
pub open spec fn argument_width(a: ArgumentType) -> int {
    if is_unsigned(a) {
        2
    } else {
        1
    }
}

/// Whether the tokens from `toks[p + off]` on spell arguments `types[k..]`,
/// separated by commas: an unsigned argument is a number followed by its
/// type, a section a hashed name, a label a number.
pub open spec fn arguments_match(
    toks: Seq<(ASMTokenView, LocationView)>,
    p: int,
    types: Seq<ArgumentType>,
    k: int,
    off: int,
) -> bool
    decreases types.len() - k,
{
    if k < 0 || k >= types.len() {
        true
    } else {
        let t = types[k];
        let here = token_at(toks, p + off);
        let ok = if is_unsigned(t) {
            is_number_token(here) && is_type_token(token_at(toks, p + off + 1), unsigned_type(t))
        } else if t == ArgumentType::Label {
            is_number_token(here)
        } else {
            here matches Some((ASMTokenView::HashName(_), _))
        };
        let next = off + argument_width(t);
        &&& ok
        &&& (k == types.len() - 1 || token_at(toks, p + next) matches Some(
            (ASMTokenView::Comma, _),
        ))
        &&& arguments_match(toks, p, types, k + 1, next + 1)
    }
}

/// The value of the number token `t` (zero for any other token).
pub open spec fn number_of(t: Option<(ASMTokenView, LocationView)>) -> u64 {
    match t {
        Some((ASMTokenView::Interger(n), _)) => n,
        _ => 0,
    }
}

/// The arguments that the tokens from `toks[p + off]` on give for
/// `types[k..]`: numbers cut to their type's width, sections as the hash of
/// their name.
pub open spec fn built_arguments(
    toks: Seq<(ASMTokenView, LocationView)>,
    p: int,
    types: Seq<ArgumentType>,
    k: int,
    off: int,
) -> Seq<ParsedArgumentView>
    decreases types.len() - k,
{
    if k < 0 || k >= types.len() {
        seq![]
    } else {
        let t = types[k];
        let here = token_at(toks, p + off);
        let n = number_of(here);
        let a = if t == ArgumentType::U64 {
            ParsedArgumentView::U64(n)
        } else if t == ArgumentType::U32 {
            ParsedArgumentView::U32(n as u32)
        } else if t == ArgumentType::U16 {
            ParsedArgumentView::U16(n as u16)
        } else if t == ArgumentType::U8 {
            ParsedArgumentView::U8(n as u8)
        } else {
            ParsedArgumentView::Section(
                match here {
                    Some((ASMTokenView::HashName(name), _)) => crate::hash::name_hash(name),
                    _ => 0,
                },
            )
        };
        seq![a] + built_arguments(toks, p, types, k + 1, off + argument_width(t) + 1)
    }
}

/// Reads the arguments of an instruction from the tokens after the
/// compiler's position, without moving it.
pub struct ArgumentParser<'a> {
    compiler: &'a CompilerBase<ASMToken>,
    current_offset: usize,
    arguments_parse: Vec<ArgumentType>,
}

impl<'a> ArgumentParser<'a> {
    /// The argument types asked for.
    pub closed spec fn types(&self) -> Seq<ArgumentType> {
        self.arguments_parse@
    }

    /// The tokens read.
    pub closed spec fn toks(&self) -> Seq<(ASMTokenView, LocationView)> {
        self.compiler.toks()
    }

    /// Where the arguments start.
    pub closed spec fn start(&self) -> int {
        self.compiler.pos()
    }

    /// The parser has not read yet.
    pub closed spec fn fresh(&self) -> bool {
        self.current_offset == 0
    }

    pub fn new(compiler: &'a CompilerBase<ASMToken>) -> (r: ArgumentParser<'a>)
        ensures
            r.types() == Seq::<ArgumentType>::empty(),
            r.toks() == compiler.toks(),
            r.start() == compiler.pos(),
            r.fresh(),
    {
        Self { compiler, current_offset: 0, arguments_parse: Vec::new() }
    }

    /// Asks for one more argument of type `argument_type`.
    pub fn parse(self, argument_type: ArgumentType) -> (r: ArgumentParser<'a>)
        ensures
            r.types() == self.types().push(argument_type),
            r.toks() == self.toks(),
            r.start() == self.start(),
            r.fresh() == self.fresh(),
    {
        let mut this = self;
        this.arguments_parse.push(argument_type);
        this
    }

    fn comma_at(&self, offset: usize) -> (r: bool)
        ensures
            r == (token_at(self.toks(), self.start() + offset) matches Some(
                (ASMTokenView::Comma, _),
            )),
    {
        match self.compiler.peek(offset) {
            Some(t) => match t.value() {
                ASMToken::Comma => true,
                _ => false,
            },
            None => false,
        }
    }

    /// Whether the tokens spell the arguments asked for. Signed types are
    /// not supported.
    pub fn is_valid(&mut self) -> (r: bool)
        requires
            old(self).fresh(),
            forall|k: int| 0 <= k < old(self).types().len() ==> !is_signed(
                #[trigger] old(self).types()[k],
            ),
            old(self).types().len() <= usize::MAX / 3,
        ensures
            r == arguments_match(old(self).toks(), old(self).start(), old(self).types(), 0, 0),
            final(self).types() == old(self).types(),
            final(self).toks() == old(self).toks(),
            final(self).start() == old(self).start(),
            r ==> final(self).fresh(),
    {
        let len = self.arguments_parse.len();
        let ghost toks = self.toks();
        let ghost p = self.start();
        let ghost types = self.types();
        let mut i: usize = 0;
        while i < len
            invariant
                len == types.len(),
                types == self.types(),
                toks == self.toks(),
                p == self.start(),
                types.len() <= usize::MAX / 3,
                forall|k: int| 0 <= k < types.len() ==> !is_signed(#[trigger] types[k]),
                i <= len,
                self.current_offset <= 3 * i,
                arguments_match(toks, p, types, 0, 0) == arguments_match(
                    toks,
                    p,
                    types,
                    i as int,
                    self.current_offset as int,
                ),
                types == old(self).types(),
                toks == old(self).toks(),
                p == old(self).start(),
            decreases len - i,
        {
            let argument = self.arguments_parse[i];
            assert(!is_signed(types[i as int]));
            let off = self.current_offset;
            let valid = match argument {
                ArgumentType::U64 | ArgumentType::U32 | ArgumentType::U16 | ArgumentType::U8 => {
                    let value = self.number_at(off) && self.integer_type_at(
                        off + 1,
                        unsigned_integer_type(argument),
                    );
                    self.current_offset = self.current_offset + 1;
                    value
                },
                ArgumentType::Label => self.number_at(off),
                ArgumentType::Section => self.hash_name_at(off),
                _ => false,
            };
            assert(valid == ({
                let t = types[i as int];
                let here = token_at(toks, p + off);
                if is_unsigned(t) {
                    is_number_token(here) && is_type_token(
                        token_at(toks, p + off + 1),
                        unsigned_type(t),
                    )
                } else if t == ArgumentType::Label {
                    is_number_token(here)
                } else {
                    here matches Some((ASMTokenView::HashName(_), _))
                }
            }));
            if !valid {
                return false;
            }
            self.current_offset = self.current_offset + 1;
            let ghost next = off + argument_width(types[i as int]);
            assert(self.current_offset == next);
            if i != len - 1 {
                if !self.comma_at(self.current_offset) {
                    return false;
                }
                self.current_offset = self.current_offset + 1;
            }
            assert(arguments_match(toks, p, types, i + 1, next + 1) == arguments_match(
                toks,
                p,
                types,
                i + 1,
                self.current_offset as int,
            ));
            assert(arguments_match(toks, p, types, i as int, off as int) == arguments_match(
                toks,
                p,
                types,
                i + 1,
                self.current_offset as int,
            ));
            i = i + 1;
        }
        self.current_offset = 0;
        true
    }

    fn number_at(&self, offset: usize) -> (r: bool)
        ensures
            r == is_number_token(token_at(self.toks(), self.start() + offset)),
    {
        match self.compiler.peek(offset) {
            Some(t) => match t.value() {
                ASMToken::Interger(_) => true,
                _ => false,
            },
            None => false,
        }
    }

    fn hash_name_at(&self, offset: usize) -> (r: bool)
        ensures
            r == (token_at(self.toks(), self.start() + offset) matches Some(
                (ASMTokenView::HashName(_), _),
            )),
    {
        match self.compiler.peek(offset) {
            Some(t) => match t.value() {
                ASMToken::HashName(_) => true,
                _ => false,
            },
            None => false,
        }
    }

    fn integer_type_at(&self, offset: usize, expected: IntergerType) -> (r: bool)
        ensures
            r == is_type_token(token_at(self.toks(), self.start() + offset), expected),
    {
        match self.compiler.peek(offset) {
            Some(t) => match t.value() {
                ASMToken::IntergerType(it) => *it == expected,
                _ => false,
            },
            None => false,
        }
    }

    /// The arguments the tokens spell. Label arguments are not supported.
    pub fn build(self) -> (r: ParsedArguments)
        requires
            self.fresh(),
            forall|k: int| 0 <= k < self.types().len() ==> !is_signed(#[trigger] self.types()[k])
                && self.types()[k] != ArgumentType::Label,
            self.types().len() <= usize::MAX / 3,
            arguments_match(self.toks(), self.start(), self.types(), 0, 0),
        ensures
            r@ == built_arguments(self.toks(), self.start(), self.types(), 0, 0),
    {
        let mut this = self;
        let valid = this.is_valid();
        assert(valid);
        let mut arguments: Vec<ParsedArgument> = Vec::new();
        let len = this.arguments_parse.len();
        let ghost toks = this.toks();
        let ghost p = this.start();
        let ghost types = this.types();
        let mut i: usize = 0;
        while i < len
            invariant
                len == types.len(),
                types == this.types(),
                toks == this.toks(),
                p == this.start(),
                types.len() <= usize::MAX / 3,
                forall|k: int| 0 <= k < types.len() ==> !is_signed(#[trigger] types[k])
                    && types[k] != ArgumentType::Label,
                i <= len,
                this.current_offset <= 3 * i,
                arguments_match(toks, p, types, i as int, this.current_offset as int),
                built_arguments(toks, p, types, 0, 0) == arguments@.map_values(
                    |a: ParsedArgument| a@,
                ) + built_arguments(toks, p, types, i as int, this.current_offset as int),
            decreases len - i,
        {
            let argument = this.arguments_parse[i];
            assert(!is_signed(types[i as int]) && types[i as int] != ArgumentType::Label);
            let off = this.current_offset;
            let parsed = match argument {
                ArgumentType::Section => {
                    let name = this.hash_name_bytes(off);
                    ParsedArgument::Section(crate::hash::hash_name(name.as_slice()))
                },
                _ => {
                    let number = this.number_value(off);
                    this.current_offset = this.current_offset + 1;
                    match argument {
                        ArgumentType::U64 => ParsedArgument::U64(number),
                        ArgumentType::U32 => ParsedArgument::U32(number as u32),
                        ArgumentType::U16 => ParsedArgument::U16(number as u16),
                        _ => ParsedArgument::U8(number as u8),
                    }
                },
            };
            let ghost before = arguments@.map_values(|a: ParsedArgument| a@);
            let ghost width = argument_width(argument);
            assert(built_arguments(toks, p, types, i as int, off as int) == seq![parsed@]
                + built_arguments(toks, p, types, i + 1, off + width + 1));
            arguments.push(parsed);
            assert(arguments@.map_values(|a: ParsedArgument| a@) =~= before + seq![parsed@]);
            this.current_offset = this.current_offset + 2;
            if i == len - 1 {
                this.current_offset = this.current_offset - 1;
            }
            i = i + 1;
        }
        assert(arguments@.map_values(|a: ParsedArgument| a@) + seq![] =~= arguments@.map_values(
            |a: ParsedArgument| a@,
        ));
        ParsedArguments::new(arguments)
    }

    fn number_value(&self, offset: usize) -> (r: u64)
        ensures
            r == number_of(token_at(self.toks(), self.start() + offset)),
    {
        match self.compiler.peek(offset) {
            Some(t) => match t.value() {
                ASMToken::Interger(n) => *n,
                _ => 0,
            },
            None => 0,
        }
    }

    fn hash_name_bytes(&self, offset: usize) -> (r: Vec<u8>)
        ensures
            token_at(self.toks(), self.start() + offset) matches Some(
                (ASMTokenView::HashName(name), _),
            ) ==> r@ == crate::hash::name_bytes(name),
    {
        match self.compiler.peek(offset) {
            Some(t) => match t.value() {
                ASMToken::HashName(name) => crate::hash::string_bytes(name),
                _ => Vec::new(),
            },
            None => Vec::new(),
        }
    }
}

/// The integer type that an unsigned argument type names.
fn unsigned_integer_type(a: ArgumentType) -> (r: IntergerType)
    ensures
        r == unsigned_type(a),
{
    match a {
        ArgumentType::U64 => IntergerType::U64,
        ArgumentType::U32 => IntergerType::U32,
        ArgumentType::U16 => IntergerType::U16,
        _ => IntergerType::U8,
    }
}

} // verus!
