//! The rasm compiler: reads procedures, interfaces and structures from the
//! tokens of a rasm file and writes their code into one byte buffer.

use vstd::prelude::*;

use crate::compiler::argument_parser::{
    argument_bytes, arguments_match, built_arguments, encode_arguments, is_signed, le_bytes, push_le,
    ArgumentParser, ArgumentType, LabelReplace, ParsedArgumentView, ParsedArguments,
};
use crate::compiler::{expect_at, token_at, token_views, unexpected_at, CompileErrorView, CompilerBase, CompilerError};
use crate::location::{Location, LocationView, WithLocation};
use crate::chars::str_eq;
use crate::hash::{hash_name, name_bytes, name_hash};
use crate::sin::{
    attribute_views, Attribute, AttributeView, Attributes, Field, Interface, InterfaceView,
    MemberView, Procedure, ProcedureView, SinSection, SinSectionView, Structure, StructureView,
    VProcedure,
};
use crate::token::asm_token::{ASMKeyword, ASMToken, ASMTokenView, AttributeToken, InstructionType, spec_opcode};

verus! {

/// The tokens of a rasm file as plain values.
pub type AsmTokens = Seq<(ASMTokenView, LocationView)>;

/// A compile error of a rasm file as plain values.
pub type AsmError = CompileErrorView<ASMTokenView>;

/// What the compiler holds while it reads: the position of the next token,
/// the code written so far and the attributes read for the next section.
pub struct AsmState {
    pub pos: int,
    pub data: Seq<u8>,
    pub buffer: Seq<AttributeView>,
}

/// The hash of the name at `i`.
pub open spec fn hash_at(toks: AsmTokens, i: int) -> Result<u64, AsmError> {
    match token_at(toks, i) {
        Some((ASMTokenView::HashName(name), _)) => Ok(name_hash(name)),
        _ => Err(unexpected_at(toks, i)),
    }
}

/// The identifier at `i`.
pub open spec fn name_at(toks: AsmTokens, i: int) -> Result<Seq<char>, AsmError> {
    match token_at(toks, i) {
        Some((ASMTokenView::Identifier(name), _)) => Ok(name),
        _ => Err(unexpected_at(toks, i)),
    }
}

/// `( #name )` from `i` on: the hash and the index after the bracket.
pub open spec fn bracketed_hash_at(toks: AsmTokens, i: int) -> Result<(u64, int), AsmError> {
    match expect_at(toks, i, ASMTokenView::LRoundBracket) {
        Err(e) => Err(e),
        Ok(j) => match hash_at(toks, j) {
            Err(e) => Err(e),
            Ok(h) => match expect_at(toks, j + 1, ASMTokenView::RRoundBracket) {
                Err(e) => Err(e),
                Ok(k) => Ok((h, k)),
            },
        },
    }
}

/// The list of an accept attribute from `i` on, after its opening bracket:
/// hashed names separated by commas up to a closing bracket. `hashes` are
/// the names read before `i`.
pub open spec fn accept_list(toks: AsmTokens, i: int, hashes: Seq<u64>) -> Result<
    (Seq<u64>, int),
    AsmError,
>
    decreases toks.len() - i,
{
    if i < 0 || i >= toks.len() {
        Ok((hashes, i))
    } else {
        match toks[i].0 {
            ASMTokenView::HashName(name) => {
                let hs = hashes.push(name_hash(name));
                match token_at(toks, i + 1) {
                    Some((ASMTokenView::RRoundBracket, _)) => Ok((hs, i + 2)),
                    Some((ASMTokenView::Comma, _)) => accept_list(toks, i + 2, hs),
                    _ => Err(unexpected_at(toks, i + 1)),
                }
            },
            ASMTokenView::RRoundBracket => Ok((hashes, i + 1)),
            _ => Err(unexpected_at(toks, i)),
        }
    }
}

/// The attribute at `i` and the index after it.
pub open spec fn attribute_at(toks: AsmTokens, i: int) -> Result<(AttributeView, int), AsmError> {
    match token_at(toks, i) {
        Some((ASMTokenView::Attribute(a), _)) => match a {
            AttributeToken::Public => Ok((AttributeView::Public, i + 1)),
            AttributeToken::Private => Ok((AttributeView::Private, i + 1)),
            AttributeToken::Static => Ok((AttributeView::Static, i + 1)),
            AttributeToken::Implemented => match bracketed_hash_at(toks, i + 1) {
                Err(e) => Err(e),
                Ok((h, j)) => Ok((AttributeView::Implemented(h), j)),
            },
            AttributeToken::Contain => match bracketed_hash_at(toks, i + 1) {
                Err(e) => Err(e),
                Ok((h, j)) => Ok((AttributeView::Contain(h), j)),
            },
            AttributeToken::Return => match bracketed_hash_at(toks, i + 1) {
                Err(e) => Err(e),
                Ok((h, j)) => Ok((AttributeView::Return(h), j)),
            },
            AttributeToken::Overwrite => match bracketed_hash_at(toks, i + 1) {
                Err(e) => Err(e),
                Ok((h, j)) => Ok((AttributeView::Overwrite(h), j)),
            },
            AttributeToken::Accept => match expect_at(toks, i + 1, ASMTokenView::LRoundBracket) {
                Err(e) => Err(e),
                Ok(j) => match accept_list(toks, j, seq![]) {
                    Err(e) => Err(e),
                    Ok((hs, k)) => Ok((AttributeView::Accept(hs), k)),
                },
            },
        },
        _ => Err(unexpected_at(toks, i)),
    }
}

/// The attribute token that names an attribute.
pub open spec fn attribute_kind(a: AttributeView) -> AttributeToken {
    match a {
        AttributeView::Public => AttributeToken::Public,
        AttributeView::Private => AttributeToken::Private,
        AttributeView::Static => AttributeToken::Static,
        AttributeView::Implemented(_) => AttributeToken::Implemented,
        AttributeView::Contain(_) => AttributeToken::Contain,
        AttributeView::Return(_) => AttributeToken::Return,
        AttributeView::Overwrite(_) => AttributeToken::Overwrite,
        AttributeView::Accept(_) => AttributeToken::Accept,
    }
}

/// The hashed name an attribute carries, for those that carry one.
pub open spec fn attribute_hash(a: AttributeView) -> Option<u64> {
    match a {
        AttributeView::Implemented(h) => Some(h),
        AttributeView::Contain(h) => Some(h),
        AttributeView::Return(h) => Some(h),
        AttributeView::Overwrite(h) => Some(h),
        _ => None,
    }
}

/// An attribute read from `@Name` is the attribute of that same name: the
/// attribute token decides which attribute comes out, so different tokens
/// give different attributes.
pub proof fn law_attribute_has_its_token_name(toks: AsmTokens, i: int)
    ensures
        attribute_at(toks, i) matches Ok((a, _)) ==> 0 <= i < toks.len() && toks[i].0
            == ASMTokenView::Attribute(attribute_kind(a)),
{
}

/// `@Name(<h>)`, for the attributes that carry a name (`Implemented`,
/// `Contain`, `Return`, `Overwrite`), is read as the attribute of that name
/// carrying the hash of `h`, and reading goes on after the bracket.
pub proof fn law_named_attribute_carries_hash(toks: AsmTokens, i: int, k: AttributeToken, h: Seq<char>)
    requires
        k == AttributeToken::Implemented || k == AttributeToken::Contain || k
            == AttributeToken::Return || k == AttributeToken::Overwrite,
        0 <= i,
        i + 3 < toks.len(),
        toks[i].0 == ASMTokenView::Attribute(k),
        toks[i + 1].0 == ASMTokenView::LRoundBracket,
        toks[i + 2].0 == ASMTokenView::HashName(h),
        toks[i + 3].0 == ASMTokenView::RRoundBracket,
    ensures
        attribute_at(toks, i) matches Ok((a, j)) && attribute_kind(a) == k && attribute_hash(a)
            == Some(name_hash(h)) && j == i + 4,
{
}

/// The argument types an instruction takes.
pub open spec fn instruction_types(ins: InstructionType) -> Seq<ArgumentType> {
    match ins {
        InstructionType::PushU64 => seq![ArgumentType::U64],
        _ => seq![ArgumentType::U16],
    }
}

/// An instruction as bytes: its size in bytes (cut to one byte), its
/// opcode (least significant byte first), then its arguments.
pub open spec fn instruction_bytes(opcode: u16, argument: Seq<u8>) -> Seq<u8> {
    seq![((argument.len() + 3) % 256) as u8, (opcode % 256) as u8, (opcode / 256) as u8]
        + argument
}

/// The index of the first new line from `i` on, or the end.
pub open spec fn newline_from(toks: AsmTokens, i: int) -> int
    decreases toks.len() - i,
{
    if i < 0 || i >= toks.len() {
        i
    } else if toks[i].0 is NewLine {
        i
    } else {
        newline_from(toks, i + 1)
    }
}

/// The offset of the first label named `name`.
pub open spec fn lookup_label(labels: Seq<(Seq<char>, nat)>, name: Seq<char>) -> Option<nat>
    decreases labels.len(),
{
    if labels.len() == 0 {
        None
    } else if labels[0].0 == name {
        Some(labels[0].1)
    } else {
        lookup_label(labels.drop_first(), name)
    }
}

pub proof fn lemma_newline_from(toks: AsmTokens, i: int)
    ensures
        newline_from(toks, i) >= i,
        i >= 0 ==> newline_from(toks, i) <= toks.len() || newline_from(toks, i) == i,
    decreases toks.len() - i,
{
    if 0 <= i < toks.len() && !(toks[i].0 is NewLine) {
        lemma_newline_from(toks, i + 1);
    }
}

/// The body of a section from `i` on, up to its closing bracket: the index
/// of that bracket (or the end) and the code. `start` is where the
/// section's code begins, `labels` the labels read so far with their offset
/// from `start`.
pub open spec fn section_body(
    toks: AsmTokens,
    i: int,
    start: nat,
    data: Seq<u8>,
    labels: Seq<(Seq<char>, nat)>,
) -> Result<(int, Seq<u8>), AsmError>
    decreases toks.len() - i,
{
    if i < 0 || i >= toks.len() {
        Ok((i, data))
    } else {
        let loc = toks[i].1;
        match toks[i].0 {
            ASMTokenView::Label(name) => if lookup_label(labels, name) is Some {
                Err(CompileErrorView::MultipleLabel(name, loc))
            } else {
                section_body(
                    toks,
                    i + 1,
                    start,
                    data,
                    labels.push((name, (data.len() - start) as nat)),
                )
            },
            ASMTokenView::Instruction(ins) => {
                let types = instruction_types(ins);
                if arguments_match(toks, i + 1, types, 0, 0) {
                    let bytes = encode_arguments(built_arguments(toks, i + 1, types, 0, 0)).0;
                    proof {
                        lemma_newline_from(toks, i + 1);
                    }
                    section_body(
                        toks,
                        newline_from(toks, i + 1),
                        start,
                        data + instruction_bytes(spec_opcode(ins), bytes),
                        labels,
                    )
                } else {
                    Err(CompileErrorView::InvalidArgument(loc))
                }
            },
            ASMTokenView::String(s) => section_body(toks, i + 1, start, data + name_bytes(s), labels),
            ASMTokenView::NewLine => section_body(toks, i + 1, start, data, labels),
            ASMTokenView::RCurly => Ok((i, data)),
            _ => Err(unexpected_at(toks, i)),
        }
    }
}

/// A section `{ ... }` from `i` on, its code appended to `data`: where its
/// code starts and ends, the index after it and the code.
pub open spec fn section_at(toks: AsmTokens, i: int, data: Seq<u8>) -> Result<
    (u64, u64, int, Seq<u8>),
    AsmError,
> {
    match expect_at(toks, i, ASMTokenView::LCurly) {
        Err(e) => Err(e),
        Ok(j) => match section_body(toks, j, data.len(), data, seq![]) {
            Err(e) => Err(e),
            Ok((k, d)) => match expect_at(toks, k, ASMTokenView::RCurly) {
                Err(e) => Err(e),
                Ok(m) => Ok((data.len() as u64, d.len() as u64, m, d)),
            },
        },
    }
}

/// A procedure `proc #name -> { ... }` from `st.pos` on; it takes the
/// attributes read before it.
pub open spec fn proc_at(toks: AsmTokens, st: AsmState) -> Result<(ProcedureView, AsmState), AsmError> {
    match expect_at(toks, st.pos, ASMTokenView::Keyword(ASMKeyword::Proc)) {
        Err(e) => Err(e),
        Ok(j) => match hash_at(toks, j) {
            Err(e) => Err(e),
            Ok(h) => match expect_at(toks, j + 1, ASMTokenView::Arrow) {
                Err(e) => Err(e),
                Ok(k) => match section_at(toks, k, st.data) {
                    Err(e) => Err(e),
                    Ok((start, end, m, d)) => Ok(
                        (
                            ProcedureView {
                                hash: h,
                                start: start,
                                size: (end - start) as u64,
                                attributes: st.buffer,
                            },
                            AsmState { pos: m, data: d, buffer: seq![] },
                        ),
                    ),
                },
            },
        },
    }
}

/// The members of an interface from `st.pos` on, up to its closing
/// bracket; `vprocs` are those read before.
pub open spec fn interface_body(toks: AsmTokens, st: AsmState, vprocs: Seq<MemberView>) -> Result<
    (Seq<MemberView>, AsmState),
    AsmError,
>
    decreases toks.len() - st.pos,
{
    let i = st.pos;
    if i < 0 || i >= toks.len() {
        Ok((vprocs, st))
    } else {
        match toks[i].0 {
            ASMTokenView::Keyword(ASMKeyword::VProc) => match hash_at(toks, i + 1) {
                Err(e) => Err(e),
                Ok(h) => interface_body(
                    toks,
                    AsmState { pos: i + 2, data: st.data, buffer: seq![] },
                    vprocs.push(MemberView { hash: h, attributes: st.buffer }),
                ),
            },
            ASMTokenView::Attribute(_) => match attribute_at(toks, i) {
                Err(e) => Err(e),
                Ok((a, j)) => {
                    proof {
                        lemma_attribute_advances(toks, i);
                        assert(i < j <= toks.len());
                    }
                    interface_body(
                        toks,
                        AsmState { pos: j, data: st.data, buffer: st.buffer.push(a) },
                        vprocs,
                    )
                },
            },
            ASMTokenView::NewLine => interface_body(
                toks,
                AsmState { pos: i + 1, data: st.data, buffer: st.buffer },
                vprocs,
            ),
            ASMTokenView::RBracket => Ok((vprocs, st)),
            _ => Err(unexpected_at(toks, i)),
        }
    }
}

/// The rest of an interface named by `hash`, after its opening bracket:
/// its members and its closing bracket.
pub open spec fn interface_rest(
    toks: AsmTokens,
    hash: u64,
    attributes: Seq<AttributeView>,
    st: AsmState,
) -> Result<(InterfaceView, AsmState), AsmError> {
    match interface_body(toks, st, seq![]) {
        Err(e) => Err(e),
        Ok((vs, st2)) => match expect_at(toks, st2.pos, ASMTokenView::RBracket) {
            Err(e) => Err(e),
            Ok(n) => Ok(
                (
                    InterfaceView { hash: hash, vprocs: vs, attributes: attributes },
                    AsmState { pos: n, data: st2.data, buffer: st2.buffer },
                ),
            ),
        },
    }
}

/// An interface `interface #name -> [ ... ]` from `st.pos` on; it takes the
/// attributes read before it.
pub open spec fn interface_at(toks: AsmTokens, st: AsmState) -> Result<(InterfaceView, AsmState), AsmError> {
    match expect_at(toks, st.pos, ASMTokenView::Keyword(ASMKeyword::Interface)) {
        Err(e) => Err(e),
        Ok(j) => match hash_at(toks, j) {
            Err(e) => Err(e),
            Ok(h) => match expect_at(toks, j + 1, ASMTokenView::Arrow) {
                Err(e) => Err(e),
                Ok(k) => match expect_at(toks, k, ASMTokenView::LBracket) {
                    Err(e) => Err(e),
                    Ok(m) => interface_rest(
                        toks,
                        h,
                        st.buffer,
                        AsmState { pos: m, data: st.data, buffer: seq![] },
                    ),
                },
            },
        },
    }
}

/// The members of a structure from `st.pos` on, up to its closing bracket;
/// `fields` and `procs` are those read before.
pub open spec fn struct_body(
    toks: AsmTokens,
    st: AsmState,
    fields: Seq<MemberView>,
    procs: Seq<ProcedureView>,
) -> Result<(Seq<MemberView>, Seq<ProcedureView>, AsmState), AsmError>
    decreases toks.len() - st.pos,
{
    let i = st.pos;
    if i < 0 || i >= toks.len() {
        Ok((fields, procs, st))
    } else {
        match toks[i].0 {
            ASMTokenView::Keyword(ASMKeyword::Proc) => match proc_at(toks, st) {
                Err(e) => Err(e),
                Ok((p, st2)) => {
                    proof {
                        lemma_proc_advances(toks, st);
                    }
                    struct_body(toks, st2, fields, procs.push(p))
                },
            },
            ASMTokenView::Keyword(ASMKeyword::Field) => match hash_at(toks, i + 1) {
                Err(e) => Err(e),
                Ok(h) => struct_body(
                    toks,
                    AsmState { pos: i + 2, data: st.data, buffer: seq![] },
                    fields.push(MemberView { hash: h, attributes: st.buffer }),
                    procs,
                ),
            },
            ASMTokenView::Attribute(_) => match attribute_at(toks, i) {
                Err(e) => Err(e),
                Ok((a, j)) => {
                    proof {
                        lemma_attribute_advances(toks, i);
                        assert(i < j <= toks.len());
                    }
                    struct_body(
                        toks,
                        AsmState { pos: j, data: st.data, buffer: st.buffer.push(a) },
                        fields,
                        procs,
                    )
                },
            },
            ASMTokenView::NewLine => struct_body(
                toks,
                AsmState { pos: i + 1, data: st.data, buffer: st.buffer },
                fields,
                procs,
            ),
            ASMTokenView::RBracket => Ok((fields, procs, st)),
            _ => Err(unexpected_at(toks, i)),
        }
    }
}

/// The rest of a structure named by `hash`, after its opening bracket: its
/// members and its closing bracket.
pub open spec fn struct_rest(
    toks: AsmTokens,
    hash: u64,
    attributes: Seq<AttributeView>,
    st: AsmState,
) -> Result<(StructureView, AsmState), AsmError> {
    match struct_body(toks, st, seq![], seq![]) {
        Err(e) => Err(e),
        Ok((fs, ps, st2)) => match expect_at(toks, st2.pos, ASMTokenView::RBracket) {
            Err(e) => Err(e),
            Ok(n) => Ok(
                (
                    StructureView { hash: hash, fields: fs, procedures: ps, attributes: attributes },
                    AsmState { pos: n, data: st2.data, buffer: st2.buffer },
                ),
            ),
        },
    }
}

/// A structure `struct #name -> [ ... ]` from `st.pos` on; it takes the
/// attributes read before it.
pub open spec fn struct_at(toks: AsmTokens, st: AsmState) -> Result<(StructureView, AsmState), AsmError> {
    match expect_at(toks, st.pos, ASMTokenView::Keyword(ASMKeyword::Struct)) {
        Err(e) => Err(e),
        Ok(j) => match hash_at(toks, j) {
            Err(e) => Err(e),
            Ok(h) => match expect_at(toks, j + 1, ASMTokenView::Arrow) {
                Err(e) => Err(e),
                Ok(k) => match expect_at(toks, k, ASMTokenView::LBracket) {
                    Err(e) => Err(e),
                    Ok(m) => struct_rest(
                        toks,
                        h,
                        st.buffer,
                        AsmState { pos: m, data: st.data, buffer: seq![] },
                    ),
                },
            },
        },
    }
}

/// A whole file from `st.pos` on: the sections and the code. `sections`
/// are those read before.
pub open spec fn compile_body(toks: AsmTokens, st: AsmState, sections: Seq<SinSectionView>) -> Result<
    (Seq<SinSectionView>, Seq<u8>),
    AsmError,
>
    decreases toks.len() - st.pos,
{
    let i = st.pos;
    if i < 0 || i >= toks.len() {
        Ok((sections, st.data))
    } else {
        match toks[i].0 {
            ASMTokenView::Keyword(ASMKeyword::Proc) => match proc_at(toks, st) {
                Err(e) => Err(e),
                Ok((p, st2)) => {
                    proof {
                        lemma_proc_advances(toks, st);
                    }
                    compile_body(toks, st2, sections.push(SinSectionView::Procedure(p)))
                },
            },
            ASMTokenView::Keyword(ASMKeyword::Interface) => match interface_at(toks, st) {
                Err(e) => Err(e),
                Ok((v, st2)) => {
                    proof {
                        lemma_interface_advances(toks, st);
                    }
                    compile_body(toks, st2, sections.push(SinSectionView::Interface(v)))
                },
            },
            ASMTokenView::Keyword(ASMKeyword::Struct) => match struct_at(toks, st) {
                Err(e) => Err(e),
                Ok((v, st2)) => {
                    proof {
                        lemma_struct_advances(toks, st);
                    }
                    compile_body(toks, st2, sections.push(SinSectionView::Structure(v)))
                },
            },
            ASMTokenView::Attribute(_) => match attribute_at(toks, i) {
                Err(e) => Err(e),
                Ok((a, j)) => {
                    proof {
                        lemma_attribute_advances(toks, i);
                        assert(i < j <= toks.len());
                    }
                    compile_body(
                        toks,
                        AsmState { pos: j, data: st.data, buffer: st.buffer.push(a) },
                        sections,
                    )
                },
            },
            ASMTokenView::NewLine => compile_body(
                toks,
                AsmState { pos: i + 1, data: st.data, buffer: st.buffer },
                sections,
            ),
            _ => Err(unexpected_at(toks, i)),
        }
    }
}

pub proof fn lemma_accept_advances(toks: AsmTokens, i: int, hashes: Seq<u64>)
    ensures
        0 <= i <= toks.len() ==> (accept_list(toks, i, hashes) matches Ok((_, j)) ==> i <= j
            <= toks.len()),
    decreases toks.len() - i,
{
    if 0 <= i < toks.len() {
        if let ASMTokenView::HashName(name) = toks[i].0 {
            if token_at(toks, i + 1) matches Some((ASMTokenView::Comma, _)) {
                lemma_accept_advances(toks, i + 2, hashes.push(name_hash(name)));
            }
        }
    }
}

pub proof fn lemma_attribute_advances(toks: AsmTokens, i: int)
    ensures
        attribute_at(toks, i) matches Ok((_, j)) ==> i < j <= toks.len(),
{
    lemma_accept_advances(toks, i + 2, seq![]);
}

pub proof fn lemma_section_body_advances(
    toks: AsmTokens,
    i: int,
    start: nat,
    data: Seq<u8>,
    labels: Seq<(Seq<char>, nat)>,
)
    ensures
        section_body(toks, i, start, data, labels) matches Ok((k, _)) ==> k >= i,
    decreases toks.len() - i,
{
    if 0 <= i < toks.len() {
        let loc = toks[i].1;
        match toks[i].0 {
            ASMTokenView::Label(name) => {
                lemma_section_body_advances(
                    toks,
                    i + 1,
                    start,
                    data,
                    labels.push((name, (data.len() - start) as nat)),
                );
            },
            ASMTokenView::Instruction(ins) => {
                let types = instruction_types(ins);
                let bytes = encode_arguments(built_arguments(toks, i + 1, types, 0, 0)).0;
                lemma_newline_from(toks, i + 1);
                lemma_section_body_advances(
                    toks,
                    newline_from(toks, i + 1),
                    start,
                    data + instruction_bytes(spec_opcode(ins), bytes),
                    labels,
                );
            },
            ASMTokenView::String(s) => {
                lemma_section_body_advances(toks, i + 1, start, data + name_bytes(s), labels);
            },
            ASMTokenView::NewLine => {
                lemma_section_body_advances(toks, i + 1, start, data, labels);
            },
            _ => {},
        }
    }
}

pub proof fn lemma_proc_advances(toks: AsmTokens, st: AsmState)
    ensures
        proc_at(toks, st) matches Ok((_, st2)) ==> st.pos < st2.pos <= toks.len(),
{
    let k = st.pos + 3;
    lemma_section_body_advances(toks, k + 1, st.data.len(), st.data, seq![]);
}

pub proof fn lemma_interface_body_advances(toks: AsmTokens, st: AsmState, vprocs: Seq<MemberView>)
    ensures
        interface_body(toks, st, vprocs) matches Ok((_, st2)) ==> st2.pos >= st.pos,
    decreases toks.len() - st.pos,
{
    let i = st.pos;
    if 0 <= i < toks.len() {
        match toks[i].0 {
            ASMTokenView::Keyword(ASMKeyword::VProc) => {
                if let Ok(h) = hash_at(toks, i + 1) {
                    lemma_interface_body_advances(
                        toks,
                        AsmState { pos: i + 2, data: st.data, buffer: seq![] },
                        vprocs.push(MemberView { hash: h, attributes: st.buffer }),
                    );
                }
            },
            ASMTokenView::Attribute(_) => {
                lemma_attribute_advances(toks, i);
                if let Ok((a, j)) = attribute_at(toks, i) {
                    assert(i < j <= toks.len());
                    lemma_interface_body_advances(
                        toks,
                        AsmState { pos: j, data: st.data, buffer: st.buffer.push(a) },
                        vprocs,
                    );
                }
            },
            ASMTokenView::NewLine => {
                lemma_interface_body_advances(
                    toks,
                    AsmState { pos: i + 1, data: st.data, buffer: st.buffer },
                    vprocs,
                );
            },
            _ => {},
        }
    }
}

pub proof fn lemma_interface_advances(toks: AsmTokens, st: AsmState)
    ensures
        interface_at(toks, st) matches Ok((_, st2)) ==> st.pos < st2.pos <= toks.len(),
{
    lemma_interface_body_advances(
        toks,
        AsmState { pos: st.pos + 4, data: st.data, buffer: seq![] },
        seq![],
    );
}

pub proof fn lemma_struct_body_advances(
    toks: AsmTokens,
    st: AsmState,
    fields: Seq<MemberView>,
    procs: Seq<ProcedureView>,
)
    ensures
        struct_body(toks, st, fields, procs) matches Ok((_, _, st2)) ==> st2.pos >= st.pos,
    decreases toks.len() - st.pos,
{
    let i = st.pos;
    if 0 <= i < toks.len() {
        match toks[i].0 {
            ASMTokenView::Keyword(ASMKeyword::Proc) => {
                lemma_proc_advances(toks, st);
                if let Ok((p, st2)) = proc_at(toks, st) {
                    lemma_struct_body_advances(toks, st2, fields, procs.push(p));
                }
            },
            ASMTokenView::Keyword(ASMKeyword::Field) => {
                if let Ok(h) = hash_at(toks, i + 1) {
                    lemma_struct_body_advances(
                        toks,
                        AsmState { pos: i + 2, data: st.data, buffer: seq![] },
                        fields.push(MemberView { hash: h, attributes: st.buffer }),
                        procs,
                    );
                }
            },
            ASMTokenView::Attribute(_) => {
                lemma_attribute_advances(toks, i);
                if let Ok((a, j)) = attribute_at(toks, i) {
                    assert(i < j <= toks.len());
                    lemma_struct_body_advances(
                        toks,
                        AsmState { pos: j, data: st.data, buffer: st.buffer.push(a) },
                        fields,
                        procs,
                    );
                }
            },
            ASMTokenView::NewLine => {
                lemma_struct_body_advances(
                    toks,
                    AsmState { pos: i + 1, data: st.data, buffer: st.buffer },
                    fields,
                    procs,
                );
            },
            _ => {},
        }
    }
}

pub proof fn lemma_struct_advances(toks: AsmTokens, st: AsmState)
    ensures
        struct_at(toks, st) matches Ok((_, st2)) ==> st.pos < st2.pos <= toks.len(),
{
    lemma_struct_body_advances(
        toks,
        AsmState { pos: st.pos + 4, data: st.data, buffer: seq![] },
        seq![],
        seq![],
    );
}

/// The labels of a section as plain values.
pub open spec fn labels_view(labels: Seq<(String, usize)>) -> Seq<(Seq<char>, nat)> {
    labels.map_values(|l: (String, usize)| (l.0@, l.1 as nat))
}

/// A label replacement as plain values: the label, where its address goes
/// and where it was used.
pub open spec fn replaces_view(rs: Seq<LabelReplace>) -> Seq<(Seq<char>, nat, LocationView)> {
    rs.map_values(|r: LabelReplace| (r.label@, r.pos as nat, r.location@))
}

/// `data` with the eight bytes of `value`, least significant first, at `pos`.
pub open spec fn write_u64_at(data: Seq<u8>, pos: int, value: nat) -> Seq<u8> {
    data.subrange(0, pos) + le_bytes(value, 8) + data.subrange(pos + 8, data.len() as int)
}

/// The replacements from `k` on, applied to `data` in turn: the result, or
/// the data so far and the index of the first replacement whose label is
/// unknown.
pub open spec fn apply_replaces(
    data: Seq<u8>,
    rs: Seq<(Seq<char>, nat, LocationView)>,
    labels: Seq<(Seq<char>, nat)>,
    k: int,
) -> Result<Seq<u8>, (Seq<u8>, int)>
    decreases rs.len() - k,
{
    if k < 0 || k >= rs.len() {
        Ok(data)
    } else {
        match lookup_label(labels, rs[k].0) {
            None => Err((data, k)),
            Some(offset) => apply_replaces(write_u64_at(data, rs[k].1 as int, offset), rs, labels, k + 1),
        }
    }
}

/// Every replacement that is reached (all labels before it are known) lies
/// within `len` bytes.
pub open spec fn replaces_fit(
    len: nat,
    rs: Seq<(Seq<char>, nat, LocationView)>,
    labels: Seq<(Seq<char>, nat)>,
) -> bool {
    forall|k: int|
        0 <= k < rs.len() && (forall|j: int| 0 <= j < k ==> lookup_label(labels, #[trigger] rs[j].0) is Some)
            ==> #[trigger] rs[k].1 + 8 <= len
}

pub proof fn lemma_le_bytes_len(v: nat, n: nat)
    ensures
        le_bytes(v, n).len() == n,
    decreases n,
{
    if n > 0 {
        lemma_le_bytes_len(v / 256, (n - 1) as nat);
    }
}

pub proof fn lemma_lookup_skip(labels: Seq<(Seq<char>, nat)>, name: Seq<char>, i: int)
    requires
        0 <= i <= labels.len(),
        forall|j: int| 0 <= j < i ==> labels[j].0 != name,
    ensures
        lookup_label(labels, name) == lookup_label(labels.skip(i), name),
    decreases i,
{
    if i > 0 {
        lemma_lookup_skip(labels.drop_first(), name, i - 1);
        assert(labels.drop_first().skip(i - 1) =~= labels.skip(i));
    } else {
        assert(labels.skip(0) =~= labels);
    }
}

pub proof fn lemma_built_has_no_label(
    toks: AsmTokens,
    p: int,
    types: Seq<ArgumentType>,
    k: int,
    off: int,
)
    ensures
        forall|j: int|
            0 <= j < built_arguments(toks, p, types, k, off).len() ==> !(#[trigger] built_arguments(
                toks,
                p,
                types,
                k,
                off,
            )[j] is Label),
    decreases types.len() - k,
{
    if 0 <= k < types.len() {
        let t = types[k];
        let next = off + crate::compiler::argument_parser::argument_width(t) + 1;
        lemma_built_has_no_label(toks, p, types, k + 1, next);
        let rest = built_arguments(toks, p, types, k + 1, next);
        let all = built_arguments(toks, p, types, k, off);
        assert forall|j: int| 0 <= j < all.len() implies !(#[trigger] all[j] is Label) by {
            if j > 0 {
                assert(all[j] == rest[j - 1]);
            }
        }
    }
}

pub proof fn lemma_encode_no_label(args: Seq<ParsedArgumentView>)
    requires
        forall|j: int| 0 <= j < args.len() ==> !(#[trigger] args[j] is Label),
    ensures
        encode_arguments(args).1 == Seq::<(Seq<char>, nat)>::empty(),
    decreases args.len(),
{
    if args.len() > 0 {
        let init = args.drop_last();
        assert forall|j: int| 0 <= j < init.len() implies !(#[trigger] init[j] is Label) by {
            assert(init[j] == args[j]);
        }
        lemma_encode_no_label(init);
    }
}

/// Reads a rasm file's tokens into sections and code.
pub struct ASMCompiler {
    base: CompilerBase<ASMToken>,
    data: Vec<u8>,
    sections: Vec<SinSection>,
    write_pos: usize,
    attributes_buffer: Vec<Attribute>,
}

impl ASMCompiler {
    /// The tokens read.
    pub closed spec fn toks(&self) -> AsmTokens {
        self.base.toks()
    }

    /// The position, the code written and the attributes waiting for a
    /// section.
    pub closed spec fn state(&self) -> AsmState {
        AsmState {
            pos: self.base.pos(),
            data: self.data@,
            buffer: attribute_views(self.attributes_buffer@),
        }
    }

    /// The sections read.
    pub closed spec fn sections(&self) -> Seq<SinSectionView> {
        self.sections@.map_values(|s: SinSection| s@)
    }

    /// The write position is the length of the code, and the position is
    /// within the tokens.
    pub closed spec fn wf(&self) -> bool {
        &&& self.write_pos == self.data@.len()
        &&& 0 <= self.base.pos() <= self.base.toks().len()
    }

    pub fn new(tokens: Vec<WithLocation<ASMToken>>) -> (r: ASMCompiler)
        ensures
            r.wf(),
            r.toks() == token_views(tokens@),
            r.state().pos == 0,
            r.state().data == Seq::<u8>::empty(),
            r.state().buffer == Seq::<AttributeView>::empty(),
            r.sections() == Seq::<SinSectionView>::empty(),
    {
        let r = Self {
            base: CompilerBase::new(tokens),
            data: Vec::new(),
            sections: Vec::new(),
            write_pos: 0,
            attributes_buffer: Vec::new(),
        };
        assert(r.sections() =~= Seq::<SinSectionView>::empty());
        assert(r.state().buffer =~= Seq::<AttributeView>::empty());
        r
    }

    /// Appends bytes to the code.
    pub fn write(&mut self, data: &[u8])
        requires
            old(self).wf(),
        ensures
            final(self).wf(),
            final(self).toks() == old(self).toks(),
            final(self).sections() == old(self).sections(),
            final(self).state().pos == old(self).state().pos,
            final(self).state().buffer == old(self).state().buffer,
            final(self).state().data == old(self).state().data + data@,
    {
        let ghost before = self.data@;
        let mut i: usize = 0;
        while i < data.len()
            invariant
                i <= data@.len(),
                self.data@ == before + data@.take(i as int),
                self.base == old(self).base,
                self.sections == old(self).sections,
                self.attributes_buffer == old(self).attributes_buffer,
                self.write_pos == old(self).write_pos,
                before == old(self).data@,
            decreases data@.len() - i,
        {
            self.data.push(data[i]);
            i = i + 1;
            assert(self.data@ =~= before + data@.take(i as int));
        }
        assert(data@.take(data@.len() as int) =~= data@);
        let len = self.data.len();
        self.write_pos = self.write_pos + data.len();
    }

    /// Appends an instruction: its size, its opcode and its argument bytes.
    pub fn write_instruction(&mut self, opcode: u16, argument: &[u8])
        requires
            old(self).wf(),
            argument@.len() + 3 <= usize::MAX,
        ensures
            final(self).wf(),
            final(self).toks() == old(self).toks(),
            final(self).sections() == old(self).sections(),
            final(self).state().pos == old(self).state().pos,
            final(self).state().buffer == old(self).state().buffer,
            final(self).state().data == old(self).state().data + instruction_bytes(
                opcode,
                argument@,
            ),
    {
        let size = ((argument.len() + 3) % 256) as u8;
        let header = vec![size, (opcode % 256) as u8, (opcode / 256) as u8];
        self.write(header.as_slice());
        self.write(argument);
        assert(self.data@ =~= old(self).data@ + instruction_bytes(opcode, argument@));
    }

    /// Writes the offset of each label where it is used.
    fn replace_labels(
        &mut self,
        label_replaces: Vec<LabelReplace>,
        labels: Vec<(String, usize)>,
    ) -> (r: Result<(), CompilerError<ASMToken>>)
        requires
            old(self).wf(),
            replaces_fit(old(self).data@.len(), replaces_view(label_replaces@), labels_view(labels@)),
        ensures
            final(self).wf(),
            final(self).toks() == old(self).toks(),
            final(self).sections() == old(self).sections(),
            final(self).state().pos == old(self).state().pos,
            final(self).state().buffer == old(self).state().buffer,
            match apply_replaces(old(self).data@, replaces_view(label_replaces@), labels_view(labels@), 0) {
                Ok(d) => r is Ok && final(self).data@ == d,
                Err((d, k)) => r is Err && final(self).data@ == d && r->Err_0@
                    == CompileErrorView::<ASMTokenView>::UndefinedLabel(
                    replaces_view(label_replaces@)[k].0,
                    replaces_view(label_replaces@)[k].2,
                ),
            },
    {
        let ghost rs = replaces_view(label_replaces@);
        let ghost ls = labels_view(labels@);
        let ghost data0 = self.data@;
        let mut i: usize = 0;
        while i < label_replaces.len()
            invariant
                rs == replaces_view(label_replaces@),
                ls == labels_view(labels@),
                i <= label_replaces@.len(),
                replaces_fit(data0.len(), rs, ls),
                forall|j: int| 0 <= j < i ==> lookup_label(ls, #[trigger] rs[j].0) is Some,
                self.data@.len() == data0.len(),
                apply_replaces(self.data@, rs, ls, i as int) == apply_replaces(data0, rs, ls, 0),
                self.base == old(self).base,
                self.sections == old(self).sections,
                self.attributes_buffer == old(self).attributes_buffer,
                self.write_pos == old(self).write_pos,
                self.write_pos == data0.len(),
                data0 == old(self).data@,
                self.wf(),
            decreases label_replaces@.len() - i,
        {
            let replace = &label_replaces[i];
            assert(rs[i as int] == (replace.label@, replace.pos as nat, replace.location@));
            assert(rs[i as int].1 + 8 <= data0.len());
            let found = find_label(&labels, &replace.label);
            match found {
                None => {
                    assert(apply_replaces(self.data@, rs, ls, i as int) == Err::<
                        Seq<u8>,
                        (Seq<u8>, int),
                    >((self.data@, i as int)));
                    let label = replace.label.clone();
                    let location = replace.location.clone();
                    assert(label@ == rs[i as int].0);
                    assert(location@ == rs[i as int].2);
                    let e = CompilerError::UndefinedLabel(label, location);
                    assert(e@ == CompileErrorView::<ASMTokenView>::UndefinedLabel(
                        rs[i as int].0,
                        rs[i as int].2,
                    ));
                    assert(apply_replaces(old(self).data@, rs, ls, 0) == Err::<
                        Seq<u8>,
                        (Seq<u8>, int),
                    >((self.data@, i as int)));
                    return Err(e);
                },
                Some(offset) => {
                    let mut bytes: Vec<u8> = Vec::new();
                    push_le(&mut bytes, offset as u64, 8);
                    assert(bytes@ =~= le_bytes(offset as nat, 8));
                    proof {
                        lemma_le_bytes_len(offset as nat, 8);
                    }
                    let ghost d = self.data@;
                    let dlen = self.data.len();
                    let pos = replace.pos;
                    let mut b: usize = 0;
                    while b < 8
                        invariant
                            b <= 8,
                            pos + 8 <= d.len(),
                            dlen == d.len(),
                            bytes@.len() == 8,
                            self.data@ == d.subrange(0, pos as int) + bytes@.take(b as int)
                                + d.subrange(pos + b, d.len() as int),
                            self.base == old(self).base,
                            self.sections == old(self).sections,
                            self.attributes_buffer == old(self).attributes_buffer,
                            self.write_pos == old(self).write_pos,
                        decreases 8 - b,
                    {
                        self.data.set(pos + b, bytes[b]);
                        b = b + 1;
                        assert(self.data@ =~= d.subrange(0, pos as int) + bytes@.take(b as int)
                            + d.subrange(pos + b, d.len() as int));
                    }
                    assert(self.data@ =~= write_u64_at(d, pos as int, offset as nat));
                },
            }
            i = i + 1;
        }
        Ok(())
    }
}

impl ASMCompiler {
    /// The arguments of the types asked for, read after the position
    /// (which does not move), if the tokens spell them.
    fn try_parse_argument(&self, arg_types: &[ArgumentType]) -> (r: Option<ParsedArguments>)
        requires
            forall|k: int|
                0 <= k < arg_types@.len() ==> !is_signed(#[trigger] arg_types@[k])
                    && arg_types@[k] != ArgumentType::Label,
            arg_types@.len() <= usize::MAX / 3,
        ensures
            r is Some <==> arguments_match(self.toks(), self.state().pos, arg_types@, 0, 0),
            r matches Some(p) ==> p@ == built_arguments(
                self.toks(),
                self.state().pos,
                arg_types@,
                0,
                0,
            ),
    {
        let mut parser = ArgumentParser::new(&self.base);
        let mut i: usize = 0;
        while i < arg_types.len()
            invariant
                i <= arg_types@.len(),
                parser.types() == arg_types@.take(i as int),
                parser.toks() == self.toks(),
                parser.start() == self.state().pos,
                parser.fresh(),
            decreases arg_types@.len() - i,
        {
            parser = parser.parse(arg_types[i]);
            i = i + 1;
            assert(parser.types() =~= arg_types@.take(i as int));
        }
        assert(arg_types@.take(arg_types@.len() as int) =~= arg_types@);
        if parser.is_valid() {
            Some(parser.build())
        } else {
            None
        }
    }

    /// Moves to the next new line (or the end).
    fn consume_until_newline(&mut self)
        requires
            old(self).wf(),
        ensures
            final(self).wf(),
            final(self).toks() == old(self).toks(),
            final(self).sections() == old(self).sections(),
            final(self).state().data == old(self).state().data,
            final(self).state().buffer == old(self).state().buffer,
            final(self).state().pos == newline_from(old(self).toks(), old(self).state().pos),
    {
        loop
            invariant
                self.wf(),
                self.toks() == old(self).toks(),
                self.sections == old(self).sections,
                self.data == old(self).data,
                self.attributes_buffer == old(self).attributes_buffer,
                newline_from(self.toks(), self.state().pos) == newline_from(
                    old(self).toks(),
                    old(self).state().pos,
                ),
            ensures
                self.state().pos == newline_from(old(self).toks(), old(self).state().pos),
            decreases self.toks().len() - self.state().pos,
        {
            match self.base.peek(0) {
                None => {
                    break;
                },
                Some(t) => match t.value() {
                    ASMToken::NewLine => {
                        break;
                    },
                    _ => {},
                },
            }
            self.base.consume();
        }
    }

    /// The hash of the name at the position, which moves past it.
    pub fn parse_hash(&mut self) -> (r: Result<u64, CompilerError<ASMToken>>)
        requires
            old(self).wf(),
        ensures
            final(self).wf(),
            final(self).toks() == old(self).toks(),
            final(self).sections() == old(self).sections(),
            final(self).state().data == old(self).state().data,
            final(self).state().buffer == old(self).state().buffer,
            match hash_at(old(self).toks(), old(self).state().pos) {
                Ok(h) => r == Ok::<u64, CompilerError<ASMToken>>(h) && final(self).state().pos
                    == old(self).state().pos + 1,
                Err(e) => r is Err && r->Err_0@ == e && final(self).state().pos == old(
                    self,
                ).state().pos,
            },
    {
        let name = match self.base.peek(0) {
            None => {
                return Err(CompilerError::UnexpectedToken(None));
            },
            Some(t) => match t.value() {
                ASMToken::HashName(name) => name.clone(),
                _ => {
                    return Err(self.base.unexpected());
                },
            },
        };
        self.base.consume();
        Ok(hash_name(name.as_str().as_bytes()))
    }

    /// The identifier at the position, which moves past it.
    pub fn parse_name(&mut self) -> (r: Result<String, CompilerError<ASMToken>>)
        requires
            old(self).wf(),
        ensures
            final(self).wf(),
            final(self).toks() == old(self).toks(),
            final(self).sections() == old(self).sections(),
            final(self).state().data == old(self).state().data,
            final(self).state().buffer == old(self).state().buffer,
            match name_at(old(self).toks(), old(self).state().pos) {
                Ok(n) => r is Ok && r->Ok_0@ == n && final(self).state().pos == old(self).state().pos
                    + 1,
                Err(e) => r is Err && r->Err_0@ == e && final(self).state().pos == old(
                    self,
                ).state().pos,
            },
    {
        let name = match self.base.peek(0) {
            None => {
                return Err(CompilerError::UnexpectedToken(None));
            },
            Some(t) => match t.value() {
                ASMToken::Identifier(ident) => ident.clone(),
                _ => {
                    return Err(self.base.unexpected());
                },
            },
        };
        self.base.consume();
        Ok(name)
    }
}

/// The argument of an instruction takes two or eight bytes.
proof fn lemma_instruction_argument_len(toks: AsmTokens, p: int, ins: InstructionType)
    ensures
        encode_arguments(built_arguments(toks, p, instruction_types(ins), 0, 0)).0.len() <= 8,
{
    let types = instruction_types(ins);
    let args = built_arguments(toks, p, types, 0, 0);
    let width = crate::compiler::argument_parser::argument_width(types[0]);
    assert(built_arguments(toks, p, types, 1, width + 1).len() == 0);
    assert(args.len() == 1);
    assert(args.drop_last() =~= Seq::<ParsedArgumentView>::empty());
    assert(encode_arguments(args.drop_last()).0.len() == 0);
    let n = crate::compiler::argument_parser::number_of(token_at(toks, p));
    if ins == InstructionType::PushU64 {
        lemma_le_bytes_len(n as nat, 8);
    } else {
        lemma_le_bytes_len(#[verifier::truncate] (n as u16) as nat, 2);
    }
}

impl ASMCompiler {
    /// The arguments of instruction `ins`, read at the position: the
    /// instruction is written and the position moves to the next new line.
    fn parse_instruction(
        &mut self,
        ins: InstructionType,
        location: Location,
        label_replacess: &mut Vec<LabelReplace>,
    ) -> (r: Result<(), CompilerError<ASMToken>>)
        requires
            old(self).wf(),
            old(label_replacess)@.len() == 0,
        ensures
            final(self).wf(),
            final(self).toks() == old(self).toks(),
            final(self).sections() == old(self).sections(),
            final(self).state().buffer == old(self).state().buffer,
            final(label_replacess)@.len() == 0,
            final(self).state().data.len() >= old(self).state().data.len(),
            arguments_match(old(self).toks(), old(self).state().pos, instruction_types(ins), 0, 0)
                ==> r is Ok && final(self).state().pos == newline_from(
                old(self).toks(),
                old(self).state().pos,
            ) && final(self).state().data == old(self).state().data + instruction_bytes(
                spec_opcode(ins),
                encode_arguments(
                    built_arguments(
                        old(self).toks(),
                        old(self).state().pos,
                        instruction_types(ins),
                        0,
                        0,
                    ),
                ).0,
            ),
            !arguments_match(old(self).toks(), old(self).state().pos, instruction_types(ins), 0, 0)
                ==> r is Err && r->Err_0@ == CompileErrorView::<ASMTokenView>::InvalidArgument(
                location@,
            ),
    {
        let ghost toks = self.toks();
        let ghost pos = self.state().pos;
        let types = match ins {
            InstructionType::PushU64 => vec![ArgumentType::U64],
            _ => vec![ArgumentType::U16],
        };
        assert(types@ =~= instruction_types(ins));
        let parsed = match self.try_parse_argument(types.as_slice()) {
            None => {
                return Err(CompilerError::InvalidArgument(location));
            },
            Some(p) => p,
        };
        let (argument, label_replaces) = parsed.finalize(location);
        proof {
            lemma_instruction_argument_len(toks, pos, ins);
            lemma_built_has_no_label(toks, pos, types@, 0, 0);
            lemma_encode_no_label(built_arguments(toks, pos, types@, 0, 0));
            assert(label_replaces@.map_values(|l: LabelReplace| (l.label@, l.pos as nat)).len()
                == 0);
            assert(label_replaces@.len() == 0);
        }
        self.write_instruction(ins.opcode(), argument.as_slice());
        // Label arguments get the position of their bytes in the whole code.
        let mut k: usize = 0;
        while k < label_replaces.len()
            invariant
                label_replaces@.len() == 0,
                label_replacess@.len() == 0,
            decreases label_replaces@.len() - k,
        {
            let mut replace = label_replaces[k].clone();
            replace.pos = self.write_pos - (argument.len() - replace.pos);
            label_replacess.push(replace);
            k = k + 1;
        }
        self.consume_until_newline();
        Ok(())
    }

    /// A section `{ ... }` at the position: its code is appended, and the
    /// result is where that code starts and ends.
    pub fn parse_section(&mut self, procedure_hash: u64) -> (r: Result<
        (u64, u64),
        CompilerError<ASMToken>,
    >)
        requires
            old(self).wf(),
        ensures
            final(self).wf(),
            final(self).toks() == old(self).toks(),
            final(self).sections() == old(self).sections(),
            final(self).state().buffer == old(self).state().buffer,
            final(self).state().data.len() >= old(self).state().data.len(),
            match section_at(old(self).toks(), old(self).state().pos, old(self).state().data) {
                Ok((start, end, m, d)) => r == Ok::<(u64, u64), CompilerError<ASMToken>>(
                    (start, end),
                ) && final(self).state().pos == m && final(self).state().data == d,
                Err(e) => r is Err && r->Err_0@ == e,
            },
    {
        let start = self.write_pos;
        match self.base.expect_token(ASMToken::LCurly) {
            Ok(_) => {},
            Err(e) => {
                return Err(e);
            },
        }
        let ghost toks = self.toks();
        let ghost data0 = self.data@;
        let ghost j0 = self.base.pos();
        let mut labels: Vec<(String, usize)> = Vec::new();
        let mut label_replacess: Vec<LabelReplace> = Vec::new();
        assert(labels_view(labels@) =~= Seq::<(Seq<char>, nat)>::empty());
        loop
            invariant
                self.wf(),
                self.toks() == toks,
                toks == old(self).toks(),
                self.sections() == old(self).sections(),
                self.state().buffer == old(self).state().buffer,
                start == data0.len(),
                data0 == old(self).data@,
                self.data@.len() >= data0.len(),
                label_replacess@.len() == 0,
                expect_at(toks, old(self).state().pos, ASMTokenView::LCurly) == Ok::<int, AsmError>(
                    j0,
                ),
                section_body(toks, self.base.pos(), start as nat, self.data@, labels_view(labels@))
                    == section_body(toks, j0, start as nat, data0, seq![]),
            ensures
                section_body(toks, j0, start as nat, data0, seq![]) == Ok::<
                    (int, Seq<u8>),
                    AsmError,
                >((self.base.pos(), self.data@)),
            decreases toks.len() - self.base.pos(),
        {
            let token = match self.base.peek_owned(0) {
                None => {
                    break;
                },
                Some(t) => t,
            };
            let ghost pos = self.base.pos();
            let ghost ls = labels_view(labels@);
            match token.value() {
                ASMToken::Label(label) => {
                    let offset = self.write_pos - start;
                    if find_label(&labels, label).is_some() {
                        return Err(CompilerError::MultipleLabel(label.clone(), token.location().clone()));
                    }
                    labels.push((label.clone(), offset));
                    assert(labels_view(labels@) =~= ls.push((label@, offset as nat)));
                    self.base.consume();
                },
                ASMToken::Instruction(ins) => {
                    let ins = *ins;
                    let location = token.location().clone();
                    self.base.consume();
                    proof {
                        lemma_newline_from(toks, pos + 1);
                    }
                    match self.parse_instruction(ins, location, &mut label_replacess) {
                        Ok(()) => {},
                        Err(e) => {
                            return Err(e);
                        },
                    }
                },
                ASMToken::String(string) => {
                    let bytes = string.as_str().as_bytes();
                    assert(bytes@ == name_bytes(string@));
                    self.write(bytes);
                    self.base.consume();
                },
                ASMToken::NewLine => {
                    self.base.consume();
                },
                ASMToken::RCurly => {
                    break;
                },
                _ => {
                    return Err(CompilerError::UnexpectedToken(Some(token)));
                },
            }
        }
        match self.replace_labels(label_replacess, labels) {
            Ok(()) => {},
            Err(e) => {
                return Err(e);
            },
        }
        match self.base.expect_token(ASMToken::RCurly) {
            Ok(_) => {},
            Err(e) => {
                return Err(e);
            },
        }
        Ok((start as u64, self.write_pos as u64))
    }
}

impl ASMCompiler {
    /// `( #name )` at the position: the hash of the name.
    fn parse_bracketed_hash(&mut self) -> (r: Result<u64, CompilerError<ASMToken>>)
        requires
            old(self).wf(),
        ensures
            final(self).wf(),
            final(self).toks() == old(self).toks(),
            final(self).sections() == old(self).sections(),
            final(self).state().data == old(self).state().data,
            final(self).state().buffer == old(self).state().buffer,
            match bracketed_hash_at(old(self).toks(), old(self).state().pos) {
                Ok((h, j)) => r == Ok::<u64, CompilerError<ASMToken>>(h) && final(self).state().pos
                    == j,
                Err(e) => r is Err && r->Err_0@ == e,
            },
    {
        match self.base.expect_token(ASMToken::LRoundBracket) {
            Ok(_) => {},
            Err(e) => {
                return Err(e);
            },
        }
        let hash = match self.parse_hash() {
            Ok(h) => h,
            Err(e) => {
                return Err(e);
            },
        };
        match self.base.expect_token(ASMToken::RRoundBracket) {
            Ok(_) => {},
            Err(e) => {
                return Err(e);
            },
        }
        Ok(hash)
    }

    /// The list of an accept attribute, after its opening bracket.
    fn parse_accept_list(&mut self) -> (r: Result<Vec<u64>, CompilerError<ASMToken>>)
        requires
            old(self).wf(),
        ensures
            final(self).wf(),
            final(self).toks() == old(self).toks(),
            final(self).sections() == old(self).sections(),
            final(self).state().data == old(self).state().data,
            final(self).state().buffer == old(self).state().buffer,
            match accept_list(old(self).toks(), old(self).state().pos, seq![]) {
                Ok((hs, j)) => r is Ok && r->Ok_0@ == hs && final(self).state().pos == j,
                Err(e) => r is Err && r->Err_0@ == e,
            },
    {
        let ghost toks = self.toks();
        let mut hashs: Vec<u64> = Vec::new();
        loop
            invariant_except_break
                accept_list(toks, self.state().pos, hashs@) == accept_list(
                    toks,
                    old(self).state().pos,
                    seq![],
                ),
            invariant
                self.wf(),
                self.toks() == toks,
                toks == old(self).toks(),
                self.sections() == old(self).sections(),
                self.state().data == old(self).state().data,
                self.state().buffer == old(self).state().buffer,
            ensures
                accept_list(toks, old(self).state().pos, seq![]) == Ok::<(Seq<u64>, int), AsmError>(
                    (hashs@, self.state().pos),
                ),
            decreases toks.len() - self.state().pos,
        {
            let mut close = false;
            match self.base.peek(0) {
                None => {
                    break;
                },
                Some(t) => match t.value() {
                    ASMToken::HashName(_) => {},
                    ASMToken::RRoundBracket => {
                        close = true;
                    },
                    _ => {
                        return Err(self.base.unexpected());
                    },
                },
            }
            if close {
                self.base.consume();
                break;
            }
            let hash = match self.parse_hash() {
                Ok(h) => h,
                Err(e) => {
                    return Err(e);
                },
            };
            hashs.push(hash);
            let mut close_next = false;
            match self.base.peek(0) {
                None => {
                    return Err(CompilerError::UnexpectedToken(None));
                },
                Some(t) => match t.value() {
                    ASMToken::RRoundBracket => {
                        close_next = true;
                    },
                    _ => {},
                },
            }
            if close_next {
                self.base.consume();
                break;
            }
            match self.base.expect_token(ASMToken::Comma) {
                Ok(_) => {},
                Err(e) => {
                    return Err(e);
                },
            }
        }
        Ok(hashs)
    }

    /// The attribute at the position.
    pub fn parse_attribute(&mut self) -> (r: Result<Attribute, CompilerError<ASMToken>>)
        requires
            old(self).wf(),
        ensures
            final(self).wf(),
            final(self).toks() == old(self).toks(),
            final(self).sections() == old(self).sections(),
            final(self).state().data == old(self).state().data,
            final(self).state().buffer == old(self).state().buffer,
            match attribute_at(old(self).toks(), old(self).state().pos) {
                Ok((a, j)) => r is Ok && r->Ok_0@ == a && final(self).state().pos == j,
                Err(e) => r is Err && r->Err_0@ == e,
            },
    {
        let attribute = match self.base.peek(0) {
            None => {
                return Err(CompilerError::UnexpectedToken(None));
            },
            Some(t) => match t.value() {
                ASMToken::Attribute(a) => *a,
                _ => {
                    let e = self.base.unexpected();
                    self.base.consume();
                    return Err(e);
                },
            },
        };
        self.base.consume();
        match attribute {
            AttributeToken::Public => Ok(Attribute::Public),
            AttributeToken::Private => Ok(Attribute::Private),
            AttributeToken::Static => Ok(Attribute::Static),
            AttributeToken::Implemented => match self.parse_bracketed_hash() {
                Ok(h) => Ok(Attribute::Implemented(h)),
                Err(e) => Err(e),
            },
            AttributeToken::Contain => match self.parse_bracketed_hash() {
                Ok(h) => Ok(Attribute::Contain(h)),
                Err(e) => Err(e),
            },
            AttributeToken::Return => match self.parse_bracketed_hash() {
                Ok(h) => Ok(Attribute::Return(h)),
                Err(e) => Err(e),
            },
            AttributeToken::Overwrite => match self.parse_bracketed_hash() {
                Ok(h) => Ok(Attribute::Overwrite(h)),
                Err(e) => Err(e),
            },
            AttributeToken::Accept => {
                match self.base.expect_token(ASMToken::LRoundBracket) {
                    Ok(_) => {},
                    Err(e) => {
                        return Err(e);
                    },
                }
                match self.parse_accept_list() {
                    Ok(hashs) => Ok(Attribute::Accept(hashs)),
                    Err(e) => Err(e),
                }
            },
        }
    }
}

impl ASMCompiler {
    /// Takes the attributes read so far, leaving none.
    fn take_attributes(&mut self) -> (r: Vec<Attribute>)
        requires
            old(self).wf(),
        ensures
            final(self).wf(),
            final(self).toks() == old(self).toks(),
            final(self).sections() == old(self).sections(),
            final(self).state().pos == old(self).state().pos,
            final(self).state().data == old(self).state().data,
            final(self).state().buffer == Seq::<AttributeView>::empty(),
            attribute_views(r@) == old(self).state().buffer,
    {
        let mut attr: Vec<Attribute> = Vec::new();
        std::mem::swap(&mut attr, &mut self.attributes_buffer);
        assert(self.state().buffer =~= Seq::<AttributeView>::empty());
        attr
    }

    /// Adds an attribute to those read for the next section.
    fn push_attribute(&mut self, attribute: Attribute)
        requires
            old(self).wf(),
        ensures
            final(self).wf(),
            final(self).toks() == old(self).toks(),
            final(self).sections() == old(self).sections(),
            final(self).state().pos == old(self).state().pos,
            final(self).state().data == old(self).state().data,
            final(self).state().buffer == old(self).state().buffer.push(attribute@),
    {
        self.attributes_buffer.push(attribute);
        assert(self.state().buffer =~= old(self).state().buffer.push(attribute@));
    }

    /// A procedure `proc #name -> { ... }` at the position; it takes the
    /// attributes read before it.
    pub fn parse_proc(&mut self) -> (r: Result<Procedure, CompilerError<ASMToken>>)
        requires
            old(self).wf(),
        ensures
            final(self).wf(),
            final(self).toks() == old(self).toks(),
            final(self).sections() == old(self).sections(),
            match proc_at(old(self).toks(), old(self).state()) {
                Ok((p, st)) => r is Ok && r->Ok_0@ == p && final(self).state() == st,
                Err(e) => r is Err && r->Err_0@ == e,
            },
    {
        match self.base.expect_token(ASMToken::Keyword(ASMKeyword::Proc)) {
            Ok(_) => {},
            Err(e) => {
                return Err(e);
            },
        }
        let procedure_hash = match self.parse_hash() {
            Ok(h) => h,
            Err(e) => {
                return Err(e);
            },
        };
        match self.base.expect_token(ASMToken::Arrow) {
            Ok(_) => {},
            Err(e) => {
                return Err(e);
            },
        }
        let (start, end) = match self.parse_section(procedure_hash) {
            Ok(r) => r,
            Err(e) => {
                return Err(e);
            },
        };
        let attr = self.take_attributes();
        Ok(Procedure::new(procedure_hash, start, end - start, Attributes::new(attr)))
    }
}

/// The views of a list of declared procedures.
pub open spec fn vproc_views(vs: Seq<VProcedure>) -> Seq<MemberView> {
    vs.map_values(|v: VProcedure| v@)
}

/// The views of a list of fields.
pub open spec fn field_views(fs: Seq<Field>) -> Seq<MemberView> {
    fs.map_values(|f: Field| f@)
}

/// The views of a list of procedures.
pub open spec fn procedure_views(ps: Seq<Procedure>) -> Seq<ProcedureView> {
    ps.map_values(|p: Procedure| p@)
}

impl ASMCompiler {
    /// An interface `interface #name -> [ ... ]` at the position; it takes
    /// the attributes read before it.
    pub fn parse_interface(&mut self) -> (r: Result<Interface, CompilerError<ASMToken>>)
        requires
            old(self).wf(),
        ensures
            final(self).wf(),
            final(self).toks() == old(self).toks(),
            final(self).sections() == old(self).sections(),
            match interface_at(old(self).toks(), old(self).state()) {
                Ok((v, st)) => r is Ok && r->Ok_0@ == v && final(self).state() == st,
                Err(e) => r is Err && r->Err_0@ == e,
            },
    {
        match self.base.expect_token(ASMToken::Keyword(ASMKeyword::Interface)) {
            Ok(_) => {},
            Err(e) => {
                return Err(e);
            },
        }
        let interface_hash = match self.parse_hash() {
            Ok(h) => h,
            Err(e) => {
                return Err(e);
            },
        };
        let mut vprocs: Vec<VProcedure> = Vec::new();
        match self.base.expect_token(ASMToken::Arrow) {
            Ok(_) => {},
            Err(e) => {
                return Err(e);
            },
        }
        match self.base.expect_token(ASMToken::LBracket) {
            Ok(_) => {},
            Err(e) => {
                return Err(e);
            },
        }
        let attr = self.take_attributes();
        let ghost toks = self.toks();
        let ghost st0 = self.state();
        assert(vproc_views(vprocs@) =~= Seq::<MemberView>::empty());
        assert(interface_at(toks, old(self).state()) == interface_rest(
            toks,
            interface_hash,
            old(self).state().buffer,
            st0,
        ));
        loop
            invariant_except_break
                interface_body(toks, self.state(), vproc_views(vprocs@)) == interface_body(
                    toks,
                    st0,
                    seq![],
                ),
            invariant
                interface_at(toks, old(self).state()) == interface_rest(
                    toks,
                    interface_hash,
                    old(self).state().buffer,
                    st0,
                ),
                self.wf(),
                self.toks() == toks,
                toks == old(self).toks(),
                self.sections() == old(self).sections(),
            ensures
                interface_body(toks, st0, seq![]) == Ok::<(Seq<MemberView>, AsmState), AsmError>(
                    (vproc_views(vprocs@), self.state()),
                ),
            decreases toks.len() - self.state().pos,
        {
            let token = match self.base.peek_owned(0) {
                None => {
                    break;
                },
                Some(t) => t,
            };
            let ghost vs = vproc_views(vprocs@);
            match token.value() {
                ASMToken::Keyword(ASMKeyword::VProc) => {
                    self.base.consume();
                    let hash = match self.parse_hash() {
                        Ok(h) => h,
                        Err(e) => {
                            return Err(e);
                        },
                    };
                    let attr = self.take_attributes();
                    vprocs.push(VProcedure::new(hash, Attributes::new(attr)));
                    assert(vproc_views(vprocs@) =~= vs.push(vprocs@.last()@));
                },
                ASMToken::Attribute(_) => {
                    proof {
                        lemma_attribute_advances(toks, self.state().pos);
                    }
                    let attribute = match self.parse_attribute() {
                        Ok(a) => a,
                        Err(e) => {
                            return Err(e);
                        },
                    };
                    self.push_attribute(attribute);
                },
                ASMToken::NewLine => {
                    self.base.consume();
                },
                ASMToken::RBracket => {
                    break;
                },
                _ => {
                    return Err(CompilerError::UnexpectedToken(Some(token)));
                },
            }
        }
        match self.base.expect_token(ASMToken::RBracket) {
            Ok(_) => {},
            Err(e) => {
                return Err(e);
            },
        }
        Ok(Interface::new(interface_hash, vprocs, Attributes::new(attr)))
    }

    /// A structure `struct #name -> [ ... ]` at the position; it takes the
    /// attributes read before it.
    pub fn parse_struct(&mut self) -> (r: Result<Structure, CompilerError<ASMToken>>)
        requires
            old(self).wf(),
        ensures
            final(self).wf(),
            final(self).toks() == old(self).toks(),
            final(self).sections() == old(self).sections(),
            match struct_at(old(self).toks(), old(self).state()) {
                Ok((v, st)) => r is Ok && r->Ok_0@ == v && final(self).state() == st,
                Err(e) => r is Err && r->Err_0@ == e,
            },
    {
        match self.base.expect_token(ASMToken::Keyword(ASMKeyword::Struct)) {
            Ok(_) => {},
            Err(e) => {
                return Err(e);
            },
        }
        let interface_hash = match self.parse_hash() {
            Ok(h) => h,
            Err(e) => {
                return Err(e);
            },
        };
        let mut procedures: Vec<Procedure> = Vec::new();
        let mut fields: Vec<Field> = Vec::new();
        match self.base.expect_token(ASMToken::Arrow) {
            Ok(_) => {},
            Err(e) => {
                return Err(e);
            },
        }
        match self.base.expect_token(ASMToken::LBracket) {
            Ok(_) => {},
            Err(e) => {
                return Err(e);
            },
        }
        let attr = self.take_attributes();
        let ghost toks = self.toks();
        let ghost st0 = self.state();
        assert(field_views(fields@) =~= Seq::<MemberView>::empty());
        assert(procedure_views(procedures@) =~= Seq::<ProcedureView>::empty());
        assert(struct_at(toks, old(self).state()) == struct_rest(
            toks,
            interface_hash,
            old(self).state().buffer,
            st0,
        ));
        loop
            invariant_except_break
                struct_body(toks, self.state(), field_views(fields@), procedure_views(procedures@))
                    == struct_body(toks, st0, seq![], seq![]),
            invariant
                struct_at(toks, old(self).state()) == struct_rest(
                    toks,
                    interface_hash,
                    old(self).state().buffer,
                    st0,
                ),
                self.wf(),
                self.toks() == toks,
                toks == old(self).toks(),
                self.sections() == old(self).sections(),
            ensures
                struct_body(toks, st0, seq![], seq![]) == Ok::<
                    (Seq<MemberView>, Seq<ProcedureView>, AsmState),
                    AsmError,
                >((field_views(fields@), procedure_views(procedures@), self.state())),
            decreases toks.len() - self.state().pos,
        {
            let token = match self.base.peek_owned(0) {
                None => {
                    break;
                },
                Some(t) => t,
            };
            let ghost fs = field_views(fields@);
            let ghost ps = procedure_views(procedures@);
            match token.value() {
                ASMToken::Keyword(ASMKeyword::Proc) => {
                    proof {
                        lemma_proc_advances(toks, self.state());
                    }
                    let procedure = match self.parse_proc() {
                        Ok(p) => p,
                        Err(e) => {
                            return Err(e);
                        },
                    };
                    procedures.push(procedure);
                    assert(procedure_views(procedures@) =~= ps.push(procedures@.last()@));
                },
                ASMToken::Keyword(ASMKeyword::Field) => {
                    self.base.consume();
                    let attr = self.take_attributes();
                    let hash = match self.parse_hash() {
                        Ok(h) => h,
                        Err(e) => {
                            return Err(e);
                        },
                    };
                    fields.push(Field::new(hash, Attributes::new(attr)));
                    assert(field_views(fields@) =~= fs.push(fields@.last()@));
                },
                ASMToken::Attribute(_) => {
                    proof {
                        lemma_attribute_advances(toks, self.state().pos);
                    }
                    let attribute = match self.parse_attribute() {
                        Ok(a) => a,
                        Err(e) => {
                            return Err(e);
                        },
                    };
                    self.push_attribute(attribute);
                },
                ASMToken::NewLine => {
                    self.base.consume();
                },
                ASMToken::RBracket => {
                    break;
                },
                _ => {
                    return Err(CompilerError::UnexpectedToken(Some(token)));
                },
            }
        }
        match self.base.expect_token(ASMToken::RBracket) {
            Ok(_) => {},
            Err(e) => {
                return Err(e);
            },
        }
        Ok(Structure::new(interface_hash, fields, procedures, Attributes::new(attr)))
    }
}

/// The views of a list of sections.
pub open spec fn section_views(ss: Seq<SinSection>) -> Seq<SinSectionView> {
    ss.map_values(|s: SinSection| s@)
}

impl ASMCompiler {
    /// Compiles the whole file: its sections and its code.
    pub fn compile(self) -> (r: Result<(Vec<SinSection>, Vec<u8>), CompilerError<ASMToken>>)
        requires
            self.wf(),
        ensures
            match compile_body(self.toks(), self.state(), self.sections()) {
                Ok((ss, d)) => r is Ok && section_views(r->Ok_0.0@) == ss && r->Ok_0.1@ == d,
                Err(e) => r is Err && r->Err_0@ == e,
            },
    {
        let mut this = self;
        let ghost toks = this.toks();
        loop
            invariant_except_break
                compile_body(toks, this.state(), this.sections()) == compile_body(
                    toks,
                    self.state(),
                    self.sections(),
                ),
            invariant
                this.wf(),
                this.toks() == toks,
                toks == self.toks(),
            ensures
                compile_body(toks, self.state(), self.sections()) == Ok::<
                    (Seq<SinSectionView>, Seq<u8>),
                    AsmError,
                >((this.sections(), this.state().data)),
            decreases toks.len() - this.state().pos,
        {
            let token = match this.base.peek_owned(0) {
                None => {
                    break;
                },
                Some(t) => t,
            };
            let ghost ss = this.sections();
            match token.value() {
                ASMToken::Keyword(keyword) => match keyword {
                    ASMKeyword::Proc => {
                        proof {
                            lemma_proc_advances(toks, this.state());
                        }
                        let procedure = match this.parse_proc() {
                            Ok(p) => p,
                            Err(e) => {
                                return Err(e);
                            },
                        };
                        this.sections.push(SinSection::Procedure(procedure));
                        assert(this.sections() =~= ss.push(this.sections@.last()@));
                    },
                    ASMKeyword::Interface => {
                        proof {
                            lemma_interface_advances(toks, this.state());
                        }
                        let interface = match this.parse_interface() {
                            Ok(i) => i,
                            Err(e) => {
                                return Err(e);
                            },
                        };
                        this.sections.push(SinSection::Interface(interface));
                        assert(this.sections() =~= ss.push(this.sections@.last()@));
                    },
                    ASMKeyword::Struct => {
                        proof {
                            lemma_struct_advances(toks, this.state());
                        }
                        let structure = match this.parse_struct() {
                            Ok(s) => s,
                            Err(e) => {
                                return Err(e);
                            },
                        };
                        this.sections.push(SinSection::Structure(structure));
                        assert(this.sections() =~= ss.push(this.sections@.last()@));
                    },
                    _ => {
                        return Err(CompilerError::UnexpectedToken(Some(token)));
                    },
                },
                ASMToken::Attribute(_) => {
                    proof {
                        lemma_attribute_advances(toks, this.state().pos);
                    }
                    let attribute = match this.parse_attribute() {
                        Ok(a) => a,
                        Err(e) => {
                            return Err(e);
                        },
                    };
                    this.push_attribute(attribute);
                },
                ASMToken::NewLine => {
                    this.base.consume();
                },
                _ => {
                    return Err(CompilerError::UnexpectedToken(Some(token)));
                },
            }
        }
        Ok((this.sections, this.data))
    }
}

/// The offset of the first label named `name`.
fn find_label(labels: &Vec<(String, usize)>, name: &String) -> (r: Option<usize>)
    ensures
        r is Some <==> lookup_label(labels_view(labels@), name@) is Some,
        r matches Some(v) ==> lookup_label(labels_view(labels@), name@) == Some(v as nat),
{
    let ghost ls = labels_view(labels@);
    let mut i: usize = 0;
    while i < labels.len()
        invariant
            ls == labels_view(labels@),
            i <= labels@.len(),
            forall|j: int| 0 <= j < i ==> ls[j].0 != name@,
        decreases labels@.len() - i,
    {
        if str_eq(labels[i].0.as_str(), name.as_str()) {
            proof {
                lemma_lookup_skip(ls, name@, i as int);
                assert(ls.skip(i as int)[0] == ls[i as int]);
            }
            return Some(labels[i].1);
        }
        i = i + 1;
    }
    proof {
        lemma_lookup_skip(ls, name@, i as int);
        assert(ls.skip(i as int).len() == 0);
    }
    None
}

} // verus!
