//! The flat assembler of the register machine: one instruction per line,
//! labels, and jumps to labels resolved once the whole program is read.

use vstd::prelude::*;

use crate::chars::str_eq;
use crate::compiler::argument_parser::{le_bytes, push_le};
use crate::compiler::asm_compiler::{instruction_bytes, lemma_le_bytes_len, write_u64_at};
use crate::vm::token::{
    spec_opcode, spec_register_byte, ASMToken, ASMTokenView, InstructionType, RegisterType,
    MOV_ADD2SP, MOV_NUM2REG, MOV_REG2MEM, MOV_REG2REG, MOV_REG2SP,
};

verus! {

#[derive(Debug)]
pub enum CompilerError {
    UnexpectedToken(ASMToken),
    TokenNotFound,
    UndefinedLabel(String),
}

/// A compile error as plain values.
pub enum CompileErrorView {
    UnexpectedToken(ASMTokenView),
    TokenNotFound,
    UndefinedLabel(Seq<char>),
}

impl View for CompilerError {
    type V = CompileErrorView;

    open spec fn view(&self) -> CompileErrorView {
        match self {
            CompilerError::UnexpectedToken(t) => CompileErrorView::UnexpectedToken(t@),
            CompilerError::TokenNotFound => CompileErrorView::TokenNotFound,
            CompilerError::UndefinedLabel(l) => CompileErrorView::UndefinedLabel(l@),
        }
    }
}

/// The tokens of a program as plain values.
pub type VmTokens = Seq<ASMTokenView>;

/// The labels read, in order, with the code offset each names.
pub type VmLabels = Seq<(Seq<char>, nat)>;

/// The token at `i`, if there is one.
pub open spec fn token_at(toks: VmTokens, i: int) -> Option<ASMTokenView> {
    if 0 <= i < toks.len() {
        Some(toks[i])
    } else {
        None
    }
}

/// The register at `i`.
pub open spec fn register_at(toks: VmTokens, i: int) -> Result<RegisterType, CompileErrorView> {
    match token_at(toks, i) {
        None => Err(CompileErrorView::TokenNotFound),
        Some(ASMTokenView::Register(r)) => Ok(r),
        Some(t) => Err(CompileErrorView::UnexpectedToken(t)),
    }
}

/// A comma at `i`.
pub open spec fn comma_at(toks: VmTokens, i: int) -> Result<(), CompileErrorView> {
    match token_at(toks, i) {
        None => Err(CompileErrorView::TokenNotFound),
        Some(ASMTokenView::Comma) => Ok(()),
        Some(t) => Err(CompileErrorView::UnexpectedToken(t)),
    }
}

/// The label a jump at `i` goes to.
pub open spec fn target_at(toks: VmTokens, i: int) -> Result<Seq<char>, CompileErrorView> {
    match token_at(toks, i) {
        None => Err(CompileErrorView::TokenNotFound),
        Some(ASMTokenView::ToLabel(l)) => Ok(l),
        Some(t) => Err(CompileErrorView::UnexpectedToken(t)),
    }
}

/// The argument of a `mov` at `i`: a register or an address, a comma,
/// then a register or a number.
pub open spec fn mov_argument(toks: VmTokens, i: int) -> Result<Seq<u8>, CompileErrorView> {
    match token_at(toks, i + 1) {
        None => Err(CompileErrorView::TokenNotFound),
        Some(ASMTokenView::Register(r)) => match comma_at(toks, i + 2) {
            Err(e) => Err(e),
            Ok(_) => match token_at(toks, i + 3) {
                None => Err(CompileErrorView::TokenNotFound),
                Some(ASMTokenView::Register(r1)) => Ok(
                    if r == RegisterType::SP {
                        seq![MOV_REG2SP, spec_register_byte(r1)]
                    } else {
                        seq![MOV_REG2REG, spec_register_byte(r), spec_register_byte(r1)]
                    },
                ),
                Some(ASMTokenView::Number(n)) => Ok(
                    if r == RegisterType::SP {
                        seq![MOV_ADD2SP] + le_bytes(n as nat, 8)
                    } else {
                        seq![MOV_NUM2REG, spec_register_byte(r)] + le_bytes(n as nat, 8)
                    },
                ),
                Some(t) => Err(CompileErrorView::UnexpectedToken(t)),
            },
        },
        Some(ASMTokenView::Number(address)) => match comma_at(toks, i + 2) {
            Err(e) => Err(e),
            Ok(_) => match register_at(toks, i + 3) {
                Err(e) => Err(e),
                Ok(r1) => Ok(
                    seq![MOV_REG2MEM] + le_bytes(address as nat, 8) + seq![spec_register_byte(r1)],
                ),
            },
        },
        Some(t) => Err(CompileErrorView::UnexpectedToken(t)),
    }
}

/// The instruction `ins` at `i`, its code appended to `code`: the index
/// after its operands, the code, and the jump target to fill in (its label
/// and the position of its eight bytes), if any.
pub open spec fn statement(toks: VmTokens, i: int, ins: InstructionType, code: Seq<u8>) -> Result<
    (int, Seq<u8>, Seq<(Seq<char>, nat)>),
    CompileErrorView,
> {
    let op = spec_opcode(ins);
    match ins {
        InstructionType::Mov => match mov_argument(toks, i) {
            Err(e) => Err(e),
            Ok(arg) => Ok((i + 4, code + instruction_bytes(op, arg), seq![])),
        },
        InstructionType::Inc | InstructionType::Pop | InstructionType::Push => match register_at(
            toks,
            i + 1,
        ) {
            Err(e) => Err(e),
            Ok(r) => Ok((i + 2, code + instruction_bytes(op, seq![spec_register_byte(r)]), seq![])),
        },
        InstructionType::Cmp | InstructionType::Add | InstructionType::Sub => match register_at(
            toks,
            i + 1,
        ) {
            Err(e) => Err(e),
            Ok(r) => match comma_at(toks, i + 2) {
                Err(e) => Err(e),
                Ok(_) => match register_at(toks, i + 3) {
                    Err(e) => Err(e),
                    Ok(r1) => Ok(
                        (
                            i + 4,
                            code + instruction_bytes(
                                op,
                                seq![spec_register_byte(r), spec_register_byte(r1)],
                            ),
                            seq![],
                        ),
                    ),
                },
            },
        },
        InstructionType::Jacn
        | InstructionType::Jace
        | InstructionType::Jacc
        | InstructionType::Jacz => match register_at(toks, i + 1) {
            Err(e) => Err(e),
            Ok(r) => match comma_at(toks, i + 2) {
                Err(e) => Err(e),
                Ok(_) => match register_at(toks, i + 3) {
                    Err(e) => Err(e),
                    Ok(r1) => match comma_at(toks, i + 4) {
                        Err(e) => Err(e),
                        Ok(_) => match target_at(toks, i + 5) {
                            Err(e) => Err(e),
                            Ok(label) => {
                                let c = code + instruction_bytes(
                                    op,
                                    seq![spec_register_byte(r), spec_register_byte(r1)]
                                        + le_bytes(0, 8),
                                );
                                Ok((i + 6, c, seq![(label, (c.len() - 8) as nat)]))
                            },
                        },
                    },
                },
            },
        },
        InstructionType::Jmp
        | InstructionType::Jmc
        | InstructionType::Jmz
        | InstructionType::Jme
        | InstructionType::Jmn => match target_at(toks, i + 1) {
            Err(e) => Err(e),
            Ok(label) => {
                let c = code + instruction_bytes(op, le_bytes(0, 8));
                Ok((i + 2, c, seq![(label, (c.len() - 8) as nat)]))
            },
        },
        InstructionType::Halt => Ok((i + 1, code + instruction_bytes(op, seq![]), seq![])),
    }
}

/// The line at `i`: a label or an instruction. The index after it, the
/// code, the labels and the jump targets to fill in.
pub open spec fn line_at(
    toks: VmTokens,
    i: int,
    code: Seq<u8>,
    labels: VmLabels,
    targets: VmLabels,
) -> Result<(int, Seq<u8>, VmLabels, VmLabels), CompileErrorView> {
    match token_at(toks, i) {
        Some(ASMTokenView::Label(l)) => Ok((i + 1, code, labels.push((l, code.len())), targets)),
        Some(ASMTokenView::Instruction(ins)) => match statement(toks, i, ins, code) {
            Err(e) => Err(e),
            Ok((j, c, t)) => Ok((j, c, labels, targets + t)),
        },
        Some(t) => Err(CompileErrorView::UnexpectedToken(t)),
        None => Err(CompileErrorView::TokenNotFound),
    }
}

pub proof fn lemma_line_advances(
    toks: VmTokens,
    i: int,
    code: Seq<u8>,
    labels: VmLabels,
    targets: VmLabels,
)
    ensures
        line_at(toks, i, code, labels, targets) matches Ok((j, _, _, _)) ==> j > i,
{
}

/// The program from `i` on: lines, each ended by a new line or the end.
/// The code, the labels and the jump targets to fill in.
pub open spec fn program_body(
    toks: VmTokens,
    i: int,
    code: Seq<u8>,
    labels: VmLabels,
    targets: VmLabels,
) -> Result<(Seq<u8>, VmLabels, VmLabels), CompileErrorView>
    decreases toks.len() - i,
{
    if i < 0 || i >= toks.len() {
        Ok((code, labels, targets))
    } else {
        match line_at(toks, i, code, labels, targets) {
            Err(e) => Err(e),
            Ok((j, c, ls, ts)) => {
                proof {
                    lemma_line_advances(toks, i, code, labels, targets);
                }
                match token_at(toks, j) {
                    None => Ok((c, ls, ts)),
                    Some(ASMTokenView::NewLine) => program_body(toks, j + 1, c, ls, ts),
                    Some(t) => Err(CompileErrorView::UnexpectedToken(t)),
                }
            },
        }
    }
}

/// The offset of the label `name` read last.
pub open spec fn last_label(labels: VmLabels, name: Seq<char>) -> Option<nat>
    decreases labels.len(),
{
    if labels.len() == 0 {
        None
    } else if labels.last().0 == name {
        Some(labels.last().1)
    } else {
        last_label(labels.drop_last(), name)
    }
}

/// The jump targets from `k` on filled into `code`.
pub open spec fn fill_targets(code: Seq<u8>, targets: VmLabels, labels: VmLabels, k: int) -> Result<
    Seq<u8>,
    CompileErrorView,
>
    decreases targets.len() - k,
{
    if k < 0 || k >= targets.len() {
        Ok(code)
    } else {
        match last_label(labels, targets[k].0) {
            None => Err(CompileErrorView::UndefinedLabel(targets[k].0)),
            Some(offset) => fill_targets(
                write_u64_at(code, targets[k].1 as int, offset),
                targets,
                labels,
                k + 1,
            ),
        }
    }
}

/// A whole program from `i` on, after `code` with `labels` and `targets`.
pub open spec fn program(
    toks: VmTokens,
    i: int,
    code: Seq<u8>,
    labels: VmLabels,
    targets: VmLabels,
) -> Result<Seq<u8>, CompileErrorView> {
    match program_body(toks, i, code, labels, targets) {
        Err(e) => Err(e),
        Ok((c, ls, ts)) => fill_targets(c, ts, ls, 0),
    }
}

/// The labels as plain values.
pub open spec fn labels_view(labels: Seq<(String, usize)>) -> VmLabels {
    labels.map_values(|l: (String, usize)| (l.0@, l.1 as nat))
}

/// Assembles the tokens of a program into code.
pub struct ASMCompiler {
    tokens: Vec<ASMToken>,
    write_pos: usize,
    index: usize,
    labels: Vec<(String, usize)>,
    label_replaces: Vec<(String, usize)>,
    byte_codes: Vec<u8>,
}

impl ASMCompiler {
    /// The tokens.
    pub closed spec fn toks(&self) -> VmTokens {
        self.tokens@.map_values(|t: ASMToken| t@)
    }

    /// The position of the next token.
    pub closed spec fn pos(&self) -> int {
        self.index as int
    }

    /// The code written so far.
    pub closed spec fn code(&self) -> Seq<u8> {
        self.byte_codes@
    }

    /// The labels read so far, in order.
    pub closed spec fn labels(&self) -> VmLabels {
        labels_view(self.labels@)
    }

    /// The jump targets to fill in: each label and where its offset goes.
    pub closed spec fn targets(&self) -> VmLabels {
        labels_view(self.label_replaces@)
    }

    /// The write position is the length of the code, the position is
    /// within the tokens, and each jump target lies within the code.
    pub closed spec fn wf(&self) -> bool {
        &&& self.write_pos == self.byte_codes@.len()
        &&& self.index <= self.tokens@.len()
        &&& forall|k: int|
            0 <= k < self.label_replaces@.len() ==> #[trigger] self.label_replaces@[k].1 + 8
                <= self.byte_codes@.len()
    }

    pub fn new(tokens: Vec<ASMToken>) -> (r: ASMCompiler)
        ensures
            r.wf(),
            r.toks() == tokens@.map_values(|t: ASMToken| t@),
            r.pos() == 0,
            r.code() == Seq::<u8>::empty(),
            r.labels() == VmLabels::empty(),
            r.targets() == VmLabels::empty(),
    {
        let r = Self {
            tokens,
            write_pos: 0,
            index: 0,
            labels: Vec::new(),
            label_replaces: Vec::new(),
            byte_codes: Vec::new(),
        };
        assert(r.labels() =~= VmLabels::empty());
        assert(r.targets() =~= VmLabels::empty());
        r
    }

    /// Appends bytes to the code.
    pub fn write(&mut self, data: &[u8])
        requires
            old(self).wf(),
        ensures
            final(self).wf(),
            final(self).toks() == old(self).toks(),
            final(self).pos() == old(self).pos(),
            final(self).labels() == old(self).labels(),
            final(self).targets() == old(self).targets(),
            final(self).code() == old(self).code() + data@,
    {
        let ghost before = self.byte_codes@;
        let mut i: usize = 0;
        while i < data.len()
            invariant
                i <= data@.len(),
                self.byte_codes@ == before + data@.take(i as int),
                self.tokens == old(self).tokens,
                self.index == old(self).index,
                self.labels == old(self).labels,
                self.label_replaces == old(self).label_replaces,
                self.write_pos == old(self).write_pos,
                before == old(self).byte_codes@,
            decreases data@.len() - i,
        {
            self.byte_codes.push(data[i]);
            i = i + 1;
            assert(self.byte_codes@ =~= before + data@.take(i as int));
        }
        assert(data@.take(data@.len() as int) =~= data@);
        let len = self.byte_codes.len();
        self.write_pos = self.write_pos + data.len();
    }

    /// Appends an instruction: its size, its opcode and its argument bytes.
    pub fn write_instruction(&mut self, opcode: u16, argument: &[u8])
        requires
            old(self).wf(),
            argument@.len() + 3 <= usize::MAX,
        ensures
            final(self).wf(),
            final(self).toks() == old(self).toks(),
            final(self).pos() == old(self).pos(),
            final(self).labels() == old(self).labels(),
            final(self).targets() == old(self).targets(),
            final(self).code() == old(self).code() + instruction_bytes(opcode, argument@),
    {
        let size = ((argument.len() + 3) % 256) as u8;
        let header = vec![size, (opcode % 256) as u8, (opcode / 256) as u8];
        self.write(header.as_slice());
        self.write(argument);
        assert(self.byte_codes@ =~= old(self).byte_codes@ + instruction_bytes(opcode, argument@));
    }

    /// The token `offset` places after the position.
    fn peek(&self, offset: usize) -> (r: Option<&ASMToken>)
        ensures
            r matches Some(t) ==> token_at(self.toks(), self.pos() + offset) == Some(t@),
            r is None <==> token_at(self.toks(), self.pos() + offset) is None,
    {
        if offset < self.tokens.len() && self.index < self.tokens.len() - offset {
            Some(&self.tokens[self.index + offset])
        } else {
            None
        }
    }

    /// Moves past the next token, if there is one.
    fn consume(&mut self) -> (r: Option<&ASMToken>)
        requires
            old(self).wf(),
        ensures
            final(self).wf(),
            final(self).toks() == old(self).toks(),
            final(self).code() == old(self).code(),
            final(self).labels() == old(self).labels(),
            final(self).targets() == old(self).targets(),
            final(self).pos() == if old(self).pos() < old(self).toks().len() {
                old(self).pos() + 1
            } else {
                old(self).pos()
            },
    {
        if self.index < self.tokens.len() {
            let i = self.index;
            self.index = self.index + 1;
            Some(&self.tokens[i])
        } else {
            None
        }
    }

    /// The register `offset` places after the position.
    fn register_at(&self, offset: usize) -> (r: Result<RegisterType, CompilerError>)
        ensures
            match register_at(self.toks(), self.pos() + offset) {
                Ok(reg) => r == Ok::<RegisterType, CompilerError>(reg),
                Err(e) => r is Err && r->Err_0@ == e,
            },
    {
        match self.peek(offset) {
            None => Err(CompilerError::TokenNotFound),
            Some(ASMToken::Register(reg)) => Ok(*reg),
            Some(token) => Err(CompilerError::UnexpectedToken(token.duplicate())),
        }
    }

    /// Checks for a comma `offset` places after the position.
    fn comma_at(&self, offset: usize) -> (r: Result<(), CompilerError>)
        ensures
            match comma_at(self.toks(), self.pos() + offset) {
                Ok(_) => r is Ok,
                Err(e) => r is Err && r->Err_0@ == e,
            },
    {
        match self.peek(offset) {
            None => Err(CompilerError::TokenNotFound),
            Some(ASMToken::Comma) => Ok(()),
            Some(token) => Err(CompilerError::UnexpectedToken(token.duplicate())),
        }
    }

    /// The label a jump names `offset` places after the position.
    fn target_at(&self, offset: usize) -> (r: Result<String, CompilerError>)
        ensures
            match target_at(self.toks(), self.pos() + offset) {
                Ok(l) => r is Ok && r->Ok_0@ == l,
                Err(e) => r is Err && r->Err_0@ == e,
            },
    {
        match self.peek(offset) {
            None => Err(CompilerError::TokenNotFound),
            Some(ASMToken::ToLabel(label)) => Ok(label.clone()),
            Some(token) => Err(CompilerError::UnexpectedToken(token.duplicate())),
        }
    }
}

impl ASMCompiler {
    /// A `mov` at the position, encoded with opcode `instruction_opcode`.
    fn compile_mov(&mut self, instruction_opcode: u16) -> (r: Result<(), CompilerError>)
        requires
            old(self).wf(),
        ensures
            final(self).wf(),
            final(self).toks() == old(self).toks(),
            final(self).labels() == old(self).labels(),
            final(self).targets() == old(self).targets(),
            match mov_argument(old(self).toks(), old(self).pos()) {
                Ok(arg) => r is Ok && final(self).pos() == old(self).pos() + 4 && final(self).code()
                    == old(self).code() + instruction_bytes(instruction_opcode, arg),
                Err(e) => r is Err && r->Err_0@ == e,
            },
    {
        let ghost toks = self.toks();
        let ghost pos = self.pos();
        let first = match self.peek(1) {
            None => {
                return Err(CompilerError::TokenNotFound);
            },
            Some(t) => t.duplicate(),
        };
        match first {
            ASMToken::Register(register) => {
                match self.comma_at(2) {
                    Ok(()) => {},
                    Err(e) => {
                        return Err(e);
                    },
                }
                let third = match self.peek(3) {
                    None => {
                        return Err(CompilerError::TokenNotFound);
                    },
                    Some(t) => t.duplicate(),
                };
                match third {
                    ASMToken::Register(register1) => {
                        if register == RegisterType::SP {
                            let arg = vec![MOV_REG2SP, register1.to_byte()];
                            self.write_instruction(instruction_opcode, arg.as_slice());
                        } else {
                            let arg = vec![MOV_REG2REG, register.to_byte(), register1.to_byte()];
                            self.write_instruction(instruction_opcode, arg.as_slice());
                        }
                    },
                    ASMToken::Number(number) => {
                        proof {
                            lemma_le_bytes_len(number as nat, 8);
                        }
                        if register == RegisterType::SP {
                            let mut arg = vec![MOV_ADD2SP];
                            push_le(&mut arg, number, 8);
                            self.write_instruction(instruction_opcode, arg.as_slice());
                        } else {
                            let mut arg = vec![MOV_NUM2REG];
                            arg.push(register.to_byte());
                            push_le(&mut arg, number, 8);
                            assert(arg@ =~= seq![MOV_NUM2REG, spec_register_byte(register)]
                                + le_bytes(number as nat, 8));
                            self.write_instruction(instruction_opcode, arg.as_slice());
                        }
                    },
                    token => {
                        return Err(CompilerError::UnexpectedToken(token));
                    },
                }
            },
            ASMToken::Number(address) => {
                match self.comma_at(2) {
                    Ok(()) => {},
                    Err(e) => {
                        return Err(e);
                    },
                }
                let register1 = match self.register_at(3) {
                    Ok(r) => r,
                    Err(e) => {
                        return Err(e);
                    },
                };
                proof {
                    lemma_le_bytes_len(address as nat, 8);
                }
                let mut arg = vec![MOV_REG2MEM];
                push_le(&mut arg, address, 8);
                arg.push(register1.to_byte());
                assert(arg@ =~= seq![MOV_REG2MEM] + le_bytes(address as nat, 8) + seq![
                    spec_register_byte(register1),
                ]);
                self.write_instruction(instruction_opcode, arg.as_slice());
            },
            token => {
                return Err(CompilerError::UnexpectedToken(token));
            },
        }
        self.consume();
        self.consume();
        self.consume();
        self.consume();
        Ok(())
    }
}

/// The offset of the label `name` read last.
fn find_last_label(labels: &Vec<(String, usize)>, name: &String) -> (r: Option<usize>)
    ensures
        r is Some <==> last_label(labels_view(labels@), name@) is Some,
        r matches Some(v) ==> last_label(labels_view(labels@), name@) == Some(v as nat),
{
    let ghost ls = labels_view(labels@);
    let mut i: usize = labels.len();
    assert(ls.take(i as int) =~= ls);
    while i > 0
        invariant
            ls == labels_view(labels@),
            i <= labels@.len(),
            last_label(ls, name@) == last_label(ls.take(i as int), name@),
        decreases i,
    {
        assert(ls.take(i as int).drop_last() =~= ls.take(i - 1));
        if str_eq(labels[i - 1].0.as_str(), name.as_str()) {
            return Some(labels[i - 1].1);
        }
        i = i - 1;
    }
    None
}

impl ASMCompiler {
    /// The line at the position: a label or an instruction with its
    /// operands.
    fn compile_line(&mut self) -> (r: Result<(), CompilerError>)
        requires
            old(self).wf(),
        ensures
            final(self).wf(),
            final(self).toks() == old(self).toks(),
            match line_at(
                old(self).toks(),
                old(self).pos(),
                old(self).code(),
                old(self).labels(),
                old(self).targets(),
            ) {
                Ok((j, c, ls, ts)) => r is Ok && final(self).pos() == j && final(self).code() == c
                    && final(self).labels() == ls && final(self).targets() == ts,
                Err(e) => r is Err && r->Err_0@ == e,
            },
    {
        let ghost ts0 = self.targets();
        let token = match self.peek(0) {
            None => {
                return Err(CompilerError::TokenNotFound);
            },
            Some(t) => t.duplicate(),
        };
        let instruction = match token {
            ASMToken::Label(label) => {
                let ghost ls = self.labels();
                self.labels.push((label, self.write_pos));
                assert(self.labels() =~= ls.push((label@, self.code().len())));
                self.consume();
                return Ok(());
            },
            ASMToken::Instruction(instruction) => instruction,
            token => {
                return Err(CompilerError::UnexpectedToken(token));
            },
        };
        let opcode = instruction.opcode();
        match instruction {
            InstructionType::Mov => {
                match self.compile_mov(opcode) {
                    Ok(()) => {},
                    Err(e) => {
                        return Err(e);
                    },
                }
                assert(self.targets() =~= ts0 + Seq::<(Seq<char>, nat)>::empty());
            },
            InstructionType::Inc | InstructionType::Pop | InstructionType::Push => {
                let register = match self.register_at(1) {
                    Ok(r) => r,
                    Err(e) => {
                        return Err(e);
                    },
                };
                let arg = vec![register.to_byte()];
                self.write_instruction(opcode, arg.as_slice());
                self.consume();
                self.consume();
                assert(self.targets() =~= ts0 + Seq::<(Seq<char>, nat)>::empty());
            },
            InstructionType::Cmp | InstructionType::Add | InstructionType::Sub => {
                let register = match self.register_at(1) {
                    Ok(r) => r,
                    Err(e) => {
                        return Err(e);
                    },
                };
                match self.comma_at(2) {
                    Ok(()) => {},
                    Err(e) => {
                        return Err(e);
                    },
                }
                let register1 = match self.register_at(3) {
                    Ok(r) => r,
                    Err(e) => {
                        return Err(e);
                    },
                };
                let arg = vec![register.to_byte(), register1.to_byte()];
                self.write_instruction(opcode, arg.as_slice());
                self.consume();
                self.consume();
                self.consume();
                self.consume();
                assert(self.targets() =~= ts0 + Seq::<(Seq<char>, nat)>::empty());
            },
            InstructionType::Jacn
            | InstructionType::Jace
            | InstructionType::Jacc
            | InstructionType::Jacz => {
                let register = match self.register_at(1) {
                    Ok(r) => r,
                    Err(e) => {
                        return Err(e);
                    },
                };
                match self.comma_at(2) {
                    Ok(()) => {},
                    Err(e) => {
                        return Err(e);
                    },
                }
                let register1 = match self.register_at(3) {
                    Ok(r) => r,
                    Err(e) => {
                        return Err(e);
                    },
                };
                match self.comma_at(4) {
                    Ok(()) => {},
                    Err(e) => {
                        return Err(e);
                    },
                }
                let mut arg = vec![register.to_byte(), register1.to_byte()];
                push_le(&mut arg, 0, 8);
                proof {
                    lemma_le_bytes_len(0, 8);
                }
                self.write_instruction(opcode, arg.as_slice());
                let label = match self.target_at(5) {
                    Ok(l) => l,
                    Err(e) => {
                        return Err(e);
                    },
                };
                let ghost ts = self.targets();
                self.label_replaces.push((label, self.write_pos - 8));
                assert(self.targets() =~= ts.push((label@, (self.code().len() - 8) as nat)));
                self.consume();
                self.consume();
                self.consume();
                self.consume();
                self.consume();
                self.consume();
            },
            InstructionType::Jmp
            | InstructionType::Jmc
            | InstructionType::Jmz
            | InstructionType::Jme
            | InstructionType::Jmn => {
                let mut arg: Vec<u8> = Vec::new();
                push_le(&mut arg, 0, 8);
                proof {
                    lemma_le_bytes_len(0, 8);
                }
                self.write_instruction(opcode, arg.as_slice());
                let label = match self.target_at(1) {
                    Ok(l) => l,
                    Err(e) => {
                        return Err(e);
                    },
                };
                let ghost ts = self.targets();
                self.label_replaces.push((label, self.write_pos - 8));
                assert(self.targets() =~= ts.push((label@, (self.code().len() - 8) as nat)));
                self.consume();
                self.consume();
            },
            InstructionType::Halt => {
                let arg: Vec<u8> = Vec::new();
                self.write_instruction(opcode, arg.as_slice());
                self.consume();
                assert(self.targets() =~= ts0 + Seq::<(Seq<char>, nat)>::empty());
            },
        }
        Ok(())
    }

    /// Writes the offset of each jump's label into its eight bytes.
    fn replace_labels(&mut self) -> (r: Result<(), CompilerError>)
        requires
            old(self).wf(),
        ensures
            final(self).wf(),
            match fill_targets(old(self).code(), old(self).targets(), old(self).labels(), 0) {
                Ok(c) => r is Ok && final(self).code() == c,
                Err(e) => r is Err && r->Err_0@ == e,
            },
    {
        let ghost ts = self.targets();
        let ghost ls = self.labels();
        let mut i: usize = 0;
        while i < self.label_replaces.len()
            invariant
                self.wf(),
                ts == self.targets(),
                ls == self.labels(),
                self.byte_codes@.len() == old(self).byte_codes@.len(),
                i <= self.label_replaces@.len(),
                fill_targets(self.code(), ts, ls, i as int) == fill_targets(
                    old(self).code(),
                    old(self).targets(),
                    old(self).labels(),
                    0,
                ),
            decreases self.label_replaces@.len() - i,
        {
            let pos = self.label_replaces[i].1;
            assert(pos + 8 <= self.byte_codes@.len());
            let found = find_last_label(&self.labels, &self.label_replaces[i].0);
            match found {
                None => {
                    return Err(CompilerError::UndefinedLabel(self.label_replaces[i].0.clone()));
                },
                Some(offset) => {
                    let mut bytes: Vec<u8> = Vec::new();
                    push_le(&mut bytes, offset as u64, 8);
                    proof {
                        lemma_le_bytes_len(offset as nat, 8);
                    }
                    let ghost d = self.byte_codes@;
                    let ghost t0 = self.tokens@;
                    let ghost i0 = self.index;
                    let ghost l0 = self.labels@;
                    let ghost r0 = self.label_replaces@;
                    let ghost w0 = self.write_pos;
                    let dlen = self.byte_codes.len();
                    let mut b: usize = 0;
                    while b < 8
                        invariant
                            b <= 8,
                            pos + 8 <= d.len(),
                            dlen == d.len(),
                            bytes@ == le_bytes(offset as nat, 8),
                            bytes@.len() == 8,
                            self.byte_codes@ == d.subrange(0, pos as int) + bytes@.take(b as int)
                                + d.subrange(pos + b, d.len() as int),
                            self.tokens@ == t0,
                            self.index == i0,
                            self.labels@ == l0,
                            self.label_replaces@ == r0,
                            self.write_pos == w0,
                        decreases 8 - b,
                    {
                        self.byte_codes.set(pos + b, bytes[b]);
                        b = b + 1;
                        assert(self.byte_codes@ =~= d.subrange(0, pos as int) + bytes@.take(
                            b as int,
                        ) + d.subrange(pos + b, d.len() as int));
                    }
                    assert(self.byte_codes@ =~= write_u64_at(d, pos as int, offset as nat));
                },
            }
            i = i + 1;
        }
        Ok(())
    }

    /// Assembles the program.
    pub fn compile(self) -> (r: Result<Vec<u8>, CompilerError>)
        requires
            self.wf(),
        ensures
            match program(self.toks(), self.pos(), self.code(), self.labels(), self.targets()) {
                Ok(c) => r is Ok && r->Ok_0@ == c,
                Err(e) => r is Err && r->Err_0@ == e,
            },
    {
        let mut this = self;
        let ghost toks = this.toks();
        loop
            invariant_except_break
                program_body(toks, this.pos(), this.code(), this.labels(), this.targets())
                    == program_body(toks, self.pos(), self.code(), self.labels(), self.targets()),
            invariant
                this.wf(),
                this.toks() == toks,
                toks == self.toks(),
            ensures
                program_body(toks, self.pos(), self.code(), self.labels(), self.targets()) == Ok::<
                    (Seq<u8>, VmLabels, VmLabels),
                    CompileErrorView,
                >((this.code(), this.labels(), this.targets())),
            decreases toks.len() - this.pos(),
        {
            if this.peek(0).is_none() {
                break;
            }
            proof {
                lemma_line_advances(toks, this.pos(), this.code(), this.labels(), this.targets());
            }
            match this.compile_line() {
                Ok(()) => {},
                Err(e) => {
                    return Err(e);
                },
            }
            let newline = match this.peek(0) {
                Some(ASMToken::NewLine) => true,
                Some(token) => {
                    return Err(CompilerError::UnexpectedToken(token.duplicate()));
                },
                None => false,
            };
            if newline {
                this.consume();
            }
        }
        match this.replace_labels() {
            Ok(()) => {},
            Err(e) => {
                return Err(e);
            },
        }
        Ok(this.byte_codes)
    }
}


/// An instruction with two register operands (`cmp`, `add`, `sub`) is
/// assembled as its length (five), its opcode least significant byte first,
/// then the byte of the first register written and the byte of the second,
/// in the order written: `cmp a64, b64` gives `[5, 31, 0, 4, 8]`. This holds
/// wherever the line stands and whatever code comes before it.
pub proof fn law_two_register_operands_in_order(
    toks: VmTokens,
    i: int,
    ins: InstructionType,
    r: RegisterType,
    r1: RegisterType,
    code: Seq<u8>,
)
    requires
        ins == InstructionType::Cmp || ins == InstructionType::Add || ins == InstructionType::Sub,
        0 <= i,
        i + 3 < toks.len(),
        toks[i] == ASMTokenView::Instruction(ins),
        toks[i + 1] == ASMTokenView::Register(r),
        toks[i + 2] == ASMTokenView::Comma,
        toks[i + 3] == ASMTokenView::Register(r1),
    ensures
        line_at(toks, i, code, seq![], seq![]) == Ok::<(int, Seq<u8>, VmLabels, VmLabels), CompileErrorView>(
            (
                i + 4,
                code + seq![
                    5u8,
                    (spec_opcode(ins) % 256) as u8,
                    (spec_opcode(ins) / 256) as u8,
                    spec_register_byte(r),
                    spec_register_byte(r1),
                ],
                seq![],
                seq![],
            ),
        ),
{
    let arg = seq![spec_register_byte(r), spec_register_byte(r1)];
    assert(instruction_bytes(spec_opcode(ins), arg) =~= seq![
        5u8,
        (spec_opcode(ins) % 256) as u8,
        (spec_opcode(ins) / 256) as u8,
        spec_register_byte(r),
        spec_register_byte(r1),
    ]);
    assert(seq![] + seq![] =~= Seq::<(Seq<char>, nat)>::empty());
}

/// A program of one two-register instruction assembles to exactly its five
/// bytes, the operands in the order written.
pub proof fn law_two_register_program(ins: InstructionType, r: RegisterType, r1: RegisterType)
    requires
        ins == InstructionType::Cmp || ins == InstructionType::Add || ins == InstructionType::Sub,
    ensures
        program(
            seq![
                ASMTokenView::Instruction(ins),
                ASMTokenView::Register(r),
                ASMTokenView::Comma,
                ASMTokenView::Register(r1),
            ],
            0,
            seq![],
            seq![],
            seq![],
        ) == Ok::<Seq<u8>, CompileErrorView>(
            seq![
                5u8,
                (spec_opcode(ins) % 256) as u8,
                (spec_opcode(ins) / 256) as u8,
                spec_register_byte(r),
                spec_register_byte(r1),
            ],
        ),
{
    let toks = seq![
        ASMTokenView::Instruction(ins),
        ASMTokenView::Register(r),
        ASMTokenView::Comma,
        ASMTokenView::Register(r1),
    ];
    law_two_register_operands_in_order(toks, 0, ins, r, r1, seq![]);
    let c = seq![] + seq![
        5u8,
        (spec_opcode(ins) % 256) as u8,
        (spec_opcode(ins) / 256) as u8,
        spec_register_byte(r),
        spec_register_byte(r1),
    ];
    assert(program_body(toks, 0, seq![], seq![], seq![]) == Ok::<
        (Seq<u8>, VmLabels, VmLabels),
        CompileErrorView,
    >((c, seq![], seq![])));
    assert(c =~= seq![
        5u8,
        (spec_opcode(ins) % 256) as u8,
        (spec_opcode(ins) / 256) as u8,
        spec_register_byte(r),
        spec_register_byte(r1),
    ]);
}

} // verus!
