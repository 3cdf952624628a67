//! Turns a rin syntax tree into rasm text: one `proc` per procedure, its
//! parameters and local variables kept on the stack, expressions evaluated
//! in the `a` and `b` registers.

use vstd::prelude::*;

use crate::compiler::rin_compiler::{
    is_prefix, join_with, located_expr, parameter_view, procedure_view, size_bytes, split_dots,
    statements_view, through_import, type_size, BinaryOperator, ExprView, Expression,
    LiteralView, Parameter, ParameterView, Path, Procedure, ProcedureView, RinAst, RinAstView,
    StatementView, TermView, Type,
};
use crate::compiler::rin_compiler::generator::block_generator::{gen_block, BlockGenerator, ReturnDestion};
use crate::location::{Location, LocationView, WithLocation};
use crate::text::{decimal_digits, push_digits, string_append, string_push_str};

pub mod block_generator;

verus! {

#[derive(Debug, Clone, Copy, PartialEq, Eq, Structural)]
pub enum RegisterTypeGroup {
    A,
    B,
    C,
    D,
}

#[derive(Debug, Clone, Copy, PartialEq, Eq, Structural)]
pub enum RegisterType {
    A8,
    A16,
    A32,
    A64,
    B8,
    B16,
    B32,
    B64,
    C8,
    C16,
    C32,
    C64,
    D8,
    D16,
    D32,
    D64,
}

/// The group (`a`, `b`, `c` or `d`) of a register.
pub open spec fn group_of(r: RegisterType) -> RegisterTypeGroup {
    match r {
        RegisterType::A8 | RegisterType::A16 | RegisterType::A32 | RegisterType::A64 => RegisterTypeGroup::A,
        RegisterType::B8 | RegisterType::B16 | RegisterType::B32 | RegisterType::B64 => RegisterTypeGroup::B,
        RegisterType::C8 | RegisterType::C16 | RegisterType::C32 | RegisterType::C64 => RegisterTypeGroup::C,
        _ => RegisterTypeGroup::D,
    }
}

/// The letter of a register group.
pub open spec fn group_letter(g: RegisterTypeGroup) -> Seq<char> {
    match g {
        RegisterTypeGroup::A => "a"@,
        RegisterTypeGroup::B => "b"@,
        RegisterTypeGroup::C => "c"@,
        RegisterTypeGroup::D => "d"@,
    }
}

/// The width of a register in bits.
pub open spec fn register_bits(r: RegisterType) -> nat {
    match r {
        RegisterType::A8 | RegisterType::B8 | RegisterType::C8 | RegisterType::D8 => 8,
        RegisterType::A16 | RegisterType::B16 | RegisterType::C16 | RegisterType::D16 => 16,
        RegisterType::A32 | RegisterType::B32 | RegisterType::C32 | RegisterType::D32 => 32,
        _ => 64,
    }
}

/// The name of a register in rasm, such as `b64`.
pub open spec fn register_name(r: RegisterType) -> Seq<char> {
    group_letter(group_of(r)) + decimal_digits(register_bits(r))
}

impl RegisterType {
    pub fn group(&self) -> (r: RegisterTypeGroup)
        ensures
            r == group_of(*self),
    {
        match self {
            RegisterType::A8 | RegisterType::A16 | RegisterType::A32 | RegisterType::A64 => RegisterTypeGroup::A,
            RegisterType::B8 | RegisterType::B16 | RegisterType::B32 | RegisterType::B64 => RegisterTypeGroup::B,
            RegisterType::C8 | RegisterType::C16 | RegisterType::C32 | RegisterType::C64 => RegisterTypeGroup::C,
            _ => RegisterTypeGroup::D,
        }
    }

    pub fn bits(&self) -> (r: u64)
        ensures
            r == register_bits(*self),
    {
        match self {
            RegisterType::A8 | RegisterType::B8 | RegisterType::C8 | RegisterType::D8 => 8,
            RegisterType::A16 | RegisterType::B16 | RegisterType::C16 | RegisterType::D16 => 16,
            RegisterType::A32 | RegisterType::B32 | RegisterType::C32 | RegisterType::D32 => 32,
            _ => 64,
        }
    }
}

impl RegisterTypeGroup {
    pub fn letter(&self) -> (r: &'static str)
        ensures
            r@ == group_letter(*self),
    {
        match self {
            RegisterTypeGroup::A => "a",
            RegisterTypeGroup::B => "b",
            RegisterTypeGroup::C => "c",
            RegisterTypeGroup::D => "d",
        }
    }
}

/// Where the value of an expression goes.
#[derive(Clone, Copy)]
pub enum ExpressionDestination {
    Register(RegisterType),
    Stack,
    Ignored,
}

/// A variable as plain values: where it lies on the stack and its type,
/// with where it was declared.
pub struct VariableView {
    pub stack_loc: nat,
    pub var_type: (Type, LocationView),
}

/// What a procedure can be called by: its name as written in the file,
/// its full name, its parameter types and its return type.
pub struct HeaderView {
    pub callable_path: Seq<Seq<char>>,
    pub real_path: Seq<Seq<char>>,
    pub parameters: Seq<(Type, LocationView)>,
    pub return_type: Type,
}

/// A generation error as plain values.
pub enum GenErrorView {
    UndefinedVariable((Seq<char>, LocationView)),
    UndefinedProcedure((Seq<Seq<char>>, LocationView)),
    UndefinedModule(Seq<Seq<char>>),
    TooMuchArguments((Seq<Seq<char>>, LocationView), (ExprView, LocationView), nat, nat, nat),
    TooFewArguemnts((Seq<Seq<char>>, LocationView), nat, nat, nat),
    UnexpectedType { expected: (Type, LocationView), unexpected: (Type, LocationView) },
}

/// What generating a part gives: the part, an error, or a panic (a string
/// literal, which is not supported, or a stack that outgrows `usize`).
pub enum GenResult<T> {
    Generated(T),
    Failed(GenErrorView),
    Panics,
}

/// The text and the stack size while a procedure is written.
pub struct Output {
    pub body: Seq<char>,
    pub stack: nat,
}

/// One instruction line: indented and ended by a new line.
pub open spec fn line(s: Seq<char>) -> Seq<char> {
    "   "@ + s + "\n"@
}

/// `n` in decimal.
pub open spec fn dec(n: nat) -> Seq<char> {
    decimal_digits(n)
}

/// The size of a type in bytes.
pub open spec fn bytes_of(t: Type) -> nat {
    size_bytes(type_size(t))
}

/// `mov [sp + stack], a<bits>`: stores the `a` register of a type's width.
pub open spec fn store_line(stack: nat, t: Type) -> Seq<char> {
    line("mov [sp + "@ + dec(stack) + "], a"@ + dec(bytes_of(t) * 8))
}

/// The last variable of that name.
pub open spec fn last_var(vars: Seq<(Seq<char>, VariableView)>, name: Seq<char>) -> Option<VariableView>
    decreases vars.len(),
{
    if vars.len() == 0 {
        None
    } else if vars.last().0 == name {
        Some(vars.last().1)
    } else {
        last_var(vars.drop_last(), name)
    }
}

/// A variable by name: a parameter first, then a local variable.
pub open spec fn get_variable(
    vars: Seq<(Seq<char>, VariableView)>,
    locals: Seq<(Seq<char>, VariableView)>,
    name: Seq<char>,
) -> Option<VariableView> {
    match last_var(vars, name) {
        Some(v) => Some(v),
        None => last_var(locals, name),
    }
}

/// The first procedure that can be called by `path`.
pub open spec fn find_proc(procs: Seq<HeaderView>, path: Seq<Seq<char>>) -> Option<HeaderView>
    decreases procs.len(),
{
    if procs.len() == 0 {
        None
    } else if procs[0].callable_path == path {
        Some(procs[0])
    } else {
        find_proc(procs.drop_first(), path)
    }
}

/// Saving the registers of `registers` that are in `used`, in order.
pub open spec fn preserve_text(registers: Seq<RegisterTypeGroup>, used: Seq<RegisterTypeGroup>) -> Seq<char>
    decreases registers.len(),
{
    if registers.len() == 0 {
        seq![]
    } else {
        preserve_text(registers.drop_last(), used) + if used.contains(registers.last()) {
            line("savr "@ + group_letter(registers.last()) + "64"@)
        } else {
            seq![]
        }
    }
}

/// Restoring the registers of `registers` that are in `used`, last first.
pub open spec fn restore_text(registers: Seq<RegisterTypeGroup>, used: Seq<RegisterTypeGroup>) -> Seq<char>
    decreases registers.len(),
{
    if registers.len() == 0 {
        seq![]
    } else {
        (if used.contains(registers.last()) {
            line("restr "@ + group_letter(registers.last()) + "64"@)
        } else {
            seq![]
        }) + restore_text(registers.drop_last(), used)
    }
}

/// The instruction of a binary operator on `a64` and `b64`.
pub open spec fn op_line(op: BinaryOperator) -> Seq<char> {
    match op {
        BinaryOperator::Add => line("add a64, b64"@),
        BinaryOperator::Subtract => line("sub a64, b64"@),
        BinaryOperator::Multiply => line("mul a64, b64"@),
        BinaryOperator::Divide => line("div a64, b64"@),
    }
}

/// Moving a result from `a64` to where it goes.
pub open spec fn finalize(dst: ExpressionDestination, t: Type, out: Output) -> GenResult<Output> {
    match dst {
        ExpressionDestination::Register(r) => if group_of(r) != RegisterTypeGroup::A {
            GenResult::Generated(
                Output {
                    body: out.body + line("mov "@ + register_name(r) + ", a64"@),
                    stack: out.stack,
                },
            )
        } else {
            GenResult::Generated(out)
        },
        ExpressionDestination::Stack => {
            let size = bytes_of(t);
            if out.stack + size > usize::MAX {
                GenResult::Panics
            } else {
                GenResult::Generated(
                    Output {
                        body: if size != 0 {
                            out.body + store_line(out.stack, t)
                        } else {
                            out.body
                        },
                        stack: out.stack + size,
                    },
                )
            }
        },
        ExpressionDestination::Ignored => GenResult::Generated(out),
    }
}

/// The instruction that loads a literal into the `a` register, and its type.
pub open spec fn literal_line(lit: LiteralView) -> Option<(Seq<char>, Type)> {
    match lit {
        LiteralView::String(_) => None,
        LiteralView::U64(v) => Some((line("mov a64, "@ + dec(v as nat)), Type::U64)),
        LiteralView::U32(v) => Some((line("mov a32, "@ + dec(v as nat)), Type::U32)),
        LiteralView::U16(v) => Some((line("mov a16, "@ + dec(v as nat)), Type::U16)),
        LiteralView::U8(v) => Some((line("mov a8, "@ + dec(v as nat)), Type::U8)),
        LiteralView::Boolean(b) => Some(
            (line("mov a8, "@ + if b {
                "1"@
            } else {
                "0"@
            }), Type::Bool),
        ),
    }
}

/// Loading a variable to where it goes.
pub open spec fn load_variable(v: VariableView, dst: ExpressionDestination, out: Output) -> GenResult<Output> {
    let t = v.var_type.0;
    let bits = bytes_of(t) * 8;
    match dst {
        ExpressionDestination::Register(r) => GenResult::Generated(
            Output {
                body: out.body + line(
                    "mov "@ + group_letter(group_of(r)) + dec(bits) + ", [sp + "@ + dec(
                        v.stack_loc,
                    ) + "]"@,
                ),
                stack: out.stack,
            },
        ),
        ExpressionDestination::Stack => {
            if out.stack + bytes_of(t) > usize::MAX {
                GenResult::Panics
            } else {
                GenResult::Generated(
                    Output {
                        body: out.body + line(
                            "mov a"@ + dec(bits) + ", [sp + "@ + dec(v.stack_loc) + "]"@,
                        ) + store_line(out.stack, t),
                        stack: out.stack + bytes_of(t),
                    },
                )
            }
        },
        ExpressionDestination::Ignored => GenResult::Generated(out),
    }
}

/// A variable: where it lies on the stack and its type, with where it was
/// declared.
pub struct Variable {
    pub stack_loc: usize,
    pub var_type: WithLocation<Type>,
}

/// A variable as plain values.
pub open spec fn variable_view(v: Variable) -> VariableView {
    VariableView { stack_loc: v.stack_loc as nat, var_type: v.var_type@ }
}

/// Variables by name as plain values.
pub open spec fn vars_view(vs: Seq<(String, Variable)>) -> Seq<(Seq<char>, VariableView)> {
    vs.map_values(|p: (String, Variable)| (p.0@, variable_view(p.1)))
}

impl Variable {
    /// A copy of the variable.
    pub fn duplicate(&self) -> (r: Variable)
        ensures
            variable_view(r) == variable_view(*self),
    {
        Variable {
            stack_loc: self.stack_loc,
            var_type: WithLocation::new(self.var_type.value, self.var_type.location.clone()),
        }
    }
}

/// What a procedure can be called by: its name as written in the file,
/// its full name, its parameter types and its return type.
pub struct ProcedureHeader {
    pub callable_path: Path,
    pub real_path: Path,
    pub parameters: Vec<WithLocation<Type>>,
    pub return_type: Type,
}

/// A header as plain values.
pub open spec fn header_view(h: ProcedureHeader) -> HeaderView {
    HeaderView {
        callable_path: h.callable_path@,
        real_path: h.real_path@,
        parameters: h.parameters@.map_values(|t: WithLocation<Type>| t@),
        return_type: h.return_type,
    }
}

/// Headers as plain values.
pub open spec fn headers_view(hs: Seq<ProcedureHeader>) -> Seq<HeaderView> {
    hs.map_values(|h: ProcedureHeader| header_view(h))
}

/// A copy of a list of located types.
pub fn copy_types(ts: &Vec<WithLocation<Type>>) -> (r: Vec<WithLocation<Type>>)
    ensures
        r@.map_values(|t: WithLocation<Type>| t@) == ts@.map_values(|t: WithLocation<Type>| t@),
{
    let mut r: Vec<WithLocation<Type>> = Vec::new();
    let mut i: usize = 0;
    while i < ts.len()
        invariant
            i <= ts@.len(),
            r@.map_values(|t: WithLocation<Type>| t@) == ts@.take(i as int).map_values(
                |t: WithLocation<Type>| t@,
            ),
        decreases ts@.len() - i,
    {
        let ghost before = r@;
        r.push(WithLocation::new(ts[i].value, ts[i].location.clone()));
        assert(r@.last()@ == ts@[i as int]@);
        assert(ts@.take(i + 1).map_values(|t: WithLocation<Type>| t@) =~= ts@.take(
            i as int,
        ).map_values(|t: WithLocation<Type>| t@).push(ts@[i as int]@));
        assert(r@.map_values(|t: WithLocation<Type>| t@) =~= before.map_values(
            |t: WithLocation<Type>| t@,
        ).push(r@.last()@));
        assert(r@.map_values(|t: WithLocation<Type>| t@) =~= ts@.take(i + 1).map_values(
            |t: WithLocation<Type>| t@,
        ));
        i = i + 1;
    }
    assert(ts@.take(ts@.len() as int) =~= ts@);
    r
}

impl ProcedureHeader {
    /// A copy of the header.
    pub fn duplicate(&self) -> (r: ProcedureHeader)
        ensures
            header_view(r) == header_view(*self),
    {
        ProcedureHeader {
            callable_path: self.callable_path.duplicate(),
            real_path: self.real_path.duplicate(),
            parameters: copy_types(&self.parameters),
            return_type: self.return_type,
        }
    }
}

/// What can go wrong while writing rasm.
pub enum GeneratorError {
    UndefinedVariable(WithLocation<String>),
    UndefinedProcedure(WithLocation<Path>),
    UndefinedModule(Path),
    TooMuchArguments(WithLocation<Path>, WithLocation<Expression>, usize, usize, usize),
    TooFewArguemnts(WithLocation<Path>, usize, usize, usize),
    UnexpectedType { expected: WithLocation<Type>, unexpected: WithLocation<Type> },
}

impl View for GeneratorError {
    type V = GenErrorView;

    open spec fn view(&self) -> GenErrorView {
        match self {
            GeneratorError::UndefinedVariable(n) => GenErrorView::UndefinedVariable(n@),
            GeneratorError::UndefinedProcedure(p) => GenErrorView::UndefinedProcedure(
                (p.value@, p.location@),
            ),
            GeneratorError::UndefinedModule(p) => GenErrorView::UndefinedModule(p@),
            GeneratorError::TooMuchArguments(p, e, a, b, c) => GenErrorView::TooMuchArguments(
                (p.value@, p.location@),
                located_expr(*e),
                *a as nat,
                *b as nat,
                *c as nat,
            ),
            GeneratorError::TooFewArguemnts(p, a, b, c) => GenErrorView::TooFewArguemnts(
                (p.value@, p.location@),
                *a as nat,
                *b as nat,
                *c as nat,
            ),
            GeneratorError::UnexpectedType { expected, unexpected } => GenErrorView::UnexpectedType {
                expected: expected@,
                unexpected: unexpected@,
            },
        }
    }
}

/// Appends `   mov [sp + stack], a<bits>\n` for a value of type `t`.
pub fn push_store_line(body: &mut String, stack: usize, t: Type)
    ensures
        final(body)@ == old(body)@ + store_line(stack as nat, t),
{
    let bits = (t.size().byte() * 8) as u64;
    assert(bits == bytes_of(t) * 8);
    string_push_str(body, "   ");
    string_push_str(body, "mov [sp + ");
    push_digits(body, stack as u64, 10);
    string_push_str(body, "], a");
    push_digits(body, bits, 10);
    string_push_str(body, "\n");
    assert(body@ =~= old(body)@ + store_line(stack as nat, t));
}

/// The parameters from `k` on placed on the stack: each becomes a
/// variable, is fetched with `larg` and stored.
pub open spec fn gen_arguments(
    params: Seq<ParameterView>,
    k: int,
    vars: Seq<(Seq<char>, VariableView)>,
    out: Output,
) -> GenResult<(Seq<(Seq<char>, VariableView)>, Output)>
    decreases params.len() - k,
{
    if k < 0 || k >= params.len() {
        GenResult::Generated((vars, out))
    } else {
        let p = params[k];
        let size = bytes_of(p.param_type.0);
        if out.stack + size > usize::MAX {
            GenResult::Panics
        } else {
            gen_arguments(
                params,
                k + 1,
                vars.push((p.name.0, VariableView { stack_loc: out.stack, var_type: p.param_type })),
                Output {
                    body: out.body + line("larg a64, "@ + dec(k as nat)) + store_line(
                        out.stack,
                        p.param_type.0,
                    ),
                    stack: out.stack + size,
                },
            )
        }
    }
}

/// A whole procedure named by `header`: `proc <name> -> {`, the stack it
/// needs, its parameters, its body and `}`.
pub open spec fn gen_procedure(p: ProcedureView, header: HeaderView, procs: Seq<HeaderView>) -> GenResult<Seq<char>> {
    match gen_arguments(p.parameters, 0, seq![], Output { body: seq![], stack: 0 }) {
        GenResult::Generated((vars, o1)) => match gen_block(
            p.body,
            ReturnDestion::LeaveReturn,
            vars,
            procs,
            o1.stack,
        ) {
            GenResult::Generated((rt, o2)) => if p.return_type.0 != rt.0 {
                GenResult::Failed(
                    GenErrorView::UnexpectedType { expected: p.return_type, unexpected: rt },
                )
            } else {
                GenResult::Generated(
                    "proc "@ + join_with(header.real_path, '$') + " -> {\n"@ + "   enter "@ + dec(
                        o2.stack,
                    ) + "\n"@ + o1.body + o2.body + "}\n"@,
                )
            },
            GenResult::Failed(e) => GenResult::Failed(e),
            GenResult::Panics => GenResult::Panics,
        },
        GenResult::Failed(e) => GenResult::Failed(e),
        GenResult::Panics => GenResult::Panics,
    }
}

/// The header of a procedure of the file, in the package `package`.
pub open spec fn own_header(p: (ProcedureView, LocationView), package: Seq<Seq<char>>) -> HeaderView {
    HeaderView {
        callable_path: split_dots(p.0.name.0),
        real_path: package + split_dots(p.0.name.0),
        parameters: p.0.parameters.map_values(|q: ParameterView| q.param_type),
        return_type: p.0.return_type.0,
    }
}

/// The header of a procedure as the rest of a package sees it: by its full
/// path, the module path `path` followed by its name.
pub open spec fn package_header(p: ProcedureView, path: Seq<Seq<char>>) -> HeaderView {
    HeaderView {
        callable_path: path + split_dots(p.name.0),
        real_path: path + split_dots(p.name.0),
        parameters: p.parameters.map_values(|q: ParameterView| q.param_type),
        return_type: p.return_type.0,
    }
}

/// The parameter types of a procedure.
fn parameter_types(procedure: &Procedure) -> (r: Vec<WithLocation<Type>>)
    ensures
        r@.map_values(|t: WithLocation<Type>| t@) == procedure_view(*procedure).parameters.map_values(
            |q: ParameterView| q.param_type,
        ),
{
    let mut parameters: Vec<WithLocation<Type>> = Vec::new();
    let mut i: usize = 0;
    while i < procedure.parameters.len()
        invariant
            i <= procedure.parameters@.len(),
            parameters@.map_values(|t: WithLocation<Type>| t@) == procedure.parameters@.take(
                i as int,
            ).map_values(|q: Parameter| q.param_type@),
        decreases procedure.parameters@.len() - i,
    {
        let ghost before = parameters@.map_values(|t: WithLocation<Type>| t@);
        let param = &procedure.parameters[i];
        parameters.push(WithLocation::new(param.param_type.value, param.param_type.location.clone()));
        assert(parameters@.map_values(|t: WithLocation<Type>| t@) =~= before.push(
            param.param_type@,
        ));
        assert(procedure.parameters@.take(i + 1).map_values(|q: Parameter| q.param_type@)
            =~= procedure.parameters@.take(i as int).map_values(|q: Parameter| q.param_type@).push(
            param.param_type@,
        ));
        i = i + 1;
    }
    assert(procedure.parameters@.take(procedure.parameters@.len() as int) =~= procedure.parameters@);
    assert(parameters@.map_values(|t: WithLocation<Type>| t@) =~= procedure_view(
        *procedure,
    ).parameters.map_values(|q: ParameterView| q.param_type));
    parameters
}

impl Procedure {
    /// The header of this procedure when it lies under the module path `path`.
    pub fn to_header(&self, path: Path) -> (r: ProcedureHeader)
        ensures
            header_view(r) == package_header(procedure_view(*self), path@),
    {
        let full = path.join(Path::new(self.name.value.as_str()));
        ProcedureHeader {
            callable_path: full.duplicate(),
            real_path: full,
            parameters: parameter_types(self),
            return_type: self.return_type.value,
        }
    }
}

/// The procedures that an import of `import` makes callable, as seen
/// through it.
pub open spec fn imported_by(procs: Seq<HeaderView>, import: Seq<Seq<char>>) -> Seq<HeaderView>
    decreases procs.len(),
{
    if procs.len() == 0 {
        seq![]
    } else {
        let h = procs.last();
        imported_by(procs.drop_last(), import) + if is_prefix(import, h.callable_path) {
            seq![
                HeaderView {
                    callable_path: through_import(h.callable_path, import),
                    real_path: h.real_path,
                    parameters: h.parameters,
                    return_type: h.return_type,
                },
            ]
        } else {
            seq![]
        }
    }
}

/// The imports from `k` on resolved against `procs`; `found` holds what
/// the imports before made callable. An import that matches nothing is an
/// error.
pub open spec fn resolve_imports(
    imports: Seq<Seq<Seq<char>>>,
    k: int,
    procs: Seq<HeaderView>,
    found: Seq<HeaderView>,
) -> Result<Seq<HeaderView>, GenErrorView>
    decreases imports.len() - k,
{
    if k < 0 || k >= imports.len() {
        Ok(found)
    } else {
        let f = imported_by(procs, imports[k]);
        if f.len() == 0 {
            Err(GenErrorView::UndefinedModule(imports[k]))
        } else {
            resolve_imports(imports, k + 1, procs, found + f)
        }
    }
}

/// The procedures from `k` on, each with its header, appended to `acc`.
pub open spec fn gen_procedures(
    ps: Seq<(ProcedureView, LocationView)>,
    procs: Seq<HeaderView>,
    k: int,
    acc: Seq<char>,
) -> GenResult<Seq<char>>
    decreases ps.len() - k,
{
    if k < 0 || k >= ps.len() || k >= procs.len() {
        GenResult::Generated(acc)
    } else {
        match gen_procedure(ps[k].0, procs[k], procs) {
            GenResult::Generated(t) => gen_procedures(ps, procs, k + 1, acc + t),
            GenResult::Failed(e) => GenResult::Failed(e),
            GenResult::Panics => GenResult::Panics,
        }
    }
}

/// The rasm text of a file in the package `package`, which may call its
/// own procedures, those of `importable` and those its imports reach.
pub open spec fn gen_program(ast: RinAstView, package: Seq<Seq<char>>, importable: Seq<HeaderView>) -> GenResult<Seq<char>> {
    let own = ast.procedures.map_values(|p: (ProcedureView, LocationView)| own_header(p, package));
    let callable = own + importable;
    match resolve_imports(ast.imports, 0, callable, seq![]) {
        Err(e) => GenResult::Failed(e),
        Ok(imported) => gen_procedures(ast.procedures, callable + imported, 0, seq![]),
    }
}

/// Writes one procedure: its parameters, then its body.
struct ProcGenerator<'a> {
    stack_loc: usize,
    variables: Vec<(String, Variable)>,
    body: String,
    constants: String,
    callable_procs: &'a Vec<ProcedureHeader>,
}

impl<'a> ProcGenerator<'a> {
    fn new(callable_procs: &'a Vec<ProcedureHeader>) -> (r: ProcGenerator<'a>)
        ensures
            r.stack_loc == 0,
            r.variables@.len() == 0,
            r.body@.len() == 0,
            r.constants@.len() == 0,
            r.callable_procs == callable_procs,
    {
        ProcGenerator {
            stack_loc: 0,
            variables: Vec::new(),
            body: String::new(),
            constants: String::new(),
            callable_procs,
        }
    }

    /// Places the parameters on the stack.
    fn gen_argument(&mut self, parameters: &Vec<Parameter>)
        requires
            !(gen_arguments(
                parameters@.map_values(|q: Parameter| parameter_view(q)),
                0,
                vars_view(old(self).variables@),
                Output { body: old(self).body@, stack: old(self).stack_loc as nat },
            ) is Panics),
        ensures
            final(self).constants == old(self).constants,
            final(self).callable_procs == old(self).callable_procs,
            gen_arguments(
                parameters@.map_values(|q: Parameter| parameter_view(q)),
                0,
                vars_view(old(self).variables@),
                Output { body: old(self).body@, stack: old(self).stack_loc as nat },
            ) matches GenResult::Generated((vs, o)) && vars_view(final(self).variables@) == vs
                && final(self).body@ == o.body && final(self).stack_loc == o.stack,
    {
        let ghost pv = parameters@.map_values(|q: Parameter| parameter_view(q));
        let ghost start = gen_arguments(
            pv,
            0,
            vars_view(self.variables@),
            Output { body: self.body@, stack: self.stack_loc as nat },
        );
        let mut i: usize = 0;
        while i < parameters.len()
            invariant
                i <= parameters@.len(),
                pv == parameters@.map_values(|q: Parameter| parameter_view(q)),
                gen_arguments(
                    pv,
                    i as int,
                    vars_view(self.variables@),
                    Output { body: self.body@, stack: self.stack_loc as nat },
                ) == start,
                !(start is Panics),
                self.constants == old(self).constants,
                self.callable_procs == old(self).callable_procs,
            decreases parameters@.len() - i,
        {
            let parameter = &parameters[i];
            assert(pv[i as int] == parameter_view(*parameter));
            let ghost vars = vars_view(self.variables@);
            let ghost body = self.body@;
            self.variables.push(
                (
                    parameter.name.value.clone(),
                    Variable {
                        stack_loc: self.stack_loc,
                        var_type: WithLocation::new(
                            parameter.param_type.value,
                            parameter.param_type.location.clone(),
                        ),
                    },
                ),
            );
            assert(vars_view(self.variables@) =~= vars.push(
                (
                    parameter.name.value@,
                    VariableView {
                        stack_loc: self.stack_loc as nat,
                        var_type: parameter.param_type@,
                    },
                ),
            ));
            string_push_str(&mut self.body, "   ");
            string_push_str(&mut self.body, "larg a64, ");
            push_digits(&mut self.body, i as u64, 10);
            string_push_str(&mut self.body, "\n");
            assert(self.body@ =~= body + line("larg a64, "@ + dec(i as nat)));
            push_store_line(&mut self.body, self.stack_loc, parameter.param_type.value);
            self.stack_loc = self.stack_loc + parameter.param_type.value.size().byte();
            i = i + 1;
        }
    }

    /// The procedure `proc` under the name of `header`.
    fn gen_proc(self, proc: &Procedure, header: &ProcedureHeader) -> (r: Result<String, GeneratorError>)
        requires
            self.stack_loc == 0,
            self.variables@.len() == 0,
            self.body@.len() == 0,
            self.constants@.len() == 0,
            !(gen_procedure(
                procedure_view(*proc),
                header_view(*header),
                headers_view(self.callable_procs@),
            ) is Panics),
        ensures
            match gen_procedure(
                procedure_view(*proc),
                header_view(*header),
                headers_view(self.callable_procs@),
            ) {
                GenResult::Generated(t) => r is Ok && r->Ok_0@ == t,
                GenResult::Failed(e) => r is Err && r->Err_0@ == e,
                GenResult::Panics => true,
            },
    {
        let mut this = self;
        assert(vars_view(this.variables@) =~= Seq::<(Seq<char>, VariableView)>::empty());
        assert(this.body@ =~= Seq::<char>::empty());
        this.gen_argument(&proc.parameters);
        let block_gen = BlockGenerator::new(&this.variables, this.stack_loc, this.callable_procs);
        let (return_type, generated, stack_loc) = match block_gen.gen_block(
            &proc.body,
            ReturnDestion::LeaveReturn,
        ) {
            Ok(r) => r,
            Err(e) => {
                return Err(e);
            },
        };
        this.stack_loc = stack_loc;
        let mut out = String::new();
        string_push_str(&mut out, "proc ");
        let real_name = header.real_path.parse();
        string_append(&mut out, &real_name);
        string_push_str(&mut out, " -> {\n");
        string_push_str(&mut out, "   enter ");
        push_digits(&mut out, this.stack_loc as u64, 10);
        string_push_str(&mut out, "\n");
        string_append(&mut out, &this.body);
        string_append(&mut out, &generated);
        string_push_str(&mut out, "}\n");
        string_append(&mut out, &this.constants);
        if proc.return_type.value != return_type.value {
            return Err(
                GeneratorError::UnexpectedType {
                    expected: WithLocation::new(
                        proc.return_type.value,
                        proc.return_type.location.clone(),
                    ),
                    unexpected: return_type,
                },
            );
        }
        assert(out@ =~= "proc "@ + join_with(header.real_path@, '$') + " -> {\n"@ + "   enter "@
            + dec(stack_loc as nat) + "\n"@ + this.body@ + generated@ + "}\n"@);
        Ok(out)
    }
}

/// The procedures that an import of `import` makes callable, appended to
/// `found`.
fn collect_imported(procs: &Vec<ProcedureHeader>, import: &Path, found: &mut Vec<ProcedureHeader>) -> (r: bool)
    ensures
        headers_view(final(found)@) == headers_view(old(found)@) + imported_by(
            headers_view(procs@),
            import@,
        ),
        r == (imported_by(headers_view(procs@), import@).len() > 0),
{
    let ghost hs = headers_view(procs@);
    let mut exists = false;
    let mut j: usize = 0;
    assert(hs.take(0) =~= Seq::<HeaderView>::empty());
    while j < procs.len()
        invariant
            hs == headers_view(procs@),
            j <= procs@.len(),
            headers_view(found@) == headers_view(old(found)@) + imported_by(hs.take(j as int), import@),
            exists == (imported_by(hs.take(j as int), import@).len() > 0),
        decreases procs@.len() - j,
    {
        let h = &procs[j];
        assert(hs.take(j + 1).drop_last() =~= hs.take(j as int));
        assert(hs.take(j + 1).last() == header_view(*h));
        if h.callable_path.starts_with(import) {
            let ghost before = headers_view(found@);
            found.push(
                ProcedureHeader {
                    callable_path: h.callable_path.import(import),
                    real_path: h.real_path.duplicate(),
                    parameters: copy_types(&h.parameters),
                    return_type: h.return_type,
                },
            );
            assert(headers_view(found@) =~= before + seq![header_view(found@.last())]);
            exists = true;
        }
        j = j + 1;
        assert(headers_view(found@) =~= headers_view(old(found)@) + imported_by(
            hs.take(j as int),
            import@,
        ));
    }
    assert(hs.take(procs@.len() as int) =~= hs);
    exists
}

/// Writes the rasm text of rin files.
pub struct Generator {
    output: String,
    callable_procs: Vec<ProcedureHeader>,
}

impl Generator {
    /// Nothing is written and no procedure is known yet.
    pub closed spec fn fresh(&self) -> bool {
        self.output@.len() == 0 && self.callable_procs@.len() == 0
    }

    pub fn new() -> (r: Generator)
        ensures
            r.fresh(),
    {
        Generator { output: String::new(), callable_procs: Vec::new() }
    }

    /// The rasm text of the file `ast` in the package `package_path`, which
    /// may call its own procedures, those of `importable_procs` and those
    /// its imports reach.
    pub fn generate(
        self,
        ast: &RinAst,
        package_path: &Path,
        importable_procs: &Vec<ProcedureHeader>,
    ) -> (r: Result<String, GeneratorError>)
        requires
            self.fresh(),
            !(gen_program(ast@, package_path@, headers_view(importable_procs@)) is Panics),
        ensures
            match gen_program(ast@, package_path@, headers_view(importable_procs@)) {
                GenResult::Generated(t) => r is Ok && r->Ok_0@ == t,
                GenResult::Failed(e) => r is Err && r->Err_0@ == e,
                GenResult::Panics => true,
            },
    {
        let mut output = self.output;
        let mut callable_procs = self.callable_procs;
        let ghost own = ast@.procedures.map_values(
            |p: (ProcedureView, LocationView)| own_header(p, package_path@),
        );
        let mut k: usize = 0;
        while k < ast.procedures.len()
            invariant
                k <= ast.procedures@.len(),
                own == ast@.procedures.map_values(
                    |p: (ProcedureView, LocationView)| own_header(p, package_path@),
                ),
                headers_view(callable_procs@) == own.take(k as int),
            decreases ast.procedures@.len() - k,
        {
            let procedure = &ast.procedures[k];
            let name = &procedure.value.name.value;
            let mut parameters: Vec<WithLocation<Type>> = Vec::new();
            let mut i: usize = 0;
            while i < procedure.value.parameters.len()
                invariant
                    i <= procedure.value.parameters@.len(),
                    parameters@.map_values(|t: WithLocation<Type>| t@)
                        == procedure.value.parameters@.take(i as int).map_values(
                        |q: Parameter| q.param_type@,
                    ),
                decreases procedure.value.parameters@.len() - i,
            {
                let ghost before = parameters@.map_values(|t: WithLocation<Type>| t@);
                let param = &procedure.value.parameters[i];
                parameters.push(WithLocation::new(param.param_type.value, param.param_type.location.clone()));
                assert(parameters@.map_values(|t: WithLocation<Type>| t@) =~= before.push(
                    param.param_type@,
                ));
                assert(procedure.value.parameters@.take(i + 1).map_values(
                    |q: Parameter| q.param_type@,
                ) =~= procedure.value.parameters@.take(i as int).map_values(
                    |q: Parameter| q.param_type@,
                ).push(param.param_type@));
                i = i + 1;
            }
            assert(procedure.value.parameters@.take(procedure.value.parameters@.len() as int)
                =~= procedure.value.parameters@);
            let ghost pvs = procedure_view(procedure.value).parameters;
            assert(parameters@.map_values(|t: WithLocation<Type>| t@) =~= pvs.map_values(
                |q: ParameterView| q.param_type,
            ));
            let ghost before = headers_view(callable_procs@);
            callable_procs.push(
                ProcedureHeader {
                    real_path: package_path.duplicate().join(Path::new(name.as_str())),
                    callable_path: Path::new(name.as_str()),
                    parameters: parameters,
                    return_type: procedure.value.return_type.value,
                },
            );
            assert(own[k as int] == own_header(ast@.procedures[k as int], package_path@));
            assert(headers_view(callable_procs@) =~= before.push(own[k as int]));
            k = k + 1;
            assert(own.take(k as int) =~= own.take(k - 1).push(own[k - 1]));
        }
        assert(own.take(ast.procedures@.len() as int) =~= own);
        let mut j: usize = 0;
        while j < importable_procs.len()
            invariant
                j <= importable_procs@.len(),
                headers_view(callable_procs@) == own + headers_view(importable_procs@).take(
                    j as int,
                ),
            decreases importable_procs@.len() - j,
        {
            let ghost before = headers_view(callable_procs@);
            callable_procs.push(importable_procs[j].duplicate());
            assert(headers_view(callable_procs@) =~= before.push(
                header_view(importable_procs@[j as int]),
            ));
            j = j + 1;
            assert(headers_view(importable_procs@).take(j as int) =~= headers_view(
                importable_procs@,
            ).take(j - 1).push(header_view(importable_procs@[j - 1])));
        }
        let ghost callable = own + headers_view(importable_procs@);
        assert(headers_view(importable_procs@).take(importable_procs@.len() as int) =~= headers_view(
            importable_procs@,
        ));
        let mut imported_procs: Vec<ProcedureHeader> = Vec::new();
        let mut m: usize = 0;
        assert(headers_view(imported_procs@) =~= Seq::<HeaderView>::empty());
        while m < ast.imports.len()
            invariant
                m <= ast.imports@.len(),
                headers_view(callable_procs@) == callable,
                resolve_imports(ast@.imports, m as int, callable, headers_view(imported_procs@))
                    == resolve_imports(ast@.imports, 0, callable, seq![]),
                own == ast@.procedures.map_values(
                    |p: (ProcedureView, LocationView)| own_header(p, package_path@),
                ),
                callable == own + headers_view(importable_procs@),
            decreases ast.imports@.len() - m,
        {
            assert(ast@.imports[m as int] == ast.imports@[m as int].path@);
            let exists = collect_imported(&callable_procs, &ast.imports[m].path, &mut imported_procs);
            if !exists {
                return Err(GeneratorError::UndefinedModule(ast.imports[m].path.duplicate()));
            }
            m = m + 1;
        }
        let ghost imported = headers_view(imported_procs@);
        callable_procs.append(&mut imported_procs);
        assert(headers_view(callable_procs@) =~= callable + imported);
        let n = if ast.procedures.len() < callable_procs.len() {
            ast.procedures.len()
        } else {
            callable_procs.len()
        };
        let ghost all = headers_view(callable_procs@);
        let mut q: usize = 0;
        assert(output@ =~= Seq::<char>::empty());
        while q < n
            invariant
                q <= n,
                n <= ast.procedures@.len(),
                n <= callable_procs@.len(),
                n == ast.procedures@.len() || n == callable_procs@.len(),
                all == headers_view(callable_procs@),
                gen_procedures(ast@.procedures, all, q as int, output@) == gen_procedures(
                    ast@.procedures,
                    all,
                    0,
                    seq![],
                ),
                !(gen_procedures(ast@.procedures, all, 0, seq![]) is Panics),
                gen_program(ast@, package_path@, headers_view(importable_procs@))
                    == gen_procedures(ast@.procedures, all, 0, seq![]),
            decreases n - q,
        {
            let proc_gen = ProcGenerator::new(&callable_procs);
            assert(ast@.procedures[q as int].0 == procedure_view(ast.procedures@[q as int].value));
            let text = match proc_gen.gen_proc(&ast.procedures[q].value, &callable_procs[q]) {
                Ok(t) => t,
                Err(e) => {
                    return Err(e);
                },
            };
            string_append(&mut output, &text);
            q = q + 1;
        }
        Ok(output)
    }
}

} // verus!
