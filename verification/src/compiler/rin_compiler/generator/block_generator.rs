//! Writes the statements of a block and their expressions.

use vstd::prelude::*;

use crate::compiler::rin_compiler::generator::{
    bytes_of, dec, finalize, find_proc, get_variable, group_letter, headers_view, last_var, line,
    literal_line, load_variable, op_line, preserve_text, push_store_line, register_name,
    restore_text, store_line, variable_view, vars_view, ExpressionDestination, GenErrorView,
    GenResult, GeneratorError, HeaderView, Output, ProcedureHeader, RegisterType,
    RegisterTypeGroup, Variable, VariableView,
};
use crate::compiler::rin_compiler::{
    args_view, expr_view, join_with, literal_view, located_expr, statement_view,
    statements_view, term_view, BinaryOperator, Block, ExprView, Expression, Literal, Path,
    Statement, StatementView, Term, TermView, Type,
};
use crate::location::{LocationView, WithLocation};
use crate::text::{push_digits, string_append, string_push_str};

verus! {

/// Where a `return` puts its value.
#[derive(Clone, Copy)]
pub enum ReturnDestion {
    Register(RegisterType),
    LeaveReturn,
    Return,
}

/// The text and stack of a block and the variables it declared so far.
pub struct BlockState {
    pub out: Output,
    pub locals: Seq<(Seq<char>, VariableView)>,
}

/// The expression `e`, its value going to `dst`, with the registers of
/// `preserved` saved around it where it uses them: its type with a
/// location, and the text and stack after it.
pub open spec fn gen_expr(
    e: ExprView,
    dst: ExpressionDestination,
    preserved: Seq<RegisterTypeGroup>,
    vars: Seq<(Seq<char>, VariableView)>,
    locals: Seq<(Seq<char>, VariableView)>,
    procs: Seq<HeaderView>,
    out: Output,
) -> GenResult<((Type, LocationView), Output)>
    decreases e,
{
    match e {
        ExprView::Term((t, _)) => gen_term(t, dst, preserved, vars, locals, procs, out),
        ExprView::BinaryOp(l, (op, _), r) => {
            let o1 = Output {
                body: out.body + preserve_text(preserved, seq![RegisterTypeGroup::A]),
                stack: out.stack,
            };
            match gen_expr(
                l.0,
                ExpressionDestination::Register(RegisterType::A64),
                seq![],
                vars,
                locals,
                procs,
                o1,
            ) {
                GenResult::Generated((lt, o2)) => match gen_expr(
                    r.0,
                    ExpressionDestination::Register(RegisterType::B64),
                    seq![RegisterTypeGroup::A],
                    vars,
                    locals,
                    procs,
                    o2,
                ) {
                    GenResult::Generated((rt, o3)) => if lt.0 != rt.0 {
                        GenResult::Failed(
                            GenErrorView::UnexpectedType { expected: (lt.0, l.1), unexpected: rt },
                        )
                    } else {
                        match finalize(
                            dst,
                            lt.0,
                            Output { body: o3.body + op_line(op), stack: o3.stack },
                        ) {
                            GenResult::Generated(o4) => GenResult::Generated(
                                (
                                    (lt.0, l.1),
                                    Output {
                                        body: o4.body + restore_text(
                                            preserved,
                                            seq![RegisterTypeGroup::A],
                                        ),
                                        stack: o4.stack,
                                    },
                                ),
                            ),
                            GenResult::Failed(e) => GenResult::Failed(e),
                            GenResult::Panics => GenResult::Panics,
                        }
                    },
                    GenResult::Failed(e) => GenResult::Failed(e),
                    GenResult::Panics => GenResult::Panics,
                },
                GenResult::Failed(e) => GenResult::Failed(e),
                GenResult::Panics => GenResult::Panics,
            }
        },
    }
}

/// The term `t`, as for [`gen_expr`].
pub open spec fn gen_term(
    t: TermView,
    dst: ExpressionDestination,
    preserved: Seq<RegisterTypeGroup>,
    vars: Seq<(Seq<char>, VariableView)>,
    locals: Seq<(Seq<char>, VariableView)>,
    procs: Seq<HeaderView>,
    out: Output,
) -> GenResult<((Type, LocationView), Output)>
    decreases t,
{
    match t {
        TermView::ProcedureCall((pv, ploc), args) => match find_proc(procs, pv) {
            None => GenResult::Failed(GenErrorView::UndefinedProcedure((pv, ploc))),
            Some(h) => {
                let o1 = Output {
                    body: out.body + preserve_text(preserved, seq![RegisterTypeGroup::A]),
                    stack: out.stack,
                };
                match gen_args(args, h.parameters, 0, vars, locals, procs, o1) {
                    GenResult::Generated(o2) => match finalize(
                        dst,
                        h.return_type,
                        Output {
                            body: o2.body + line("call "@ + join_with(h.real_path, '$')),
                            stack: o2.stack,
                        },
                    ) {
                        GenResult::Generated(o3) => GenResult::Generated(
                            (
                                (h.return_type, ploc),
                                Output {
                                    body: o3.body + restore_text(
                                        preserved,
                                        seq![RegisterTypeGroup::A],
                                    ),
                                    stack: o3.stack,
                                },
                            ),
                        ),
                        GenResult::Failed(e) => GenResult::Failed(e),
                        GenResult::Panics => GenResult::Panics,
                    },
                    GenResult::Failed(e) => GenResult::Failed(e),
                    GenResult::Panics => GenResult::Panics,
                }
            },
        },
        TermView::Literal((lit, lloc)) => match literal_line(lit) {
            None => GenResult::Panics,
            Some((text, typ)) => match finalize(
                dst,
                typ,
                Output {
                    body: out.body + preserve_text(preserved, seq![RegisterTypeGroup::A]) + text,
                    stack: out.stack,
                },
            ) {
                GenResult::Generated(o) => GenResult::Generated(
                    (
                        (typ, lloc),
                        Output {
                            body: o.body + restore_text(preserved, seq![RegisterTypeGroup::A]),
                            stack: o.stack,
                        },
                    ),
                ),
                GenResult::Failed(e) => GenResult::Failed(e),
                GenResult::Panics => GenResult::Panics,
            },
        },
        TermView::LocalVariableAccess((name, nloc)) => match get_variable(vars, locals, name) {
            None => GenResult::Failed(GenErrorView::UndefinedVariable((name, nloc))),
            Some(v) => match load_variable(v, dst, out) {
                GenResult::Generated(o) => GenResult::Generated((v.var_type, o)),
                GenResult::Failed(e) => GenResult::Failed(e),
                GenResult::Panics => GenResult::Panics,
            },
        },
    }
}

/// The arguments of a call, each paired with a parameter type (the extra
/// ones of either are left out): each is computed into `a64` and passed as
/// argument `i`, `i + 1`, and so on.
pub open spec fn gen_args(
    args: Seq<(ExprView, LocationView)>,
    params: Seq<(Type, LocationView)>,
    i: nat,
    vars: Seq<(Seq<char>, VariableView)>,
    locals: Seq<(Seq<char>, VariableView)>,
    procs: Seq<HeaderView>,
    out: Output,
) -> GenResult<Output>
    decreases args,
{
    if args.len() == 0 || params.len() == 0 {
        GenResult::Generated(out)
    } else {
        match gen_expr(
            args[0].0,
            ExpressionDestination::Register(RegisterType::A64),
            seq![],
            vars,
            locals,
            procs,
            out,
        ) {
            GenResult::Generated((t, o1)) => if t.0 != params[0].0 {
                GenResult::Failed(
                    GenErrorView::UnexpectedType { expected: params[0], unexpected: t },
                )
            } else {
                gen_args(
                    args.subrange(1, args.len() as int),
                    params.subrange(1, params.len() as int),
                    i + 1,
                    vars,
                    locals,
                    procs,
                    Output { body: o1.body + line("arg "@ + dec(i) + ", a64"@), stack: o1.stack },
                )
            },
            GenResult::Failed(e) => GenResult::Failed(e),
            GenResult::Panics => GenResult::Panics,
        }
    }
}

/// The statement `s`: the type it returns, if it is a `return`, and the
/// state after it.
pub open spec fn gen_statement(
    s: StatementView,
    ret: ReturnDestion,
    vars: Seq<(Seq<char>, VariableView)>,
    procs: Seq<HeaderView>,
    st: BlockState,
) -> GenResult<(Option<(Type, LocationView)>, BlockState)> {
    match s {
        StatementView::VariableDecl { name, value } => match gen_expr(
            value.0,
            ExpressionDestination::Stack,
            seq![],
            vars,
            st.locals,
            procs,
            st.out,
        ) {
            GenResult::Generated((t, o)) => GenResult::Generated(
                (
                    None,
                    BlockState {
                        out: o,
                        locals: st.locals.push(
                            (name.0, VariableView { stack_loc: st.out.stack, var_type: t }),
                        ),
                    },
                ),
            ),
            GenResult::Failed(e) => GenResult::Failed(e),
            GenResult::Panics => GenResult::Panics,
        },
        StatementView::VariableMutate { name, value } => match gen_expr(
            value.0,
            ExpressionDestination::Register(RegisterType::A64),
            seq![],
            vars,
            st.locals,
            procs,
            st.out,
        ) {
            GenResult::Generated((t, o)) => match get_variable(vars, st.locals, name.0) {
                None => GenResult::Failed(GenErrorView::UndefinedVariable(name)),
                Some(v) => if t.0 != v.var_type.0 {
                    GenResult::Failed(
                        GenErrorView::UnexpectedType { expected: v.var_type, unexpected: t },
                    )
                } else {
                    GenResult::Generated(
                        (
                            None,
                            BlockState {
                                out: Output {
                                    body: o.body + store_line(v.stack_loc, v.var_type.0),
                                    stack: o.stack,
                                },
                                locals: st.locals,
                            },
                        ),
                    )
                },
            },
            GenResult::Failed(e) => GenResult::Failed(e),
            GenResult::Panics => GenResult::Panics,
        },
        StatementView::Return(e) => {
            let dst = match ret {
                ReturnDestion::Register(r) => ExpressionDestination::Register(r),
                _ => ExpressionDestination::Register(RegisterType::A64),
            };
            let tail = match ret {
                ReturnDestion::Register(_) => seq![],
                ReturnDestion::Return => line("ret"@),
                ReturnDestion::LeaveReturn => line("leave"@) + line("ret"@),
            };
            match gen_expr(e.0, dst, seq![], vars, st.locals, procs, st.out) {
                GenResult::Generated((t, o)) => GenResult::Generated(
                    (
                        Some(t),
                        BlockState {
                            out: Output { body: o.body + tail, stack: o.stack },
                            locals: st.locals,
                        },
                    ),
                ),
                GenResult::Failed(e) => GenResult::Failed(e),
                GenResult::Panics => GenResult::Panics,
            }
        },
        StatementView::Expression(e) => match gen_expr(
            e.0,
            ExpressionDestination::Ignored,
            seq![],
            vars,
            st.locals,
            procs,
            st.out,
        ) {
            GenResult::Generated((_, o)) => GenResult::Generated(
                (None, BlockState { out: o, locals: st.locals }),
            ),
            GenResult::Failed(e) => GenResult::Failed(e),
            GenResult::Panics => GenResult::Panics,
        },
    }
}

/// The statements from `k` on; `rt` is the type returned so far (or void
/// at the block's location).
pub open spec fn gen_block_from(
    stmts: Seq<(StatementView, LocationView)>,
    k: int,
    ret: ReturnDestion,
    vars: Seq<(Seq<char>, VariableView)>,
    procs: Seq<HeaderView>,
    rt: (Type, LocationView),
    st: BlockState,
) -> GenResult<((Type, LocationView), BlockState)>
    decreases stmts.len() - k,
{
    if k < 0 || k >= stmts.len() {
        GenResult::Generated((rt, st))
    } else {
        match gen_statement(stmts[k].0, ret, vars, procs, st) {
            GenResult::Generated((Some(t), st2)) => if rt.0 != Type::Void && rt.0 != t.0 {
                GenResult::Failed(GenErrorView::UnexpectedType { expected: rt, unexpected: t })
            } else {
                gen_block_from(stmts, k + 1, ret, vars, procs, t, st2)
            },
            GenResult::Generated((None, st2)) => gen_block_from(
                stmts,
                k + 1,
                ret,
                vars,
                procs,
                rt,
                st2,
            ),
            GenResult::Failed(e) => GenResult::Failed(e),
            GenResult::Panics => GenResult::Panics,
        }
    }
}

/// A block written with the stack at `stack`: the type it returns and its
/// text and stack.
pub open spec fn gen_block(
    block: (Seq<(StatementView, LocationView)>, LocationView),
    ret: ReturnDestion,
    vars: Seq<(Seq<char>, VariableView)>,
    procs: Seq<HeaderView>,
    stack: nat,
) -> GenResult<((Type, LocationView), Output)> {
    match gen_block_from(
        block.0,
        0,
        ret,
        vars,
        procs,
        (Type::Void, block.1),
        BlockState { out: Output { body: seq![], stack: stack }, locals: seq![] },
    ) {
        GenResult::Generated((t, st)) => GenResult::Generated((t, st.out)),
        GenResult::Failed(e) => GenResult::Failed(e),
        GenResult::Panics => GenResult::Panics,
    }
}

pub proof fn lemma_args_view(args: Seq<WithLocation<Expression>>)
    ensures
        args_view(args).len() == args.len(),
        forall|k: int| 0 <= k < args.len() ==> #[trigger] args_view(args)[k] == located_expr(args[k]),
    decreases args.len(),
{
    if args.len() > 0 {
        lemma_args_view(args.drop_last());
    }
}

/// Whether `g` is among `groups`.
fn group_in(groups: &[RegisterTypeGroup], g: RegisterTypeGroup) -> (r: bool)
    ensures
        r == groups@.contains(g),
{
    let mut i: usize = 0;
    while i < groups.len()
        invariant
            i <= groups@.len(),
            forall|k: int| 0 <= k < i ==> groups@[k] != g,
        decreases groups@.len() - i,
    {
        if groups[i] == g {
            assert(groups@[i as int] == g);
            return true;
        }
        i = i + 1;
    }
    false
}

/// Writes the statements of one block; its variables live on top of the
/// stack at `stack_loc`.
pub struct BlockGenerator<'a> {
    stack_loc: usize,
    variables: &'a Vec<(String, Variable)>,
    local_variables: Vec<(String, Variable)>,
    body: String,
    callable_procs: &'a Vec<ProcedureHeader>,
}

impl<'a> BlockGenerator<'a> {
    /// The text written and the stack size.
    pub closed spec fn out(&self) -> Output {
        Output { body: self.body@, stack: self.stack_loc as nat }
    }

    /// The variables of the procedure (its parameters).
    pub closed spec fn vars(&self) -> Seq<(Seq<char>, VariableView)> {
        vars_view(self.variables@)
    }

    /// The variables the block declared so far.
    pub closed spec fn locals(&self) -> Seq<(Seq<char>, VariableView)> {
        vars_view(self.local_variables@)
    }

    /// The procedures that can be called.
    pub closed spec fn procs(&self) -> Seq<HeaderView> {
        headers_view(self.callable_procs@)
    }

    pub fn new(
        variables: &'a Vec<(String, Variable)>,
        stack_loc: usize,
        callable_procs: &'a Vec<ProcedureHeader>,
    ) -> (r: BlockGenerator<'a>)
        ensures
            r.out() == (Output { body: seq![], stack: stack_loc as nat }),
            r.vars() == vars_view(variables@),
            r.locals() == Seq::<(Seq<char>, VariableView)>::empty(),
            r.procs() == headers_view(callable_procs@),
    {
        let r = Self {
            variables,
            stack_loc,
            local_variables: Vec::new(),
            body: String::new(),
            callable_procs,
        };
        assert(r.locals() =~= Seq::<(Seq<char>, VariableView)>::empty());
        assert(r.out().body =~= Seq::<char>::empty());
        r
    }

    /// Saves the registers of `registers` that are in `used_register`.
    fn preserve_registers(&mut self, registers: &[RegisterTypeGroup], used_register: &[RegisterTypeGroup])
        ensures
            final(self).out() == (Output {
                body: old(self).out().body + preserve_text(registers@, used_register@),
                stack: old(self).out().stack,
            }),
            final(self).vars() == old(self).vars(),
            final(self).locals() == old(self).locals(),
            final(self).procs() == old(self).procs(),
    {
        let ghost b0 = self.body@;
        let mut i: usize = 0;
        while i < registers.len()
            invariant
                i <= registers@.len(),
                self.body@ == b0 + preserve_text(registers@.take(i as int), used_register@),
                b0 == old(self).body@,
                self.stack_loc == old(self).stack_loc,
                self.variables == old(self).variables,
                self.local_variables == old(self).local_variables,
                self.callable_procs == old(self).callable_procs,
            decreases registers@.len() - i,
        {
            let reg = registers[i];
            assert(registers@.take(i + 1).drop_last() =~= registers@.take(i as int));
            if group_in(used_register, reg) {
                string_push_str(&mut self.body, "   ");
                string_push_str(&mut self.body, "savr ");
                string_push_str(&mut self.body, reg.letter());
                string_push_str(&mut self.body, "64");
                string_push_str(&mut self.body, "\n");
            }
            i = i + 1;
            assert(self.body@ =~= b0 + preserve_text(registers@.take(i as int), used_register@));
        }
        assert(registers@.take(registers@.len() as int) =~= registers@);
    }

    /// Restores the registers of `registers` that are in `used_register`,
    /// last first.
    fn restore_registers(&mut self, registers: &[RegisterTypeGroup], used_register: &[RegisterTypeGroup])
        ensures
            final(self).out() == (Output {
                body: old(self).out().body + restore_text(registers@, used_register@),
                stack: old(self).out().stack,
            }),
            final(self).vars() == old(self).vars(),
            final(self).locals() == old(self).locals(),
            final(self).procs() == old(self).procs(),
    {
        let ghost b0 = self.body@;
        let mut k: usize = registers.len();
        assert(registers@.take(k as int) =~= registers@);
        while k > 0
            invariant
                k <= registers@.len(),
                self.body@ + restore_text(registers@.take(k as int), used_register@) == b0
                    + restore_text(registers@, used_register@),
                b0 == old(self).body@,
                self.stack_loc == old(self).stack_loc,
                self.variables == old(self).variables,
                self.local_variables == old(self).local_variables,
                self.callable_procs == old(self).callable_procs,
            decreases k,
        {
            let ghost before = self.body@;
            let reg = registers[k - 1];
            assert(registers@.take(k as int).drop_last() =~= registers@.take(k - 1));
            if group_in(used_register, reg) {
                string_push_str(&mut self.body, "   ");
                string_push_str(&mut self.body, "restr ");
                string_push_str(&mut self.body, reg.letter());
                string_push_str(&mut self.body, "64");
                string_push_str(&mut self.body, "\n");
            }
            k = k - 1;
            assert(self.body@ + restore_text(registers@.take(k as int), used_register@) =~= before
                + restore_text(registers@.take(k + 1), used_register@));
        }
        assert(restore_text(registers@.take(0), used_register@) =~= Seq::<char>::empty());
        assert(self.body@ =~= b0 + restore_text(registers@, used_register@));
    }

    /// Moves a result from `a64` to where it goes.
    fn finalize_expression_result(&mut self, dst: ExpressionDestination, expr_type: Type) -> (r: Result<
        Type,
        GeneratorError,
    >)
        requires
            !(finalize(dst, expr_type, old(self).out()) is Panics),
        ensures
            final(self).vars() == old(self).vars(),
            final(self).locals() == old(self).locals(),
            final(self).procs() == old(self).procs(),
            finalize(dst, expr_type, old(self).out()) matches GenResult::Generated(o) && r
                == Ok::<Type, GeneratorError>(expr_type) && final(self).out() == o,
    {
        match dst {
            ExpressionDestination::Register(reg) => {
                if reg.group() != RegisterTypeGroup::A {
                    string_push_str(&mut self.body, "   ");
                    string_push_str(&mut self.body, "mov ");
                    string_push_str(&mut self.body, reg.group().letter());
                    push_digits(&mut self.body, reg.bits(), 10);
                    string_push_str(&mut self.body, ", a64");
                    string_push_str(&mut self.body, "\n");
                    assert(self.body@ =~= old(self).body@ + line(
                        "mov "@ + register_name(reg) + ", a64"@,
                    ));
                }
            },
            ExpressionDestination::Stack => {
                let expr_size = expr_type.size().byte();
                if expr_size != 0 {
                    push_store_line(&mut self.body, self.stack_loc, expr_type);
                }
                self.stack_loc = self.stack_loc + expr_type.size().byte();
            },
            ExpressionDestination::Ignored => {},
        }
        Ok(expr_type)
    }
}

/// The last variable of that name.
fn find_variable(vars: &Vec<(String, Variable)>, name: &String) -> (r: Option<Variable>)
    ensures
        r is Some <==> last_var(vars_view(vars@), name@) is Some,
        r matches Some(v) ==> last_var(vars_view(vars@), name@) == Some(variable_view(v)),
{
    let ghost vs = vars_view(vars@);
    let mut i: usize = vars.len();
    assert(vs.take(i as int) =~= vs);
    while i > 0
        invariant
            vs == vars_view(vars@),
            i <= vars@.len(),
            last_var(vs, name@) == last_var(vs.take(i as int), name@),
        decreases i,
    {
        assert(vs.take(i as int).drop_last() =~= vs.take(i - 1));
        if crate::chars::str_eq(vars[i - 1].0.as_str(), name.as_str()) {
            return Some(vars[i - 1].1.duplicate());
        }
        i = i - 1;
    }
    None
}

impl<'a> BlockGenerator<'a> {
    /// Writes the instruction of a binary operator.
    fn add_binary_op_instruction(&mut self, operator: &BinaryOperator)
        ensures
            final(self).out() == (Output {
                body: old(self).out().body + op_line(*operator),
                stack: old(self).out().stack,
            }),
            final(self).vars() == old(self).vars(),
            final(self).locals() == old(self).locals(),
            final(self).procs() == old(self).procs(),
    {
        string_push_str(&mut self.body, "   ");
        match operator {
            BinaryOperator::Add => string_push_str(&mut self.body, "add a64, b64"),
            BinaryOperator::Subtract => string_push_str(&mut self.body, "sub a64, b64"),
            BinaryOperator::Multiply => string_push_str(&mut self.body, "mul a64, b64"),
            BinaryOperator::Divide => string_push_str(&mut self.body, "div a64, b64"),
        }
        string_push_str(&mut self.body, "\n");
        assert(self.body@ =~= old(self).body@ + op_line(*operator));
    }

    /// The variable `name`: a parameter first, then a local variable.
    fn get_variable(&self, name: &WithLocation<String>) -> (r: Result<Variable, GeneratorError>)
        ensures
            match get_variable(self.vars(), self.locals(), name.value@) {
                Some(v) => r is Ok && variable_view(r->Ok_0) == v,
                None => r is Err && r->Err_0@ == GenErrorView::UndefinedVariable(name@),
            },
    {
        match find_variable(self.variables, &name.value) {
            Some(v) => Ok(v),
            None => match find_variable(&self.local_variables, &name.value) {
                Some(v) => Ok(v),
                None => Err(
                    GeneratorError::UndefinedVariable(
                        WithLocation::new(name.value.clone(), name.location.clone()),
                    ),
                ),
            },
        }
    }

    /// Loads a variable of type `var_type` to where it goes.
    fn gen_variable_load_instruction(
        &mut self,
        variable: Variable,
        dst: ExpressionDestination,
        var_type: Type,
    ) -> (r: Result<(), GeneratorError>)
        requires
            var_type == variable.var_type.value,
            !(load_variable(variable_view(variable), dst, old(self).out()) is Panics),
        ensures
            final(self).vars() == old(self).vars(),
            final(self).locals() == old(self).locals(),
            final(self).procs() == old(self).procs(),
            r is Ok,
            load_variable(variable_view(variable), dst, old(self).out()) matches GenResult::Generated(
                o,
            ) && final(self).out() == o,
    {
        let bits = (var_type.size().byte() * 8) as u64;
        assert(bits == bytes_of(var_type) * 8);
        match dst {
            ExpressionDestination::Register(reg) => {
                string_push_str(&mut self.body, "   ");
                string_push_str(&mut self.body, "mov ");
                string_push_str(&mut self.body, reg.group().letter());
                push_digits(&mut self.body, bits, 10);
                string_push_str(&mut self.body, ", [sp + ");
                push_digits(&mut self.body, variable.stack_loc as u64, 10);
                string_push_str(&mut self.body, "]");
                string_push_str(&mut self.body, "\n");
                assert(self.body@ =~= old(self).body@ + line(
                    "mov "@ + group_letter(crate::compiler::rin_compiler::generator::group_of(reg)) + dec(bits as nat) + ", [sp + "@ + dec(
                        variable.stack_loc as nat,
                    ) + "]"@,
                ));
            },
            ExpressionDestination::Stack => {
                let stack_loc = variable.stack_loc;
                let size = var_type.size().byte();
                string_push_str(&mut self.body, "   ");
                string_push_str(&mut self.body, "mov a");
                push_digits(&mut self.body, bits, 10);
                string_push_str(&mut self.body, ", [sp + ");
                push_digits(&mut self.body, stack_loc as u64, 10);
                string_push_str(&mut self.body, "]");
                string_push_str(&mut self.body, "\n");
                assert(self.body@ =~= old(self).body@ + line(
                    "mov a"@ + dec(bits as nat) + ", [sp + "@ + dec(stack_loc as nat) + "]"@,
                ));
                push_store_line(&mut self.body, self.stack_loc, var_type);
                self.stack_loc = self.stack_loc + size;
            },
            ExpressionDestination::Ignored => {},
        }
        Ok(())
    }

    /// A variable's value, going to `dst`: its type as declared.
    fn gen_variable_access(&mut self, name: &WithLocation<String>, dst: ExpressionDestination) -> (r:
        Result<WithLocation<Type>, GeneratorError>)
        requires
            !(gen_term(
                TermView::LocalVariableAccess(name@),
                dst,
                seq![],
                old(self).vars(),
                old(self).locals(),
                old(self).procs(),
                old(self).out(),
            ) is Panics),
        ensures
            final(self).vars() == old(self).vars(),
            final(self).locals() == old(self).locals(),
            final(self).procs() == old(self).procs(),
            match gen_term(
                TermView::LocalVariableAccess(name@),
                dst,
                seq![],
                old(self).vars(),
                old(self).locals(),
                old(self).procs(),
                old(self).out(),
            ) {
                GenResult::Generated((t, o)) => r is Ok && r->Ok_0@ == t && final(self).out() == o,
                GenResult::Failed(e) => r is Err && r->Err_0@ == e,
                GenResult::Panics => true,
            },
    {
        let variable = match self.get_variable(name) {
            Ok(v) => v,
            Err(e) => {
                return Err(e);
            },
        };
        let var_type = WithLocation::new(variable.var_type.value, variable.var_type.location.clone());
        match self.gen_variable_load_instruction(variable, dst, var_type.value) {
            Ok(()) => {},
            Err(e) => {
                return Err(e);
            },
        }
        Ok(var_type)
    }

    /// A literal, going to `dst`, with the registers of
    /// `preserved_registers` saved around it.
    fn gen_literal(
        &mut self,
        literal: &WithLocation<Literal>,
        dst: ExpressionDestination,
        preserved_registers: &[RegisterTypeGroup],
    ) -> (r: Result<WithLocation<Type>, GeneratorError>)
        requires
            !(gen_term(
                TermView::Literal((literal_view(literal.value), literal.location@)),
                dst,
                preserved_registers@,
                old(self).vars(),
                old(self).locals(),
                old(self).procs(),
                old(self).out(),
            ) is Panics),
        ensures
            final(self).vars() == old(self).vars(),
            final(self).locals() == old(self).locals(),
            final(self).procs() == old(self).procs(),
            match gen_term(
                TermView::Literal((literal_view(literal.value), literal.location@)),
                dst,
                preserved_registers@,
                old(self).vars(),
                old(self).locals(),
                old(self).procs(),
                old(self).out(),
            ) {
                GenResult::Generated((t, o)) => r is Ok && r->Ok_0@ == t && final(self).out() == o,
                GenResult::Failed(e) => r is Err && r->Err_0@ == e,
                GenResult::Panics => true,
            },
    {
        let used = vec![RegisterTypeGroup::A];
        assert(used@ =~= seq![RegisterTypeGroup::A]);
        let typ = match &literal.value {
            Literal::String(_) => {
                // A string literal is ruled out by the precondition.
                return Err(
                    GeneratorError::UndefinedVariable(
                        WithLocation::new(String::new(), literal.location.clone()),
                    ),
                );
            },
            Literal::U64(value) => {
                self.preserve_registers(preserved_registers, used.as_slice());
                string_push_str(&mut self.body, "   ");
                string_push_str(&mut self.body, "mov a64, ");
                push_digits(&mut self.body, *value, 10);
                string_push_str(&mut self.body, "\n");
                Type::U64
            },
            Literal::U32(value) => {
                self.preserve_registers(preserved_registers, used.as_slice());
                string_push_str(&mut self.body, "   ");
                string_push_str(&mut self.body, "mov a32, ");
                push_digits(&mut self.body, *value as u64, 10);
                string_push_str(&mut self.body, "\n");
                Type::U32
            },
            Literal::U16(value) => {
                self.preserve_registers(preserved_registers, used.as_slice());
                string_push_str(&mut self.body, "   ");
                string_push_str(&mut self.body, "mov a16, ");
                push_digits(&mut self.body, *value as u64, 10);
                string_push_str(&mut self.body, "\n");
                Type::U16
            },
            Literal::U8(value) => {
                self.preserve_registers(preserved_registers, used.as_slice());
                string_push_str(&mut self.body, "   ");
                string_push_str(&mut self.body, "mov a8, ");
                push_digits(&mut self.body, *value as u64, 10);
                string_push_str(&mut self.body, "\n");
                Type::U8
            },
            Literal::Boolean(value) => {
                self.preserve_registers(preserved_registers, used.as_slice());
                string_push_str(&mut self.body, "   ");
                string_push_str(&mut self.body, "mov a8, ");
                if *value {
                    string_push_str(&mut self.body, "1");
                } else {
                    string_push_str(&mut self.body, "0");
                }
                string_push_str(&mut self.body, "\n");
                Type::Bool
            },
        };
        let ghost text = match literal_line(literal_view(literal.value)) {
            Some((t, _)) => t,
            None => Seq::<char>::empty(),
        };
        assert(self.body@ =~= old(self).body@ + preserve_text(
            preserved_registers@,
            seq![RegisterTypeGroup::A],
        ) + text);
        let expr_type = match self.finalize_expression_result(dst, typ) {
            Ok(t) => t,
            Err(e) => {
                return Err(e);
            },
        };
        self.restore_registers(preserved_registers, used.as_slice());
        Ok(WithLocation::new(expr_type, literal.location.clone()))
    }
}

/// The number of nodes of an expression.
pub open spec fn expr_size(e: ExprView) -> nat
    decreases e,
{
    match e {
        ExprView::Term((t, _)) => term_size(t) + 1,
        ExprView::BinaryOp(l, _, r) => expr_size(l.0) + expr_size(r.0) + 1,
    }
}

/// The number of nodes of a term.
pub open spec fn term_size(t: TermView) -> nat
    decreases t,
{
    match t {
        TermView::ProcedureCall(_, args) => args_size(args) + 1,
        _ => 1,
    }
}

/// The number of nodes of a list of arguments.
pub open spec fn args_size(args: Seq<(ExprView, LocationView)>) -> nat
    decreases args,
{
    if args.len() == 0 {
        0
    } else {
        args_size(args.drop_last()) + expr_size(args.last().0)
    }
}

pub proof fn lemma_args_size(args: Seq<(ExprView, LocationView)>, k: int)
    requires
        0 <= k < args.len(),
    ensures
        expr_size(args[k].0) <= args_size(args),
    decreases args.len(),
{
    if k < args.len() - 1 {
        lemma_args_size(args.drop_last(), k);
    }
}

/// The first procedure that can be called by `path`.
fn find_procedure(procs: &Vec<ProcedureHeader>, path: &Path) -> (r: Option<usize>)
    ensures
        r is Some <==> find_proc(headers_view(procs@), path@) is Some,
        r matches Some(k) ==> k < procs@.len() && find_proc(headers_view(procs@), path@) == Some(
            crate::compiler::rin_compiler::generator::header_view(procs@[k as int]),
        ),
{
    let ghost hs = headers_view(procs@);
    let mut i: usize = 0;
    assert(hs.skip(0) =~= hs);
    while i < procs.len()
        invariant
            hs == headers_view(procs@),
            i <= procs@.len(),
            find_proc(hs, path@) == find_proc(hs.skip(i as int), path@),
        decreases procs@.len() - i,
    {
        assert(hs.skip(i as int).drop_first() =~= hs.skip(i + 1));
        if procs[i].callable_path.same_path(path) {
            return Some(i);
        }
        i = i + 1;
    }
    None
}

/// A binary operation as plain values, located at its left-hand side (the
/// other locations play no part in the text written).
pub open spec fn binop_view(lhs: WithLocation<Expression>, op: BinaryOperator, rhs: Expression) -> ExprView {
    ExprView::BinaryOp(
        Box::new(located_expr(lhs)),
        (op, lhs.location@),
        Box::new((expr_view(rhs), lhs.location@)),
    )
}

impl<'a> BlockGenerator<'a> {
    /// The expression `expr`, its value going to `dst`, with the registers
    /// of `preserved_registers` saved around it where it uses them: its type.
    fn gen_expression(
        &mut self,
        expr: &Expression,
        dst: ExpressionDestination,
        preserved_registers: &[RegisterTypeGroup],
    ) -> (r: Result<WithLocation<Type>, GeneratorError>)
        requires
            !(gen_expr(
                expr_view(*expr),
                dst,
                preserved_registers@,
                old(self).vars(),
                old(self).locals(),
                old(self).procs(),
                old(self).out(),
            ) is Panics),
        ensures
            final(self).vars() == old(self).vars(),
            final(self).locals() == old(self).locals(),
            final(self).procs() == old(self).procs(),
            match gen_expr(
                expr_view(*expr),
                dst,
                preserved_registers@,
                old(self).vars(),
                old(self).locals(),
                old(self).procs(),
                old(self).out(),
            ) {
                GenResult::Generated((t, o)) => r is Ok && r->Ok_0@ == t && final(self).out() == o,
                GenResult::Failed(e) => r is Err && r->Err_0@ == e,
                GenResult::Panics => true,
            },
        decreases expr_size(expr_view(*expr)), 2int,
    {
        match expr {
            Expression::Term(term) => self.gen_term(&term.value, dst, preserved_registers),
            Expression::BinaryOp(lhs, operator, rhs) => self.gen_binary_op(
                &**lhs,
                &operator.value,
                &rhs.value,
                dst,
                preserved_registers,
            ),
        }
    }

    /// A binary operation: the left-hand side into `a64`, the right-hand
    /// side into `b64`, then the operator.
    fn gen_binary_op(
        &mut self,
        lhs: &WithLocation<Expression>,
        operator: &BinaryOperator,
        rhs: &Expression,
        dst: ExpressionDestination,
        preserved_registers: &[RegisterTypeGroup],
    ) -> (r: Result<WithLocation<Type>, GeneratorError>)
        requires
            !(gen_expr(
                binop_view(*lhs, *operator, *rhs),
                dst,
                preserved_registers@,
                old(self).vars(),
                old(self).locals(),
                old(self).procs(),
                old(self).out(),
            ) is Panics),
        ensures
            final(self).vars() == old(self).vars(),
            final(self).locals() == old(self).locals(),
            final(self).procs() == old(self).procs(),
            match gen_expr(
                binop_view(*lhs, *operator, *rhs),
                dst,
                preserved_registers@,
                old(self).vars(),
                old(self).locals(),
                old(self).procs(),
                old(self).out(),
            ) {
                GenResult::Generated((t, o)) => r is Ok && r->Ok_0@ == t && final(self).out() == o,
                GenResult::Failed(e) => r is Err && r->Err_0@ == e,
                GenResult::Panics => true,
            },
        decreases expr_size(expr_view(lhs.value)) + expr_size(expr_view(*rhs)) + 1, 1int,
    {
        let location = lhs.location.clone();
        let used = vec![RegisterTypeGroup::A];
        let none: Vec<RegisterTypeGroup> = Vec::new();
        assert(used@ =~= seq![RegisterTypeGroup::A]);
        assert(none@ =~= Seq::<RegisterTypeGroup>::empty());
        self.preserve_registers(preserved_registers, used.as_slice());
        let lhs_type = match self.gen_expression(
            &lhs.value,
            ExpressionDestination::Register(RegisterType::A64),
            none.as_slice(),
        ) {
            Ok(t) => t,
            Err(e) => {
                return Err(e);
            },
        };
        let rhs_type = match self.gen_expression(
            rhs,
            ExpressionDestination::Register(RegisterType::B64),
            used.as_slice(),
        ) {
            Ok(t) => t,
            Err(e) => {
                return Err(e);
            },
        };
        if lhs_type.value != rhs_type.value {
            return Err(
                GeneratorError::UnexpectedType {
                    expected: WithLocation::new(lhs_type.value, location),
                    unexpected: rhs_type,
                },
            );
        }
        self.add_binary_op_instruction(operator);
        let expr_type = match self.finalize_expression_result(dst, lhs_type.value) {
            Ok(t) => t,
            Err(e) => {
                return Err(e);
            },
        };
        self.restore_registers(preserved_registers, used.as_slice());
        Ok(WithLocation::new(expr_type, location))
    }

    /// The term `term`, as for [`gen_expression`].
    fn gen_term(
        &mut self,
        term: &Term,
        dst: ExpressionDestination,
        preserved_registers: &[RegisterTypeGroup],
    ) -> (r: Result<WithLocation<Type>, GeneratorError>)
        requires
            !(gen_term(
                term_view(*term),
                dst,
                preserved_registers@,
                old(self).vars(),
                old(self).locals(),
                old(self).procs(),
                old(self).out(),
            ) is Panics),
        ensures
            final(self).vars() == old(self).vars(),
            final(self).locals() == old(self).locals(),
            final(self).procs() == old(self).procs(),
            match gen_term(
                term_view(*term),
                dst,
                preserved_registers@,
                old(self).vars(),
                old(self).locals(),
                old(self).procs(),
                old(self).out(),
            ) {
                GenResult::Generated((t, o)) => r is Ok && r->Ok_0@ == t && final(self).out() == o,
                GenResult::Failed(e) => r is Err && r->Err_0@ == e,
                GenResult::Panics => true,
            },
        decreases term_size(term_view(*term)), 2int,
    {
        match term {
            Term::ProcedureCall(path, args) => self.gen_procedure_call(
                path,
                args,
                dst,
                preserved_registers,
            ),
            Term::Literal(value) => self.gen_literal(value, dst, preserved_registers),
            Term::LocalVariableAccess(name) => self.gen_variable_access(name, dst),
        }
    }

    /// A call: each argument into `a64` and passed, then the call, the
    /// result going to `dst`.
    fn gen_procedure_call(
        &mut self,
        path: &WithLocation<Path>,
        args: &Vec<WithLocation<Expression>>,
        dst: ExpressionDestination,
        preserved_registers: &[RegisterTypeGroup],
    ) -> (r: Result<WithLocation<Type>, GeneratorError>)
        requires
            !(gen_term(
                TermView::ProcedureCall((path.value@, path.location@), args_view(args@)),
                dst,
                preserved_registers@,
                old(self).vars(),
                old(self).locals(),
                old(self).procs(),
                old(self).out(),
            ) is Panics),
        ensures
            final(self).vars() == old(self).vars(),
            final(self).locals() == old(self).locals(),
            final(self).procs() == old(self).procs(),
            match gen_term(
                TermView::ProcedureCall((path.value@, path.location@), args_view(args@)),
                dst,
                preserved_registers@,
                old(self).vars(),
                old(self).locals(),
                old(self).procs(),
                old(self).out(),
            ) {
                GenResult::Generated((t, o)) => r is Ok && r->Ok_0@ == t && final(self).out() == o,
                GenResult::Failed(e) => r is Err && r->Err_0@ == e,
                GenResult::Panics => true,
            },
        decreases args_size(args_view(args@)) + 1, 1int,
    {
        let procs = self.callable_procs;
        let k = match find_procedure(procs, &path.value) {
            None => {
                return Err(
                    GeneratorError::UndefinedProcedure(
                        WithLocation::new(path.value.duplicate(), path.location.clone()),
                    ),
                );
            },
            Some(k) => k,
        };
        let proc = &procs[k];
        let ghost h = crate::compiler::rin_compiler::generator::header_view(*proc);
        let ghost av = args_view(args@);
        let ghost pv = h.parameters;
        proof {
            lemma_args_view(args@);
        }
        let used = vec![RegisterTypeGroup::A];
        let none: Vec<RegisterTypeGroup> = Vec::new();
        assert(used@ =~= seq![RegisterTypeGroup::A]);
        assert(none@ =~= Seq::<RegisterTypeGroup>::empty());
        self.preserve_registers(preserved_registers, used.as_slice());
        let ghost o1 = self.out();
        let n = if args.len() < proc.parameters.len() {
            args.len()
        } else {
            proc.parameters.len()
        };
        assert(av.subrange(0, av.len() as int) =~= av);
        assert(pv.subrange(0, pv.len() as int) =~= pv);
        let mut i: usize = 0;
        while i < n
            invariant
                i <= n,
                n <= args@.len(),
                n <= proc.parameters@.len(),
                n == args@.len() || n == proc.parameters@.len(),
                av == args_view(args@),
                av.len() == args@.len(),
                forall|k: int| 0 <= k < args@.len() ==> #[trigger] av[k] == located_expr(args@[k]),
                pv == h.parameters,
                h == crate::compiler::rin_compiler::generator::header_view(*proc),
                pv.len() == proc.parameters@.len(),
                self.vars() == old(self).vars(),
                self.locals() == old(self).locals(),
                self.procs() == old(self).procs(),
                gen_args(
                    av.subrange(i as int, av.len() as int),
                    pv.subrange(i as int, pv.len() as int),
                    i as nat,
                    self.vars(),
                    self.locals(),
                    self.procs(),
                    self.out(),
                ) == gen_args(av, pv, 0, self.vars(), self.locals(), self.procs(), o1),
                !(gen_args(av, pv, 0, self.vars(), self.locals(), self.procs(), o1) is Panics),
                none@ == Seq::<RegisterTypeGroup>::empty(),
                used@ == seq![RegisterTypeGroup::A],
                find_proc(old(self).procs(), path.value@) == Some(h),
                o1 == (Output {
                    body: old(self).out().body + preserve_text(
                        preserved_registers@,
                        seq![RegisterTypeGroup::A],
                    ),
                    stack: old(self).out().stack,
                }),
            decreases n - i,
        {
            let ghost o = self.out();
            let ghost rest_a = av.subrange(i as int, av.len() as int);
            let ghost rest_p = pv.subrange(i as int, pv.len() as int);
            assert(rest_a[0] == av[i as int]);
            assert(rest_p[0] == pv[i as int]);
            assert(rest_a.subrange(1, rest_a.len() as int) =~= av.subrange(i + 1, av.len() as int));
            assert(rest_p.subrange(1, rest_p.len() as int) =~= pv.subrange(i + 1, pv.len() as int));
            proof {
                lemma_args_size(av, i as int);
            }
            let expr_type = match self.gen_expression(
                &args[i].value,
                ExpressionDestination::Register(RegisterType::A64),
                none.as_slice(),
            ) {
                Ok(t) => t,
                Err(e) => {
                    return Err(e);
                },
            };
            let param_type = &proc.parameters[i];
            assert(pv[i as int] == param_type@);
            if expr_type.value != param_type.value {
                return Err(
                    GeneratorError::UnexpectedType {
                        expected: WithLocation::new(param_type.value, param_type.location.clone()),
                        unexpected: expr_type,
                    },
                );
            }
            let ghost before = self.body@;
            string_push_str(&mut self.body, "   ");
            string_push_str(&mut self.body, "arg ");
            push_digits(&mut self.body, i as u64, 10);
            string_push_str(&mut self.body, ", a64");
            string_push_str(&mut self.body, "\n");
            assert(self.body@ =~= before + line("arg "@ + dec(i as nat) + ", a64"@));
            i = i + 1;
        }
        assert(av.subrange(i as int, av.len() as int).len() == 0 || pv.subrange(
            i as int,
            pv.len() as int,
        ).len() == 0);
        let ghost before = self.body@;
        string_push_str(&mut self.body, "   ");
        string_push_str(&mut self.body, "call ");
        let real_name = proc.real_path.parse();
        string_append(&mut self.body, &real_name);
        string_push_str(&mut self.body, "\n");
        assert(self.body@ =~= before + line("call "@ + join_with(h.real_path, '$')));
        let proc_return_type = match self.finalize_expression_result(dst, proc.return_type) {
            Ok(t) => t,
            Err(e) => {
                return Err(e);
            },
        };
        self.restore_registers(preserved_registers, used.as_slice());
        Ok(WithLocation::new(proc_return_type, path.location.clone()))
    }
}

/// A returned type as plain values.
pub open spec fn returned_view(r: Option<WithLocation<Type>>) -> Option<(Type, LocationView)> {
    match r {
        Some(t) => Some(t@),
        None => None,
    }
}

impl<'a> BlockGenerator<'a> {
    /// The state of the block: its text, stack and variables.
    pub closed spec fn state(&self) -> BlockState {
        BlockState { out: self.out(), locals: self.locals() }
    }

    /// A statement: the type it returns, if it is a `return`.
    fn gen_statement(&mut self, statement: &Statement, return_type: &ReturnDestion) -> (r: Result<
        Option<WithLocation<Type>>,
        GeneratorError,
    >)
        requires
            !(gen_statement(
                statement_view(*statement),
                *return_type,
                old(self).vars(),
                old(self).procs(),
                old(self).state(),
            ) is Panics),
        ensures
            final(self).vars() == old(self).vars(),
            final(self).procs() == old(self).procs(),
            match gen_statement(
                statement_view(*statement),
                *return_type,
                old(self).vars(),
                old(self).procs(),
                old(self).state(),
            ) {
                GenResult::Generated((t, st)) => r is Ok && returned_view(r->Ok_0) == t
                    && final(self).state() == st,
                GenResult::Failed(e) => r is Err && r->Err_0@ == e,
                GenResult::Panics => true,
            },
    {
        let none: Vec<RegisterTypeGroup> = Vec::new();
        assert(none@ =~= Seq::<RegisterTypeGroup>::empty());
        match statement {
            Statement::VariableDecl { name, value } => {
                let stack_loc = self.stack_loc;
                let expr_type = match self.gen_expression(
                    &value.value,
                    ExpressionDestination::Stack,
                    none.as_slice(),
                ) {
                    Ok(t) => t,
                    Err(e) => {
                        return Err(e);
                    },
                };
                let ghost locals = self.locals();
                self.local_variables.push(
                    (name.value.clone(), Variable { stack_loc, var_type: expr_type }),
                );
                assert(self.locals() =~= locals.push(
                    (name.value@, VariableView { stack_loc: stack_loc as nat, var_type: expr_type@ }),
                ));
            },
            Statement::VariableMutate { name, value } => {
                let expr_type = match self.gen_expression(
                    &value.value,
                    ExpressionDestination::Register(RegisterType::A64),
                    none.as_slice(),
                ) {
                    Ok(t) => t,
                    Err(e) => {
                        return Err(e);
                    },
                };
                let variable = match self.get_variable(name) {
                    Ok(v) => v,
                    Err(e) => {
                        return Err(e);
                    },
                };
                if expr_type.value != variable.var_type.value {
                    return Err(
                        GeneratorError::UnexpectedType {
                            expected: variable.var_type,
                            unexpected: expr_type,
                        },
                    );
                }
                let stack_loc = variable.stack_loc;
                push_store_line(&mut self.body, stack_loc, variable.var_type.value);
            },
            Statement::Return(expr) => {
                let typ = match return_type {
                    ReturnDestion::Register(reg) => {
                        match self.gen_expression(
                            &expr.value,
                            ExpressionDestination::Register(*reg),
                            none.as_slice(),
                        ) {
                            Ok(t) => t,
                            Err(e) => {
                                return Err(e);
                            },
                        }
                    },
                    ReturnDestion::Return => {
                        let typ = match self.gen_expression(
                            &expr.value,
                            ExpressionDestination::Register(RegisterType::A64),
                            none.as_slice(),
                        ) {
                            Ok(t) => t,
                            Err(e) => {
                                return Err(e);
                            },
                        };
                        let ghost before = self.body@;
                        string_push_str(&mut self.body, "   ");
                        string_push_str(&mut self.body, "ret");
                        string_push_str(&mut self.body, "\n");
                        assert(self.body@ =~= before + line("ret"@));
                        typ
                    },
                    ReturnDestion::LeaveReturn => {
                        let typ = match self.gen_expression(
                            &expr.value,
                            ExpressionDestination::Register(RegisterType::A64),
                            none.as_slice(),
                        ) {
                            Ok(t) => t,
                            Err(e) => {
                                return Err(e);
                            },
                        };
                        let ghost before = self.body@;
                        string_push_str(&mut self.body, "   ");
                        string_push_str(&mut self.body, "leave");
                        string_push_str(&mut self.body, "\n");
                        string_push_str(&mut self.body, "   ");
                        string_push_str(&mut self.body, "ret");
                        string_push_str(&mut self.body, "\n");
                        assert(self.body@ =~= before + (line("leave"@) + line("ret"@)));
                        typ
                    },
                };
                return Ok(Some(typ));
            },
            Statement::Expression(expression) => {
                match self.gen_expression(
                    &expression.value,
                    ExpressionDestination::Ignored,
                    none.as_slice(),
                ) {
                    Ok(_) => {},
                    Err(e) => {
                        return Err(e);
                    },
                }
            },
        }
        Ok(None)
    }

    /// A block: the type it returns (void, at the block, if it returns
    /// nothing), its text and the stack size after it.
    pub fn gen_block(self, block: &WithLocation<Block>, return_dst: ReturnDestion) -> (r: Result<
        (WithLocation<Type>, String, usize),
        GeneratorError,
    >)
        requires
            self.out().body.len() == 0,
            self.locals().len() == 0,
            !(gen_block(
                (statements_view(block.value.body@), block.location@),
                return_dst,
                self.vars(),
                self.procs(),
                self.out().stack,
            ) is Panics),
        ensures
            match gen_block(
                (statements_view(block.value.body@), block.location@),
                return_dst,
                self.vars(),
                self.procs(),
                self.out().stack,
            ) {
                GenResult::Generated((t, o)) => r is Ok && r->Ok_0.0@ == t && r->Ok_0.1@ == o.body
                    && r->Ok_0.2 == o.stack,
                GenResult::Failed(e) => r is Err && r->Err_0@ == e,
                GenResult::Panics => true,
            },
    {
        let mut this = self;
        let ghost stmts = statements_view(block.value.body@);
        let ghost st0 = this.state();
        assert(st0.out.body =~= Seq::<char>::empty());
        assert(st0.locals =~= Seq::<(Seq<char>, VariableView)>::empty());
        let mut return_type = WithLocation::new(Type::Void, block.location.clone());
        let mut k: usize = 0;
        while k < block.value.body.len()
            invariant
                k <= block.value.body@.len(),
                stmts == statements_view(block.value.body@),
                this.vars() == self.vars(),
                this.procs() == self.procs(),
                gen_block_from(stmts, k as int, return_dst, this.vars(), this.procs(), return_type@, this.state())
                    == gen_block_from(
                    stmts,
                    0,
                    return_dst,
                    self.vars(),
                    self.procs(),
                    (Type::Void, block.location@),
                    st0,
                ),
                !(gen_block_from(
                    stmts,
                    0,
                    return_dst,
                    self.vars(),
                    self.procs(),
                    (Type::Void, block.location@),
                    st0,
                ) is Panics),
                st0 == (BlockState {
                    out: Output { body: seq![], stack: self.out().stack },
                    locals: seq![],
                }),
            decreases block.value.body@.len() - k,
        {
            assert(stmts[k as int] == (
                statement_view(block.value.body@[k as int].value),
                block.value.body@[k as int].location@,
            ));
            match this.gen_statement(&block.value.body[k].value, &return_dst) {
                Ok(Some(stmt_type)) => {
                    if return_type.value != Type::Void && return_type.value != stmt_type.value {
                        return Err(
                            GeneratorError::UnexpectedType {
                                expected: return_type,
                                unexpected: stmt_type,
                            },
                        );
                    }
                    return_type = stmt_type;
                },
                Ok(None) => {},
                Err(e) => {
                    return Err(e);
                },
            }
            k = k + 1;
        }
        Ok((return_type, this.body, this.stack_loc))
    }
}


/// The register name with group letter `g` (one of `a`, `b`, `c`, `d`) and
/// `bits` bits.
pub open spec fn named_register(g: char, bits: nat) -> Seq<char> {
    seq![g] + dec(bits)
}

/// The letter that names a register's group.
pub open spec fn group_char(r: RegisterType) -> char {
    match r {
        RegisterType::A8 | RegisterType::A16 | RegisterType::A32 | RegisterType::A64 => 'a',
        RegisterType::B8 | RegisterType::B16 | RegisterType::B32 | RegisterType::B64 => 'b',
        RegisterType::C8 | RegisterType::C16 | RegisterType::C32 | RegisterType::C64 => 'c',
        _ => 'd',
    }
}

/// Loading a variable into a register emits one `mov` into that register's
/// group (`b` for `b64`, `c` for `c64`, ...), as wide as the variable's type,
/// from the variable's place on the stack; the stack is left as it was.
pub proof fn law_load_into_register_group(v: VariableView, r: RegisterType, out: Output)
    ensures
        load_variable(v, ExpressionDestination::Register(r), out) == GenResult::Generated(
            Output {
                body: out.body + line(
                    "mov "@ + named_register(group_char(r), bytes_of(v.var_type.0) * 8) + ", [sp + "@
                        + dec(v.stack_loc) + "]"@,
                ),
                stack: out.stack,
            },
        ),
{
    let bits = bytes_of(v.var_type.0) * 8;
    let g = group_char(r);
    assert(group_letter(crate::compiler::rin_compiler::generator::group_of(r)) =~= seq![g]) by {
        reveal_strlit("a");
        reveal_strlit("b");
        reveal_strlit("c");
        reveal_strlit("d");
    }
    assert("mov "@ + group_letter(crate::compiler::rin_compiler::generator::group_of(r)) + dec(bits)
        =~= "mov "@ + named_register(g, bits));
}

/// A binary operation on two variables of one type, its value wanted in
/// `a64`: the left variable is loaded into `a`, the right one into `b`,
/// each as wide as the type and from its place on the stack, and then the
/// operation combines `a64` with `b64`. Nothing is saved or restored and the
/// stack is left as it was.
pub proof fn law_binary_operands_in_a_and_b(
    x: Seq<char>,
    lx: LocationView,
    y: Seq<char>,
    ly: LocationView,
    op: BinaryOperator,
    lop: LocationView,
    l: LocationView,
    vars: Seq<(Seq<char>, VariableView)>,
    locals: Seq<(Seq<char>, VariableView)>,
    procs: Seq<HeaderView>,
    out: Output,
    vx: VariableView,
    vy: VariableView,
)
    requires
        get_variable(vars, locals, x) == Some(vx),
        get_variable(vars, locals, y) == Some(vy),
        vx.var_type.0 == vy.var_type.0,
    ensures
        ({
            let left = ExprView::Term((TermView::LocalVariableAccess((x, lx)), lx));
            let right = ExprView::Term((TermView::LocalVariableAccess((y, ly)), ly));
            let e = ExprView::BinaryOp(Box::new((left, l)), (op, lop), Box::new((right, ly)));
            let bits = bytes_of(vx.var_type.0) * 8;
            gen_expr(
                e,
                ExpressionDestination::Register(RegisterType::A64),
                seq![],
                vars,
                locals,
                procs,
                out,
            ) == GenResult::Generated(
                (
                    (vx.var_type.0, l),
                    Output {
                        body: out.body + line(
                            "mov "@ + named_register('a', bits) + ", [sp + "@ + dec(vx.stack_loc)
                                + "]"@,
                        ) + line(
                            "mov "@ + named_register('b', bits) + ", [sp + "@ + dec(vy.stack_loc)
                                + "]"@,
                        ) + op_line(op),
                        stack: out.stack,
                    },
                ),
            )
        }),
{
    let left = ExprView::Term((TermView::LocalVariableAccess((x, lx)), lx));
    let right = ExprView::Term((TermView::LocalVariableAccess((y, ly)), ly));
    let e = ExprView::BinaryOp(Box::new((left, l)), (op, lop), Box::new((right, ly)));
    let o1 = Output { body: out.body + preserve_text(seq![], seq![RegisterTypeGroup::A]), stack: out.stack };
    assert(o1 == out) by {
        assert(out.body + seq![] =~= out.body);
    }
    law_load_into_register_group(vx, RegisterType::A64, out);
    let o2 = Output {
        body: out.body + line(
            "mov "@ + named_register('a', bytes_of(vx.var_type.0) * 8) + ", [sp + "@ + dec(vx.stack_loc)
                + "]"@,
        ),
        stack: out.stack,
    };
    law_load_into_register_group(vy, RegisterType::B64, o2);
    assert(gen_term(
        TermView::LocalVariableAccess((x, lx)),
        ExpressionDestination::Register(RegisterType::A64),
        seq![],
        vars,
        locals,
        procs,
        out,
    ) == GenResult::Generated((vx.var_type, o2)));
    assert(gen_expr(left, ExpressionDestination::Register(RegisterType::A64), seq![], vars, locals, procs, o1)
        == GenResult::Generated((vx.var_type, o2)));
    let o3 = Output {
        body: o2.body + line(
            "mov "@ + named_register('b', bytes_of(vy.var_type.0) * 8) + ", [sp + "@ + dec(vy.stack_loc)
                + "]"@,
        ),
        stack: o2.stack,
    };
    assert(gen_term(
        TermView::LocalVariableAccess((y, ly)),
        ExpressionDestination::Register(RegisterType::B64),
        seq![RegisterTypeGroup::A],
        vars,
        locals,
        procs,
        o2,
    ) == GenResult::Generated((vy.var_type, o3)));
    assert(gen_expr(
        right,
        ExpressionDestination::Register(RegisterType::B64),
        seq![RegisterTypeGroup::A],
        vars,
        locals,
        procs,
        o2,
    ) == GenResult::Generated((vy.var_type, o3)));
    let o4 = Output { body: o3.body + op_line(op), stack: o3.stack };
    assert(restore_text(seq![], seq![RegisterTypeGroup::A]) == Seq::<char>::empty());
    assert(o4.body + restore_text(seq![], seq![RegisterTypeGroup::A]) =~= o4.body);
}

} // verus!
