//! Lowering of the syntax tree to a flat list of instructions: frame layout,
//! labels for control flow, and scopes that map names to stack slots.

use vstd::prelude::*;
use crate::ast::{
    BindRef, BranchView, CompoundExpr, Const, Decl, DeclView, Expr, ExprView,
    FnCallExpr, ForExpr, ForIteration, ForIterationView, ForView, IfExpr, IfView, Program,
    RangeKind, lemma_compound_model, lemma_if_model, lemma_program_model,
};
use crate::error::CompileError;
use crate::compiler_context::CompilerContext;
use crate::interner::{Symbol, interned_symbol, names_with};
use crate::scope::{
    Scope, ScopeView, bumped_frame, claim_slot, empty_scope, find_exit_label, find_offset,
    find_start_label, frame_immediate, frame_size, lookup_exit_label, lookup_offset,
    lookup_start_label, loop_scope, scope_models, slot_displacement, with_binding,
};
use crate::text::{label_bytes, label_text, next_counter};

verus! {

#[derive(Clone, Copy, PartialEq, Eq, Structural, Debug)]
pub enum Reg {
    Eax,
    Rbp,
    Rsp,
}

#[derive(Clone, Copy, PartialEq, Eq, Structural, Debug)]
pub enum Arg {
    Imm(i32),
    Reg(Reg),
    MemOffset { base: Reg, offset: i32 },
}

#[allow(inconsistent_fields)]
#[derive(Clone, Copy, PartialEq, Eq, Structural, Debug)]
pub enum Inst {
    Label { name: Symbol },
    Mov { target: Arg, source: Arg },
    Cmp { reg: Reg, value: i32 },
    Je { label: Symbol },
    Jg { label: Symbol },
    Jge { label: Symbol },
    Jmp { label: Symbol },
    Ret,
    Push { source: Reg },
    Pop { target: Reg },
    Sub { target: Arg, source: Arg },
    Add { target: Arg, source: Arg },
    Call { label: Symbol },
}

/// What the code generator carries from one expression to the next.
pub struct GenState {
    /// The number of the next label: never reused, never reset.
    pub label_counter: u64,
    /// The stack bytes that the current function's bindings take so far.
    pub allocated_stack_bytes: usize,
    /// The open lexical scopes, innermost last.
    pub scopes: Seq<ScopeView>,
    /// The interned names.
    pub names: Seq<Seq<u8>>,
}

/// The instructions of a lowered piece of the program and the state after it.
pub struct Lowered {
    pub insts: Seq<Inst>,
    pub state: GenState,
}

/// The state of a fresh compilation unit in which `names` are interned.
pub open spec fn initial_state(names: Seq<Seq<u8>>) -> GenState {
    GenState { label_counter: 0, allocated_stack_bytes: 0, scopes: Seq::empty(), names }
}

/// Loads `value` into the accumulator.
pub open spec fn load_constant(value: i32) -> Inst {
    Inst::Mov { target: Arg::Reg(Reg::Eax), source: Arg::Imm(value) }
}

/// Loads the stack slot at `displacement` into the accumulator.
pub open spec fn load_slot(displacement: i32) -> Inst {
    Inst::Mov {
        target: Arg::Reg(Reg::Eax),
        source: Arg::MemOffset { base: Reg::Rbp, offset: displacement },
    }
}

/// Stores the accumulator to the stack slot at `displacement`.
pub open spec fn store_slot(displacement: i32) -> Inst {
    Inst::Mov {
        target: Arg::MemOffset { base: Reg::Rbp, offset: displacement },
        source: Arg::Reg(Reg::Eax),
    }
}

/// Compares the accumulator with `value`.
pub open spec fn compare_with(value: i32) -> Inst {
    Inst::Cmp { reg: Reg::Eax, value }
}

/// The frame prologue: saves the frame base and makes the stack top the new one.
pub open spec fn prologue() -> Seq<Inst> {
    seq![
        Inst::Push { source: Reg::Rbp },
        Inst::Mov { target: Arg::Reg(Reg::Rbp), source: Arg::Reg(Reg::Rsp) },
    ]
}

/// The frame teardown and return.
pub open spec fn epilogue() -> Seq<Inst> {
    seq![Inst::Pop { target: Reg::Rbp }, Inst::Ret]
}

/// A fresh label: its symbol and the state after it was made. Its name is
/// `.L` and the label counter, which then moves on by one.
pub open spec fn make_label(st: GenState) -> Result<(Symbol, GenState), CompileError> {
    if st.label_counter == u64::MAX {
        Err(CompileError::TooManyLabels)
    } else {
        Ok(
            (
                interned_symbol(st.names, label_text(st.label_counter)),
                GenState {
                    label_counter: next_counter(st.label_counter),
                    names: names_with(st.names, label_text(st.label_counter)),
                    ..st
                },
            ),
        )
    }
}

/// The state with `scope` opened inside the innermost scope.
pub open spec fn enter_scope(st: GenState, scope: ScopeView) -> GenState {
    GenState { scopes: st.scopes.push(scope), ..st }
}

/// The state with the innermost scope closed: its bindings are forgotten.
/// The stack bytes stay claimed until the last scope closes; then the count
/// starts again at zero for the next function.
pub open spec fn exit_scope(st: GenState) -> GenState {
    if st.scopes.len() <= 1 {
        GenState { scopes: Seq::empty(), allocated_stack_bytes: 0, ..st }
    } else {
        GenState { scopes: st.scopes.drop_last(), ..st }
    }
}

/// Claims the next 4-byte stack slot for `symbol` in the innermost scope:
/// the slot's displacement and the state after.
pub open spec fn insert_in_scope(st: GenState, symbol: Symbol) -> Result<
    (i32, GenState),
    CompileError,
> {
    match bumped_frame(st.allocated_stack_bytes) {
        None => Err(CompileError::FrameTooLarge),
        Some(bumped) => Ok(
            (
                slot_displacement(bumped),
                GenState {
                    allocated_stack_bytes: bumped,
                    scopes: with_binding(st.scopes, symbol, slot_displacement(bumped)),
                    ..st
                },
            ),
        ),
    }
}

/// `insts` put before the instructions of `rest`, or the error of `rest`.
pub open spec fn lowered_then(insts: Seq<Inst>, rest: Result<Lowered, CompileError>) -> Result<
    Lowered,
    CompileError,
> {
    match rest {
        Ok(l) => Ok(Lowered { insts: insts + l.insts, state: l.state }),
        Err(e) => Err(e),
    }
}

/// The instructions of an expression, which leave its value in the
/// accumulator. `break` jumps to the exit label of the innermost enclosing
/// loop and `continue` to its start label, where the loop tests its
/// condition again; outside every loop both are errors, as is a name that
/// no scope binds.
pub open spec fn lower_expr(e: ExprView, st: GenState) -> Result<Lowered, CompileError>
    decreases e, 0nat,
{
    match e {
        ExprView::Semi(inner) => lower_expr(*inner, st),
        ExprView::Const(Const::IntegerConstant { value }) => Ok(
            Lowered { insts: seq![load_constant(value)], state: st },
        ),
        ExprView::If(i) => lower_if(i, st),
        ExprView::For(f) => lower_for(f, st),
        ExprView::Break => match find_exit_label(st.scopes) {
            Some(label) => Ok(Lowered { insts: seq![Inst::Jmp { label }], state: st }),
            None => Err(CompileError::BreakOutsideLoop),
        },
        ExprView::Continue => match find_start_label(st.scopes) {
            Some(label) => Ok(Lowered { insts: seq![Inst::Jmp { label }], state: st }),
            None => Err(CompileError::ContinueOutsideLoop),
        },
        ExprView::BindDef { identifier, value } => lower_bind_def(identifier, *value, st),
        ExprView::BindRef(identifier) => lower_bind_ref(identifier, st),
        ExprView::Compound(es) => lower_compound(es, st),
        ExprView::FnCall(identifier) => Ok(
            Lowered { insts: seq![Inst::Call { label: identifier }], state: st },
        ),
        ExprView::Function(_) => Err(CompileError::NestedFunction),
    }
}

/// A binding definition: the value's instructions, then a store of the
/// accumulator to the slot claimed for the name.
pub open spec fn lower_bind_def(identifier: Symbol, value: ExprView, st: GenState) -> Result<
    Lowered,
    CompileError,
>
    decreases value, 1nat,
{
    match lower_expr(value, st) {
        Err(e) => Err(e),
        Ok(v) => match insert_in_scope(v.state, identifier) {
            Err(e) => Err(e),
            Ok((displacement, after)) => Ok(
                Lowered { insts: v.insts.push(store_slot(displacement)), state: after },
            ),
        },
    }
}

/// A reference to a binding: a load from the slot of the innermost binding
/// of that name.
pub open spec fn lower_bind_ref(identifier: Symbol, st: GenState) -> Result<
    Lowered,
    CompileError,
> {
    match find_offset(st.scopes, identifier) {
        Some(displacement) => Ok(Lowered { insts: seq![load_slot(displacement)], state: st }),
        None => Err(CompileError::UnresolvedBinding { name: identifier }),
    }
}

/// The expressions of `es` from index `from` on, one after the other.
pub open spec fn lower_exprs(es: Seq<ExprView>, from: nat, st: GenState) -> Result<
    Lowered,
    CompileError,
>
    decreases es, es.len() - from,
{
    if from >= es.len() {
        Ok(Lowered { insts: Seq::empty(), state: st })
    } else {
        match lower_expr(es[from as int], st) {
            Err(e) => Err(e),
            Ok(first) => lowered_then(first.insts, lower_exprs(es, from + 1, first.state)),
        }
    }
}

/// A compound expression: its expressions in a scope of their own.
pub open spec fn lower_compound(es: Seq<ExprView>, st: GenState) -> Result<
    Lowered,
    CompileError,
>
    decreases es, es.len() + 1,
{
    match lower_exprs(es, 0, enter_scope(st, empty_scope())) {
        Err(e) => Err(e),
        Ok(l) => Ok(Lowered { insts: l.insts, state: exit_scope(l.state) }),
    }
}

/// A guarded branch and the label that its guard jumps to.
pub struct Guarded {
    pub insts: Seq<Inst>,
    pub next_label: Symbol,
    pub state: GenState,
}

/// A guarded branch whose condition code is `cond_insts`: the condition, a
/// comparison with zero, a jump on zero to a fresh label, and the body.
pub open spec fn lower_guarded(cond_insts: Seq<Inst>, body: Seq<ExprView>, st: GenState) -> Result<
    Guarded,
    CompileError,
>
    decreases body, body.len() + 2,
{
    match make_label(st) {
        Err(e) => Err(e),
        Ok((next_label, labelled)) => match lower_compound(body, labelled) {
            Err(e) => Err(e),
            Ok(b) => Ok(
                Guarded {
                    insts: cond_insts + seq![compare_with(0), Inst::Je { label: next_label }]
                        + b.insts,
                    next_label,
                    state: b.state,
                },
            ),
        },
    }
}

/// The `else if` branches of a chain, each a block of its own, and the label
/// that the last guard jumps to.
pub struct Chain {
    pub blocks: Seq<Seq<Inst>>,
    pub next_label: Symbol,
    pub state: GenState,
}

/// `blocks` put before the blocks of `rest`, or the error of `rest`.
pub open spec fn chain_then(blocks: Seq<Seq<Inst>>, rest: Result<Chain, CompileError>) -> Result<
    Chain,
    CompileError,
> {
    match rest {
        Ok(c) => Ok(Chain { blocks: blocks + c.blocks, next_label: c.next_label, state: c.state }),
        Err(e) => Err(e),
    }
}

/// The `else if` branches from index `from` on. Each block opens with the
/// label that the guard before it jumps to; `next_label` is that label for
/// the first of them.
pub open spec fn lower_else_ifs(
    branches: Seq<BranchView>,
    from: nat,
    next_label: Symbol,
    st: GenState,
) -> Result<Chain, CompileError>
    decreases branches, branches.len() - from,
{
    if from >= branches.len() {
        Ok(Chain { blocks: Seq::empty(), next_label, state: st })
    } else {
        match lower_expr(branches[from as int].cond, st) {
            Err(e) => Err(e),
            Ok(c) => match lower_guarded(
                seq![Inst::Label { name: next_label }] + c.insts,
                branches[from as int].body,
                c.state,
            ) {
                Err(e) => Err(e),
                Ok(g) => chain_then(
                    seq![g.insts],
                    lower_else_ifs(branches, from + 1, g.next_label, g.state),
                ),
            },
        }
    }
}

/// The blocks one after the other, each followed by a jump to `exit`.
pub open spec fn join_blocks(blocks: Seq<Seq<Inst>>, exit: Symbol) -> Seq<Inst>
    decreases blocks.len(),
{
    if blocks.len() == 0 {
        Seq::empty()
    } else {
        join_blocks(blocks.drop_last(), exit) + blocks.last() + seq![Inst::Jmp { label: exit }]
    }
}

/// A conditional chain. Every branch but the last ends in a jump to the
/// shared exit label, which closes the chain. Without a final `else` the
/// label that the last guard jumps to is the exit label; a lone `if` then
/// falls through to it without a jump.
pub open spec fn lower_if(i: IfView, st: GenState) -> Result<Lowered, CompileError>
    decreases i, 0nat,
{
    match lower_expr(*i.cond, st) {
        Err(e) => Err(e),
        Ok(c) => match lower_guarded(c.insts, i.true_branch, c.state) {
            Err(e) => Err(e),
            Ok(first) => match lower_else_ifs(i.else_ifs, 0, first.next_label, first.state) {
                Err(e) => Err(e),
                Ok(chain) => match i.final_branch {
                    Some(final_branch) => match make_label(chain.state) {
                        Err(e) => Err(e),
                        Ok((exit, labelled)) => match lower_compound(final_branch, labelled) {
                            Err(e) => Err(e),
                            Ok(f) => Ok(
                                Lowered {
                                    insts: first.insts + seq![Inst::Jmp { label: exit }]
                                        + join_blocks(chain.blocks, exit) + seq![
                                        Inst::Label { name: chain.next_label },
                                    ] + f.insts + seq![Inst::Label { name: exit }],
                                    state: f.state,
                                },
                            ),
                        },
                    },
                    None => Ok(
                        Lowered {
                            insts: first.insts + (if chain.blocks.len() > 0 {
                                seq![Inst::Jmp { label: chain.next_label }]
                            } else {
                                Seq::empty()
                            }) + join_blocks(chain.blocks, chain.next_label) + seq![
                                Inst::Label { name: chain.next_label },
                            ],
                            state: chain.state,
                        },
                    ),
                },
            },
        },
    }
}

/// The jump that leaves a counted loop: taken once the counter is past the
/// end of an inclusive range, or has reached the end of an exclusive one.
pub open spec fn range_exit_jump(range_kind: RangeKind, exit: Symbol) -> Inst {
    match range_kind {
        RangeKind::Inclusive => Inst::Jg { label: exit },
        RangeKind::Exclusive => Inst::Jge { label: exit },
    }
}

/// What closes every loop: the jump back to its start and its exit label.
pub open spec fn loop_end(start: Symbol, exit: Symbol) -> Seq<Inst> {
    seq![Inst::Jmp { label: start }, Inst::Label { name: exit }]
}

/// A loop. Its start and exit labels are made first; its scope holds them,
/// so that `break` and `continue` in the body find them.
pub open spec fn lower_for(f: ForView, st: GenState) -> Result<Lowered, CompileError>
    decreases f, 0nat,
{
    match make_label(st) {
        Err(e) => Err(e),
        Ok((start, st1)) => match make_label(st1) {
            Err(e) => Err(e),
            Ok((exit, st2)) => {
                let inside = enter_scope(st2, loop_scope(start, exit));
                match f.iteration {
                    None => match lower_compound(f.body, inside) {
                        Err(e) => Err(e),
                        Ok(b) => Ok(
                            Lowered {
                                insts: seq![Inst::Label { name: start }] + b.insts + loop_end(
                                    start,
                                    exit,
                                ),
                                state: exit_scope(b.state),
                            },
                        ),
                    },
                    Some(ForIterationView::Conditional { cond }) => match lower_expr(
                        *cond,
                        inside,
                    ) {
                        Err(e) => Err(e),
                        Ok(c) => match lower_compound(f.body, c.state) {
                            Err(e) => Err(e),
                            Ok(b) => Ok(
                                Lowered {
                                    insts: seq![Inst::Label { name: start }] + c.insts + seq![
                                        compare_with(0),
                                        Inst::Je { label: exit },
                                    ] + b.insts + loop_end(start, exit),
                                    state: exit_scope(b.state),
                                },
                            ),
                        },
                    },
                    Some(
                        ForIterationView::Iterative { identifier, start: first, end, range_kind },
                    ) => match lower_bind_def(identifier, *first, inside) {
                        Err(e) => Err(e),
                        Ok(d) => match lower_bind_ref(identifier, d.state) {
                            Err(e) => Err(e),
                            Ok(counter) => match *end {
                                ExprView::Const(
                                    Const::IntegerConstant { value },
                                ) => match lower_compound(f.body, d.state) {
                                    Err(e) => Err(e),
                                    Ok(b) => match find_offset(b.state.scopes, identifier) {
                                        None => Err(
                                            CompileError::UnresolvedBinding { name: identifier },
                                        ),
                                        Some(slot) => Ok(
                                            Lowered {
                                                insts: d.insts + seq![
                                                    Inst::Label { name: start },
                                                ] + counter.insts + seq![
                                                    compare_with(value),
                                                    range_exit_jump(range_kind, exit),
                                                ] + b.insts + seq![
                                                    load_slot(slot),
                                                    Inst::Add {
                                                        target: Arg::Reg(Reg::Eax),
                                                        source: Arg::Imm(1),
                                                    },
                                                    store_slot(slot),
                                                ] + loop_end(start, exit),
                                                state: exit_scope(b.state),
                                            },
                                        ),
                                    },
                                },
                                _ => Err(CompileError::UnsupportedRangeEnd),
                            },
                        },
                    },
                }
            },
        },
    }
}

/// A function: the prologue, the body, and the epilogue. Where the body
/// claimed stack bytes, they are taken from the stack after the prologue and
/// given back before the epilogue.
pub open spec fn lower_function(body: Seq<ExprView>, st: GenState) -> Result<
    Lowered,
    CompileError,
> {
    match lower_compound(body, enter_scope(st, empty_scope())) {
        Err(e) => Err(e),
        Ok(b) => match frame_immediate(b.state.allocated_stack_bytes) {
            None => Err(CompileError::FrameTooLarge),
            Some(size) => Ok(
                Lowered {
                    insts: if size != 0 {
                        prologue() + seq![
                            Inst::Sub { target: Arg::Reg(Reg::Rsp), source: Arg::Imm(size) },
                        ] + b.insts + seq![
                            Inst::Add { target: Arg::Reg(Reg::Rsp), source: Arg::Imm(size) },
                        ] + epilogue()
                    } else {
                        prologue() + b.insts + epilogue()
                    },
                    state: exit_scope(b.state),
                },
            ),
        },
    }
}

/// A declaration: a label that bears its name, then its function.
pub open spec fn lower_decl(decl: DeclView, st: GenState) -> Result<Lowered, CompileError> {
    match decl.value {
        ExprView::Function(function) => lowered_then(
            seq![Inst::Label { name: decl.identifier }],
            lower_function(function.body, st),
        ),
        _ => Err(CompileError::UnsupportedTopLevel { name: decl.identifier }),
    }
}

/// The declarations from index `from` on, in source order.
pub open spec fn lower_decls(decls: Seq<DeclView>, from: nat, st: GenState) -> Result<
    Lowered,
    CompileError,
>
    decreases decls.len() - from,
{
    if from >= decls.len() {
        Ok(Lowered { insts: Seq::empty(), state: st })
    } else {
        match lower_decl(decls[from as int], st) {
            Err(e) => Err(e),
            Ok(first) => lowered_then(first.insts, lower_decls(decls, from + 1, first.state)),
        }
    }
}

/// The instructions of a program: those of its declarations, in source order.
pub open spec fn lower_program(decls: Seq<DeclView>, st: GenState) -> Result<
    Lowered,
    CompileError,
> {
    lower_decls(decls, 0, st)
}

/// Whether `result` is what the lowering `want` asks for, with the generator
/// moved from `before` to `after`: the same error, or the same instructions
/// with the generator in the lowered state, as many scopes open as before.
pub open spec fn lowering_outcome(
    result: Result<Vec<Inst>, CompileError>,
    want: Result<Lowered, CompileError>,
    before: GenState,
    after: GenState,
) -> bool {
    match want {
        Ok(l) => match result {
            Ok(insts) => insts@ == l.insts && after == l.state && l.state.scopes.len()
                == before.scopes.len(),
            Err(_) => false,
        },
        Err(e) => result == Err::<Vec<Inst>, CompileError>(e),
    }
}

/// The instruction lists in `blocks`.
pub open spec fn block_views(blocks: Seq<Vec<Inst>>) -> Seq<Seq<Inst>> {
    Seq::new(blocks.len(), |k: int| blocks[k]@)
}

/// Appends `more` to `out`.
pub fn append_insts(out: &mut Vec<Inst>, more: &Vec<Inst>)
    ensures
        final(out)@ == old(out)@ + more@,
{
    let mut i: usize = 0;
    while i < more.len()
        invariant
            i <= more@.len(),
            out@ == old(out)@ + more@.subrange(0, i as int),
        decreases more@.len() - i,
    {
        out.push(more[i]);
        assert(out@ =~= old(out)@ + more@.subrange(0, i + 1));
        i += 1;
    }
    assert(more@.subrange(0, i as int) =~= more@);
}

/// Lowers a syntax tree to instructions.
pub struct CodeGen<'a> {
    ctx: CompilerContext<'a>,
    label_counter: u64,
    allocated_stack_bytes: usize,
    scope_stack: Vec<Scope>,
}

impl<'a> CodeGen<'a> {
    /// What the generator carries: counters, open scopes and interned names.
    pub closed spec fn state(&self) -> GenState {
        GenState {
            label_counter: self.label_counter,
            allocated_stack_bytes: self.allocated_stack_bytes,
            scopes: scope_models(self.scope_stack@),
            names: self.ctx.names(),
        }
    }

    /// The source text of the compilation.
    pub closed spec fn source(&self) -> Seq<u8> {
        self.ctx.source()
    }

    /// A generator for a fresh compilation unit: labels count from zero, no
    /// scope is open.
    pub fn new(ctx: CompilerContext<'a>) -> (codegen: CodeGen<'a>)
        ensures
            codegen.state() == initial_state(ctx.names()),
            codegen.source() == ctx.source(),
    {
        let codegen = CodeGen {
            ctx,
            label_counter: 0,
            allocated_stack_bytes: 0,
            scope_stack: Vec::new(),
        };
        assert(codegen.state().scopes =~= Seq::empty());
        codegen
    }

    /// Gives up the generator for the context, which holds the names of the
    /// program and of its labels.
    pub fn into_context(self) -> (ctx: CompilerContext<'a>)
        ensures
            ctx.names() == self.state().names,
            ctx.source() == self.source(),
    {
        self.ctx
    }

    /// The instructions of `program`: those of its declarations, in source
    /// order, each opening with a label that bears its name.
    #[verifier::loop_isolation(false)]
    pub fn gen_program(&mut self, program: &Program) -> (insts: Result<Vec<Inst>, CompileError>)
        ensures
            final(self).source() == old(self).source(),
            lowering_outcome(
                insts,
                lower_program(program.model(), old(self).state()),
                old(self).state(),
                final(self).state(),
            ),
    {
        let ghost decls = program.model();
        let ghost begin = self.state();
        proof {
            lemma_program_model(*program);
        }
        let mut generated_insts: Vec<Inst> = Vec::new();
        let mut i: usize = 0;
        while i < program.decls.len()
            invariant
                i <= program.decls@.len(),
                decls == program.model(),
                decls.len() == program.decls@.len(),
                forall|k: int| 0 <= k < decls.len() ==> decls[k] == program.decls@[k].model(),
                self.state().scopes.len() == begin.scopes.len(),
                self.source() == old(self).source(),
                lower_decls(decls, 0, begin) == lowered_then(
                    generated_insts@,
                    lower_decls(decls, i as nat, self.state()),
                ),
            decreases program.decls@.len() - i,
        {
            assert(decls[i as int] == program.decls@[i as int].model());
            let decl_insts = match self.gen_decl(&program.decls[i]) {
                Ok(v) => v,
                Err(e) => {
                    return Err(e);
                },
            };
            proof {
                let next = lower_decls(decls, (i + 1) as nat, self.state());
                match next {
                    Ok(n) => {
                        assert(generated_insts@ + (decl_insts@ + n.insts) =~= (generated_insts@
                            + decl_insts@) + n.insts);
                    },
                    Err(_) => {},
                }
            }
            append_insts(&mut generated_insts, &decl_insts);
            i += 1;
        }
        assert(generated_insts@ + Seq::<Inst>::empty() =~= generated_insts@);
        Ok(generated_insts)
    }

    fn gen_decl(&mut self, decl: &Decl) -> (insts: Result<Vec<Inst>, CompileError>)
        ensures
            final(self).source() == old(self).source(),
            lowering_outcome(
                insts,
                lower_decl(decl.model(), old(self).state()),
                old(self).state(),
                final(self).state(),
            ),
    {
        let mut decl_insts: Vec<Inst> = Vec::new();
        decl_insts.push(Inst::Label { name: decl.identifier });
        let value_insts = match self.parse_top_level_expr(decl.identifier, &decl.value) {
            Ok(v) => v,
            Err(e) => {
                return Err(e);
            },
        };
        append_insts(&mut decl_insts, &value_insts);
        Ok(decl_insts)
    }

    /// The instructions of the value bound to the top-level name `name`,
    /// which has to be a function.
    fn parse_top_level_expr(&mut self, name: Symbol, expr: &Expr) -> (insts: Result<
        Vec<Inst>,
        CompileError,
    >)
        ensures
            final(self).source() == old(self).source(),
            lowering_outcome(
                insts,
                match expr.model() {
                    ExprView::Function(function) => lower_function(
                        function.body,
                        old(self).state(),
                    ),
                    _ => Err(CompileError::UnsupportedTopLevel { name }),
                },
                old(self).state(),
                final(self).state(),
            ),
    {
        match expr {
            Expr::Function(function) => self.gen_function(&function.body),
            _ => Err(CompileError::UnsupportedTopLevel { name }),
        }
    }

    fn gen_function(&mut self, body: &CompoundExpr) -> (insts: Result<Vec<Inst>, CompileError>)
        ensures
            final(self).source() == old(self).source(),
            lowering_outcome(
                insts,
                lower_function(body.model(), old(self).state()),
                old(self).state(),
                final(self).state(),
            ),
    {
        self.enter_scope();
        let mut insts: Vec<Inst> = Vec::new();
        insts.push(Inst::Push { source: Reg::Rbp });
        insts.push(Inst::Mov { target: Arg::Reg(Reg::Rbp), source: Arg::Reg(Reg::Rsp) });
        assert(insts@ =~= prologue());
        let mut body_insts = match self.gen_compound_expr(body) {
            Ok(v) => v,
            Err(e) => {
                return Err(e);
            },
        };
        let ghost lowered_body = body_insts@;
        let size = match frame_size(self.allocated_stack_bytes) {
            Some(s) => s,
            None => {
                return Err(CompileError::FrameTooLarge);
            },
        };
        if size != 0 {
            insts.push(Inst::Sub { target: Arg::Reg(Reg::Rsp), source: Arg::Imm(size) });
            body_insts.push(Inst::Add { target: Arg::Reg(Reg::Rsp), source: Arg::Imm(size) });
        }
        body_insts.push(Inst::Pop { target: Reg::Rbp });
        body_insts.push(Inst::Ret);
        append_insts(&mut insts, &body_insts);
        self.exit_scope();
        proof {
            if size != 0 {
                assert(insts@ =~= prologue() + seq![
                    Inst::Sub { target: Arg::Reg(Reg::Rsp), source: Arg::Imm(size) },
                ] + lowered_body + seq![
                    Inst::Add { target: Arg::Reg(Reg::Rsp), source: Arg::Imm(size) },
                ] + epilogue());
            } else {
                assert(insts@ =~= prologue() + lowered_body + epilogue());
            }
        }
        Ok(insts)
    }

    fn gen_expr(&mut self, expr: &Expr) -> (insts: Result<Vec<Inst>, CompileError>)
        requires
            old(self).state().scopes.len() > 0,
        ensures
            final(self).source() == old(self).source(),
            lowering_outcome(
                insts,
                lower_expr(expr.model(), old(self).state()),
                old(self).state(),
                final(self).state(),
            ),
        decreases expr, 0nat,
    {
        match expr {
            Expr::Semi(inner) => self.gen_expr(inner),
            Expr::Const(constant) => Ok(self.gen_constant_expr(*constant)),
            Expr::If(if_expr) => self.gen_if_expr(if_expr),
            Expr::For(for_expr) => self.gen_for_expr(for_expr),
            Expr::Break => self.gen_break_expr(),
            Expr::Continue => self.gen_continue_expr(),
            Expr::BindDef(bind_def) => self.gen_bind_def_expr(
                bind_def.identifier,
                &bind_def.value,
            ),
            Expr::BindRef(bind_ref) => self.gen_bind_ref_expr(*bind_ref),
            Expr::Compound(compound_expr) => self.gen_compound_expr(compound_expr),
            Expr::FnCall(fn_call_expr) => Ok(self.gen_fn_call_expr(*fn_call_expr)),
            Expr::Function(_) => Err(CompileError::NestedFunction),
        }
    }

    fn gen_constant_expr(&self, constant: Const) -> (insts: Vec<Inst>)
        ensures
            insts@ == seq![load_constant(constant->value)],
    {
        match constant {
            Const::IntegerConstant { value } => {
                let mut insts: Vec<Inst> = Vec::new();
                insts.push(Inst::Mov { target: Arg::Reg(Reg::Eax), source: Arg::Imm(value) });
                assert(insts@ =~= seq![load_constant(value)]);
                insts
            },
        }
    }

    #[verifier::loop_isolation(false)]
    #[verifier::rlimit(40)]
    fn gen_if_expr(&mut self, if_expr: &IfExpr) -> (insts: Result<Vec<Inst>, CompileError>)
        requires
            old(self).state().scopes.len() > 0,
        ensures
            final(self).source() == old(self).source(),
            lowering_outcome(
                insts,
                lower_if(if_expr.model(), old(self).state()),
                old(self).state(),
                final(self).state(),
            ),
        decreases if_expr, 0nat,
    {
        let ghost view = if_expr.model();
        proof {
            lemma_if_model(*if_expr);
        }
        let cond_insts = match self.gen_expr(&if_expr.cond_expr) {
            Ok(v) => v,
            Err(e) => {
                return Err(e);
            },
        };
        let (first_branch_insts, first_label) = match self.gen_cond_and_branch(
            cond_insts,
            &if_expr.true_branch,
        ) {
            Ok(v) => v,
            Err(e) => {
                return Err(e);
            },
        };
        let ghost after_first = self.state();
        let mut next_label = first_label;
        let mut branches_insts: Vec<Vec<Inst>> = Vec::new();
        let mut k: usize = 0;
        assert(block_views(branches_insts@) =~= Seq::<Seq<Inst>>::empty());
        while k < if_expr.else_if_branches.len()
            invariant
                k <= if_expr.else_if_branches@.len(),
                self.state().scopes.len() == old(self).state().scopes.len(),
                self.source() == old(self).source(),
                lower_else_ifs(view.else_ifs, 0, first_label, after_first) == chain_then(
                    block_views(branches_insts@),
                    lower_else_ifs(view.else_ifs, k as nat, next_label, self.state()),
                ),
            decreases if_expr.else_if_branches@.len() - k,
        {
            let branch = &if_expr.else_if_branches[k];
            let mut branch_insts: Vec<Inst> = Vec::new();
            branch_insts.push(Inst::Label { name: next_label });
            let cond_insts = match self.gen_expr(&branch.cond_expr) {
                Ok(v) => v,
                Err(e) => {
                    return Err(e);
                },
            };
            append_insts(&mut branch_insts, &cond_insts);
            assert(branch_insts@ =~= seq![Inst::Label { name: next_label }] + cond_insts@);
            let (block, je_label) = match self.gen_cond_and_branch(
                branch_insts,
                &branch.true_branch,
            ) {
                Ok(v) => v,
                Err(e) => {
                    return Err(e);
                },
            };
            proof {
                let next = lower_else_ifs(view.else_ifs, (k + 1) as nat, je_label, self.state());
                assert(block_views(branches_insts@.push(block)) =~= block_views(branches_insts@)
                    + seq![block@]);
                match next {
                    Ok(n) => {
                        assert(block_views(branches_insts@) + (seq![block@] + n.blocks)
                            =~= block_views(branches_insts@.push(block)) + n.blocks);
                    },
                    Err(_) => {},
                }
            }
            branches_insts.push(block);
            next_label = je_label;
            k += 1;
        }
        assert(block_views(branches_insts@) + Seq::<Seq<Inst>>::empty() =~= block_views(
            branches_insts@,
        ));
        let has_final = if_expr.final_branch.is_some();
        let mut final_branch_insts: Vec<Inst> = Vec::new();
        let chain_label = next_label;
        let ghost final_body: Seq<Inst> = Seq::empty();
        match &if_expr.final_branch {
            Some(final_branch) => {
                final_branch_insts.push(Inst::Label { name: next_label });
                next_label = match self.make_label() {
                    Ok(l) => l,
                    Err(e) => {
                        return Err(e);
                    },
                };
                let body = match self.gen_compound_expr(final_branch) {
                    Ok(v) => v,
                    Err(e) => {
                        return Err(e);
                    },
                };
                append_insts(&mut final_branch_insts, &body);
                proof {
                    final_body = body@;
                }
                assert(final_branch_insts@ =~= seq![Inst::Label { name: chain_label }]
                    + final_body);
            },
            None => {},
        }
        let exit_label = next_label;
        let mut if_insts: Vec<Inst> = Vec::new();
        append_insts(&mut if_insts, &first_branch_insts);
        if branches_insts.len() > 0 || has_final {
            if_insts.push(Inst::Jmp { label: exit_label });
        }
        let ghost head = if_insts@;
        let mut j: usize = 0;
        assert(block_views(branches_insts@).subrange(0, 0) =~= Seq::<Seq<Inst>>::empty());
        while j < branches_insts.len()
            invariant
                j <= branches_insts@.len(),
                if_insts@ == head + join_blocks(
                    block_views(branches_insts@).subrange(0, j as int),
                    exit_label,
                ),
            decreases branches_insts@.len() - j,
        {
            let ghost joined = join_blocks(
                block_views(branches_insts@).subrange(0, j as int),
                exit_label,
            );
            append_insts(&mut if_insts, &branches_insts[j]);
            if_insts.push(Inst::Jmp { label: exit_label });
            proof {
                let upto = block_views(branches_insts@).subrange(0, j + 1);
                assert(upto.drop_last() =~= block_views(branches_insts@).subrange(0, j as int));
                assert(upto.last() == branches_insts@[j as int]@);
                assert(if_insts@ =~= head + (joined + branches_insts@[j as int]@ + seq![
                    Inst::Jmp { label: exit_label },
                ]));
            }
            j += 1;
        }
        assert(block_views(branches_insts@).subrange(0, j as int) =~= block_views(
            branches_insts@,
        ));
        append_insts(&mut if_insts, &final_branch_insts);
        if_insts.push(Inst::Label { name: exit_label });
        proof {
            let joined = join_blocks(block_views(branches_insts@), exit_label);
            if has_final {
                assert(if_insts@ =~= first_branch_insts@ + seq![Inst::Jmp { label: exit_label }]
                    + joined + seq![Inst::Label { name: chain_label }] + final_body + seq![
                    Inst::Label { name: exit_label },
                ]);
            } else {
                assert(if_insts@ =~= first_branch_insts@ + (if branches_insts@.len() > 0 {
                    seq![Inst::Jmp { label: exit_label }]
                } else {
                    Seq::empty()
                }) + joined + seq![Inst::Label { name: exit_label }]);
            }
        }
        Ok(if_insts)
    }

    /// A guarded branch whose condition code is `cond_insts`: the code, a
    /// comparison with zero, a jump on zero to a fresh label, and the branch.
    /// Returns the label with the instructions.
    fn gen_cond_and_branch(&mut self, cond_insts: Vec<Inst>, branch: &CompoundExpr) -> (guarded:
        Result<(Vec<Inst>, Symbol), CompileError>)
        requires
            old(self).state().scopes.len() > 0,
        ensures
            final(self).source() == old(self).source(),
            match lower_guarded(cond_insts@, branch.model(), old(self).state()) {
                Ok(g) => match guarded {
                    Ok((insts, label)) => insts@ == g.insts && label == g.next_label && final(self).state() == g.state && g.state.scopes.len() == old(self).state().scopes.len(),
                    Err(_) => false,
                },
                Err(e) => guarded == Err::<(Vec<Inst>, Symbol), CompileError>(e),
            },
        decreases branch, 2nat,
    {
        let mut insts = cond_insts;
        insts.push(Inst::Cmp { reg: Reg::Eax, value: 0 });
        let next_branch_label = match self.make_label() {
            Ok(l) => l,
            Err(e) => {
                return Err(e);
            },
        };
        insts.push(Inst::Je { label: next_branch_label });
        let body = match self.gen_compound_expr(branch) {
            Ok(v) => v,
            Err(e) => {
                return Err(e);
            },
        };
        append_insts(&mut insts, &body);
        assert(insts@ =~= cond_insts@ + seq![
            compare_with(0),
            Inst::Je { label: next_branch_label },
        ] + body@);
        Ok((insts, next_branch_label))
    }

    #[verifier::rlimit(40)]
    fn gen_for_expr(&mut self, for_expr: &ForExpr) -> (insts: Result<Vec<Inst>, CompileError>)
        requires
            old(self).state().scopes.len() > 0,
        ensures
            final(self).source() == old(self).source(),
            lowering_outcome(
                insts,
                lower_for(for_expr.model(), old(self).state()),
                old(self).state(),
                final(self).state(),
            ),
        decreases for_expr, 0nat,
    {
        let start_label = match self.make_label() {
            Ok(l) => l,
            Err(e) => {
                return Err(e);
            },
        };
        let exit_label = match self.make_label() {
            Ok(l) => l,
            Err(e) => {
                return Err(e);
            },
        };
        let ghost labelled = self.state();
        self.enter_scope();
        self.set_innermost_loop_labels(start_label, exit_label);
        proof {
            assert(labelled.scopes.push(empty_scope()).drop_last() =~= labelled.scopes);
            assert(self.state() == enter_scope(labelled, loop_scope(start_label, exit_label)));
        }
        let ghost view = for_expr.model();
        let mut insts: Vec<Inst> = Vec::new();
        match &for_expr.iteration {
            Some(ForIteration::Conditional { cond_expr }) => {
                insts.push(Inst::Label { name: start_label });
                let cond_insts = match self.gen_expr(cond_expr) {
                    Ok(v) => v,
                    Err(e) => {
                        return Err(e);
                    },
                };
                append_insts(&mut insts, &cond_insts);
                insts.push(Inst::Cmp { reg: Reg::Eax, value: 0 });
                insts.push(Inst::Je { label: exit_label });
                let body = match self.gen_compound_expr(&for_expr.body) {
                    Ok(v) => v,
                    Err(e) => {
                        return Err(e);
                    },
                };
                append_insts(&mut insts, &body);
                insts.push(Inst::Jmp { label: start_label });
                insts.push(Inst::Label { name: exit_label });
                assert(insts@ =~= seq![Inst::Label { name: start_label }] + cond_insts@ + seq![
                    compare_with(0),
                    Inst::Je { label: exit_label },
                ] + body@ + loop_end(start_label, exit_label));
            },
            Some(ForIteration::Iterative { identifier, start_expr, end_expr, range_kind }) => {
                let def_insts = match self.gen_bind_def_expr(*identifier, start_expr) {
                    Ok(v) => v,
                    Err(e) => {
                        return Err(e);
                    },
                };
                append_insts(&mut insts, &def_insts);
                insts.push(Inst::Label { name: start_label });
                let bind_ref = BindRef { identifier: *identifier };
                let counter_insts = match self.gen_bind_ref_expr(bind_ref) {
                    Ok(v) => v,
                    Err(e) => {
                        return Err(e);
                    },
                };
                append_insts(&mut insts, &counter_insts);
                let value = match &**end_expr {
                    Expr::Const(Const::IntegerConstant { value }) => *value,
                    _ => {
                        return Err(CompileError::UnsupportedRangeEnd);
                    },
                };
                insts.push(Inst::Cmp { reg: Reg::Eax, value });
                match range_kind {
                    RangeKind::Inclusive => insts.push(Inst::Jg { label: exit_label }),
                    RangeKind::Exclusive => insts.push(Inst::Jge { label: exit_label }),
                }
                let body = match self.gen_compound_expr(&for_expr.body) {
                    Ok(v) => v,
                    Err(e) => {
                        return Err(e);
                    },
                };
                append_insts(&mut insts, &body);
                let slot = match self.get_in_scope(bind_ref) {
                    Some(d) => d,
                    None => {
                        return Err(CompileError::UnresolvedBinding { name: *identifier });
                    },
                };
                insts.push(
                    Inst::Mov {
                        target: Arg::Reg(Reg::Eax),
                        source: Arg::MemOffset { base: Reg::Rbp, offset: slot },
                    },
                );
                insts.push(Inst::Add { target: Arg::Reg(Reg::Eax), source: Arg::Imm(1) });
                insts.push(
                    Inst::Mov {
                        target: Arg::MemOffset { base: Reg::Rbp, offset: slot },
                        source: Arg::Reg(Reg::Eax),
                    },
                );
                insts.push(Inst::Jmp { label: start_label });
                insts.push(Inst::Label { name: exit_label });
                assert(insts@ =~= def_insts@ + seq![Inst::Label { name: start_label }]
                    + counter_insts@ + seq![
                    compare_with(value),
                    range_exit_jump(*range_kind, exit_label),
                ] + body@ + seq![
                    load_slot(slot),
                    Inst::Add { target: Arg::Reg(Reg::Eax), source: Arg::Imm(1) },
                    store_slot(slot),
                ] + loop_end(start_label, exit_label));
            },
            None => {
                insts.push(Inst::Label { name: start_label });
                let body = match self.gen_compound_expr(&for_expr.body) {
                    Ok(v) => v,
                    Err(e) => {
                        return Err(e);
                    },
                };
                append_insts(&mut insts, &body);
                insts.push(Inst::Jmp { label: start_label });
                insts.push(Inst::Label { name: exit_label });
                assert(insts@ =~= seq![Inst::Label { name: start_label }] + body@ + loop_end(
                    start_label,
                    exit_label,
                ));
            },
        }
        self.exit_scope();
        Ok(insts)
    }

    fn gen_break_expr(&mut self) -> (insts: Result<Vec<Inst>, CompileError>)
        ensures
            final(self).source() == old(self).source(),
            final(self).state() == old(self).state(),
            match find_exit_label(old(self).state().scopes) {
                Some(label) => match insts {
                    Ok(v) => v@ == seq![Inst::Jmp { label }],
                    Err(_) => false,
                },
                None => insts == Err::<Vec<Inst>, CompileError>(CompileError::BreakOutsideLoop),
            },
    {
        match self.get_innermost_exit_label() {
            Some(exit_label) => {
                let mut insts: Vec<Inst> = Vec::new();
                insts.push(Inst::Jmp { label: exit_label });
                assert(insts@ =~= seq![Inst::Jmp { label: exit_label }]);
                Ok(insts)
            },
            None => Err(CompileError::BreakOutsideLoop),
        }
    }

    fn gen_continue_expr(&mut self) -> (insts: Result<Vec<Inst>, CompileError>)
        ensures
            final(self).source() == old(self).source(),
            final(self).state() == old(self).state(),
            match find_start_label(old(self).state().scopes) {
                Some(label) => match insts {
                    Ok(v) => v@ == seq![Inst::Jmp { label }],
                    Err(_) => false,
                },
                None => insts == Err::<Vec<Inst>, CompileError>(
                    CompileError::ContinueOutsideLoop,
                ),
            },
    {
        match self.get_innermost_start_label() {
            Some(start_label) => {
                let mut insts: Vec<Inst> = Vec::new();
                insts.push(Inst::Jmp { label: start_label });
                assert(insts@ =~= seq![Inst::Jmp { label: start_label }]);
                Ok(insts)
            },
            None => Err(CompileError::ContinueOutsideLoop),
        }
    }

    fn gen_bind_def_expr(&mut self, identifier: Symbol, value: &Expr) -> (insts: Result<
        Vec<Inst>,
        CompileError,
    >)
        requires
            old(self).state().scopes.len() > 0,
        ensures
            final(self).source() == old(self).source(),
            lowering_outcome(
                insts,
                lower_bind_def(identifier, value.model(), old(self).state()),
                old(self).state(),
                final(self).state(),
            ),
        decreases value, 1nat,
    {
        let mut insts = match self.gen_expr(value) {
            Ok(v) => v,
            Err(e) => {
                return Err(e);
            },
        };
        let offset = match self.insert_in_scope(identifier) {
            Ok(d) => d,
            Err(e) => {
                return Err(e);
            },
        };
        insts.push(
            Inst::Mov {
                target: Arg::MemOffset { base: Reg::Rbp, offset },
                source: Arg::Reg(Reg::Eax),
            },
        );
        Ok(insts)
    }

    fn gen_bind_ref_expr(&mut self, bind_ref: BindRef) -> (insts: Result<Vec<Inst>, CompileError>)
        ensures
            final(self).source() == old(self).source(),
            lowering_outcome(
                insts,
                lower_bind_ref(bind_ref.identifier, old(self).state()),
                old(self).state(),
                final(self).state(),
            ),
    {
        match self.get_in_scope(bind_ref) {
            Some(bind_offset) => {
                let mut insts: Vec<Inst> = Vec::new();
                insts.push(
                    Inst::Mov {
                        target: Arg::Reg(Reg::Eax),
                        source: Arg::MemOffset { base: Reg::Rbp, offset: bind_offset },
                    },
                );
                assert(insts@ =~= seq![load_slot(bind_offset)]);
                Ok(insts)
            },
            None => Err(CompileError::UnresolvedBinding { name: bind_ref.identifier }),
        }
    }

    #[verifier::loop_isolation(false)]
    fn gen_compound_expr(&mut self, compound_expr: &CompoundExpr) -> (insts: Result<
        Vec<Inst>,
        CompileError,
    >)
        requires
            old(self).state().scopes.len() > 0,
        ensures
            final(self).source() == old(self).source(),
            lowering_outcome(
                insts,
                lower_compound(compound_expr.model(), old(self).state()),
                old(self).state(),
                final(self).state(),
            ),
        decreases compound_expr, 1nat,
    {
        self.enter_scope();
        let ghost entered = self.state();
        let ghost es = compound_expr.model();
        proof {
            lemma_compound_model(*compound_expr);
        }
        let mut insts: Vec<Inst> = Vec::new();
        let mut i: usize = 0;
        while i < compound_expr.exprs.len()
            invariant
                i <= compound_expr.exprs@.len(),
                self.state().scopes.len() == entered.scopes.len(),
                self.source() == old(self).source(),
                lower_exprs(es, 0, entered) == lowered_then(
                    insts@,
                    lower_exprs(es, i as nat, self.state()),
                ),
            decreases compound_expr.exprs@.len() - i,
        {
            let expr_insts = match self.gen_expr(&compound_expr.exprs[i]) {
                Ok(v) => v,
                Err(e) => {
                    return Err(e);
                },
            };
            proof {
                let next = lower_exprs(es, (i + 1) as nat, self.state());
                match next {
                    Ok(n) => {
                        assert(insts@ + (expr_insts@ + n.insts) =~= (insts@ + expr_insts@)
                            + n.insts);
                    },
                    Err(_) => {},
                }
            }
            append_insts(&mut insts, &expr_insts);
            i += 1;
        }
        assert(insts@ + Seq::<Inst>::empty() =~= insts@);
        self.exit_scope();
        Ok(insts)
    }

    fn gen_fn_call_expr(&mut self, fn_call_expr: FnCallExpr) -> (insts: Vec<Inst>)
        ensures
            final(self).source() == old(self).source(),
            final(self).state() == old(self).state(),
            insts@ == seq![Inst::Call { label: fn_call_expr.identifier }],
    {
        let mut insts: Vec<Inst> = Vec::new();
        insts.push(Inst::Call { label: fn_call_expr.identifier });
        assert(insts@ =~= seq![Inst::Call { label: fn_call_expr.identifier }]);
        insts
    }

    /// A fresh label, named `.L` and the label counter.
    fn make_label(&mut self) -> (label: Result<Symbol, CompileError>)
        ensures
            final(self).source() == old(self).source(),
            match make_label(old(self).state()) {
                Ok((symbol, after)) => label == Ok::<Symbol, CompileError>(symbol) && final(self).state() == after,
                Err(e) => label == Err::<Symbol, CompileError>(e),
            },
    {
        if self.label_counter == u64::MAX {
            return Err(CompileError::TooManyLabels);
        }
        let label_count = self.label_counter;
        self.label_counter += 1;
        let text = label_bytes(label_count);
        Ok(self.ctx.get_or_intern_str(text.as_slice()))
    }

    fn enter_scope(&mut self)
        ensures
            final(self).source() == old(self).source(),
            final(self).state() == enter_scope(old(self).state(), empty_scope()),
    {
        self.scope_stack.push(Scope::new());
        assert(scope_models(self.scope_stack@) =~= scope_models(old(self).scope_stack@).push(
            empty_scope(),
        ));
    }

    fn exit_scope(&mut self)
        ensures
            final(self).source() == old(self).source(),
            final(self).state() == exit_scope(old(self).state()),
    {
        self.scope_stack.pop();
        if self.scope_stack.len() == 0 {
            self.allocated_stack_bytes = 0;
            assert(scope_models(self.scope_stack@) =~= Seq::<ScopeView>::empty());
        } else {
            assert(scope_models(self.scope_stack@) =~= scope_models(
                old(self).scope_stack@,
            ).drop_last());
        }
    }

    /// Records in the innermost scope the labels of the loop that opened it.
    fn set_innermost_loop_labels(&mut self, start_label: Symbol, exit_label: Symbol)
        requires
            old(self).state().scopes.len() > 0,
            old(self).state().scopes.last() == empty_scope(),
        ensures
            final(self).source() == old(self).source(),
            final(self).state() == (GenState {
                scopes: old(self).state().scopes.drop_last().push(
                    loop_scope(start_label, exit_label),
                ),
                ..old(self).state()
            }),
    {
        let mut scope = self.scope_stack.pop().unwrap();
        scope.set_loop_labels(start_label, exit_label);
        self.scope_stack.push(scope);
        assert(scope_models(self.scope_stack@) =~= scope_models(
            old(self).scope_stack@,
        ).drop_last().push(loop_scope(start_label, exit_label)));
    }

    /// Claims the next stack slot for `identifier` in the innermost scope and
    /// returns its displacement from the frame base.
    fn insert_in_scope(&mut self, identifier: Symbol) -> (displacement: Result<i32, CompileError>)
        requires
            old(self).state().scopes.len() > 0,
        ensures
            final(self).source() == old(self).source(),
            match insert_in_scope(old(self).state(), identifier) {
                Ok((d, after)) => displacement == Ok::<i32, CompileError>(d) && final(self).state() == after && after.scopes.len() == old(self).state().scopes.len(),
                Err(e) => displacement == Err::<i32, CompileError>(e),
            },
    {
        let (bumped, displacement) = match claim_slot(self.allocated_stack_bytes) {
            Some(c) => c,
            None => {
                return Err(CompileError::FrameTooLarge);
            },
        };
        let mut scope = self.scope_stack.pop().unwrap();
        scope.insert(identifier, displacement);
        self.scope_stack.push(scope);
        self.allocated_stack_bytes = bumped;
        assert(scope_models(self.scope_stack@) =~= with_binding(
            scope_models(old(self).scope_stack@),
            identifier,
            displacement,
        ));
        Ok(displacement)
    }

    /// The displacement of the binding of that name that is in scope.
    fn get_in_scope(&self, bind_ref: BindRef) -> (displacement: Option<i32>)
        ensures
            displacement == find_offset(self.state().scopes, bind_ref.identifier),
    {
        lookup_offset(&self.scope_stack, bind_ref.identifier)
    }

    fn get_innermost_exit_label(&self) -> (label: Option<Symbol>)
        ensures
            label == find_exit_label(self.state().scopes),
    {
        lookup_exit_label(&self.scope_stack)
    }

    fn get_innermost_start_label(&self) -> (label: Option<Symbol>)
        ensures
            label == find_start_label(self.state().scopes),
    {
        lookup_start_label(&self.scope_stack)
    }
}

} // verus!
