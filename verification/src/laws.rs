//! What holds of every compilation, proved from the definitions of parsing
//! and lowering.

use vstd::prelude::*;
use crate::assembly::program_text;
use crate::ast::{
    BranchView, Const, DeclView, ExprView, ForIterationView, ForView, FunctionView, IfView, Type,
};
use crate::compiler_context::snippet;
use crate::codegen::{
    Arg, GenState, Inst, Lowered, Reg, compare_with, enter_scope, epilogue, exit_scope,
    initial_state, join_blocks, load_constant, lower_bind_def, lower_compound, lower_decl,
    lower_decls, lower_else_ifs, lower_expr, lower_exprs, lower_for, lower_function,
    lower_guarded, lower_if, lower_program, make_label, prologue, store_slot,
};
use crate::driver::{compile_text, lossy_text};
use crate::error::CompileError;
use crate::interner::{
    Symbol, interned_symbol, lemma_intern_extends, lemma_interned_symbol_resolves,
};
use crate::parser::{
    Input, Parsed, advanced, constant_value, name_symbol, names_with_token, parse_block,
    parse_compound_expr, parse_decl, parse_decls, parse_expr, parse_exprs, parse_function,
    parse_program, parse_statement_expr,
};
use crate::scanner::{Delim, Keyword, Token, TokenKind, scan_tokens};
use crate::scope::{
    ScopeView, empty_scope, find_exit_label, find_start_label, loop_scope, slot_displacement,
};
use crate::text::{bytes_of, decimal_text, label_text, next_counter};

verus! {

/// A function with an empty body.
pub open spec fn empty_function(name: Symbol, return_type: Type) -> DeclView {
    DeclView {
        identifier: name,
        value: ExprView::Function(
            FunctionView { return_type, parameters: Seq::empty(), body: Seq::empty() },
        ),
    }
}

/// A function whose body is one integer literal.
pub open spec fn constant_function(name: Symbol, value: i32) -> DeclView {
    DeclView {
        identifier: name,
        value: ExprView::Function(
            FunctionView {
                return_type: Type::I32,
                parameters: Seq::empty(),
                body: seq![ExprView::Const(Const::IntegerConstant { value })],
            },
        ),
    }
}

/// A program of one function with an empty body lowers to exactly its label,
/// the prologue and the epilogue, whatever its name and return type.
pub proof fn law_empty_function(name: Symbol, return_type: Type, names: Seq<Seq<u8>>)
    ensures
        lower_program(seq![empty_function(name, return_type)], initial_state(names)) == Ok::<
            Lowered,
            CompileError,
        >(
            Lowered {
                insts: seq![
                    Inst::Label { name },
                    Inst::Push { source: Reg::Rbp },
                    Inst::Mov { target: Arg::Reg(Reg::Rbp), source: Arg::Reg(Reg::Rsp) },
                    Inst::Pop { target: Reg::Rbp },
                    Inst::Ret,
                ],
                state: initial_state(names),
            },
        ),
{
    let st = initial_state(names);
    let decls = seq![empty_function(name, return_type)];
    let body = Seq::<ExprView>::empty();
    let opened = enter_scope(st, empty_scope());
    let inner = enter_scope(opened, empty_scope());
    assert(lower_exprs(body, 0, inner) == Ok::<Lowered, CompileError>(
        Lowered { insts: Seq::empty(), state: inner },
    ));
    assert(inner.scopes.drop_last() =~= opened.scopes);
    assert(exit_scope(inner) == opened);
    assert(lower_compound(body, opened) == Ok::<Lowered, CompileError>(
        Lowered { insts: Seq::empty(), state: opened },
    ));
    assert(exit_scope(opened).scopes =~= st.scopes);
    assert(exit_scope(opened) == st);
    let function = lower_function(body, st);
    assert(function == Ok::<Lowered, CompileError>(
        Lowered { insts: prologue() + Seq::<Inst>::empty() + epilogue(), state: st },
    ));
    assert(lower_decls(decls, 1, st) == Ok::<Lowered, CompileError>(
        Lowered { insts: Seq::empty(), state: st },
    ));
    let one = lower_decl(decls[0], st);
    assert(one == Ok::<Lowered, CompileError>(
        Lowered {
            insts: seq![Inst::Label { name }] + (prologue() + Seq::<Inst>::empty() + epilogue()),
            state: st,
        },
    ));
    let all = lower_decls(decls, 0, st);
    assert(all->Ok_0.insts =~= seq![
        Inst::Label { name },
        Inst::Push { source: Reg::Rbp },
        Inst::Mov { target: Arg::Reg(Reg::Rbp), source: Arg::Reg(Reg::Rsp) },
        Inst::Pop { target: Reg::Rbp },
        Inst::Ret,
    ]);
}

/// A function whose sole body expression is the integer literal `value`
/// lowers to its label, the prologue, one load of `value` into the
/// accumulator, and the epilogue.
pub proof fn law_constant_function(name: Symbol, value: i32, names: Seq<Seq<u8>>)
    ensures
        lower_program(seq![constant_function(name, value)], initial_state(names)) == Ok::<
            Lowered,
            CompileError,
        >(
            Lowered {
                insts: seq![
                    Inst::Label { name },
                    Inst::Push { source: Reg::Rbp },
                    Inst::Mov { target: Arg::Reg(Reg::Rbp), source: Arg::Reg(Reg::Rsp) },
                    Inst::Mov { target: Arg::Reg(Reg::Eax), source: Arg::Imm(value) },
                    Inst::Pop { target: Reg::Rbp },
                    Inst::Ret,
                ],
                state: initial_state(names),
            },
        ),
{
    let st = initial_state(names);
    let decls = seq![constant_function(name, value)];
    let body = seq![ExprView::Const(Const::IntegerConstant { value })];
    let opened = enter_scope(st, empty_scope());
    let inner = enter_scope(opened, empty_scope());
    assert(lower_exprs(body, 1, inner) == Ok::<Lowered, CompileError>(
        Lowered { insts: Seq::empty(), state: inner },
    ));
    assert(lower_expr(body[0], inner) == Ok::<Lowered, CompileError>(
        Lowered { insts: seq![load_constant(value)], state: inner },
    ));
    let loaded = seq![load_constant(value)] + Seq::<Inst>::empty();
    assert(lower_exprs(body, 0, inner) == Ok::<Lowered, CompileError>(
        Lowered { insts: loaded, state: inner },
    ));
    assert(inner.scopes.drop_last() =~= opened.scopes);
    assert(exit_scope(inner) == opened);
    assert(lower_compound(body, opened) == Ok::<Lowered, CompileError>(
        Lowered { insts: loaded, state: opened },
    ));
    assert(exit_scope(opened).scopes =~= st.scopes);
    assert(exit_scope(opened) == st);
    let function = lower_function(body, st);
    assert(function == Ok::<Lowered, CompileError>(
        Lowered { insts: prologue() + loaded + epilogue(), state: st },
    ));
    assert(lower_decls(decls, 1, st) == Ok::<Lowered, CompileError>(
        Lowered { insts: Seq::empty(), state: st },
    ));
    let one = lower_decl(decls[0], st);
    assert(one == Ok::<Lowered, CompileError>(
        Lowered {
            insts: seq![Inst::Label { name }] + (prologue() + loaded + epilogue()),
            state: st,
        },
    ));
    let all = lower_decls(decls, 0, st);
    assert(all->Ok_0.insts =~= seq![
        Inst::Label { name },
        Inst::Push { source: Reg::Rbp },
        Inst::Mov { target: Arg::Reg(Reg::Rbp), source: Arg::Reg(Reg::Rsp) },
        Inst::Mov { target: Arg::Reg(Reg::Eax), source: Arg::Imm(value) },
        Inst::Pop { target: Reg::Rbp },
        Inst::Ret,
    ]);
}

/// Compiling the same source text twice gives the same text: the result is
/// a function of the source alone, and every compilation numbers its labels
/// from zero.
pub proof fn law_compile_is_repeatable(first: &str, second: &str)
    requires
        first@ == second@,
    ensures
        lossy_text(compile_text(bytes_of(first))) == lossy_text(compile_text(bytes_of(second))),
{
}

/// How many stack slots lowering `e` claims: one for each binding
/// definition and one for the counter of each counted loop.
pub open spec fn binding_count(e: ExprView) -> nat
    decreases e, 0nat,
{
    match e {
        ExprView::Semi(inner) => binding_count(*inner),
        ExprView::If(i) => if_binding_count(i),
        ExprView::For(f) => for_binding_count(f),
        ExprView::BindDef { identifier, value } => binding_count(*value) + 1,
        ExprView::Compound(es) => bindings_from(es, 0),
        _ => 0,
    }
}

/// The slots claimed by the expressions of `es` from index `from` on.
pub open spec fn bindings_from(es: Seq<ExprView>, from: nat) -> nat
    decreases es, es.len() - from,
{
    if from >= es.len() {
        0
    } else {
        binding_count(es[from as int]) + bindings_from(es, from + 1)
    }
}

/// The slots claimed by the `else if` branches from index `from` on.
pub open spec fn branch_bindings_from(branches: Seq<BranchView>, from: nat) -> nat
    decreases branches, branches.len() - from,
{
    if from >= branches.len() {
        0
    } else {
        binding_count(branches[from as int].cond) + bindings_from(branches[from as int].body, 0)
            + branch_bindings_from(branches, from + 1)
    }
}

pub open spec fn if_binding_count(i: IfView) -> nat
    decreases i, 0nat,
{
    binding_count(*i.cond) + bindings_from(i.true_branch, 0) + branch_bindings_from(i.else_ifs, 0)
        + match i.final_branch {
        Some(f) => bindings_from(f, 0),
        None => 0,
    }
}

pub open spec fn for_binding_count(f: ForView) -> nat
    decreases f, 0nat,
{
    bindings_from(f.body, 0) + match f.iteration {
        None => 0,
        Some(ForIterationView::Conditional { cond }) => binding_count(*cond),
        Some(ForIterationView::Iterative { identifier, start, end, range_kind }) => binding_count(
            *start,
        ) + 1,
    }
}

/// How many labels lowering `e` makes: one for each branch of a conditional
/// chain, two for each loop.
pub open spec fn label_count(e: ExprView) -> nat
    decreases e, 0nat,
{
    match e {
        ExprView::Semi(inner) => label_count(*inner),
        ExprView::If(i) => branch_count(i) + nested_label_count(i),
        ExprView::For(f) => for_label_count(f),
        ExprView::BindDef { identifier, value } => label_count(*value),
        ExprView::Compound(es) => labels_from(es, 0),
        _ => 0,
    }
}

/// The labels made by the expressions of `es` from index `from` on.
pub open spec fn labels_from(es: Seq<ExprView>, from: nat) -> nat
    decreases es, es.len() - from,
{
    if from >= es.len() {
        0
    } else {
        label_count(es[from as int]) + labels_from(es, from + 1)
    }
}

/// The labels made inside the `else if` branches from index `from` on, by
/// their conditions and bodies.
pub open spec fn branch_labels_from(branches: Seq<BranchView>, from: nat) -> nat
    decreases branches, branches.len() - from,
{
    if from >= branches.len() {
        0
    } else {
        label_count(branches[from as int].cond) + labels_from(branches[from as int].body, 0)
            + branch_labels_from(branches, from + 1)
    }
}

/// The branches of a conditional chain: the first, each `else if`, and the
/// final `else` if there is one.
pub open spec fn branch_count(i: IfView) -> nat {
    1 + i.else_ifs.len() + (if i.final_branch.is_some() {
        1nat
    } else {
        0nat
    })
}

/// The labels made inside a conditional chain, by its conditions and bodies.
pub open spec fn nested_label_count(i: IfView) -> nat
    decreases i, 0nat,
{
    label_count(*i.cond) + labels_from(i.true_branch, 0) + branch_labels_from(i.else_ifs, 0)
        + match i.final_branch {
        Some(f) => labels_from(f, 0),
        None => 0,
    }
}

pub open spec fn for_label_count(f: ForView) -> nat
    decreases f, 0nat,
{
    2 + labels_from(f.body, 0) + match f.iteration {
        None => 0,
        Some(ForIterationView::Conditional { cond }) => label_count(*cond),
        Some(ForIterationView::Iterative { identifier, start, end, range_kind }) => label_count(
            *start,
        ),
    }
}

/// What lowering does to the state besides interning label names: as many
/// scopes are open after as before, the label counter is up by `labels`,
/// and `bindings` more slots of 4 bytes are claimed.
pub open spec fn moved_on(before: GenState, after: GenState, bindings: int, labels: int) -> bool {
    &&& after.scopes.len() == before.scopes.len()
    &&& after.label_counter == before.label_counter + labels
    &&& after.allocated_stack_bytes == before.allocated_stack_bytes + 4 * bindings
}

/// Lowering an expression claims one slot for each of its bindings and makes
/// one label for each branch and two for each loop; slots are not given back
/// when a scope closes.
pub proof fn law_lower_expr_counts(e: ExprView, st: GenState)
    requires
        st.scopes.len() > 0,
    ensures
        match lower_expr(e, st) {
            Ok(l) => moved_on(st, l.state, binding_count(e) as int, label_count(e) as int),
            Err(_) => true,
        },
    decreases e, 0nat,
{
    match e {
        ExprView::Semi(inner) => law_lower_expr_counts(*inner, st),
        ExprView::If(i) => law_lower_if_counts(i, st),
        ExprView::For(f) => law_lower_for_counts(f, st),
        ExprView::BindDef { identifier, value } => law_lower_bind_def_counts(
            identifier,
            *value,
            st,
        ),
        ExprView::Compound(es) => law_lower_compound_counts(es, st),
        _ => {},
    }
}

/// A binding definition claims the slot after those that its value claims.
pub proof fn law_lower_bind_def_counts(identifier: Symbol, value: ExprView, st: GenState)
    requires
        st.scopes.len() > 0,
    ensures
        match lower_bind_def(identifier, value, st) {
            Ok(l) => moved_on(st, l.state, (binding_count(value) + 1) as int, label_count(value) as int),
            Err(_) => true,
        },
    decreases value, 1nat,
{
    law_lower_expr_counts(value, st);
}

pub proof fn law_lower_exprs_counts(es: Seq<ExprView>, from: nat, st: GenState)
    requires
        st.scopes.len() > 0,
    ensures
        match lower_exprs(es, from, st) {
            Ok(l) => moved_on(st, l.state, bindings_from(es, from) as int, labels_from(es, from) as int),
            Err(_) => true,
        },
    decreases es, es.len() - from,
{
    if from < es.len() {
        law_lower_expr_counts(es[from as int], st);
        match lower_expr(es[from as int], st) {
            Ok(first) => law_lower_exprs_counts(es, from + 1, first.state),
            Err(_) => {},
        }
    }
}

pub proof fn law_lower_compound_counts(es: Seq<ExprView>, st: GenState)
    requires
        st.scopes.len() > 0,
    ensures
        match lower_compound(es, st) {
            Ok(l) => moved_on(st, l.state, bindings_from(es, 0) as int, labels_from(es, 0) as int),
            Err(_) => true,
        },
    decreases es, es.len() + 1,
{
    law_lower_exprs_counts(es, 0, enter_scope(st, empty_scope()));
}

proof fn lemma_lower_guarded_counts(cond_insts: Seq<Inst>, body: Seq<ExprView>, st: GenState)
    requires
        st.scopes.len() > 0,
    ensures
        match lower_guarded(cond_insts, body, st) {
            Ok(g) => moved_on(st, g.state, bindings_from(body, 0) as int, (labels_from(body, 0) + 1) as int),
            Err(_) => true,
        },
    decreases body, body.len() + 2,
{
    match make_label(st) {
        Ok((label, labelled)) => law_lower_compound_counts(body, labelled),
        Err(_) => {},
    }
}

proof fn lemma_lower_else_ifs_counts(
    branches: Seq<BranchView>,
    from: nat,
    next_label: Symbol,
    st: GenState,
)
    requires
        st.scopes.len() > 0,
        from <= branches.len(),
    ensures
        match lower_else_ifs(branches, from, next_label, st) {
            Ok(c) => moved_on(
                st,
                c.state,
                branch_bindings_from(branches, from) as int,
                branch_labels_from(branches, from) + (branches.len() - from),
            ) && c.blocks.len() == branches.len() - from,
            Err(_) => true,
        },
    decreases branches, branches.len() - from,
{
    if from < branches.len() {
        law_lower_expr_counts(branches[from as int].cond, st);
        match lower_expr(branches[from as int].cond, st) {
            Ok(c) => {
                let cond_insts = seq![Inst::Label { name: next_label }] + c.insts;
                lemma_lower_guarded_counts(cond_insts, branches[from as int].body, c.state);
                match lower_guarded(cond_insts, branches[from as int].body, c.state) {
                    Ok(g) => {
                        lemma_lower_else_ifs_counts(branches, from + 1, g.next_label, g.state);
                        match lower_else_ifs(branches, from + 1, g.next_label, g.state) {
                            Ok(rest) => {
                                let whole = lower_else_ifs(branches, from, next_label, st);
                                assert(whole->Ok_0.state == rest.state);
                                assert(whole->Ok_0.blocks == seq![g.insts] + rest.blocks);
                                assert(branch_labels_from(branches, from) == label_count(
                                    branches[from as int].cond,
                                ) + labels_from(branches[from as int].body, 0)
                                    + branch_labels_from(branches, from + 1));
                                assert(branch_bindings_from(branches, from) == binding_count(
                                    branches[from as int].cond,
                                ) + bindings_from(branches[from as int].body, 0)
                                    + branch_bindings_from(branches, from + 1));
                            },
                            Err(_) => {},
                        }
                    },
                    Err(_) => {},
                }
            },
            Err(_) => {},
        }
    }
}

/// A conditional chain makes one label for each of its branches, besides
/// those that its conditions and bodies make: one that each guard jumps to,
/// and one more for the exit where a final `else` stands.
pub proof fn law_lower_if_counts(i: IfView, st: GenState)
    requires
        st.scopes.len() > 0,
    ensures
        match lower_if(i, st) {
            Ok(l) => moved_on(
                st,
                l.state,
                if_binding_count(i) as int,
                (branch_count(i) + nested_label_count(i)) as int,
            ),
            Err(_) => true,
        },
    decreases i, 0nat,
{
    law_lower_expr_counts(*i.cond, st);
    match lower_expr(*i.cond, st) {
        Ok(c) => {
            lemma_lower_guarded_counts(c.insts, i.true_branch, c.state);
            match lower_guarded(c.insts, i.true_branch, c.state) {
                Ok(first) => {
                    lemma_lower_else_ifs_counts(i.else_ifs, 0, first.next_label, first.state);
                    match lower_else_ifs(i.else_ifs, 0, first.next_label, first.state) {
                        Ok(chain) => match i.final_branch {
                            Some(final_branch) => match make_label(chain.state) {
                                Ok((exit, labelled)) => law_lower_compound_counts(
                                    final_branch,
                                    labelled,
                                ),
                                Err(_) => {},
                            },
                            None => {},
                        },
                        Err(_) => {},
                    }
                },
                Err(_) => {},
            }
        },
        Err(_) => {},
    }
}

/// A chain without a final `else` makes, besides the labels of its
/// conditions and bodies, one label for each `else if` and one more, which
/// the last guard jumps to and which is the shared exit.
pub proof fn law_chain_without_else_label_count(i: IfView, st: GenState)
    requires
        st.scopes.len() > 0,
        i.final_branch.is_none(),
    ensures
        match lower_if(i, st) {
            Ok(l) => l.state.label_counter == st.label_counter + i.else_ifs.len() + 1
                + nested_label_count(i),
            Err(_) => true,
        },
{
    law_lower_if_counts(i, st);
}

/// A loop makes two labels, and a counted loop claims a slot for its counter.
pub proof fn law_lower_for_counts(f: ForView, st: GenState)
    requires
        st.scopes.len() > 0,
    ensures
        match lower_for(f, st) {
            Ok(l) => moved_on(st, l.state, for_binding_count(f) as int, for_label_count(f) as int),
            Err(_) => true,
        },
    decreases f, 0nat,
{
    match make_label(st) {
        Ok((start, st1)) => match make_label(st1) {
            Ok((exit, st2)) => {
                let inside = enter_scope(st2, loop_scope(start, exit));
                match f.iteration {
                    None => law_lower_compound_counts(f.body, inside),
                    Some(ForIterationView::Conditional { cond }) => {
                        law_lower_expr_counts(*cond, inside);
                        match lower_expr(*cond, inside) {
                            Ok(c) => law_lower_compound_counts(f.body, c.state),
                            Err(_) => {},
                        }
                    },
                    Some(ForIterationView::Iterative { identifier, start: first, end, range_kind }) => {
                        law_lower_bind_def_counts(identifier, *first, inside);
                        match lower_bind_def(identifier, *first, inside) {
                            Ok(d) => law_lower_compound_counts(f.body, d.state),
                            Err(_) => {},
                        }
                    },
                }
            },
            Err(_) => {},
        },
        Err(_) => {},
    }
}

/// The slot of a binding lies 4 bytes below the slots claimed before it in
/// the function: offsets grow by 4 in the order of definition.
pub proof fn law_binding_slots_are_consecutive(identifier: Symbol, value: ExprView, st: GenState)
    requires
        st.scopes.len() > 0,
    ensures
        match lower_bind_def(identifier, value, st) {
            Ok(l) => l.insts.last() == store_slot(
                slot_displacement(l.state.allocated_stack_bytes),
            ) && l.state.allocated_stack_bytes == st.allocated_stack_bytes + 4 * binding_count(
                value,
            ) + 4,
            Err(_) => true,
        },
{
    law_lower_expr_counts(value, st);
}

/// A function takes from the stack 4 bytes for each binding in its body,
/// sibling scopes included, and gives them back before it returns; a
/// function without bindings leaves the stack pointer alone.
pub proof fn law_frame_size(body: Seq<ExprView>, st: GenState)
    requires
        st.scopes.len() == 0,
        st.allocated_stack_bytes == 0,
    ensures
        match lower_function(body, st) {
            Ok(l) => match lower_compound(body, enter_scope(st, empty_scope())) {
                Ok(b) => {
                    let size = 4 * bindings_from(body, 0);
                    &&& size <= i32::MAX
                    &&& l.state.allocated_stack_bytes == 0
                    &&& l.state.scopes.len() == 0
                    &&& size == 0 ==> l.insts == prologue() + b.insts + epilogue()
                    &&& size != 0 ==> l.insts == prologue() + seq![
                        Inst::Sub { target: Arg::Reg(Reg::Rsp), source: Arg::Imm(size as i32) },
                    ] + b.insts + seq![
                        Inst::Add { target: Arg::Reg(Reg::Rsp), source: Arg::Imm(size as i32) },
                    ] + epilogue()
                },
                Err(_) => false,
            },
            Err(_) => true,
        },
{
    law_lower_compound_counts(body, enter_scope(st, empty_scope()));
}

/// A conditional without `else if` and `else`.
pub open spec fn lone_if(cond: ExprView, body: Seq<ExprView>) -> IfView {
    IfView { cond: Box::new(cond), true_branch: body, else_ifs: Seq::empty(), final_branch: None }
}

/// A lone `if` has one jump on zero and no jump around its body: the label
/// that its guard jumps to is the exit label, and the body falls through to
/// it.
pub proof fn law_lone_if_falls_through(cond: ExprView, body: Seq<ExprView>, st: GenState)
    ensures
        match lower_if(lone_if(cond, body), st) {
            Ok(l) => match lower_expr(cond, st) {
                Ok(c) => match make_label(c.state) {
                    Ok((next, labelled)) => match lower_compound(body, labelled) {
                        Ok(b) => l.insts == c.insts + seq![
                            compare_with(0),
                            Inst::Je { label: next },
                        ] + b.insts + seq![Inst::Label { name: next }] && l.state == b.state,
                        Err(_) => false,
                    },
                    Err(_) => false,
                },
                Err(_) => false,
            },
            Err(_) => true,
        },
{
    let i = lone_if(cond, body);
    match lower_expr(cond, st) {
        Ok(c) => match lower_guarded(c.insts, body, c.state) {
            Ok(first) => {
                let chain = lower_else_ifs(i.else_ifs, 0, first.next_label, first.state);
                assert(chain->Ok_0.blocks =~= Seq::<Seq<Inst>>::empty());
                assert(join_blocks(Seq::<Seq<Inst>>::empty(), first.next_label) =~= Seq::<
                    Inst,
                >::empty());
                let l = lower_if(i, st)->Ok_0;
                assert(l.insts =~= first.insts + seq![Inst::Label { name: first.next_label }]);
            },
            Err(_) => {},
        },
        Err(_) => {},
    }
}

/// In a chain of two or more branches the first branch is followed by a
/// jump to the exit label, which is the label that closes the chain.
pub proof fn law_chain_first_branch_jumps_to_exit(i: IfView, st: GenState)
    requires
        branch_count(i) >= 2,
    ensures
        match lower_if(i, st) {
            Ok(l) => match lower_expr(*i.cond, st) {
                Ok(c) => match lower_guarded(c.insts, i.true_branch, c.state) {
                    Ok(first) => {
                        &&& first.insts.len() < l.insts.len()
                        &&& l.insts.subrange(0, first.insts.len() as int) == first.insts
                        &&& l.insts.last() is Label
                        &&& l.insts[first.insts.len() as int] == Inst::Jmp {
                            label: l.insts.last()->name,
                        }
                    },
                    Err(_) => false,
                },
                Err(_) => false,
            },
            Err(_) => true,
        },
{
    match lower_expr(*i.cond, st) {
        Ok(c) => match lower_guarded(c.insts, i.true_branch, c.state) {
            Ok(first) => {
                lemma_lower_else_ifs_len(i.else_ifs, 0, first.next_label, first.state);
                match lower_if(i, st) {
                    Ok(l) => {
                        assert(l.insts.subrange(0, first.insts.len() as int) =~= first.insts);
                    },
                    Err(_) => {},
                }
            },
            Err(_) => {},
        },
        Err(_) => {},
    }
}

/// A chain has one block for each of its `else if` branches.
proof fn lemma_lower_else_ifs_len(
    branches: Seq<BranchView>,
    from: nat,
    next_label: Symbol,
    st: GenState,
)
    requires
        from <= branches.len(),
    ensures
        match lower_else_ifs(branches, from, next_label, st) {
            Ok(c) => c.blocks.len() == branches.len() - from,
            Err(_) => true,
        },
    decreases branches.len() - from,
{
    if from < branches.len() {
        match lower_expr(branches[from as int].cond, st) {
            Ok(c) => {
                let cond_insts = seq![Inst::Label { name: next_label }] + c.insts;
                match lower_guarded(cond_insts, branches[from as int].body, c.state) {
                    Ok(g) => lemma_lower_else_ifs_len(branches, from + 1, g.next_label, g.state),
                    Err(_) => {},
                }
            },
            Err(_) => {},
        }
    }
}

/// In a conditional chain every `else if` block is followed by a jump to
/// the shared exit label: the block at index `k` stands in the joined
/// blocks after those before it, with the jump behind it.
pub proof fn law_chain_blocks_jump_to_exit(blocks: Seq<Seq<Inst>>, exit: Symbol, k: int)
    requires
        0 <= k < blocks.len(),
    ensures
        ({
            let joined = join_blocks(blocks, exit);
            let start = join_blocks(blocks.subrange(0, k), exit).len() as int;
            &&& start + blocks[k].len() < joined.len()
            &&& joined.subrange(start, start + blocks[k].len()) == blocks[k]
            &&& joined[start + blocks[k].len()] == Inst::Jmp { label: exit }
        }),
    decreases blocks.len(),
{
    let joined = join_blocks(blocks, exit);
    let before = join_blocks(blocks.drop_last(), exit);
    if k == blocks.len() - 1 {
        assert(blocks.subrange(0, k) =~= blocks.drop_last());
        assert(joined.subrange(before.len() as int, (before.len() + blocks[k].len()) as int)
            =~= blocks[k]);
    } else {
        law_chain_blocks_jump_to_exit(blocks.drop_last(), exit, k);
        assert(blocks.drop_last().subrange(0, k) =~= blocks.subrange(0, k));
        let start = join_blocks(blocks.subrange(0, k), exit).len() as int;
        assert(joined.subrange(start, start + blocks[k].len()) =~= before.subrange(
            start,
            start + blocks[k].len(),
        ));
    }
}

/// In the body of a loop `break` finds the loop's exit label and `continue`
/// its start label, whatever loops enclose it: the innermost loop wins.
pub proof fn law_innermost_loop_wins(scopes: Seq<ScopeView>, start: Symbol, exit: Symbol)
    ensures
        find_exit_label(scopes.push(loop_scope(start, exit)).push(empty_scope())) == Some(exit),
        find_start_label(scopes.push(loop_scope(start, exit)).push(empty_scope())) == Some(start),
{
    let inner = scopes.push(loop_scope(start, exit)).push(empty_scope());
    assert(inner.drop_last() =~= scopes.push(loop_scope(start, exit)));
    reveal_with_fuel(find_exit_label, 2);
    reveal_with_fuel(find_start_label, 2);
}

/// The names of two labels in a row differ.
pub proof fn lemma_label_names_differ(counter: u64)
    requires
        counter < u64::MAX,
    ensures
        label_text(counter) != label_text(next_counter(counter)),
{
    let a = decimal_text(counter as nat);
    let b = decimal_text((counter + 1) as nat);
    assert(a.last() == (48 + counter % 10) as u8);
    assert(b.last() == (48 + (counter + 1) % 10) as u8);
    assert(label_text(counter).last() == a.last());
    assert(label_text(next_counter(counter)).last() == b.last());
}

/// An infinite loop whose body is `break`.
pub open spec fn loop_with_break() -> ForView {
    ForView { iteration: None, body: seq![ExprView::Break] }
}

/// An infinite loop around a lone `break` is its start label, the jump of
/// the `break` to its exit label, the jump back to the start, and the exit
/// label; the two labels differ, so the `break` does not jump back.
pub proof fn law_break_jumps_to_exit(st: GenState)
    requires
        st.label_counter < u64::MAX - 1,
        st.names.len() + 2 <= usize::MAX,
    ensures
        match make_label(st) {
            Ok((start, st1)) => match make_label(st1) {
                Ok((exit, st2)) => start != exit && lower_for(loop_with_break(), st) == Ok::<
                    Lowered,
                    CompileError,
                >(
                    Lowered {
                        insts: seq![
                            Inst::Label { name: start },
                            Inst::Jmp { label: exit },
                            Inst::Jmp { label: start },
                            Inst::Label { name: exit },
                        ],
                        state: exit_scope(enter_scope(st2, loop_scope(start, exit))),
                    },
                ),
                Err(_) => false,
            },
            Err(_) => false,
        },
{
    let (start, st1) = make_label(st)->Ok_0;
    let (exit, st2) = make_label(st1)->Ok_0;
    let start_text = label_text(st.label_counter);
    let exit_text = label_text(st1.label_counter);
    lemma_label_names_differ(st.label_counter);
    lemma_interned_symbol_resolves(st.names, start_text);
    lemma_interned_symbol_resolves(st1.names, exit_text);
    lemma_intern_extends(st.names, start_text);
    lemma_intern_extends(st1.names, exit_text);
    assert(start != exit);
    let inside = enter_scope(st2, loop_scope(start, exit));
    let body = seq![ExprView::Break];
    let opened = enter_scope(inside, empty_scope());
    law_innermost_loop_wins(st2.scopes, start, exit);
    assert(lower_expr(body[0], opened) == Ok::<Lowered, CompileError>(
        Lowered { insts: seq![Inst::Jmp { label: exit }], state: opened },
    ));
    assert(lower_exprs(body, 1, opened) == Ok::<Lowered, CompileError>(
        Lowered { insts: Seq::empty(), state: opened },
    ));
    let jump = seq![Inst::Jmp { label: exit }] + Seq::<Inst>::empty();
    assert(lower_exprs(body, 0, opened) == Ok::<Lowered, CompileError>(
        Lowered { insts: jump, state: opened },
    ));
    assert(opened.scopes.drop_last() =~= inside.scopes);
    assert(exit_scope(opened) == inside);
    assert(lower_compound(body, inside) == Ok::<Lowered, CompileError>(
        Lowered { insts: jump, state: inside },
    ));
    let l = lower_for(loop_with_break(), st)->Ok_0;
    assert(l.insts =~= seq![
        Inst::Label { name: start },
        Inst::Jmp { label: exit },
        Inst::Jmp { label: start },
        Inst::Label { name: exit },
    ]);
}

/// A number has at least one digit.
proof fn lemma_decimal_text_len(n: nat)
    ensures
        decimal_text(n).len() >= 1,
        n >= 10 ==> decimal_text(n).len() >= 2,
    decreases n,
{
    if n >= 10 {
        lemma_decimal_text_len(n / 10);
    }
}

/// Two numbers with the same decimal text are the same number.
pub proof fn lemma_decimal_text_is_one_to_one(a: nat, b: nat)
    requires
        decimal_text(a) == decimal_text(b),
    ensures
        a == b,
    decreases a,
{
    lemma_decimal_text_len(a);
    lemma_decimal_text_len(b);
    if a >= 10 {
        assert(b >= 10) by {
            if b < 10 {
                assert(decimal_text(b).len() == 1);
            }
        }
        assert(decimal_text(a).drop_last() =~= decimal_text(a / 10));
        assert(decimal_text(b).drop_last() =~= decimal_text(b / 10));
        lemma_decimal_text_is_one_to_one(a / 10, b / 10);
        assert(decimal_text(a).last() == (48 + a % 10) as u8);
        assert(decimal_text(b).last() == (48 + b % 10) as u8);
        assert(a % 10 == b % 10);
    } else {
        assert(decimal_text(a).len() == 1);
        assert(b < 10);
        assert(decimal_text(a)[0] == (48 + a) as u8);
        assert(decimal_text(b)[0] == (48 + b) as u8);
    }
}

/// Labels are never reused: a label made under another number than `taken`
/// gets another symbol than any that stands for the label numbered `taken`.
pub proof fn law_labels_are_unique(
    names: Seq<Seq<u8>>,
    earlier: Symbol,
    taken: u64,
    counter: u64,
)
    requires
        earlier.0 < names.len(),
        names[earlier.0 as int] == label_text(taken),
        taken != counter,
        names.len() < usize::MAX,
    ensures
        interned_symbol(names, label_text(counter)) != earlier,
{
    let prefix = bytes_of(".L");
    let a = decimal_text(taken as nat);
    let b = decimal_text(counter as nat);
    if label_text(taken) == label_text(counter) {
        assert((prefix + a).subrange(prefix.len() as int, (prefix + a).len() as int) =~= a);
        assert((prefix + b).subrange(prefix.len() as int, (prefix + b).len() as int) =~= b);
        lemma_decimal_text_is_one_to_one(taken as nat, counter as nat);
    }
    lemma_interned_symbol_resolves(names, label_text(counter));
    lemma_intern_extends(names, label_text(counter));
}

/// The tokens of a function declaration with an empty body and no return
/// type: a name, `::`, `(`, `)`, `{` and `}`.
pub open spec fn spells_empty_function(tokens: Seq<Token>) -> bool {
    &&& tokens.len() == 6
    &&& tokens[0].kind == TokenKind::Identifier
    &&& tokens[1].kind == TokenKind::ColonColon
    &&& tokens[2].kind == TokenKind::Open(Delim::Paren)
    &&& tokens[3].kind == TokenKind::Closed(Delim::Paren)
    &&& tokens[4].kind == TokenKind::Open(Delim::Curly)
    &&& tokens[5].kind == TokenKind::Closed(Delim::Curly)
}

/// The tokens of a function declaration that returns `i32` and whose body
/// is one integer constant.
pub open spec fn spells_constant_function(tokens: Seq<Token>) -> bool {
    &&& tokens.len() == 9
    &&& tokens[0].kind == TokenKind::Identifier
    &&& tokens[1].kind == TokenKind::ColonColon
    &&& tokens[2].kind == TokenKind::Open(Delim::Paren)
    &&& tokens[3].kind == TokenKind::Closed(Delim::Paren)
    &&& tokens[4].kind == TokenKind::DashGreater
    &&& tokens[5].kind == TokenKind::Keyword(Keyword::I32)
    &&& tokens[6].kind == TokenKind::Open(Delim::Curly)
    &&& tokens[7].kind == TokenKind::IntegerConstant
    &&& tokens[8].kind == TokenKind::Closed(Delim::Curly)
}

/// The tokens of an empty function parse to a program of that one function.
pub proof fn law_empty_function_parses(inp: Input, names: Seq<Seq<u8>>)
    requires
        spells_empty_function(inp.tokens),
    ensures
        parse_program(inp, names) == Ok::<Parsed<Seq<DeclView>>, CompileError>(
            Parsed {
                value: seq![
                    empty_function(name_symbol(inp.src, inp.tokens[0], names), Type::Unit),
                ],
                pos: 6,
                names: names_with_token(inp.src, inp.tokens[0], names),
            },
        ),
{
    let none = Seq::<ExprView>::empty();
    assert(parse_exprs(inp, 5, names) == Ok::<Parsed<Seq<ExprView>>, CompileError>(
        Parsed { value: none, pos: 5, names },
    ));
    assert(parse_compound_expr(inp, 5, names) == Ok::<Parsed<Seq<ExprView>>, CompileError>(
        Parsed { value: none, pos: 6, names },
    ));
    assert(parse_block(inp, 4, names) == parse_compound_expr(inp, 5, names));
    let function = ExprView::Function(
        FunctionView { return_type: Type::Unit, parameters: Seq::empty(), body: none },
    );
    assert(parse_function(inp, 3, names) == Ok::<Parsed<ExprView>, CompileError>(
        Parsed { value: function, pos: 6, names },
    ));
    assert(parse_statement_expr(inp, 2, names) == parse_function(inp, 3, names));
    let after = names_with_token(inp.src, inp.tokens[0], names);
    let decl = empty_function(name_symbol(inp.src, inp.tokens[0], names), Type::Unit);
    assert(parse_decl(inp, 0, names) == Ok::<Parsed<DeclView>, CompileError>(
        Parsed { value: decl, pos: 6, names: after },
    ));
    assert(parse_decls(inp, 6, after) == Ok::<Parsed<Seq<DeclView>>, CompileError>(
        Parsed { value: Seq::empty(), pos: 6, names: after },
    ));
    assert(seq![decl] + Seq::<DeclView>::empty() =~= seq![decl]);
}

/// Every source whose tokens are those of one function with an empty body
/// compiles to exactly five lines: the function's name as a label, the two
/// instructions of the prologue, and the two of the epilogue.
pub proof fn law_empty_function_compiles(src: Seq<u8>, tokens: Seq<Token>)
    requires
        scan_tokens(src) == Ok::<Seq<Token>, CompileError>(tokens),
        spells_empty_function(tokens),
    ensures
        compile_text(src) == program_text(
            seq![
                Inst::Label { name: Symbol(0) },
                Inst::Push { source: Reg::Rbp },
                Inst::Mov { target: Arg::Reg(Reg::Rbp), source: Arg::Reg(Reg::Rsp) },
                Inst::Pop { target: Reg::Rbp },
                Inst::Ret,
            ],
            seq![snippet(src, tokens[0].span)],
        ),
{
    let inp = Input { src, tokens };
    let none = Seq::<Seq<u8>>::empty();
    law_empty_function_parses(inp, none);
    let names = names_with_token(src, tokens[0], none);
    assert(names =~= seq![snippet(src, tokens[0].span)]);
    assert(name_symbol(src, tokens[0], none) == Symbol(0));
    law_empty_function(Symbol(0), Type::Unit, names);
}

/// The tokens of a function around one integer constant parse to a program
/// of that one function.
pub proof fn law_constant_function_parses(inp: Input, names: Seq<Seq<u8>>, value: i32)
    requires
        spells_constant_function(inp.tokens),
        constant_value(snippet(inp.src, inp.tokens[7].span)) == Some(value),
    ensures
        parse_program(inp, names) == Ok::<Parsed<Seq<DeclView>>, CompileError>(
            Parsed {
                value: seq![constant_function(name_symbol(inp.src, inp.tokens[0], names), value)],
                pos: 9,
                names: names_with_token(inp.src, inp.tokens[0], names),
            },
        ),
{
    let constant = ExprView::Const(Const::IntegerConstant { value });
    assert(parse_statement_expr(inp, 7, names) == Ok::<Parsed<ExprView>, CompileError>(
        Parsed { value: constant, pos: 8, names },
    ));
    assert(parse_expr(inp, 7, names) == parse_statement_expr(inp, 7, names));
    assert(parse_exprs(inp, 8, names) == Ok::<Parsed<Seq<ExprView>>, CompileError>(
        Parsed { value: Seq::empty(), pos: 8, names },
    ));
    assert(advanced(inp.tokens, 7, 8));
    let body = seq![constant];
    assert(seq![constant] + Seq::<ExprView>::empty() =~= body);
    assert(parse_exprs(inp, 7, names) == Ok::<Parsed<Seq<ExprView>>, CompileError>(
        Parsed { value: body, pos: 8, names },
    ));
    assert(parse_compound_expr(inp, 7, names) == Ok::<Parsed<Seq<ExprView>>, CompileError>(
        Parsed { value: body, pos: 9, names },
    ));
    assert(parse_block(inp, 6, names) == parse_compound_expr(inp, 7, names));
    let function = ExprView::Function(
        FunctionView { return_type: Type::I32, parameters: Seq::empty(), body },
    );
    assert(parse_function(inp, 3, names) == Ok::<Parsed<ExprView>, CompileError>(
        Parsed { value: function, pos: 9, names },
    ));
    assert(parse_statement_expr(inp, 2, names) == parse_function(inp, 3, names));
    let after = names_with_token(inp.src, inp.tokens[0], names);
    let decl = constant_function(name_symbol(inp.src, inp.tokens[0], names), value);
    assert(parse_decl(inp, 0, names) == Ok::<Parsed<DeclView>, CompileError>(
        Parsed { value: decl, pos: 9, names: after },
    ));
    assert(parse_decls(inp, 9, after) == Ok::<Parsed<Seq<DeclView>>, CompileError>(
        Parsed { value: Seq::empty(), pos: 9, names: after },
    ));
    assert(seq![decl] + Seq::<DeclView>::empty() =~= seq![decl]);
}

/// Every source whose tokens are those of one function around the integer
/// literal `value` compiles to the function's label, the prologue, one load
/// of `value` into the accumulator, and the epilogue.
pub proof fn law_constant_function_compiles(src: Seq<u8>, tokens: Seq<Token>, value: i32)
    requires
        scan_tokens(src) == Ok::<Seq<Token>, CompileError>(tokens),
        spells_constant_function(tokens),
        constant_value(snippet(src, tokens[7].span)) == Some(value),
    ensures
        compile_text(src) == program_text(
            seq![
                Inst::Label { name: Symbol(0) },
                Inst::Push { source: Reg::Rbp },
                Inst::Mov { target: Arg::Reg(Reg::Rbp), source: Arg::Reg(Reg::Rsp) },
                Inst::Mov { target: Arg::Reg(Reg::Eax), source: Arg::Imm(value) },
                Inst::Pop { target: Reg::Rbp },
                Inst::Ret,
            ],
            seq![snippet(src, tokens[0].span)],
        ),
{
    let inp = Input { src, tokens };
    let none = Seq::<Seq<u8>>::empty();
    law_constant_function_parses(inp, none, value);
    let names = names_with_token(src, tokens[0], none);
    assert(names =~= seq![snippet(src, tokens[0].span)]);
    assert(name_symbol(src, tokens[0], none) == Symbol(0));
    law_constant_function(Symbol(0), value, names);
}

/// Two infinite loops, one in the other, each with a `break` as the last
/// expression of its body.
pub open spec fn nested_loops_with_breaks() -> ForView {
    ForView {
        iteration: None,
        body: seq![ExprView::For(loop_with_break()), ExprView::Break],
    }
}

/// In two nested infinite loops the inner `break` jumps to the inner exit
/// label and the outer `break` to the outer one, and the two exit labels
/// differ.
pub proof fn law_nested_breaks(st: GenState)
    requires
        st.label_counter < u64::MAX - 3,
        st.names.len() + 4 <= usize::MAX,
    ensures
        match make_label(st) {
            Ok((outer_start, st1)) => match make_label(st1) {
                Ok((outer_exit, st2)) => match make_label(st2) {
                    Ok((inner_start, st3)) => match make_label(st3) {
                        Ok((inner_exit, st4)) => inner_exit != outer_exit && match lower_for(
                            nested_loops_with_breaks(),
                            st,
                        ) {
                            Ok(l) => l.insts == seq![
                                Inst::Label { name: outer_start },
                                Inst::Label { name: inner_start },
                                Inst::Jmp { label: inner_exit },
                                Inst::Jmp { label: inner_start },
                                Inst::Label { name: inner_exit },
                                Inst::Jmp { label: outer_exit },
                                Inst::Jmp { label: outer_start },
                                Inst::Label { name: outer_exit },
                            ],
                            Err(_) => false,
                        },
                        Err(_) => false,
                    },
                    Err(_) => false,
                },
                Err(_) => false,
            },
            Err(_) => false,
        },
{
    let (outer_start, st1) = make_label(st)->Ok_0;
    let (outer_exit, st2) = make_label(st1)->Ok_0;
    lemma_intern_extends(st.names, label_text(st.label_counter));
    lemma_intern_extends(st1.names, label_text(st1.label_counter));
    lemma_interned_symbol_resolves(st1.names, label_text(st1.label_counter));
    let inside = enter_scope(st2, loop_scope(outer_start, outer_exit));
    let opened = enter_scope(inside, empty_scope());
    let (inner_start, st3) = make_label(opened)->Ok_0;
    let (inner_exit, st4) = make_label(st3)->Ok_0;
    lemma_intern_extends(st2.names, label_text(st2.label_counter));
    assert(make_label(st2)->Ok_0.0 == inner_start);
    assert(make_label(make_label(st2)->Ok_0.1)->Ok_0.0 == inner_exit);
    assert(st3.names[outer_exit.0 as int] == label_text(st1.label_counter));
    law_labels_are_unique(st3.names, outer_exit, st1.label_counter, st3.label_counter);
    assert(inner_exit != outer_exit);
    law_break_jumps_to_exit(opened);
    let inner = lower_for(loop_with_break(), opened)->Ok_0;
    let inner_inside = enter_scope(st4, loop_scope(inner_start, inner_exit));
    assert(inner_inside.scopes.drop_last() =~= st4.scopes);
    assert(inner.state == st4);
    assert(st4.scopes == opened.scopes);
    law_innermost_loop_wins(st2.scopes, outer_start, outer_exit);
    let body = nested_loops_with_breaks().body;
    assert(lower_expr(body[0], opened) == Ok::<Lowered, CompileError>(inner));
    assert(lower_expr(body[1], st4) == Ok::<Lowered, CompileError>(
        Lowered { insts: seq![Inst::Jmp { label: outer_exit }], state: st4 },
    ));
    assert(lower_exprs(body, 2, st4) == Ok::<Lowered, CompileError>(
        Lowered { insts: Seq::empty(), state: st4 },
    ));
    let last = seq![Inst::Jmp { label: outer_exit }] + Seq::<Inst>::empty();
    assert(lower_exprs(body, 1, st4) == Ok::<Lowered, CompileError>(
        Lowered { insts: last, state: st4 },
    ));
    assert(lower_exprs(body, 0, opened) == Ok::<Lowered, CompileError>(
        Lowered { insts: inner.insts + last, state: st4 },
    ));
    assert(lower_compound(body, inside) == Ok::<Lowered, CompileError>(
        Lowered { insts: inner.insts + last, state: exit_scope(st4) },
    ));
    let l = lower_for(nested_loops_with_breaks(), st)->Ok_0;
    assert(l.insts =~= seq![
        Inst::Label { name: outer_start },
        Inst::Label { name: inner_start },
        Inst::Jmp { label: inner_exit },
        Inst::Jmp { label: inner_start },
        Inst::Label { name: inner_exit },
        Inst::Jmp { label: outer_exit },
        Inst::Jmp { label: outer_start },
        Inst::Label { name: outer_exit },
    ]);
}

} // verus!
