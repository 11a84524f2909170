//! The syntax tree that the parser builds, and its mathematical form.

use vstd::prelude::*;
use crate::interner::Symbol;

verus! {

/// A program: its top-level declarations, in source order.
pub struct Program {
    pub decls: Vec<Decl>,
}

/// A top-level name and the value bound to it.
pub struct Decl {
    pub identifier: Symbol,
    pub value: Expr,
}

pub enum Expr {
    Const(Const),
    BindRef(BindRef),
    BindDef(BindDef),
    Function(Function),
    If(IfExpr),
    For(ForExpr),
    Break,
    Continue,
    Compound(CompoundExpr),
    /// An expression followed by `;`: its value is discarded.
    Semi(Box<Expr>),
    FnCall(FnCallExpr),
}

#[derive(Clone, Copy, PartialEq, Eq, Structural, Debug)]
pub enum Const {
    IntegerConstant { value: i32 },
}

#[derive(Clone, Copy, PartialEq, Eq, Structural, Debug)]
pub struct BindRef {
    pub identifier: Symbol,
}

pub struct BindDef {
    pub identifier: Symbol,
    pub value: Box<Expr>,
}

pub struct Function {
    pub return_type: Type,
    pub parameters: Vec<Param>,
    pub body: CompoundExpr,
}

#[derive(Clone, Copy, PartialEq, Eq, Structural, Debug)]
pub struct Param {
    pub identifier: Symbol,
    pub ty: Type,
}

#[derive(Clone, Copy, PartialEq, Eq, Structural, Debug)]
pub enum Type {
    Unit,
    I32,
}

pub struct IfExpr {
    pub cond_expr: Box<Expr>,
    pub true_branch: CompoundExpr,
    pub else_if_branches: Vec<ElseIfBranch>,
    pub final_branch: Option<CompoundExpr>,
}

pub struct ElseIfBranch {
    pub cond_expr: Expr,
    pub true_branch: CompoundExpr,
}

pub struct ForExpr {
    pub iteration: Option<ForIteration>,
    pub body: CompoundExpr,
}

pub enum ForIteration {
    Conditional { cond_expr: Box<Expr> },
    Iterative { identifier: Symbol, start_expr: Box<Expr>, end_expr: Box<Expr>, range_kind: RangeKind },
}

#[derive(Clone, Copy, PartialEq, Eq, Structural, Debug)]
pub enum RangeKind {
    Inclusive,
    Exclusive,
}

pub struct CompoundExpr {
    pub exprs: Vec<Expr>,
}

#[derive(Clone, Copy, PartialEq, Eq, Structural, Debug)]
pub struct FnCallExpr {
    pub identifier: Symbol,
}

/// The mathematical form of an expression.
pub enum ExprView {
    Const(Const),
    BindRef(Symbol),
    BindDef { identifier: Symbol, value: Box<ExprView> },
    Function(FunctionView),
    If(IfView),
    For(ForView),
    Break,
    Continue,
    Compound(Seq<ExprView>),
    Semi(Box<ExprView>),
    FnCall(Symbol),
}

pub struct FunctionView {
    pub return_type: Type,
    pub parameters: Seq<Param>,
    pub body: Seq<ExprView>,
}

/// A guarded branch: its condition and its body.
pub struct BranchView {
    pub cond: ExprView,
    pub body: Seq<ExprView>,
}

pub struct IfView {
    pub cond: Box<ExprView>,
    pub true_branch: Seq<ExprView>,
    pub else_ifs: Seq<BranchView>,
    pub final_branch: Option<Seq<ExprView>>,
}

pub struct ForView {
    pub iteration: Option<ForIterationView>,
    pub body: Seq<ExprView>,
}

pub enum ForIterationView {
    Conditional { cond: Box<ExprView> },
    Iterative { identifier: Symbol, start: Box<ExprView>, end: Box<ExprView>, range_kind: RangeKind },
}

pub struct DeclView {
    pub identifier: Symbol,
    pub value: ExprView,
}

impl Expr {
    pub open spec fn model(self) -> ExprView
        decreases self,
    {
        match self {
            Expr::Const(c) => ExprView::Const(c),
            Expr::BindRef(r) => ExprView::BindRef(r.identifier),
            Expr::BindDef(d) => ExprView::BindDef {
                identifier: d.identifier,
                value: Box::new(d.value.model()),
            },
            Expr::Function(f) => ExprView::Function(
                FunctionView {
                    return_type: f.return_type,
                    parameters: f.parameters@,
                    body: f.body.model(),
                },
            ),
            Expr::If(i) => ExprView::If(i.model()),
            Expr::For(f) => ExprView::For(f.model()),
            Expr::Break => ExprView::Break,
            Expr::Continue => ExprView::Continue,
            Expr::Compound(c) => ExprView::Compound(c.model()),
            Expr::Semi(e) => ExprView::Semi(Box::new(e.model())),
            Expr::FnCall(c) => ExprView::FnCall(c.identifier),
        }
    }
}

impl IfExpr {
    pub open spec fn model(self) -> IfView
        decreases self,
    {
        IfView {
            cond: Box::new(self.cond_expr.model()),
            true_branch: self.true_branch.model(),
            else_ifs: Seq::new(
                self.else_if_branches.len() as nat,
                |k: int|
                    if 0 <= k < self.else_if_branches.len() {
                        self.else_if_branches[k].model()
                    } else {
                        BranchView { cond: ExprView::Break, body: Seq::empty() }
                    },
            ),
            final_branch: match self.final_branch {
                Some(c) => Some(c.model()),
                None => None,
            },
        }
    }
}

impl ForExpr {
    pub open spec fn model(self) -> ForView
        decreases self,
    {
        ForView {
            iteration: match self.iteration {
                Some(ForIteration::Conditional { cond_expr }) => Some(
                    ForIterationView::Conditional { cond: Box::new(cond_expr.model()) },
                ),
                Some(ForIteration::Iterative { identifier, start_expr, end_expr, range_kind }) => Some(
                    ForIterationView::Iterative {
                        identifier,
                        start: Box::new(start_expr.model()),
                        end: Box::new(end_expr.model()),
                        range_kind,
                    },
                ),
                None => None,
            },
            body: self.body.model(),
        }
    }
}

impl CompoundExpr {
    pub open spec fn model(self) -> Seq<ExprView>
        decreases self,
    {
        Seq::new(
            self.exprs.len() as nat,
            |k: int|
                if 0 <= k < self.exprs.len() {
                    self.exprs[k].model()
                } else {
                    ExprView::Break
                },
        )
    }
}

impl ElseIfBranch {
    pub open spec fn model(self) -> BranchView
        decreases self,
    {
        BranchView { cond: self.cond_expr.model(), body: self.true_branch.model() }
    }
}

impl Decl {
    pub open spec fn model(self) -> DeclView {
        DeclView { identifier: self.identifier, value: self.value.model() }
    }
}

impl Program {
    pub open spec fn model(self) -> Seq<DeclView> {
        Seq::new(self.decls.len() as nat, |k: int| self.decls[k].model())
    }
}

/// The forms of the expressions in `exprs`.
pub open spec fn models_of(exprs: Seq<Expr>) -> Seq<ExprView> {
    Seq::new(exprs.len(), |k: int| exprs[k].model())
}

/// The forms of the branches in `branches`.
pub open spec fn branch_models_of(branches: Seq<ElseIfBranch>) -> Seq<BranchView> {
    Seq::new(branches.len(), |k: int| branches[k].model())
}

/// The forms of the declarations in `decls`.
pub open spec fn decl_models_of(decls: Seq<Decl>) -> Seq<DeclView> {
    Seq::new(decls.len(), |k: int| decls[k].model())
}

/// The form of a compound expression is that of its expressions, in order.
pub proof fn lemma_compound_model(c: CompoundExpr)
    ensures
        c.model() == models_of(c.exprs@),
{
    assert(c.model() =~= models_of(c.exprs@));
}

/// The else-if branches of an `if` have the forms of its branches, in order.
pub proof fn lemma_if_model(i: IfExpr)
    ensures
        i.model().else_ifs == branch_models_of(i.else_if_branches@),
{
    assert(i.model().else_ifs =~= branch_models_of(i.else_if_branches@));
}

/// The form of a program is that of its declarations, in order.
pub proof fn lemma_program_model(p: Program)
    ensures
        p.model() == decl_models_of(p.decls@),
{
    assert(p.model() =~= decl_models_of(p.decls@));
}

} // verus!
