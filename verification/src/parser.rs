//! Recursive-descent parsing of the token sequence into a syntax tree.

use vstd::prelude::*;
use crate::ast::{
    BindDef, BindRef, BranchView, CompoundExpr, Const, Decl, DeclView, ElseIfBranch, Expr,
    ExprView, FnCallExpr, ForExpr, ForIteration, ForIterationView, ForView, Function,
    FunctionView, IfExpr, IfView, Param, Program, RangeKind, Type, branch_models_of,
    decl_models_of, lemma_compound_model, lemma_if_model, lemma_program_model, models_of,
};
use crate::error::{CompileError, Diagnostic};
use crate::compiler_context::{CompilerContext, snippet};
use crate::interner::{Symbol, names_with, symbol_index};
use crate::scanner::{Delim, Keyword, Token, TokenKind, eof_token, is_digit};
use crate::span::{BytePos, Span};

verus! {

/// What the parser reads: the source text and the tokens scanned from it.
pub struct Input {
    pub src: Seq<u8>,
    pub tokens: Seq<Token>,
}

/// What a successful parse gives: the value read, the position of the next
/// token, and the table of interned names.
pub struct Parsed<T> {
    pub value: T,
    pub pos: nat,
    pub names: Seq<Seq<u8>>,
}

/// The token at `pos`, or the end-of-input token past the last one.
pub open spec fn token_or_eof(tokens: Seq<Token>, pos: nat) -> Token {
    if pos < tokens.len() {
        tokens[pos as int]
    } else {
        eof_token()
    }
}

pub open spec fn kind_at(tokens: Seq<Token>, pos: nat) -> TokenKind {
    token_or_eof(tokens, pos).kind
}

/// The span of the token before `pos`.
pub open spec fn previous_span(tokens: Seq<Token>, pos: nat) -> Span {
    if 0 < pos <= tokens.len() {
        tokens[pos - 1].span
    } else {
        Span { start: BytePos(usize::MAX), end: BytePos(usize::MAX) }
    }
}

/// The error for a token of another kind than `kind` at `pos`.
pub open spec fn expected(tokens: Seq<Token>, pos: nat, kind: TokenKind) -> CompileError {
    CompileError::ExpectedButFound {
        expected: kind,
        found: token_or_eof(tokens, pos),
        after: previous_span(tokens, pos),
    }
}

/// Whether a parse that started at `from` ended at a later token, within the
/// tokens. The parse functions ask for it where it bounds their recursion;
/// `lemma_expr_advances` and its companions show that every successful parse
/// meets it, so that the other case never arises.
pub open spec fn advanced(tokens: Seq<Token>, from: nat, to: nat) -> bool {
    from < to <= tokens.len()
}

pub open spec fn digit_value(b: u8) -> nat {
    if is_digit(b) {
        (b - 48) as nat
    } else {
        0
    }
}

/// The number that a string of decimal digits spells.
pub open spec fn decimal_value(digits: Seq<u8>) -> nat
    decreases digits.len(),
{
    if digits.len() == 0 {
        0
    } else {
        decimal_value(digits.drop_last()) * 10 + digit_value(digits.last())
    }
}

/// The 32-bit constant that `digits` spells, if it fits.
pub open spec fn constant_value(digits: Seq<u8>) -> Option<i32> {
    if decimal_value(digits) <= i32::MAX {
        Some(decimal_value(digits) as i32)
    } else {
        None
    }
}

/// The symbol of the name that `token` spells, interned into `names`.
pub open spec fn name_symbol(src: Seq<u8>, token: Token, names: Seq<Seq<u8>>) -> Symbol {
    Symbol(symbol_index(names, snippet(src, token.span)) as usize)
}

/// The table after the name that `token` spells was interned into `names`.
pub open spec fn names_with_token(src: Seq<u8>, token: Token, names: Seq<Seq<u8>>) -> Seq<
    Seq<u8>,
> {
    names_with(names, snippet(src, token.span))
}

/// An expression without a trailing `;`, starting at `pos`.
pub open spec fn parse_statement_expr(inp: Input, pos: nat, names: Seq<Seq<u8>>) -> Result<
    Parsed<ExprView>,
    CompileError,
>
    decreases inp.tokens.len() - pos, 0nat,
{
    if pos >= inp.tokens.len() {
        Err(
            CompileError::ExpectedExpression {
                found: eof_token(),
                after: previous_span(inp.tokens, pos),
            },
        )
    } else {
        let tok = inp.tokens[pos as int];
        match tok.kind {
            TokenKind::IntegerConstant => match constant_value(snippet(inp.src, tok.span)) {
                Some(value) => Ok(
                    Parsed {
                        value: ExprView::Const(Const::IntegerConstant { value }),
                        pos: pos + 1,
                        names,
                    },
                ),
                None => Err(CompileError::IntegerOutOfRange { found: tok }),
            },
            TokenKind::Keyword(Keyword::If) => parse_if_expr(inp, pos + 1, names),
            TokenKind::Keyword(Keyword::For) => parse_for_expr(inp, pos + 1, names),
            TokenKind::Keyword(Keyword::Break) => Ok(
                Parsed { value: ExprView::Break, pos: pos + 1, names },
            ),
            TokenKind::Keyword(Keyword::Continue) => Ok(
                Parsed { value: ExprView::Continue, pos: pos + 1, names },
            ),
            TokenKind::Open(Delim::Paren) => parse_function(inp, pos + 1, names),
            TokenKind::Open(Delim::Curly) => match parse_compound_expr(inp, pos + 1, names) {
                Ok(c) => Ok(
                    Parsed { value: ExprView::Compound(c.value), pos: c.pos, names: c.names },
                ),
                Err(e) => Err(e),
            },
            TokenKind::Identifier => {
                if kind_at(inp.tokens, pos + 1) == TokenKind::ColonEqual {
                    match parse_statement_expr(inp, pos + 2, names) {
                        Ok(v) => Ok(
                            Parsed {
                                value: ExprView::BindDef {
                                    identifier: name_symbol(inp.src, tok, v.names),
                                    value: Box::new(v.value),
                                },
                                pos: v.pos,
                                names: names_with_token(inp.src, tok, v.names),
                            },
                        ),
                        Err(e) => Err(e),
                    }
                } else if kind_at(inp.tokens, pos + 1) == TokenKind::Open(Delim::Paren) {
                    if kind_at(inp.tokens, pos + 2) == TokenKind::Closed(Delim::Paren) {
                        Ok(
                            Parsed {
                                value: ExprView::FnCall(name_symbol(inp.src, tok, names)),
                                pos: pos + 3,
                                names: names_with_token(inp.src, tok, names),
                            },
                        )
                    } else {
                        Err(expected(inp.tokens, pos + 2, TokenKind::Closed(Delim::Paren)))
                    }
                } else {
                    Ok(
                        Parsed {
                            value: ExprView::BindRef(name_symbol(inp.src, tok, names)),
                            pos: pos + 1,
                            names: names_with_token(inp.src, tok, names),
                        },
                    )
                }
            },
            _ => Err(
                CompileError::ExpectedExpression {
                    found: tok,
                    after: previous_span(inp.tokens, pos),
                },
            ),
        }
    }
}

/// An expression, with the `;` that may follow it: the `;` wraps it to mark
/// its value as discarded.
pub open spec fn parse_expr(inp: Input, pos: nat, names: Seq<Seq<u8>>) -> Result<
    Parsed<ExprView>,
    CompileError,
>
    decreases inp.tokens.len() - pos, 1nat,
{
    match parse_statement_expr(inp, pos, names) {
        Ok(s) => if kind_at(inp.tokens, s.pos) == TokenKind::Semi {
            Ok(Parsed { value: ExprView::Semi(Box::new(s.value)), pos: s.pos + 1, names: s.names })
        } else {
            Ok(s)
        },
        Err(e) => Err(e),
    }
}

/// A `{` at `pos` and the compound expression that it opens.
pub open spec fn parse_block(inp: Input, pos: nat, names: Seq<Seq<u8>>) -> Result<
    Parsed<Seq<ExprView>>,
    CompileError,
>
    decreases inp.tokens.len() - pos, 4nat,
{
    if kind_at(inp.tokens, pos) == TokenKind::Open(Delim::Curly) {
        parse_compound_expr(inp, pos + 1, names)
    } else {
        Err(expected(inp.tokens, pos, TokenKind::Open(Delim::Curly)))
    }
}

/// What follows the keyword `if`: a condition and its branch, the `else if`
/// branches, and the final `else` branch if there is one.
pub open spec fn parse_if_expr(inp: Input, pos: nat, names: Seq<Seq<u8>>) -> Result<
    Parsed<ExprView>,
    CompileError,
>
    decreases inp.tokens.len() - pos, 2nat,
{
    match parse_expr(inp, pos, names) {
        Err(e) => Err(e),
        Ok(c) => if !advanced(inp.tokens, pos, c.pos) {
            arbitrary()
        } else {
            match parse_block(inp, c.pos, c.names) {
                Err(e) => Err(e),
                Ok(t) => if !advanced(inp.tokens, pos, t.pos) {
                    arbitrary()
                } else {
                    match parse_else_if_branches(inp, t.pos, t.names) {
                        Err(e) => Err(e),
                        Ok(b) => if kind_at(inp.tokens, b.pos) != TokenKind::Keyword(
                            Keyword::Else,
                        ) {
                            Ok(
                                Parsed {
                                    value: ExprView::If(
                                        IfView {
                                            cond: Box::new(c.value),
                                            true_branch: t.value,
                                            else_ifs: b.value,
                                            final_branch: None,
                                        },
                                    ),
                                    pos: b.pos,
                                    names: b.names,
                                },
                            )
                        } else if !advanced(inp.tokens, pos, b.pos) {
                            arbitrary()
                        } else {
                            match parse_block(inp, b.pos + 1, b.names) {
                                Err(e) => Err(e),
                                Ok(f) => Ok(
                                    Parsed {
                                        value: ExprView::If(
                                            IfView {
                                                cond: Box::new(c.value),
                                                true_branch: t.value,
                                                else_ifs: b.value,
                                                final_branch: Some(f.value),
                                            },
                                        ),
                                        pos: f.pos,
                                        names: f.names,
                                    },
                                ),
                            }
                        },
                    }
                },
            }
        },
    }
}

/// `branches` put before the branches of `rest`, or the error of `rest`.
pub open spec fn branches_then(
    branches: Seq<BranchView>,
    rest: Result<Parsed<Seq<BranchView>>, CompileError>,
) -> Result<Parsed<Seq<BranchView>>, CompileError> {
    match rest {
        Ok(r) => Ok(Parsed { value: branches + r.value, pos: r.pos, names: r.names }),
        Err(e) => Err(e),
    }
}

/// The `else if` branches from `pos` on: as many as begin with the two
/// tokens `else` and `if`.
pub open spec fn parse_else_if_branches(inp: Input, pos: nat, names: Seq<Seq<u8>>) -> Result<
    Parsed<Seq<BranchView>>,
    CompileError,
>
    decreases inp.tokens.len() - pos, 5nat,
{
    if kind_at(inp.tokens, pos) == TokenKind::Keyword(Keyword::Else) && kind_at(
        inp.tokens,
        pos + 1,
    ) == TokenKind::Keyword(Keyword::If) {
        match parse_expr(inp, pos + 2, names) {
            Err(e) => Err(e),
            Ok(c) => if !advanced(inp.tokens, pos, c.pos) {
                arbitrary()
            } else {
                match parse_block(inp, c.pos, c.names) {
                    Err(e) => Err(e),
                    Ok(t) => if !advanced(inp.tokens, pos, t.pos) {
                        arbitrary()
                    } else {
                        branches_then(
                            seq![BranchView { cond: c.value, body: t.value }],
                            parse_else_if_branches(inp, t.pos, t.names),
                        )
                    },
                }
            },
        }
    } else {
        Ok(Parsed { value: Seq::empty(), pos, names })
    }
}

/// What follows the keyword `for`: a counter with its range, or a
/// condition, or neither, and then the body.
pub open spec fn parse_for_expr(inp: Input, pos: nat, names: Seq<Seq<u8>>) -> Result<
    Parsed<ExprView>,
    CompileError,
>
    decreases inp.tokens.len() - pos, 2nat,
{
    if kind_at(inp.tokens, pos) == TokenKind::Identifier && kind_at(inp.tokens, pos + 1)
        == TokenKind::Colon {
        let ident = inp.tokens[pos as int];
        match parse_expr(inp, pos + 2, names_with_token(inp.src, ident, names)) {
            Err(e) => Err(e),
            Ok(s) => if !advanced(inp.tokens, pos, s.pos) {
                arbitrary()
            } else if kind_at(inp.tokens, s.pos) != TokenKind::PeriodPeriodEqual && kind_at(
                inp.tokens,
                s.pos,
            ) != TokenKind::PeriodPeriod {
                Err(expected(inp.tokens, s.pos, TokenKind::PeriodPeriod))
            } else {
                match parse_expr(inp, s.pos + 1, s.names) {
                    Err(e) => Err(e),
                    Ok(e) => if !advanced(inp.tokens, pos, e.pos) {
                        arbitrary()
                    } else {
                        match parse_block(inp, e.pos, e.names) {
                            Err(err) => Err(err),
                            Ok(b) => Ok(
                                Parsed {
                                    value: ExprView::For(
                                        ForView {
                                            iteration: Some(
                                                ForIterationView::Iterative {
                                                    identifier: name_symbol(
                                                        inp.src,
                                                        ident,
                                                        names,
                                                    ),
                                                    start: Box::new(s.value),
                                                    end: Box::new(e.value),
                                                    range_kind: if kind_at(inp.tokens, s.pos)
                                                        == TokenKind::PeriodPeriodEqual {
                                                        RangeKind::Inclusive
                                                    } else {
                                                        RangeKind::Exclusive
                                                    },
                                                },
                                            ),
                                            body: b.value,
                                        },
                                    ),
                                    pos: b.pos,
                                    names: b.names,
                                },
                            ),
                        }
                    },
                }
            },
        }
    } else if kind_at(inp.tokens, pos) != TokenKind::Open(Delim::Curly) {
        match parse_expr(inp, pos, names) {
            Err(e) => Err(e),
            Ok(c) => if !advanced(inp.tokens, pos, c.pos) {
                arbitrary()
            } else {
                match parse_block(inp, c.pos, c.names) {
                    Err(e) => Err(e),
                    Ok(b) => Ok(
                        Parsed {
                            value: ExprView::For(
                                ForView {
                                    iteration: Some(
                                        ForIterationView::Conditional { cond: Box::new(c.value) },
                                    ),
                                    body: b.value,
                                },
                            ),
                            pos: b.pos,
                            names: b.names,
                        },
                    ),
                }
            },
        }
    } else {
        match parse_compound_expr(inp, pos + 1, names) {
            Err(e) => Err(e),
            Ok(b) => Ok(
                Parsed {
                    value: ExprView::For(ForView { iteration: None, body: b.value }),
                    pos: b.pos,
                    names: b.names,
                },
            ),
        }
    }
}

/// What follows the `(` of a function literal: `)`, the return type if one
/// is written, and the body.
pub open spec fn parse_function(inp: Input, pos: nat, names: Seq<Seq<u8>>) -> Result<
    Parsed<ExprView>,
    CompileError,
>
    decreases inp.tokens.len() - pos, 5nat,
{
    if kind_at(inp.tokens, pos) != TokenKind::Closed(Delim::Paren) {
        Err(expected(inp.tokens, pos, TokenKind::Closed(Delim::Paren)))
    } else if kind_at(inp.tokens, pos + 1) == TokenKind::DashGreater {
        if kind_at(inp.tokens, pos + 2) != TokenKind::Keyword(Keyword::I32) {
            Err(expected(inp.tokens, pos + 2, TokenKind::Keyword(Keyword::I32)))
        } else {
            function_of(Type::I32, parse_block(inp, pos + 3, names))
        }
    } else {
        function_of(Type::Unit, parse_block(inp, pos + 1, names))
    }
}

/// The function literal with the given return type and parsed body.
pub open spec fn function_of(
    return_type: Type,
    body: Result<Parsed<Seq<ExprView>>, CompileError>,
) -> Result<Parsed<ExprView>, CompileError> {
    match body {
        Err(e) => Err(e),
        Ok(b) => Ok(
            Parsed {
                value: ExprView::Function(
                    FunctionView { return_type, parameters: Seq::empty(), body: b.value },
                ),
                pos: b.pos,
                names: b.names,
            },
        ),
    }
}

/// What follows the `{` of a compound expression: its expressions and `}`.
pub open spec fn parse_compound_expr(inp: Input, pos: nat, names: Seq<Seq<u8>>) -> Result<
    Parsed<Seq<ExprView>>,
    CompileError,
>
    decreases inp.tokens.len() - pos, 3nat,
{
    match parse_exprs(inp, pos, names) {
        Err(e) => Err(e),
        Ok(es) => if kind_at(inp.tokens, es.pos) == TokenKind::Closed(Delim::Curly) {
            Ok(Parsed { value: es.value, pos: es.pos + 1, names: es.names })
        } else {
            Err(expected(inp.tokens, es.pos, TokenKind::Closed(Delim::Curly)))
        },
    }
}

/// `exprs` put before the expressions of `rest`, or the error of `rest`.
pub open spec fn exprs_then(
    exprs: Seq<ExprView>,
    rest: Result<Parsed<Seq<ExprView>>, CompileError>,
) -> Result<Parsed<Seq<ExprView>>, CompileError> {
    match rest {
        Ok(r) => Ok(Parsed { value: exprs + r.value, pos: r.pos, names: r.names }),
        Err(e) => Err(e),
    }
}

/// The expressions from `pos` up to the next `}` or the end of the input.
pub open spec fn parse_exprs(inp: Input, pos: nat, names: Seq<Seq<u8>>) -> Result<
    Parsed<Seq<ExprView>>,
    CompileError,
>
    decreases inp.tokens.len() - pos, 2nat,
{
    if pos >= inp.tokens.len() || kind_at(inp.tokens, pos) == TokenKind::Closed(Delim::Curly) {
        Ok(Parsed { value: Seq::empty(), pos, names })
    } else {
        match parse_expr(inp, pos, names) {
            Err(e) => Err(e),
            Ok(e) => if !advanced(inp.tokens, pos, e.pos) {
                arbitrary()
            } else {
                exprs_then(seq![e.value], parse_exprs(inp, e.pos, e.names))
            },
        }
    }
}

/// A declaration at `pos`: an identifier, `::` and an expression without a
/// trailing `;`.
pub open spec fn parse_decl(inp: Input, pos: nat, names: Seq<Seq<u8>>) -> Result<
    Parsed<DeclView>,
    CompileError,
> {
    let ident = token_or_eof(inp.tokens, pos);
    if ident.kind != TokenKind::Identifier {
        Err(CompileError::ExpectedDeclaration { found: ident })
    } else if kind_at(inp.tokens, pos + 1) != TokenKind::ColonColon {
        Err(expected(inp.tokens, pos + 1, TokenKind::ColonColon))
    } else {
        match parse_statement_expr(inp, pos + 2, names) {
            Err(e) => Err(e),
            Ok(v) => Ok(
                Parsed {
                    value: DeclView {
                        identifier: name_symbol(inp.src, ident, v.names),
                        value: v.value,
                    },
                    pos: v.pos,
                    names: names_with_token(inp.src, ident, v.names),
                },
            ),
        }
    }
}

/// `decls` put before the declarations of `rest`, or the error of `rest`.
pub open spec fn decls_then(
    decls: Seq<DeclView>,
    rest: Result<Parsed<Seq<DeclView>>, CompileError>,
) -> Result<Parsed<Seq<DeclView>>, CompileError> {
    match rest {
        Ok(r) => Ok(Parsed { value: decls + r.value, pos: r.pos, names: r.names }),
        Err(e) => Err(e),
    }
}

/// The declarations from `pos` to the end of the input.
pub open spec fn parse_decls(inp: Input, pos: nat, names: Seq<Seq<u8>>) -> Result<
    Parsed<Seq<DeclView>>,
    CompileError,
>
    decreases inp.tokens.len() - pos,
{
    if pos >= inp.tokens.len() {
        Ok(Parsed { value: Seq::empty(), pos, names })
    } else {
        match parse_decl(inp, pos, names) {
            Err(e) => Err(e),
            Ok(d) => if !advanced(inp.tokens, pos, d.pos) {
                arbitrary()
            } else {
                decls_then(seq![d.value], parse_decls(inp, d.pos, d.names))
            },
        }
    }
}

/// The program that the tokens spell, with the names interned into `names`,
/// or the first error.
pub open spec fn parse_program(inp: Input, names: Seq<Seq<u8>>) -> Result<
    Parsed<Seq<DeclView>>,
    CompileError,
> {
    parse_decls(inp, 0, names)
}

/// A string of digits that is cut short spells no more than the whole.
pub proof fn lemma_decimal_value_grows(digits: Seq<u8>, k: int)
    requires
        0 <= k <= digits.len(),
    ensures
        decimal_value(digits.subrange(0, k)) <= decimal_value(digits),
    decreases digits.len(),
{
    if k == digits.len() {
        assert(digits.subrange(0, k) =~= digits);
    } else {
        lemma_decimal_value_grows(digits.drop_last(), k);
        assert(digits.drop_last().subrange(0, k) =~= digits.subrange(0, k));
    }
}

/// The 32-bit constant that the digits in `text` spell, if it fits.
pub fn constant_of(text: &[u8]) -> (value: Option<i32>)
    ensures
        value == constant_value(text@),
{
    let mut acc: u64 = 0;
    let mut i: usize = 0;
    while i < text.len()
        invariant
            i <= text@.len(),
            acc == decimal_value(text@.subrange(0, i as int)),
            acc <= i32::MAX,
        decreases text@.len() - i,
    {
        let b = text[i];
        let digit: u64 = if b >= 48 && b <= 57 {
            (b - 48) as u64
        } else {
            0
        };
        let next = acc * 10 + digit;
        proof {
            assert(text@.subrange(0, i + 1).drop_last() =~= text@.subrange(0, i as int));
            assert(next == decimal_value(text@.subrange(0, i + 1)));
        }
        if next > 2147483647 {
            proof {
                lemma_decimal_value_grows(text@, i + 1);
            }
            return None;
        }
        acc = next;
        i += 1;
    }
    assert(text@.subrange(0, i as int) =~= text@);
    Some(acc as i32)
}

/// Whether `result` is what the parse `want` asks for, with the parser moved
/// from `before` to `after`: the same error, or an expression of the parsed
/// form with the parser at the parsed position.
pub open spec fn expr_outcome(
    result: Result<Expr, CompileError>,
    want: Result<Parsed<ExprView>, CompileError>,
    before: Parser,
    after: Parser,
) -> bool {
    match want {
        Ok(p) => match result {
            Ok(e) => e.model() == p.value && after.stands_at(before, p.pos, p.names) && advanced(
                before.input().tokens,
                before.position(),
                p.pos,
            ),
            Err(_) => false,
        },
        Err(e) => result == Err::<Expr, CompileError>(e),
    }
}

/// As `expr_outcome`, for a compound expression.
pub open spec fn block_outcome(
    result: Result<CompoundExpr, CompileError>,
    want: Result<Parsed<Seq<ExprView>>, CompileError>,
    before: Parser,
    after: Parser,
) -> bool {
    match want {
        Ok(p) => match result {
            Ok(c) => c.model() == p.value && after.stands_at(before, p.pos, p.names) && advanced(
                before.input().tokens,
                before.position(),
                p.pos,
            ),
            Err(_) => false,
        },
        Err(e) => result == Err::<CompoundExpr, CompileError>(e),
    }
}

/// Builds the syntax tree of a program from its tokens.
pub struct Parser<'a> {
    ctx: CompilerContext<'a>,
    tokens: Vec<Token>,
    current_token_idx: usize,
}

impl<'a> Parser<'a> {
    /// The source text and the tokens that the parser reads.
    pub closed spec fn input(&self) -> Input {
        Input { src: self.ctx.source(), tokens: self.tokens@ }
    }

    /// The index of the next token to read.
    pub closed spec fn position(&self) -> nat {
        self.current_token_idx as nat
    }

    /// The names interned so far.
    pub closed spec fn names(&self) -> Seq<Seq<u8>> {
        self.ctx.names()
    }

    /// The position never leaves the tokens.
    pub closed spec fn well_formed(&self) -> bool {
        self.current_token_idx <= self.tokens@.len()
    }

    /// This parser reads what `before` reads, and stands at `pos` with the
    /// names `names`.
    pub open spec fn stands_at(&self, before: Parser, pos: nat, names: Seq<Seq<u8>>) -> bool {
        &&& self.well_formed()
        &&& self.input() == before.input()
        &&& self.position() == pos
        &&& self.names() == names
    }

    pub fn new(tokens: Vec<Token>, ctx: CompilerContext<'a>) -> (parser: Parser<'a>)
        ensures
            parser.well_formed(),
            parser.input() == (Input { src: ctx.source(), tokens: tokens@ }),
            parser.position() == 0,
            parser.names() == ctx.names(),
    {
        Parser { ctx, tokens, current_token_idx: 0 }
    }

    /// Gives up the parser for the context, which holds the program's names.
    pub fn into_context(self) -> (ctx: CompilerContext<'a>)
        ensures
            ctx.names() == self.names(),
            ctx.source() == self.input().src,
    {
        self.ctx
    }

    /// The program that the tokens from the current position on spell, or
    /// the first error.
    pub fn parse_program(&mut self) -> (program: Result<Program, Diagnostic>)
        requires
            old(self).well_formed(),
        ensures
            match parse_decls(old(self).input(), old(self).position(), old(self).names()) {
                Ok(p) => match program {
                    Ok(found) => found.model() == p.value && final(self).stands_at(
                        *old(self),
                        p.pos,
                        p.names,
                    ),
                    Err(_) => false,
                },
                Err(e) => match program {
                    Ok(_) => false,
                    Err(diagnostic) => diagnostic.compile_errors@ == seq![e],
                },
            },
    {
        let mut decls: Vec<Decl> = Vec::new();
        while self.current_token_idx < self.tokens.len()
            invariant
                self.well_formed(),
                self.input() == old(self).input(),
                parse_decls(old(self).input(), old(self).position(), old(self).names())
                    == decls_then(
                    decl_models_of(decls@),
                    parse_decls(self.input(), self.position(), self.names()),
                ),
            decreases self.tokens@.len() - self.current_token_idx,
        {
            let ghost rest = parse_decls(self.input(), self.position(), self.names());
            match self.parse_decl() {
                Err(e) => {
                    let mut compile_errors: Vec<CompileError> = Vec::new();
                    compile_errors.push(e);
                    return Err(Diagnostic { compile_errors });
                },
                Ok(decl) => {
                    proof {
                        let next = parse_decls(self.input(), self.position(), self.names());
                        assert(rest == decls_then(seq![decl.model()], next));
                        assert(decl_models_of(decls@.push(decl)) =~= decl_models_of(decls@)
                            + seq![decl.model()]);
                        match next {
                            Ok(n) => {
                                assert(decl_models_of(decls@) + (seq![decl.model()] + n.value)
                                    =~= decl_models_of(decls@.push(decl)) + n.value);
                            },
                            Err(_) => {},
                        }
                    }
                    decls.push(decl);
                },
            }
        }
        let program = Program { decls };
        proof {
            lemma_program_model(program);
            assert(decl_models_of(program.decls@) + Seq::<DeclView>::empty() =~= decl_models_of(
                program.decls@,
            ));
        }
        Ok(program)
    }

    fn parse_decl(&mut self) -> (decl: Result<Decl, CompileError>)
        requires
            old(self).well_formed(),
        ensures
            match parse_decl(old(self).input(), old(self).position(), old(self).names()) {
                Ok(p) => match decl {
                    Ok(d) => d.model() == p.value && final(self).stands_at(
                        *old(self),
                        p.pos,
                        p.names,
                    ) && advanced(old(self).input().tokens, old(self).position(), p.pos),
                    Err(_) => false,
                },
                Err(e) => decl == Err::<Decl, CompileError>(e),
            },
    {
        let ident_tok = self.consume();
        if ident_tok.kind != TokenKind::Identifier {
            return Err(CompileError::ExpectedDeclaration { found: ident_tok });
        }
        if self.peek().kind != TokenKind::ColonColon {
            return Err(self.expected_error(TokenKind::ColonColon));
        }
        self.consume();
        let value = match self.parse_statement_expr() {
            Ok(v) => v,
            Err(e) => {
                return Err(e);
            },
        };
        let identifier = self.intern(ident_tok);
        Ok(Decl { identifier, value })
    }

    fn parse_statement_expr(&mut self) -> (expr: Result<Expr, CompileError>)
        requires
            old(self).well_formed(),
        ensures
            expr_outcome(
                expr,
                parse_statement_expr(old(self).input(), old(self).position(), old(self).names()),
                *old(self),
                *final(self),
            ),
        decreases old(self).tokens@.len() - old(self).current_token_idx, 0nat,
    {
        let after = self.previous_span();
        if self.current_token_idx >= self.tokens.len() {
            return Err(CompileError::ExpectedExpression { found: Token::eof(), after });
        }
        let tok = self.consume();
        match tok.kind {
            TokenKind::IntegerConstant => match constant_of(self.ctx.get_text_snippet(tok.span)) {
                Some(value) => Ok(Expr::Const(Const::IntegerConstant { value })),
                None => Err(CompileError::IntegerOutOfRange { found: tok }),
            },
            TokenKind::Keyword(Keyword::If) => self.parse_if_expr(),
            TokenKind::Keyword(Keyword::For) => self.parse_for_expr(),
            TokenKind::Keyword(Keyword::Break) => self.parse_break_expr(),
            TokenKind::Keyword(Keyword::Continue) => self.parse_continue_expr(),
            TokenKind::Open(Delim::Paren) => self.parse_function(),
            TokenKind::Open(Delim::Curly) => match self.parse_compound_expr() {
                Ok(c) => Ok(Expr::Compound(c)),
                Err(e) => Err(e),
            },
            TokenKind::Identifier => {
                if self.peek().kind == TokenKind::ColonEqual {
                    self.consume();
                    let value = match self.parse_statement_expr() {
                        Ok(v) => v,
                        Err(e) => {
                            return Err(e);
                        },
                    };
                    let identifier = self.intern(tok);
                    Ok(Expr::BindDef(BindDef { identifier, value: Box::new(value) }))
                } else if self.peek().kind == TokenKind::Open(Delim::Paren) {
                    self.consume();
                    if self.peek().kind != TokenKind::Closed(Delim::Paren) {
                        return Err(self.expected_error(TokenKind::Closed(Delim::Paren)));
                    }
                    self.consume();
                    let identifier = self.intern(tok);
                    Ok(Expr::FnCall(FnCallExpr { identifier }))
                } else {
                    let identifier = self.intern(tok);
                    Ok(Expr::BindRef(BindRef { identifier }))
                }
            },
            _ => Err(CompileError::ExpectedExpression { found: tok, after }),
        }
    }

    fn parse_expr(&mut self) -> (expr: Result<Expr, CompileError>)
        requires
            old(self).well_formed(),
        ensures
            expr_outcome(
                expr,
                parse_expr(old(self).input(), old(self).position(), old(self).names()),
                *old(self),
                *final(self),
            ),
        decreases old(self).tokens@.len() - old(self).current_token_idx, 1nat,
    {
        let stmt_expr = match self.parse_statement_expr() {
            Ok(e) => e,
            Err(e) => {
                return Err(e);
            },
        };
        if self.peek().kind == TokenKind::Semi {
            self.consume();
            Ok(Expr::Semi(Box::new(stmt_expr)))
        } else {
            Ok(stmt_expr)
        }
    }

    /// Reads `{` and the compound expression that it opens.
    fn parse_block(&mut self) -> (block: Result<CompoundExpr, CompileError>)
        requires
            old(self).well_formed(),
        ensures
            block_outcome(
                block,
                parse_block(old(self).input(), old(self).position(), old(self).names()),
                *old(self),
                *final(self),
            ),
        decreases old(self).tokens@.len() - old(self).current_token_idx, 4nat,
    {
        if self.peek().kind != TokenKind::Open(Delim::Curly) {
            return Err(self.expected_error(TokenKind::Open(Delim::Curly)));
        }
        self.consume();
        self.parse_compound_expr()
    }

    #[verifier::loop_isolation(false)]
    fn parse_if_expr(&mut self) -> (expr: Result<Expr, CompileError>)
        requires
            old(self).well_formed(),
        ensures
            expr_outcome(
                expr,
                parse_if_expr(old(self).input(), old(self).position(), old(self).names()),
                *old(self),
                *final(self),
            ),
        decreases old(self).tokens@.len() - old(self).current_token_idx, 2nat,
    {
        let cond_expr = match self.parse_expr() {
            Ok(e) => e,
            Err(e) => {
                return Err(e);
            },
        };
        let true_branch = match self.parse_block() {
            Ok(b) => b,
            Err(e) => {
                return Err(e);
            },
        };
        let ghost chain = parse_else_if_branches(self.input(), self.position(), self.names());
        let mut else_if_branches: Vec<ElseIfBranch> = Vec::new();
        while self.at_else_if()
            invariant
                self.well_formed(),
                self.input() == old(self).input(),
                old(self).position() < self.position(),
                chain == branches_then(
                    branch_models_of(else_if_branches@),
                    parse_else_if_branches(self.input(), self.position(), self.names()),
                ),
            decreases self.tokens@.len() - self.current_token_idx,
        {
            self.consume();
            self.consume();
            let cond_expr = match self.parse_expr() {
                Ok(e) => e,
                Err(e) => {
                    return Err(e);
                },
            };
            let true_branch = match self.parse_block() {
                Ok(b) => b,
                Err(e) => {
                    return Err(e);
                },
            };
            let branch = ElseIfBranch { cond_expr, true_branch };
            proof {
                let next = parse_else_if_branches(self.input(), self.position(), self.names());
                assert(branch_models_of(else_if_branches@.push(branch)) =~= branch_models_of(
                    else_if_branches@,
                ) + seq![branch.model()]);
                match next {
                    Ok(n) => {
                        assert(branch_models_of(else_if_branches@) + (seq![branch.model()]
                            + n.value) =~= branch_models_of(else_if_branches@.push(branch))
                            + n.value);
                    },
                    Err(_) => {},
                }
            }
            else_if_branches.push(branch);
        }
        proof {
            assert(branch_models_of(else_if_branches@) + Seq::<BranchView>::empty()
                =~= branch_models_of(else_if_branches@));
        }
        let final_branch = if self.peek().kind == TokenKind::Keyword(Keyword::Else) {
            self.consume();
            match self.parse_block() {
                Ok(b) => Some(b),
                Err(e) => {
                    return Err(e);
                },
            }
        } else {
            None
        };
        let if_expr = IfExpr {
            cond_expr: Box::new(cond_expr),
            true_branch,
            else_if_branches,
            final_branch,
        };
        proof {
            lemma_if_model(if_expr);
            assert(Expr::If(if_expr).model() == ExprView::If(if_expr.model()));
        }
        Ok(Expr::If(if_expr))
    }

    fn parse_for_expr(&mut self) -> (expr: Result<Expr, CompileError>)
        requires
            old(self).well_formed(),
        ensures
            expr_outcome(
                expr,
                parse_for_expr(old(self).input(), old(self).position(), old(self).names()),
                *old(self),
                *final(self),
            ),
        decreases old(self).tokens@.len() - old(self).current_token_idx, 2nat,
    {
        let iteration = if self.peek().kind == TokenKind::Identifier && self.look_ahead(1).kind
            == TokenKind::Colon {
            let ident_tok = self.consume();
            let identifier = self.intern(ident_tok);
            self.consume();
            let start_expr = match self.parse_expr() {
                Ok(e) => e,
                Err(e) => {
                    return Err(e);
                },
            };
            let range_tok = self.peek();
            let range_kind = if range_tok.kind == TokenKind::PeriodPeriodEqual {
                RangeKind::Inclusive
            } else if range_tok.kind == TokenKind::PeriodPeriod {
                RangeKind::Exclusive
            } else {
                return Err(self.expected_error(TokenKind::PeriodPeriod));
            };
            self.consume();
            let end_expr = match self.parse_expr() {
                Ok(e) => e,
                Err(e) => {
                    return Err(e);
                },
            };
            Some(
                ForIteration::Iterative {
                    identifier,
                    start_expr: Box::new(start_expr),
                    end_expr: Box::new(end_expr),
                    range_kind,
                },
            )
        } else if self.peek().kind != TokenKind::Open(Delim::Curly) {
            let cond_expr = match self.parse_expr() {
                Ok(e) => e,
                Err(e) => {
                    return Err(e);
                },
            };
            Some(ForIteration::Conditional { cond_expr: Box::new(cond_expr) })
        } else {
            self.consume();
            let body = match self.parse_compound_expr() {
                Ok(b) => b,
                Err(e) => {
                    return Err(e);
                },
            };
            let for_expr = ForExpr { iteration: None, body };
            assert(Expr::For(for_expr).model() == ExprView::For(for_expr.model()));
            return Ok(Expr::For(for_expr));
        };
        let body = match self.parse_block() {
            Ok(b) => b,
            Err(e) => {
                return Err(e);
            },
        };
        let for_expr = ForExpr { iteration, body };
        assert(Expr::For(for_expr).model() == ExprView::For(for_expr.model()));
        Ok(Expr::For(for_expr))
    }

    fn parse_break_expr(&mut self) -> (expr: Result<Expr, CompileError>)
        ensures
            *final(self) == *old(self),
            match expr {
                Ok(e) => e.model() == ExprView::Break,
                Err(_) => false,
            },
    {
        Ok(Expr::Break)
    }

    fn parse_continue_expr(&mut self) -> (expr: Result<Expr, CompileError>)
        ensures
            *final(self) == *old(self),
            match expr {
                Ok(e) => e.model() == ExprView::Continue,
                Err(_) => false,
            },
    {
        Ok(Expr::Continue)
    }

    fn parse_function(&mut self) -> (expr: Result<Expr, CompileError>)
        requires
            old(self).well_formed(),
        ensures
            expr_outcome(
                expr,
                parse_function(old(self).input(), old(self).position(), old(self).names()),
                *old(self),
                *final(self),
            ),
        decreases old(self).tokens@.len() - old(self).current_token_idx, 5nat,
    {
        if self.peek().kind != TokenKind::Closed(Delim::Paren) {
            return Err(self.expected_error(TokenKind::Closed(Delim::Paren)));
        }
        self.consume();
        let return_type = if self.peek().kind == TokenKind::DashGreater {
            self.consume();
            if self.peek().kind != TokenKind::Keyword(Keyword::I32) {
                return Err(self.expected_error(TokenKind::Keyword(Keyword::I32)));
            }
            self.consume();
            Type::I32
        } else {
            Type::Unit
        };
        let body = match self.parse_block() {
            Ok(b) => b,
            Err(e) => {
                return Err(e);
            },
        };
        let parameters: Vec<Param> = Vec::new();
        Ok(Expr::Function(Function { return_type, parameters, body }))
    }

    /// Reads the expressions of a compound expression and its `}`; the `{`
    /// was read before.
    fn parse_compound_expr(&mut self) -> (block: Result<CompoundExpr, CompileError>)
        requires
            old(self).well_formed(),
        ensures
            match parse_compound_expr(old(self).input(), old(self).position(), old(self).names()) {
                Ok(p) => match block {
                    Ok(c) => c.model() == p.value && final(self).stands_at(
                        *old(self),
                        p.pos,
                        p.names,
                    ) && advanced(old(self).input().tokens, old(self).position(), p.pos),
                    Err(_) => false,
                },
                Err(e) => block == Err::<CompoundExpr, CompileError>(e),
            },
        decreases old(self).tokens@.len() - old(self).current_token_idx, 3nat,
    {
        let mut exprs: Vec<Expr> = Vec::new();
        while !self.at_block_end()
            invariant
                self.well_formed(),
                self.input() == old(self).input(),
                old(self).position() <= self.position(),
                parse_exprs(old(self).input(), old(self).position(), old(self).names())
                    == exprs_then(
                    models_of(exprs@),
                    parse_exprs(self.input(), self.position(), self.names()),
                ),
            decreases self.tokens@.len() - self.current_token_idx,
        {
            let expr = match self.parse_expr() {
                Ok(e) => e,
                Err(e) => {
                    return Err(e);
                },
            };
            proof {
                let next = parse_exprs(self.input(), self.position(), self.names());
                assert(models_of(exprs@.push(expr)) =~= models_of(exprs@) + seq![expr.model()]);
                match next {
                    Ok(n) => {
                        assert(models_of(exprs@) + (seq![expr.model()] + n.value) =~= models_of(
                            exprs@.push(expr),
                        ) + n.value);
                    },
                    Err(_) => {},
                }
            }
            exprs.push(expr);
        }
        proof {
            assert(models_of(exprs@) + Seq::<ExprView>::empty() =~= models_of(exprs@));
        }
        if self.peek().kind != TokenKind::Closed(Delim::Curly) {
            return Err(self.expected_error(TokenKind::Closed(Delim::Curly)));
        }
        self.consume();
        let block = CompoundExpr { exprs };
        proof {
            lemma_compound_model(block);
        }
        Ok(block)
    }

    /// Whether the next two tokens are `else` and `if`.
    fn at_else_if(&self) -> (yes: bool)
        requires
            self.well_formed(),
        ensures
            yes == (kind_at(self.input().tokens, self.position()) == TokenKind::Keyword(
                Keyword::Else,
            ) && kind_at(self.input().tokens, self.position() + 1) == TokenKind::Keyword(
                Keyword::If,
            )),
    {
        self.peek().kind == TokenKind::Keyword(Keyword::Else) && self.look_ahead(1).kind
            == TokenKind::Keyword(Keyword::If)
    }

    /// Whether the next token is `}` or the input has ended.
    fn at_block_end(&self) -> (yes: bool)
        requires
            self.well_formed(),
        ensures
            yes == (self.position() >= self.input().tokens.len() || kind_at(
                self.input().tokens,
                self.position(),
            ) == TokenKind::Closed(Delim::Curly)),
    {
        self.current_token_idx >= self.tokens.len() || self.peek().kind == TokenKind::Closed(
            Delim::Curly,
        )
    }

    /// The next token, or the end-of-input token if none is left.
    fn peek(&self) -> (token: Token)
        requires
            self.well_formed(),
        ensures
            token == token_or_eof(self.input().tokens, self.position()),
    {
        if self.current_token_idx < self.tokens.len() {
            self.tokens[self.current_token_idx]
        } else {
            Token::eof()
        }
    }

    /// The token `amount` places after the next one.
    fn look_ahead(&self, amount: usize) -> (token: Token)
        requires
            self.well_formed(),
        ensures
            token == token_or_eof(self.input().tokens, self.position() + amount as nat),
    {
        if amount < self.tokens.len() - self.current_token_idx {
            self.tokens[self.current_token_idx + amount]
        } else {
            Token::eof()
        }
    }

    /// The next token, which is then passed.
    fn consume(&mut self) -> (token: Token)
        requires
            old(self).well_formed(),
        ensures
            token == token_or_eof(old(self).input().tokens, old(self).position()),
            final(self).stands_at(
                *old(self),
                if old(self).position() < old(self).input().tokens.len() {
                    old(self).position() + 1
                } else {
                    old(self).position()
                },
                old(self).names(),
            ),
    {
        let peeked_tok = self.peek();
        if self.current_token_idx < self.tokens.len() {
            self.current_token_idx += 1;
        }
        peeked_tok
    }

    /// The span of the token that was read last.
    fn previous_span(&self) -> (span: Span)
        requires
            self.well_formed(),
        ensures
            span == previous_span(self.input().tokens, self.position()),
    {
        if self.current_token_idx > 0 {
            self.tokens[self.current_token_idx - 1].span
        } else {
            Span::dummy()
        }
    }

    /// The error for a next token of another kind than `kind`.
    fn expected_error(&self, kind: TokenKind) -> (error: CompileError)
        requires
            self.well_formed(),
        ensures
            error == expected(self.input().tokens, self.position(), kind),
    {
        CompileError::ExpectedButFound {
            expected: kind,
            found: self.peek(),
            after: self.previous_span(),
        }
    }

    /// Interns the name that `token` spells.
    fn intern(&mut self, token: Token) -> (symbol: Symbol)
        requires
            old(self).well_formed(),
        ensures
            symbol == name_symbol(old(self).input().src, token, old(self).names()),
            final(self).stands_at(
                *old(self),
                old(self).position(),
                names_with_token(old(self).input().src, token, old(self).names()),
            ),
    {
        let text = self.ctx.get_text_snippet(token.span);
        self.ctx.get_or_intern_str(text)
    }
}

/// Every successful parse of an expression ends at a later token, within the
/// tokens.
pub proof fn lemma_statement_expr_advances(inp: Input, pos: nat, names: Seq<Seq<u8>>)
    ensures
        match parse_statement_expr(inp, pos, names) {
            Ok(p) => advanced(inp.tokens, pos, p.pos),
            Err(_) => true,
        },
    decreases inp.tokens.len() - pos, 0nat,
{
    if pos < inp.tokens.len() {
        let tok = inp.tokens[pos as int];
        match tok.kind {
            TokenKind::Keyword(Keyword::If) => lemma_if_expr_advances(inp, pos + 1, names),
            TokenKind::Keyword(Keyword::For) => lemma_for_expr_advances(inp, pos + 1, names),
            TokenKind::Open(Delim::Paren) => lemma_function_advances(inp, pos + 1, names),
            TokenKind::Open(Delim::Curly) => lemma_compound_expr_advances(inp, pos + 1, names),
            TokenKind::Identifier => {
                if kind_at(inp.tokens, pos + 1) == TokenKind::ColonEqual {
                    lemma_statement_expr_advances(inp, pos + 2, names);
                }
            },
            _ => {},
        }
    }
}

/// As `lemma_statement_expr_advances`, with the `;` that may follow.
pub proof fn lemma_expr_advances(inp: Input, pos: nat, names: Seq<Seq<u8>>)
    ensures
        match parse_expr(inp, pos, names) {
            Ok(p) => advanced(inp.tokens, pos, p.pos),
            Err(_) => true,
        },
    decreases inp.tokens.len() - pos, 1nat,
{
    lemma_statement_expr_advances(inp, pos, names);
}

proof fn lemma_block_advances(inp: Input, pos: nat, names: Seq<Seq<u8>>)
    ensures
        match parse_block(inp, pos, names) {
            Ok(p) => advanced(inp.tokens, pos, p.pos),
            Err(_) => true,
        },
    decreases inp.tokens.len() - pos, 4nat,
{
    if kind_at(inp.tokens, pos) == TokenKind::Open(Delim::Curly) {
        lemma_compound_expr_advances(inp, pos + 1, names);
    }
}

proof fn lemma_if_expr_advances(inp: Input, pos: nat, names: Seq<Seq<u8>>)
    ensures
        match parse_if_expr(inp, pos, names) {
            Ok(p) => advanced(inp.tokens, pos, p.pos),
            Err(_) => true,
        },
    decreases inp.tokens.len() - pos, 2nat,
{
    lemma_expr_advances(inp, pos, names);
    match parse_expr(inp, pos, names) {
        Ok(c) => {
            lemma_block_advances(inp, c.pos, c.names);
            match parse_block(inp, c.pos, c.names) {
                Ok(t) => {
                    lemma_else_if_branches_advance(inp, t.pos, t.names);
                    match parse_else_if_branches(inp, t.pos, t.names) {
                        Ok(b) => {
                            if kind_at(inp.tokens, b.pos) == TokenKind::Keyword(Keyword::Else) {
                                lemma_block_advances(inp, b.pos + 1, b.names);
                            }
                        },
                        Err(_) => {},
                    }
                },
                Err(_) => {},
            }
        },
        Err(_) => {},
    }
}

proof fn lemma_else_if_branches_advance(inp: Input, pos: nat, names: Seq<Seq<u8>>)
    requires
        pos <= inp.tokens.len(),
    ensures
        match parse_else_if_branches(inp, pos, names) {
            Ok(p) => pos <= p.pos <= inp.tokens.len(),
            Err(_) => true,
        },
    decreases inp.tokens.len() - pos, 5nat,
{
    if kind_at(inp.tokens, pos) == TokenKind::Keyword(Keyword::Else) && kind_at(
        inp.tokens,
        pos + 1,
    ) == TokenKind::Keyword(Keyword::If) {
        lemma_expr_advances(inp, pos + 2, names);
        match parse_expr(inp, pos + 2, names) {
            Ok(c) => {
                lemma_block_advances(inp, c.pos, c.names);
                match parse_block(inp, c.pos, c.names) {
                    Ok(t) => lemma_else_if_branches_advance(inp, t.pos, t.names),
                    Err(_) => {},
                }
            },
            Err(_) => {},
        }
    }
}

proof fn lemma_for_expr_advances(inp: Input, pos: nat, names: Seq<Seq<u8>>)
    ensures
        match parse_for_expr(inp, pos, names) {
            Ok(p) => advanced(inp.tokens, pos, p.pos),
            Err(_) => true,
        },
    decreases inp.tokens.len() - pos, 2nat,
{
    if kind_at(inp.tokens, pos) == TokenKind::Identifier && kind_at(inp.tokens, pos + 1)
        == TokenKind::Colon {
        let first = names_with_token(inp.src, inp.tokens[pos as int], names);
        lemma_expr_advances(inp, pos + 2, first);
        match parse_expr(inp, pos + 2, first) {
            Ok(s) => {
                if kind_at(inp.tokens, s.pos) == TokenKind::PeriodPeriodEqual || kind_at(
                    inp.tokens,
                    s.pos,
                ) == TokenKind::PeriodPeriod {
                    lemma_expr_advances(inp, s.pos + 1, s.names);
                    match parse_expr(inp, s.pos + 1, s.names) {
                        Ok(e) => lemma_block_advances(inp, e.pos, e.names),
                        Err(_) => {},
                    }
                }
            },
            Err(_) => {},
        }
    } else if kind_at(inp.tokens, pos) != TokenKind::Open(Delim::Curly) {
        lemma_expr_advances(inp, pos, names);
        match parse_expr(inp, pos, names) {
            Ok(c) => lemma_block_advances(inp, c.pos, c.names),
            Err(_) => {},
        }
    } else {
        lemma_compound_expr_advances(inp, pos + 1, names);
    }
}

proof fn lemma_function_advances(inp: Input, pos: nat, names: Seq<Seq<u8>>)
    ensures
        match parse_function(inp, pos, names) {
            Ok(p) => advanced(inp.tokens, pos, p.pos),
            Err(_) => true,
        },
    decreases inp.tokens.len() - pos, 5nat,
{
    if kind_at(inp.tokens, pos) == TokenKind::Closed(Delim::Paren) {
        if kind_at(inp.tokens, pos + 1) == TokenKind::DashGreater {
            if kind_at(inp.tokens, pos + 2) == TokenKind::Keyword(Keyword::I32) {
                lemma_block_advances(inp, pos + 3, names);
            }
        } else {
            lemma_block_advances(inp, pos + 1, names);
        }
    }
}

proof fn lemma_compound_expr_advances(inp: Input, pos: nat, names: Seq<Seq<u8>>)
    ensures
        match parse_compound_expr(inp, pos, names) {
            Ok(p) => advanced(inp.tokens, pos, p.pos),
            Err(_) => true,
        },
    decreases inp.tokens.len() - pos, 3nat,
{
    lemma_exprs_advance(inp, pos, names);
}

proof fn lemma_exprs_advance(inp: Input, pos: nat, names: Seq<Seq<u8>>)
    ensures
        match parse_exprs(inp, pos, names) {
            Ok(p) => pos <= p.pos && (pos <= inp.tokens.len() ==> p.pos <= inp.tokens.len()),
            Err(_) => true,
        },
    decreases inp.tokens.len() - pos, 2nat,
{
    if !(pos >= inp.tokens.len() || kind_at(inp.tokens, pos) == TokenKind::Closed(Delim::Curly)) {
        lemma_expr_advances(inp, pos, names);
        match parse_expr(inp, pos, names) {
            Ok(e) => lemma_exprs_advance(inp, e.pos, e.names),
            Err(_) => {},
        }
    }
}

/// Every successful parse of a declaration ends at a later token, within the
/// tokens.
pub proof fn lemma_decl_advances(inp: Input, pos: nat, names: Seq<Seq<u8>>)
    ensures
        match parse_decl(inp, pos, names) {
            Ok(p) => advanced(inp.tokens, pos, p.pos),
            Err(_) => true,
        },
{
    lemma_statement_expr_advances(inp, pos + 2, names);
}

} // verus!
