//! Compile errors and the messages that report them.

use vstd::prelude::*;
use crate::interner::Symbol;
use crate::compiler_context::snippet;
use crate::scanner::{Delim, Keyword, Token, TokenKind, LINE_FEED, SPACE};
use crate::span::{BytePos, Span};
use crate::text::{
    bytes_of, decimal_text, push_bytes, push_decimal, push_repeated, push_str, repeated,
};

verus! {

/// Why a compilation failed.
#[derive(Clone, Copy, PartialEq, Eq, Structural, Debug)]
pub enum CompileError {
    /// The scanner met a byte that starts no token.
    UnrecognizedCharacter { at: BytePos },
    /// A top-level declaration does not start with an identifier.
    ExpectedDeclaration { found: Token },
    /// A token of kind `expected` had to follow the token at `after`.
    ExpectedButFound { expected: TokenKind, found: Token, after: Span },
    /// An expression had to follow the token at `after`.
    ExpectedExpression { found: Token, after: Span },
    /// An integer constant does not fit in 32 bits.
    IntegerOutOfRange { found: Token },
    /// A top-level name is bound to something other than a function.
    UnsupportedTopLevel { name: Symbol },
    /// A function literal stands inside a function body.
    NestedFunction,
    /// The end of a counted loop's range is not an integer constant.
    UnsupportedRangeEnd,
    /// A name is used where no binding of it is in scope.
    UnresolvedBinding { name: Symbol },
    /// `break` stands outside every loop.
    BreakOutsideLoop,
    /// `continue` stands outside every loop.
    ContinueOutsideLoop,
    /// A function's bindings need more stack than an offset can address.
    FrameTooLarge,
    /// The compilation unit ran out of label numbers.
    TooManyLabels,
}

/// What a failed compilation reports: its errors, in the order found.
pub struct Diagnostic {
    pub compile_errors: Vec<CompileError>,
}

pub const CARET: u8 = 94;

pub open spec fn keyword_text(keyword: Keyword) -> Seq<u8> {
    match keyword {
        Keyword::I32 => bytes_of("i32"),
        Keyword::If => bytes_of("if"),
        Keyword::Else => bytes_of("else"),
        Keyword::For => bytes_of("for"),
        Keyword::Break => bytes_of("break"),
        Keyword::Continue => bytes_of("continue"),
    }
}

/// How a kind of token is named in a message.
pub open spec fn token_kind_text(kind: TokenKind) -> Seq<u8> {
    match kind {
        TokenKind::Eof => bytes_of("<end of file>"),
        TokenKind::UnitConstant => bytes_of("()"),
        TokenKind::IntegerConstant => bytes_of("<integer constant>"),
        TokenKind::Identifier => bytes_of("<identifier>"),
        TokenKind::Comma => bytes_of(","),
        TokenKind::Excla => bytes_of("!"),
        TokenKind::Star => bytes_of("*"),
        TokenKind::Slash => bytes_of("/"),
        TokenKind::Plus => bytes_of("+"),
        TokenKind::Dash => bytes_of("-"),
        TokenKind::Less => bytes_of("<"),
        TokenKind::Greater => bytes_of(">"),
        TokenKind::LessLess => bytes_of("<<"),
        TokenKind::GreaterGreater => bytes_of(">>"),
        TokenKind::LessEqual => bytes_of("<="),
        TokenKind::GreaterEqual => bytes_of(">="),
        TokenKind::Colon => bytes_of(":"),
        TokenKind::ColonColon => bytes_of("::"),
        TokenKind::ColonEqual => bytes_of(":="),
        TokenKind::Semi => bytes_of(";"),
        TokenKind::DashGreater => bytes_of("->"),
        TokenKind::PeriodPeriod => bytes_of(".."),
        TokenKind::PeriodPeriodEqual => bytes_of("..="),
        TokenKind::Keyword(keyword) => bytes_of("keyword ") + keyword_text(keyword),
        TokenKind::Open(Delim::Paren) => bytes_of("("),
        TokenKind::Open(Delim::Curly) => bytes_of("{"),
        TokenKind::Closed(Delim::Paren) => bytes_of(")"),
        TokenKind::Closed(Delim::Curly) => bytes_of("}"),
    }
}

/// How a token is shown in a message: a constant or an identifier as it
/// stands in the source, any other token by the name of its kind.
pub open spec fn token_text(src: Seq<u8>, token: Token) -> Seq<u8> {
    match token.kind {
        TokenKind::IntegerConstant => snippet(src, token.span),
        TokenKind::Identifier => snippet(src, token.span),
        kind => token_kind_text(kind),
    }
}

/// `what`, then what was found in its place.
pub open spec fn found_text(what: Seq<u8>, src: Seq<u8>, found: Token) -> Seq<u8> {
    what + bytes_of(", found `") + token_text(src, found) + bytes_of("`")
}

/// What is expected where the error `error` was found.
pub open spec fn expectation(error: CompileError) -> Seq<u8> {
    match error {
        CompileError::UnrecognizedCharacter { .. } => bytes_of("unrecognized character"),
        CompileError::ExpectedDeclaration { .. } => bytes_of("expected declaration"),
        CompileError::ExpectedButFound { expected, .. } => bytes_of("expected `")
            + token_kind_text(expected) + bytes_of("`"),
        CompileError::ExpectedExpression { .. } => bytes_of("expected expression"),
        CompileError::IntegerOutOfRange { .. } => bytes_of("integer constant out of range"),
        CompileError::UnsupportedTopLevel { .. } => bytes_of(
            "internal error: only a function can be declared at the top level",
        ),
        CompileError::NestedFunction => bytes_of(
            "internal error: a function cannot be defined inside a function",
        ),
        CompileError::UnsupportedRangeEnd => bytes_of(
            "internal error: the end of a range must be an integer constant",
        ),
        CompileError::UnresolvedBinding { .. } => bytes_of(
            "internal error: binding does not exist",
        ),
        CompileError::BreakOutsideLoop => bytes_of("internal error: `break` outside of a loop"),
        CompileError::ContinueOutsideLoop => bytes_of(
            "internal error: `continue` outside of a loop",
        ),
        CompileError::FrameTooLarge => bytes_of("internal error: stack frame too large"),
        CompileError::TooManyLabels => bytes_of("internal error: too many labels"),
    }
}

/// The first line of a message, after `error: `.
pub open spec fn headline(error: CompileError, src: Seq<u8>) -> Seq<u8> {
    match error {
        CompileError::ExpectedDeclaration { found } => found_text(expectation(error), src, found),
        CompileError::ExpectedButFound { found, .. } => found_text(
            expectation(error),
            src,
            found,
        ),
        CompileError::ExpectedExpression { found, .. } => found_text(
            expectation(error),
            src,
            found,
        ),
        CompileError::IntegerOutOfRange { found } => found_text(expectation(error), src, found),
        _ => expectation(error),
    }
}

/// The place in the source that a message points to, if it points to one.
pub open spec fn location(error: CompileError) -> Option<Span> {
    match error {
        CompileError::UnrecognizedCharacter { at } => Some(Span { start: at, end: at }),
        CompileError::ExpectedDeclaration { found } => Some(found.span),
        CompileError::ExpectedButFound { after, .. } => Some(after),
        CompileError::ExpectedExpression { after, .. } => Some(after),
        CompileError::IntegerOutOfRange { found } => Some(found.span),
        _ => None,
    }
}

/// Whether the message points to the token before the place of the error.
pub open spec fn points_before(error: CompileError) -> bool {
    error is ExpectedButFound || error is ExpectedExpression
}

/// What stands beside the carets that mark the place.
pub open spec fn note(error: CompileError) -> Seq<u8> {
    if points_before(error) {
        expectation(error) + bytes_of(" after this")
    } else {
        expectation(error)
    }
}

/// The position that a message points to: the start of the span, or the end
/// of the source for a span that starts past it.
pub open spec fn anchor(src: Seq<u8>, span: Span) -> nat {
    if span.start.0 <= src.len() {
        span.start.0 as nat
    } else {
        src.len()
    }
}

/// The start of the line that holds `pos`.
pub open spec fn line_start(src: Seq<u8>, pos: nat) -> nat
    decreases pos,
{
    if pos == 0 || pos > src.len() {
        0
    } else if src[pos - 1] == LINE_FEED {
        pos
    } else {
        line_start(src, (pos - 1) as nat)
    }
}

/// The end of the line that holds `pos`: the next line feed, or the end of
/// the source.
pub open spec fn line_end(src: Seq<u8>, pos: nat) -> nat
    decreases src.len() - pos,
{
    if pos >= src.len() {
        src.len()
    } else if src[pos as int] == LINE_FEED {
        pos
    } else {
        line_end(src, pos + 1)
    }
}

/// How many line feeds stand before `pos`.
pub open spec fn line_feeds_before(src: Seq<u8>, pos: nat) -> nat
    decreases pos,
{
    if pos == 0 || pos > src.len() {
        0
    } else {
        line_feeds_before(src, (pos - 1) as nat) + (if src[pos - 1] == LINE_FEED {
            1nat
        } else {
            0nat
        })
    }
}

/// How many carets mark a span: one for each byte, and at least one.
pub open spec fn caret_count(span: Span) -> nat {
    if span.start.0 < span.end.0 {
        (span.end.0 - span.start.0) as nat
    } else {
        1
    }
}

/// The line that names the place: the line and column numbers.
pub open spec fn place_line(line: Seq<u8>, column: nat) -> Seq<u8> {
    repeated(SPACE, line.len()) + bytes_of(">>> <source>:") + line + bytes_of(":") + decimal_text(
        column + 1,
    ) + bytes_of("\n")
}

/// The line of the source, behind its number.
pub open spec fn source_line(line: Seq<u8>, text: Seq<u8>) -> Seq<u8> {
    repeated(SPACE, line.len()) + bytes_of(" |\n") + line + bytes_of(" | ") + text + bytes_of(
        "\n",
    )
}

/// The line of carets under the place, with `note` beside them.
pub open spec fn caret_line(margin: nat, column: nat, carets: nat, note: Seq<u8>) -> Seq<u8> {
    repeated(SPACE, margin) + bytes_of(" | ") + repeated(SPACE, column) + repeated(CARET, carets)
        + bytes_of(" ") + note + bytes_of("\n")
}

/// The lines that show the place `span` in the source: where it is, the line
/// that holds it, and under it carets with `note` beside them.
pub open spec fn location_text(src: Seq<u8>, span: Span, note: Seq<u8>) -> Seq<u8> {
    let at = anchor(src, span);
    let line = decimal_text(line_feeds_before(src, at) + 1);
    let column = (at - line_start(src, at)) as nat;
    place_line(line, column) + source_line(
        line,
        src.subrange(line_start(src, at) as int, line_end(src, at) as int),
    ) + caret_line(line.len(), column, caret_count(span), note)
}

/// The message for one error: a headline, and the place where it has one.
pub open spec fn error_text(error: CompileError, src: Seq<u8>) -> Seq<u8> {
    bytes_of("error: ") + headline(error, src) + bytes_of("\n") + match location(error) {
        Some(span) => location_text(src, span, note(error)),
        None => Seq::empty(),
    }
}

/// The messages for `errors`, one after the other.
pub open spec fn diagnostic_text(errors: Seq<CompileError>, src: Seq<u8>) -> Seq<u8>
    decreases errors.len(),
{
    if errors.len() == 0 {
        Seq::empty()
    } else {
        diagnostic_text(errors.drop_last(), src) + error_text(errors.last(), src)
    }
}

/// The start of a line lies at or before the position, the end at or after.
pub proof fn lemma_line_bounds(src: Seq<u8>, pos: nat)
    requires
        pos <= src.len(),
    ensures
        line_start(src, pos) <= pos <= line_end(src, pos) <= src.len(),
        line_feeds_before(src, pos) <= pos,
{
    lemma_line_start_bound(src, pos);
    lemma_line_end_bound(src, pos);
}

proof fn lemma_line_start_bound(src: Seq<u8>, pos: nat)
    requires
        pos <= src.len(),
    ensures
        line_start(src, pos) <= pos,
        line_feeds_before(src, pos) <= pos,
    decreases pos,
{
    if pos > 0 {
        lemma_line_start_bound(src, (pos - 1) as nat);
    }
}

proof fn lemma_line_end_bound(src: Seq<u8>, pos: nat)
    requires
        pos <= src.len(),
    ensures
        pos <= line_end(src, pos) <= src.len(),
    decreases src.len() - pos,
{
    if pos < src.len() && src[pos as int] != LINE_FEED {
        lemma_line_end_bound(src, pos + 1);
    }
}

fn push_keyword(out: &mut Vec<u8>, keyword: Keyword)
    ensures
        final(out)@ == old(out)@ + keyword_text(keyword),
{
    match keyword {
        Keyword::I32 => push_str(out, "i32"),
        Keyword::If => push_str(out, "if"),
        Keyword::Else => push_str(out, "else"),
        Keyword::For => push_str(out, "for"),
        Keyword::Break => push_str(out, "break"),
        Keyword::Continue => push_str(out, "continue"),
    }
}

/// Appends the name of a kind of token.
pub fn push_token_kind(out: &mut Vec<u8>, kind: TokenKind)
    ensures
        final(out)@ == old(out)@ + token_kind_text(kind),
{
    match kind {
        TokenKind::Eof => push_str(out, "<end of file>"),
        TokenKind::UnitConstant => push_str(out, "()"),
        TokenKind::IntegerConstant => push_str(out, "<integer constant>"),
        TokenKind::Identifier => push_str(out, "<identifier>"),
        TokenKind::Comma => push_str(out, ","),
        TokenKind::Excla => push_str(out, "!"),
        TokenKind::Star => push_str(out, "*"),
        TokenKind::Slash => push_str(out, "/"),
        TokenKind::Plus => push_str(out, "+"),
        TokenKind::Dash => push_str(out, "-"),
        TokenKind::Less => push_str(out, "<"),
        TokenKind::Greater => push_str(out, ">"),
        TokenKind::LessLess => push_str(out, "<<"),
        TokenKind::GreaterGreater => push_str(out, ">>"),
        TokenKind::LessEqual => push_str(out, "<="),
        TokenKind::GreaterEqual => push_str(out, ">="),
        TokenKind::Colon => push_str(out, ":"),
        TokenKind::ColonColon => push_str(out, "::"),
        TokenKind::ColonEqual => push_str(out, ":="),
        TokenKind::Semi => push_str(out, ";"),
        TokenKind::DashGreater => push_str(out, "->"),
        TokenKind::PeriodPeriod => push_str(out, ".."),
        TokenKind::PeriodPeriodEqual => push_str(out, "..="),
        TokenKind::Keyword(keyword) => {
            push_str(out, "keyword ");
            push_keyword(out, keyword);
            assert(out@ =~= old(out)@ + token_kind_text(kind));
        },
        TokenKind::Open(Delim::Paren) => push_str(out, "("),
        TokenKind::Open(Delim::Curly) => push_str(out, "{"),
        TokenKind::Closed(Delim::Paren) => push_str(out, ")"),
        TokenKind::Closed(Delim::Curly) => push_str(out, "}"),
    }
}

/// Appends the bytes of the source that `span` covers.
fn push_snippet(out: &mut Vec<u8>, src: &[u8], span: Span)
    ensures
        final(out)@ == old(out)@ + snippet(src@, span),
{
    if span.start.0 <= span.end.0 && span.end.0 <= src.len() {
        push_bytes(out, vstd::slice::slice_subrange(src, span.start.0, span.end.0));
    } else {
        assert(out@ =~= old(out)@ + Seq::<u8>::empty());
    }
}

/// Appends a token as a message shows it.
pub fn push_token(out: &mut Vec<u8>, src: &[u8], token: Token)
    ensures
        final(out)@ == old(out)@ + token_text(src@, token),
{
    match token.kind {
        TokenKind::IntegerConstant => push_snippet(out, src, token.span),
        TokenKind::Identifier => push_snippet(out, src, token.span),
        kind => push_token_kind(out, kind),
    }
}

impl CompileError {
    /// Appends what is expected where this error was found.
    fn push_expectation(&self, out: &mut Vec<u8>)
        ensures
            final(out)@ == old(out)@ + expectation(*self),
    {
        match self {
            CompileError::UnrecognizedCharacter { .. } => push_str(out, "unrecognized character"),
            CompileError::ExpectedDeclaration { .. } => push_str(out, "expected declaration"),
            CompileError::ExpectedButFound { expected, .. } => {
                push_str(out, "expected `");
                push_token_kind(out, *expected);
                push_str(out, "`");
                assert(out@ =~= old(out)@ + expectation(*self));
            },
            CompileError::ExpectedExpression { .. } => push_str(out, "expected expression"),
            CompileError::IntegerOutOfRange { .. } => push_str(
                out,
                "integer constant out of range",
            ),
            CompileError::UnsupportedTopLevel { .. } => push_str(
                out,
                "internal error: only a function can be declared at the top level",
            ),
            CompileError::NestedFunction => push_str(
                out,
                "internal error: a function cannot be defined inside a function",
            ),
            CompileError::UnsupportedRangeEnd => push_str(
                out,
                "internal error: the end of a range must be an integer constant",
            ),
            CompileError::UnresolvedBinding { .. } => push_str(
                out,
                "internal error: binding does not exist",
            ),
            CompileError::BreakOutsideLoop => push_str(
                out,
                "internal error: `break` outside of a loop",
            ),
            CompileError::ContinueOutsideLoop => push_str(
                out,
                "internal error: `continue` outside of a loop",
            ),
            CompileError::FrameTooLarge => push_str(out, "internal error: stack frame too large"),
            CompileError::TooManyLabels => push_str(out, "internal error: too many labels"),
        }
    }

    /// Appends the expectation and what was found in its place.
    fn push_found(&self, out: &mut Vec<u8>, src: &[u8], found: Token)
        ensures
            final(out)@ == old(out)@ + found_text(expectation(*self), src@, found),
    {
        self.push_expectation(out);
        push_str(out, ", found `");
        push_token(out, src, found);
        push_str(out, "`");
        assert(out@ =~= old(out)@ + found_text(expectation(*self), src@, found));
    }

    /// Appends the first line of the message, after `error: `.
    fn push_headline(&self, out: &mut Vec<u8>, src: &[u8])
        ensures
            final(out)@ == old(out)@ + headline(*self, src@),
    {
        match self {
            CompileError::ExpectedDeclaration { found } => self.push_found(out, src, *found),
            CompileError::ExpectedButFound { found, .. } => self.push_found(out, src, *found),
            CompileError::ExpectedExpression { found, .. } => self.push_found(out, src, *found),
            CompileError::IntegerOutOfRange { found } => self.push_found(out, src, *found),
            _ => self.push_expectation(out),
        }
    }

    /// The place in the source that the message points to, if any.
    pub fn location(&self) -> (span: Option<Span>)
        ensures
            span == location(*self),
    {
        match self {
            CompileError::UnrecognizedCharacter { at } => Some(Span { start: *at, end: *at }),
            CompileError::ExpectedDeclaration { found } => Some(found.span),
            CompileError::ExpectedButFound { after, .. } => Some(*after),
            CompileError::ExpectedExpression { after, .. } => Some(*after),
            CompileError::IntegerOutOfRange { found } => Some(found.span),
            _ => None,
        }
    }

    /// Appends what stands beside the carets.
    fn push_note(&self, out: &mut Vec<u8>)
        ensures
            final(out)@ == old(out)@ + note(*self),
    {
        self.push_expectation(out);
        match self {
            CompileError::ExpectedButFound { .. } => {
                push_str(out, " after this");
                assert(out@ =~= old(out)@ + note(*self));
            },
            CompileError::ExpectedExpression { .. } => {
                push_str(out, " after this");
                assert(out@ =~= old(out)@ + note(*self));
            },
            _ => {},
        }
    }

    /// Appends the message for this error.
    pub fn render(&self, out: &mut Vec<u8>, src: &[u8])
        ensures
            final(out)@ == old(out)@ + error_text(*self, src@),
    {
        push_str(out, "error: ");
        self.push_headline(out, src);
        push_str(out, "\n");
        match self.location() {
            Some(span) => {
                self.push_location(out, src, span);
                assert(out@ =~= old(out)@ + error_text(*self, src@));
            },
            None => {
                assert(out@ =~= old(out)@ + error_text(*self, src@));
            },
        }
    }

    /// Appends the lines that show the place `span` in the source.
    fn push_location(&self, out: &mut Vec<u8>, src: &[u8], span: Span)
        ensures
            final(out)@ == old(out)@ + location_text(src@, span, note(*self)),
    {
        let at = if span.start.0 <= src.len() {
            span.start.0
        } else {
            src.len()
        };
        proof {
            lemma_line_bounds(src@, at as nat);
        }
        let start = start_of_line(src, at);
        let end = end_of_line(src, at);
        let feeds = count_line_feeds(src, at);
        let mut line: Vec<u8> = Vec::new();
        push_decimal(&mut line, feeds as u128 + 1);
        assert(line@ =~= decimal_text(line_feeds_before(src@, at as nat) + 1));
        let column = at - start;
        let carets = if span.start.0 < span.end.0 {
            span.end.0 - span.start.0
        } else {
            1
        };
        push_place_line(out, line.as_slice(), column);
        push_source_line(out, line.as_slice(), vstd::slice::slice_subrange(src, start, end));
        self.push_caret_line(out, line.len(), column, carets);
        assert(out@ =~= old(out)@ + location_text(src@, span, note(*self)));
    }

    /// Appends the line of carets under the place.
    fn push_caret_line(&self, out: &mut Vec<u8>, margin: usize, column: usize, carets: usize)
        ensures
            final(out)@ == old(out)@ + caret_line(
                margin as nat,
                column as nat,
                carets as nat,
                note(*self),
            ),
    {
        push_repeated(out, SPACE, margin);
        push_str(out, " | ");
        push_repeated(out, SPACE, column);
        push_repeated(out, CARET, carets);
        push_str(out, " ");
        self.push_note(out);
        push_str(out, "\n");
        assert(out@ =~= old(out)@ + caret_line(
            margin as nat,
            column as nat,
            carets as nat,
            note(*self),
        ));
    }
}

/// Appends the line that names the place.
fn push_place_line(out: &mut Vec<u8>, line: &[u8], column: usize)
    ensures
        final(out)@ == old(out)@ + place_line(line@, column as nat),
{
    push_repeated(out, SPACE, line.len());
    push_str(out, ">>> <source>:");
    push_bytes(out, line);
    push_str(out, ":");
    push_decimal(out, column as u128 + 1);
    push_str(out, "\n");
    assert(out@ =~= old(out)@ + place_line(line@, column as nat));
}

/// Appends the line of the source, behind its number.
fn push_source_line(out: &mut Vec<u8>, line: &[u8], text: &[u8])
    ensures
        final(out)@ == old(out)@ + source_line(line@, text@),
{
    push_repeated(out, SPACE, line.len());
    push_str(out, " |\n");
    push_bytes(out, line);
    push_str(out, " | ");
    push_bytes(out, text);
    push_str(out, "\n");
    assert(out@ =~= old(out)@ + source_line(line@, text@));
}

/// The start of the line that holds `pos`.
fn start_of_line(src: &[u8], pos: usize) -> (start: usize)
    requires
        pos <= src@.len(),
    ensures
        start == line_start(src@, pos as nat),
{
    let mut i: usize = pos;
    while i > 0 && src[i - 1] != LINE_FEED
        invariant
            i <= pos <= src@.len(),
            line_start(src@, pos as nat) == line_start(src@, i as nat),
        decreases i,
    {
        i -= 1;
    }
    i
}

/// The end of the line that holds `pos`.
fn end_of_line(src: &[u8], pos: usize) -> (end: usize)
    requires
        pos <= src@.len(),
    ensures
        end == line_end(src@, pos as nat),
{
    let mut i: usize = pos;
    while i < src.len() && src[i] != LINE_FEED
        invariant
            pos <= i <= src@.len(),
            line_end(src@, pos as nat) == line_end(src@, i as nat),
        decreases src@.len() - i,
    {
        i += 1;
    }
    i
}

/// How many line feeds stand before `pos`.
fn count_line_feeds(src: &[u8], pos: usize) -> (count: usize)
    requires
        pos <= src@.len(),
    ensures
        count == line_feeds_before(src@, pos as nat),
{
    let mut i: usize = 0;
    let mut count: usize = 0;
    while i < pos
        invariant
            i <= pos <= src@.len(),
            count <= i,
            count == line_feeds_before(src@, i as nat),
        decreases pos - i,
    {
        if src[i] == LINE_FEED {
            count += 1;
        }
        i += 1;
    }
    count
}

impl Diagnostic {
    /// A diagnostic that reports one error.
    pub fn of(error: CompileError) -> (diagnostic: Diagnostic)
        ensures
            diagnostic.compile_errors@ == seq![error],
    {
        let mut compile_errors: Vec<CompileError> = Vec::new();
        compile_errors.push(error);
        Diagnostic { compile_errors }
    }

    /// The messages for the errors, one after the other.
    pub fn render(&self, src: &[u8]) -> (text: Vec<u8>)
        ensures
            text@ == diagnostic_text(self.compile_errors@, src@),
    {
        let mut text: Vec<u8> = Vec::new();
        let mut i: usize = 0;
        assert(self.compile_errors@.subrange(0, 0) =~= Seq::<CompileError>::empty());
        while i < self.compile_errors.len()
            invariant
                i <= self.compile_errors@.len(),
                text@ == diagnostic_text(self.compile_errors@.subrange(0, i as int), src@),
            decreases self.compile_errors@.len() - i,
        {
            self.compile_errors[i].render(&mut text, src);
            proof {
                let upto = self.compile_errors@.subrange(0, i + 1);
                assert(upto.drop_last() =~= self.compile_errors@.subrange(0, i as int));
            }
            i += 1;
        }
        assert(self.compile_errors@.subrange(0, i as int) =~= self.compile_errors@);
        text
    }
}

} // verus!
