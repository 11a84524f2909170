//! Scanning of the source text into tokens.

use vstd::prelude::*;
use crate::error::CompileError;
use crate::span::{BytePos, Span};
use crate::text::{bytes_equal, bytes_of};

verus! {

#[derive(Clone, Copy, PartialEq, Eq, Structural, Debug)]
pub enum Keyword {
    I32,
    If,
    Else,
    For,
    Break,
    Continue,
}

#[derive(Clone, Copy, PartialEq, Eq, Structural, Debug)]
pub enum Delim {
    Paren,
    Curly,
}

#[derive(Clone, Copy, PartialEq, Eq, Structural, Debug)]
pub enum TokenKind {
    Eof,
    UnitConstant,
    IntegerConstant,
    Identifier,
    Comma,
    Excla,
    Star,
    Slash,
    Plus,
    Dash,
    Less,
    Greater,
    LessLess,
    GreaterGreater,
    LessEqual,
    GreaterEqual,
    Colon,
    ColonColon,
    ColonEqual,
    Semi,
    DashGreater,
    PeriodPeriod,
    PeriodPeriodEqual,
    Keyword(Keyword),
    Open(Delim),
    Closed(Delim),
}

/// A token: its kind and the bytes of the source that it was read from.
#[derive(Clone, Copy, PartialEq, Eq, Structural, Debug)]
pub struct Token {
    pub kind: TokenKind,
    pub span: Span,
}

impl Token {
    /// The token that stands for the end of the input.
    pub fn eof() -> (token: Token)
        ensures
            token == eof_token(),
    {
        Token { kind: TokenKind::Eof, span: Span::dummy() }
    }
}

pub open spec fn eof_token() -> Token {
    Token {
        kind: TokenKind::Eof,
        span: Span { start: BytePos(usize::MAX), end: BytePos(usize::MAX) },
    }
}

pub const TAB: u8 = 9;
pub const LINE_FEED: u8 = 10;
pub const FORM_FEED: u8 = 12;
pub const CARRIAGE_RETURN: u8 = 13;
pub const SPACE: u8 = 32;
pub const OPEN_PAREN: u8 = 40;
pub const CLOSED_PAREN: u8 = 41;
pub const DASH: u8 = 45;
pub const PERIOD: u8 = 46;
pub const COLON: u8 = 58;
pub const SEMICOLON: u8 = 59;
pub const EQUAL: u8 = 61;
pub const GREATER: u8 = 62;
pub const UNDERSCORE: u8 = 95;
pub const OPEN_CURLY: u8 = 123;
pub const CLOSED_CURLY: u8 = 125;

pub open spec fn is_whitespace(b: u8) -> bool {
    b == SPACE || b == TAB || b == LINE_FEED || b == FORM_FEED || b == CARRIAGE_RETURN
}

pub open spec fn is_digit(b: u8) -> bool {
    48 <= b <= 57
}

pub open spec fn is_identifier_start(b: u8) -> bool {
    97 <= b <= 122 || 65 <= b <= 90 || b == UNDERSCORE
}

pub open spec fn is_identifier_part(b: u8) -> bool {
    is_identifier_start(b) || is_digit(b)
}

/// The byte at `pos`, if the source is that long.
pub open spec fn byte_at(src: Seq<u8>, pos: nat) -> Option<u8> {
    if pos < src.len() {
        Some(src[pos as int])
    } else {
        None
    }
}

/// How many digits stand in a row from `pos` on.
pub open spec fn digit_count(src: Seq<u8>, pos: nat) -> nat
    decreases src.len() - pos,
{
    if pos < src.len() && is_digit(src[pos as int]) {
        1 + digit_count(src, pos + 1)
    } else {
        0
    }
}

/// How many letters, digits and underscores stand in a row from `pos` on.
pub open spec fn identifier_part_count(src: Seq<u8>, pos: nat) -> nat
    decreases src.len() - pos,
{
    if pos < src.len() && is_identifier_part(src[pos as int]) {
        1 + identifier_part_count(src, pos + 1)
    } else {
        0
    }
}

/// The kind of a word: that of the keyword it spells, else an identifier.
pub open spec fn word_kind(word: Seq<u8>) -> TokenKind {
    if word == bytes_of("i32") {
        TokenKind::Keyword(Keyword::I32)
    } else if word == bytes_of("if") {
        TokenKind::Keyword(Keyword::If)
    } else if word == bytes_of("else") {
        TokenKind::Keyword(Keyword::Else)
    } else if word == bytes_of("for") {
        TokenKind::Keyword(Keyword::For)
    } else if word == bytes_of("break") {
        TokenKind::Keyword(Keyword::Break)
    } else if word == bytes_of("continue") {
        TokenKind::Keyword(Keyword::Continue)
    } else {
        TokenKind::Identifier
    }
}

/// The token that starts at `start`, as its kind and its length in bytes: the
/// longest punctuation, digit run or word that stands there. `None` where the
/// byte at `start` starts no token.
pub open spec fn token_at(src: Seq<u8>, start: nat) -> Option<(TokenKind, nat)> {
    let first = byte_at(src, start);
    let second = byte_at(src, start + 1);
    let third = byte_at(src, start + 2);
    if first == Some(SEMICOLON) {
        Some((TokenKind::Semi, 1nat))
    } else if first == Some(COLON) {
        if second == Some(COLON) {
            Some((TokenKind::ColonColon, 2nat))
        } else if second == Some(EQUAL) {
            Some((TokenKind::ColonEqual, 2nat))
        } else {
            Some((TokenKind::Colon, 1nat))
        }
    } else if first == Some(OPEN_PAREN) {
        Some((TokenKind::Open(Delim::Paren), 1nat))
    } else if first == Some(CLOSED_PAREN) {
        Some((TokenKind::Closed(Delim::Paren), 1nat))
    } else if first == Some(OPEN_CURLY) {
        Some((TokenKind::Open(Delim::Curly), 1nat))
    } else if first == Some(CLOSED_CURLY) {
        Some((TokenKind::Closed(Delim::Curly), 1nat))
    } else if first == Some(DASH) && second == Some(GREATER) {
        Some((TokenKind::DashGreater, 2nat))
    } else if first == Some(PERIOD) && second == Some(PERIOD) {
        if third == Some(EQUAL) {
            Some((TokenKind::PeriodPeriodEqual, 3nat))
        } else {
            Some((TokenKind::PeriodPeriod, 2nat))
        }
    } else if first.is_some() && is_digit(first.unwrap()) {
        Some((TokenKind::IntegerConstant, 1 + digit_count(src, start + 1)))
    } else if first.is_some() && is_identifier_start(first.unwrap()) {
        let len = 1 + identifier_part_count(src, start + 1);
        Some((word_kind(src.subrange(start as int, (start + len) as int)), len))
    } else {
        None
    }
}

pub open spec fn token_spanning(kind: TokenKind, start: nat, len: nat) -> Token {
    Token {
        kind,
        span: Span { start: BytePos(start as usize), end: BytePos((start + len) as usize) },
    }
}

/// The first token at or after `pos`, whitespace skipped: `Ok(None)` at the
/// end of the input, an error at a byte that starts no token.
pub open spec fn next_token(src: Seq<u8>, pos: nat) -> Result<Option<Token>, CompileError>
    decreases src.len() - pos,
{
    if pos >= src.len() {
        Ok(None)
    } else if is_whitespace(src[pos as int]) {
        next_token(src, pos + 1)
    } else {
        match token_at(src, pos) {
            Some((kind, len)) => Ok(Some(token_spanning(kind, pos, len))),
            None => Err(CompileError::UnrecognizedCharacter { at: BytePos(pos as usize) }),
        }
    }
}

/// `tokens` put before the tokens of `rest`, or the error of `rest`.
pub open spec fn tokens_then(tokens: Seq<Token>, rest: Result<Seq<Token>, CompileError>) -> Result<
    Seq<Token>,
    CompileError,
> {
    match rest {
        Ok(more) => Ok(tokens + more),
        Err(e) => Err(e),
    }
}

/// The tokens of the source from `pos` on, or the first scanning error.
pub open spec fn scan_from(src: Seq<u8>, pos: nat) -> Result<Seq<Token>, CompileError>
    decreases src.len() - pos,
    via scan_from_terminates
{
    if pos >= src.len() {
        Ok(Seq::empty())
    } else if is_whitespace(src[pos as int]) {
        scan_from(src, pos + 1)
    } else {
        match token_at(src, pos) {
            Some((kind, len)) => tokens_then(
                seq![token_spanning(kind, pos, len)],
                scan_from(src, pos + len),
            ),
            None => Err(CompileError::UnrecognizedCharacter { at: BytePos(pos as usize) }),
        }
    }
}

#[via_fn]
proof fn scan_from_terminates(src: Seq<u8>, pos: nat) {
    lemma_token_within(src, pos);
}

/// The tokens of the whole source.
pub open spec fn scan_tokens(src: Seq<u8>) -> Result<Seq<Token>, CompileError> {
    scan_from(src, 0)
}

/// Scanning from `pos` gives the next token and then the tokens from its end.
pub proof fn lemma_scan_from_next_token(src: Seq<u8>, pos: nat)
    requires
        src.len() <= usize::MAX,
    ensures
        scan_from(src, pos) == match next_token(src, pos) {
            Err(e) => Err::<Seq<Token>, CompileError>(e),
            Ok(None) => Ok(Seq::empty()),
            Ok(Some(token)) => tokens_then(seq![token], scan_from(src, token.span.end.0 as nat)),
        },
        match next_token(src, pos) {
            Ok(Some(token)) => pos <= token.span.start.0 < token.span.end.0 <= src.len(),
            _ => true,
        },
    decreases src.len() - pos,
{
    if pos < src.len() {
        if is_whitespace(src[pos as int]) {
            lemma_scan_from_next_token(src, pos + 1);
        } else {
            lemma_token_within(src, pos);
        }
    }
}

/// A token ends within the source.
pub proof fn lemma_token_within(src: Seq<u8>, start: nat)
    ensures
        match token_at(src, start) {
            Some((_, len)) => 1 <= len && start + len <= src.len(),
            None => true,
        },
{
    lemma_digit_count_within(src, start + 1);
    lemma_identifier_part_count_within(src, start + 1);
}

pub proof fn lemma_digit_count_within(src: Seq<u8>, pos: nat)
    ensures
        pos <= src.len() ==> pos + digit_count(src, pos) <= src.len(),
        pos > src.len() ==> digit_count(src, pos) == 0,
    decreases src.len() - pos,
{
    if pos < src.len() && is_digit(src[pos as int]) {
        lemma_digit_count_within(src, pos + 1);
    }
}

proof fn lemma_identifier_part_count_within(src: Seq<u8>, pos: nat)
    ensures
        pos <= src.len() ==> pos + identifier_part_count(src, pos) <= src.len(),
        pos > src.len() ==> identifier_part_count(src, pos) == 0,
    decreases src.len() - pos,
{
    if pos < src.len() && is_identifier_part(src[pos as int]) {
        lemma_identifier_part_count_within(src, pos + 1);
    }
}

/// Reads tokens off a source text, from left to right.
pub struct Scanner<'a> {
    src: &'a [u8],
    current_peek_pos: BytePos,
}

impl<'a> Scanner<'a> {
    /// The source text.
    pub closed spec fn source(&self) -> Seq<u8> {
        self.src@
    }

    /// The position of the next byte to read.
    pub closed spec fn position(&self) -> nat {
        self.current_peek_pos.0 as nat
    }

    /// The position never leaves the source.
    pub closed spec fn well_formed(&self) -> bool {
        self.current_peek_pos.0 <= self.src@.len() <= usize::MAX
    }

    pub fn new(src: &'a [u8]) -> (scanner: Scanner<'a>)
        ensures
            scanner.well_formed(),
            scanner.source() == src@,
            scanner.position() == 0,
    {
        let _len = src.len();
        Scanner { src, current_peek_pos: BytePos(0) }
    }

    /// All tokens from the current position to the end of the source.
    pub fn scan_all_tokens(&mut self) -> (tokens: Result<Vec<Token>, CompileError>)
        requires
            old(self).well_formed(),
        ensures
            final(self).well_formed(),
            final(self).source() == old(self).source(),
            match tokens {
                Ok(found) => scan_from(old(self).source(), old(self).position()) == Ok::<
                    Seq<Token>,
                    CompileError,
                >(found@),
                Err(e) => scan_from(old(self).source(), old(self).position()) == Err::<
                    Seq<Token>,
                    CompileError,
                >(e),
            },
    {
        let mut tokens: Vec<Token> = Vec::new();
        loop
            invariant
                self.well_formed(),
                self.src == old(self).src,
                scan_from(old(self).source(), old(self).position()) == tokens_then(
                    tokens@,
                    scan_from(self.source(), self.position()),
                ),
            decreases self.src@.len() - self.current_peek_pos.0,
        {
            proof {
                lemma_scan_from_next_token(self.source(), self.position());
            }
            match self.scan_next_token() {
                Err(e) => {
                    return Err(e);
                },
                Ok(None) => {
                    assert(tokens@ + Seq::<Token>::empty() =~= tokens@);
                    return Ok(tokens);
                },
                Ok(Some(token)) => {
                    let ghost rest = scan_from(self.source(), self.position());
                    proof {
                        match rest {
                            Ok(more) => {
                                assert(tokens@ + (seq![token] + more) =~= tokens@.push(token)
                                    + more);
                            },
                            Err(_) => {},
                        }
                    }
                    tokens.push(token);
                },
            }
        }
    }

    /// The next token, whitespace skipped, or `None` at the end of the source.
    pub fn scan_next_token(&mut self) -> (token: Result<Option<Token>, CompileError>)
        requires
            old(self).well_formed(),
        ensures
            final(self).well_formed(),
            final(self).source() == old(self).source(),
            token == next_token(old(self).source(), old(self).position()),
            match token {
                Ok(Some(t)) => final(self).position() == t.span.end.0,
                _ => true,
            },
    {
        self.skip_whitespace();
        let span_start = self.current_peek_pos;
        proof {
            lemma_token_within(self.source(), self.position());
        }
        let first = match self.bump() {
            None => {
                return Ok(None);
            },
            Some(b) => b,
        };
        let token_kind = if first == SEMICOLON {
            TokenKind::Semi
        } else if first == COLON {
            if self.peek_is(COLON) {
                self.bump();
                TokenKind::ColonColon
            } else if self.peek_is(EQUAL) {
                self.bump();
                TokenKind::ColonEqual
            } else {
                TokenKind::Colon
            }
        } else if first == OPEN_PAREN {
            TokenKind::Open(Delim::Paren)
        } else if first == CLOSED_PAREN {
            TokenKind::Closed(Delim::Paren)
        } else if first == OPEN_CURLY {
            TokenKind::Open(Delim::Curly)
        } else if first == CLOSED_CURLY {
            TokenKind::Closed(Delim::Curly)
        } else if first == DASH && self.peek_is(GREATER) {
            self.bump();
            TokenKind::DashGreater
        } else if first == PERIOD && self.peek_is(PERIOD) {
            self.bump();
            if self.peek_is(EQUAL) {
                self.bump();
                TokenKind::PeriodPeriodEqual
            } else {
                TokenKind::PeriodPeriod
            }
        } else if first >= 48 && first <= 57 {
            self.scan_integer_constant()
        } else if (first >= 97 && first <= 122) || (first >= 65 && first <= 90) || first
            == UNDERSCORE {
            self.scan_identifier(span_start)
        } else {
            return Err(CompileError::UnrecognizedCharacter { at: span_start });
        };
        let token_span = Span { start: span_start, end: self.current_peek_pos };
        Ok(Some(Token { kind: token_kind, span: token_span }))
    }

    /// Moves past the whitespace at the current position.
    fn skip_whitespace(&mut self)
        requires
            old(self).well_formed(),
        ensures
            final(self).well_formed(),
            final(self).src == old(self).src,
            old(self).position() <= final(self).position(),
            next_token(old(self).source(), old(self).position()) == next_token(
                final(self).source(),
                final(self).position(),
            ),
            match byte_at(final(self).source(), final(self).position()) {
                Some(b) => !is_whitespace(b),
                None => true,
            },
    {
        loop
            invariant
                self.well_formed(),
                self.src == old(self).src,
                old(self).position() <= self.position(),
                next_token(old(self).source(), old(self).position()) == next_token(
                    self.source(),
                    self.position(),
                ),
            decreases self.src@.len() - self.current_peek_pos.0,
        {
            match self.peek() {
                Some(b) => {
                    if b == SPACE || b == TAB || b == LINE_FEED || b == FORM_FEED || b
                        == CARRIAGE_RETURN {
                        self.bump();
                    } else {
                        return ;
                    }
                },
                None => {
                    return ;
                },
            }
        }
    }

    /// Moves past the digits at the current position.
    fn scan_integer_constant(&mut self) -> (kind: TokenKind)
        requires
            old(self).well_formed(),
        ensures
            final(self).well_formed(),
            final(self).src == old(self).src,
            final(self).position() == old(self).position() + digit_count(
                old(self).source(),
                old(self).position(),
            ),
            kind == TokenKind::IntegerConstant,
    {
        loop
            invariant
                self.well_formed(),
                self.src == old(self).src,
                self.position() + digit_count(self.source(), self.position()) == old(self).position() + digit_count(old(self).source(), old(self).position()),
            decreases self.src@.len() - self.current_peek_pos.0,
        {
            match self.peek() {
                Some(b) => {
                    if b >= 48 && b <= 57 {
                        self.bump();
                    } else {
                        return TokenKind::IntegerConstant;
                    }
                },
                None => {
                    return TokenKind::IntegerConstant;
                },
            }
        }
    }

    /// Moves past the rest of the word that started at `ident_span_start`, and
    /// tells a keyword from an identifier.
    fn scan_identifier(&mut self, ident_span_start: BytePos) -> (kind: TokenKind)
        requires
            old(self).well_formed(),
            ident_span_start.0 <= old(self).position(),
        ensures
            final(self).well_formed(),
            final(self).src == old(self).src,
            final(self).position() == old(self).position() + identifier_part_count(
                old(self).source(),
                old(self).position(),
            ),
            kind == word_kind(
                old(self).source().subrange(
                    ident_span_start.0 as int,
                    final(self).position() as int,
                ),
            ),
    {
        loop
            invariant
                self.well_formed(),
                self.src == old(self).src,
                ident_span_start.0 <= old(self).position() <= self.position(),
                self.position() + identifier_part_count(self.source(), self.position()) == old(self).position() + identifier_part_count(old(self).source(), old(self).position()),
            decreases self.src@.len() - self.current_peek_pos.0,
        {
            match self.peek() {
                Some(b) => {
                    if (b >= 97 && b <= 122) || (b >= 65 && b <= 90) || b == UNDERSCORE || (b
                        >= 48 && b <= 57) {
                        self.bump();
                    } else {
                        return self.word_kind_from(ident_span_start);
                    }
                },
                None => {
                    return self.word_kind_from(ident_span_start);
                },
            }
        }
    }

    /// The kind of the word from `start` to the current position.
    fn word_kind_from(&self, start: BytePos) -> (kind: TokenKind)
        requires
            self.well_formed(),
            start.0 <= self.position(),
        ensures
            kind == word_kind(self.source().subrange(start.0 as int, self.position() as int)),
    {
        let ident_text = vstd::slice::slice_subrange(self.src, start.0, self.current_peek_pos.0);
        if bytes_equal(ident_text, "i32".as_bytes()) {
            TokenKind::Keyword(Keyword::I32)
        } else if bytes_equal(ident_text, "if".as_bytes()) {
            TokenKind::Keyword(Keyword::If)
        } else if bytes_equal(ident_text, "else".as_bytes()) {
            TokenKind::Keyword(Keyword::Else)
        } else if bytes_equal(ident_text, "for".as_bytes()) {
            TokenKind::Keyword(Keyword::For)
        } else if bytes_equal(ident_text, "break".as_bytes()) {
            TokenKind::Keyword(Keyword::Break)
        } else if bytes_equal(ident_text, "continue".as_bytes()) {
            TokenKind::Keyword(Keyword::Continue)
        } else {
            TokenKind::Identifier
        }
    }

    /// The byte at the current position, if any is left.
    fn peek(&self) -> (byte: Option<u8>)
        requires
            self.well_formed(),
        ensures
            byte == byte_at(self.source(), self.position()),
    {
        if self.current_peek_pos.0 < self.src.len() {
            Some(self.src[self.current_peek_pos.0])
        } else {
            None
        }
    }

    /// Whether the byte at the current position is `byte`.
    fn peek_is(&self, byte: u8) -> (same: bool)
        requires
            self.well_formed(),
        ensures
            same == (byte_at(self.source(), self.position()) == Some(byte)),
    {
        match self.peek() {
            Some(b) => b == byte,
            None => false,
        }
    }

    /// The byte at the current position, which is then passed.
    fn bump(&mut self) -> (byte: Option<u8>)
        requires
            old(self).well_formed(),
        ensures
            final(self).well_formed(),
            final(self).src == old(self).src,
            byte == byte_at(old(self).source(), old(self).position()),
            final(self).position() == old(self).position() + (if byte.is_some() {
                1nat
            } else {
                0nat
            }),
    {
        let peeked = self.peek();
        if peeked.is_some() {
            self.current_peek_pos = BytePos(self.current_peek_pos.0 + 1);
        }
        peeked
    }
}

/// The spans of `tokens` stand one after the other between `from` and `len`:
/// none is empty, each lies in that range, and each starts at or after the
/// end of the one before.
pub open spec fn spans_in_order(tokens: Seq<Token>, from: nat, len: nat) -> bool {
    &&& forall|i: int|
        0 <= i < tokens.len() ==> from <= (#[trigger] tokens[i]).span.start.0
            < tokens[i].span.end.0 <= len
    &&& forall|i: int, j: int|
        0 <= i < j < tokens.len() ==> (#[trigger] tokens[i]).span.end.0 <= (
        #[trigger] tokens[j]).span.start.0
}

/// The tokens scanned from a source lie in it, in the order of the text and
/// without overlap.
pub proof fn law_scanned_spans_in_order(src: Seq<u8>, pos: nat)
    requires
        src.len() <= usize::MAX,
    ensures
        match scan_from(src, pos) {
            Ok(tokens) => spans_in_order(tokens, pos, src.len()),
            Err(_) => true,
        },
    decreases src.len() - pos,
{
    if pos < src.len() {
        if is_whitespace(src[pos as int]) {
            law_scanned_spans_in_order(src, pos + 1);
        } else {
            lemma_token_within(src, pos);
            match token_at(src, pos) {
                Some((kind, len)) => {
                    law_scanned_spans_in_order(src, pos + len);
                    match scan_from(src, pos + len) {
                        Ok(rest) => {
                            let first = token_spanning(kind, pos, len);
                            let tokens = seq![first] + rest;
                            assert forall|i: int| 0 <= i < tokens.len() implies pos <= (
                            #[trigger] tokens[i]).span.start.0 < tokens[i].span.end.0
                                <= src.len() by {
                                if i > 0 {
                                    assert(tokens[i] == rest[i - 1]);
                                }
                            }
                            assert forall|i: int, j: int| 0 <= i < j < tokens.len() implies (
                            #[trigger] tokens[i]).span.end.0 <= (
                            #[trigger] tokens[j]).span.start.0 by {
                                assert(tokens[j] == rest[j - 1]);
                                if i > 0 {
                                    assert(tokens[i] == rest[i - 1]);
                                }
                            }
                        },
                        Err(_) => {},
                    }
                },
                None => {},
            }
        }
    }
}

} // verus!
