//! What the stages of one compilation share.

use vstd::prelude::*;
use crate::interner::{StringInterner, Symbol, names_with, symbol_index};
use crate::span::Span;

verus! {

/// The bytes of the source that `span` covers; none for a span that does not
/// lie in the source.
pub open spec fn snippet(src: Seq<u8>, span: Span) -> Seq<u8> {
    if span.start.0 <= span.end.0 <= src.len() {
        src.subrange(span.start.0 as int, span.end.0 as int)
    } else {
        Seq::empty()
    }
}

/// What the stages of one compilation share: the source text and the table
/// of interned names.
pub struct CompilerContext<'a> {
    source_code: &'a [u8],
    string_interner: StringInterner<'a>,
}

impl<'a> CompilerContext<'a> {
    /// The source text.
    pub closed spec fn source(&self) -> Seq<u8> {
        self.source_code@
    }

    /// The interned names, in the order in which they were first seen.
    pub closed spec fn names(&self) -> Seq<Seq<u8>> {
        self.string_interner.names()
    }

    /// The context of a fresh compilation of `source_code`: no name is
    /// interned yet. The names will be stored in `buffer`.
    pub fn new(source_code: &'a [u8], buffer: &'a bumpalo::Bump) -> (ctx: CompilerContext<'a>)
        ensures
            ctx.source() == source_code@,
            ctx.names() == Seq::<Seq<u8>>::empty(),
    {
        CompilerContext { source_code, string_interner: StringInterner::new(buffer) }
    }

    pub fn get_source_code(&self) -> (source_code: &'a [u8])
        ensures
            source_code@ == self.source(),
    {
        self.source_code
    }

    /// The bytes of the source that `span` covers.
    pub fn get_text_snippet(&self, span: Span) -> (text: &'a [u8])
        ensures
            text@ == snippet(self.source(), span),
    {
        if span.start.0 <= span.end.0 && span.end.0 <= self.source_code.len() {
            vstd::slice::slice_subrange(self.source_code, span.start.0, span.end.0)
        } else {
            vstd::slice::slice_subrange(self.source_code, 0, 0)
        }
    }

    /// The symbol of `text`, which is interned if it was not yet.
    pub fn get_or_intern_str(&mut self, text: &[u8]) -> (symbol: Symbol)
        ensures
            symbol.0 == symbol_index(old(self).names(), text@),
            final(self).names() == names_with(old(self).names(), text@),
            final(self).source() == old(self).source(),
    {
        self.string_interner.get_or_intern(text)
    }

    /// The text of `symbol`, or `None` for a symbol that this compilation did
    /// not hand out.
    pub fn resolve_symbol(&self, symbol: Symbol) -> (text: Option<&'a [u8]>)
        ensures
            match text {
                Some(t) => symbol.0 < self.names().len() && t@ == self.names()[symbol.0 as int],
                None => symbol.0 >= self.names().len(),
            },
    {
        self.string_interner.resolve(symbol)
    }
}

} // verus!
