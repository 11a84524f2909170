//! Positions and ranges in the source text.

use vstd::prelude::*;

verus! {

/// A position in the source text, counted in bytes from its start.
#[derive(Clone, Copy, PartialEq, Eq, Structural, Debug)]
pub struct BytePos(pub usize);

impl BytePos {
    /// The position that stands for "nowhere in the source".
    pub fn dummy() -> (pos: BytePos)
        ensures
            pos == BytePos(usize::MAX),
    {
        BytePos(usize::MAX)
    }
}

/// A half-open range of bytes in the source text.
#[derive(Clone, Copy, PartialEq, Eq, Structural, Debug)]
pub struct Span {
    pub start: BytePos,
    pub end: BytePos,
}

impl Span {
    /// The span of a token that has no place in the source.
    pub fn dummy() -> (span: Span)
        ensures
            span == (Span { start: BytePos(usize::MAX), end: BytePos(usize::MAX) }),
    {
        Span { start: BytePos::dummy(), end: BytePos::dummy() }
    }
}

} // verus!
