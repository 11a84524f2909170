//! Interning of names: each text is stored once and known by a small handle.

use vstd::prelude::*;
use crate::text::bytes_equal;

verus! {

/// The bump arena of `bumpalo`, which owns the text of the interned names.
/// Nothing is known of what is inside it.
#[verifier::external_type_specification]
#[verifier::external_body]
pub struct ExBump<const MIN_ALIGN: usize>(bumpalo::Bump<MIN_ALIGN>);

/// A handle for an interned name: its index in the interner's table.
#[derive(Clone, Copy, PartialEq, Eq, Structural, Debug)]
pub struct Symbol(pub usize);

/// The first index at or after `from` at which `names` holds `text`, or the
/// length of `names` if there is none.
pub open spec fn first_index_from(names: Seq<Seq<u8>>, text: Seq<u8>, from: nat) -> nat
    decreases names.len() - from,
{
    if from >= names.len() {
        names.len()
    } else if names[from as int] == text {
        from
    } else {
        first_index_from(names, text, from + 1)
    }
}

/// The index that interning `text` into the table `names` gives: that of its
/// first entry if it is there, else the index of a new last entry.
pub open spec fn symbol_index(names: Seq<Seq<u8>>, text: Seq<u8>) -> nat {
    first_index_from(names, text, 0)
}

/// The symbol that interning `text` into the table `names` gives.
pub open spec fn interned_symbol(names: Seq<Seq<u8>>, text: Seq<u8>) -> Symbol {
    Symbol(symbol_index(names, text) as usize)
}

/// The table after `text` was interned into `names`.
pub open spec fn names_with(names: Seq<Seq<u8>>, text: Seq<u8>) -> Seq<Seq<u8>> {
    if symbol_index(names, text) < names.len() {
        names
    } else {
        names.push(text)
    }
}

/// The text that `symbol` stands for in the table `names`; empty for a symbol
/// that the table does not hold.
pub open spec fn symbol_text(names: Seq<Seq<u8>>, symbol: Symbol) -> Seq<u8> {
    if symbol.0 < names.len() {
        names[symbol.0 as int]
    } else {
        Seq::empty()
    }
}

/// No text stands twice in `names`.
pub open spec fn distinct_names(names: Seq<Seq<u8>>) -> bool {
    forall|i: int, j: int| 0 <= i < j < names.len() ==> names[i] != names[j]
}

/// Copies `text` into the arena with `Bump::alloc_slice_copy`, which returns
/// a slice that lives as long as the arena and holds the same bytes.
#[verifier::external_body]
fn alloc_text<'a>(buffer: &'a bumpalo::Bump, text: &[u8]) -> (stored: &'a [u8])
    ensures
        stored@ == text@,
{
    buffer.alloc_slice_copy(text)
}

/// A table of names, each stored once in a bump arena and known by its index.
pub struct StringInterner<'a> {
    indexed_strs: Vec<&'a [u8]>,
    buffer: &'a bumpalo::Bump,
}

impl<'a> StringInterner<'a> {
    /// The interned names, in the order in which they were first seen.
    pub closed spec fn names(&self) -> Seq<Seq<u8>> {
        Seq::new(self.indexed_strs.len() as nat, |i: int| self.indexed_strs[i]@)
    }

    /// An interner that holds no name yet and will store its names in
    /// `buffer`.
    pub fn new(buffer: &'a bumpalo::Bump) -> (interner: StringInterner<'a>)
        ensures
            interner.names() == Seq::<Seq<u8>>::empty(),
    {
        let interner = StringInterner { indexed_strs: Vec::new(), buffer };
        assert(interner.names() =~= Seq::<Seq<u8>>::empty());
        interner
    }

    /// The symbol of `text`: that of its entry if it was interned before, else
    /// that of a new entry, added at the end of the table. Either way the
    /// symbol then stands for `text`, and a table without repeated entries
    /// stays one.
    pub fn get_or_intern(&mut self, text: &[u8]) -> (symbol: Symbol)
        ensures
            symbol.0 == symbol_index(old(self).names(), text@),
            final(self).names() == names_with(old(self).names(), text@),
            symbol_text(final(self).names(), symbol) == text@,
            distinct_names(old(self).names()) ==> distinct_names(final(self).names()),
    {
        proof {
            lemma_interned_symbol_resolves(self.names(), text@);
            if distinct_names(self.names()) {
                lemma_intern_keeps_distinct(self.names(), text@);
            }
        }
        let mut i: usize = 0;
        while i < self.indexed_strs.len()
            invariant
                i <= self.indexed_strs.len(),
                *self == *old(self),
                symbol_index(self.names(), text@) == first_index_from(self.names(), text@, i as nat),
            decreases self.indexed_strs.len() - i,
        {
            if bytes_equal(self.indexed_strs[i], text) {
                return Symbol(i);
            }
            i += 1;
        }
        let stored = alloc_text(self.buffer, text);
        self.indexed_strs.push(stored);
        assert(self.names() =~= old(self).names().push(text@));
        Symbol(i)
    }

    /// The text of `symbol`, or `None` for a symbol that was not handed out
    /// by this interner.
    pub fn resolve(&self, symbol: Symbol) -> (text: Option<&'a [u8]>)
        ensures
            match text {
                Some(t) => symbol.0 < self.names().len() && t@ == self.names()[symbol.0 as int],
                None => symbol.0 >= self.names().len(),
            },
    {
        if symbol.0 < self.indexed_strs.len() {
            Some(self.indexed_strs[symbol.0])
        } else {
            None
        }
    }
}

/// Interning returns a symbol that stands for the interned text.
pub proof fn lemma_interned_symbol_resolves(names: Seq<Seq<u8>>, text: Seq<u8>)
    ensures
        symbol_index(names, text) < names_with(names, text).len(),
        names_with(names, text)[symbol_index(names, text) as int] == text,
{
    lemma_first_index(names, text, 0);
}

/// Interning keeps every earlier entry where it was.
pub proof fn lemma_intern_extends(names: Seq<Seq<u8>>, text: Seq<u8>)
    ensures
        names.len() <= names_with(names, text).len() <= names.len() + 1,
        forall|i: int| 0 <= i < names.len() ==> names_with(names, text)[i] == names[i],
{
}

/// Interning a table without repeated entries gives one without repeated
/// entries: a text is stored once.
pub proof fn lemma_intern_keeps_distinct(names: Seq<Seq<u8>>, text: Seq<u8>)
    requires
        distinct_names(names),
    ensures
        distinct_names(names_with(names, text)),
{
    lemma_first_index(names, text, 0);
}

proof fn lemma_first_index(names: Seq<Seq<u8>>, text: Seq<u8>, from: nat)
    requires
        from <= names.len(),
    ensures
        from <= first_index_from(names, text, from) <= names.len(),
        first_index_from(names, text, from) < names.len() ==> names[first_index_from(
            names,
            text,
            from,
        ) as int] == text,
        forall|k: int| from <= k < first_index_from(names, text, from) ==> names[k] != text,
    decreases names.len() - from,
{
    if from < names.len() && names[from as int] != text {
        lemma_first_index(names, text, from + 1);
    }
}

} // verus!
