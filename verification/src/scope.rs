//! Lexical scopes of the code generator and the layout of the stack frame.

use std::collections::HashMap;
use vstd::prelude::*;
use crate::interner::Symbol;

verus! {

broadcast use vstd::std_specs::hash::group_hash_axioms;

/// The mathematical form of a lexical scope: the frame displacement of each
/// binding defined in it, keyed by the index of the binding's symbol, and
/// the labels of the loop that opened it, if a loop did.
pub struct ScopeView {
    pub offsets: Map<usize, i32>,
    pub start_label: Option<Symbol>,
    pub exit_label: Option<Symbol>,
}

/// A lexical scope of the code generator.
pub struct Scope {
    memory_offset_by_symbol: HashMap<usize, i32>,
    innermost_start_label: Option<Symbol>,
    innermost_exit_label: Option<Symbol>,
}

/// The scope that holds no binding and belongs to no loop.
pub open spec fn empty_scope() -> ScopeView {
    ScopeView { offsets: Map::empty(), start_label: None, exit_label: None }
}

/// The scope that a loop with the given labels opens.
pub open spec fn loop_scope(start: Symbol, exit: Symbol) -> ScopeView {
    ScopeView { offsets: Map::empty(), start_label: Some(start), exit_label: Some(exit) }
}

/// The largest number of bytes that a function's bindings may take.
pub const FRAME_LIMIT: usize = 2147483647;

/// The size of the frame after one more 4-byte slot was claimed, if the
/// frame can still be addressed.
pub open spec fn bumped_frame(allocated: usize) -> Option<usize> {
    if allocated + 4 <= FRAME_LIMIT {
        Some((allocated + 4) as usize)
    } else {
        None
    }
}

/// The displacement from the frame base of the slot that ends `offset` bytes
/// below it.
pub open spec fn slot_displacement(offset: usize) -> i32 {
    (-(offset as int)) as i32
}

/// The size of a frame as an immediate operand, if it fits.
pub open spec fn frame_immediate(allocated: usize) -> Option<i32> {
    if allocated <= FRAME_LIMIT {
        Some(allocated as i32)
    } else {
        None
    }
}

/// The scopes with the binding of `symbol` at `displacement` recorded in the
/// innermost one.
pub open spec fn with_binding(scopes: Seq<ScopeView>, symbol: Symbol, displacement: i32) -> Seq<
    ScopeView,
> {
    let top = scopes.last();
    scopes.drop_last().push(
        ScopeView { offsets: top.offsets.insert(symbol.0, displacement), ..top },
    )
}

/// The displacement of the binding of `symbol` that is in scope: that of the
/// innermost scope that defines it.
pub open spec fn find_offset(scopes: Seq<ScopeView>, symbol: Symbol) -> Option<i32>
    decreases scopes.len(),
{
    if scopes.len() == 0 {
        None
    } else if scopes.last().offsets.contains_key(symbol.0) {
        Some(scopes.last().offsets[symbol.0])
    } else {
        find_offset(scopes.drop_last(), symbol)
    }
}

/// The exit label of the innermost enclosing loop.
pub open spec fn find_exit_label(scopes: Seq<ScopeView>) -> Option<Symbol>
    decreases scopes.len(),
{
    if scopes.len() == 0 {
        None
    } else if scopes.last().exit_label.is_some() {
        scopes.last().exit_label
    } else {
        find_exit_label(scopes.drop_last())
    }
}

/// The start label of the innermost enclosing loop.
pub open spec fn find_start_label(scopes: Seq<ScopeView>) -> Option<Symbol>
    decreases scopes.len(),
{
    if scopes.len() == 0 {
        None
    } else if scopes.last().start_label.is_some() {
        scopes.last().start_label
    } else {
        find_start_label(scopes.drop_last())
    }
}

/// The forms of the scopes in `scopes`.
pub open spec fn scope_models(scopes: Seq<Scope>) -> Seq<ScopeView> {
    Seq::new(scopes.len(), |k: int| scopes[k].model())
}

impl Scope {
    pub closed spec fn model(&self) -> ScopeView {
        ScopeView {
            offsets: self.memory_offset_by_symbol@,
            start_label: self.innermost_start_label,
            exit_label: self.innermost_exit_label,
        }
    }

    /// A scope without bindings that belongs to no loop.
    pub fn new() -> (scope: Scope)
        ensures
            scope.model() == empty_scope(),
    {
        Scope {
            memory_offset_by_symbol: HashMap::new(),
            innermost_start_label: None,
            innermost_exit_label: None,
        }
    }

    /// Records the labels of the loop that opens this scope.
    pub fn set_loop_labels(&mut self, start: Symbol, exit: Symbol)
        ensures
            final(self).model() == (ScopeView {
                start_label: Some(start),
                exit_label: Some(exit),
                ..old(self).model()
            }),
    {
        self.innermost_start_label = Some(start);
        self.innermost_exit_label = Some(exit);
    }

    /// Records that `symbol` is bound at `displacement`.
    pub fn insert(&mut self, symbol: Symbol, displacement: i32)
        ensures
            final(self).model() == (ScopeView {
                offsets: old(self).model().offsets.insert(symbol.0, displacement),
                ..old(self).model()
            }),
    {
        self.memory_offset_by_symbol.insert(symbol.0, displacement);
    }

    /// The displacement at which this scope binds `symbol`, if it does.
    pub fn get(&self, symbol: Symbol) -> (displacement: Option<i32>)
        ensures
            displacement == (if self.model().offsets.contains_key(symbol.0) {
                Some(self.model().offsets[symbol.0])
            } else {
                None
            }),
    {
        match self.memory_offset_by_symbol.get(&symbol.0) {
            Some(d) => Some(*d),
            None => None,
        }
    }

    pub fn start_label(&self) -> (label: Option<Symbol>)
        ensures
            label == self.model().start_label,
    {
        self.innermost_start_label
    }

    pub fn exit_label(&self) -> (label: Option<Symbol>)
        ensures
            label == self.model().exit_label,
    {
        self.innermost_exit_label
    }
}

/// The frame after one more slot was claimed, with the slot's displacement;
/// `None` where the frame would grow past what an offset can address.
pub fn claim_slot(allocated: usize) -> (claimed: Option<(usize, i32)>)
    ensures
        claimed == match bumped_frame(allocated) {
            Some(bumped) => Some((bumped, slot_displacement(bumped))),
            None => None,
        },
{
    if allocated > FRAME_LIMIT - 4 {
        None
    } else {
        let bumped = allocated + 4;
        let displacement: i32 = -(bumped as i32);
        Some((bumped, displacement))
    }
}

/// The size of a frame as an immediate operand, if it fits.
pub fn frame_size(allocated: usize) -> (size: Option<i32>)
    ensures
        size == frame_immediate(allocated),
{
    if allocated <= FRAME_LIMIT {
        Some(allocated as i32)
    } else {
        None
    }
}

/// The displacement of the binding of `symbol` that is in scope.
pub fn lookup_offset(scopes: &Vec<Scope>, symbol: Symbol) -> (displacement: Option<i32>)
    ensures
        displacement == find_offset(scope_models(scopes@), symbol),
{
    let mut i: usize = scopes.len();
    assert(scope_models(scopes@).subrange(0, i as int) =~= scope_models(scopes@));
    while i > 0
        invariant
            i <= scopes@.len(),
            find_offset(scope_models(scopes@), symbol) == find_offset(
                scope_models(scopes@).subrange(0, i as int),
                symbol,
            ),
        decreases i,
    {
        let ghost current = scope_models(scopes@).subrange(0, i as int);
        i -= 1;
        assert(current.drop_last() =~= scope_models(scopes@).subrange(0, i as int));
        match scopes[i].get(symbol) {
            Some(d) => {
                return Some(d);
            },
            None => {},
        }
    }
    None
}

/// The exit label of the innermost enclosing loop.
pub fn lookup_exit_label(scopes: &Vec<Scope>) -> (label: Option<Symbol>)
    ensures
        label == find_exit_label(scope_models(scopes@)),
{
    let mut i: usize = scopes.len();
    assert(scope_models(scopes@).subrange(0, i as int) =~= scope_models(scopes@));
    while i > 0
        invariant
            i <= scopes@.len(),
            find_exit_label(scope_models(scopes@)) == find_exit_label(
                scope_models(scopes@).subrange(0, i as int),
            ),
        decreases i,
    {
        let ghost current = scope_models(scopes@).subrange(0, i as int);
        i -= 1;
        assert(current.drop_last() =~= scope_models(scopes@).subrange(0, i as int));
        match scopes[i].exit_label() {
            Some(l) => {
                return Some(l);
            },
            None => {},
        }
    }
    None
}

/// The start label of the innermost enclosing loop.
pub fn lookup_start_label(scopes: &Vec<Scope>) -> (label: Option<Symbol>)
    ensures
        label == find_start_label(scope_models(scopes@)),
{
    let mut i: usize = scopes.len();
    assert(scope_models(scopes@).subrange(0, i as int) =~= scope_models(scopes@));
    while i > 0
        invariant
            i <= scopes@.len(),
            find_start_label(scope_models(scopes@)) == find_start_label(
                scope_models(scopes@).subrange(0, i as int),
            ),
        decreases i,
    {
        let ghost current = scope_models(scopes@).subrange(0, i as int);
        i -= 1;
        assert(current.drop_last() =~= scope_models(scopes@).subrange(0, i as int));
        match scopes[i].start_label() {
            Some(l) => {
                return Some(l);
            },
            None => {},
        }
    }
    None
}

} // verus!
