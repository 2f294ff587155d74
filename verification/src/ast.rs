//! Term identities: opaque, copyable handles into the term store.

use vstd::prelude::*;

verus! {

/// An opaque handle denoting one hash-consed term.
///
/// Equal handles denote structurally identical terms; the store
/// guarantees this, and nothing ever compares terms by structure.
/// Handles are totally ordered by their internal index; the order has
/// no logical meaning but serves as a canonicalization tie-break when
/// an equality is built.
#[derive(PartialEq, Eq, Structural, Clone, Copy, Debug, Hash)]
pub struct AST {
    idx: u32,
}

impl View for AST {
    type V = int;

    closed spec fn view(&self) -> int {
        self.idx as int
    }
}

impl AST {
    /// The internal index of this handle.
    pub fn idx(&self) -> (i: u32)
        ensures
            i as int == self@,
    {
        self.idx
    }

    /// Builds the handle with the given internal index.
    ///
    /// Only the term store hands out handles; this stays inside the crate.
    pub(crate) fn from_idx(i: u32) -> (t: AST)
        ensures
            t@ == i as int,
    {
        AST { idx: i }
    }

    /// Two handles are equal exactly when their views are.
    pub proof fn lemma_eq_iff_view_eq(a: AST, b: AST)
        ensures
            (a == b) <==> (a@ == b@),
    {
    }
}

} // verus!
