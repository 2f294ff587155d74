//! The term classifier: a pure projection from a term identity to its
//! discriminant tag.

use vstd::prelude::*;
use vstd::pervasive::unreached;

use crate::ast::AST;
use crate::ctx::{valid_term, AstKind, Ctx, CtxV};
use crate::manager::ShapeV;

verus! {

/// The discriminant of term `t` in context `c`, by priority: the two
/// boolean builtins are `Bool`; a term is `Cstor` when it, or the head
/// of its application, carries the constructor flag; any other
/// zero-argument term is `Const`; a remaining application is
/// `Selector`, `Not` or `App` by its head.  The constructor check
/// deliberately precedes the plain-constant check: a flagged
/// zero-argument constant classifies as `Cstor`.
pub open spec fn kind_spec(c: CtxV, t: int) -> AstKind {
    if t == c.b.true_ || t == c.b.false_ {
        AstKind::Bool
    } else if c.cstor[t] || (c.terms[t].shape is App && c.cstor[c.terms[t].shape->App_f]) {
        AstKind::Cstor
    } else if c.terms[t].shape is Const {
        AstKind::Const
    } else if c.terms[t].shape->App_f == c.b.select {
        AstKind::Selector
    } else if c.terms[t].shape->App_f == c.b.not_ {
        AstKind::Not
    } else {
        AstKind::App
    }
}

impl Ctx {
    /// Classifies term `t`.
    pub fn api_kind(&self, t: AST) -> (k: AstKind)
        requires
            self.wf(),
            valid_term(self@, t@),
        ensures
            k == kind_spec(self@, t@),
    {
        if t.idx() == self.b.true_.idx() || t.idx() == self.b.false_.idx() {
            AstKind::Bool
        } else if self.is_cstor(&t) {
            AstKind::Cstor
        } else if self.m.is_const(t) {
            AstKind::Const
        } else {
            match self.m.app_fun(t) {
                Some(f) => {
                    proof {
                        assert(crate::manager::term_valid(
                            self@.terms.len() as int,
                            self@.terms[t@],
                        ));
                    }
                    if self.is_cstor(&f) {
                        AstKind::Cstor
                    } else if f.idx() == self.b.select.idx() {
                        AstKind::Selector
                    } else if f.idx() == self.b.not_.idx() {
                        AstKind::Not
                    } else {
                        AstKind::App
                    }
                },
                None => unreached(),
            }
        }
    }
}

} // verus!
