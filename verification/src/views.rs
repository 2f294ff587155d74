//! The two read-only view adapters: the congruence-closure shape and
//! the constructor-pattern shape of a term.  Both are total: every
//! constructible term maps to exactly one variant, with no fallback.

use vstd::prelude::*;
use vstd::pervasive::unreached;

use crate::ast::AST;
use crate::ctx::{valid_term, Ctx, CtxV};
use crate::manager::{ids_of, ShapeV};

verus! {

/// The shape a congruence-closure engine consumes.
#[derive(Clone, PartialEq, Eq, Debug)]
pub enum CCView {
    /// One of the two boolean builtins.
    Bool(bool),
    /// An indivisible node, compared only by identity.
    Opaque(AST),
    /// An equality of two terms (always exactly two, by construction).
    Eq(AST, AST),
    /// A negation of one term.
    Not(AST),
    /// A distinctness constraint over its full argument list.
    Distinct(Vec<AST>),
    /// Any other application, with the head as a first-class position.
    ApplyHO(AST, Vec<AST>),
}

/// Mathematical image of a congruence-closure shape.
#[verifier::ext_equal]
pub enum CCViewV {
    Bool(bool),
    Opaque(int),
    Eq(int, int),
    Not(int),
    Distinct(Seq<int>),
    ApplyHO(int, Seq<int>),
}

impl View for CCView {
    type V = CCViewV;

    open(crate) spec fn view(&self) -> CCViewV {
        match self {
            CCView::Bool(b) => CCViewV::Bool(*b),
            CCView::Opaque(t) => CCViewV::Opaque(t@),
            CCView::Eq(a, b) => CCViewV::Eq(a@, b@),
            CCView::Not(a) => CCViewV::Not(a@),
            CCView::Distinct(args) => CCViewV::Distinct(ids_of(args@)),
            CCView::ApplyHO(f, args) => CCViewV::ApplyHO(f@, ids_of(args@)),
        }
    }
}

/// The shape a constructor-pattern engine consumes.
#[derive(Clone, PartialEq, Eq, Debug)]
pub enum ConstructorView {
    /// A constructor-flagged head applied to arguments (empty for a
    /// flagged zero-argument constant).
    AppConstructor(AST, Vec<AST>),
    /// Anything else: an opaque leaf from this adapter's perspective.
    Other(AST),
}

/// Mathematical image of a constructor-pattern shape.
#[verifier::ext_equal]
pub enum CtorViewV {
    AppConstructor(int, Seq<int>),
    Other(int),
}

impl View for ConstructorView {
    type V = CtorViewV;

    open(crate) spec fn view(&self) -> CtorViewV {
        match self {
            ConstructorView::AppConstructor(f, args) => CtorViewV::AppConstructor(
                f@,
                ids_of(args@),
            ),
            ConstructorView::Other(t) => CtorViewV::Other(t@),
        }
    }
}

/// The congruence-closure shape of term `t` in context `c`: the two
/// boolean builtins are `Bool`; every other zero-argument term is
/// `Opaque`; an application is `Eq`, `Not` or `Distinct` when headed by
/// the matching builtin, else `ApplyHO`.
pub open spec fn cc_view_spec(c: CtxV, t: int) -> CCViewV {
    if t == c.b.true_ {
        CCViewV::Bool(true)
    } else if t == c.b.false_ {
        CCViewV::Bool(false)
    } else {
        match c.terms[t].shape {
            ShapeV::Const { name: _ } => CCViewV::Opaque(t),
            ShapeV::App { f, args } => if f == c.b.eq {
                CCViewV::Eq(args[0], args[1])
            } else if f == c.b.not_ {
                CCViewV::Not(args[0])
            } else if f == c.b.distinct {
                CCViewV::Distinct(args)
            } else {
                CCViewV::ApplyHO(f, args)
            },
        }
    }
}

/// The constructor-pattern shape of term `t` in context `c`: a flagged
/// zero-argument constant is a constructor applied to nothing; an
/// application with a flagged head is that constructor applied to the
/// arguments; everything else is opaque.
pub open spec fn ctor_view_spec(c: CtxV, t: int) -> CtorViewV {
    match c.terms[t].shape {
        ShapeV::Const { name: _ } => if c.cstor[t] {
            CtorViewV::AppConstructor(t, Seq::<int>::empty())
        } else {
            CtorViewV::Other(t)
        },
        ShapeV::App { f, args } => if c.cstor[f] {
            CtorViewV::AppConstructor(f, args)
        } else {
            CtorViewV::Other(t)
        },
    }
}

impl Ctx {
    /// Projects term `t` into the shape the congruence-closure engine
    /// consumes.
    pub fn view_as_cc_term(&self, t: AST) -> (v: CCView)
        requires
            self.wf(),
            valid_term(self@, t@),
        ensures
            v@ == cc_view_spec(self@, t@),
    {
        if t.idx() == self.b.true_.idx() {
            CCView::Bool(true)
        } else if t.idx() == self.b.false_.idx() {
            CCView::Bool(false)
        } else if self.m.is_const(t) {
            CCView::Opaque(t)
        } else {
            let f = match self.m.app_fun(t) {
                Some(f) => f,
                None => unreached(),
            };
            let args = match self.m.app_args(t) {
                Some(args) => args,
                None => unreached(),
            };
            if f.idx() == self.b.eq.idx() {
                proof {
                    assert(ids_of(args@).len() == 2);
                    assert(ids_of(args@)[0] == args@[0]@);
                    assert(ids_of(args@)[1] == args@[1]@);
                }
                CCView::Eq(args[0], args[1])
            } else if f.idx() == self.b.not_.idx() {
                proof {
                    assert(ids_of(args@).len() == 1);
                    assert(ids_of(args@)[0] == args@[0]@);
                }
                CCView::Not(args[0])
            } else if f.idx() == self.b.distinct.idx() {
                CCView::Distinct(args)
            } else {
                CCView::ApplyHO(f, args)
            }
        }
    }

    /// Projects term `t` into the shape the constructor-pattern engine
    /// consumes.
    pub fn view_as_constructor(&self, t: AST) -> (v: ConstructorView)
        requires
            self.wf(),
            valid_term(self@, t@),
        ensures
            v@ == ctor_view_spec(self@, t@),
    {
        if self.m.is_const(t) {
            if self.is_cstor(&t) {
                proof {
                    assert(ids_of(Seq::<AST>::empty()) =~= Seq::<int>::empty());
                }
                ConstructorView::AppConstructor(t, Vec::new())
            } else {
                ConstructorView::Other(t)
            }
        } else {
            let f = match self.m.app_fun(t) {
                Some(f) => f,
                None => unreached(),
            };
            proof {
                assert(crate::manager::term_valid(self@.terms.len() as int, self@.terms[t@]));
            }
            if self.is_cstor(&f) {
                let args = match self.m.app_args(t) {
                    Some(args) => args,
                    None => unreached(),
                };
                ConstructorView::AppConstructor(f, args)
            } else {
                ConstructorView::Other(t)
            }
        }
    }
}

} // verus!
