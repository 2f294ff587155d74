//! The laws the library guarantees across calls, stated over the
//! relations that the public functions' contracts establish and proved
//! once and for all.

use vstd::prelude::*;

use crate::ast::AST;
use crate::classify::kind_spec;
use crate::construct::{eq_rel, not_rel};
use crate::ctx::{inv, AstKind, CtxV, Error};
use crate::registry::{declare_const_rel, declare_ty_rel, sym_lookup};
use crate::views::{cc_view_spec, ctor_view_spec, CCViewV, CtorViewV};

verus! {

/// Declaration idempotence for type symbols: declaring the same name
/// twice returns the same identity both times, and the second call
/// leaves the context exactly as the first left it.
pub proof fn lemma_declare_type_idempotent(
    c0: CtxV,
    c1: CtxV,
    c2: CtxV,
    name: Seq<char>,
    r1: int,
    r2: int,
)
    requires
        declare_ty_rel(c0, name, c1, r1),
        declare_ty_rel(c1, name, c2, r2),
    ensures
        r2 == r1,
        c2 == c1,
{
    match sym_lookup(c0.syms, name) {
        Some(_) => {},
        None => {
            assert(c1.syms == c0.syms.insert(name, r1));
            assert(sym_lookup(c1.syms, name) == Some(r1));
        },
    }
}

/// Declaration idempotence for constant symbols: declaring a cached
/// name again returns the first identity and changes nothing, whatever
/// signature the second declaration names — the first declaration wins.
pub proof fn lemma_declare_const_idempotent(
    c0: CtxV,
    c1: CtxV,
    c2: CtxV,
    name: Seq<char>,
    ty_args1: Seq<int>,
    ty_ret1: int,
    ty_args2: Seq<int>,
    ty_ret2: int,
    r1: int,
    r2: int,
)
    requires
        declare_const_rel(c0, name, ty_args1, ty_ret1, c1, r1),
        declare_const_rel(c1, name, ty_args2, ty_ret2, c2, r2),
    ensures
        r2 == r1,
        c2 == c1,
{
    match sym_lookup(c0.syms, name) {
        Some(_) => {},
        None => {
            assert(c1.syms == c0.syms.insert(name, r1));
            assert(sym_lookup(c1.syms, name) == Some(r1));
        },
    }
}

/// Equality construction is symmetric in one state: building the
/// equality of `a` and `b` and building the equality of `b` and `a`
/// from the same context produce the same result and the same context.
pub proof fn lemma_eq_commutes(
    c0: CtxV,
    c1: CtxV,
    c2: CtxV,
    a: int,
    b: int,
    r1: Result<AST, Error>,
    r2: Result<AST, Error>,
)
    requires
        eq_rel(c0, a, b, c1, r1),
        eq_rel(c0, b, a, c2, r2),
    ensures
        c2 == c1,
        r2 == r1,
{
    match (r1, r2) {
        (Ok(x), Ok(y)) => {
            AST::lemma_eq_iff_view_eq(x, y);
        },
        _ => {},
    }
}

/// Equality canonicalization across calls: after `eq(a, b)` has been
/// built, building `eq(b, a)` returns the very same identity and leaves
/// the context untouched — the two spellings are one stored term.
pub proof fn lemma_eq_symmetric(
    c0: CtxV,
    c1: CtxV,
    c2: CtxV,
    a: int,
    b: int,
    r1: Result<AST, Error>,
    r2: Result<AST, Error>,
)
    requires
        0 <= a < c0.terms.len(),
        0 <= b < c0.terms.len(),
        eq_rel(c0, a, b, c1, r1),
        eq_rel(c1, b, a, c2, r2),
    ensures
        r2 == r1,
        c2 == c1,
{
    let ta = c0.terms[a].ty;
    let tb = c0.terms[b].ty;
    if ta is None || tb is None || ta != tb {
        assert(c1 == c0);
        assert(c2 == c1);
    } else {
        let lo = if a <= b {
            a
        } else {
            b
        };
        let hi = if a <= b {
            b
        } else {
            a
        };
        let s = seq![lo, hi];
        assert(c1 == crate::ctx::with_app(c0, c0.b.eq, s, Some(c0.b.bool_)));
        match crate::manager::find_app(c0.terms, c0.b.eq, s) {
            Some(_) => {
                assert(c1 == c0);
            },
            None => {
                assert(c1.terms == c0.terms.push(
                    crate::manager::TermV {
                        shape: crate::manager::ShapeV::App { f: c0.b.eq, args: s },
                        ty: Some(c0.b.bool_),
                    },
                ));
                assert(c1.terms[a] == c0.terms[a]);
                assert(c1.terms[b] == c0.terms[b]);
                assert(c1.terms.last().shape == (crate::manager::ShapeV::App {
                    f: c0.b.eq,
                    args: s,
                }));
                assert(crate::manager::find_app(c1.terms, c0.b.eq, s) == Some(
                    c0.terms.len() as int,
                ));
            },
        }
        match (r1, r2) {
            (Ok(x), Ok(y)) => {
                AST::lemma_eq_iff_view_eq(x, y);
            },
            _ => {},
        }
    }
}

/// Negation is an involution on the boolean literals: negating a
/// boolean builtin twice yields the identity it started from, and neither
/// negation touches the store.
pub proof fn lemma_negate_involutive_on_literals(
    c0: CtxV,
    c1: CtxV,
    c2: CtxV,
    t: int,
    r1: int,
    r2: int,
)
    requires
        inv(c0),
        t == c0.b.true_ || t == c0.b.false_,
        not_rel(c0, t, c1, r1),
        not_rel(c1, r1, c2, r2),
    ensures
        c1 == c0,
        c2 == c0,
        r2 == t,
{
}

/// Constructor classification precedence: a zero-argument constant
/// carrying the constructor flag classifies as a constructor, not as a
/// plain constant; the congruence-closure view still treats it as an
/// opaque leaf, while the constructor view exposes it as a constructor
/// applied to nothing.
pub proof fn lemma_cstor_precedence(c: CtxV, t: int)
    requires
        inv(c),
        0 <= t < c.terms.len(),
        c.terms[t].shape is Const,
        c.cstor[t],
        t != c.b.true_,
        t != c.b.false_,
    ensures
        kind_spec(c, t) == AstKind::Cstor,
        cc_view_spec(c, t) == CCViewV::Opaque(t),
        ctor_view_spec(c, t) == CtorViewV::AppConstructor(t, Seq::<int>::empty()),
{
}

} // verus!
