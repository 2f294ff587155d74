//! Boolean and equality construction: peephole negation and
//! canonically ordered, type-checked equalities.

use vstd::prelude::*;

use crate::ast::AST;
use crate::ctx::{lemma_inv_push, valid_term, with_app, Ctx, CtxV, Error};
use crate::manager::{find_app, ids_of, mk_app_id, valid_id, ShapeV, TermV};

verus! {

/// What negating `t` does: the two boolean builtins flip to each other
/// without touching the store (so no syntactic double negation over a
/// builtin constant ever exists); any other term is wrapped in the
/// `not` builtin, typed boolean, and hash-consed.  No recursive
/// lookahead is done: a general double negation is not simplified here.
pub open spec fn not_rel(c0: CtxV, t: int, c1: CtxV, r: int) -> bool {
    if t == c0.b.true_ {
        c1 == c0 && r == c0.b.false_
    } else if t == c0.b.false_ {
        c1 == c0 && r == c0.b.true_
    } else {
        &&& r == mk_app_id(c0.terms, c0.b.not_, seq![t])
        &&& c1 == with_app(c0, c0.b.not_, seq![t], Some(c0.b.bool_))
    }
}

/// What building the equality of `a` and `b` does: both operands must
/// carry the same value type, else the context is untouched and the
/// call fails; the operands are then ordered by ascending identity (a
/// purely structural tie-break) so that `eq(a,b)` and `eq(b,a)` are the
/// same stored term, and the application of the `eq` builtin to them,
/// typed boolean, is hash-consed.
pub open spec fn eq_rel(c0: CtxV, a: int, b: int, c1: CtxV, r: Result<AST, Error>) -> bool {
    let ta = c0.terms[a].ty;
    let tb = c0.terms[b].ty;
    if ta is None || tb is None || ta != tb {
        &&& r == Err::<AST, Error>(Error::TypeMismatch)
        &&& c1 == c0
    } else {
        let lo = if a <= b {
            a
        } else {
            b
        };
        let hi = if a <= b {
            b
        } else {
            a
        };
        &&& r matches Ok(t) && t@ == mk_app_id(c0.terms, c0.b.eq, seq![lo, hi])
        &&& c1 == with_app(c0, c0.b.eq, seq![lo, hi], Some(c0.b.bool_))
    }
}

impl Ctx {
    /// Creates (or finds) the application of builtin `head` to `args`,
    /// typed boolean, growing the side tables when a term is created.
    fn mk_bool_app(&mut self, head: AST, args: Vec<AST>) -> (r: AST)
        requires
            old(self).wf(),
            old(self)@.terms.len() < u32::MAX as int,
            head@ == old(self)@.b.eq || head@ == old(self)@.b.not_,
            forall|j: int| 0 <= j < args@.len() ==> valid_term(old(self)@, args@[j]@),
            head@ == old(self)@.b.eq ==> args@.len() == 2 && ids_of(args@)[0] <= ids_of(args@)[1],
            head@ == old(self)@.b.not_ ==> args@.len() == 1,
        ensures
            final(self).wf(),
            r@ == mk_app_id(old(self)@.terms, head@, ids_of(args@)),
            final(self)@ == with_app(old(self)@, head@, ids_of(args@), Some(old(self)@.b.bool_)),
            valid_term(final(self)@, r@),
            final(self)@.terms[r@] == (TermV {
                shape: ShapeV::App { f: head@, args: ids_of(args@) },
                ty: Some(old(self)@.b.bool_),
            }),
    {
        let ghost c0 = old(self)@;
        proof {
            assert forall|j: int| 0 <= j < args@.len() implies valid_id(
                self.m@.len() as int,
                args@[j]@,
            ) by {
                assert(ids_of(args@)[j] == args@[j]@);
            }
        }
        let bool_ = self.b.bool_;
        let t = self.m.mk_app(head, &args, Some(bool_));
        if self.kinds.len() < self.m.num_terms() {
            self.kinds.push(None);
            self.cstor.push(false);
            proof {
                assert(find_app(c0.terms, head@, ids_of(args@)) is None);
                let entry = TermV {
                    shape: ShapeV::App { f: head@, args: ids_of(args@) },
                    ty: Some(c0.b.bool_),
                };
                let cm = CtxV {
                    terms: c0.terms.push(entry),
                    kinds: c0.kinds.push(None),
                    cstor: c0.cstor.push(false),
                    ..c0
                };
                assert(self@.kinds =~= cm.kinds);
                assert(self@ =~= cm);
                lemma_inv_push(c0, cm, entry, None, false);
            }
        } else {
            proof {
                assert(find_app(c0.terms, head@, ids_of(args@)) is Some);
                assert(self@ =~= c0);
                match find_app(c0.terms, head@, ids_of(args@)) {
                    Some(i) => {
                        crate::manager::lemma_find_app_some(c0.terms, head@, ids_of(args@), i);
                        assert(c0.terms[i].ty == Some(c0.b.bool_));
                    },
                    None => {},
                }
            }
        }
        t
    }

    /// Negates `t`: the boolean builtins flip to each other; any other
    /// term is wrapped in the `not` builtin, typed boolean.
    pub fn api_not(&mut self, t: AST) -> (r: AST)
        requires
            old(self).wf(),
            valid_term(old(self)@, t@),
            old(self)@.terms.len() < u32::MAX as int,
        ensures
            final(self).wf(),
            not_rel(old(self)@, t@, final(self)@, r@),
            valid_term(final(self)@, r@),
            t@ != old(self)@.b.true_ && t@ != old(self)@.b.false_ ==> final(self)@.terms[r@] == (
            TermV {
                shape: ShapeV::App { f: old(self)@.b.not_, args: seq![t@] },
                ty: Some(old(self)@.b.bool_),
            }),
    {
        if t.idx() == self.b.true_.idx() {
            self.b.false_
        } else if t.idx() == self.b.false_.idx() {
            self.b.true_
        } else {
            let not_ = self.b.not_;
            let mut args: Vec<AST> = Vec::new();
            args.push(t);
            proof {
                assert(ids_of(args@) =~= seq![t@]);
            }
            self.mk_bool_app(not_, args)
        }
    }

    /// Builds the equality of `t1` and `t2`: both must carry the same
    /// value type, else the call fails with `TypeMismatch`; the lower
    /// identity always stands first in the stored term.
    pub fn api_eq(&mut self, t1: AST, t2: AST) -> (r: Result<AST, Error>)
        requires
            old(self).wf(),
            valid_term(old(self)@, t1@),
            valid_term(old(self)@, t2@),
            old(self)@.terms.len() < u32::MAX as int,
        ensures
            final(self).wf(),
            eq_rel(old(self)@, t1@, t2@, final(self)@, r),
            r matches Ok(t) ==> valid_term(final(self)@, t@),
            r matches Ok(t) ==> final(self)@.terms[t@] == (TermV {
                shape: ShapeV::App {
                    f: old(self)@.b.eq,
                    args: seq![
                        if t1@ <= t2@ {
                            t1@
                        } else {
                            t2@
                        },
                        if t1@ <= t2@ {
                            t2@
                        } else {
                            t1@
                        },
                    ],
                },
                ty: Some(old(self)@.b.bool_),
            }),
    {
        let ty1 = match self.m.ty(t1) {
            Some(ty) => ty,
            None => {
                return Err(Error::TypeMismatch);
            },
        };
        let ty2 = match self.m.ty(t2) {
            Some(ty) => ty,
            None => {
                return Err(Error::TypeMismatch);
            },
        };
        if ty1.idx() != ty2.idx() {
            return Err(Error::TypeMismatch);
        }
        let (lo, hi) = if t1.idx() > t2.idx() {
            (t2, t1)
        } else {
            (t1, t2)
        };
        let eq = self.b.eq;
        let mut args: Vec<AST> = Vec::new();
        args.push(lo);
        args.push(hi);
        proof {
            assert(ids_of(args@) =~= seq![lo@, hi@]);
        }
        Ok(self.mk_bool_app(eq, args))
    }
}

} // verus!
