//! The symbol registry: declaring type and constant symbols, and
//! marking declared symbols as datatype constructors.

use vstd::prelude::*;

use crate::ast::AST;
use crate::classify::kind_spec;
use crate::ctx::{
    lemma_inv_insert_sym, lemma_inv_push, syms_map_of, valid_term, AstKind, Ctx, CtxV, Error,
    SymKind, SymKindV,
};
use crate::manager::{ids_of, valid_id, ShapeV, TermV};

verus! {

/// The name-to-identity lookup that a map performs.
pub open spec fn sym_lookup(m: Map<Seq<char>, int>, name: Seq<char>) -> Option<int> {
    if m.dom().contains(name) {
        Some(m[name])
    } else {
        None
    }
}

/// What declaring the type symbol `name` does: when the name is cached
/// (as a type or a constant), the context is unchanged and the cached
/// identity returned; otherwise a fresh constant term carries the name,
/// the signature is recorded as a type symbol, and the name is cached.
pub open spec fn declare_ty_rel(c0: CtxV, name: Seq<char>, c1: CtxV, r: int) -> bool {
    match sym_lookup(c0.syms, name) {
        Some(t) => c1 == c0 && r == t,
        None => {
            &&& r == c0.terms.len()
            &&& c1 == (CtxV {
                terms: c0.terms.push(TermV { shape: ShapeV::Const { name }, ty: None }),
                syms: c0.syms.insert(name, r),
                kinds: c0.kinds.push(Some(SymKindV::Ty)),
                cstor: c0.cstor.push(false),
                ..c0
            })
        },
    }
}

/// What declaring the constant symbol `name` with argument types
/// `ty_args` and return type `ty_ret` does: the same caching rule as
/// for type symbols; a fresh zero-argument constant itself carries the
/// return type as its value type, while a function symbol carries none.
/// Re-declaring a cached name under a different signature is accepted
/// silently and the first signature wins: the registry trusts the first
/// declaration, a documented caller responsibility.
pub open spec fn declare_const_rel(
    c0: CtxV,
    name: Seq<char>,
    ty_args: Seq<int>,
    ty_ret: int,
    c1: CtxV,
    r: int,
) -> bool {
    match sym_lookup(c0.syms, name) {
        Some(t) => c1 == c0 && r == t,
        None => {
            let ty = if ty_args.len() == 0 {
                Some(ty_ret)
            } else {
                None
            };
            &&& r == c0.terms.len()
            &&& c1 == (CtxV {
                terms: c0.terms.push(TermV { shape: ShapeV::Const { name }, ty }),
                syms: c0.syms.insert(name, r),
                kinds: c0.kinds.push(Some(SymKindV::Const { args: ty_args, ret: ty_ret })),
                cstor: c0.cstor.push(false),
                ..c0
            })
        },
    }
}

impl Ctx {
    /// Looks the name up in the symbol cache.
    fn find_sym(&self, name: &str) -> (r: Option<AST>)
        ensures
            match r {
                Some(t) => sym_lookup(self@.syms, name@) == Some(t@),
                None => sym_lookup(self@.syms, name@) is None,
            },
    {
        let key: String = name.to_owned();
        let ghost s = self.syms@;
        proof {
            assert(s.take(s.len() as int) =~= s);
        }
        let mut i: usize = self.syms.len();
        while i > 0
            invariant
                s == self.syms@,
                i <= s.len(),
                key@ == name@,
                sym_lookup(syms_map_of(s), name@) == sym_lookup(
                    syms_map_of(s.take(i as int)),
                    name@,
                ),
            decreases i,
        {
            i -= 1;
            proof {
                assert(s.take(i as int + 1).drop_last() =~= s.take(i as int));
                assert(s.take(i as int + 1).last() == s[i as int]);
            }
            let entry = &self.syms[i];
            if entry.0 == key {
                return Some(entry.1);
            }
        }
        proof {
            assert(s.take(0) =~= Seq::<(String, AST)>::empty());
        }
        None
    }

    /// Declares the type symbol `s`: returns the cached identity when
    /// the name was declared before, else creates a fresh type symbol.
    /// Declaration is idempotent per name.
    pub fn api_ty_const(&mut self, s: &str) -> (r: AST)
        requires
            old(self).wf(),
            old(self)@.terms.len() < u32::MAX as int,
        ensures
            final(self).wf(),
            declare_ty_rel(old(self)@, s@, final(self)@, r@),
            valid_term(final(self)@, r@),
    {
        match self.find_sym(s) {
            Some(t) => t,
            None => {
                let t = self.m.mk_const(s, None);
                self.syms.push((s.to_owned(), t));
                self.kinds.push(Some(SymKind::Ty));
                self.cstor.push(false);
                proof {
                    let c0 = old(self)@;
                    let cm = CtxV {
                        terms: c0.terms.push(
                            TermV { shape: ShapeV::Const { name: s@ }, ty: None },
                        ),
                        kinds: c0.kinds.push(Some(SymKindV::Ty)),
                        cstor: c0.cstor.push(false),
                        ..c0
                    };
                    assert(self@.kinds =~= cm.kinds);
                    assert(self.syms@.drop_last() =~= old(self).syms@);
                    assert(self@.syms =~= cm.syms.insert(s@, t@));
                    assert(self@ =~= (CtxV { syms: cm.syms.insert(s@, t@), ..cm }));
                    lemma_inv_push(c0, cm, TermV { shape: ShapeV::Const { name: s@ }, ty: None },
                        Some(SymKindV::Ty), false);
                    lemma_inv_insert_sym(cm, self@, s@, t@);
                }
                t
            },
        }
    }

    /// Declares the constant symbol `s` with argument types `ty_args`
    /// and return type `ty_ret`: returns the cached identity when the
    /// name was declared before, else creates a fresh constant.
    pub fn api_const(&mut self, s: &str, ty_args: &[AST], ty_ret: AST) -> (r: AST)
        requires
            old(self).wf(),
            old(self)@.terms.len() < u32::MAX as int,
            forall|j: int| 0 <= j < ty_args@.len() ==> valid_term(old(self)@, ty_args@[j]@),
            valid_term(old(self)@, ty_ret@),
        ensures
            final(self).wf(),
            declare_const_rel(old(self)@, s@, ids_of(ty_args@), ty_ret@, final(self)@, r@),
            valid_term(final(self)@, r@),
    {
        match self.find_sym(s) {
            Some(t) => t,
            None => {
                let ty = if ty_args.len() == 0 {
                    Some(ty_ret)
                } else {
                    None
                };
                let t = self.m.mk_const(s, ty);
                let mut sig_args: Vec<AST> = Vec::new();
                let n = ty_args.len();
                let mut k: usize = 0;
                while k < n
                    invariant
                        n == ty_args@.len(),
                        k <= n,
                        sig_args@.len() == k as int,
                        forall|j: int| 0 <= j < k ==> sig_args@[j] == ty_args@[j],
                    decreases n - k,
                {
                    sig_args.push(ty_args[k]);
                    k += 1;
                }
                proof {
                    assert(sig_args@ =~= ty_args@);
                }
                self.syms.push((s.to_owned(), t));
                self.kinds.push(Some(SymKind::Const { args: sig_args, ret: ty_ret }));
                self.cstor.push(false);
                proof {
                    let c0 = old(self)@;
                    let tyv = if ids_of(ty_args@).len() == 0 {
                        Some(ty_ret@)
                    } else {
                        None::<int>
                    };
                    let entry = TermV { shape: ShapeV::Const { name: s@ }, ty: tyv };
                    let kindv = Some(
                        SymKindV::Const { args: ids_of(ty_args@), ret: ty_ret@ },
                    );
                    let cm = CtxV {
                        terms: c0.terms.push(entry),
                        kinds: c0.kinds.push(kindv),
                        cstor: c0.cstor.push(false),
                        ..c0
                    };
                    assert(self@.kinds =~= cm.kinds);
                    assert(self.syms@.drop_last() =~= old(self).syms@);
                    assert(self@.syms =~= cm.syms.insert(s@, t@));
                    assert(self@ =~= (CtxV { syms: cm.syms.insert(s@, t@), ..cm }));
                    assert forall|j: int| 0 <= j < ids_of(ty_args@).len() implies valid_id(
                        c0.terms.len() as int,
                        #[trigger] ids_of(ty_args@)[j],
                    ) by {
                        assert(ids_of(ty_args@)[j] == ty_args@[j]@);
                    }
                    lemma_inv_push(c0, cm, entry, kindv, false);
                    lemma_inv_insert_sym(cm, self@, s@, t@);
                }
                t
            },
        }
    }

    /// Marks term `t` as a datatype constructor.  Only a head symbol
    /// may be flagged: a term that classifies as anything but a plain
    /// constant or an already-flagged constructor is rejected.
    pub fn api_set_is_cstor(&mut self, t: AST) -> (r: Result<(), Error>)
        requires
            old(self).wf(),
            valid_term(old(self)@, t@),
        ensures
            final(self).wf(),
            ({
                let k = kind_spec(old(self)@, t@);
                if k == AstKind::Const || k == AstKind::Cstor {
                    &&& r == Ok::<(), Error>(())
                    &&& final(self)@ == (CtxV {
                        cstor: old(self)@.cstor.update(t@, true),
                        ..old(self)@
                    })
                } else {
                    &&& r == Err::<(), Error>(Error::NotAConstant)
                    &&& final(self)@ == old(self)@
                }
            }),
    {
        let k = self.api_kind(t);
        if k == AstKind::Const || k == AstKind::Cstor {
            self.set_cstor(&t);
            Ok(())
        } else {
            Err(Error::NotAConstant)
        }
    }
}

} // verus!
