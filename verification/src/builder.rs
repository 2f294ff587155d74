//! The incremental application builder: a single in-progress
//! application slot, filled one argument at a time and finalized with a
//! global arity check.
//!
//! Deferring the arity check to finalization lets a caller push
//! arguments in a uniform loop without knowing the expected count in
//! advance; arity is a property of the whole argument list, not of any
//! single push.  The slot is not a stack: beginning a new application
//! silently discards an unfinished one, and nested construction is a
//! caller contract violation.

use vstd::prelude::*;

use crate::ast::AST;
use crate::ctx::{
    lemma_inv_push, valid_term, with_app, Ctx, CtxV, Error, SymKind, SymKindV,
};
use crate::manager::{find_app, ids_of, mk_app_id, ShapeV, TermV};

verus! {

/// What pushing an argument does: an error when no application was
/// begun, else the argument joins the pending list.
pub open spec fn push_arg_rel(c0: CtxV, t: int, c1: CtxV, r: Result<(), Error>) -> bool {
    if c0.pending_fun is None {
        &&& r == Err::<(), Error>(Error::NoPendingApplication)
        &&& c1 == c0
    } else {
        &&& r == Ok::<(), Error>(())
        &&& c1 == (CtxV { pending_args: c0.pending_args.push(t), ..c0 })
    }
}

/// What finalizing does: an error when no application was begun, when
/// the head carries no function signature, or when the pushed argument
/// count differs from the declared arity; otherwise the application is
/// created (or found, when one with the same head and arguments is
/// already stored), typed with the declared return type, and the slot
/// is cleared.  On an error the slot is left as it was.
pub open spec fn finish_rel(c0: CtxV, c1: CtxV, r: Result<AST, Error>) -> bool {
    match c0.pending_fun {
        None => r == Err::<AST, Error>(Error::NoPendingApplication) && c1 == c0,
        Some(f) => match c0.kinds[f] {
            Some(SymKindV::Const { args: sig, ret }) => {
                if sig.len() != c0.pending_args.len() {
                    &&& c1 == c0
                    &&& r matches Err(e) && e matches Error::ArityMismatch { expected, got }
                        && expected == sig.len() && got == c0.pending_args.len()
                } else {
                    &&& r matches Ok(t) && t@ == mk_app_id(c0.terms, f, c0.pending_args)
                    &&& c1 == (CtxV {
                        pending_fun: None::<int>,
                        pending_args: Seq::<int>::empty(),
                        ..with_app(c0, f, c0.pending_args, Some(ret))
                    })
                }
            },
            _ => r == Err::<AST, Error>(Error::NotApplicable) && c1 == c0,
        },
    }
}

impl Ctx {
    /// Begins an application with head `f`, discarding any previously
    /// accumulated arguments.
    pub fn api_app_fun(&mut self, f: AST)
        requires
            old(self).wf(),
            valid_term(old(self)@, f@),
        ensures
            final(self).wf(),
            final(self)@ == (CtxV {
                pending_fun: Some(f@),
                pending_args: Seq::<int>::empty(),
                ..old(self)@
            }),
    {
        self.f = Some(f);
        self.args.clear();
        proof {
            assert(ids_of(self.args@) =~= Seq::<int>::empty());
            assert(self@ =~= (CtxV {
                pending_fun: Some(f@),
                pending_args: Seq::<int>::empty(),
                ..old(self)@
            }));
        }
    }

    /// Appends `t` to the pending argument list; fails when no
    /// application was begun.
    pub fn api_app_arg(&mut self, t: AST) -> (r: Result<(), Error>)
        requires
            old(self).wf(),
            valid_term(old(self)@, t@),
        ensures
            final(self).wf(),
            push_arg_rel(old(self)@, t@, final(self)@, r),
    {
        if self.f.is_none() {
            return Err(Error::NoPendingApplication);
        }
        self.args.push(t);
        proof {
            assert(ids_of(self.args@) =~= ids_of(old(self).args@).push(t@));
            assert(self@ =~= (CtxV {
                pending_args: old(self)@.pending_args.push(t@),
                ..old(self)@
            }));
        }
        Ok(())
    }

    /// Finalizes the in-progress application: checks that the head was
    /// declared with a function signature and that the pushed argument
    /// count matches its arity, then creates (or finds) the application
    /// typed with the declared return type and clears the slot.
    pub fn api_app_finalize(&mut self) -> (r: Result<AST, Error>)
        requires
            old(self).wf(),
            old(self)@.terms.len() < u32::MAX as int,
        ensures
            final(self).wf(),
            finish_rel(old(self)@, final(self)@, r),
            r matches Ok(t) ==> valid_term(final(self)@, t@),
            (match (r, old(self)@.pending_fun) {
                (Ok(t), Some(f)) => final(self)@.terms[t@].shape == (ShapeV::App {
                    f,
                    args: old(self)@.pending_args,
                }),
                _ => true,
            }),
    {
        let f = match self.f {
            Some(f) => f,
            None => {
                return Err(Error::NoPendingApplication);
            },
        };
        let i = f.idx() as usize;
        let ret = match &self.kinds[i] {
            Some(SymKind::Const { args: sig, ret }) => {
                proof {
                    assert(old(self)@.kinds[f@] == Some(
                        SymKindV::Const { args: ids_of(sig@), ret: ret@ },
                    ));
                }
                if sig.len() != self.args.len() {
                    return Err(
                        Error::ArityMismatch { expected: sig.len(), got: self.args.len() },
                    );
                }
                *ret
            },
            _ => {
                proof {
                    assert(old(self)@.kinds[f@] matches Some(k) ==> !(k is Const));
                }
                return Err(Error::NotApplicable);
            },
        };
        let ghost c0 = old(self)@;
        proof {
            assert forall|j: int| 0 <= j < self.args@.len() implies crate::manager::valid_id(
                self.m@.len() as int,
                self.args@[j]@,
            ) by {
                assert(ids_of(self.args@)[j] == self.args@[j]@);
            }
        }
        let t = self.m.mk_app(f, &self.args, Some(ret));
        if self.kinds.len() < self.m.num_terms() {
            self.kinds.push(None);
            self.cstor.push(false);
            proof {
                assert(find_app(c0.terms, f@, c0.pending_args) is None);
                let entry = TermV { shape: ShapeV::App { f: f@, args: c0.pending_args }, ty: Some(ret@) };
                let cm = CtxV {
                    terms: c0.terms.push(entry),
                    kinds: c0.kinds.push(None),
                    cstor: c0.cstor.push(false),
                    ..c0
                };
                assert(self@.kinds =~= cm.kinds);
                assert(self@ =~= cm);
                lemma_inv_push(c0, cm, entry, None, false);
            }
        } else {
            proof {
                assert(find_app(c0.terms, f@, c0.pending_args) is Some);
                assert(self@ =~= c0);
                match find_app(c0.terms, f@, c0.pending_args) {
                    Some(i) => crate::manager::lemma_find_app_some(
                        c0.terms,
                        f@,
                        c0.pending_args,
                        i,
                    ),
                    None => {},
                }
            }
        }
        let ghost c_grown = self@;
        self.f = None;
        self.args.clear();
        proof {
            assert(ids_of(self.args@) =~= Seq::<int>::empty());
            assert(c_grown == with_app(c0, f@, c0.pending_args, Some(ret@)));
            assert(self@ =~= (CtxV {
                pending_fun: None::<int>,
                pending_args: Seq::<int>::empty(),
                ..with_app(c0, f@, c0.pending_args, Some(ret@))
            }));
        }
        Ok(t)
    }
}

} // verus!
