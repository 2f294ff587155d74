//! The term-building context: builtins, symbol registry, constructor
//! flags, and the in-progress application slot.

use vstd::prelude::*;

use crate::ast::AST;
use crate::manager::{
    find_app, ids_of, store_inv, term_valid, ty_id, valid_id, Manager, ShapeV, TermV,
};

verus! {

/// The discriminant a term classifies as, by priority: the two boolean
/// builtins, then constructor-flagged terms, then plain constants, then
/// compound applications by their head.
#[derive(PartialEq, Eq, Structural, Clone, Copy, Debug)]
pub enum AstKind {
    Bool,
    App,
    Const,
    Cstor,
    Selector,
    Not,
}

/// A caller-contract violation, surfaced as a value and never recovered
/// from mid-operation.
#[derive(PartialEq, Eq, Structural, Clone, Copy, Debug)]
pub enum Error {
    /// Operands of an equality have different or missing types.
    TypeMismatch,
    /// An application was finalized with the wrong argument count.
    ArityMismatch { expected: usize, got: usize },
    /// An application was finalized on a head with no function signature.
    NotApplicable,
    /// An argument was pushed, or an application finalized, with no
    /// application begun.
    NoPendingApplication,
    /// A boolean value was asked of a term that is not a boolean builtin.
    NotABooleanValue,
    /// A constant was expected (a name asked of a non-constant, or a
    /// constructor flag put on a compound term).
    NotAConstant,
    /// An application was expected.
    NotAnApplication,
    /// The operation is reserved but permanently disabled.
    Unsupported,
}

/// The fixed builtin identities, created once per context.
#[derive(Clone, Copy, Debug)]
pub struct Builtins {
    pub bool_: AST,
    pub true_: AST,
    pub false_: AST,
    pub not_: AST,
    pub eq: AST,
    pub distinct: AST,
    /// Reserved for selector terms; currently unconstructible.
    pub select: AST,
}

/// Mathematical image of the builtins: their identities.
pub struct BuiltinsV {
    pub bool_: int,
    pub true_: int,
    pub false_: int,
    pub not_: int,
    pub eq: int,
    pub distinct: int,
    pub select: int,
}

impl View for Builtins {
    type V = BuiltinsV;

    open(crate) spec fn view(&self) -> BuiltinsV {
        BuiltinsV {
            bool_: self.bool_@,
            true_: self.true_@,
            false_: self.false_@,
            not_: self.not_@,
            eq: self.eq@,
            distinct: self.distinct@,
            select: self.select@,
        }
    }
}

/// The subset of the builtins that the literal-mapping layer of a
/// solver consumes.
#[derive(Clone, Copy, Debug)]
pub struct LitMapBuiltins {
    pub bool_: AST,
    pub true_: AST,
    pub false_: AST,
    pub not_: AST,
}

/// The signature a declared symbol was first recorded with: a type
/// symbol, or a constant/function symbol with argument and return types.
#[derive(Clone)]
pub enum SymKind {
    Ty,
    Const { args: Vec<AST>, ret: AST },
}

/// Mathematical image of a symbol signature.
#[verifier::ext_equal]
pub enum SymKindV {
    Ty,
    Const { args: Seq<int>, ret: int },
}

impl View for SymKind {
    type V = SymKindV;

    open(crate) spec fn view(&self) -> SymKindV {
        match self {
            SymKind::Ty => SymKindV::Ty,
            SymKind::Const { args, ret } => SymKindV::Const { args: ids_of(args@), ret: ret@ },
        }
    }
}

/// The images of a sequence of optional symbol signatures.
pub open spec fn kind_views(s: Seq<Option<SymKind>>) -> Seq<Option<SymKindV>> {
    s.map_values(
        |k: Option<SymKind>|
            match k {
                Some(x) => Some(x@),
                None => None,
            },
    )
}

/// The name-to-identity map that an association list denotes; a later
/// entry for the same name wins.
pub open spec fn syms_map_of(s: Seq<(String, AST)>) -> Map<Seq<char>, int>
    decreases s.len(),
{
    if s.len() == 0 {
        Map::empty()
    } else {
        syms_map_of(s.drop_last()).insert(s.last().0@, s.last().1@)
    }
}

/// Mathematical image of a whole context.
#[verifier::ext_equal]
pub struct CtxV {
    /// The term store, by identity.
    pub terms: Seq<TermV>,
    /// Declared names and the identities they are cached at.
    pub syms: Map<Seq<char>, int>,
    /// Per identity, the signature it was declared with, if any.
    pub kinds: Seq<Option<SymKindV>>,
    /// Per identity, whether it is flagged as a datatype constructor.
    pub cstor: Seq<bool>,
    /// The head of the in-progress application, if one was begun.
    pub pending_fun: Option<int>,
    /// The arguments accumulated for the in-progress application.
    pub pending_args: Seq<int>,
    /// The builtin identities.
    pub b: BuiltinsV,
}

/// The seven builtin store entries, in creation order.
pub open spec fn builtin_terms() -> Seq<TermV> {
    seq![
        TermV { shape: ShapeV::Const { name: "Bool"@ }, ty: None },
        TermV { shape: ShapeV::Const { name: "true"@ }, ty: Some(0) },
        TermV { shape: ShapeV::Const { name: "false"@ }, ty: Some(0) },
        TermV { shape: ShapeV::Const { name: "="@ }, ty: None },
        TermV { shape: ShapeV::Const { name: "not"@ }, ty: None },
        TermV { shape: ShapeV::Const { name: "distinct"@ }, ty: None },
        TermV { shape: ShapeV::Const { name: "select-"@ }, ty: None },
    ]
}

/// A term identity that denotes a term of context `c`.
pub open spec fn valid_term(c: CtxV, t: int) -> bool {
    valid_id(c.terms.len() as int, t)
}

/// The context invariant: the store obeys its own invariant, the side
/// tables run in lockstep with it, the builtins stand at the first
/// seven identities with their fixed shapes, every cached or recorded
/// identity is in range, signatures never attach to builtins, and every
/// stored equality or negation application has the arity, operand order
/// and boolean type its construction guarantees.
pub open spec fn inv(c: CtxV) -> bool {
    let n = c.terms.len() as int;
    &&& store_inv(c.terms)
    &&& c.kinds.len() == n
    &&& c.cstor.len() == n
    &&& n >= 7
    &&& c.b == (BuiltinsV {
        bool_: 0,
        true_: 1,
        false_: 2,
        eq: 3,
        not_: 4,
        distinct: 5,
        select: 6,
    })
    &&& forall|k: int| 0 <= k < 7 ==> c.terms[k] == builtin_terms()[k]
    &&& forall|name: Seq<char>|
        c.syms.dom().contains(name) ==> valid_id(n, #[trigger] c.syms[name])
    &&& forall|i: int|
        0 <= i < n ==> match #[trigger] c.kinds[i] {
            Some(SymKindV::Const { args, ret }) => valid_id(n, ret) && forall|j: int|
                0 <= j < args.len() ==> valid_id(n, #[trigger] args[j]),
            _ => true,
        }
    &&& forall|i: int| 0 <= i < 7 ==> (#[trigger] c.kinds[i]) is None
    &&& match c.pending_fun {
        Some(f) => valid_id(n, f),
        None => true,
    }
    &&& forall|j: int| 0 <= j < c.pending_args.len() ==> valid_id(n, #[trigger] c.pending_args[j])
    &&& forall|i: int|
        0 <= i < n ==> match (#[trigger] c.terms[i]).shape {
            ShapeV::App { f, args } => (f == c.b.eq ==> args.len() == 2 && args[0] <= args[1]
                && c.terms[i].ty == Some(c.b.bool_)) && (f == c.b.not_ ==> args.len() == 1
                && c.terms[i].ty == Some(c.b.bool_)),
            _ => true,
        }
}

/// The context that creating the application `f(args)` over `c0`
/// leaves: unchanged when the application is already stored, else grown
/// by the new term, with no signature and no constructor flag for it.
pub open spec fn with_app(c0: CtxV, f: int, args: Seq<int>, ty: Option<int>) -> CtxV {
    if find_app(c0.terms, f, args) is Some {
        c0
    } else {
        CtxV {
            terms: c0.terms.push(TermV { shape: ShapeV::App { f, args }, ty }),
            kinds: c0.kinds.push(None),
            cstor: c0.cstor.push(false),
            ..c0
        }
    }
}

/// Growing the context by one term entry, one signature slot and one
/// flag slot preserves the invariant, provided the new entries are in
/// range and a new equality or negation application is well shaped.
pub(crate) proof fn lemma_inv_push(
    c0: CtxV,
    c1: CtxV,
    entry: TermV,
    kind: Option<SymKindV>,
    flag: bool,
)
    requires
        inv(c0),
        c1 == (CtxV {
            terms: c0.terms.push(entry),
            kinds: c0.kinds.push(kind),
            cstor: c0.cstor.push(flag),
            ..c0
        }),
        store_inv(c1.terms),
        term_valid(c0.terms.len() as int + 1, entry),
        match entry.shape {
            ShapeV::App { f, args } => (f == c0.b.eq ==> args.len() == 2 && args[0] <= args[1]
                && entry.ty == Some(c0.b.bool_)) && (f == c0.b.not_ ==> args.len() == 1 && entry.ty
                == Some(c0.b.bool_)),
            _ => true,
        },
        match kind {
            Some(SymKindV::Const { args, ret }) => valid_id(c0.terms.len() as int, ret) && forall|
                j: int,
            | 0 <= j < args.len() ==> valid_id(c0.terms.len() as int, #[trigger] args[j]),
            _ => true,
        },
    ensures
        inv(c1),
{
    let n0 = c0.terms.len() as int;
    let n1 = c1.terms.len() as int;
    assert(n1 == n0 + 1);
    assert forall|k: int| 0 <= k < 7 implies c1.terms[k] == builtin_terms()[k] by {
        assert(c1.terms[k] == c0.terms[k]);
    }
    assert forall|i: int|
        0 <= i < n1 implies match #[trigger] c1.kinds[i] {
        Some(SymKindV::Const { args, ret }) => valid_id(n1, ret) && forall|j: int|
            0 <= j < args.len() ==> valid_id(n1, #[trigger] args[j]),
        _ => true,
    } by {
        if i < n0 {
            assert(c1.kinds[i] == c0.kinds[i]);
        } else {
            assert(c1.kinds[i] == kind);
        }
    }
    assert forall|i: int| 0 <= i < 7 implies (#[trigger] c1.kinds[i]) is None by {
        assert(c1.kinds[i] == c0.kinds[i]);
    }
    assert forall|i: int|
        0 <= i < n1 implies match (#[trigger] c1.terms[i]).shape {
        ShapeV::App { f, args } => (f == c1.b.eq ==> args.len() == 2 && args[0] <= args[1]
            && c1.terms[i].ty == Some(c1.b.bool_)) && (f == c1.b.not_ ==> args.len() == 1
            && c1.terms[i].ty == Some(c1.b.bool_)),
        _ => true,
    } by {
        if i < n0 {
            assert(c1.terms[i] == c0.terms[i]);
        } else {
            assert(c1.terms[i] == entry);
        }
    }
}

/// Caching one more name at an in-range identity preserves the
/// invariant.
pub(crate) proof fn lemma_inv_insert_sym(c0: CtxV, c1: CtxV, name: Seq<char>, v: int)
    requires
        inv(c0),
        valid_id(c0.terms.len() as int, v),
        c1 == (CtxV { syms: c0.syms.insert(name, v), ..c0 }),
    ensures
        inv(c1),
{
}

/// The main context: term store, builtins, symbol registry, constructor
/// flags, and the single in-progress application slot.
pub struct Ctx {
    pub(crate) m: Manager,
    pub(crate) b: Builtins,
    pub(crate) syms: Vec<(String, AST)>,
    pub(crate) kinds: Vec<Option<SymKind>>,
    pub(crate) cstor: Vec<bool>,
    pub(crate) f: Option<AST>,
    pub(crate) args: Vec<AST>,
}

impl View for Ctx {
    type V = CtxV;

    open(crate) spec fn view(&self) -> CtxV {
        CtxV {
            terms: self.m@,
            syms: syms_map_of(self.syms@),
            kinds: kind_views(self.kinds@),
            cstor: self.cstor@,
            pending_fun: ty_id(self.f),
            pending_args: ids_of(self.args@),
            b: self.b@,
        }
    }
}

impl Ctx {
    /// The context is well formed.
    pub open spec fn wf(&self) -> bool {
        inv(self@)
    }

    /// A fresh context holding exactly the builtins, with an empty
    /// registry and no application in progress.
    pub fn new() -> (c: Ctx)
        ensures
            c.wf(),
            c@.terms == builtin_terms(),
            c@.syms == Map::<Seq<char>, int>::empty(),
            c@.kinds == Seq::new(7, |i: int| None::<SymKindV>),
            c@.cstor == Seq::new(7, |i: int| false),
            c@.pending_fun is None,
            c@.pending_args == Seq::<int>::empty(),
            c@.b == (BuiltinsV {
                bool_: 0,
                true_: 1,
                false_: 2,
                eq: 3,
                not_: 4,
                distinct: 5,
                select: 6,
            }),
    {
        let mut m = Manager::new();
        let bool_ = m.mk_const("Bool", None);
        let true_ = m.mk_const("true", Some(bool_));
        let false_ = m.mk_const("false", Some(bool_));
        let eq = m.mk_const("=", None);
        let not_ = m.mk_const("not", None);
        let distinct = m.mk_const("distinct", None);
        let select = m.mk_const("select-", None);
        let b = Builtins { bool_, true_, false_, not_, eq, distinct, select };
        let mut kinds: Vec<Option<SymKind>> = Vec::new();
        let mut cstor: Vec<bool> = Vec::new();
        let mut i: usize = 0;
        while i < 7
            invariant
                i <= 7,
                kinds@.len() == i as int,
                cstor@.len() == i as int,
                forall|j: int| 0 <= j < i ==> (#[trigger] kinds@[j]) is None,
                forall|j: int| 0 <= j < i ==> (#[trigger] cstor@[j]) == false,
            decreases 7 - i,
        {
            kinds.push(None);
            cstor.push(false);
            i += 1;
        }
        let c = Ctx { m, b, syms: Vec::new(), kinds, cstor, f: None, args: Vec::new() };
        proof {
            assert(c@.terms =~= builtin_terms());
            assert(c@.syms =~= Map::<Seq<char>, int>::empty());
            assert(c@.kinds =~= Seq::new(7, |i: int| None::<SymKindV>));
            assert(c@.cstor =~= Seq::new(7, |i: int| false));
            assert(c@.pending_args =~= Seq::<int>::empty());
        }
        c
    }

    /// A copy of the builtin identities.
    pub fn builtins(&self) -> (r: Builtins)
        ensures
            r@ == self@.b,
    {
        self.b
    }

    /// The builtins that the literal-mapping layer consumes.
    pub fn lmb(&self) -> (r: LitMapBuiltins)
        ensures
            r.bool_@ == self@.b.bool_,
            r.true_@ == self@.b.true_,
            r.false_@ == self@.b.false_,
            r.not_@ == self@.b.not_,
    {
        LitMapBuiltins {
            bool_: self.b.bool_,
            true_: self.b.true_,
            false_: self.b.false_,
            not_: self.b.not_,
        }
    }

    /// Whether term `t` carries the constructor flag.
    pub fn is_cstor(&self, t: &AST) -> (r: bool)
        requires
            self.wf(),
            valid_term(self@, t@),
        ensures
            r == self@.cstor[t@],
    {
        let i = t.idx() as usize;
        self.cstor[i]
    }

    /// Sets the constructor flag on term `t`, unchecked; the flag is
    /// monotonic and never cleared.
    pub fn set_cstor(&mut self, t: &AST)
        requires
            old(self).wf(),
            valid_term(old(self)@, t@),
        ensures
            final(self).wf(),
            final(self)@ == (CtxV { cstor: old(self)@.cstor.update(t@, true), ..old(self)@ }),
    {
        let i = t.idx() as usize;
        self.cstor[i] = true;
        proof {
            assert(final(self)@.cstor =~= old(self)@.cstor.update(t@, true));
            assert(final(self)@ =~= (CtxV {
                cstor: old(self)@.cstor.update(t@, true),
                ..old(self)@
            }));
        }
    }

    /// Whether term `t` is of boolean type.
    pub fn is_boolean_term(&self, t: &AST) -> (r: bool)
        requires
            self.wf(),
            valid_term(self@, t@),
        ensures
            r == (self@.terms[t@].ty == Some(self@.b.bool_)),
    {
        match self.m.ty(*t) {
            Some(ty) => ty.idx() == self.b.bool_.idx(),
            None => false,
        }
    }

    /// The boolean type's identity.
    pub fn api_ty_bool(&self) -> (r: AST)
        ensures
            r@ == self@.b.bool_,
    {
        self.b.bool_
    }

    /// The identity of the boolean literal `b`.
    pub fn api_bool(&mut self, b: bool) -> (r: AST)
        ensures
            *final(self) == *old(self),
            r@ == if b {
                old(self)@.b.true_
            } else {
                old(self)@.b.false_
            },
    {
        if b {
            self.b.true_
        } else {
            self.b.false_
        }
    }

    /// The identity of the boolean literal `b`; the read-only view
    /// adapters' way in.
    pub fn get_bool_term(&self, b: bool) -> (r: AST)
        ensures
            r@ == if b {
                self@.b.true_
            } else {
                self@.b.false_
            },
    {
        if b {
            self.b.true_
        } else {
            self.b.false_
        }
    }

    /// The boolean value of `t`: defined exactly for the two boolean
    /// builtins, and an error for every other term.
    pub fn api_get_bool(&self, t: AST) -> (r: Result<bool, Error>)
        ensures
            r == (if t@ == self@.b.true_ {
                Ok::<bool, Error>(true)
            } else if t@ == self@.b.false_ {
                Ok::<bool, Error>(false)
            } else {
                Err::<bool, Error>(Error::NotABooleanValue)
            }),
    {
        if t.idx() == self.b.true_.idx() {
            Ok(true)
        } else if t.idx() == self.b.false_.idx() {
            Ok(false)
        } else {
            Err(Error::NotABooleanValue)
        }
    }

    /// The name of constant `t`, or an error when `t` is an application.
    pub fn api_const_get_name(&self, t: AST) -> (r: Result<String, Error>)
        requires
            self.wf(),
            valid_term(self@, t@),
        ensures
            match r {
                Ok(name) => self@.terms[t@].shape == (ShapeV::Const { name: name@ }),
                Err(e) => e == Error::NotAConstant && !(self@.terms[t@].shape is Const),
            },
    {
        match self.m.const_name(t) {
            Some(name) => Ok(name),
            None => Err(Error::NotAConstant),
        }
    }

    /// The head of application `t`, or an error when `t` is a constant.
    pub fn api_app_get_fun(&self, t: AST) -> (r: Result<AST, Error>)
        requires
            self.wf(),
            valid_term(self@, t@),
        ensures
            match r {
                Ok(f) => self@.terms[t@].shape is App && self@.terms[t@].shape->App_f == f@,
                Err(e) => e == Error::NotAnApplication && !(self@.terms[t@].shape is App),
            },
    {
        match self.m.app_fun(t) {
            Some(f) => Ok(f),
            None => Err(Error::NotAnApplication),
        }
    }

    /// The arguments of application `t`, or an error when `t` is a
    /// constant.
    pub fn api_app_get_args(&self, t: AST) -> (r: Result<Vec<AST>, Error>)
        requires
            self.wf(),
            valid_term(self@, t@),
        ensures
            match r {
                Ok(args) => self@.terms[t@].shape is App && self@.terms[t@].shape->App_args
                    == ids_of(args@),
                Err(e) => e == Error::NotAnApplication && !(self@.terms[t@].shape is App),
            },
    {
        match self.m.app_args(t) {
            Some(args) => Ok(args),
            None => Err(Error::NotAnApplication),
        }
    }

    /// Selector terms are reserved but unconstructible: every call
    /// fails, and the context is left untouched.
    pub fn api_select(&mut self, c: AST, i: u32, sub: AST) -> (r: Result<AST, Error>)
        ensures
            *final(self) == *old(self),
            r == Err::<AST, Error>(Error::Unsupported),
    {
        let _ = c;
        let _ = i;
        let _ = sub;
        Err(Error::Unsupported)
    }
}

} // verus!
