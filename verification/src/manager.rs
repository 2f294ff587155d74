//! The term store: creation, interning and structural views of terms.
//!
//! Every term is either a named constant or an application of a head
//! term to argument terms, and optionally carries a value type (itself
//! a term).  Applications are hash-consed: creating an application
//! whose head and arguments match an existing one returns the existing
//! identity instead of a fresh one.  Constants are always fresh; a
//! caller that wants one identity per name keeps its own cache (the
//! symbol registry does exactly that).

use vstd::prelude::*;

use crate::ast::AST;

verus! {

/// Mathematical shape of one stored term.
#[verifier::ext_equal]
pub enum ShapeV {
    Const { name: Seq<char> },
    App { f: int, args: Seq<int> },
}

/// Mathematical image of one stored term: its shape and its value type.
#[verifier::ext_equal]
pub struct TermV {
    pub shape: ShapeV,
    pub ty: Option<int>,
}

/// The identities named by a sequence of term handles.
pub open spec fn ids_of(s: Seq<AST>) -> Seq<int> {
    s.map_values(|a: AST| a@)
}

/// The identity named by an optional term handle.
pub open spec fn ty_id(t: Option<AST>) -> Option<int> {
    match t {
        Some(a) => Some(a@),
        None => None,
    }
}

/// An identity that denotes a term of a store with `n` terms.
pub open spec fn valid_id(n: int, i: int) -> bool {
    0 <= i < n
}

/// All identities inside `s` denote terms of a store with `n` terms.
pub open spec fn shape_valid(n: int, s: ShapeV) -> bool {
    match s {
        ShapeV::Const { name: _ } => true,
        ShapeV::App { f, args } => valid_id(n, f) && forall|i: int|
            0 <= i < args.len() ==> valid_id(n, #[trigger] args[i]),
    }
}

/// An optional type identity that denotes a term of a store with `n` terms.
pub open spec fn opt_valid(n: int, ty: Option<int>) -> bool {
    match ty {
        Some(t) => valid_id(n, t),
        None => true,
    }
}

/// All identities inside `t` denote terms of a store with `n` terms.
pub open spec fn term_valid(n: int, t: TermV) -> bool {
    shape_valid(n, t.shape) && opt_valid(n, t.ty)
}

/// The store's invariant: every stored identity is in range, and no
/// application shape occurs twice (the interning guarantee).
pub open spec fn store_inv(m: Seq<TermV>) -> bool {
    &&& forall|i: int| 0 <= i < m.len() ==> term_valid(m.len() as int, #[trigger] m[i])
    &&& forall|i: int, j: int|
        0 <= i < j < m.len() && (#[trigger] m[i]).shape is App && (#[trigger] m[j]).shape is App
            ==> m[i].shape != m[j].shape
}

/// The identity of the application `f(args)` in `m`, if one is stored:
/// the highest-indexed entry whose shape matches (under `store_inv`
/// there is at most one).
pub open spec fn find_app(m: Seq<TermV>, f: int, args: Seq<int>) -> Option<int>
    decreases m.len(),
{
    if m.len() == 0 {
        None
    } else if m.last().shape == (ShapeV::App { f, args }) {
        Some(m.len() - 1)
    } else {
        find_app(m.drop_last(), f, args)
    }
}

/// The identity that creating the application `f(args)` over `m` returns.
pub open spec fn mk_app_id(m: Seq<TermV>, f: int, args: Seq<int>) -> int {
    match find_app(m, f, args) {
        Some(i) => i,
        None => m.len() as int,
    }
}

/// The store that creating the application `f(args)` over `m` leaves.
pub open spec fn mk_app_terms(m: Seq<TermV>, f: int, args: Seq<int>, ty: Option<int>) -> Seq<
    TermV,
> {
    match find_app(m, f, args) {
        Some(_) => m,
        None => m.push(TermV { shape: ShapeV::App { f, args }, ty }),
    }
}

/// When `find_app` misses, no stored term has the sought shape.
pub proof fn lemma_find_app_none(m: Seq<TermV>, f: int, args: Seq<int>)
    requires
        find_app(m, f, args) is None,
    ensures
        forall|i: int| 0 <= i < m.len() ==> (#[trigger] m[i]).shape != (ShapeV::App { f, args }),
    decreases m.len(),
{
    if m.len() > 0 {
        lemma_find_app_none(m.drop_last(), f, args);
        assert forall|i: int| 0 <= i < m.len() implies (#[trigger] m[i]).shape != (ShapeV::App {
            f,
            args,
        }) by {
            if i < m.len() - 1 {
                assert(m.drop_last()[i] == m[i]);
            }
        }
    }
}

/// When `find_app` hits, the entry it names has the sought shape.
pub proof fn lemma_find_app_some(m: Seq<TermV>, f: int, args: Seq<int>, i: int)
    requires
        find_app(m, f, args) == Some(i),
    ensures
        0 <= i < m.len(),
        m[i].shape == (ShapeV::App { f, args }),
        m[i].shape is App,
    decreases m.len(),
{
    if m.len() > 0 {
        if m.last().shape == (ShapeV::App { f, args }) {
        } else {
            lemma_find_app_some(m.drop_last(), f, args, i);
            assert(m.drop_last()[i] == m[i]);
        }
    }
}

/// One stored term: its shape and its value type.
pub(crate) enum Shape {
    Const { name: String },
    App { f: AST, args: Vec<AST> },
}

pub(crate) struct Term {
    pub(crate) shape: Shape,
    pub(crate) ty: Option<AST>,
}

impl View for Shape {
    type V = ShapeV;

    closed spec fn view(&self) -> ShapeV {
        match self {
            Shape::Const { name } => ShapeV::Const { name: name@ },
            Shape::App { f, args } => ShapeV::App { f: f@, args: ids_of(args@) },
        }
    }
}

impl View for Term {
    type V = TermV;

    closed spec fn view(&self) -> TermV {
        TermV { shape: self.shape@, ty: ty_id(self.ty) }
    }
}

/// The hash-consing term store.
pub struct Manager {
    terms: Vec<Term>,
}

impl View for Manager {
    type V = Seq<TermV>;

    closed spec fn view(&self) -> Seq<TermV> {
        Seq::new(self.terms@.len(), |i: int| self.terms@[i]@)
    }
}

/// Compares two argument vectors by the identities they name.
fn ast_vec_eq(a: &Vec<AST>, b: &Vec<AST>) -> (r: bool)
    ensures
        r == (ids_of(a@) == ids_of(b@)),
{
    if a.len() != b.len() {
        assert(ids_of(a@).len() != ids_of(b@).len());
        return false;
    }
    let n = a.len();
    let mut i: usize = 0;
    while i < n
        invariant
            n == a@.len() == b@.len(),
            i <= n,
            forall|k: int| 0 <= k < i ==> a@[k]@ == b@[k]@,
        decreases n - i,
    {
        if a[i].idx() != b[i].idx() {
            proof {
                assert(ids_of(a@)[i as int] == a@[i as int]@);
                assert(ids_of(b@)[i as int] == b@[i as int]@);
            }
            return false;
        }
        i += 1;
    }
    proof {
        assert forall|k: int| 0 <= k < a@.len() implies ids_of(a@)[k] == ids_of(b@)[k] by {
            assert(ids_of(a@)[k] == a@[k]@);
            assert(ids_of(b@)[k] == b@[k]@);
        }
        assert(ids_of(a@) =~= ids_of(b@));
    }
    true
}

impl Manager {
    /// A store with no terms.
    pub fn new() -> (m: Manager)
        ensures
            m@ == Seq::<TermV>::empty(),
            store_inv(m@),
    {
        let m = Manager { terms: Vec::new() };
        proof {
            assert(m@ =~= Seq::<TermV>::empty());
        }
        m
    }

    /// How many terms the store holds.
    pub fn num_terms(&self) -> (n: usize)
        ensures
            n as int == self@.len(),
    {
        self.terms.len()
    }

    /// Creates a fresh constant term named `name`, of value type `ty`.
    /// Constants are never interned: each call returns a new identity.
    pub fn mk_const(&mut self, name: &str, ty: Option<AST>) -> (r: AST)
        requires
            store_inv(old(self)@),
            old(self)@.len() < u32::MAX as int,
            opt_valid(old(self)@.len() as int, ty_id(ty)),
        ensures
            r@ == old(self)@.len(),
            final(self)@ == old(self)@.push(
                TermV { shape: ShapeV::Const { name: name@ }, ty: ty_id(ty) },
            ),
            store_inv(final(self)@),
    {
        let i = self.terms.len() as u32;
        self.terms.push(Term { shape: Shape::Const { name: name.to_owned() }, ty });
        proof {
            let m1 = self@;
            let m0 = old(self)@;
            let entry = TermV { shape: ShapeV::Const { name: name@ }, ty: ty_id(ty) };
            assert(m1 =~= m0.push(entry));
            assert forall|k: int| 0 <= k < m1.len() implies term_valid(
                m1.len() as int,
                #[trigger] m1[k],
            ) by {
                if k < m0.len() {
                    assert(term_valid(m0.len() as int, m0[k]));
                }
            }
        }
        AST::from_idx(i)
    }

    /// Creates the application of `f` to `args`, of value type `ty`, or
    /// returns the stored identity when the same application exists: the
    /// hash-consing guarantee (a term already stored keeps its own type).
    pub fn mk_app(&mut self, f: AST, args: &Vec<AST>, ty: Option<AST>) -> (r: AST)
        requires
            store_inv(old(self)@),
            old(self)@.len() < u32::MAX as int,
            valid_id(old(self)@.len() as int, f@),
            forall|i: int| 0 <= i < args@.len() ==> valid_id(old(self)@.len() as int, args@[i]@),
            opt_valid(old(self)@.len() as int, ty_id(ty)),
        ensures
            r@ == mk_app_id(old(self)@, f@, ids_of(args@)),
            final(self)@ == mk_app_terms(old(self)@, f@, ids_of(args@), ty_id(ty)),
            store_inv(final(self)@),
    {
        let ghost m0 = self@;
        let ghost target = ShapeV::App { f: f@, args: ids_of(args@) };
        proof {
            assert(m0.take(m0.len() as int) =~= m0);
        }
        let mut i: usize = self.terms.len();
        while i > 0
            invariant
                *self == *old(self),
                m0 == self@,
                i <= self@.len(),
                self@.len() == self.terms@.len(),
                self@.len() < u32::MAX as int,
                store_inv(self@),
                target == (ShapeV::App { f: f@, args: ids_of(args@) }),
                find_app(m0, f@, ids_of(args@)) == find_app(m0.take(i as int), f@, ids_of(args@)),
            decreases i,
        {
            i -= 1;
            proof {
                assert(m0[i as int] == self.terms@[i as int]@);
                assert(m0[i as int].shape == self.terms@[i as int].shape@);
                let pre = m0.take(i as int + 1);
                assert(pre.last() == m0[i as int]);
                assert(pre.drop_last() =~= m0.take(i as int));
            }
            let hit: bool = match &self.terms[i].shape {
                Shape::App { f: g, args: b } => {
                    let same = g.idx() == f.idx() && ast_vec_eq(b, args);
                    proof {
                        assert(self.terms@[i as int].shape == (Shape::App { f: *g, args: *b }));
                        assert(m0[i as int].shape == (ShapeV::App {
                            f: (*g)@,
                            args: ids_of(b@),
                        }));
                        if same {
                            assert(m0[i as int].shape == target);
                        } else {
                            assert(m0[i as int].shape != target);
                        }
                    }
                    same
                },
                Shape::Const { .. } => {
                    proof {
                        assert(m0[i as int].shape is Const);
                    }
                    false
                },
            };
            if hit {
                proof {
                    assert(m0[i as int].shape == target);
                    assert(find_app(m0.take(i as int + 1), f@, ids_of(args@)) == Some(i as int));
                }
                return AST::from_idx(i as u32);
            }
            proof {
                assert(m0[i as int].shape != target);
            }
        }
        proof {
            assert(m0.take(0) =~= Seq::<TermV>::empty());
            assert(find_app(m0, f@, ids_of(args@)) is None);
            lemma_find_app_none(m0, f@, ids_of(args@));
        }
        let r = self.terms.len() as u32;
        let mut stored_args: Vec<AST> = Vec::new();
        let n = args.len();
        let mut k: usize = 0;
        while k < n
            invariant
                n == args@.len(),
                k <= n,
                stored_args@.len() == k as int,
                forall|j: int| 0 <= j < k ==> stored_args@[j] == args@[j],
                self@ == m0,
                self@.len() < u32::MAX as int,
                self@.len() == self.terms@.len(),
                r as int == m0.len(),
            decreases n - k,
        {
            stored_args.push(args[k]);
            k += 1;
        }
        proof {
            assert(stored_args@ =~= args@);
        }
        self.terms.push(Term { shape: Shape::App { f, args: stored_args }, ty });
        proof {
            let m1 = self@;
            let entry = TermV { shape: target, ty: ty_id(ty) };
            assert(m1 =~= m0.push(entry));
            assert forall|a: int| 0 <= a < m1.len() implies term_valid(
                m1.len() as int,
                #[trigger] m1[a],
            ) by {
                if a < m0.len() {
                    assert(term_valid(m0.len() as int, m0[a]));
                }
            }
            assert forall|a: int, b: int|
                0 <= a < b < m1.len() && (#[trigger] m1[a]).shape is App && (#[trigger] m1[b]).shape
                    is App implies m1[a].shape != m1[b].shape by {
                if b == m0.len() {
                    assert(m1[a].shape != target);
                }
            }
        }
        AST::from_idx(r)
    }

    /// The value type of term `t`, when it carries one.
    pub fn ty(&self, t: AST) -> (r: Option<AST>)
        requires
            valid_id(self@.len() as int, t@),
        ensures
            ty_id(r) == self@[t@].ty,
    {
        let i = t.idx() as usize;
        self.terms[i].ty
    }

    /// Whether term `t` is a constant (a zero-argument syntactic leaf).
    pub fn is_const(&self, t: AST) -> (r: bool)
        requires
            valid_id(self@.len() as int, t@),
        ensures
            r == (self@[t@].shape is Const),
    {
        let i = t.idx() as usize;
        match &self.terms[i].shape {
            Shape::Const { .. } => true,
            Shape::App { .. } => false,
        }
    }

    /// The name of constant `t`, or `None` when `t` is an application.
    pub fn const_name(&self, t: AST) -> (r: Option<String>)
        requires
            valid_id(self@.len() as int, t@),
        ensures
            match r {
                Some(name) => self@[t@].shape == (ShapeV::Const { name: name@ }),
                None => !(self@[t@].shape is Const),
            },
    {
        let i = t.idx() as usize;
        match &self.terms[i].shape {
            Shape::Const { name } => Some(name.clone()),
            Shape::App { .. } => None,
        }
    }

    /// The head of application `t`, or `None` when `t` is a constant.
    pub fn app_fun(&self, t: AST) -> (r: Option<AST>)
        requires
            valid_id(self@.len() as int, t@),
        ensures
            match r {
                Some(f) => self@[t@].shape is App && self@[t@].shape->App_f == f@,
                None => !(self@[t@].shape is App),
            },
    {
        let i = t.idx() as usize;
        match &self.terms[i].shape {
            Shape::App { f, .. } => Some(*f),
            Shape::Const { .. } => None,
        }
    }

    /// The arguments of application `t`, or `None` when `t` is a constant.
    pub fn app_args(&self, t: AST) -> (r: Option<Vec<AST>>)
        requires
            valid_id(self@.len() as int, t@),
        ensures
            match r {
                Some(args) => self@[t@].shape is App && self@[t@].shape->App_args == ids_of(args@),
                None => !(self@[t@].shape is App),
            },
    {
        let i = t.idx() as usize;
        match &self.terms[i].shape {
            Shape::App { args, .. } => {
                let n = args.len();
                let mut out: Vec<AST> = Vec::new();
                let mut k: usize = 0;
                while k < n
                    invariant
                        n == args@.len(),
                        k <= n,
                        out@.len() == k as int,
                        forall|j: int| 0 <= j < k ==> out@[j] == args@[j],
                        self.terms@[t@].shape matches Shape::App { args: a2, .. } && a2 == *args,
                        valid_id(self@.len() as int, t@),
                        self@.len() == self.terms@.len(),
                    decreases n - k,
                {
                    out.push(args[k]);
                    k += 1;
                }
                proof {
                    assert(out@ =~= args@);
                    assert(ids_of(out@) =~= ids_of(args@));
                }
                Some(out)
            },
            Shape::Const { .. } => None,
        }
    }
}

} // verus!
