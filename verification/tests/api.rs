//! Exercises the term builder and both view adapters through the
//! public interface.

use batsmt::{AstKind, CCView, ConstructorView, Ctx, Error};

/// Declaring the same type name twice returns the same identity.
#[test]
fn declare_type_idempotent() {
    let mut c = Ctx::new();
    let t1 = c.api_ty_const("tau");
    let t2 = c.api_ty_const("tau");
    assert_eq!(t1, t2);
    let u = c.api_ty_const("upsilon");
    assert_ne!(t1, u);
    let u2 = c.api_ty_const("upsilon");
    assert_eq!(u, u2);
}

/// Declaring the same constant name twice returns the same identity,
/// and a re-declaration under a different signature still returns the
/// first identity.
#[test]
fn declare_const_idempotent() {
    let mut c = Ctx::new();
    let tau = c.api_ty_const("tau");
    let x1 = c.api_const("x", &[], tau);
    let x2 = c.api_const("x", &[], tau);
    assert_eq!(x1, x2);
    let bool_ = c.api_ty_bool();
    let x3 = c.api_const("x", &[tau], bool_);
    assert_eq!(x1, x3);
}

/// A name declared as a type and re-declared as a constant stays at
/// the first identity.
#[test]
fn declare_across_kinds_idempotent() {
    let mut c = Ctx::new();
    let t = c.api_ty_const("sigma");
    let bool_ = c.api_ty_bool();
    let t2 = c.api_const("sigma", &[], bool_);
    assert_eq!(t, t2);
}

/// eq(a, b) and eq(b, a) are the same stored term.
#[test]
fn eq_canonical_symmetry() {
    let mut c = Ctx::new();
    let tau = c.api_ty_const("tau");
    let a = c.api_const("a", &[], tau);
    let b = c.api_const("b", &[], tau);
    let e1 = c.api_eq(a, b).unwrap();
    let e2 = c.api_eq(b, a).unwrap();
    assert_eq!(e1, e2);
}

/// The canonical equality keeps the lower identity first.
#[test]
fn eq_operand_order() {
    let mut c = Ctx::new();
    let tau = c.api_ty_const("tau");
    let a = c.api_const("a", &[], tau);
    let b = c.api_const("b", &[], tau);
    assert!(a.idx() < b.idx());
    let e = c.api_eq(b, a).unwrap();
    match c.view_as_cc_term(e) {
        CCView::Eq(x, y) => {
            assert_eq!(x, a);
            assert_eq!(y, b);
        },
        other => panic!("expected an equality shape, got {:?}", other),
    }
}

/// eq fails with TypeMismatch when the operand types differ or are
/// missing.
#[test]
fn eq_type_safety() {
    let mut c = Ctx::new();
    let tau = c.api_ty_const("tau");
    let ups = c.api_ty_const("upsilon");
    let a = c.api_const("a", &[], tau);
    let b = c.api_const("b", &[], ups);
    assert_eq!(c.api_eq(a, b), Err(Error::TypeMismatch));
    // A type symbol carries no value type.
    assert_eq!(c.api_eq(a, tau), Err(Error::TypeMismatch));
    assert_eq!(c.api_eq(tau, a), Err(Error::TypeMismatch));
    // A function symbol carries no value type either.
    let f = c.api_const("f", &[tau], tau);
    assert_eq!(c.api_eq(f, a), Err(Error::TypeMismatch));
    // Equal types succeed, even on the same operand twice.
    assert!(c.api_eq(a, a).is_ok());
}

/// negate(negate(bool_literal(true))) is the identity for true, and
/// its boolean value reads back as true.
#[test]
fn negation_involution_on_literals() {
    let mut c = Ctx::new();
    let t = c.api_bool(true);
    let n1 = c.api_not(t);
    let n2 = c.api_not(n1);
    assert_eq!(n2, t);
    assert_eq!(c.api_get_bool(n2), Ok(true));
    let f = c.api_bool(false);
    assert_eq!(n1, f);
    assert_eq!(c.api_get_bool(n1), Ok(false));
}

/// A general negation is a not-application and is not simplified
/// recursively, but is hash-consed.
#[test]
fn negation_general_term() {
    let mut c = Ctx::new();
    let bool_ = c.api_ty_bool();
    let p = c.api_const("p", &[], bool_);
    let np = c.api_not(p);
    assert_ne!(np, p);
    assert_eq!(c.api_kind(np), AstKind::Not);
    let np2 = c.api_not(p);
    assert_eq!(np, np2);
    // No peephole beyond the two literals: not(not(p)) stays a term.
    let nnp = c.api_not(np);
    assert_ne!(nnp, p);
    assert_eq!(c.api_kind(nnp), AstKind::Not);
}

/// Finalizing with the wrong pushed argument count fails with the
/// declared arity and the actual count; the exact count succeeds and
/// the result classifies as an application.
#[test]
fn arity_enforcement() {
    let mut c = Ctx::new();
    let tau = c.api_ty_const("tau");
    let g = c.api_const("g", &[tau, tau], tau);
    let a = c.api_const("a", &[], tau);
    let b = c.api_const("b", &[], tau);

    c.api_app_fun(g);
    c.api_app_arg(a).unwrap();
    assert_eq!(
        c.api_app_finalize(),
        Err(Error::ArityMismatch { expected: 2, got: 1 })
    );

    c.api_app_fun(g);
    c.api_app_arg(a).unwrap();
    c.api_app_arg(b).unwrap();
    c.api_app_arg(a).unwrap();
    assert_eq!(
        c.api_app_finalize(),
        Err(Error::ArityMismatch { expected: 2, got: 3 })
    );

    c.api_app_fun(g);
    c.api_app_arg(a).unwrap();
    c.api_app_arg(b).unwrap();
    let t = c.api_app_finalize().unwrap();
    assert_eq!(c.api_kind(t), AstKind::App);
}

/// Applications hash-cons: building the same application twice returns
/// the same identity.
#[test]
fn application_hash_consing() {
    let mut c = Ctx::new();
    let tau = c.api_ty_const("tau");
    let g = c.api_const("g", &[tau], tau);
    let a = c.api_const("a", &[], tau);
    c.api_app_fun(g);
    c.api_app_arg(a).unwrap();
    let t1 = c.api_app_finalize().unwrap();
    c.api_app_fun(g);
    c.api_app_arg(a).unwrap();
    let t2 = c.api_app_finalize().unwrap();
    assert_eq!(t1, t2);
}

/// The application accessors return the head and arguments of a
/// finished application.
#[test]
fn application_accessors() {
    let mut c = Ctx::new();
    let tau = c.api_ty_const("tau");
    let g = c.api_const("g", &[tau, tau], tau);
    let a = c.api_const("a", &[], tau);
    let b = c.api_const("b", &[], tau);
    c.api_app_fun(g);
    c.api_app_arg(a).unwrap();
    c.api_app_arg(b).unwrap();
    let t = c.api_app_finalize().unwrap();
    assert_eq!(c.api_app_get_fun(t), Ok(g));
    assert_eq!(c.api_app_get_args(t), Ok(vec![a, b]));
    assert_eq!(c.api_app_get_fun(a), Err(Error::NotAnApplication));
    assert_eq!(c.api_app_get_args(a), Err(Error::NotAnApplication));
}

/// Beginning a new application discards an unfinished one.
#[test]
fn builder_discards_unfinished() {
    let mut c = Ctx::new();
    let tau = c.api_ty_const("tau");
    let g = c.api_const("g", &[tau], tau);
    let a = c.api_const("a", &[], tau);
    c.api_app_fun(g);
    c.api_app_arg(a).unwrap();
    c.api_app_arg(a).unwrap();
    // Start over: the two pushed arguments above are gone.
    c.api_app_fun(g);
    c.api_app_arg(a).unwrap();
    let t = c.api_app_finalize().unwrap();
    assert_eq!(c.api_kind(t), AstKind::App);
}

/// A zero-argument constant may be finalized with no pushed arguments.
#[test]
fn zero_arity_application() {
    let mut c = Ctx::new();
    let tau = c.api_ty_const("tau");
    let a = c.api_const("a", &[], tau);
    c.api_app_fun(a);
    let t = c.api_app_finalize().unwrap();
    assert_eq!(c.api_kind(t), AstKind::App);
}

/// Builder calls without a begun application fail; a finalize on a
/// head with no function signature fails.
#[test]
fn builder_errors() {
    let mut c = Ctx::new();
    let tau = c.api_ty_const("tau");
    let a = c.api_const("a", &[], tau);
    assert_eq!(c.api_app_arg(a), Err(Error::NoPendingApplication));
    assert_eq!(c.api_app_finalize(), Err(Error::NoPendingApplication));
    // A plain type symbol has no function signature.
    c.api_app_fun(tau);
    assert_eq!(c.api_app_finalize(), Err(Error::NotApplicable));
    // The failed finalize kept the slot; clearing happens on success only.
    c.api_app_fun(a);
    assert!(c.api_app_finalize().is_ok());
    assert_eq!(c.api_app_finalize(), Err(Error::NoPendingApplication));
}

/// A flagged zero-argument constant classifies as a constructor, not a
/// constant; the congruence-closure view keeps it opaque while the
/// constructor view exposes it.
#[test]
fn constructor_classification_precedence() {
    let mut c = Ctx::new();
    let tau = c.api_ty_const("tau");
    let nil = c.api_const("nil", &[], tau);
    assert_eq!(c.api_kind(nil), AstKind::Const);
    c.api_set_is_cstor(nil).unwrap();
    assert_eq!(c.api_kind(nil), AstKind::Cstor);
    assert!(c.is_cstor(&nil));
    match c.view_as_cc_term(nil) {
        CCView::Opaque(t) => assert_eq!(t, nil),
        other => panic!("expected an opaque shape, got {:?}", other),
    }
    match c.view_as_constructor(nil) {
        ConstructorView::AppConstructor(h, args) => {
            assert_eq!(h, nil);
            assert!(args.is_empty());
        },
        other => panic!("expected a constructor shape, got {:?}", other),
    }
}

/// An application headed by a flagged symbol is a constructor
/// application; flagging is rejected on compound terms.
#[test]
fn constructor_application_view() {
    let mut c = Ctx::new();
    let tau = c.api_ty_const("tau");
    let cons = c.api_const("cons", &[tau], tau);
    let a = c.api_const("a", &[], tau);
    c.api_set_is_cstor(cons).unwrap();
    c.api_app_fun(cons);
    c.api_app_arg(a).unwrap();
    let t = c.api_app_finalize().unwrap();
    assert_eq!(c.api_kind(t), AstKind::Cstor);
    match c.view_as_constructor(t) {
        ConstructorView::AppConstructor(h, args) => {
            assert_eq!(h, cons);
            assert_eq!(args, vec![a]);
        },
        other => panic!("expected a constructor shape, got {:?}", other),
    }
    // A compound term cannot itself be flagged.
    let e = c.api_eq(a, a).unwrap();
    assert_eq!(c.api_set_is_cstor(e), Err(Error::NotAConstant));
    match c.view_as_constructor(e) {
        ConstructorView::Other(x) => assert_eq!(x, e),
        other => panic!("expected an opaque leaf, got {:?}", other),
    }
}

/// Both views return exactly one variant for every construction
/// primitive, with no panic.
#[test]
fn view_totality_over_corpus() {
    let mut c = Ctx::new();
    let bool_ = c.api_ty_bool();
    let tau = c.api_ty_const("tau");
    let a = c.api_const("a", &[], tau);
    let b = c.api_const("b", &[], tau);
    let g = c.api_const("g", &[tau], tau);
    let p = c.api_const("p", &[], bool_);
    let nil = c.api_const("nil", &[], tau);
    c.api_set_is_cstor(nil).unwrap();

    let tt = c.api_bool(true);
    let ff = c.api_bool(false);
    c.api_app_fun(g);
    c.api_app_arg(a).unwrap();
    let ga = c.api_app_finalize().unwrap();
    let e = c.api_eq(a, b).unwrap();
    let np = c.api_not(p);
    let ne = c.api_not(e);

    let corpus = vec![tt, ff, bool_, tau, a, b, g, p, nil, ga, e, np, ne];
    for t in corpus {
        let cc = c.view_as_cc_term(t);
        let n_cc = [
            matches!(cc, CCView::Bool(_)),
            matches!(cc, CCView::Opaque(_)),
            matches!(cc, CCView::Eq(..)),
            matches!(cc, CCView::Not(_)),
            matches!(cc, CCView::Distinct(_)),
            matches!(cc, CCView::ApplyHO(..)),
        ]
        .iter()
        .filter(|&&hit| hit)
        .count();
        assert_eq!(n_cc, 1);
        let cv = c.view_as_constructor(t);
        let n_cv = [
            matches!(cv, ConstructorView::AppConstructor(..)),
            matches!(cv, ConstructorView::Other(_)),
        ]
        .iter()
        .filter(|&&hit| hit)
        .count();
        assert_eq!(n_cv, 1);
    }
}

/// The end-to-end scenario: two boolean constants, their equality, its
/// negation, and the shapes the congruence-closure engine sees.
#[test]
fn end_to_end_scenario() {
    let mut c = Ctx::new();
    let bool_ = c.api_ty_bool();
    let p = c.api_const("p", &[], bool_);
    let q = c.api_const("q", &[], bool_);
    let e = c.api_eq(p, q).unwrap();
    assert_eq!(c.api_kind(e), AstKind::App);
    match c.view_as_cc_term(e) {
        CCView::Eq(x, y) => {
            assert_eq!(x, p);
            assert_eq!(y, q);
        },
        other => panic!("expected an equality shape, got {:?}", other),
    }
    let ne = c.api_not(e);
    assert_eq!(c.api_kind(ne), AstKind::Not);
    match c.view_as_cc_term(ne) {
        CCView::Not(x) => assert_eq!(x, e),
        other => panic!("expected a negation shape, got {:?}", other),
    }
}

/// The congruence-closure view of an uninterpreted application exposes
/// the head as a first-class position.
#[test]
fn cc_view_apply_ho() {
    let mut c = Ctx::new();
    let tau = c.api_ty_const("tau");
    let g = c.api_const("g", &[tau, tau], tau);
    let a = c.api_const("a", &[], tau);
    let b = c.api_const("b", &[], tau);
    c.api_app_fun(g);
    c.api_app_arg(a).unwrap();
    c.api_app_arg(b).unwrap();
    let t = c.api_app_finalize().unwrap();
    match c.view_as_cc_term(t) {
        CCView::ApplyHO(h, args) => {
            assert_eq!(h, g);
            assert_eq!(args, vec![a, b]);
        },
        other => panic!("expected a higher-order application, got {:?}", other),
    }
}
