//! Exercises the read-only lookups, the builtin tables, and the
//! tri-valued boolean encoding.

use batsmt::{int_of_lbool, AstKind, CCView, Ctx, Error, Lbool};

/// The boolean builtins read back their values; everything else fails.
#[test]
fn get_bool_values() {
    let mut c = Ctx::new();
    let t = c.api_bool(true);
    let f = c.api_bool(false);
    assert_eq!(c.api_get_bool(t), Ok(true));
    assert_eq!(c.api_get_bool(f), Ok(false));
    let bool_ = c.api_ty_bool();
    assert_eq!(c.api_get_bool(bool_), Err(Error::NotABooleanValue));
    // A boolean-typed compound term is still not a boolean value.
    let e = c.api_eq(t, f).unwrap();
    assert_eq!(c.api_get_bool(e), Err(Error::NotABooleanValue));
}

/// `get_bool_term` agrees with `api_bool` and classifies as Bool.
#[test]
fn bool_terms_classify() {
    let mut c = Ctx::new();
    let t = c.api_bool(true);
    let f = c.api_bool(false);
    assert_eq!(c.get_bool_term(true), t);
    assert_eq!(c.get_bool_term(false), f);
    assert_ne!(t, f);
    assert_eq!(c.api_kind(t), AstKind::Bool);
    assert_eq!(c.api_kind(f), AstKind::Bool);
    assert!(matches!(c.view_as_cc_term(t), CCView::Bool(true)));
    assert!(matches!(c.view_as_cc_term(f), CCView::Bool(false)));
}

/// Constant names read back; applications have no name.
#[test]
fn const_names() {
    let mut c = Ctx::new();
    let bool_ = c.api_ty_bool();
    assert_eq!(c.api_const_get_name(bool_).unwrap(), "Bool");
    let tau = c.api_ty_const("tau");
    assert_eq!(c.api_const_get_name(tau).unwrap(), "tau");
    let a = c.api_const("a", &[], tau);
    assert_eq!(c.api_const_get_name(a).unwrap(), "a");
    let e = c.api_eq(a, a).unwrap();
    assert_eq!(c.api_const_get_name(e), Err(Error::NotAConstant));
}

/// Boolean typing: the literals and every equality are boolean-typed;
/// type symbols are not.
#[test]
fn boolean_typing() {
    let mut c = Ctx::new();
    let t = c.api_bool(true);
    assert!(c.is_boolean_term(&t));
    let tau = c.api_ty_const("tau");
    assert!(!c.is_boolean_term(&tau));
    let a = c.api_const("a", &[], tau);
    assert!(!c.is_boolean_term(&a));
    let e = c.api_eq(a, a).unwrap();
    assert!(c.is_boolean_term(&e));
    let ne = c.api_not(e);
    assert!(c.is_boolean_term(&ne));
}

/// The builtin copies agree with each other and with the typed lookup.
#[test]
fn builtin_tables_agree() {
    let mut c = Ctx::new();
    let b = c.builtins();
    let lmb = c.lmb();
    assert_eq!(b.bool_, c.api_ty_bool());
    assert_eq!(b.true_, c.api_bool(true));
    assert_eq!(b.false_, c.api_bool(false));
    assert_eq!(lmb.bool_, b.bool_);
    assert_eq!(lmb.true_, b.true_);
    assert_eq!(lmb.false_, b.false_);
    assert_eq!(lmb.not_, b.not_);
}

/// The builtin head symbols themselves classify as plain constants.
#[test]
fn builtin_heads_classify_as_const() {
    let c = Ctx::new();
    let b = c.builtins();
    assert_eq!(c.api_kind(b.bool_), AstKind::Const);
    assert_eq!(c.api_kind(b.not_), AstKind::Const);
    assert_eq!(c.api_kind(b.eq), AstKind::Const);
    assert_eq!(c.api_kind(b.distinct), AstKind::Const);
    assert_eq!(c.api_kind(b.select), AstKind::Const);
}

/// The name cache covers declared symbols only: declaring a name that
/// a builtin also carries creates a distinct fresh symbol.
#[test]
fn declared_name_beside_builtin() {
    let mut c = Ctx::new();
    let bool_ = c.api_ty_bool();
    let shadow = c.api_ty_const("Bool");
    assert_ne!(shadow, bool_);
    let shadow2 = c.api_ty_const("Bool");
    assert_eq!(shadow, shadow2);
}

/// A compound term as the application head has no function signature.
#[test]
fn compound_head_not_applicable() {
    let mut c = Ctx::new();
    let tau = c.api_ty_const("tau");
    let a = c.api_const("a", &[], tau);
    let e = c.api_eq(a, a).unwrap();
    c.api_app_fun(e);
    assert_eq!(c.api_app_finalize(), Err(Error::NotApplicable));
}

/// Selector construction is reserved and always fails.
#[test]
fn select_is_unsupported() {
    let mut c = Ctx::new();
    let tau = c.api_ty_const("tau");
    let nil = c.api_const("nil", &[], tau);
    c.api_set_is_cstor(nil).unwrap();
    let a = c.api_const("a", &[], tau);
    assert_eq!(c.api_select(nil, 0, a), Err(Error::Unsupported));
}

/// The fixed integer encoding of a literal's tri-valued value.
#[test]
fn lbool_encoding() {
    assert_eq!(int_of_lbool(Lbool::True), 0);
    assert_eq!(int_of_lbool(Lbool::False), 1);
    assert_eq!(int_of_lbool(Lbool::Undef), 2);
}
