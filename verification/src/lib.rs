//! Typed term builder and view adapters for a satisfiability engine.
//!
//! The crate owns the canonical representation of logical terms (booleans,
//! typed constants, function applications, equalities, datatype
//! constructors), hash-conses and type-checks every term on creation,
//! keeps a registry of symbol signatures and constructor flags, and
//! projects every term into the shapes that a congruence-closure engine
//! and a constructor-pattern engine consume.

pub mod ast;
pub mod builder;
pub mod classify;
pub mod construct;
pub mod ctx;
pub mod laws;
pub mod lbool;
pub mod manager;
pub mod registry;
pub mod views;

pub use ast::AST;
pub use classify::kind_spec;
pub use ctx::{AstKind, Builtins, Ctx, CtxV, Error, LitMapBuiltins, SymKind};
pub use lbool::{int_of_lbool, Lbool};
pub use manager::Manager;
pub use views::{CCView, ConstructorView};
