//! A tree-walking evaluator for a small expression language with first-class
//! functions, conditionals, strings, numbers and a fixed set of built-in
//! operators.
//!
//! # Numbers
//!
//! Numbers are IEEE-754 doubles, and no function of this library computes
//! with doubles. A number travels as its 64-bit pattern. The caller hands in
//! the three functions that look inside one: `arith` for `+ - * /`, `leq` for
//! `<=`, and `render` for the decimal form. Everything else (scoping, calls,
//! conditionals, which operator a symbol names, what shape of arguments it
//! takes, failures) is decided here and proved.
//!
//! # What is proved
//!
//! [`relation::evaluates`] says which outcomes an evaluation can have,
//! whatever the functions handed in return, and [`interp`] returns one of
//! them. Only the arithmetic is left open. [`semantics::eval`] is the meaning
//! of an expression as a mathematical function of an arithmetic
//! ([`prim::Numerics`]), an environment and a depth limit; where the functions
//! handed in compute an arithmetic, the outcome of an evaluation is what
//! `eval` gives with it ([`relation::lemma_evaluates_is_eval`]).
//!
//! The lemmas of [`semantics`] and [`env`] state what follows: which binding a
//! name finds, that a conditional is one of its branches, that a function
//! runs in the environment it captured, when a call fails. [`programs`] works
//! out what some programs evaluate to, and [`invariants`] what evaluation
//! keeps.
//!
//! # Termination
//!
//! A program of this language may run forever. `interp` takes the number of
//! function calls that may be nested and fails with
//! [`InterpError::DepthExceeded`] beyond it. An evaluation that stays within
//! the limit comes out the same under every larger one.

pub mod ast;
pub mod env;
pub mod error;
pub mod interp;
pub mod invariants;
pub mod prim;
pub mod programs;
pub mod relation;
pub mod semantics;
pub mod serialize;
pub mod value;

pub use crate::ast::{has_distinct_names, AppC, ExprC, IdC, IfC, LamC, NumC, StringC};
pub use crate::env::{extend_env, lookup, top_env};
pub use crate::error::InterpError;
pub use crate::interp::{interp, run, top_interp};
pub use crate::prim::{interp_prim, operator, prim_call, ArithOp, PrimCall, PrimOp};
pub use crate::serialize::serialize;
pub use crate::value::{BoolV, CloV, Environment, NumV, PrimV, StringV, Value};
