//! Rewrites a described function into a memoized one: a lazily built cache,
//! the body as written under another name, and a wrapper that asks the
//! cache first.
//!
//! The library works on its own description of a function (patterns, types,
//! signature) and on plain option values, and hands back the text of the
//! rewritten function. Every step is specified over the views of these
//! descriptions:
//!
//! - [`pattern`]: which names a parameter binds, and how deep each lies;
//! - [`ty`]: the type of a binding, found by descending into the declared type;
//! - [`shape`]: whether the function returns a plain, optional or fallible
//!   value, and what the cache stores;
//! - [`filter`] and [`key`]: the key type and the expression that builds a key;
//! - [`cache`]: the cache's type and the expression that builds it;
//! - [`access`]: the call through which the wrapper reaches the cache;
//! - [`signature`] and [`rewrite`]: the parts put together.
pub mod access;
pub mod cache;
pub mod error;
pub mod filter;
pub mod gather;
pub mod key;
pub mod pattern;
pub mod rewrite;
pub mod shape;
pub mod signature;
pub mod text;
pub mod ty;

pub use crate::error::ConfigError;
pub use crate::pattern::{param_names, FieldPat, Pat};
pub use crate::rewrite::{cached, ItemFn, MacroArgs};
pub use crate::shape::{return_fallible_ty, RetTurnTy, ReturnType};
pub use crate::signature::{FnArg, PatType, Signature};
pub use crate::ty::{GenericArg, TypeExpr};
