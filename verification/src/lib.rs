//! Compile-time type inference for placeholder parameter types.
//!
//! Given a function whose parameters carry placeholder types, this library
//! walks the function's body, finds call expressions whose callee is listed
//! in an API catalog, and infers each placeholder parameter's type from the
//! position in which the parameter is passed to a cataloged call.
//!
//! The library works on its own syntax tree (see [`ast`]): a host front end
//! parses the source and hands the tree over as plain values. The walk, the
//! call-site resolution, the conflict detection and the rewriting of the
//! signature are all verified.

pub mod ast;
pub mod catalog;
pub mod infer;
pub mod laws;
pub mod table;
pub mod walk;

pub use ast::{Arg, Expr, SigParam, Stmt, TypeMark};
pub use catalog::{Catalog, CatalogEntry};
pub use infer::{infer_types, ResolvedParam};
pub use table::{Fact, InferError};
