//! The syntax tree that the inference pass walks.
//!
//! The tree is a closed tagged union: one variant per statement and
//! expression form that the walk distinguishes. Forms whose sub-expressions
//! are not searched for call sites are collapsed into an explicit
//! `Opaque` variant, so the traversal scope is visible in the type itself.

use vstd::prelude::*;

verus! {

/// An argument at a call site.
///
/// Only a bare identifier can reveal a parameter's type, so every other
/// argument form (a literal, a field access, a nested expression) is kept
/// as `Opaque`: it contributes no inference and is not descended into.
pub enum Arg {
    /// A bare identifier, e.g. `sensor`.
    Ident(String),
    /// Any argument that is not a bare identifier.
    Opaque,
}

/// An expression, as far as the inference pass cares to distinguish forms.
pub enum Expr {
    /// A call `f(a, b, ...)`. `callee` is the fully-qualified name of the
    /// called function when the callee is a simple path, and `None` when it
    /// is anything else (a closure value, a computed function pointer).
    Call { callee: Option<String>, args: Vec<Arg> },
    /// A binary operation `l + r`.
    Binary { left: Box<Expr>, right: Box<Expr> },
    /// A unary operation `-e`.
    Unary { inner: Box<Expr> },
    /// A `let`-as-expression `let p = e`.
    LetBind { inner: Box<Expr> },
    /// A conditional `if cond { then_branch } else else_branch`.
    If { cond: Box<Expr>, then_branch: Vec<Stmt>, else_branch: Option<Box<Expr>> },
    /// A `while cond { body }` loop.
    While { cond: Box<Expr>, body: Vec<Stmt> },
    /// A `for pat in iter { body }` loop.
    ForLoop { iter: Box<Expr>, body: Vec<Stmt> },
    /// An unconditional `loop { body }`.
    Loop { body: Vec<Stmt> },
    /// A parenthesized expression `(e)`.
    Paren { inner: Box<Expr> },
    /// An invisible grouping introduced by the front end.
    Group { inner: Box<Expr> },
    /// Error propagation `e?`.
    TryExpr { inner: Box<Expr> },
    /// Every other expression form (closures, match expressions, method
    /// calls, struct literals, indexing, ...). Its sub-expressions may be
    /// kept in `children` for completeness, but the walk never enters them.
    Opaque { children: Vec<Expr> },
}

/// A statement inside a block.
pub enum Stmt {
    /// A binding `let p = init;` (`init` is `None` for `let p;`).
    Local { init: Option<Expr> },
    /// A bare expression without a trailing semicolon.
    Expr { expr: Expr },
    /// An expression statement with a trailing semicolon.
    Semi { expr: Expr },
    /// A nested item definition (a function, a type); never walked.
    Item,
}

/// A parameter's declared type in the signature under inference.
pub enum TypeMark {
    /// The type is unknown and must be inferred.
    Placeholder,
    /// The type was written out in the source.
    Given(String),
}

/// One input of the function signature, before validation.
pub enum SigParam {
    /// A simple named binding `name: ty`.
    Named { name: String, ty: TypeMark },
    /// Any other parameter form (`self`, a destructuring pattern, ...).
    /// Such a form is a fatal input error for the inference pass.
    Unsupported,
}

} // verus!
