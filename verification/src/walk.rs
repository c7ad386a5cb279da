//! The body walker and the call-site resolver.
//!
//! The walk descends through the *propagating* expression forms (binary and
//! unary operations, conditionals, loops, grouping, error propagation,
//! `let`-as-expression) and stops at every call expression, where the
//! resolver matches the call's arguments against the catalog entry of the
//! callee. Every other expression form is a boundary: the walk does not
//! enter it.
//!
//! Each function returns the facts it discovered, in tree order; the
//! caller concatenates them. The spec functions [`facts_of_expr`],
//! [`facts_of_stmt`] and [`facts_of_block`] define the discovered facts
//! mathematically, and every walker's contract says it returns exactly
//! them.

use vstd::prelude::*;

use crate::ast::{Arg, Expr, Stmt};
use crate::catalog::{spec_lookup, Catalog, SpecEntry};
use crate::table::{facts_view, Fact, SpecFact};

verus! {

/// The views of a sequence of names.
pub open spec fn names_view(names: Seq<String>) -> Seq<Seq<char>> {
    names.map_values(|s: String| s@)
}

/// The facts contributed by the argument list of one cataloged call:
/// arguments are zipped positionally with the declared types, stopping at
/// the shorter sequence, and each bare identifier among the tracked names
/// yields one fact.
pub open spec fn arg_facts(
    names: Seq<Seq<char>>,
    callee: Seq<char>,
    args: Seq<Arg>,
    tys: Seq<Seq<char>>,
) -> Seq<SpecFact>
    decreases args.len(),
{
    if args.len() == 0 || tys.len() == 0 {
        Seq::empty()
    } else {
        let rest = arg_facts(
            names,
            callee,
            args.subrange(1, args.len() as int),
            tys.subrange(1, tys.len() as int),
        );
        match args[0] {
            Arg::Ident(x) => if names.contains(x@) {
                seq![SpecFact { param: x@, ty: tys[0], callee }] + rest
            } else {
                rest
            },
            Arg::Opaque => rest,
        }
    }
}

/// The facts contributed by one call expression: none when the callee is
/// not a simple path or is not in the catalog, and the zipped argument
/// facts otherwise.
pub open spec fn call_facts(
    catalog: Seq<SpecEntry>,
    names: Seq<Seq<char>>,
    callee: Option<String>,
    args: Seq<Arg>,
) -> Seq<SpecFact> {
    match callee {
        None => Seq::empty(),
        Some(f) => match spec_lookup(catalog, f@) {
            None => Seq::empty(),
            Some(tys) => arg_facts(names, f@, args, tys),
        },
    }
}

/// The facts discovered in one expression, in tree order.
pub open spec fn facts_of_expr(
    catalog: Seq<SpecEntry>,
    names: Seq<Seq<char>>,
    e: Expr,
) -> Seq<SpecFact>
    decreases e,
{
    match e {
        Expr::Call { callee, args } => call_facts(catalog, names, callee, args@),
        Expr::Binary { left, right } => facts_of_expr(catalog, names, *left) + facts_of_expr(
            catalog,
            names,
            *right,
        ),
        Expr::Unary { inner } => facts_of_expr(catalog, names, *inner),
        Expr::LetBind { inner } => facts_of_expr(catalog, names, *inner),
        Expr::If { cond, then_branch, else_branch } => facts_of_expr(catalog, names, *cond)
            + facts_of_block(catalog, names, then_branch@) + match else_branch {
            Some(e2) => facts_of_expr(catalog, names, *e2),
            None => Seq::empty(),
        },
        Expr::While { cond, body } => facts_of_expr(catalog, names, *cond) + facts_of_block(
            catalog,
            names,
            body@,
        ),
        Expr::ForLoop { iter, body } => facts_of_expr(catalog, names, *iter) + facts_of_block(
            catalog,
            names,
            body@,
        ),
        Expr::Loop { body } => facts_of_block(catalog, names, body@),
        Expr::Paren { inner } => facts_of_expr(catalog, names, *inner),
        Expr::Group { inner } => facts_of_expr(catalog, names, *inner),
        Expr::TryExpr { inner } => facts_of_expr(catalog, names, *inner),
        Expr::Opaque { .. } => Seq::empty(),
    }
}

/// The facts discovered in one statement.
pub open spec fn facts_of_stmt(
    catalog: Seq<SpecEntry>,
    names: Seq<Seq<char>>,
    s: Stmt,
) -> Seq<SpecFact>
    decreases s,
{
    match s {
        Stmt::Local { init } => match init {
            Some(e) => facts_of_expr(catalog, names, e),
            None => Seq::empty(),
        },
        Stmt::Expr { expr } => facts_of_expr(catalog, names, expr),
        Stmt::Semi { expr } => facts_of_expr(catalog, names, expr),
        Stmt::Item => Seq::empty(),
    }
}

/// The facts discovered in a block, statement by statement, in order.
pub open spec fn facts_of_block(
    catalog: Seq<SpecEntry>,
    names: Seq<Seq<char>>,
    stmts: Seq<Stmt>,
) -> Seq<SpecFact>
    decreases stmts,
{
    if stmts.len() == 0 {
        Seq::empty()
    } else {
        facts_of_stmt(catalog, names, stmts[0]) + facts_of_block(
            catalog,
            names,
            stmts.subrange(1, stmts.len() as int),
        )
    }
}

/// Mapping a view over a concatenation concatenates the mapped views.
pub proof fn lemma_facts_view_concat(a: Seq<Fact>, b: Seq<Fact>)
    ensures
        facts_view(a + b) == facts_view(a) + facts_view(b),
{
    assert(facts_view(a + b) =~= facts_view(a) + facts_view(b));
}

/// Whether `x` is one of the tracked parameter names.
pub fn contains_name(names: &Vec<String>, x: &String) -> (r: bool)
    ensures
        r == names_view(names@).contains(x@),
{
    let n = names.len();
    for i in 0..n
        invariant
            n == names.len(),
            forall|j: int| 0 <= j < i ==> names_view(names@)[j] != x@,
    {
        assert(names_view(names@)[i as int] == names@[i as int]@);
        if names[i] == *x {
            return true;
        }
    }
    false
}

/// Resolve one call site against the catalog: zip the arguments with the
/// declared parameter types of the callee, recording one fact for each
/// tracked name passed as a bare identifier. A callee that is not a simple
/// path, or is absent from the catalog, contributes nothing; argument
/// positions beyond the shorter of the two lists are ignored.
pub fn infer_from_call(
    catalog: &Catalog,
    names: &Vec<String>,
    callee: &Option<String>,
    args: &Vec<Arg>,
) -> (facts: Vec<Fact>)
    ensures
        facts_view(facts@) == call_facts(catalog@, names_view(names@), *callee, args@),
{
    let ghost ns = names_view(names@);
    match callee {
        None => {
            let facts: Vec<Fact> = Vec::new();
            proof {
                assert(facts_view(facts@) =~= Seq::<SpecFact>::empty());
            }
            facts
        },
        Some(name) => {
            match catalog.lookup(name) {
                None => {
                    let facts: Vec<Fact> = Vec::new();
                    proof {
                        assert(facts_view(facts@) =~= Seq::<SpecFact>::empty());
                    }
                    facts
                },
                Some(tys) => {
                    let ghost tys_v = tys@.map_values(|t: String| t@);
                    let mut facts: Vec<Fact> = Vec::new();
                    let a_len = args.len();
                    let t_len = tys.len();
                    let m: usize = if a_len < t_len {
                        a_len
                    } else {
                        t_len
                    };
                    proof {
                        assert(facts_view(facts@) =~= Seq::<SpecFact>::empty());
                        assert(args@.subrange(0, a_len as int) =~= args@);
                        assert(tys_v.subrange(0, t_len as int) =~= tys_v);
                    }
                    for i in 0..m
                        invariant
                            m <= a_len == args.len(),
                            m <= t_len == tys.len(),
                            m == if a_len < t_len { a_len } else { t_len },
                            ns == names_view(names@),
                            tys_v == tys@.map_values(|t: String| t@),
                            arg_facts(ns, name@, args@, tys_v) == facts_view(facts@) + arg_facts(
                                ns,
                                name@,
                                args@.subrange(i as int, a_len as int),
                                tys_v.subrange(i as int, t_len as int),
                            ),
                    {
                        proof {
                            assert(args@.subrange(i as int, a_len as int).subrange(
                                1,
                                (a_len - i) as int,
                            ) =~= args@.subrange(i + 1, a_len as int));
                            assert(tys_v.subrange(i as int, t_len as int).subrange(
                                1,
                                (t_len - i) as int,
                            ) =~= tys_v.subrange(i + 1, t_len as int));
                            assert(tys_v[i as int] == tys@[i as int]@);
                        }
                        let ghost facts0 = facts@;
                        match &args[i] {
                            Arg::Ident(x) => {
                                if contains_name(names, x) {
                                    let fact = Fact {
                                        param: x.clone(),
                                        ty: tys[i].clone(),
                                        callee: name.clone(),
                                    };
                                    proof {
                                        assert(fact@ == SpecFact {
                                            param: x@,
                                            ty: tys_v[i as int],
                                            callee: name@,
                                        });
                                    }
                                    facts.push(fact);
                                    proof {
                                        let a = facts_view(facts0);
                                        let b = seq![fact@];
                                        let c = arg_facts(
                                            ns,
                                            name@,
                                            args@.subrange(i + 1, a_len as int),
                                            tys_v.subrange(i + 1, t_len as int),
                                        );
                                        assert(facts_view(facts@) =~= a + b);
                                        assert((a + b) + c =~= a + (b + c));
                                    }
                                }
                            },
                            Arg::Opaque => {},
                        }
                    }
                    proof {
                        if a_len < t_len {
                            assert(args@.subrange(m as int, a_len as int).len() == 0);
                        } else {
                            assert(tys_v.subrange(m as int, t_len as int).len() == 0);
                        }
                        assert(facts_view(facts@) + Seq::<SpecFact>::empty() =~= facts_view(
                            facts@,
                        ));
                    }
                    facts
                },
            }
        },
    }
}

/// Walk one expression, returning the facts discovered in it.
pub fn infer_from_expr(catalog: &Catalog, names: &Vec<String>, e: &Expr) -> (facts: Vec<Fact>)
    ensures
        facts_view(facts@) == facts_of_expr(catalog@, names_view(names@), *e),
    decreases *e,
{
    match e {
        Expr::Call { callee, args } => infer_from_call(catalog, names, callee, args),
        Expr::Binary { left, right } => {
            let mut facts = infer_from_expr(catalog, names, left);
            let mut rhs = infer_from_expr(catalog, names, right);
            proof {
                lemma_facts_view_concat(facts@, rhs@);
            }
            facts.append(&mut rhs);
            facts
        },
        Expr::Unary { inner } => infer_from_expr(catalog, names, inner),
        Expr::LetBind { inner } => infer_from_expr(catalog, names, inner),
        Expr::If { cond, then_branch, else_branch } => {
            let mut facts = infer_from_expr(catalog, names, cond);
            let mut then_facts = infer_from_block(catalog, names, then_branch);
            proof {
                lemma_facts_view_concat(facts@, then_facts@);
            }
            facts.append(&mut then_facts);
            match else_branch {
                Some(e2) => {
                    let mut else_facts = infer_from_expr(catalog, names, e2);
                    proof {
                        lemma_facts_view_concat(facts@, else_facts@);
                    }
                    facts.append(&mut else_facts);
                },
                None => {
                    proof {
                        assert(facts_view(facts@) + Seq::<SpecFact>::empty() =~= facts_view(
                            facts@,
                        ));
                    }
                },
            }
            facts
        },
        Expr::While { cond, body } => {
            let mut facts = infer_from_expr(catalog, names, cond);
            let mut body_facts = infer_from_block(catalog, names, body);
            proof {
                lemma_facts_view_concat(facts@, body_facts@);
            }
            facts.append(&mut body_facts);
            facts
        },
        Expr::ForLoop { iter, body } => {
            let mut facts = infer_from_expr(catalog, names, iter);
            let mut body_facts = infer_from_block(catalog, names, body);
            proof {
                lemma_facts_view_concat(facts@, body_facts@);
            }
            facts.append(&mut body_facts);
            facts
        },
        Expr::Loop { body } => infer_from_block(catalog, names, body),
        Expr::Paren { inner } => infer_from_expr(catalog, names, inner),
        Expr::Group { inner } => infer_from_expr(catalog, names, inner),
        Expr::TryExpr { inner } => infer_from_expr(catalog, names, inner),
        Expr::Opaque { .. } => {
            let facts: Vec<Fact> = Vec::new();
            proof {
                assert(facts_view(facts@) =~= Seq::<SpecFact>::empty());
            }
            facts
        },
    }
}

/// Walk one statement, returning the facts discovered in it.
pub fn infer_from_stmt(catalog: &Catalog, names: &Vec<String>, s: &Stmt) -> (facts: Vec<Fact>)
    ensures
        facts_view(facts@) == facts_of_stmt(catalog@, names_view(names@), *s),
    decreases *s,
{
    match s {
        Stmt::Local { init } => match init {
            Some(e) => infer_from_expr(catalog, names, e),
            None => {
                let facts: Vec<Fact> = Vec::new();
                proof {
                    assert(facts_view(facts@) =~= Seq::<SpecFact>::empty());
                }
                facts
            },
        },
        Stmt::Expr { expr } => infer_from_expr(catalog, names, expr),
        Stmt::Semi { expr } => infer_from_expr(catalog, names, expr),
        Stmt::Item => {
            let facts: Vec<Fact> = Vec::new();
            proof {
                assert(facts_view(facts@) =~= Seq::<SpecFact>::empty());
            }
            facts
        },
    }
}

/// Walk a block of statements, returning the facts discovered in it, in
/// statement order.
pub fn infer_from_block(catalog: &Catalog, names: &Vec<String>, stmts: &Vec<Stmt>) -> (facts: Vec<
    Fact,
>)
    ensures
        facts_view(facts@) == facts_of_block(catalog@, names_view(names@), stmts@),
    decreases stmts@,
{
    let ghost ns = names_view(names@);
    let mut facts: Vec<Fact> = Vec::new();
    let n = stmts.len();
    proof {
        assert(facts_view(facts@) =~= Seq::<SpecFact>::empty());
        assert(stmts@.subrange(0, n as int) =~= stmts@);
    }
    for i in 0..n
        invariant
            n == stmts.len(),
            ns == names_view(names@),
            facts_of_block(catalog@, ns, stmts@) == facts_view(facts@) + facts_of_block(
                catalog@,
                ns,
                stmts@.subrange(i as int, n as int),
            ),
    {
        proof {
            assert(stmts@.subrange(i as int, n as int).subrange(1, (n - i) as int)
                =~= stmts@.subrange(i + 1, n as int));
        }
        let ghost facts0 = facts@;
        let mut fs = infer_from_stmt(catalog, names, &stmts[i]);
        let ghost fsv = fs@;
        facts.append(&mut fs);
        proof {
            lemma_facts_view_concat(facts0, fsv);
            let a = facts_view(facts0);
            let b = facts_of_stmt(catalog@, ns, stmts@[i as int]);
            let c = facts_of_block(catalog@, ns, stmts@.subrange(i + 1, n as int));
            assert((a + b) + c =~= a + (b + c));
        }
    }
    proof {
        assert(facts_view(facts@) + Seq::<SpecFact>::empty() =~= facts_view(facts@));
    }
    facts
}

} // verus!
