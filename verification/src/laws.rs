//! Laws of the inference pass.
//!
//! Each public proof function here states a property of the walk, the
//! resolver or the merge that holds for all inputs, over the same spec
//! functions that the executable functions' contracts use.

use vstd::prelude::*;

use crate::ast::{Expr, SigParam, Stmt};
use crate::catalog::SpecEntry;
use crate::infer::{spec_infer, spec_malformed, spec_placeholders};
use crate::table::{spec_find, spec_merge, SpecError, SpecFact};
use crate::walk::{arg_facts, facts_of_block, facts_of_expr, facts_of_stmt};

verus! {

/// An element is in a concatenation exactly when it is in one of the two
/// parts.
proof fn lemma_concat_contains<A>(a: Seq<A>, b: Seq<A>, x: A)
    ensures
        (a + b).contains(x) <==> a.contains(x) || b.contains(x),
{
    if (a + b).contains(x) {
        let i = choose|i: int| 0 <= i < (a + b).len() && (a + b)[i] == x;
        if i < a.len() {
            assert(a[i] == x);
        } else {
            assert(b[i - a.len()] == x);
        }
    }
    if a.contains(x) {
        let i = choose|i: int| 0 <= i < a.len() && a[i] == x;
        assert((a + b)[i] == x);
    }
    if b.contains(x) {
        let i = choose|i: int| 0 <= i < b.len() && b[i] == x;
        assert((a + b)[a.len() + i] == x);
    }
}

/// A fact is discovered in a block exactly when it is discovered in one of
/// the block's statements: the block's facts are the union of the
/// statements' facts, so they do not depend on statement order.
pub proof fn lemma_block_facts_membership(
    catalog: Seq<SpecEntry>,
    names: Seq<Seq<char>>,
    stmts: Seq<Stmt>,
    f: SpecFact,
)
    ensures
        facts_of_block(catalog, names, stmts).contains(f) <==> exists|i: int|
            0 <= i < stmts.len() && facts_of_stmt(catalog, names, #[trigger] stmts[i]).contains(f),
    decreases stmts.len(),
{
    if stmts.len() == 0 {
    } else {
        let rest = stmts.subrange(1, stmts.len() as int);
        lemma_block_facts_membership(catalog, names, rest, f);
        lemma_concat_contains(
            facts_of_stmt(catalog, names, stmts[0]),
            facts_of_block(catalog, names, rest),
            f,
        );
        if facts_of_block(catalog, names, stmts).contains(f) {
            if facts_of_stmt(catalog, names, stmts[0]).contains(f) {
                assert(facts_of_stmt(catalog, names, stmts[0]).contains(f));
            } else {
                let j = choose|j: int|
                    0 <= j < rest.len() && facts_of_stmt(catalog, names, #[trigger] rest[j]).contains(
                        f,
                    );
                assert(stmts[j + 1] == rest[j]);
            }
        }
        if exists|i: int|
            0 <= i < stmts.len() && facts_of_stmt(catalog, names, #[trigger] stmts[i]).contains(f) {
            let i = choose|i: int|
                0 <= i < stmts.len() && facts_of_stmt(catalog, names, #[trigger] stmts[i]).contains(
                    f,
                );
            if i == 0 {
            } else {
                assert(rest[i - 1] == stmts[i]);
                assert(facts_of_stmt(catalog, names, rest[i - 1]).contains(f));
            }
        }
    }
}

/// Order-independence: two blocks that hold the same statements, in any
/// order, yield the same facts as a set. The inference table is a pure
/// accumulation of independent facts, so reordering the statements of a
/// block changes no recorded inference.
pub proof fn lemma_reorder_independent(
    catalog: Seq<SpecEntry>,
    names: Seq<Seq<char>>,
    b1: Seq<Stmt>,
    b2: Seq<Stmt>,
)
    requires
        b1.to_multiset() == b2.to_multiset(),
    ensures
        facts_of_block(catalog, names, b1).to_set() == facts_of_block(catalog, names, b2).to_set(),
{
    broadcast use vstd::seq_lib::group_to_multiset_ensures;

    assert forall|f: SpecFact|
        facts_of_block(catalog, names, b1).contains(f) implies facts_of_block(
        catalog,
        names,
        b2,
    ).contains(f) by {
        lemma_block_facts_membership(catalog, names, b1, f);
        lemma_block_facts_membership(catalog, names, b2, f);
        let i = choose|i: int|
            0 <= i < b1.len() && facts_of_stmt(catalog, names, #[trigger] b1[i]).contains(f);
        assert(b1.to_multiset().count(b1[i]) > 0);
        assert(b2.contains(b1[i]));
        let k = choose|k: int| 0 <= k < b2.len() && b2[k] == b1[i];
        assert(facts_of_stmt(catalog, names, b2[k]).contains(f));
    }
    assert forall|f: SpecFact|
        facts_of_block(catalog, names, b2).contains(f) implies facts_of_block(
        catalog,
        names,
        b1,
    ).contains(f) by {
        lemma_block_facts_membership(catalog, names, b1, f);
        lemma_block_facts_membership(catalog, names, b2, f);
        let i = choose|i: int|
            0 <= i < b2.len() && facts_of_stmt(catalog, names, #[trigger] b2[i]).contains(f);
        assert(b2.to_multiset().count(b2[i]) > 0);
        assert(b1.contains(b2[i]));
        let k = choose|k: int| 0 <= k < b1.len() && b1[k] == b2[i];
        assert(facts_of_stmt(catalog, names, b1[k]).contains(f));
    }
    assert(facts_of_block(catalog, names, b1).to_set() =~= facts_of_block(
        catalog,
        names,
        b2,
    ).to_set());
}

/// Whether `inner` is reachable from `outer` through propagating
/// expression forms alone: `outer` is `inner` itself, or wraps it in
/// binary or unary operations, `let`-bindings, conditionals, loops,
/// grouping or error propagation. A call or an opaque form reaches
/// nothing below itself.
pub open spec fn reaches_expr(outer: Expr, inner: Expr) -> bool
    decreases outer,
{
    outer == inner || match outer {
        Expr::Binary { left, right } => reaches_expr(*left, inner) || reaches_expr(*right, inner),
        Expr::Unary { inner: e } => reaches_expr(*e, inner),
        Expr::LetBind { inner: e } => reaches_expr(*e, inner),
        Expr::If { cond, then_branch, else_branch } => reaches_expr(*cond, inner) || reaches_block(
            then_branch@,
            inner,
        ) || match else_branch {
            Some(e2) => reaches_expr(*e2, inner),
            None => false,
        },
        Expr::While { cond, body } => reaches_expr(*cond, inner) || reaches_block(body@, inner),
        Expr::ForLoop { iter, body } => reaches_expr(*iter, inner) || reaches_block(body@, inner),
        Expr::Loop { body } => reaches_block(body@, inner),
        Expr::Paren { inner: e } => reaches_expr(*e, inner),
        Expr::Group { inner: e } => reaches_expr(*e, inner),
        Expr::TryExpr { inner: e } => reaches_expr(*e, inner),
        Expr::Call { .. } => false,
        Expr::Opaque { .. } => false,
    }
}

/// Whether `inner` is reachable from statement `s` through propagating
/// forms alone.
pub open spec fn reaches_stmt(s: Stmt, inner: Expr) -> bool
    decreases s,
{
    match s {
        Stmt::Local { init } => match init {
            Some(e) => reaches_expr(e, inner),
            None => false,
        },
        Stmt::Expr { expr } => reaches_expr(expr, inner),
        Stmt::Semi { expr } => reaches_expr(expr, inner),
        Stmt::Item => false,
    }
}

/// Whether `inner` is reachable from some statement of the block.
pub open spec fn reaches_block(stmts: Seq<Stmt>, inner: Expr) -> bool
    decreases stmts,
{
    exists|i: int| 0 <= i < stmts.len() && reaches_stmt(#[trigger] stmts[i], inner)
}

/// Propagation completeness: every fact discovered in an expression is
/// also discovered in any expression that reaches it through propagating
/// forms alone, however deep the nesting.
pub proof fn lemma_propagation_completeness(
    catalog: Seq<SpecEntry>,
    names: Seq<Seq<char>>,
    outer: Expr,
    inner: Expr,
)
    requires
        reaches_expr(outer, inner),
    ensures
        forall|f: SpecFact|
            facts_of_expr(catalog, names, inner).contains(f) ==> #[trigger] facts_of_expr(
                catalog,
                names,
                outer,
            ).contains(f),
    decreases outer,
{
    if outer == inner {
    } else {
        match outer {
            Expr::Binary { left, right } => {
                if reaches_expr(*left, inner) {
                    lemma_propagation_completeness(catalog, names, *left, inner);
                } else {
                    lemma_propagation_completeness(catalog, names, *right, inner);
                }
                assert forall|f: SpecFact|
                    facts_of_expr(catalog, names, inner).contains(f) implies #[trigger] facts_of_expr(
                    catalog,
                    names,
                    outer,
                ).contains(f) by {
                    lemma_concat_contains(
                        facts_of_expr(catalog, names, *left),
                        facts_of_expr(catalog, names, *right),
                        f,
                    );
                }
            },
            Expr::Unary { inner: e } => {
                lemma_propagation_completeness(catalog, names, *e, inner);
                assert forall|f: SpecFact|
                    facts_of_expr(catalog, names, inner).contains(f) implies #[trigger] facts_of_expr(
                    catalog,
                    names,
                    outer,
                ).contains(f) by {
                    assert(facts_of_expr(catalog, names, *e).contains(f));
                }
            },
            Expr::LetBind { inner: e } => {
                lemma_propagation_completeness(catalog, names, *e, inner);
                assert forall|f: SpecFact|
                    facts_of_expr(catalog, names, inner).contains(f) implies #[trigger] facts_of_expr(
                    catalog,
                    names,
                    outer,
                ).contains(f) by {
                    assert(facts_of_expr(catalog, names, *e).contains(f));
                }
            },
            Expr::If { cond, then_branch, else_branch } => {
                if reaches_expr(*cond, inner) {
                    lemma_propagation_completeness(catalog, names, *cond, inner);
                } else if reaches_block(then_branch@, inner) {
                    lemma_propagation_reaches_block(catalog, names, then_branch@, inner);
                } else {
                    match else_branch {
                        Some(e2) => {
                            lemma_propagation_completeness(catalog, names, *e2, inner);
                        },
                        None => {
                            assert(false);
                        },
                    }
                }
                assert forall|f: SpecFact|
                    facts_of_expr(catalog, names, inner).contains(f) implies #[trigger] facts_of_expr(
                    catalog,
                    names,
                    outer,
                ).contains(f) by {
                    let c = facts_of_expr(catalog, names, *cond);
                    let t = facts_of_block(catalog, names, then_branch@);
                    let e = match else_branch {
                        Some(e2) => facts_of_expr(catalog, names, *e2),
                        None => Seq::<SpecFact>::empty(),
                    };
                    lemma_concat_contains(c, t, f);
                    lemma_concat_contains(c + t, e, f);
                }
            },
            Expr::While { cond, body } => {
                if reaches_expr(*cond, inner) {
                    lemma_propagation_completeness(catalog, names, *cond, inner);
                } else {
                    lemma_propagation_reaches_block(catalog, names, body@, inner);
                }
                assert forall|f: SpecFact|
                    facts_of_expr(catalog, names, inner).contains(f) implies #[trigger] facts_of_expr(
                    catalog,
                    names,
                    outer,
                ).contains(f) by {
                    lemma_concat_contains(
                        facts_of_expr(catalog, names, *cond),
                        facts_of_block(catalog, names, body@),
                        f,
                    );
                }
            },
            Expr::ForLoop { iter, body } => {
                if reaches_expr(*iter, inner) {
                    lemma_propagation_completeness(catalog, names, *iter, inner);
                } else {
                    lemma_propagation_reaches_block(catalog, names, body@, inner);
                }
                assert forall|f: SpecFact|
                    facts_of_expr(catalog, names, inner).contains(f) implies #[trigger] facts_of_expr(
                    catalog,
                    names,
                    outer,
                ).contains(f) by {
                    lemma_concat_contains(
                        facts_of_expr(catalog, names, *iter),
                        facts_of_block(catalog, names, body@),
                        f,
                    );
                }
            },
            Expr::Loop { body } => {
                lemma_propagation_reaches_block(catalog, names, body@, inner);
                assert forall|f: SpecFact|
                    facts_of_expr(catalog, names, inner).contains(f) implies #[trigger] facts_of_expr(
                    catalog,
                    names,
                    outer,
                ).contains(f) by {
                    assert(facts_of_block(catalog, names, body@).contains(f));
                }
            },
            Expr::Paren { inner: e } => {
                lemma_propagation_completeness(catalog, names, *e, inner);
                assert forall|f: SpecFact|
                    facts_of_expr(catalog, names, inner).contains(f) implies #[trigger] facts_of_expr(
                    catalog,
                    names,
                    outer,
                ).contains(f) by {
                    assert(facts_of_expr(catalog, names, *e).contains(f));
                }
            },
            Expr::Group { inner: e } => {
                lemma_propagation_completeness(catalog, names, *e, inner);
                assert forall|f: SpecFact|
                    facts_of_expr(catalog, names, inner).contains(f) implies #[trigger] facts_of_expr(
                    catalog,
                    names,
                    outer,
                ).contains(f) by {
                    assert(facts_of_expr(catalog, names, *e).contains(f));
                }
            },
            Expr::TryExpr { inner: e } => {
                lemma_propagation_completeness(catalog, names, *e, inner);
                assert forall|f: SpecFact|
                    facts_of_expr(catalog, names, inner).contains(f) implies #[trigger] facts_of_expr(
                    catalog,
                    names,
                    outer,
                ).contains(f) by {
                    assert(facts_of_expr(catalog, names, *e).contains(f));
                }
            },
            Expr::Call { .. } => {
                assert(false);
            },
            Expr::Opaque { .. } => {
                assert(false);
            },
        }
    }
}

/// Propagation completeness through a block: every fact discovered in an
/// expression reached from one of the block's statements is discovered in
/// the block.
pub proof fn lemma_propagation_reaches_block(
    catalog: Seq<SpecEntry>,
    names: Seq<Seq<char>>,
    stmts: Seq<Stmt>,
    inner: Expr,
)
    requires
        reaches_block(stmts, inner),
    ensures
        forall|f: SpecFact|
            facts_of_expr(catalog, names, inner).contains(f) ==> #[trigger] facts_of_block(
                catalog,
                names,
                stmts,
            ).contains(f),
    decreases stmts,
{
    let i = choose|i: int| 0 <= i < stmts.len() && reaches_stmt(#[trigger] stmts[i], inner);
    lemma_propagation_reaches_stmt(catalog, names, stmts[i], inner);
    assert forall|f: SpecFact|
        facts_of_expr(catalog, names, inner).contains(f) implies #[trigger] facts_of_block(
        catalog,
        names,
        stmts,
    ).contains(f) by {
        lemma_block_facts_membership(catalog, names, stmts, f);
        assert(facts_of_stmt(catalog, names, stmts[i]).contains(f));
    }
}

/// Propagation completeness through a statement.
pub proof fn lemma_propagation_reaches_stmt(
    catalog: Seq<SpecEntry>,
    names: Seq<Seq<char>>,
    s: Stmt,
    inner: Expr,
)
    requires
        reaches_stmt(s, inner),
    ensures
        forall|f: SpecFact|
            facts_of_expr(catalog, names, inner).contains(f) ==> #[trigger] facts_of_stmt(
                catalog,
                names,
                s,
            ).contains(f),
    decreases s,
{
    match s {
        Stmt::Local { init } => {
            match init {
                Some(e) => {
                    lemma_propagation_completeness(catalog, names, e, inner);
                    assert forall|f: SpecFact|
                        facts_of_expr(catalog, names, inner).contains(f) implies #[trigger] facts_of_stmt(
                        catalog,
                        names,
                        s,
                    ).contains(f) by {
                        assert(facts_of_expr(catalog, names, e).contains(f));
                    }
                },
                None => {
                    assert(false);
                },
            }
        },
        Stmt::Expr { expr } => {
            lemma_propagation_completeness(catalog, names, expr, inner);
            assert forall|f: SpecFact|
                facts_of_expr(catalog, names, inner).contains(f) implies #[trigger] facts_of_stmt(
                catalog,
                names,
                s,
            ).contains(f) by {
                assert(facts_of_expr(catalog, names, expr).contains(f));
            }
        },
        Stmt::Semi { expr } => {
            lemma_propagation_completeness(catalog, names, expr, inner);
            assert forall|f: SpecFact|
                facts_of_expr(catalog, names, inner).contains(f) implies #[trigger] facts_of_stmt(
                catalog,
                names,
                s,
            ).contains(f) by {
                assert(facts_of_expr(catalog, names, expr).contains(f));
            }
        },
        Stmt::Item => {
            assert(false);
        },
    }
}

/// Propagation boundary: an opaque expression contributes no facts,
/// whatever stands inside it. A call reachable only through a
/// non-propagating form (a closure body, a match arm, an argument of
/// another call) is never discovered.
pub proof fn lemma_opaque_boundary(
    catalog: Seq<SpecEntry>,
    names: Seq<Seq<char>>,
    children: Vec<Expr>,
)
    ensures
        facts_of_expr(catalog, names, Expr::Opaque { children }) == Seq::<SpecFact>::empty(),
{
}

/// Appending to a table does not disturb the entry found for any parameter
/// already present, and a parameter absent before is found exactly when
/// the appended fact is about it.
proof fn lemma_find_push(table: Seq<SpecFact>, f: SpecFact, p: Seq<char>)
    ensures
        spec_find(table.push(f), p) == (match spec_find(table, p) {
            Some(g) => Some(g),
            None => if f.param == p {
                Some(f)
            } else {
                None
            },
        }),
    decreases table.len(),
{
    reveal_with_fuel(spec_find, 3);
    if table.len() == 0 {
        assert(table.push(f)[0] == f);
        assert(table.push(f).subrange(1, 1) =~= Seq::<SpecFact>::empty());
    } else {
        assert(table.push(f)[0] == table[0]);
        assert(table.push(f).subrange(1, table.len() as int + 1) =~= table.subrange(
            1,
            table.len() as int,
        ).push(f));
        lemma_find_push(table.subrange(1, table.len() as int), f, p);
    }
}

/// A merge that succeeds accounts for every fact: the final table records
/// exactly the type each fact assigned, and entries already in the table
/// stay as they were.
proof fn lemma_merge_ok_covers(table: Seq<SpecFact>, facts: Seq<SpecFact>, t2: Seq<SpecFact>)
    requires
        spec_merge(table, facts) == Ok::<_, SpecError>(t2),
    ensures
        forall|f: SpecFact| #[trigger]
            facts.contains(f) ==> match spec_find(t2, f.param) {
                Some(g) => g.ty == f.ty,
                None => false,
            },
        forall|p: Seq<char>|
            (#[trigger] spec_find(table, p)) is Some ==> spec_find(t2, p) == spec_find(table, p),
    decreases facts.len(),
{
    if facts.len() == 0 {
    } else {
        let f0 = facts[0];
        let rest = facts.subrange(1, facts.len() as int);
        match spec_find(table, f0.param) {
            None => {
                lemma_merge_ok_covers(table.push(f0), rest, t2);
                assert forall|p: Seq<char>|
                    (#[trigger] spec_find(table, p)) is Some implies spec_find(t2, p) == spec_find(
                    table,
                    p,
                ) by {
                    lemma_find_push(table, f0, p);
                }
                assert forall|f: SpecFact| #[trigger]
                    facts.contains(f) implies match spec_find(t2, f.param) {
                    Some(g) => g.ty == f.ty,
                    None => false,
                } by {
                    let i = choose|i: int| 0 <= i < facts.len() && facts[i] == f;
                    if i == 0 {
                        lemma_find_push(table, f0, f0.param);
                        assert(spec_find(table.push(f0), f0.param) == Some(f0));
                    } else {
                        assert(rest[i - 1] == facts[i]);
                        assert(rest.contains(f));
                    }
                }
            },
            Some(g) => {
                assert(g.ty == f0.ty);
                lemma_merge_ok_covers(table, rest, t2);
                assert forall|f: SpecFact| #[trigger]
                    facts.contains(f) implies match spec_find(t2, f.param) {
                    Some(g2) => g2.ty == f.ty,
                    None => false,
                } by {
                    let i = choose|i: int| 0 <= i < facts.len() && facts[i] == f;
                    if i == 0 {
                        assert(spec_find(t2, f0.param) == spec_find(table, f0.param));
                    } else {
                        assert(rest[i - 1] == facts[i]);
                        assert(rest.contains(f));
                    }
                }
            },
        }
    }
}

/// The fact found for a parameter is an entry of the table, about that
/// parameter.
proof fn lemma_find_some_contains(table: Seq<SpecFact>, p: Seq<char>)
    ensures
        match spec_find(table, p) {
            Some(g) => table.contains(g) && g.param == p,
            None => true,
        },
    decreases table.len(),
{
    if table.len() == 0 {
    } else if table[0].param == p {
        assert(table.contains(table[0]));
    } else {
        let rest = table.subrange(1, table.len() as int);
        lemma_find_some_contains(rest, p);
        match spec_find(rest, p) {
            Some(g) => {
                let i = choose|i: int| 0 <= i < rest.len() && rest[i] == g;
                assert(table[i + 1] == g);
            },
            None => {},
        }
    }
}

/// A failed merge always fails with a conflict, never with another error,
/// and the two facts it reports are genuine: both are about the named
/// parameter, they assign it different types, and each was recorded (in
/// the starting table or among the merged facts).
proof fn lemma_merge_err_conflict(table: Seq<SpecFact>, facts: Seq<SpecFact>)
    ensures
        match spec_merge(table, facts) {
            Err(e) => match e {
                SpecError::ConflictingInference { param, first, second } => first.param == param
                    && second.param == param && first.ty != second.ty && facts.contains(second) && (
                table.contains(first) || facts.contains(first)),
                _ => false,
            },
            Ok(_) => true,
        },
    decreases facts.len(),
{
    if facts.len() == 0 {
    } else {
        let f0 = facts[0];
        let rest = facts.subrange(1, facts.len() as int);
        assert(facts.contains(f0));
        assert forall|x: SpecFact| #[trigger] rest.contains(x) implies facts.contains(x) by {
            let i = choose|i: int| 0 <= i < rest.len() && rest[i] == x;
            assert(facts[i + 1] == x);
        }
        match spec_find(table, f0.param) {
            None => {
                lemma_merge_err_conflict(table.push(f0), rest);
                match spec_merge(table.push(f0), rest) {
                    Err(e) => match e {
                        SpecError::ConflictingInference { param, first, second } => {
                            if table.push(f0).contains(first) {
                                let i = choose|i: int|
                                    0 <= i < table.push(f0).len() && table.push(f0)[i] == first;
                                if i < table.len() {
                                    assert(table[i] == first);
                                } else {
                                    assert(first == f0);
                                }
                            }
                        },
                        _ => {},
                    },
                    Ok(_) => {},
                }
            },
            Some(g) => {
                if g.ty == f0.ty {
                    lemma_merge_err_conflict(table, rest);
                } else {
                    lemma_find_some_contains(table, f0.param);
                }
            },
        }
    }
}

/// Conflict detection: a sequence of facts that assigns one parameter two
/// different types never merges into a table. The merge reports a
/// conflict, and the conflict it reports identifies two recorded facts
/// that assign the named parameter two different types.
pub proof fn lemma_conflict_detected(facts: Seq<SpecFact>, i: int, j: int)
    requires
        0 <= i < j < facts.len(),
        facts[i].param == facts[j].param,
        facts[i].ty != facts[j].ty,
    ensures
        spec_merge(Seq::empty(), facts) is Err,
        match spec_merge(Seq::empty(), facts) {
            Err(e) => match e {
                SpecError::ConflictingInference { param, first, second } => first.param == param
                    && second.param == param && first.ty != second.ty && facts.contains(first)
                    && facts.contains(second),
                _ => false,
            },
            Ok(_) => false,
        },
{
    match spec_merge(Seq::<SpecFact>::empty(), facts) {
        Ok(t2) => {
            lemma_merge_ok_covers(Seq::empty(), facts, t2);
            assert(facts.contains(facts[i]));
            assert(facts.contains(facts[j]));
            assert(false);
        },
        Err(e) => {
            lemma_merge_err_conflict(Seq::<SpecFact>::empty(), facts);
        },
    }
}

/// Conflict detection, at the level of the whole pass: a well-formed
/// signature whose body yields two facts assigning one parameter two
/// different types makes the pass fail with `ConflictingInference`.
pub proof fn lemma_infer_reports_conflict(
    catalog: Seq<SpecEntry>,
    sig: Seq<SigParam>,
    body: Seq<Stmt>,
    i: int,
    j: int,
)
    requires
        spec_malformed(sig) is None,
        0 <= i < j < facts_of_block(catalog, spec_placeholders(sig), body).len(),
        facts_of_block(catalog, spec_placeholders(sig), body)[i].param == facts_of_block(
            catalog,
            spec_placeholders(sig),
            body,
        )[j].param,
        facts_of_block(catalog, spec_placeholders(sig), body)[i].ty != facts_of_block(
            catalog,
            spec_placeholders(sig),
            body,
        )[j].ty,
    ensures
        spec_infer(catalog, sig, body) is Err,
        match spec_infer(catalog, sig, body) {
            Err(e) => e is ConflictingInference,
            Ok(_) => false,
        },
{
    lemma_conflict_detected(facts_of_block(catalog, spec_placeholders(sig), body), i, j);
}

/// Arity mismatch tolerance: the resolver zips arguments with declared
/// types and stops at the shorter list, so only the positions present on
/// both sides contribute facts.
pub proof fn lemma_arity_tolerance(
    names: Seq<Seq<char>>,
    callee: Seq<char>,
    args: Seq<crate::ast::Arg>,
    tys: Seq<Seq<char>>,
)
    ensures
        ({
            let m = if args.len() <= tys.len() {
                args.len() as int
            } else {
                tys.len() as int
            };
            arg_facts(names, callee, args, tys) == arg_facts(
                names,
                callee,
                args.subrange(0, m),
                tys.subrange(0, m),
            )
        }),
    decreases args.len(),
{
    let m = if args.len() <= tys.len() {
        args.len() as int
    } else {
        tys.len() as int
    };
    if args.len() == 0 || tys.len() == 0 {
        assert(args.subrange(0, m).len() == 0 || tys.subrange(0, m).len() == 0);
    } else {
        lemma_arity_tolerance(
            names,
            callee,
            args.subrange(1, args.len() as int),
            tys.subrange(1, tys.len() as int),
        );
        assert(args.subrange(0, m)[0] == args[0]);
        assert(tys.subrange(0, m)[0] == tys[0]);
        assert(args.subrange(0, m).subrange(1, m) =~= args.subrange(1, args.len() as int).subrange(
            0,
            m - 1,
        ));
        assert(tys.subrange(0, m).subrange(1, m) =~= tys.subrange(1, tys.len() as int).subrange(
            0,
            m - 1,
        ));
    }
}

/// Extra arguments beyond the declared parameter count are ignored.
pub proof fn lemma_extra_arguments_ignored(
    names: Seq<Seq<char>>,
    callee: Seq<char>,
    args: Seq<crate::ast::Arg>,
    tys: Seq<Seq<char>>,
)
    requires
        tys.len() <= args.len(),
    ensures
        arg_facts(names, callee, args, tys) == arg_facts(
            names,
            callee,
            args.subrange(0, tys.len() as int),
            tys,
        ),
{
    lemma_arity_tolerance(names, callee, args, tys);
    assert(tys.subrange(0, tys.len() as int) =~= tys);
}

/// A call with fewer arguments than the catalog declares resolves only the
/// positions present; the missing trailing positions contribute nothing.
pub proof fn lemma_missing_arguments_skipped(
    names: Seq<Seq<char>>,
    callee: Seq<char>,
    args: Seq<crate::ast::Arg>,
    tys: Seq<Seq<char>>,
)
    requires
        args.len() <= tys.len(),
    ensures
        arg_facts(names, callee, args, tys) == arg_facts(
            names,
            callee,
            args,
            tys.subrange(0, args.len() as int),
        ),
{
    lemma_arity_tolerance(names, callee, args, tys);
    assert(args.subrange(0, args.len() as int) =~= args);
}

} // verus!
