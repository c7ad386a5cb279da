//! Tests of the traversal policy: which expression forms propagate the
//! walk to a call site and which are boundaries.

use infer_type::ast::{Arg, Expr, Stmt};
use infer_type::catalog::{Catalog, CatalogEntry};
use infer_type::walk::infer_from_block;

fn s(x: &str) -> String {
    x.to_string()
}

fn one_entry_catalog() -> Catalog {
    Catalog {
        entries: vec![CatalogEntry { name: s("f"), param_types: vec![s("A")] }],
    }
}

fn call_f_x() -> Expr {
    Expr::Call { callee: Some(s("f")), args: vec![Arg::Ident(s("x"))] }
}

fn found_in(body: &Vec<Stmt>) -> bool {
    let catalog = one_entry_catalog();
    let names = vec![s("x")];
    let facts = infer_from_block(&catalog, &names, body);
    facts.len() == 1 && facts[0].param == "x" && facts[0].ty == "A"
}

#[test]
fn call_in_binary_operands_is_found() {
    let body = vec![Stmt::Semi {
        expr: Expr::Binary { left: Box::new(call_f_x()), right: Box::new(Expr::Opaque {
            children: vec![],
        }) },
    }];
    assert!(found_in(&body));
    let body = vec![Stmt::Semi {
        expr: Expr::Binary {
            left: Box::new(Expr::Opaque { children: vec![] }),
            right: Box::new(call_f_x()),
        },
    }];
    assert!(found_in(&body));
}

#[test]
fn call_in_unary_operand_is_found() {
    let body = vec![Stmt::Semi { expr: Expr::Unary { inner: Box::new(call_f_x()) } }];
    assert!(found_in(&body));
}

#[test]
fn call_in_let_binding_is_found() {
    let body = vec![Stmt::Local { init: Some(call_f_x()) }];
    assert!(found_in(&body));
    let body = vec![Stmt::Semi { expr: Expr::LetBind { inner: Box::new(call_f_x()) } }];
    assert!(found_in(&body));
}

#[test]
fn call_in_conditional_is_found_everywhere() {
    let in_cond = vec![Stmt::Semi {
        expr: Expr::If {
            cond: Box::new(call_f_x()),
            then_branch: vec![],
            else_branch: None,
        },
    }];
    assert!(found_in(&in_cond));
    let in_then = vec![Stmt::Semi {
        expr: Expr::If {
            cond: Box::new(Expr::Opaque { children: vec![] }),
            then_branch: vec![Stmt::Expr { expr: call_f_x() }],
            else_branch: None,
        },
    }];
    assert!(found_in(&in_then));
    let in_else = vec![Stmt::Semi {
        expr: Expr::If {
            cond: Box::new(Expr::Opaque { children: vec![] }),
            then_branch: vec![],
            else_branch: Some(Box::new(call_f_x())),
        },
    }];
    assert!(found_in(&in_else));
}

#[test]
fn call_in_loops_is_found() {
    let in_while = vec![Stmt::Semi {
        expr: Expr::While {
            cond: Box::new(Expr::Opaque { children: vec![] }),
            body: vec![Stmt::Semi { expr: call_f_x() }],
        },
    }];
    assert!(found_in(&in_while));
    let in_for = vec![Stmt::Semi {
        expr: Expr::ForLoop {
            iter: Box::new(call_f_x()),
            body: vec![],
        },
    }];
    assert!(found_in(&in_for));
    let in_loop = vec![Stmt::Semi {
        expr: Expr::Loop { body: vec![Stmt::Semi { expr: call_f_x() }] },
    }];
    assert!(found_in(&in_loop));
}

#[test]
fn call_nested_deep_through_propagating_forms_is_found() {
    // (((f(x))?)) wrapped further in a unary operation and a group.
    let nested = Expr::Unary {
        inner: Box::new(Expr::Group {
            inner: Box::new(Expr::Paren {
                inner: Box::new(Expr::TryExpr { inner: Box::new(call_f_x()) }),
            }),
        }),
    };
    let body = vec![Stmt::Semi { expr: nested }];
    assert!(found_in(&body));
}

#[test]
fn call_inside_opaque_form_is_not_found() {
    // A call reachable only through a non-propagating form (a closure
    // body, a match arm) is not discovered: required negative property.
    let body = vec![Stmt::Semi { expr: Expr::Opaque { children: vec![call_f_x()] } }];
    assert!(!found_in(&body));
}

#[test]
fn call_inside_item_statement_is_not_found() {
    let body = vec![Stmt::Item];
    assert!(!found_in(&body));
}

#[test]
fn uninitialized_binding_contributes_nothing() {
    let body = vec![Stmt::Local { init: None }];
    assert!(!found_in(&body));
}
