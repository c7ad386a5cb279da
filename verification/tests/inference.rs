//! End-to-end tests of the inference pass on concrete trees and catalogs.

use infer_type::ast::{Arg, Expr, SigParam, Stmt, TypeMark};
use infer_type::catalog::{Catalog, CatalogEntry};
use infer_type::infer::infer_types;
use infer_type::table::InferError;
use infer_type::walk::infer_from_block;

fn s(x: &str) -> String {
    x.to_string()
}

fn entry(name: &str, tys: &[&str]) -> CatalogEntry {
    CatalogEntry { name: s(name), param_types: tys.iter().map(|t| s(t)).collect() }
}

fn ident(name: &str) -> Arg {
    Arg::Ident(s(name))
}

fn call(callee: &str, args: Vec<Arg>) -> Expr {
    Expr::Call { callee: Some(s(callee)), args }
}

fn placeholder(name: &str) -> SigParam {
    SigParam::Named { name: s(name), ty: TypeMark::Placeholder }
}

fn given(name: &str, ty: &str) -> SigParam {
    SigParam::Named { name: s(name), ty: TypeMark::Given(s(ty)) }
}

#[test]
fn sensor_listener_scenario() {
    // Catalog entry `sensor::set_poll_rate_ms(sensor: &Strn, poll_time: u32)`,
    // function `start_sensor_listener(sensor: _, sensor_type: _, poll_time: _)`
    // whose body holds `sensor::set_poll_rate_ms(sensor, poll_time)?;`.
    let catalog = Catalog {
        entries: vec![entry("sensor::set_poll_rate_ms", &["&Strn", "u32"])],
    };
    let sig = vec![placeholder("sensor"), placeholder("sensor_type"), placeholder("poll_time")];
    let body = vec![Stmt::Semi {
        expr: Expr::TryExpr {
            inner: Box::new(call(
                "sensor::set_poll_rate_ms",
                vec![ident("sensor"), ident("poll_time")],
            )),
        },
    }];

    // The walk infers `sensor: &Strn` and `poll_time: u32`.
    let names = vec![s("sensor"), s("sensor_type"), s("poll_time")];
    let facts = infer_from_block(&catalog, &names, &body);
    assert_eq!(facts.len(), 2);
    assert_eq!(facts[0].param, "sensor");
    assert_eq!(facts[0].ty, "&Strn");
    assert_eq!(facts[0].callee, "sensor::set_poll_rate_ms");
    assert_eq!(facts[1].param, "poll_time");
    assert_eq!(facts[1].ty, "u32");

    // `sensor_type` stays unresolved, so the whole pass reports it.
    match infer_types(&catalog, &sig, &body) {
        Err(InferError::UnresolvedParameter { param }) => assert_eq!(param, "sensor_type"),
        _ => panic!("expected an unresolved-parameter error"),
    }
}

#[test]
fn resolves_all_placeholders() {
    let catalog = Catalog {
        entries: vec![entry("sensor::set_poll_rate_ms", &["&Strn", "u32"])],
    };
    let sig = vec![placeholder("sensor"), placeholder("poll_time")];
    let body = vec![Stmt::Semi {
        expr: call("sensor::set_poll_rate_ms", vec![ident("sensor"), ident("poll_time")]),
    }];
    let out = infer_types(&catalog, &sig, &body).unwrap();
    assert_eq!(out.len(), 2);
    assert_eq!(out[0].name, "sensor");
    assert_eq!(out[0].ty, "&Strn");
    assert_eq!(out[1].name, "poll_time");
    assert_eq!(out[1].ty, "u32");
}

#[test]
fn given_types_are_kept() {
    let catalog = Catalog { entries: vec![entry("f", &["u8"])] };
    let sig = vec![given("a", "i32"), placeholder("b")];
    let body = vec![Stmt::Semi { expr: call("f", vec![ident("b")]) }];
    let out = infer_types(&catalog, &sig, &body).unwrap();
    assert_eq!(out.len(), 2);
    assert_eq!(out[0].name, "a");
    assert_eq!(out[0].ty, "i32");
    assert_eq!(out[1].name, "b");
    assert_eq!(out[1].ty, "u8");
}

#[test]
fn conflicting_inference_reports_both_call_sites() {
    // `f(x: A, y: B)` and `g(x: C)` with `A != C`; `x` is passed to both.
    let catalog = Catalog {
        entries: vec![entry("f", &["A", "B"]), entry("g", &["C"])],
    };
    let sig = vec![placeholder("x")];
    let body = vec![
        Stmt::Semi { expr: call("f", vec![ident("x"), Arg::Opaque]) },
        Stmt::Semi { expr: call("g", vec![ident("x")]) },
    ];
    match infer_types(&catalog, &sig, &body) {
        Err(InferError::ConflictingInference { param, first, second }) => {
            assert_eq!(param, "x");
            assert_eq!(first.ty, "A");
            assert_eq!(first.callee, "f");
            assert_eq!(second.ty, "C");
            assert_eq!(second.callee, "g");
        },
        _ => panic!("expected a conflicting-inference error"),
    }
}

#[test]
fn agreeing_call_sites_do_not_conflict() {
    let catalog = Catalog {
        entries: vec![entry("f", &["A"]), entry("g", &["A"])],
    };
    let sig = vec![placeholder("x")];
    let body = vec![
        Stmt::Semi { expr: call("f", vec![ident("x")]) },
        Stmt::Semi { expr: call("g", vec![ident("x")]) },
    ];
    let out = infer_types(&catalog, &sig, &body).unwrap();
    assert_eq!(out.len(), 1);
    assert_eq!(out[0].ty, "A");
}

#[test]
fn extra_arguments_are_ignored() {
    // The call has more arguments than the catalog declares: positions
    // beyond the declared count contribute nothing.
    let catalog = Catalog { entries: vec![entry("h", &["u8"])] };
    let sig = vec![placeholder("a"), given("b", "i32")];
    let body = vec![Stmt::Semi { expr: call("h", vec![ident("a"), ident("b"), ident("a")]) }];
    let out = infer_types(&catalog, &sig, &body).unwrap();
    assert_eq!(out[0].name, "a");
    assert_eq!(out[0].ty, "u8");
    assert_eq!(out[1].ty, "i32");
}

#[test]
fn missing_arguments_resolve_only_present_positions() {
    // The call has fewer arguments than the catalog declares: only the
    // positions present are resolved.
    let catalog = Catalog { entries: vec![entry("k", &["u8", "u16"])] };
    let sig = vec![placeholder("a")];
    let body = vec![Stmt::Semi { expr: call("k", vec![ident("a")]) }];
    let out = infer_types(&catalog, &sig, &body).unwrap();
    assert_eq!(out.len(), 1);
    assert_eq!(out[0].ty, "u8");
}

#[test]
fn malformed_parameter_is_fatal() {
    let catalog = Catalog { entries: vec![] };
    let sig = vec![placeholder("a"), SigParam::Unsupported, placeholder("b")];
    let body = vec![];
    match infer_types(&catalog, &sig, &body) {
        Err(InferError::MalformedParameter { index }) => assert_eq!(index, 1),
        _ => panic!("expected a malformed-parameter error"),
    }
}

#[test]
fn uncataloged_call_contributes_nothing() {
    let catalog = Catalog { entries: vec![entry("f", &["A"])] };
    let sig = vec![placeholder("x")];
    let body = vec![Stmt::Semi { expr: call("local_helper", vec![ident("x")]) }];
    match infer_types(&catalog, &sig, &body) {
        Err(InferError::UnresolvedParameter { param }) => assert_eq!(param, "x"),
        _ => panic!("expected an unresolved-parameter error"),
    }
}

#[test]
fn computed_callee_contributes_nothing() {
    let catalog = Catalog { entries: vec![entry("f", &["A"])] };
    let names = vec![s("x")];
    let body = vec![Stmt::Semi { expr: Expr::Call { callee: None, args: vec![ident("x")] } }];
    let facts = infer_from_block(&catalog, &names, &body);
    assert_eq!(facts.len(), 0);
}

#[test]
fn non_identifier_arguments_are_skipped() {
    let catalog = Catalog { entries: vec![entry("f", &["A", "B"])] };
    let names = vec![s("x")];
    let body = vec![Stmt::Semi { expr: call("f", vec![Arg::Opaque, ident("x")]) }];
    let facts = infer_from_block(&catalog, &names, &body);
    assert_eq!(facts.len(), 1);
    assert_eq!(facts[0].param, "x");
    assert_eq!(facts[0].ty, "B");
}

#[test]
fn untracked_identifiers_are_skipped() {
    let catalog = Catalog { entries: vec![entry("f", &["A"])] };
    let names = vec![s("x")];
    let body = vec![Stmt::Semi { expr: call("f", vec![ident("y")]) }];
    let facts = infer_from_block(&catalog, &names, &body);
    assert_eq!(facts.len(), 0);
}

#[test]
fn empty_body_leaves_placeholders_unresolved() {
    let catalog = Catalog { entries: vec![] };
    let sig = vec![placeholder("a")];
    let body = vec![];
    match infer_types(&catalog, &sig, &body) {
        Err(InferError::UnresolvedParameter { param }) => assert_eq!(param, "a"),
        _ => panic!("expected an unresolved-parameter error"),
    }
}

#[test]
fn signature_without_placeholders_passes_through() {
    let catalog = Catalog { entries: vec![] };
    let sig = vec![given("a", "i32"), given("b", "u8")];
    let body = vec![];
    let out = infer_types(&catalog, &sig, &body).unwrap();
    assert_eq!(out.len(), 2);
    assert_eq!(out[0].ty, "i32");
    assert_eq!(out[1].ty, "u8");
}

#[test]
fn runs_are_deterministic() {
    let catalog = Catalog {
        entries: vec![entry("sensor::set_poll_rate_ms", &["&Strn", "u32"])],
    };
    let sig = vec![placeholder("sensor"), placeholder("poll_time")];
    let body = vec![Stmt::Semi {
        expr: call("sensor::set_poll_rate_ms", vec![ident("sensor"), ident("poll_time")]),
    }];
    let first = infer_types(&catalog, &sig, &body).unwrap();
    let second = infer_types(&catalog, &sig, &body).unwrap();
    assert_eq!(first.len(), second.len());
    for i in 0..first.len() {
        assert_eq!(first[i].name, second[i].name);
        assert_eq!(first[i].ty, second[i].ty);
    }
}

#[test]
fn reordered_independent_statements_give_the_same_table() {
    let catalog = Catalog {
        entries: vec![entry("f", &["A"]), entry("g", &["B"])],
    };
    let sig = vec![placeholder("x"), placeholder("y")];
    let forward = vec![
        Stmt::Semi { expr: call("f", vec![ident("x")]) },
        Stmt::Semi { expr: call("g", vec![ident("y")]) },
    ];
    let backward = vec![
        Stmt::Semi { expr: call("g", vec![ident("y")]) },
        Stmt::Semi { expr: call("f", vec![ident("x")]) },
    ];
    let a = infer_types(&catalog, &sig, &forward).unwrap();
    let b = infer_types(&catalog, &sig, &backward).unwrap();
    assert_eq!(a.len(), b.len());
    for i in 0..a.len() {
        assert_eq!(a[i].name, b[i].name);
        assert_eq!(a[i].ty, b[i].ty);
    }
}
