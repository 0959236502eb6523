//! End-to-end tests of the build pass and the lazy evaluator.

use nxt::Span;
use nxt::ast::{Ast, Expr, Variable};
use nxt::error::Error;
use nxt::eval::{EvalContext, SearchEntry};
use nxt::raw::{RawAnchor, RawAttrPart, RawBinding, RawExpr, RawLiteral};
use nxt::value::{NixPath, Type, Value};

fn sp() -> Span {
    Span { lo: 0, hi: 0 }
}

fn int_lit(tok: &str) -> RawExpr {
    RawExpr::Literal { lit: RawLiteral::Int(tok.to_string()), span: sp() }
}

fn str_lit(s: &str) -> RawExpr {
    RawExpr::Literal { lit: RawLiteral::Str(s.to_string()), span: sp() }
}

fn path_lit(anchor: RawAnchor, path: &str) -> RawExpr {
    RawExpr::Literal { lit: RawLiteral::Path { anchor, path: path.to_string() }, span: sp() }
}

fn ident(name: &str) -> RawExpr {
    RawExpr::Ident { name: name.to_string(), span: sp() }
}

fn binding(path: &[&str], value: RawExpr) -> RawBinding {
    RawBinding {
        attr_path: path.iter().map(|s| RawAttrPart::Ident(s.to_string())).collect(),
        value,
        span: sp(),
    }
}

fn letin(bindings: Vec<RawBinding>, body: RawExpr) -> RawExpr {
    RawExpr::LetIn { bindings, body: Box::new(body), span: sp() }
}

fn attrset(bindings: Vec<RawBinding>) -> RawExpr {
    RawExpr::AttrSet { bindings, span: sp() }
}

fn index(set: RawExpr, name: &str) -> RawExpr {
    RawExpr::IndexSet {
        set: Box::new(set),
        index: RawAttrPart::Ident(name.to_string()),
        span: sp(),
    }
}

fn or_default(set: RawExpr, name: &str, default: RawExpr) -> RawExpr {
    RawExpr::OrDefault {
        set: Box::new(set),
        index: RawAttrPart::Ident(name.to_string()),
        default: Box::new(default),
        span: sp(),
    }
}

fn assert_expr(condition: RawExpr, body: RawExpr) -> RawExpr {
    RawExpr::Assert { condition: Box::new(condition), body: Box::new(body), span: sp() }
}

fn if_else(cond: RawExpr, then: RawExpr, els: RawExpr) -> RawExpr {
    RawExpr::IfElse {
        cond: Box::new(cond),
        then: Box::new(then),
        els: Box::new(els),
        span: sp(),
    }
}

fn neg(operand: RawExpr) -> RawExpr {
    RawExpr::Neg { operand: Box::new(operand), span: sp() }
}

fn sub(lhs: RawExpr, rhs: RawExpr) -> RawExpr {
    RawExpr::Sub { lhs: Box::new(lhs), rhs: Box::new(rhs), span: sp() }
}

fn build(raw: &RawExpr) -> Result<Ast, Error> {
    Ast::build("/work".to_string(), Some("/home/user".to_string()), raw)
}

fn eval_with_search(raw: &RawExpr, search: Vec<(&str, &str)>) -> Result<Value, Error> {
    let entries = search
        .into_iter()
        .map(|(n, p)| SearchEntry { name: n.to_string(), path: p.to_string() })
        .collect();
    nxt::evaluate(
        "/work".to_string(),
        Some("/home/user".to_string()),
        entries,
        raw,
    )
}

fn eval(raw: &RawExpr) -> Result<Value, Error> {
    eval_with_search(raw, vec![])
}

fn expect_int(r: Result<Value, Error>) -> i64 {
    match r {
        Ok(Value::Int(i)) => i,
        other => panic!("expected an integer, got {:?}", other),
    }
}

#[test]
fn scope_shadowing_inner_wins() {
    // let x = 1; in let x = 2; in x  ==>  2
    let program = letin(
        vec![binding(&["x"], int_lit("1"))],
        letin(vec![binding(&["x"], int_lit("2"))], ident("x")),
    );
    assert_eq!(expect_int(eval(&program)), 2);
}

#[test]
fn scope_shadowing_outer_remains() {
    // let x = 1; in { outer = x; inner = (let x = 2; in x); }
    let program = letin(
        vec![binding(&["x"], int_lit("1"))],
        attrset(vec![
            binding(&["outer"], ident("x")),
            binding(&["inner"], letin(vec![binding(&["x"], int_lit("2"))], ident("x"))),
        ]),
    );
    let outer = index(program, "outer");
    assert_eq!(expect_int(eval(&outer)), 1);
    let program2 = letin(
        vec![binding(&["x"], int_lit("1"))],
        attrset(vec![
            binding(&["outer"], ident("x")),
            binding(&["inner"], letin(vec![binding(&["x"], int_lit("2"))], ident("x"))),
        ]),
    );
    let inner = index(program2, "inner");
    assert_eq!(expect_int(eval(&inner)), 2);
}

#[test]
fn lookup_caching_is_transparent() {
    // let a = 1; in { p = a; q = a; } — both references resolve to the same
    // variable slot, however often the outer name was queried before.
    let program = letin(
        vec![binding(&["a"], int_lit("1"))],
        attrset(vec![binding(&["p"], ident("a")), binding(&["q"], ident("a"))]),
    );
    let ast = build(&program).expect("build failed");
    let root = ast.root();
    let body = match ast.expr_at(root) {
        Expr::LetIn { body, .. } => *body,
        other => panic!("expected a let node, got {:?}", other),
    };
    let (p_member, q_member) = match ast.expr_at(body) {
        Expr::AttrSet(attrs) => {
            assert_eq!(attrs.len(), 2);
            (attrs.member_at(0), attrs.member_at(1))
        }
        other => panic!("expected a set node, got {:?}", other),
    };
    let p_var = match ast.expr_at(p_member) {
        Expr::Variable(v) => *v,
        other => panic!("expected a variable node, got {:?}", other),
    };
    let q_var = match ast.expr_at(q_member) {
        Expr::Variable(v) => *v,
        other => panic!("expected a variable node, got {:?}", other),
    };
    assert_eq!(p_var, q_var);
}

#[test]
fn declare_once_same_scope_fails() {
    // let x = 1; x = 2; in x  ==>  redeclaration error
    let program = letin(
        vec![binding(&["x"], int_lit("1")), binding(&["x"], int_lit("2"))],
        ident("x"),
    );
    match build(&program) {
        Err(Error::Redeclaration { name, .. }) => assert_eq!(name, "x"),
        other => panic!("expected a redeclaration error, got {:?}", other),
    }
}

#[test]
fn declare_again_in_nested_scope_shadows() {
    let program = letin(
        vec![binding(&["x"], int_lit("1"))],
        letin(vec![binding(&["x"], int_lit("7"))], ident("x")),
    );
    assert_eq!(expect_int(eval(&program)), 7);
}

#[test]
fn memoized_forcing_evaluates_once() {
    // After one evaluation the closure of `x` is memoized: forcing it again
    // with no fuel at all still returns the stored value, which shows that
    // no evaluation happens on the second demand.
    let program = letin(vec![binding(&["x"], int_lit("41"))], ident("x"));
    let ast = build(&program).expect("build failed");
    let mut cx = EvalContext::new(ast, vec![]);
    assert_eq!(expect_int(cx.eval()), 41);
    // `true` and `false` take slots 0 and 1; `x` is slot 2.
    let first = cx.force(Variable(2), sp(), 0);
    assert_eq!(expect_int(first), 41);
    let second = cx.force(Variable(2), sp(), 0);
    assert_eq!(expect_int(second), 41);
}

#[test]
fn self_reference_is_detected() {
    // let x = x; in x  ==>  infinite recursion error
    let program = letin(vec![binding(&["x"], ident("x"))], ident("x"));
    match eval(&program) {
        Err(Error::InfiniteRecursion { .. }) => {}
        other => panic!("expected an infinite-recursion error, got {:?}", other),
    }
}

#[test]
fn mutual_reference_is_detected() {
    // let a = b; b = a; in a  ==>  infinite recursion error
    let program = letin(
        vec![binding(&["a"], ident("b")), binding(&["b"], ident("a"))],
        ident("a"),
    );
    match eval(&program) {
        Err(Error::InfiniteRecursion { .. }) => {}
        other => panic!("expected an infinite-recursion error, got {:?}", other),
    }
}

#[test]
fn self_reference_in_untaken_branch_is_fine() {
    // let x = if true then 1 else x; in x  ==>  1
    let program = letin(
        vec![binding(&["x"], if_else(ident("true"), int_lit("1"), ident("x")))],
        ident("x"),
    );
    assert_eq!(expect_int(eval(&program)), 1);
}

#[test]
fn self_reference_through_lazy_member_is_fine() {
    // let x = { a = x; b = 1; }; in x.b  ==>  1 (members stay unevaluated)
    let program = letin(
        vec![binding(
            &["x"],
            attrset(vec![binding(&["a"], ident("x")), binding(&["b"], int_lit("1"))]),
        )],
        index(ident("x"), "b"),
    );
    assert_eq!(expect_int(eval(&program)), 1);
}

#[test]
fn attribute_sets_enumerate_sorted() {
    // { b = 2; a = 1; } enumerates as a, then b — and so does { a = 1; b = 2; }.
    for program in [
        attrset(vec![binding(&["b"], int_lit("2")), binding(&["a"], int_lit("1"))]),
        attrset(vec![binding(&["a"], int_lit("1")), binding(&["b"], int_lit("2"))]),
    ] {
        match eval(&program) {
            Ok(Value::AttrSet(attrs)) => {
                assert_eq!(attrs.len(), 2);
                assert_eq!(attrs.key_at(0).as_str(), "a");
                assert_eq!(attrs.key_at(1).as_str(), "b");
            }
            other => panic!("expected a set value, got {:?}", other),
        }
    }
}

#[test]
fn duplicate_set_key_fails() {
    // A duplicate key is caught while the set literal is being built.
    let program = attrset(vec![binding(&["a"], int_lit("1")), binding(&["a"], int_lit("2"))]);
    match build(&program) {
        Err(Error::Redeclaration { name, .. }) => assert_eq!(name, "a"),
        other => panic!("expected a redeclaration error, got {:?}", other),
    }
}

#[test]
fn relative_path_is_anchored_at_search_root() {
    let ast = Ast::build(
        "/proj/pkg".to_string(),
        None,
        &path_lit(RawAnchor::Relative, "default.nix"),
    )
    .expect("build failed");
    let mut cx = EvalContext::new(ast, vec![]);
    match cx.eval() {
        Ok(Value::Path(NixPath::Normal(p))) => assert_eq!(p, "/proj/pkg/default.nix"),
        other => panic!("expected a path value, got {:?}", other),
    }
}

#[test]
fn home_path_is_anchored_at_home() {
    match eval(&path_lit(RawAnchor::Home, "conf.nix")) {
        Ok(Value::Path(NixPath::Normal(p))) => assert_eq!(p, "/home/user/conf.nix"),
        other => panic!("expected a path value, got {:?}", other),
    }
}

#[test]
fn home_path_without_home_fails() {
    let r = Ast::build("/work".to_string(), None, &path_lit(RawAnchor::Home, "conf.nix"));
    match r {
        Err(Error::LiteralConversion { cause, .. }) => {
            assert_eq!(cause, "cannot resolve home directory")
        }
        other => panic!("expected a literal-conversion error, got {:?}", other),
    }
}

#[test]
fn absolute_path_stays_as_is() {
    match eval(&path_lit(RawAnchor::Absolute, "/etc/hosts")) {
        Ok(Value::Path(NixPath::Normal(p))) => assert_eq!(p, "/etc/hosts"),
        other => panic!("expected a path value, got {:?}", other),
    }
}

#[test]
fn uri_literal_is_a_string() {
    match eval(&path_lit(RawAnchor::Uri, "https://example.org/x")) {
        Ok(Value::Str(s)) => assert_eq!(s, "https://example.org/x"),
        other => panic!("expected a string value, got {:?}", other),
    }
}

#[test]
fn store_path_stays_unresolved_until_evaluated() {
    // Building succeeds with no search list at all...
    let raw = path_lit(RawAnchor::Store, "nixpkgs");
    let ast = build(&raw).expect("build failed");
    let mut cx = EvalContext::new(ast, vec![]);
    // ... and only evaluation fails when no search entry matches.
    match cx.eval() {
        Err(Error::SearchPathResolution { name, .. }) => assert_eq!(name, "nixpkgs"),
        other => panic!("expected a search-path error, got {:?}", other),
    }
}

#[test]
fn store_path_resolves_against_search_list() {
    let raw = path_lit(RawAnchor::Store, "nixpkgs");
    match eval_with_search(&raw, vec![("other", "/o"), ("nixpkgs", "/nix/pkgs")]) {
        Ok(Value::Path(NixPath::Normal(p))) => assert_eq!(p, "/nix/pkgs"),
        other => panic!("expected a path value, got {:?}", other),
    }
}

#[test]
fn assert_true_passes_through() {
    let program = assert_expr(ident("true"), int_lit("42"));
    assert_eq!(expect_int(eval(&program)), 42);
}

#[test]
fn assert_false_aborts_before_the_body() {
    // The body would fail with a search-path error if it were evaluated;
    // the assertion failure comes first.
    let program = assert_expr(ident("false"), path_lit(RawAnchor::Store, "nope"));
    match eval(&program) {
        Err(Error::AssertionFailed { .. }) => {}
        other => panic!("expected an assertion failure, got {:?}", other),
    }
}

#[test]
fn assert_on_non_boolean_is_a_type_error() {
    let program = assert_expr(int_lit("5"), int_lit("1"));
    match eval(&program) {
        Err(Error::TypeMismatch { expected, found, .. }) => {
            assert_eq!(expected, Type::Bool);
            assert_eq!(found, Type::Int);
        }
        other => panic!("expected a type mismatch, got {:?}", other),
    }
}

#[test]
fn if_else_takes_exactly_one_branch() {
    let t = if_else(ident("true"), int_lit("1"), path_lit(RawAnchor::Store, "nope"));
    assert_eq!(expect_int(eval(&t)), 1);
    let f = if_else(ident("false"), path_lit(RawAnchor::Store, "nope"), int_lit("2"));
    assert_eq!(expect_int(eval(&f)), 2);
}

#[test]
fn minimum_integer_token_is_rejected() {
    let r = build(&int_lit("9223372036854775808"));
    match r {
        Err(Error::LiteralConversion { cause, .. }) => assert_eq!(cause, "integer out of range"),
        other => panic!("expected a literal-conversion error, got {:?}", other),
    }
}

#[test]
fn minimum_integer_is_reachable_by_subtraction() {
    // (-9223372036854775807) - 1 == i64::MIN, by wraparound-free arithmetic.
    let program = sub(neg(int_lit("9223372036854775807")), int_lit("1"));
    assert_eq!(expect_int(eval(&program)), i64::MIN);
}

#[test]
fn subtraction_wraps_around() {
    // i64::MIN - 1 wraps to i64::MAX.
    let min = sub(neg(int_lit("9223372036854775807")), int_lit("1"));
    let program = sub(min, int_lit("1"));
    assert_eq!(expect_int(eval(&program)), i64::MAX);
}

#[test]
fn largest_integer_token_converts() {
    assert_eq!(expect_int(eval(&int_lit("9223372036854775807"))), i64::MAX);
    assert_eq!(expect_int(eval(&int_lit("0"))), 0);
}

#[test]
fn malformed_integer_token_is_rejected() {
    match build(&int_lit("12x")) {
        Err(Error::LiteralConversion { cause, .. }) => assert_eq!(cause, "invalid integer"),
        other => panic!("expected a literal-conversion error, got {:?}", other),
    }
}

#[test]
fn float_literal_is_rejected() {
    let raw = RawExpr::Literal { lit: RawLiteral::Float("1.5".to_string()), span: sp() };
    match build(&raw) {
        Err(Error::LiteralConversion { cause, .. }) => {
            assert_eq!(cause, "unsupported float literal")
        }
        other => panic!("expected a literal-conversion error, got {:?}", other),
    }
}

#[test]
fn indexing_finds_member() {
    let program = index(attrset(vec![binding(&["a"], int_lit("1"))]), "a");
    assert_eq!(expect_int(eval(&program)), 1);
}

#[test]
fn indexing_missing_member_fails() {
    let program = index(attrset(vec![binding(&["a"], int_lit("1"))]), "b");
    match eval(&program) {
        Err(Error::Lookup { name, .. }) => assert_eq!(name, "b"),
        other => panic!("expected a lookup error, got {:?}", other),
    }
}

#[test]
fn or_default_substitutes_on_missing_member() {
    let program = or_default(attrset(vec![binding(&["a"], int_lit("1"))]), "b", int_lit("9"));
    assert_eq!(expect_int(eval(&program)), 9);
    let hit = or_default(attrset(vec![binding(&["a"], int_lit("1"))]), "a", int_lit("9"));
    assert_eq!(expect_int(eval(&hit)), 1);
}

#[test]
fn indexing_a_non_set_is_a_type_error() {
    let program = index(int_lit("5"), "a");
    match eval(&program) {
        Err(Error::TypeMismatch { expected, found, .. }) => {
            assert_eq!(expected, Type::AttrSet);
            assert_eq!(found, Type::Int);
        }
        other => panic!("expected a type mismatch, got {:?}", other),
    }
}

#[test]
fn attr_path_binding_desugars_to_nested_sets() {
    // let a.b = 5; in a.b  ==>  5
    let program = letin(vec![binding(&["a", "b"], int_lit("5"))], index(ident("a"), "b"));
    assert_eq!(expect_int(eval(&program)), 5);
}

#[test]
fn unresolved_identifier_fails_at_build_time() {
    match build(&ident("nope")) {
        Err(Error::UnresolvedVariable { name, .. }) => assert_eq!(name, "nope"),
        other => panic!("expected an unresolved-variable error, got {:?}", other),
    }
}

#[test]
fn builtin_booleans_are_preseeded() {
    match eval(&ident("true")) {
        Ok(Value::Bool(true)) => {}
        other => panic!("expected true, got {:?}", other),
    }
    match eval(&ident("false")) {
        Ok(Value::Bool(false)) => {}
        other => panic!("expected false, got {:?}", other),
    }
}

#[test]
fn set_members_stay_unevaluated_until_demanded() {
    // { a = <nope>; b = 1; }.b succeeds: demanding b does not force a.
    let program = index(
        attrset(vec![
            binding(&["a"], path_lit(RawAnchor::Store, "nope")),
            binding(&["b"], int_lit("1")),
        ]),
        "b",
    );
    assert_eq!(expect_int(eval(&program)), 1);
}

#[test]
fn list_elements_stay_unevaluated() {
    let program = RawExpr::List {
        items: vec![path_lit(RawAnchor::Store, "nope"), int_lit("1")],
        span: sp(),
    };
    match eval(&program) {
        Ok(Value::List(items)) => assert_eq!(items.len(), 2),
        other => panic!("expected a list value, got {:?}", other),
    }
}

#[test]
fn application_is_outside_the_evaluated_subset() {
    let program = RawExpr::Apply {
        lambda: Box::new(ident("true")),
        argument: Box::new(int_lit("1")),
        span: sp(),
    };
    match eval(&program) {
        Err(Error::Unsupported { .. }) => {}
        other => panic!("expected an unsupported-form error, got {:?}", other),
    }
}

#[test]
fn lambda_captures_are_flattened() {
    // let a = 1; in (x: a) — the lambda's flattened captures hold exactly
    // the outer variable `a`.
    let program = letin(
        vec![binding(&["a"], int_lit("1"))],
        RawExpr::Lambda {
            param: "x".to_string(),
            param_span: sp(),
            body: Box::new(ident("a")),
            span: sp(),
        },
    );
    let ast = build(&program).expect("build failed");
    let body = match ast.expr_at(ast.root()) {
        Expr::LetIn { body, .. } => *body,
        other => panic!("expected a let node, got {:?}", other),
    };
    match ast.expr_at(body) {
        Expr::Lambda(l) => {
            // `true` and `false` take slots 0 and 1; `a` is slot 2.
            assert_eq!(l.captures.len(), 1);
            assert_eq!(l.captures[0], Variable(2));
        }
        other => panic!("expected a lambda node, got {:?}", other),
    }
}

#[test]
fn nested_lambda_propagates_captures_upward() {
    // let a = 1; in (x: (y: a)) — both lambdas capture `a`.
    let inner = RawExpr::Lambda {
        param: "y".to_string(),
        param_span: sp(),
        body: Box::new(ident("a")),
        span: sp(),
    };
    let outer = RawExpr::Lambda {
        param: "x".to_string(),
        param_span: sp(),
        body: Box::new(inner),
        span: sp(),
    };
    let program = letin(vec![binding(&["a"], int_lit("1"))], outer);
    let ast = build(&program).expect("build failed");
    let body = match ast.expr_at(ast.root()) {
        Expr::LetIn { body, .. } => *body,
        other => panic!("expected a let node, got {:?}", other),
    };
    match ast.expr_at(body) {
        Expr::Lambda(l) => {
            assert_eq!(l.captures.len(), 1);
            assert_eq!(l.captures[0], Variable(2));
            let inner_l = match ast.expr_at(l.body) {
                Expr::Lambda(il) => il,
                other => panic!("expected a lambda node, got {:?}", other),
            };
            assert_eq!(inner_l.captures.len(), 1);
            assert_eq!(inner_l.captures[0], Variable(2));
        }
        other => panic!("expected a lambda node, got {:?}", other),
    }
}

#[test]
fn recursion_limit_is_reported_without_fuel() {
    let program = int_lit("1");
    let ast = build(&program).expect("build failed");
    let root = ast.root();
    let mut cx = EvalContext::new(ast, vec![]);
    match cx.eval_expr(root, 0) {
        Err(Error::RecursionLimit { .. }) => {}
        other => panic!("expected a recursion-limit error, got {:?}", other),
    }
}

#[test]
fn string_literal_evaluates_to_itself() {
    match eval(&str_lit("hello")) {
        Ok(Value::Str(s)) => assert_eq!(s, "hello"),
        other => panic!("expected a string value, got {:?}", other),
    }
}
