use lazylang::ast::{BinOp, Decl, Expr, Match, Prog, ThunkCell, UnaryOp, Value};
use lazylang::interp::{associate, env_from_decls, eval_expr, new_env, run_prog, Interp};

fn eval_in_empty(expr: Expr) -> Value {
    let mut st = Interp::new();
    let env = new_env();
    eval_expr(&mut st, &expr, env)
}

#[test]
fn eval_literal() {
    let expected = Value::Int(1);
    let actual = eval_in_empty(Expr::integer(1));
    assert_eq!(expected, actual);
}

#[test]
fn eval_binary() {
    let expected = Value::Int(3);
    let actual = eval_in_empty(Expr::plus(Expr::integer(1), Expr::integer(2)));
    assert_eq!(expected, actual);
}

#[test]
fn eval_unary() {
    let expected = Value::Int(-3);
    let actual = eval_in_empty(Expr::negate(Expr::integer(3)));
    assert_eq!(expected, actual);
}

#[test]
fn eval_if_expr() {
    let expected = Value::Int(1);
    let actual = eval_in_empty(Expr::if_expr(
        Expr::bool(true),
        Expr::integer(1),
        Expr::integer(2),
    ));
    assert_eq!(expected, actual);
    let expected = Value::Int(2);
    let actual = eval_in_empty(Expr::if_expr(
        Expr::bool(false),
        Expr::integer(1),
        Expr::integer(2),
    ));
    assert_eq!(expected, actual);
}

#[test]
fn eval_variable() {
    let mut st = Interp::new();
    let env = associate(&mut st, &Match::ident("a"), Value::Int(1), new_env()).unwrap();
    let actual = eval_expr(&mut st, &Expr::variable("a"), env);
    assert_eq!(Value::Int(1), actual);

    let mut st = Interp::new();
    let env = associate(&mut st, &Match::ident("a"), Value::Int(1), new_env()).unwrap();
    let actual = eval_expr(&mut st, &Expr::variable("b"), env);
    assert_eq!(Value::Error("Variable 'b' is not declared".into()), actual);
}

#[test]
fn eval_let_expr() {
    let actual = eval_in_empty(Expr::let_expr(
        Match::ident("a"),
        Expr::integer(1),
        Expr::integer(2),
    ));
    assert_eq!(Value::Int(2), actual);
    let actual = eval_in_empty(Expr::let_expr(
        Match::ident("a"),
        Expr::integer(1),
        Expr::variable("a"),
    ));
    assert_eq!(Value::Int(1), actual);
}

#[test]
fn eval_fn_application() {
    let actual = eval_in_empty(Expr::fn_app(
        Expr::fn_expr(Match::ident("a"), Expr::variable("a")),
        Expr::integer(1),
    ));
    assert_eq!(Value::Int(1), actual);
}

#[test]
fn match_expr() {
    let actual = eval_in_empty(Expr::match_(
        Expr::integer(1),
        vec![
            (Match::integer(0), Expr::integer(0)),
            (Match::integer(1), Expr::integer(1)),
            (Match::ident("a"), Expr::integer(2)),
        ],
    ));
    assert_eq!(Value::Int(1), actual);
    let actual = eval_in_empty(Expr::match_(
        Expr::integer(3),
        vec![
            (Match::integer(0), Expr::integer(0)),
            (Match::integer(1), Expr::integer(1)),
            (Match::integer(2), Expr::integer(2)),
        ],
    ));
    assert_eq!(Value::Error("Value didn't match any patterns".into()), actual);
}

#[test]
fn decl_eval() {
    let decls = vec![Decl::Expression(
        "add1".into(),
        Expr::fn_expr(
            Match::ident("a"),
            Expr::plus(Expr::variable("a"), Expr::integer(1)),
        ),
    )];
    let mut st = Interp::new();
    let env = env_from_decls(&mut st, &decls);
    let actual = eval_expr(
        &mut st,
        &Expr::fn_app(Expr::variable("add1"), Expr::integer(1)),
        env,
    );
    assert_eq!(Value::Int(2), actual);

    let decls = vec![
        Decl::Expression("a".into(), Expr::integer(1)),
        Decl::Expression(
            "b".into(),
            Expr::plus(Expr::variable("a"), Expr::integer(1)),
        ),
    ];
    let mut st = Interp::new();
    let env = env_from_decls(&mut st, &decls);
    let actual = eval_expr(&mut st, &Expr::variable("b"), env);
    assert_eq!(Value::Int(2), actual);
}

#[test]
fn orderless_decl_eval() {
    let decls = vec![
        Decl::Expression(
            "a".into(),
            Expr::plus(Expr::variable("b"), Expr::integer(1)),
        ),
        Decl::Expression("b".into(), Expr::integer(2)),
    ];
    let mut st = Interp::new();
    let env = env_from_decls(&mut st, &decls);
    let actual = eval_expr(&mut st, &Expr::variable("a"), env);
    assert_eq!(Value::Int(3), actual);
}

#[test]
fn delayed_test() {
    let actual = eval_in_empty(Expr::delayed(
        Match::ident("a"),
        Expr::variable("b"),
        Expr::let_expr(
            Match::ident("b"),
            Expr::integer(1),
            Expr::plus(Expr::variable("a"), Expr::variable("b")),
        ),
    ));
    assert_eq!(Value::Int(2), actual);
}

#[test]
fn divide_by_zero() {
    let actual = eval_in_empty(Expr::binary(
        Expr::integer(1),
        BinOp::Divide,
        Expr::integer(0),
    ));
    assert_eq!(Value::Error("Divide by zero".into()), actual);
}

#[test]
fn modulo_by_zero() {
    let actual = eval_in_empty(Expr::binary(
        Expr::integer(1),
        BinOp::Modulo,
        Expr::integer(0),
    ));
    assert_eq!(Value::Error("Modulo by zero".into()), actual);
}

#[test]
fn if_non_boolean_condition() {
    let actual = eval_in_empty(Expr::if_expr(
        Expr::integer(1),
        Expr::integer(1),
        Expr::integer(2),
    ));
    assert_eq!(
        Value::Error("If condition must return a boolean".into()),
        actual
    );
}

#[test]
fn error_propagates_through_operators() {
    let div0 = Expr::binary(Expr::integer(1), BinOp::Divide, Expr::integer(0));
    let actual = eval_in_empty(Expr::plus(div0, Expr::integer(2)));
    assert_eq!(Value::Error("Divide by zero".into()), actual);

    let div0 = Expr::binary(Expr::integer(1), BinOp::Divide, Expr::integer(0));
    let actual = eval_in_empty(Expr::if_expr(div0, Expr::integer(1), Expr::integer(2)));
    assert_eq!(Value::Error("Divide by zero".into()), actual);
}

#[test]
fn tuple_pattern_application() {
    let actual = eval_in_empty(Expr::fn_app(
        Expr::fn_expr(
            Match::tuple(vec![Match::ident("x"), Match::ident("y")]),
            Expr::plus(Expr::variable("x"), Expr::variable("y")),
        ),
        Expr::tuple(vec![Value::Int(3), Value::Int(4)]),
    ));
    assert_eq!(Value::Int(7), actual);
}

#[test]
fn tuple_indexing() {
    let actual = eval_in_empty(Expr::fn_app(
        Expr::integer(1),
        Expr::tuple(vec![Value::Int(10), Value::Int(20), Value::Int(30)]),
    ));
    assert_eq!(Value::Int(20), actual);

    let actual = eval_in_empty(Expr::fn_app(
        Expr::integer(5),
        Expr::tuple(vec![Value::Int(10), Value::Int(20)]),
    ));
    assert_eq!(Value::Error("Tuple index out of range".into()), actual);

    let actual = eval_in_empty(Expr::fn_app(
        Expr::integer(-1),
        Expr::tuple(vec![Value::Int(10)]),
    ));
    assert_eq!(
        Value::Error("Cannot have a negative index of a tuple".into()),
        actual
    );

    let actual = eval_in_empty(Expr::fn_app(Expr::integer(0), Expr::integer(7)));
    assert_eq!(Value::Error("Can't index type 'Int'".into()), actual);
}

#[test]
fn cannot_apply_non_function() {
    let actual = eval_in_empty(Expr::fn_app(Expr::bool(true), Expr::integer(1)));
    assert_eq!(
        Value::Error("Can't apply argument to type 'Bool'".into()),
        actual
    );
}

#[test]
fn structural_equality() {
    let pair = || Expr::tuple(vec![Value::Int(1), Value::Int(2)]);
    let actual = eval_in_empty(Expr::binary(pair(), BinOp::Equal, pair()));
    assert_eq!(Value::Bool(true), actual);

    let actual = eval_in_empty(Expr::binary(
        Expr::boxed(Expr::integer(1)),
        BinOp::Equal,
        Expr::integer(1),
    ));
    assert_eq!(Value::Bool(false), actual);

    let f = || Expr::fn_expr(Match::ident("a"), Expr::variable("a"));
    let actual = eval_in_empty(Expr::binary(f(), BinOp::Equal, f()));
    assert_eq!(Value::Bool(false), actual);
}

#[test]
fn boolean_and_comparison_operators() {
    let b = |x: bool| Expr::bool(x);
    assert_eq!(
        Value::Bool(false),
        eval_in_empty(Expr::binary(b(true), BinOp::And, b(false)))
    );
    assert_eq!(
        Value::Bool(true),
        eval_in_empty(Expr::binary(b(true), BinOp::Or, b(false)))
    );
    assert_eq!(
        Value::Bool(true),
        eval_in_empty(Expr::binary(b(true), BinOp::Xor, b(false)))
    );
    assert_eq!(
        Value::Bool(false),
        eval_in_empty(Expr::unary(UnaryOp::Not, b(true)))
    );
    assert_eq!(
        Value::Bool(true),
        eval_in_empty(Expr::binary(Expr::integer(1), BinOp::LessThan, Expr::integer(2)))
    );
    assert_eq!(
        Value::Bool(false),
        eval_in_empty(Expr::binary(
            Expr::integer(1),
            BinOp::GreaterThanEqual,
            Expr::integer(2),
        ))
    );
}

#[test]
fn lexical_shadowing() {
    let actual = eval_in_empty(Expr::let_expr(
        Match::ident("a"),
        Expr::integer(1),
        Expr::let_expr(Match::ident("a"), Expr::integer(2), Expr::variable("a")),
    ));
    assert_eq!(Value::Int(2), actual);
}

#[test]
fn cyclic_delay_detection() {
    let actual = eval_in_empty(Expr::delayed(
        Match::ident("a"),
        Expr::variable("a"),
        Expr::variable("a"),
    ));
    assert_eq!(Value::Error("cyclic use of delayed value".into()), actual);
}

#[test]
fn delayed_requires_identifier_pattern() {
    let actual = eval_in_empty(Expr::delayed(
        Match::wildcard(),
        Expr::integer(1),
        Expr::integer(2),
    ));
    assert_eq!(
        Value::Error("Delayed binding requires an identifier pattern".into()),
        actual
    );
}

#[test]
fn delayed_memoizes_once() {
    let mut st = Interp::new();
    let expr = Expr::delayed(
        Match::ident("a"),
        Expr::plus(Expr::integer(1), Expr::integer(2)),
        Expr::plus(Expr::variable("a"), Expr::variable("a")),
    );
    let actual = eval_expr(&mut st, &expr, new_env());
    assert_eq!(Value::Int(6), actual);
    assert_eq!(st.thunks.len(), 1);
    match &st.thunks[0] {
        ThunkCell::Forced(v) => assert_eq!(Value::Int(3), *v),
        _ => panic!("thunk was not memoized"),
    }
}

#[test]
fn mutual_recursion_through_decls() {
    let decls = vec![
        Decl::Expression(
            "even".into(),
            Expr::fn_expr(
                Match::ident("n"),
                Expr::if_expr(
                    Expr::binary(Expr::variable("n"), BinOp::Equal, Expr::integer(0)),
                    Expr::bool(true),
                    Expr::fn_app(
                        Expr::variable("odd"),
                        Expr::binary(Expr::variable("n"), BinOp::Minus, Expr::integer(1)),
                    ),
                ),
            ),
        ),
        Decl::Expression(
            "odd".into(),
            Expr::fn_expr(
                Match::ident("n"),
                Expr::if_expr(
                    Expr::binary(Expr::variable("n"), BinOp::Equal, Expr::integer(0)),
                    Expr::bool(false),
                    Expr::fn_app(
                        Expr::variable("even"),
                        Expr::binary(Expr::variable("n"), BinOp::Minus, Expr::integer(1)),
                    ),
                ),
            ),
        ),
    ];
    let mut st = Interp::new();
    let env = env_from_decls(&mut st, &decls);
    let actual = eval_expr(
        &mut st,
        &Expr::fn_app(Expr::variable("even"), Expr::integer(4)),
        env,
    );
    assert_eq!(Value::Bool(true), actual);
    let actual = eval_expr(
        &mut st,
        &Expr::fn_app(Expr::variable("odd"), Expr::integer(5)),
        env,
    );
    assert_eq!(Value::Bool(true), actual);
}

#[test]
fn run_prog_binary() {
    let prog = Prog::Binary(Expr::plus(Expr::integer(1), Expr::integer(2)), vec![]);
    assert_eq!(Ok(Value::Int(3)), run_prog(prog));

    let decls = vec![Decl::Expression(
        "add1".into(),
        Expr::fn_expr(
            Match::ident("a"),
            Expr::plus(Expr::variable("a"), Expr::integer(1)),
        ),
    )];
    let prog = Prog::Binary(Expr::fn_app(Expr::variable("add1"), Expr::integer(1)), decls);
    assert_eq!(Ok(Value::Int(2)), run_prog(prog));

    let decls = vec![
        Decl::Expression(
            "a".into(),
            Expr::plus(Expr::variable("b"), Expr::integer(1)),
        ),
        Decl::Expression("b".into(), Expr::integer(2)),
    ];
    let prog = Prog::Binary(Expr::variable("a"), decls);
    assert_eq!(Ok(Value::Int(3)), run_prog(prog));
}

#[test]
fn run_prog_library_has_no_main() {
    let prog = Prog::Library(vec![Decl::Expression("a".into(), Expr::integer(1))]);
    assert_eq!(Err("No 'main' found in file".to_string()), run_prog(prog));
}

#[test]
fn overflow_is_an_error() {
    let actual = eval_in_empty(Expr::plus(Expr::integer(i64::MAX), Expr::integer(1)));
    assert_eq!(Value::Error("integer overflow".into()), actual);
    let actual = eval_in_empty(Expr::negate(Expr::integer(i64::MIN)));
    assert_eq!(Value::Error("integer overflow".into()), actual);
}

#[test]
fn keywords_are_recognized() {
    assert!(lazylang::tokens::is_keyword("let"));
    assert!(lazylang::tokens::is_keyword("delay"));
    assert!(!lazylang::tokens::is_keyword("abc"));
    assert!(!lazylang::tokens::is_keyword("lets"));
}

#[test]
fn string_and_char_values() {
    let actual = eval_in_empty(Expr::binary(
        Expr::literal(Value::Str("ab".into())),
        BinOp::Equal,
        Expr::literal(Value::Str("ab".into())),
    ));
    assert_eq!(Value::Bool(true), actual);
    let actual = eval_in_empty(Expr::binary(
        Expr::literal(Value::Char('a')),
        BinOp::NotEqual,
        Expr::literal(Value::Char('b')),
    ));
    assert_eq!(Value::Bool(true), actual);
}

#[test]
fn match_wildcard_and_tuple_patterns() {
    let actual = eval_in_empty(Expr::match_(
        Expr::tuple(vec![Value::Int(1), Value::Int(2)]),
        vec![
            (
                Match::tuple(vec![Match::integer(1), Match::ident("b")]),
                Expr::variable("b"),
            ),
            (Match::wildcard(), Expr::integer(0)),
        ],
    ));
    assert_eq!(Value::Int(2), actual);

    let actual = eval_in_empty(Expr::match_(
        Expr::tuple(vec![Value::Int(3), Value::Int(2)]),
        vec![
            (
                Match::tuple(vec![Match::integer(1), Match::ident("b")]),
                Expr::variable("b"),
            ),
            (Match::wildcard(), Expr::integer(0)),
        ],
    ));
    assert_eq!(Value::Int(0), actual);
}

#[test]
fn type_mismatch_errors() {
    let actual = eval_in_empty(Expr::plus(Expr::bool(true), Expr::integer(1)));
    assert_eq!(
        Value::Error("type mismatch: arithmetic expects integers".into()),
        actual
    );
    let actual = eval_in_empty(Expr::unary(UnaryOp::Not, Expr::integer(1)));
    assert_eq!(
        Value::Error("type mismatch: 'not' expects a boolean".into()),
        actual
    );
}
