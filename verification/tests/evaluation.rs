use sheq::{
    interp, serialize, top_interp, AppC, ArithOp, BoolV, Environment, ExprC, IdC, IfC,
    InterpError, LamC, NumC, NumV, StringC, Value,
};

const DEPTH: usize = 64;

fn arith(op: ArithOp, a: u64, b: u64) -> u64 {
    let x = f64::from_bits(a);
    let y = f64::from_bits(b);
    let z = match op {
        ArithOp::Add => x + y,
        ArithOp::Sub => x - y,
        ArithOp::Mul => x * y,
        ArithOp::Div => x / y,
    };
    z.to_bits()
}

fn leq(a: u64, b: u64) -> bool {
    f64::from_bits(a) <= f64::from_bits(b)
}

fn render(a: u64) -> String {
    f64::from_bits(a).to_string()
}

fn num(x: f64) -> ExprC {
    ExprC::NumC(NumC { n: x.to_bits() })
}

fn id(name: &str) -> ExprC {
    ExprC::IdC(IdC { name: name.to_string() })
}

fn app(fun: ExprC, args: Vec<ExprC>) -> ExprC {
    ExprC::AppC(AppC { fun: Box::new(fun), args })
}

fn lam(params: &[&str], body: ExprC) -> ExprC {
    ExprC::LamC(LamC { args: params.iter().map(|p| p.to_string()).collect(), body: Box::new(body) })
}

fn cond(c: ExprC, t: ExprC, e: ExprC) -> ExprC {
    ExprC::IfC(IfC { condition: Box::new(c), then_: Box::new(t), else_: Box::new(e) })
}

fn run(expr: ExprC) -> Result<String, InterpError> {
    top_interp(expr, &arith, &leq, DEPTH).map(|v| serialize(v, &render))
}

#[test]
fn test_numc_interp_serialize() {
    let expr: ExprC = ExprC::NumC(NumC { n: 10.0f64.to_bits() });
    let val = top_interp(expr, &arith, &leq, DEPTH).unwrap();
    let output = serialize(val, &render);
    assert_eq!(output, "10");
}

#[test]
fn test_stringc_interp_serialize() {
    let expr: ExprC = ExprC::StringC(StringC { s: "Hello world!".to_string() });
    let val = top_interp(expr, &arith, &leq, DEPTH).unwrap();
    let output = serialize(val, &render);
    assert_eq!(output, "Hello world!");
}

#[test]
fn test_idc_interp_lookup() {
    let env = vec![("x".to_string(), Value::NumV(NumV { n: 42.0f64.to_bits() }))];
    let expr = ExprC::IdC(IdC { name: "x".to_string() });

    let val = interp(expr, &env, &arith, &leq, DEPTH).unwrap();

    match val {
        Value::NumV(nv) => assert_eq!(f64::from_bits(nv.n), 42.0),
        other => panic!("Unexpected value for IdC: {:?}", other),
    }
}

#[test]
fn test_ifc_branches() {
    let env = vec![
        ("cond".to_string(), Value::BoolV(BoolV { b: true })),
        ("other".to_string(), Value::NumV(NumV { n: 99.0f64.to_bits() })),
    ];

    let expr = ExprC::IfC(IfC {
        condition: Box::new(ExprC::IdC(IdC { name: "cond".to_string() })),
        then_: Box::new(ExprC::NumC(NumC { n: 1.0f64.to_bits() })),
        else_: Box::new(ExprC::IdC(IdC { name: "other".to_string() })),
    });

    let val = interp(expr, &env, &arith, &leq, DEPTH).unwrap();

    match val {
        Value::NumV(nv) => assert_eq!(f64::from_bits(nv.n), 1.0),
        other => panic!("Unexpected value for IfC: {:?}", other),
    }
}

#[test]
fn test_lamc_interp_serialize() {
    let expr: ExprC = ExprC::LamC(LamC {
        args: vec!["f".to_string()],
        body: Box::new(ExprC::NumC(NumC { n: 5.0f64.to_bits() })),
    });
    let val = top_interp(expr, &arith, &leq, DEPTH).unwrap();
    let output = serialize(val, &render);
    assert_eq!(output, "#<procedure>");
}

#[test]
fn test_arith_prims() {
    let expr = ExprC::AppC(AppC {
        fun: Box::new(ExprC::IdC(IdC { name: "*".to_string() })),
        args: vec![
            ExprC::AppC(AppC {
                fun: Box::new(ExprC::IdC(IdC { name: "-".to_string() })),
                args: vec![
                    ExprC::NumC(NumC { n: 10.0f64.to_bits() }),
                    ExprC::NumC(NumC { n: 5.0f64.to_bits() }),
                ],
            }),
            ExprC::NumC(NumC { n: 8.0f64.to_bits() }),
        ],
    });
    let val = top_interp(expr, &arith, &leq, DEPTH).unwrap();
    let output = serialize(val, &render);
    assert_eq!(output, "40");
}

#[test]
fn test_leq() {
    let expr = ExprC::IfC(IfC {
        condition: Box::new(ExprC::AppC(AppC {
            fun: Box::new(ExprC::IdC(IdC { name: "<=".to_string() })),
            args: vec![
                ExprC::NumC(NumC { n: 5.0f64.to_bits() }),
                ExprC::NumC(NumC { n: 10.0f64.to_bits() }),
            ],
        })),
        then_: Box::new(ExprC::NumC(NumC { n: 1.0f64.to_bits() })),
        else_: Box::new(ExprC::NumC(NumC { n: 2.0f64.to_bits() })),
    });
    let val = top_interp(expr, &arith, &leq, DEPTH).unwrap();
    let output = serialize(val, &render);
    assert_eq!(output, "1");
}

#[test]
fn test_appc_lam_add() {
    let expr: ExprC = ExprC::AppC(AppC {
        fun: Box::new(ExprC::LamC(LamC {
            args: vec!["x".to_string()],
            body: Box::new(ExprC::AppC(AppC {
                fun: Box::new(ExprC::IdC(IdC { name: "+".to_string() })),
                args: vec![
                    ExprC::NumC(NumC { n: 1.0f64.to_bits() }),
                    ExprC::IdC(IdC { name: "x".to_string() }),
                ],
            })),
        })),
        args: vec![ExprC::NumC(NumC { n: 15.0f64.to_bits() })],
    });
    let val = top_interp(expr, &arith, &leq, DEPTH).unwrap();
    let output = serialize(val, &render);
    assert_eq!(output, "16");
}

#[test]
fn number_literal_renders_as_its_decimal_form() {
    for x in [0.0, 10.0, -3.5, 1e21, 0.1, 123456789.125] {
        assert_eq!(run(num(x)).unwrap(), x.to_string());
    }
}

#[test]
fn string_literal_comes_back_unchanged() {
    for s in ["", "Hello world!", "  spaced  ", "#<procedure>", "\"quoted\""] {
        let expr = ExprC::StringC(StringC { s: s.to_string() });
        assert_eq!(run(expr).unwrap(), s);
    }
}

#[test]
fn booleans_of_the_starting_environment() {
    assert_eq!(run(id("true")).unwrap(), "true");
    assert_eq!(run(id("false")).unwrap(), "false");
}

#[test]
fn operator_name_evaluates_to_the_operator() {
    for name in ["+", "-", "*", "/", "<=", "substring", "strlen", "equal?", "error"] {
        assert_eq!(run(id(name)).unwrap(), "#<primop>");
    }
}

#[test]
fn identifier_takes_the_newest_binding() {
    let env: Environment = vec![
        ("x".to_string(), Value::NumV(NumV { n: 1.0f64.to_bits() })),
        ("y".to_string(), Value::NumV(NumV { n: 7.0f64.to_bits() })),
        ("x".to_string(), Value::NumV(NumV { n: 2.0f64.to_bits() })),
    ];
    let x = interp(id("x"), &env, &arith, &leq, DEPTH).unwrap();
    assert_eq!(serialize(x, &render), "2");
    let y = interp(id("y"), &env, &arith, &leq, DEPTH).unwrap();
    assert_eq!(serialize(y, &render), "7");
}

#[test]
fn unbound_identifier_fails_and_names_it() {
    match run(id("nowhere")) {
        Err(InterpError::UnboundIdentifier { name }) => assert_eq!(name, "nowhere"),
        other => panic!("expected an unbound identifier, got {:?}", other),
    }
    let empty: Environment = Vec::new();
    match interp(id("true"), &empty, &arith, &leq, DEPTH) {
        Err(InterpError::UnboundIdentifier { name }) => assert_eq!(name, "true"),
        other => panic!("expected an unbound identifier, got {:?}", other),
    }
}

#[test]
fn conditional_leaves_the_other_branch_alone() {
    let taken_then = cond(id("true"), num(1.0), id("missing"));
    assert_eq!(run(taken_then).unwrap(), "1");
    let taken_else = cond(id("false"), id("missing"), num(2.0));
    assert_eq!(run(taken_else).unwrap(), "2");
    let omega = || lam(&["x"], app(id("x"), vec![id("x")]));
    let diverging = app(omega(), vec![omega()]);
    assert_eq!(run(cond(id("true"), num(3.0), diverging)).unwrap(), "3");
}

#[test]
fn conditional_on_a_failing_branch_fails() {
    match run(cond(id("false"), num(1.0), id("missing"))) {
        Err(InterpError::UnboundIdentifier { name }) => assert_eq!(name, "missing"),
        other => panic!("expected an unbound identifier, got {:?}", other),
    }
}

#[test]
fn conditional_needs_a_boolean() {
    match run(cond(num(1.0), num(2.0), num(3.0))) {
        Err(InterpError::IfNotBoolean { got: Value::NumV(nv) }) => {
            assert_eq!(f64::from_bits(nv.n), 1.0)
        }
        other => panic!("expected a type error, got {:?}", other),
    }
    let s = ExprC::StringC(StringC { s: "true".to_string() });
    match run(cond(s, num(2.0), num(3.0))) {
        Err(InterpError::IfNotBoolean { got: Value::StringV(sv) }) => assert_eq!(sv.s, "true"),
        other => panic!("expected a type error, got {:?}", other),
    }
    match run(cond(id("missing"), num(2.0), num(3.0))) {
        Err(InterpError::UnboundIdentifier { name }) => assert_eq!(name, "missing"),
        other => panic!("expected an unbound identifier, got {:?}", other),
    }
}

#[test]
fn lambda_captures_the_environment_of_its_definition() {
    let env: Environment = vec![("y".to_string(), Value::NumV(NumV { n: 5.0f64.to_bits() }))];
    match interp(lam(&["a", "b"], id("a")), &env, &arith, &leq, DEPTH).unwrap() {
        Value::CloV(c) => {
            assert_eq!(c.params, vec!["a".to_string(), "b".to_string()]);
            assert_eq!(c.env.len(), 1);
            assert_eq!(c.env[0].0, "y");
            match &*c.body {
                ExprC::IdC(i) => assert_eq!(i.name, "a"),
                other => panic!("unexpected body {:?}", other),
            }
        }
        other => panic!("expected a closure, got {:?}", other),
    }
}

#[test]
fn scoping_is_lexical() {
    // ((lambda (y) ((lambda (f) ((lambda (y) (f 0)) 100)) (lambda (x) y))) 1)
    let inner_call = app(lam(&["y"], app(id("f"), vec![num(0.0)])), vec![num(100.0)]);
    let with_f = app(lam(&["f"], inner_call), vec![lam(&["x"], id("y"))]);
    let program = app(lam(&["y"], with_f), vec![num(1.0)]);
    assert_eq!(run(program).unwrap(), "1");
}

#[test]
fn arguments_are_evaluated_in_the_callers_environment() {
    // ((lambda (x) ((lambda (x y) y) 1 x)) 7)
    let inner = app(lam(&["x", "y"], id("y")), vec![num(1.0), id("x")]);
    let program = app(lam(&["x"], inner), vec![num(7.0)]);
    assert_eq!(run(program).unwrap(), "7");
}

#[test]
fn parameters_shadow_captured_bindings() {
    let program = app(lam(&["true"], id("true")), vec![num(3.0)]);
    assert_eq!(run(program).unwrap(), "3");
    let later_wins = app(lam(&["x", "x"], id("x")), vec![num(1.0), num(2.0)]);
    assert_eq!(run(later_wins).unwrap(), "2");
}

#[test]
fn arity_mismatch_fails() {
    match run(app(lam(&["x"], id("x")), vec![num(1.0), num(2.0)])) {
        Err(InterpError::ArityMismatch { expected, found }) => {
            assert_eq!(expected, 1);
            assert_eq!(found, 2);
        }
        other => panic!("expected an arity mismatch, got {:?}", other),
    }
    match run(app(lam(&["x", "y"], num(0.0)), vec![num(1.0)])) {
        Err(InterpError::ArityMismatch { expected, found }) => {
            assert_eq!(expected, 2);
            assert_eq!(found, 1);
        }
        other => panic!("expected an arity mismatch, got {:?}", other),
    }
    match run(app(lam(&["x"], num(0.0)), vec![])) {
        Err(InterpError::ArityMismatch { expected, found }) => {
            assert_eq!(expected, 1);
            assert_eq!(found, 0);
        }
        other => panic!("expected an arity mismatch, got {:?}", other),
    }
    assert_eq!(run(app(lam(&[], num(9.0)), vec![])).unwrap(), "9");
}

#[test]
fn only_functions_and_operators_can_be_called() {
    match run(app(num(5.0), vec![num(1.0)])) {
        Err(InterpError::NotCallable { got: Value::NumV(nv) }) => {
            assert_eq!(f64::from_bits(nv.n), 5.0)
        }
        other => panic!("expected a call failure, got {:?}", other),
    }
    match run(app(id("true"), vec![])) {
        Err(InterpError::NotCallable { got: Value::BoolV(bv) }) => assert!(bv.b),
        other => panic!("expected a call failure, got {:?}", other),
    }
    let s = ExprC::StringC(StringC { s: "f".to_string() });
    match run(app(s, vec![])) {
        Err(InterpError::NotCallable { got: Value::StringV(sv) }) => assert_eq!(sv.s, "f"),
        other => panic!("expected a call failure, got {:?}", other),
    }
}

#[test]
fn function_position_comes_first_then_arguments_left_to_right() {
    match run(app(id("f"), vec![id("a"), id("b")])) {
        Err(InterpError::UnboundIdentifier { name }) => assert_eq!(name, "f"),
        other => panic!("expected an unbound identifier, got {:?}", other),
    }
    match run(app(id("+"), vec![id("a"), id("b")])) {
        Err(InterpError::UnboundIdentifier { name }) => assert_eq!(name, "a"),
        other => panic!("expected an unbound identifier, got {:?}", other),
    }
    match run(app(id("+"), vec![num(1.0), id("b"), id("c")])) {
        Err(InterpError::UnboundIdentifier { name }) => assert_eq!(name, "b"),
        other => panic!("expected an unbound identifier, got {:?}", other),
    }
    match run(app(num(5.0), vec![id("a")])) {
        Err(InterpError::UnboundIdentifier { name }) => assert_eq!(name, "a"),
        other => panic!("expected an unbound identifier, got {:?}", other),
    }
    match run(app(lam(&[], num(0.0)), vec![id("a")])) {
        Err(InterpError::UnboundIdentifier { name }) => assert_eq!(name, "a"),
        other => panic!("expected an unbound identifier, got {:?}", other),
    }
}

#[test]
fn arithmetic_through_the_evaluator() {
    assert_eq!(run(app(id("+"), vec![num(1.0), num(2.0)])).unwrap(), "3");
    assert_eq!(run(app(id("-"), vec![num(10.0), num(5.0)])).unwrap(), "5");
    assert_eq!(run(app(id("*"), vec![num(3.0), num(4.0)])).unwrap(), "12");
    assert_eq!(run(app(id("/"), vec![num(7.0), num(2.0)])).unwrap(), "3.5");
    assert_eq!(run(app(id("-"), vec![num(2.0), num(5.0)])).unwrap(), "-3");
    assert_eq!(run(app(id("<="), vec![num(5.0), num(10.0)])).unwrap(), "true");
    assert_eq!(run(app(id("<="), vec![num(10.0), num(10.0)])).unwrap(), "true");
    assert_eq!(run(app(id("<="), vec![num(11.0), num(10.0)])).unwrap(), "false");
}

#[test]
fn division_by_zero_is_no_failure() {
    assert_eq!(run(app(id("/"), vec![num(1.0), num(0.0)])).unwrap(), "inf");
    assert_eq!(run(app(id("/"), vec![num(-1.0), num(0.0)])).unwrap(), "-inf");
    assert_eq!(run(app(id("/"), vec![num(0.0), num(0.0)])).unwrap(), "NaN");
}

#[test]
fn unsupported_calls_give_the_sentinel() {
    let s = || ExprC::StringC(StringC { s: "abc".to_string() });
    assert_eq!(run(app(id("+"), vec![num(1.0)])).unwrap(), "Not implemented");
    assert_eq!(run(app(id("+"), vec![num(1.0), num(2.0), num(3.0)])).unwrap(), "Not implemented");
    assert_eq!(run(app(id("+"), vec![num(1.0), s()])).unwrap(), "Not implemented");
    assert_eq!(run(app(id("<="), vec![id("true"), num(1.0)])).unwrap(), "Not implemented");
    assert_eq!(run(app(id("strlen"), vec![s()])).unwrap(), "Not implemented");
    let slice = app(id("substring"), vec![s(), num(0.0), num(1.0)]);
    assert_eq!(run(slice).unwrap(), "Not implemented");
    assert_eq!(run(app(id("equal?"), vec![num(1.0), num(1.0)])).unwrap(), "Not implemented");
    assert_eq!(run(app(id("error"), vec![s()])).unwrap(), "Not implemented");
}

#[test]
fn sentinel_is_an_ordinary_string() {
    let sentinel = app(id("strlen"), vec![num(1.0)]);
    match run(cond(sentinel, num(1.0), num(2.0))) {
        Err(InterpError::IfNotBoolean { got: Value::StringV(sv) }) => {
            assert_eq!(sv.s, "Not implemented")
        }
        other => panic!("expected a type error, got {:?}", other),
    }
}

#[test]
fn nested_calls_stop_at_the_depth_limit() {
    let omega = |x: &str| lam(&[x], app(id(x), vec![id(x)]));
    let program = app(omega("x"), vec![omega("x")]);
    match top_interp(program, &arith, &leq, 50) {
        Err(InterpError::DepthExceeded) => {}
        other => panic!("expected the depth limit, got {:?}", other),
    }
}

#[test]
fn depth_counts_nested_calls_only() {
    let call = || app(lam(&["x"], id("x")), vec![num(1.0)]);
    match top_interp(call(), &arith, &leq, 0) {
        Err(InterpError::DepthExceeded) => {}
        other => panic!("expected the depth limit, got {:?}", other),
    }
    assert_eq!(serialize(top_interp(call(), &arith, &leq, 1).unwrap(), &render), "1");
    let sum = app(id("+"), vec![call(), call()]);
    assert_eq!(serialize(top_interp(sum, &arith, &leq, 1).unwrap(), &render), "2");
    let nested = app(lam(&["y"], app(lam(&["x"], id("x")), vec![id("y")])), vec![num(4.0)]);
    let again = app(lam(&["y"], app(lam(&["x"], id("x")), vec![id("y")])), vec![num(4.0)]);
    match top_interp(nested, &arith, &leq, 1) {
        Err(InterpError::DepthExceeded) => {}
        other => panic!("expected the depth limit, got {:?}", other),
    }
    assert_eq!(serialize(top_interp(again, &arith, &leq, 2).unwrap(), &render), "4");
    let prim_only = app(id("*"), vec![app(id("-"), vec![num(10.0), num(5.0)]), num(8.0)]);
    assert_eq!(serialize(top_interp(prim_only, &arith, &leq, 0).unwrap(), &render), "40");
}

#[test]
fn arity_is_checked_before_the_depth_limit() {
    let program = app(lam(&["x"], id("x")), vec![]);
    match top_interp(program, &arith, &leq, 0) {
        Err(InterpError::ArityMismatch { expected, found }) => {
            assert_eq!(expected, 1);
            assert_eq!(found, 0);
        }
        other => panic!("expected an arity mismatch, got {:?}", other),
    }
}

#[test]
fn higher_order_functions() {
    // ((lambda (twice) ((twice (lambda (n) (* n 3))) 2)) (lambda (f) (lambda (x) (f (f x)))))
    let twice = lam(&["f"], lam(&["x"], app(id("f"), vec![app(id("f"), vec![id("x")])])));
    let triple = lam(&["n"], app(id("*"), vec![id("n"), num(3.0)]));
    let body = app(app(id("twice"), vec![triple]), vec![num(2.0)]);
    let program = app(lam(&["twice"], body), vec![twice]);
    assert_eq!(run(program).unwrap(), "18");
}

#[test]
fn recursion_by_self_application() {
    // sum of 1..=n by passing the function to itself
    let step = lam(
        &["self", "n"],
        cond(
            app(id("<="), vec![id("n"), num(0.0)]),
            num(0.0),
            app(
                id("+"),
                vec![
                    id("n"),
                    app(id("self"), vec![id("self"), app(id("-"), vec![id("n"), num(1.0)])]),
                ],
            ),
        ),
    );
    let program = app(lam(&["f"], app(id("f"), vec![id("f"), num(10.0)])), vec![step]);
    assert_eq!(run(program).unwrap(), "55");
}

#[test]
fn a_larger_depth_limit_keeps_the_outcome() {
    let program = || {
        let step = lam(
            &["self", "n"],
            cond(
                app(id("<="), vec![id("n"), num(0.0)]),
                num(0.0),
                app(
                    id("+"),
                    vec![
                        id("n"),
                        app(id("self"), vec![id("self"), app(id("-"), vec![id("n"), num(1.0)])]),
                    ],
                ),
            ),
        );
        app(lam(&["f"], app(id("f"), vec![id("f"), num(5.0)])), vec![step])
    };
    let mut least = None;
    for depth in 0..20 {
        match top_interp(program(), &arith, &leq, depth) {
            Ok(v) => {
                assert_eq!(serialize(v, &render), "15");
                if least.is_none() {
                    least = Some(depth);
                }
            }
            Err(InterpError::DepthExceeded) => assert!(least.is_none()),
            other => panic!("unexpected outcome {:?}", other),
        }
    }
    assert_eq!(least, Some(7));
    let failing = || app(lam(&["x"], id("y")), vec![num(1.0)]);
    for depth in 1..5 {
        match top_interp(failing(), &arith, &leq, depth) {
            Err(InterpError::UnboundIdentifier { name }) => assert_eq!(name, "y"),
            other => panic!("expected an unbound identifier, got {:?}", other),
        }
    }
}

#[test]
fn parameters_find_their_arguments() {
    let pick = |which: &str| {
        app(lam(&["a", "b", "c"], id(which)), vec![num(1.0), num(2.0), num(3.0)])
    };
    assert_eq!(run(pick("a")).unwrap(), "1");
    assert_eq!(run(pick("b")).unwrap(), "2");
    assert_eq!(run(pick("c")).unwrap(), "3");
    assert_eq!(run(app(lam(&["a"], id("true")), vec![num(1.0)])).unwrap(), "true");
}
