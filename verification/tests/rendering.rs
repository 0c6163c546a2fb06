use sheq::{
    run, serialize, AppC, ArithOp, BoolV, CloV, ExprC, IdC, IfC, InterpError, LamC, NumC, NumV,
    PrimV, StringC, StringV, Value,
};

const DEPTH: usize = 64;

fn arith(op: ArithOp, a: u64, b: u64) -> u64 {
    let x = f64::from_bits(a);
    let y = f64::from_bits(b);
    let z = match op {
        ArithOp::Add => x + y,
        ArithOp::Sub => x - y,
        ArithOp::Mul => x * y,
        ArithOp::Div => x / y,
    };
    z.to_bits()
}

fn leq(a: u64, b: u64) -> bool {
    f64::from_bits(a) <= f64::from_bits(b)
}

fn render(a: u64) -> String {
    f64::from_bits(a).to_string()
}

fn number(x: f64) -> Value {
    Value::NumV(NumV { n: x.to_bits() })
}

fn num(x: f64) -> ExprC {
    ExprC::NumC(NumC { n: x.to_bits() })
}

fn id(name: &str) -> ExprC {
    ExprC::IdC(IdC { name: name.to_string() })
}

#[test]
fn numbers_render_in_decimal() {
    assert_eq!(serialize(number(10.0), &render), "10");
    assert_eq!(serialize(number(16.0), &render), "16");
    assert_eq!(serialize(number(3.5), &render), "3.5");
    assert_eq!(serialize(number(-0.25), &render), "-0.25");
    assert_eq!(serialize(number(0.0), &render), "0");
    assert_eq!(serialize(number(-0.0), &render), "-0");
    assert_eq!(serialize(number(1e21), &render), "1000000000000000000000");
    assert_eq!(serialize(number(f64::INFINITY), &render), "inf");
    assert_eq!(serialize(number(f64::NAN), &render), "NaN");
}

#[test]
fn number_rendering_is_the_callers() {
    let hex = |n: u64| format!("{:x}", n);
    assert_eq!(serialize(Value::NumV(NumV { n: 255 }), &hex), "ff");
    assert_eq!(serialize(Value::BoolV(BoolV { b: true }), &hex), "true");
}

#[test]
fn booleans_render_as_words() {
    assert_eq!(serialize(Value::BoolV(BoolV { b: true }), &render), "true");
    assert_eq!(serialize(Value::BoolV(BoolV { b: false }), &render), "false");
}

#[test]
fn strings_render_raw() {
    for s in ["", "Hello world!", "with \"quotes\"", "line\nbreak", "#<primop>", "10"] {
        assert_eq!(serialize(Value::StringV(StringV { s: s.to_string() }), &render), s);
    }
}

#[test]
fn closures_render_as_a_fixed_tag() {
    let small = Value::CloV(CloV {
        params: Vec::new(),
        body: Box::new(num(0.0)),
        env: Vec::new(),
    });
    let large = Value::CloV(CloV {
        params: vec!["a".to_string(), "b".to_string()],
        body: Box::new(ExprC::IfC(IfC {
            condition: Box::new(id("a")),
            then_: Box::new(ExprC::StringC(StringC { s: "#<primop>".to_string() })),
            else_: Box::new(ExprC::AppC(AppC { fun: Box::new(id("b")), args: vec![num(1.0)] })),
        })),
        env: vec![
            ("x".to_string(), number(1.0)),
            ("f".to_string(), Value::PrimV(PrimV { s: "+".to_string() })),
        ],
    });
    assert_eq!(serialize(small, &render), "#<procedure>");
    assert_eq!(serialize(large, &render), "#<procedure>");
}

#[test]
fn operators_render_as_a_fixed_tag() {
    for s in ["+", "<=", "strlen", "", "no such operator", "#<procedure>"] {
        assert_eq!(serialize(Value::PrimV(PrimV { s: s.to_string() }), &render), "#<primop>");
    }
}

#[test]
fn run_evaluates_and_renders() {
    let sum = ExprC::AppC(AppC { fun: Box::new(id("+")), args: vec![num(1.0), num(15.0)] });
    assert_eq!(run(sum, &arith, &leq, &render, DEPTH).unwrap(), "16");
    assert_eq!(run(num(10.0), &arith, &leq, &render, DEPTH).unwrap(), "10");
    assert_eq!(run(id("<="), &arith, &leq, &render, DEPTH).unwrap(), "#<primop>");
    let f = ExprC::LamC(LamC { args: vec!["x".to_string()], body: Box::new(id("x")) });
    assert_eq!(run(f, &arith, &leq, &render, DEPTH).unwrap(), "#<procedure>");
}

#[test]
fn run_hands_failures_on() {
    match run(id("missing"), &arith, &leq, &render, DEPTH) {
        Err(InterpError::UnboundIdentifier { name }) => assert_eq!(name, "missing"),
        other => panic!("expected an unbound identifier, got {:?}", other),
    }
}

#[test]
fn clone_of_an_expression_is_the_same_expression() {
    let program = ExprC::AppC(AppC {
        fun: Box::new(ExprC::LamC(LamC {
            args: vec!["x".to_string(), "y".to_string()],
            body: Box::new(ExprC::IfC(IfC {
                condition: Box::new(ExprC::AppC(AppC {
                    fun: Box::new(id("<=")),
                    args: vec![id("x"), id("y")],
                })),
                then_: Box::new(ExprC::StringC(StringC { s: "small".to_string() })),
                else_: Box::new(num(2.5)),
            })),
        })),
        args: vec![num(1.0), num(2.0)],
    });
    let copy = program.clone();
    assert_eq!(format!("{:?}", copy), format!("{:?}", program));
    assert_eq!(run(copy, &arith, &leq, &render, DEPTH).unwrap(), "small");
    assert_eq!(run(program, &arith, &leq, &render, DEPTH).unwrap(), "small");
}

#[test]
fn clone_of_a_value_is_the_same_value() {
    let closure = Value::CloV(CloV {
        params: vec!["p".to_string()],
        body: Box::new(id("p")),
        env: vec![
            ("n".to_string(), number(1.5)),
            ("s".to_string(), Value::StringV(StringV { s: "text".to_string() })),
            ("b".to_string(), Value::BoolV(BoolV { b: false })),
            ("op".to_string(), Value::PrimV(PrimV { s: "*".to_string() })),
            (
                "inner".to_string(),
                Value::CloV(CloV {
                    params: Vec::new(),
                    body: Box::new(num(0.0)),
                    env: vec![("deep".to_string(), number(9.0))],
                }),
            ),
        ],
    });
    let copy = closure.clone();
    assert_eq!(format!("{:?}", copy), format!("{:?}", closure));
}
