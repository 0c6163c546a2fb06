//! The built-in operators.
//!
//! The library decides which operator a symbol names and whether the
//! arguments have the shape that the operator takes. The arithmetic itself is
//! done on doubles by two functions that the caller hands in: one for the four
//! arithmetic operators, one for the comparison.
//!
//! Contracts speak of the two functions in two ways. A `Behaviour` is what
//! they may return, as their own contracts have it; it asks nothing of them.
//! A `Numerics` is an arithmetic, a function of the operands; it describes
//! the two functions where whatever they return is what it gives.

use vstd::prelude::*;
use vstd::string::StrSliceExecFns;
use crate::value::{values_model, BoolV, NumV, StringV, Val, Value};

verus! {

/// One of the four arithmetic operators.
#[derive(Debug, Clone, Copy, PartialEq, Eq, Structural)]
pub enum ArithOp {
    Add,
    Sub,
    Mul,
    Div,
}

/// A built-in operator that does something.
#[derive(Debug, Clone, Copy, PartialEq, Eq, Structural)]
pub enum PrimOp {
    Arith(ArithOp),
    Leq,
}

/// The operator that a symbol names, if it names one that does something.
pub open spec fn operator_spec(symbol: Seq<char>) -> Option<PrimOp> {
    if symbol == "+"@ {
        Some(PrimOp::Arith(ArithOp::Add))
    } else if symbol == "-"@ {
        Some(PrimOp::Arith(ArithOp::Sub))
    } else if symbol == "*"@ {
        Some(PrimOp::Arith(ArithOp::Mul))
    } else if symbol == "/"@ {
        Some(PrimOp::Arith(ArithOp::Div))
    } else if symbol == "<="@ {
        Some(PrimOp::Leq)
    } else {
        None
    }
}

/// The five symbols name the five operators, and the reserved names name
/// none.
pub proof fn lemma_operator_symbols()
    ensures
        operator_spec("+"@) == Some(PrimOp::Arith(ArithOp::Add)),
        operator_spec("-"@) == Some(PrimOp::Arith(ArithOp::Sub)),
        operator_spec("*"@) == Some(PrimOp::Arith(ArithOp::Mul)),
        operator_spec("/"@) == Some(PrimOp::Arith(ArithOp::Div)),
        operator_spec("<="@) == Some(PrimOp::Leq),
        operator_spec("substring"@) is None,
        operator_spec("strlen"@) is None,
        operator_spec("equal?"@) is None,
        operator_spec("error"@) is None,
{
    reveal_strlit("+");
    reveal_strlit("-");
    reveal_strlit("*");
    reveal_strlit("/");
    reveal_strlit("<=");
    reveal_strlit("substring");
    reveal_strlit("strlen");
    reveal_strlit("equal?");
    reveal_strlit("error");
    assert("+"@[0] != "-"@[0] && "+"@[0] != "*"@[0] && "+"@[0] != "/"@[0]);
    assert("-"@[0] != "*"@[0] && "-"@[0] != "/"@[0] && "*"@[0] != "/"@[0]);
    assert("<="@.len() == 2 && "substring"@.len() == 9 && "strlen"@.len() == 6);
    assert("equal?"@.len() == 6 && "error"@.len() == 5);
}

/// Reads an operator's symbol.
pub fn operator(symbol: &str) -> (r: Option<PrimOp>)
    ensures
        r == operator_spec(symbol@),
{
    proof {
        reveal_strlit("+");
        reveal_strlit("-");
        reveal_strlit("*");
        reveal_strlit("/");
        reveal_strlit("<=");
    }
    let n: usize = symbol.unicode_len();
    if n == 1 {
        let c: char = symbol.get_char(0);
        if c == '+' {
            assert(symbol@ =~= "+"@);
            Some(PrimOp::Arith(ArithOp::Add))
        } else if c == '-' {
            assert(symbol@ =~= "-"@);
            Some(PrimOp::Arith(ArithOp::Sub))
        } else if c == '*' {
            assert(symbol@ =~= "*"@);
            Some(PrimOp::Arith(ArithOp::Mul))
        } else if c == '/' {
            assert(symbol@ =~= "/"@);
            Some(PrimOp::Arith(ArithOp::Div))
        } else {
            None
        }
    } else if n == 2 {
        if symbol.get_char(0) == '<' && symbol.get_char(1) == '=' {
            assert(symbol@ =~= "<="@);
            Some(PrimOp::Leq)
        } else {
            None
        }
    } else {
        None
    }
}

/// What the call of an operator comes to, before any arithmetic is done.
#[derive(Debug, Clone, Copy, PartialEq, Eq, Structural)]
pub enum PrimCall {
    /// One of the four arithmetic operators on two numbers.
    Arith(ArithOp, u64, u64),
    /// The comparison of two numbers.
    Leq(u64, u64),
    /// A call that no operator has a rule for.
    NotImplemented,
}

/// What the call of the operator named `symbol` on `args` comes to: the
/// operator on two numbers where the symbol names one and `args` holds exactly
/// two numbers; no rule in every other case.
pub open spec fn prim_call_spec(symbol: Seq<char>, args: Seq<Val>) -> PrimCall {
    if args.len() == 2 && args[0] is Num && args[1] is Num {
        match operator_spec(symbol) {
            Some(PrimOp::Arith(op)) => PrimCall::Arith(op, args[0]->Num_0, args[1]->Num_0),
            Some(PrimOp::Leq) => PrimCall::Leq(args[0]->Num_0, args[1]->Num_0),
            None => PrimCall::NotImplemented,
        }
    } else {
        PrimCall::NotImplemented
    }
}

/// Tells what the call of the operator named `op` on `args` comes to.
pub fn prim_call(op: &str, args: &Vec<Value>) -> (r: PrimCall)
    ensures
        r == prim_call_spec(op@, values_model(args@)),
{
    if args.len() != 2 {
        return PrimCall::NotImplemented;
    }
    match (&args[0], &args[1]) {
        (Value::NumV(a), Value::NumV(b)) => match operator(op) {
            Some(PrimOp::Arith(o)) => PrimCall::Arith(o, a.n, b.n),
            Some(PrimOp::Leq) => PrimCall::Leq(a.n, b.n),
            None => PrimCall::NotImplemented,
        },
        _ => PrimCall::NotImplemented,
    }
}

/// The string that an operator gives back where it has no rule for the call.
pub open spec fn not_implemented() -> Val {
    Val::Str("Not implemented"@)
}

/// Whether the two functions can be called on every input.
pub open spec fn total<A: Fn(ArithOp, u64, u64) -> u64, L: Fn(u64, u64) -> bool>(
    arith: A,
    leq: L,
) -> bool {
    &&& forall|op: ArithOp, a: u64, b: u64| arith.requires((op, a, b))
    &&& forall|a: u64, b: u64| leq.requires((a, b))
}

/// What the two functions may return: for each, whether a result can come
/// back on given operands.
pub struct Behaviour {
    pub arith: spec_fn(ArithOp, u64, u64, u64) -> bool,
    pub leq: spec_fn(u64, u64, bool) -> bool,
}

/// What `arith` and `leq` may return, as their contracts have it.
pub open spec fn behaviour_of<A: Fn(ArithOp, u64, u64) -> u64, L: Fn(u64, u64) -> bool>(
    arith: A,
    leq: L,
) -> Behaviour {
    Behaviour {
        arith: |op: ArithOp, a: u64, b: u64, r: u64| arith.ensures((op, a, b), r),
        leq: |a: u64, b: u64, r: bool| leq.ensures((a, b), r),
    }
}

/// Arithmetic on doubles as mathematics sees it: what the four operators and
/// the comparison give on two bit patterns.
pub struct Numerics {
    pub arith: spec_fn(ArithOp, u64, u64) -> u64,
    pub leq: spec_fn(u64, u64) -> bool,
}

impl Numerics {
    /// Whether functions that behave as `how` compute this arithmetic:
    /// whatever either returns is what this arithmetic gives on the same
    /// operands.
    pub open spec fn describes(self, how: Behaviour) -> bool {
        &&& forall|op: ArithOp, a: u64, b: u64, r: u64| #[trigger]
            (how.arith)(op, a, b, r) ==> r == (self.arith)(op, a, b)
        &&& forall|a: u64, b: u64, r: bool| #[trigger]
            (how.leq)(a, b, r) ==> r == (self.leq)(a, b)
    }
}

/// Whether each of the two functions gives at most one result on each input.
pub open spec fn single_valued(how: Behaviour) -> bool {
    &&& forall|op: ArithOp, a: u64, b: u64, r1: u64, r2: u64|
        #![trigger (how.arith)(op, a, b, r1), (how.arith)(op, a, b, r2)]
        (how.arith)(op, a, b, r1) && (how.arith)(op, a, b, r2) ==> r1 == r2
    &&& forall|a: u64, b: u64, r1: bool, r2: bool|
        #![trigger (how.leq)(a, b, r1), (how.leq)(a, b, r2)]
        (how.leq)(a, b, r1) && (how.leq)(a, b, r2) ==> r1 == r2
}

/// An arithmetic that gives, on each input, a result that the functions can
/// return on it, where there is one.
pub open spec fn arithmetic_of(how: Behaviour) -> Numerics {
    Numerics {
        arith: |op: ArithOp, a: u64, b: u64| choose|r: u64| #[trigger] (how.arith)(op, a, b, r),
        leq: |a: u64, b: u64| choose|r: bool| #[trigger] (how.leq)(a, b, r),
    }
}

/// Two functions that give at most one result on each input compute an
/// arithmetic.
pub proof fn lemma_single_valued_is_described(how: Behaviour)
    requires
        single_valued(how),
    ensures
        arithmetic_of(how).describes(how),
{
}

/// What the operator named `symbol` gives on `args`: the result of the
/// arithmetic on two numbers, for an operator that takes them; the string of
/// `not_implemented` in every other case.
pub open spec fn prim_spec(num: Numerics, symbol: Seq<char>, args: Seq<Val>) -> Val {
    match prim_call_spec(symbol, args) {
        PrimCall::Arith(op, a, b) => Val::Num((num.arith)(op, a, b)),
        PrimCall::Leq(a, b) => Val::Bool((num.leq)(a, b)),
        PrimCall::NotImplemented => not_implemented(),
    }
}

/// Whether `out` can come out of applying the operator named `symbol` to
/// `args`: what `arith` or `leq` returned on two numbers, for an operator that
/// takes them; the string of `not_implemented` in every other case.
pub open spec fn prim_result(how: Behaviour, symbol: Seq<char>, args: Seq<Val>, out: Val) -> bool {
    match prim_call_spec(symbol, args) {
        PrimCall::Arith(op, a, b) => out matches Val::Num(n) && (how.arith)(op, a, b, n),
        PrimCall::Leq(a, b) => out matches Val::Bool(t) && (how.leq)(a, b, t),
        PrimCall::NotImplemented => out == not_implemented(),
    }
}

/// Where the two functions compute the arithmetic `num`, whatever an operator
/// gives back is what `prim_spec` says.
pub proof fn lemma_prim_result_is_spec(
    num: Numerics,
    how: Behaviour,
    symbol: Seq<char>,
    args: Seq<Val>,
    out: Val,
)
    requires
        num.describes(how),
        prim_result(how, symbol, args, out),
    ensures
        out == prim_spec(num, symbol, args),
{
}

/// The string of `not_implemented`, as a value.
fn sentinel() -> (r: Value)
    ensures
        r@ == not_implemented(),
{
    Value::StringV(StringV { s: "Not implemented".to_owned() })
}

/// Applies the operator named `op` to `args`. `arith` does the arithmetic and
/// `leq` the comparison of numbers.
///
/// A call that no operator has a rule for is no failure: it gives the string
/// of `not_implemented`.
pub fn interp_prim<A: Fn(ArithOp, u64, u64) -> u64, L: Fn(u64, u64) -> bool>(
    op: &str,
    args: Vec<Value>,
    arith: &A,
    leq: &L,
) -> (r: Value)
    requires
        total(*arith, *leq),
    ensures
        prim_result(behaviour_of(*arith, *leq), op@, values_model(args@), r@),
{
    match prim_call(op, &args) {
        PrimCall::Arith(o, a, b) => Value::NumV(NumV { n: arith(o, a, b) }),
        PrimCall::Leq(a, b) => Value::BoolV(BoolV { b: leq(a, b) }),
        PrimCall::NotImplemented => sentinel(),
    }
}

} // verus!
