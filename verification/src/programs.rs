//! What some programs evaluate to in the starting environment, for all
//! numbers in them.

use vstd::prelude::*;
use crate::ast::Expr;
use crate::env::{
    lemma_extend_binds_parameter,
    lemma_extend_keeps_other_names,
    lemma_top_env_lookup,
    lookup_spec,
    pairs,
    top_env_spec,
};
use crate::error::Failure;
use crate::prim::{lemma_operator_symbols, operator_spec, ArithOp, Numerics, PrimOp};
use crate::semantics::{
    eval,
    lemma_call_of_lambda,
    lemma_call_of_operator,
    lemma_conditional_takes_one_branch,
    lemma_eval_all_push,
};
use crate::value::{Env, Val};

verus! {

/// An operator applied to two operands gives what the arithmetic gives on
/// their numbers, whatever expressions the operands are: arithmetic composes
/// through nested calls.
pub proof fn lemma_operator_on_operands(
    num: Numerics,
    symbol: Seq<char>,
    x: Expr,
    y: Expr,
    env: Env,
    depth: nat,
    a: u64,
    b: u64,
)
    requires
        lookup_spec(env, symbol) == Ok::<Val, Failure>(Val::Prim(symbol)),
        eval(num, x, env, depth) == Ok::<Val, Failure>(Val::Num(a)),
        eval(num, y, env, depth) == Ok::<Val, Failure>(Val::Num(b)),
    ensures
        forall|op: ArithOp|
            operator_spec(symbol) == Some(PrimOp::Arith(op)) ==> eval(
                num,
                Expr::call(Expr::Id(symbol), seq![x, y]),
                env,
                depth,
            ) == Ok::<Val, Failure>(Val::Num((num.arith)(op, a, b))),
        operator_spec(symbol) == Some(PrimOp::Leq) ==> eval(
            num,
            Expr::call(Expr::Id(symbol), seq![x, y]),
            env,
            depth,
        ) == Ok::<Val, Failure>(Val::Bool((num.leq)(a, b))),
{
    let operands = Seq::<Expr>::empty().push(x).push(y);
    let numbers = Seq::<Val>::empty().push(Val::Num(a)).push(Val::Num(b));
    assert(operands =~= seq![x, y]);
    lemma_eval_all_push(num, Seq::empty(), x, env, depth);
    lemma_eval_all_push(num, Seq::empty().push(x), y, env, depth);
    lemma_call_of_operator(num, Expr::Id(symbol), operands, env, depth, symbol, numbers);
}

/// In the starting environment, arithmetic on the result of arithmetic:
/// `(* (- a b) c)` is `(a - b) * c`, the inner call first.
pub proof fn lemma_nested_arithmetic(num: Numerics, a: u64, b: u64, c: u64, depth: nat)
    ensures
        eval(
            num,
            Expr::call(
                Expr::Id("*"@),
                seq![
                    Expr::call(Expr::Id("-"@), seq![Expr::Num(a), Expr::Num(b)]),
                    Expr::Num(c),
                ],
            ),
            top_env_spec(),
            depth,
        ) == Ok::<Val, Failure>(
            Val::Num((num.arith)(ArithOp::Mul, (num.arith)(ArithOp::Sub, a, b), c)),
        ),
{
    let env = top_env_spec();
    let difference = Expr::call(Expr::Id("-"@), seq![Expr::Num(a), Expr::Num(b)]);
    lemma_top_env_lookup();
    lemma_operator_symbols();
    lemma_operator_on_operands(num, "-"@, Expr::Num(a), Expr::Num(b), env, depth, a, b);
    lemma_operator_on_operands(
        num,
        "*"@,
        difference,
        Expr::Num(c),
        env,
        depth,
        (num.arith)(ArithOp::Sub, a, b),
        c,
    );
}

/// In the starting environment, a comparison as the condition of a
/// conditional: `(if (<= a b) t e)` is `t` where `a` is at most `b`, and `e`
/// where it is not.
pub proof fn lemma_comparison_in_conditional(
    num: Numerics,
    a: u64,
    b: u64,
    then_: Expr,
    else_: Expr,
    depth: nat,
)
    ensures
        (num.leq)(a, b) ==> eval(
            num,
            Expr::cond(
                Expr::call(Expr::Id("<="@), seq![Expr::Num(a), Expr::Num(b)]),
                then_,
                else_,
            ),
            top_env_spec(),
            depth,
        ) == eval(num, then_, top_env_spec(), depth),
        !(num.leq)(a, b) ==> eval(
            num,
            Expr::cond(
                Expr::call(Expr::Id("<="@), seq![Expr::Num(a), Expr::Num(b)]),
                then_,
                else_,
            ),
            top_env_spec(),
            depth,
        ) == eval(num, else_, top_env_spec(), depth),
{
    let env = top_env_spec();
    let test = Expr::call(Expr::Id("<="@), seq![Expr::Num(a), Expr::Num(b)]);
    lemma_top_env_lookup();
    lemma_operator_symbols();
    lemma_operator_on_operands(num, "<="@, Expr::Num(a), Expr::Num(b), env, depth, a, b);
    lemma_conditional_takes_one_branch(num, test, then_, else_, env, depth);
}

/// In the starting environment, the function of `x` that adds `x` to a number,
/// called on a number, gives their sum: `((lambda (x) (+ k x)) n)` is `k + n`.
pub proof fn lemma_adding_function(num: Numerics, x: Seq<char>, k: u64, n: u64, depth: nat)
    requires
        x != "+"@,
        depth > 0,
    ensures
        eval(
            num,
            Expr::call(
                Expr::lambda(
                    seq![x],
                    Expr::call(Expr::Id("+"@), seq![Expr::Num(k), Expr::Id(x)]),
                ),
                seq![Expr::Num(n)],
            ),
            top_env_spec(),
            depth,
        ) == Ok::<Val, Failure>(Val::Num((num.arith)(ArithOp::Add, k, n))),
{
    let body = Expr::call(Expr::Id("+"@), seq![Expr::Num(k), Expr::Id(x)]);
    let params = seq![x];
    let values = seq![Val::Num(n)];
    let inner = top_env_spec() + pairs(params, values);
    let less = (depth - 1) as nat;
    lemma_top_env_lookup();
    lemma_operator_symbols();
    lemma_extend_keeps_other_names(params, values, top_env_spec(), "+"@);
    lemma_extend_binds_parameter(params, values, top_env_spec(), 0);
    lemma_operator_on_operands(num, "+"@, Expr::Num(k), Expr::Id(x), inner, less, k, n);
    lemma_eval_all_push(num, Seq::empty(), Expr::Num(n), top_env_spec(), depth);
    assert(Seq::<Expr>::empty().push(Expr::Num(n)) =~= seq![Expr::Num(n)]);
    assert(Seq::<Val>::empty().push(Val::Num(n)) =~= values);
    lemma_call_of_lambda(num, params, body, seq![Expr::Num(n)], top_env_spec(), depth, values);
}

} // verus!
