//! What evaluation means: the value or failure that an expression gives in an
//! environment, as a mathematical function, and what each construct of the
//! language comes to.

use vstd::prelude::*;
use crate::ast::Expr;
use crate::env::{extend_spec, lookup_spec, pairs};
use crate::error::{Failure, Outcome};
use crate::prim::{prim_spec, Numerics};
use crate::serialize::rendering;
use crate::value::{Env, Val};

verus! {

/// What evaluating `expr` in `env` gives, with the arithmetic `num` and with
/// function calls nested at most `depth` deep.
pub open spec fn eval(num: Numerics, expr: Expr, env: Env, depth: nat) -> Outcome
    decreases depth, 1nat, expr,
{
    match expr {
        Expr::Num(n) => Ok(Val::Num(n)),
        Expr::Id(name) => lookup_spec(env, name),
        Expr::Str(s) => Ok(Val::Str(s)),
        Expr::Lam { params, body } => Ok(Val::Clo { params, body, env }),
        Expr::If { cond, then_, else_ } => match eval(num, *cond, env, depth) {
            Ok(Val::Bool(true)) => eval(num, *then_, env, depth),
            Ok(Val::Bool(false)) => eval(num, *else_, env, depth),
            Ok(other) => Err(Failure::NotBoolean(other)),
            Err(e) => Err(e),
        },
        Expr::App { fun, args } => match eval(num, *fun, env, depth) {
            Err(e) => Err(e),
            Ok(callee) => match eval_all(num, args, env, depth) {
                Err(e) => Err(e),
                Ok(values) => apply(num, callee, values, depth),
            },
        },
    }
}

/// What evaluating `args` in `env` from left to right gives: their values, or
/// the failure of the first that fails.
pub open spec fn eval_all(num: Numerics, args: Seq<Expr>, env: Env, depth: nat) -> Result<
    Seq<Val>,
    Failure,
>
    decreases depth, 1nat, args,
{
    if args.len() == 0 {
        Ok(Seq::empty())
    } else {
        match eval_all(num, args.drop_last(), env, depth) {
            Err(e) => Err(e),
            Ok(values) => match eval(num, args.last(), env, depth) {
                Err(e) => Err(e),
                Ok(v) => Ok(values.push(v)),
            },
        }
    }
}

/// What calling `callee` on `args` gives, with `depth` nested calls still
/// allowed.
///
/// A function's body runs in the environment that the function captured,
/// extended by its parameters. No other environment plays a part.
pub open spec fn apply(num: Numerics, callee: Val, args: Seq<Val>, depth: nat) -> Outcome
    decreases depth, 0nat,
{
    match callee {
        Val::Prim(symbol) => Ok(prim_spec(num, symbol, args)),
        Val::Clo { params, body, env } => match extend_spec(params, args, env) {
            Err(e) => Err(e),
            Ok(inner) => if depth == 0 {
                Err(Failure::DepthExceeded)
            } else {
                eval(num, *body, inner, (depth - 1) as nat)
            },
        },
        other => Err(Failure::NotCallable(other)),
    }
}

/// A number literal evaluates to its number and a string literal to its
/// string, in every environment and at every depth. Rendered, the number is
/// what `render` makes of it and the string is itself.
pub proof fn lemma_literals<R: Fn(u64) -> String>(
    num: Numerics,
    render: R,
    n: u64,
    s: Seq<char>,
    env: Env,
    depth: nat,
    out: String,
)
    ensures
        eval(num, Expr::Num(n), env, depth) == Ok::<Val, Failure>(Val::Num(n)),
        eval(num, Expr::Str(s), env, depth) == Ok::<Val, Failure>(Val::Str(s)),
        rendering(render, Val::Num(n), out) <==> render.ensures((n,), out),
        rendering(render, Val::Str(s), out) <==> out@ == s,
{
}

/// A name evaluates to what the environment binds it to.
pub proof fn lemma_identifier(num: Numerics, name: Seq<char>, env: Env, depth: nat)
    ensures
        eval(num, Expr::Id(name), env, depth) == lookup_spec(env, name),
{
}

/// A conditional whose condition is true is its first branch and one whose
/// condition is false is its second: the other branch plays no part, whatever
/// it is and whatever would come of it.
pub proof fn lemma_conditional_takes_one_branch(
    num: Numerics,
    cond: Expr,
    then_: Expr,
    else_: Expr,
    env: Env,
    depth: nat,
)
    ensures
        eval(num, cond, env, depth) == Ok::<Val, Failure>(Val::Bool(true)) ==> eval(
            num,
            Expr::cond(cond, then_, else_),
            env,
            depth,
        ) == eval(num, then_, env, depth),
        eval(num, cond, env, depth) == Ok::<Val, Failure>(Val::Bool(false)) ==> eval(
            num,
            Expr::cond(cond, then_, else_),
            env,
            depth,
        ) == eval(num, else_, env, depth),
{
}

/// A conditional fails where its condition fails or is no truth value, and
/// then neither branch plays a part.
pub proof fn lemma_conditional_needs_a_boolean(
    num: Numerics,
    cond: Expr,
    then_: Expr,
    else_: Expr,
    env: Env,
    depth: nat,
)
    ensures
        eval(num, cond, env, depth) is Err ==> eval(
            num,
            Expr::cond(cond, then_, else_),
            env,
            depth,
        ) == eval(num, cond, env, depth),
        eval(num, cond, env, depth) is Ok && !(eval(num, cond, env, depth)->Ok_0 is Bool) ==> eval(
            num,
            Expr::cond(cond, then_, else_),
            env,
            depth,
        ) == Err::<Val, Failure>(Failure::NotBoolean(eval(num, cond, env, depth)->Ok_0)),
{
}

/// A function is closed over the environment in which it is written down.
pub proof fn lemma_lambda_captures_its_environment(
    num: Numerics,
    params: Seq<Seq<char>>,
    body: Expr,
    env: Env,
    depth: nat,
)
    ensures
        eval(num, Expr::lambda(params, body), env, depth) == Ok::<Val, Failure>(
            Val::closure(params, body, env),
        ),
{
}

/// The values of an argument list are as many as the arguments.
pub proof fn lemma_eval_all_len(num: Numerics, args: Seq<Expr>, env: Env, depth: nat)
    ensures
        eval_all(num, args, env, depth) matches Ok(values) ==> values.len() == args.len(),
    decreases args.len(),
{
    if args.len() > 0 {
        lemma_eval_all_len(num, args.drop_last(), env, depth);
    }
}

/// Arguments are evaluated from left to right: a list with one more argument
/// fails as the list failed; where the list gave its values, it fails as the
/// new argument fails or gives the values and the new argument's value.
pub proof fn lemma_eval_all_push(num: Numerics, args: Seq<Expr>, arg: Expr, env: Env, depth: nat)
    ensures
        eval_all(num, Seq::empty(), env, depth) == Ok::<Seq<Val>, Failure>(Seq::empty()),
        eval_all(num, args, env, depth) is Err ==> eval_all(num, args.push(arg), env, depth)
            == eval_all(num, args, env, depth),
        eval_all(num, args, env, depth) is Ok && eval(num, arg, env, depth) is Err ==> eval_all(
            num,
            args.push(arg),
            env,
            depth,
        ) == Err::<Seq<Val>, Failure>(eval(num, arg, env, depth)->Err_0),
        eval_all(num, args, env, depth) is Ok && eval(num, arg, env, depth) is Ok ==> eval_all(
            num,
            args.push(arg),
            env,
            depth,
        ) == Ok::<Seq<Val>, Failure>(
            eval_all(num, args, env, depth)->Ok_0.push(eval(num, arg, env, depth)->Ok_0),
        ),
{
    assert(args.push(arg).drop_last() =~= args);
}

/// Once an argument has failed, the list has: the same failure comes out of
/// every longer list that starts with these arguments.
pub proof fn lemma_args_failure_stays(
    num: Numerics,
    args: Seq<Expr>,
    env: Env,
    depth: nat,
    n: int,
    e: Failure,
)
    requires
        0 <= n <= args.len(),
        eval_all(num, args.take(n), env, depth) == Err::<Seq<Val>, Failure>(e),
    ensures
        eval_all(num, args, env, depth) == Err::<Seq<Val>, Failure>(e),
    decreases args.len(),
{
    if n < args.len() {
        assert(args.drop_last().take(n) =~= args.take(n));
        lemma_args_failure_stays(num, args.drop_last(), env, depth, n, e);
    } else {
        assert(args.take(n) =~= args);
    }
}

/// Calling a built-in operator gives what the operator gives on the
/// arguments' values. It takes no nested call.
pub proof fn lemma_call_of_operator(
    num: Numerics,
    fun: Expr,
    args: Seq<Expr>,
    env: Env,
    depth: nat,
    symbol: Seq<char>,
    values: Seq<Val>,
)
    requires
        eval(num, fun, env, depth) == Ok::<Val, Failure>(Val::Prim(symbol)),
        eval_all(num, args, env, depth) == Ok::<Seq<Val>, Failure>(values),
    ensures
        eval(num, Expr::call(fun, args), env, depth) == Ok::<Val, Failure>(
            prim_spec(num, symbol, values),
        ),
{
    assert(apply(num, Val::Prim(symbol), values, depth) == Ok::<Val, Failure>(
        prim_spec(num, symbol, values),
    ));
}

/// Calling a function runs its body in the environment that the function
/// captured, extended by the parameters bound to the arguments' values. The
/// environment of the call serves to evaluate the function position and the
/// arguments, and nothing else.
pub proof fn lemma_call_runs_in_captured_environment(
    num: Numerics,
    fun: Expr,
    args: Seq<Expr>,
    site: Env,
    depth: nat,
    params: Seq<Seq<char>>,
    body: Expr,
    captured: Env,
    values: Seq<Val>,
)
    requires
        eval(num, fun, site, depth) == Ok::<Val, Failure>(
            Val::closure(params, body, captured),
        ),
        eval_all(num, args, site, depth) == Ok::<Seq<Val>, Failure>(values),
        params.len() == args.len(),
        depth > 0,
    ensures
        eval(num, Expr::call(fun, args), site, depth) == eval(
            num,
            body,
            captured + pairs(params, values),
            (depth - 1) as nat,
        ),
{
    lemma_eval_all_len(num, args, site, depth);
    assert(apply(
        num,
        Val::closure(params, body, captured),
        values,
        depth,
    ) == eval(num, body, captured + pairs(params, values), (depth - 1) as nat));
}

/// A function called where it is written down runs its body in the current
/// environment extended by its parameters.
pub proof fn lemma_call_of_lambda(
    num: Numerics,
    params: Seq<Seq<char>>,
    body: Expr,
    args: Seq<Expr>,
    env: Env,
    depth: nat,
    values: Seq<Val>,
)
    requires
        eval_all(num, args, env, depth) == Ok::<Seq<Val>, Failure>(values),
        params.len() == args.len(),
        depth > 0,
    ensures
        eval(num, Expr::call(Expr::lambda(params, body), args), env, depth) == eval(
            num,
            body,
            env + pairs(params, values),
            (depth - 1) as nat,
        ),
{
    lemma_call_runs_in_captured_environment(
        num,
        Expr::lambda(params, body),
        args,
        env,
        depth,
        params,
        body,
        env,
        values,
    );
}

/// A call with another number of arguments than the function has parameters
/// fails: nothing is cut off or filled in. Where the arguments themselves
/// evaluate, the failure tells both numbers.
pub proof fn lemma_arity_mismatch_fails(
    num: Numerics,
    fun: Expr,
    args: Seq<Expr>,
    env: Env,
    depth: nat,
    params: Seq<Seq<char>>,
    body: Expr,
    captured: Env,
)
    requires
        eval(num, fun, env, depth) == Ok::<Val, Failure>(Val::closure(params, body, captured)),
        params.len() != args.len(),
    ensures
        eval(num, Expr::call(fun, args), env, depth) is Err,
        eval_all(num, args, env, depth) is Ok ==> eval(num, Expr::call(fun, args), env, depth)
            == Err::<Val, Failure>(Failure::Arity { expected: params.len(), found: args.len() }),
{
    lemma_eval_all_len(num, args, env, depth);
    if eval_all(num, args, env, depth) is Ok {
        let values = eval_all(num, args, env, depth)->Ok_0;
        assert(apply(num, Val::closure(params, body, captured), values, depth) == Err::<
            Val,
            Failure,
        >(Failure::Arity { expected: params.len(), found: args.len() }));
    }
}

/// What is neither a function nor a built-in operator cannot be called.
pub proof fn lemma_only_functions_are_callable(
    num: Numerics,
    callee: Val,
    args: Seq<Val>,
    depth: nat,
)
    requires
        !(callee is Clo),
        !(callee is Prim),
    ensures
        apply(num, callee, args, depth) == Err::<Val, Failure>(Failure::NotCallable(callee)),
{
}

} // verus!
