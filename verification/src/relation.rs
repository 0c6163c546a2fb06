//! What can come out of an evaluation, whatever the functions that do the
//! arithmetic return.
//!
//! The relation of this module follows `semantics::eval` case by case, with
//! the results of arithmetic left to what the two functions may return. It
//! asks nothing of them and holds of the outcome of every run. Where they
//! compute an arithmetic, the one outcome is what `eval` gives with it.

use vstd::prelude::*;
use crate::ast::Expr;
use crate::env::{extend_spec, lookup_spec, pairs};
use crate::error::{Failure, Outcome};
use crate::prim::{lemma_prim_result_is_spec, prim_result, Behaviour, Numerics};
use crate::semantics::{apply, eval, eval_all};
use crate::value::{Env, Val};

verus! {

/// Holds of every outcome. The relation names each intermediate outcome
/// through it, which gives proofs a term to find that outcome by.
pub open spec fn reached(o: Outcome) -> bool {
    true
}

/// Holds of every outcome of an argument list, as `reached` of an outcome.
pub open spec fn reached_all(o: Result<Seq<Val>, Failure>) -> bool {
    true
}

/// Whether `out` can come out of evaluating `expr` in `env`, with function
/// calls nested at most `depth` deep.
pub open spec fn evaluates(
    how: Behaviour,
    expr: Expr,
    env: Env,
    depth: nat,
    out: Outcome,
) -> bool
    decreases depth, 1nat, expr,
{
    match expr {
        Expr::Num(n) => out == Ok::<Val, Failure>(Val::Num(n)),
        Expr::Id(name) => out == lookup_spec(env, name),
        Expr::Str(s) => out == Ok::<Val, Failure>(Val::Str(s)),
        Expr::Lam { params, body } => out == Ok::<Val, Failure>(Val::Clo { params, body, env }),
        Expr::If { cond, then_, else_ } => exists|c: Outcome|
            #[trigger] reached(c) && evaluates(how, *cond, env, depth, c) && match c {
                Ok(Val::Bool(true)) => evaluates(how, *then_, env, depth, out),
                Ok(Val::Bool(false)) => evaluates(how, *else_, env, depth, out),
                Ok(other) => out == Err::<Val, Failure>(Failure::NotBoolean(other)),
                Err(e) => out == Err::<Val, Failure>(e),
            },
        Expr::App { fun, args } => exists|f: Outcome|
            #[trigger] reached(f) && evaluates(how, *fun, env, depth, f) && match f {
                Err(e) => out == Err::<Val, Failure>(e),
                Ok(callee) => exists|a: Result<Seq<Val>, Failure>|
                    #[trigger] reached_all(a) && evaluates_all(how, args, env, depth, a)
                        && match a {
                        Err(e) => out == Err::<Val, Failure>(e),
                        Ok(values) => applies(how, callee, values, depth, out),
                    },
            },
    }
}

/// Whether `out` can come out of evaluating `args` in `env` from left to
/// right: their values, or the failure of the first that fails.
pub open spec fn evaluates_all(
    how: Behaviour,
    args: Seq<Expr>,
    env: Env,
    depth: nat,
    out: Result<Seq<Val>, Failure>,
) -> bool
    decreases depth, 1nat, args,
{
    if args.len() == 0 {
        out == Ok::<Seq<Val>, Failure>(Seq::empty())
    } else {
        exists|before: Result<Seq<Val>, Failure>|
            #[trigger] reached_all(before) && evaluates_all(
                how,
                args.drop_last(),
                env,
                depth,
                before,
            ) && match before {
                Err(e) => out == Err::<Seq<Val>, Failure>(e),
                Ok(values) => exists|x: Outcome|
                    #[trigger] reached(x) && evaluates(how, args.last(), env, depth, x)
                        && match x {
                        Err(e) => out == Err::<Seq<Val>, Failure>(e),
                        Ok(v) => out == Ok::<Seq<Val>, Failure>(values.push(v)),
                    },
            }
    }
}

/// Whether `out` can come out of calling `callee` on `args`, with `depth`
/// nested calls still allowed.
pub open spec fn applies(
    how: Behaviour,
    callee: Val,
    args: Seq<Val>,
    depth: nat,
    out: Outcome,
) -> bool
    decreases depth, 0nat,
{
    match callee {
        Val::Prim(symbol) => out matches Ok(v) && prim_result(how, symbol, args, v),
        Val::Clo { params, body, env } => match extend_spec(params, args, env) {
            Err(e) => out == Err::<Val, Failure>(e),
            Ok(inner) => if depth == 0 {
                out == Err::<Val, Failure>(Failure::DepthExceeded)
            } else {
                evaluates(how, *body, inner, (depth - 1) as nat, out)
            },
        },
        other => out == Err::<Val, Failure>(Failure::NotCallable(other)),
    }
}

/// A literal, a name and a function each have one outcome, whatever the
/// arithmetic: the literal itself, what the environment binds the name to,
/// and the function closed over the environment.
pub proof fn lemma_outcome_of_atom(
    how: Behaviour,
    n: u64,
    s: Seq<char>,
    name: Seq<char>,
    params: Seq<Seq<char>>,
    body: Expr,
    env: Env,
    depth: nat,
    out: Outcome,
)
    ensures
        evaluates(how, Expr::Num(n), env, depth, out) <==> out == Ok::<Val, Failure>(Val::Num(n)),
        evaluates(how, Expr::Str(s), env, depth, out) <==> out == Ok::<Val, Failure>(Val::Str(s)),
        evaluates(how, Expr::Id(name), env, depth, out) <==> out == lookup_spec(env, name),
        evaluates(how, Expr::lambda(params, body), env, depth, out) <==> out == Ok::<Val, Failure>(
            Val::closure(params, body, env),
        ),
{
}

/// The branch that a condition picks: the first where it is true, the second
/// where it is false.
pub open spec fn chosen(truth: bool, then_: Expr, else_: Expr) -> Expr {
    if truth {
        then_
    } else {
        else_
    }
}

/// Whether `only` is the one outcome that evaluating `expr` can have.
pub open spec fn only_outcome(
    how: Behaviour,
    expr: Expr,
    env: Env,
    depth: nat,
    only: Outcome,
) -> bool {
    forall|o: Outcome| #[trigger] reached(o) && evaluates(how, expr, env, depth, o) ==> o == only
}

/// A conditional whose condition can come out true can come out as its first
/// branch can, whatever the second branch is; and where the condition can
/// come out true only, it comes out in no other way. The same with false and
/// the second branch.
pub proof fn lemma_outcome_of_conditional(
    how: Behaviour,
    cond: Expr,
    then_: Expr,
    else_: Expr,
    env: Env,
    depth: nat,
    truth: bool,
    out: Outcome,
)
    requires
        evaluates(how, cond, env, depth, Ok(Val::Bool(truth))),
    ensures
        evaluates(how, chosen(truth, then_, else_), env, depth, out) ==> evaluates(
            how,
            Expr::cond(cond, then_, else_),
            env,
            depth,
            out,
        ),
        only_outcome(how, cond, env, depth, Ok(Val::Bool(truth))) && evaluates(
            how,
            Expr::cond(cond, then_, else_),
            env,
            depth,
            out,
        ) ==> evaluates(how, chosen(truth, then_, else_), env, depth, out),
{
    let whole = Expr::cond(cond, then_, else_);
    assert(reached(Ok::<Val, Failure>(Val::Bool(truth))));
    if only_outcome(how, cond, env, depth, Ok(Val::Bool(truth))) && evaluates(
        how,
        whole,
        env,
        depth,
        out,
    ) {
        let c: Outcome = choose|c: Outcome|
            #[trigger] reached(c) && evaluates(how, cond, env, depth, c) && match c {
                Ok(Val::Bool(true)) => evaluates(how, then_, env, depth, out),
                Ok(Val::Bool(false)) => evaluates(how, else_, env, depth, out),
                Ok(other) => out == Err::<Val, Failure>(Failure::NotBoolean(other)),
                Err(e) => out == Err::<Val, Failure>(e),
            };
        assert(reached(c));
    }
}

/// A call of a function comes out as its body does in the environment that
/// the function captured, extended by the parameters. With another number of
/// arguments than parameters it fails and tells both numbers; with no nested
/// call left it fails for that.
pub proof fn lemma_outcome_of_call(
    how: Behaviour,
    params: Seq<Seq<char>>,
    body: Expr,
    captured: Env,
    args: Seq<Val>,
    depth: nat,
    out: Outcome,
)
    ensures
        params.len() != args.len() ==> (applies(
            how,
            Val::closure(params, body, captured),
            args,
            depth,
            out,
        ) <==> out == Err::<Val, Failure>(
            Failure::Arity { expected: params.len(), found: args.len() },
        )),
        params.len() == args.len() && depth == 0 ==> (applies(
            how,
            Val::closure(params, body, captured),
            args,
            depth,
            out,
        ) <==> out == Err::<Val, Failure>(Failure::DepthExceeded)),
        params.len() == args.len() && depth > 0 ==> (applies(
            how,
            Val::closure(params, body, captured),
            args,
            depth,
            out,
        ) <==> evaluates(how, body, captured + pairs(params, args), (depth - 1) as nat, out)),
{
}

/// Once an argument has failed, the list has: the same failure comes out of
/// every longer list that starts with these arguments.
pub proof fn lemma_failure_stays(
    how: Behaviour,
    args: Seq<Expr>,
    env: Env,
    depth: nat,
    n: int,
    e: Failure,
)
    requires
        0 <= n <= args.len(),
        evaluates_all(how, args.take(n), env, depth, Err(e)),
    ensures
        evaluates_all(how, args, env, depth, Err(e)),
    decreases args.len(),
{
    if n < args.len() {
        assert(args.drop_last().take(n) =~= args.take(n));
        lemma_failure_stays(how, args.drop_last(), env, depth, n, e);
        assert(reached_all(Err::<Seq<Val>, Failure>(e)));
    } else {
        assert(args.take(n) =~= args);
    }
}

/// Where the two functions compute the arithmetic `num`, the one outcome that
/// an evaluation can have is what `eval` gives with `num`.
pub proof fn lemma_evaluates_is_eval(
    num: Numerics,
    how: Behaviour,
    expr: Expr,
    env: Env,
    depth: nat,
    out: Outcome,
)
    requires
        num.describes(how),
        evaluates(how, expr, env, depth, out),
    ensures
        out == eval(num, expr, env, depth),
    decreases depth, 1nat, expr,
{
    match expr {
        Expr::If { cond, then_, else_ } => {
            let c: Outcome = choose|c: Outcome|
                #[trigger] reached(c) && evaluates(how, *cond, env, depth, c) && match c {
                    Ok(Val::Bool(true)) => evaluates(how, *then_, env, depth, out),
                    Ok(Val::Bool(false)) => evaluates(how, *else_, env, depth, out),
                    Ok(other) => out == Err::<Val, Failure>(Failure::NotBoolean(other)),
                    Err(e) => out == Err::<Val, Failure>(e),
                };
            lemma_evaluates_is_eval(num, how, *cond, env, depth, c);
            match c {
                Ok(Val::Bool(true)) => lemma_evaluates_is_eval(
                    num,
                    how,
                    *then_,
                    env,
                    depth,
                    out,
                ),
                Ok(Val::Bool(false)) => lemma_evaluates_is_eval(
                    num,
                    how,
                    *else_,
                    env,
                    depth,
                    out,
                ),
                _ => {},
            }
        },
        Expr::App { fun, args } => {
            let f: Outcome = choose|f: Outcome|
                #[trigger] reached(f) && evaluates(how, *fun, env, depth, f) && match f {
                    Err(e) => out == Err::<Val, Failure>(e),
                    Ok(callee) => exists|a: Result<Seq<Val>, Failure>|
                        #[trigger] reached_all(a) && evaluates_all(how, args, env, depth, a)
                            && match a {
                            Err(e) => out == Err::<Val, Failure>(e),
                            Ok(values) => applies(how, callee, values, depth, out),
                        },
                };
            lemma_evaluates_is_eval(num, how, *fun, env, depth, f);
            match f {
                Ok(callee) => {
                    let a: Result<Seq<Val>, Failure> = choose|a: Result<Seq<Val>, Failure>|
                        #[trigger] reached_all(a) && evaluates_all(how, args, env, depth, a)
                            && match a {
                            Err(e) => out == Err::<Val, Failure>(e),
                            Ok(values) => applies(how, callee, values, depth, out),
                        };
                    lemma_evaluates_all_is_eval_all(num, how, args, env, depth, a);
                    match a {
                        Ok(values) => lemma_applies_is_apply(
                            num,
                            how,
                            callee,
                            values,
                            depth,
                            out,
                        ),
                        _ => {},
                    }
                },
                _ => {},
            }
        },
        _ => {},
    }
}

/// The same of an argument list.
pub proof fn lemma_evaluates_all_is_eval_all(
    num: Numerics,
    how: Behaviour,
    args: Seq<Expr>,
    env: Env,
    depth: nat,
    out: Result<Seq<Val>, Failure>,
)
    requires
        num.describes(how),
        evaluates_all(how, args, env, depth, out),
    ensures
        out == eval_all(num, args, env, depth),
    decreases depth, 1nat, args,
{
    if args.len() > 0 {
        let before: Result<Seq<Val>, Failure> = choose|before: Result<Seq<Val>, Failure>|
            #[trigger] reached_all(before) && evaluates_all(
                how,
                args.drop_last(),
                env,
                depth,
                before,
            ) && match before {
                Err(e) => out == Err::<Seq<Val>, Failure>(e),
                Ok(values) => exists|x: Outcome|
                    #[trigger] reached(x) && evaluates(how, args.last(), env, depth, x)
                        && match x {
                        Err(e) => out == Err::<Seq<Val>, Failure>(e),
                        Ok(v) => out == Ok::<Seq<Val>, Failure>(values.push(v)),
                    },
            };
        lemma_evaluates_all_is_eval_all(num, how, args.drop_last(), env, depth, before);
        match before {
            Ok(values) => {
                let x: Outcome = choose|x: Outcome|
                    #[trigger] reached(x) && evaluates(how, args.last(), env, depth, x)
                        && match x {
                        Err(e) => out == Err::<Seq<Val>, Failure>(e),
                        Ok(v) => out == Ok::<Seq<Val>, Failure>(values.push(v)),
                    };
                lemma_evaluates_is_eval(num, how, args.last(), env, depth, x);
            },
            _ => {},
        }
    }
}

/// The same of a call.
pub proof fn lemma_applies_is_apply(
    num: Numerics,
    how: Behaviour,
    callee: Val,
    args: Seq<Val>,
    depth: nat,
    out: Outcome,
)
    requires
        num.describes(how),
        applies(how, callee, args, depth, out),
    ensures
        out == apply(num, callee, args, depth),
    decreases depth, 0nat,
{
    match callee {
        Val::Prim(symbol) => {
            lemma_prim_result_is_spec(num, how, symbol, args, out->Ok_0);
        },
        Val::Clo { params, body, env } => {
            match extend_spec(params, args, env) {
                Ok(inner) => {
                    if depth > 0 {
                        lemma_evaluates_is_eval(
                            num,
                            how,
                            *body,
                            inner,
                            (depth - 1) as nat,
                            out,
                        );
                    }
                },
                _ => {},
            }
        },
        _ => {},
    }
}

} // verus!
