//! What evaluation keeps: outcomes under a larger depth limit, and the
//! well-formedness of values.

use vstd::prelude::*;
use crate::ast::{well_formed, Expr};
use crate::env::{extend_spec, lemma_extend_well_formed, lemma_lookup_well_formed};
use crate::error::Failure;
use crate::prim::Numerics;
use crate::semantics::{apply, eval, eval_all};
use crate::value::{env_well_formed, value_well_formed, values_well_formed, Env, Val};

verus! {

/// The depth limit is a limit and nothing else: an evaluation that does not
/// run into it comes out the same under every larger limit.
pub proof fn lemma_more_depth_keeps_outcome(
    num: Numerics,
    expr: Expr,
    env: Env,
    depth: nat,
    more: nat,
)
    requires
        depth <= more,
        eval(num, expr, env, depth) != Err::<Val, Failure>(Failure::DepthExceeded),
    ensures
        eval(num, expr, env, more) == eval(num, expr, env, depth),
    decreases depth, 1nat, expr,
{
    match expr {
        Expr::If { cond, then_, else_ } => {
            lemma_more_depth_keeps_outcome(num, *cond, env, depth, more);
            match eval(num, *cond, env, depth) {
                Ok(Val::Bool(true)) => lemma_more_depth_keeps_outcome(
                    num,
                    *then_,
                    env,
                    depth,
                    more,
                ),
                Ok(Val::Bool(false)) => lemma_more_depth_keeps_outcome(
                    num,
                    *else_,
                    env,
                    depth,
                    more,
                ),
                _ => {},
            }
        },
        Expr::App { fun, args } => {
            lemma_more_depth_keeps_outcome(num, *fun, env, depth, more);
            match eval(num, *fun, env, depth) {
                Ok(callee) => {
                    lemma_more_depth_keeps_arguments(num, args, env, depth, more);
                    match eval_all(num, args, env, depth) {
                        Ok(values) => lemma_more_depth_keeps_call(
                            num,
                            callee,
                            values,
                            depth,
                            more,
                        ),
                        _ => {},
                    }
                },
                _ => {},
            }
        },
        _ => {},
    }
}

/// The same of an argument list.
pub proof fn lemma_more_depth_keeps_arguments(
    num: Numerics,
    args: Seq<Expr>,
    env: Env,
    depth: nat,
    more: nat,
)
    requires
        depth <= more,
        eval_all(num, args, env, depth) != Err::<Seq<Val>, Failure>(Failure::DepthExceeded),
    ensures
        eval_all(num, args, env, more) == eval_all(num, args, env, depth),
    decreases depth, 1nat, args,
{
    if args.len() > 0 {
        lemma_more_depth_keeps_arguments(num, args.drop_last(), env, depth, more);
        if eval_all(num, args.drop_last(), env, depth) is Ok {
            lemma_more_depth_keeps_outcome(num, args.last(), env, depth, more);
        }
    }
}

/// The same of a call.
pub proof fn lemma_more_depth_keeps_call(
    num: Numerics,
    callee: Val,
    args: Seq<Val>,
    depth: nat,
    more: nat,
)
    requires
        depth <= more,
        apply(num, callee, args, depth) != Err::<Val, Failure>(Failure::DepthExceeded),
    ensures
        apply(num, callee, args, more) == apply(num, callee, args, depth),
    decreases depth, 0nat,
{
    match callee {
        Val::Clo { params, body, env } => {
            match extend_spec(params, args, env) {
                Ok(inner) => {
                    lemma_more_depth_keeps_outcome(
                        num,
                        *body,
                        inner,
                        (depth - 1) as nat,
                        (more - 1) as nat,
                    );
                },
                _ => {},
            }
        },
        _ => {},
    }
}

/// Evaluation keeps values well formed: a well-formed expression in a
/// well-formed environment gives a well-formed value.
pub proof fn lemma_eval_well_formed(num: Numerics, expr: Expr, env: Env, depth: nat)
    requires
        well_formed(expr),
        env_well_formed(env),
    ensures
        eval(num, expr, env, depth) matches Ok(v) ==> value_well_formed(v),
    decreases depth, 1nat, expr,
{
    match expr {
        Expr::Id(name) => lemma_lookup_well_formed(env, name),
        Expr::If { cond, then_, else_ } => {
            match eval(num, *cond, env, depth) {
                Ok(Val::Bool(true)) => lemma_eval_well_formed(num, *then_, env, depth),
                Ok(Val::Bool(false)) => lemma_eval_well_formed(num, *else_, env, depth),
                _ => {},
            }
        },
        Expr::App { fun, args } => {
            lemma_eval_well_formed(num, *fun, env, depth);
            lemma_eval_all_well_formed(num, args, env, depth);
            match (eval(num, *fun, env, depth), eval_all(num, args, env, depth)) {
                (Ok(callee), Ok(values)) => lemma_apply_well_formed(num, callee, values, depth),
                _ => {},
            }
        },
        _ => {},
    }
}

/// The same of an argument list.
pub proof fn lemma_eval_all_well_formed(num: Numerics, args: Seq<Expr>, env: Env, depth: nat)
    requires
        forall|i: int| 0 <= i < args.len() ==> well_formed(#[trigger] args[i]),
        env_well_formed(env),
    ensures
        eval_all(num, args, env, depth) matches Ok(values) ==> values_well_formed(values),
    decreases depth, 1nat, args,
{
    if args.len() > 0 {
        assert forall|i: int| 0 <= i < args.drop_last().len() implies well_formed(
            #[trigger] args.drop_last()[i],
        ) by {
            assert(args.drop_last()[i] == args[i]);
        }
        lemma_eval_all_well_formed(num, args.drop_last(), env, depth);
        assert(args.last() == args[args.len() - 1]);
        lemma_eval_well_formed(num, args.last(), env, depth);
    }
}

/// The same of a call.
pub proof fn lemma_apply_well_formed(num: Numerics, callee: Val, args: Seq<Val>, depth: nat)
    requires
        value_well_formed(callee),
        values_well_formed(args),
    ensures
        apply(num, callee, args, depth) matches Ok(v) ==> value_well_formed(v),
    decreases depth, 0nat,
{
    match callee {
        Val::Clo { params, body, env } => {
            lemma_extend_well_formed(params, args, env);
            match extend_spec(params, args, env) {
                Ok(inner) => {
                    if depth > 0 {
                        lemma_eval_well_formed(num, *body, inner, (depth - 1) as nat);
                    }
                },
                _ => {},
            }
        },
        _ => {},
    }
}

} // verus!
