//! The evaluator: the functions that run a program.

use vstd::prelude::*;
use crate::ast::{exprs_model, Expr, ExprC};
use crate::env::{extend_env, lookup, top_env, top_env_spec};
use crate::error::{outcome_model, Failure, InterpError, Outcome};
use crate::prim::{behaviour_of, interp_prim, total, ArithOp};
use crate::relation::{
    applies,
    evaluates,
    evaluates_all,
    lemma_failure_stays,
    reached,
    reached_all,
};
use crate::serialize::{rendering, serialize};
use crate::value::{
    clone_env,
    env_model,
    values_model,
    CloV,
    Environment,
    NumV,
    StringV,
    Val,
    Value,
};

verus! {

/// Evaluates `expr` in `env`. `arith` does the arithmetic and `leq` the
/// comparison of numbers; function calls may nest `depth` deep.
///
/// What comes back is an outcome of the evaluation, whatever the two
/// functions returned on the way. Where they compute an arithmetic, that
/// outcome is what `eval` gives with it (`lemma_evaluates_is_eval`).
pub fn interp<A: Fn(ArithOp, u64, u64) -> u64, L: Fn(u64, u64) -> bool>(
    expr: ExprC,
    env: &Environment,
    arith: &A,
    leq: &L,
    depth: usize,
) -> (r: Result<Value, InterpError>)
    requires
        total(*arith, *leq),
    ensures
        evaluates(
            behaviour_of(*arith, *leq),
            expr@,
            env_model(env@),
            depth as nat,
            outcome_model(r),
        ),
    decreases depth, expr@,
{
    let ghost how = behaviour_of(*arith, *leq);
    let ghost scope = env_model(env@);
    let ghost term = expr@;
    match expr {
        ExprC::NumC(nc) => Ok(Value::NumV(NumV { n: nc.n })),
        ExprC::IdC(idc) => lookup(env, idc.name.as_str()),
        ExprC::StringC(sc) => Ok(Value::StringV(StringV { s: sc.s })),
        ExprC::IfC(if_c) => {
            // The three parts of the term, which the calls below run on.
            let ghost cond = (*if_c.condition)@;
            let ghost then_ = (*if_c.then_)@;
            let ghost else_ = (*if_c.else_)@;
            assert(term matches Expr::If { cond: c, then_: t, else_: e } && *c == cond && *t
                == then_ && *e == else_);
            let c = interp(*if_c.condition, env, arith, leq, depth);
            assert(reached(outcome_model(c)));
            match c {
                Ok(Value::BoolV(bv)) => {
                    if bv.b {
                        interp(*if_c.then_, env, arith, leq, depth)
                    } else {
                        interp(*if_c.else_, env, arith, leq, depth)
                    }
                },
                Ok(other) => Err(InterpError::IfNotBoolean { got: other }),
                Err(e) => Err(e),
            }
        },
        ExprC::LamC(lamc) => Ok(
            Value::CloV(CloV { params: lamc.args, body: lamc.body, env: clone_env(env) }),
        ),
        ExprC::AppC(appc) => {
            // The two parts of the term, which the calls below run on.
            let ghost fun = (*appc.fun)@;
            let ghost args = exprs_model(appc.args@);
            assert(term matches Expr::App { fun: f, args: a } && *f == fun && a == args);
            let f = interp(*appc.fun, env, arith, leq, depth);
            assert(reached(outcome_model(f)));
            let funval = match f {
                Ok(v) => v,
                Err(e) => {
                    return Err(e);
                },
            };
            let mut argval: Vec<Value> = Vec::new();
            let mut i: usize = 0;
            assert(values_model(argval@) =~= Seq::empty());
            while i < appc.args.len()
                invariant
                    total(*arith, *leq),
                    how == behaviour_of(*arith, *leq),
                    scope == env_model(env@),
                    args == exprs_model(appc.args@),
                    i <= appc.args.len(),
                    term == expr@,
                    term matches Expr::App { fun: f, args: a } && *f == fun && a == args,
                    evaluates(how, fun, scope, depth as nat, Ok(funval@)),
                    evaluates_all(
                        how,
                        args.take(i as int),
                        scope,
                        depth as nat,
                        Ok(values_model(argval@)),
                    ),
                decreases appc.args.len() - i,
            {
                let arg = appc.args[i].clone();
                let ghost before = values_model(argval@);
                proof {
                    assert(arg@ == args[i as int]);
                    assert(args.take(i + 1).drop_last() =~= args.take(i as int));
                    assert(reached_all(Ok::<Seq<Val>, Failure>(before)));
                }
                let x = interp(arg, env, arith, leq, depth);
                assert(reached(outcome_model(x)));
                match x {
                    Ok(v) => {
                        argval.push(v);
                        assert(values_model(argval@) =~= before.push(v@));
                        i += 1;
                    },
                    Err(e) => {
                        proof {
                            let failed: Result<Seq<Val>, Failure> = Err(e@);
                            assert(evaluates_all(
                                how,
                                args.take(i + 1),
                                scope,
                                depth as nat,
                                failed,
                            ));
                            lemma_failure_stays(how, args, scope, depth as nat, i + 1, e@);
                            assert(reached_all(failed));
                            assert(reached(Ok::<Val, Failure>(funval@)));
                        }
                        return Err(e);
                    },
                }
            }
            assert(args.take(i as int) =~= args);
            let ghost values = values_model(argval@);
            let ghost callee = funval@;
            assert(reached_all(Ok::<Seq<Val>, Failure>(values)));
            let r = match funval {
                Value::PrimV(pv) => Ok(interp_prim(pv.s.as_str(), argval, arith, leq)),
                Value::CloV(cv) => {
                    match extend_env(cv.params, argval, cv.env) {
                        Ok(inner) => {
                            if depth == 0 {
                                Err(InterpError::DepthExceeded)
                            } else {
                                interp(*cv.body, &inner, arith, leq, depth - 1)
                            }
                        },
                        Err(e) => Err(e),
                    }
                },
                other => Err(InterpError::NotCallable { got: other }),
            };
            assert(applies(how, callee, values, depth as nat, outcome_model(r)));
            r
        },
    }
}

/// Evaluates `expr` in the starting environment: the built-in operators and
/// the two truth values.
pub fn top_interp<A: Fn(ArithOp, u64, u64) -> u64, L: Fn(u64, u64) -> bool>(
    expr: ExprC,
    arith: &A,
    leq: &L,
    depth: usize,
) -> (r: Result<Value, InterpError>)
    requires
        total(*arith, *leq),
    ensures
        evaluates(
            behaviour_of(*arith, *leq),
            expr@,
            top_env_spec(),
            depth as nat,
            outcome_model(r),
        ),
{
    let env = top_env();
    interp(expr, &env, arith, leq, depth)
}

/// Whether `r` renders `outcome`: an external form of its value, or its
/// failure.
pub open spec fn rendered_outcome<R: Fn(u64) -> String>(
    render: R,
    outcome: Outcome,
    r: Result<String, InterpError>,
) -> bool {
    match outcome {
        Ok(v) => r matches Ok(text) && rendering(render, v, text),
        Err(e) => r matches Err(x) && x@ == e,
    }
}

/// Evaluates `expr` in the starting environment and renders what comes out.
/// `render` turns a number into its decimal form.
pub fn run<A: Fn(ArithOp, u64, u64) -> u64, L: Fn(u64, u64) -> bool, R: Fn(u64) -> String>(
    expr: ExprC,
    arith: &A,
    leq: &L,
    render: &R,
    depth: usize,
) -> (r: Result<String, InterpError>)
    requires
        total(*arith, *leq),
        forall|n: u64| render.requires((n,)),
    ensures
        exists|o: Outcome|
            #[trigger] reached(o) && evaluates(
                behaviour_of(*arith, *leq),
                expr@,
                top_env_spec(),
                depth as nat,
                o,
            ) && rendered_outcome(*render, o, r),
{
    let outcome = top_interp(expr, arith, leq, depth);
    assert(reached(outcome_model(outcome)));
    match outcome {
        Ok(v) => Ok(serialize(v, render)),
        Err(e) => Err(e),
    }
}

} // verus!
