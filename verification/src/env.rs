//! Environments: the starting environment, lookup and extension.

use vstd::prelude::*;
use crate::ast::{distinct, names_view};
use crate::error::{outcome_model, Failure, InterpError};
use crate::value::{
    env_model,
    env_well_formed,
    value_well_formed,
    values_model,
    values_well_formed,
    BoolV,
    Env,
    Environment,
    PrimV,
    Val,
    Value,
};

verus! {

/// The value bound to `name` by the newest binding of that name, or the
/// failure that names `name` where no binding carries it.
pub open spec fn lookup_spec(env: Env, name: Seq<char>) -> Result<Val, Failure>
    decreases env.len(),
{
    if env.len() == 0 {
        Err(Failure::Unbound(name))
    } else if env.last().0 == name {
        Ok(env.last().1)
    } else {
        lookup_spec(env.drop_last(), name)
    }
}

/// Whether some binding of `env` carries `name`.
pub open spec fn binds(env: Env, name: Seq<char>) -> bool {
    exists|i: int| 0 <= i < env.len() && (#[trigger] env[i]).0 == name
}

/// Looks `name` up, newest binding first.
pub fn lookup(env: &Environment, name: &str) -> (r: Result<Value, InterpError>)
    ensures
        outcome_model(r) == lookup_spec(env_model(env@), name@),
{
    let wanted = name.to_owned();
    let ghost bindings = env_model(env@);
    let mut i: usize = env.len();
    assert(bindings.take(i as int) =~= bindings);
    while i > 0
        invariant
            i <= env.len(),
            wanted@ == name@,
            bindings == env_model(env@),
            lookup_spec(bindings, name@) == lookup_spec(bindings.take(i as int), name@),
        decreases i,
    {
        i -= 1;
        assert(bindings.take(i + 1).drop_last() =~= bindings.take(i as int));
        if env[i].0 == wanted {
            return Ok(env[i].1.clone());
        }
    }
    Err(InterpError::UnboundIdentifier { name: wanted })
}

/// Lookup finds the newest binding of a name: the one after which no binding
/// carries that name.
pub proof fn lemma_lookup_finds_newest(env: Env, name: Seq<char>, i: int)
    requires
        0 <= i < env.len(),
        env[i].0 == name,
        forall|j: int| i < j < env.len() ==> (#[trigger] env[j]).0 != name,
    ensures
        lookup_spec(env, name) == Ok::<Val, Failure>(env[i].1),
    decreases env.len(),
{
    if i < env.len() - 1 {
        lemma_lookup_finds_newest(env.drop_last(), name, i);
    }
}

/// Lookup fails exactly where no binding carries the name, and the failure
/// names it.
pub proof fn lemma_lookup_fails_iff_unbound(env: Env, name: Seq<char>)
    ensures
        !binds(env, name) <==> lookup_spec(env, name) is Err,
        lookup_spec(env, name) is Err ==> lookup_spec(env, name) == Err::<Val, Failure>(
            Failure::Unbound(name),
        ),
    decreases env.len(),
{
    if env.len() > 0 {
        let shorter = env.drop_last();
        lemma_lookup_fails_iff_unbound(shorter, name);
        if env.last().0 == name {
            assert(env[env.len() - 1].0 == name);
        } else if binds(shorter, name) {
            let i: int = choose|i: int| 0 <= i < shorter.len() && (#[trigger] shorter[i]).0 == name;
            assert(env[i].0 == name);
        } else if binds(env, name) {
            let i: int = choose|i: int| 0 <= i < env.len() && (#[trigger] env[i]).0 == name;
            assert(shorter[i].0 == name);
        }
    }
}

/// A new binding shadows the older ones of its name and leaves every other
/// name as it was.
pub proof fn lemma_lookup_after_push(env: Env, bound: Seq<char>, v: Val, name: Seq<char>)
    ensures
        bound == name ==> lookup_spec(env.push((bound, v)), name) == Ok::<Val, Failure>(v),
        bound != name ==> lookup_spec(env.push((bound, v)), name) == lookup_spec(env, name),
{
    assert(env.push((bound, v)).drop_last() =~= env);
}

/// The bindings that pair each parameter with the argument in its place.
pub open spec fn pairs(params: Seq<Seq<char>>, args: Seq<Val>) -> Env {
    Seq::new(params.len(), |i: int| (params[i], args[i]))
}

/// `env` followed by one binding for each parameter, in order; a failure
/// where the two lists differ in length.
pub open spec fn extend_spec(params: Seq<Seq<char>>, args: Seq<Val>, env: Env) -> Result<
    Env,
    Failure,
> {
    if params.len() == args.len() {
        Ok(env + pairs(params, args))
    } else {
        Err(Failure::Arity { expected: params.len(), found: args.len() })
    }
}

/// The environment that a result stands for, or its failure.
pub open spec fn env_outcome_model(r: Result<Environment, InterpError>) -> Result<Env, Failure> {
    match r {
        Ok(e) => Ok(env_model(e@)),
        Err(e) => Err(e@),
    }
}

/// Binds each parameter to the argument in its place, on top of `env`.
pub fn extend_env(params: Vec<String>, argvals: Vec<Value>, env: Environment) -> (r: Result<
    Environment,
    InterpError,
>)
    ensures
        env_outcome_model(r) == extend_spec(
            names_view(params@),
            values_model(argvals@),
            env_model(env@),
        ),
{
    if params.len() != argvals.len() {
        return Err(InterpError::ArityMismatch { expected: params.len(), found: argvals.len() });
    }
    let ghost base = env_model(env@);
    let ghost added = pairs(names_view(params@), values_model(argvals@));
    let mut out = env;
    let mut i: usize = 0;
    while i < params.len()
        invariant
            params.len() == argvals.len(),
            i <= params.len(),
            added == pairs(names_view(params@), values_model(argvals@)),
            env_model(out@) == base + added.take(i as int),
        decreases params.len() - i,
    {
        let name = params[i].clone();
        let value = argvals[i].clone();
        let ghost before = env_model(out@);
        out.push((name, value));
        assert(env_model(out@) =~= before.push(added[i as int]));
        assert(base + added.take(i + 1) =~= (base + added.take(i as int)).push(added[i as int]));
        i += 1;
    }
    assert(added.take(i as int) =~= added);
    Ok(out)
}

/// In an extended environment a parameter finds its own argument, unless a
/// later parameter has the same name.
pub proof fn lemma_extend_binds_parameter(
    params: Seq<Seq<char>>,
    args: Seq<Val>,
    env: Env,
    i: int,
)
    requires
        params.len() == args.len(),
        0 <= i < params.len(),
        forall|j: int| i < j < params.len() ==> #[trigger] params[j] != params[i],
    ensures
        lookup_spec(env + pairs(params, args), params[i]) == Ok::<Val, Failure>(args[i]),
{
    let extended = env + pairs(params, args);
    assert(extended[env.len() + i] == (params[i], args[i]));
    assert forall|j: int| env.len() + i < j < extended.len() implies (#[trigger] extended[j]).0
        != params[i] by {
        assert(extended[j].0 == params[j - env.len()]);
    }
    lemma_lookup_finds_newest(extended, params[i], env.len() + i);
}

/// In an extended environment a name that is no parameter finds what it found
/// before.
pub proof fn lemma_extend_keeps_other_names(
    params: Seq<Seq<char>>,
    args: Seq<Val>,
    env: Env,
    name: Seq<char>,
)
    requires
        params.len() == args.len(),
        forall|j: int| 0 <= j < params.len() ==> #[trigger] params[j] != name,
    ensures
        lookup_spec(env + pairs(params, args), name) == lookup_spec(env, name),
    decreases params.len(),
{
    if params.len() == 0 {
        assert(env + pairs(params, args) =~= env);
    } else {
        let extended = env + pairs(params, args);
        assert(extended.last().0 == params[params.len() - 1]);
        assert(extended.drop_last() =~= env + pairs(params.drop_last(), args.drop_last()));
        lemma_extend_keeps_other_names(params.drop_last(), args.drop_last(), env, name);
    }
}

/// Where the parameters differ from one another, each finds its own
/// argument in the extended environment.
pub proof fn lemma_distinct_parameters_find_their_arguments(
    params: Seq<Seq<char>>,
    args: Seq<Val>,
    env: Env,
)
    requires
        params.len() == args.len(),
        distinct(params),
    ensures
        forall|i: int|
            0 <= i < params.len() ==> lookup_spec(env + pairs(params, args), #[trigger] params[i])
                == Ok::<Val, Failure>(args[i]),
{
    assert forall|i: int| 0 <= i < params.len() implies lookup_spec(
        env + pairs(params, args),
        #[trigger] params[i],
    ) == Ok::<Val, Failure>(args[i]) by {
        lemma_extend_binds_parameter(params, args, env, i);
    }
}

/// The bindings of the starting environment, oldest first.
pub open spec fn top_env_spec() -> Env {
    seq![
        ("+"@, Val::Prim("+"@)),
        ("-"@, Val::Prim("-"@)),
        ("*"@, Val::Prim("*"@)),
        ("/"@, Val::Prim("/"@)),
        ("<="@, Val::Prim("<="@)),
        ("substring"@, Val::Prim("substring"@)),
        ("strlen"@, Val::Prim("strlen"@)),
        ("equal?"@, Val::Prim("equal?"@)),
        ("error"@, Val::Prim("error"@)),
        ("true"@, Val::Bool(true)),
        ("false"@, Val::Bool(false)),
    ]
}

/// A binding of an operator's symbol to the operator itself.
fn prim_binding(symbol: &str) -> (r: (String, Value))
    ensures
        r.0@ == symbol@,
        r.1@ == Val::Prim(symbol@),
{
    (symbol.to_owned(), Value::PrimV(PrimV { s: symbol.to_owned() }))
}

/// The environment in which a program starts: the built-in operators and the
/// two truth values.
pub fn top_env() -> (r: Environment)
    ensures
        env_model(r@) == top_env_spec(),
{
    let mut env: Environment = Vec::new();
    env.push(prim_binding("+"));
    env.push(prim_binding("-"));
    env.push(prim_binding("*"));
    env.push(prim_binding("/"));
    env.push(prim_binding("<="));
    env.push(prim_binding("substring"));
    env.push(prim_binding("strlen"));
    env.push(prim_binding("equal?"));
    env.push(prim_binding("error"));
    env.push(("true".to_owned(), Value::BoolV(BoolV { b: true })));
    env.push(("false".to_owned(), Value::BoolV(BoolV { b: false })));
    assert(env_model(env@) =~= top_env_spec());
    env
}

/// In the starting environment each operator's symbol finds that operator,
/// and `true` and `false` find the two truth values.
pub proof fn lemma_top_env_lookup()
    ensures
        lookup_spec(top_env_spec(), "+"@) == Ok::<Val, Failure>(Val::Prim("+"@)),
        lookup_spec(top_env_spec(), "-"@) == Ok::<Val, Failure>(Val::Prim("-"@)),
        lookup_spec(top_env_spec(), "*"@) == Ok::<Val, Failure>(Val::Prim("*"@)),
        lookup_spec(top_env_spec(), "/"@) == Ok::<Val, Failure>(Val::Prim("/"@)),
        lookup_spec(top_env_spec(), "<="@) == Ok::<Val, Failure>(Val::Prim("<="@)),
        lookup_spec(top_env_spec(), "substring"@) == Ok::<Val, Failure>(Val::Prim("substring"@)),
        lookup_spec(top_env_spec(), "strlen"@) == Ok::<Val, Failure>(Val::Prim("strlen"@)),
        lookup_spec(top_env_spec(), "equal?"@) == Ok::<Val, Failure>(Val::Prim("equal?"@)),
        lookup_spec(top_env_spec(), "error"@) == Ok::<Val, Failure>(Val::Prim("error"@)),
        lookup_spec(top_env_spec(), "true"@) == Ok::<Val, Failure>(Val::Bool(true)),
        lookup_spec(top_env_spec(), "false"@) == Ok::<Val, Failure>(Val::Bool(false)),
{
    reveal_strlit("+");
    reveal_strlit("-");
    reveal_strlit("*");
    reveal_strlit("/");
    reveal_strlit("<=");
    reveal_strlit("substring");
    reveal_strlit("strlen");
    reveal_strlit("equal?");
    reveal_strlit("error");
    reveal_strlit("true");
    reveal_strlit("false");
    let env = top_env_spec();
    assert("+"@[0] != "-"@[0] && "+"@[0] != "*"@[0] && "+"@[0] != "/"@[0]);
    assert("-"@[0] != "*"@[0] && "-"@[0] != "/"@[0] && "*"@[0] != "/"@[0]);
    assert("substring"@[1] != "equal?"@[1] && "strlen"@[0] != "equal?"@[0]);
    assert("error"@[0] == 'e' && "false"@[0] == 'f');
    assert("<="@.len() == 2 && "substring"@.len() == 9 && "strlen"@.len() == 6);
    assert("equal?"@.len() == 6 && "error"@.len() == 5 && "true"@.len() == 4);
    assert("false"@.len() == 5);
    lemma_lookup_finds_newest(env, "+"@, 0);
    lemma_lookup_finds_newest(env, "-"@, 1);
    lemma_lookup_finds_newest(env, "*"@, 2);
    lemma_lookup_finds_newest(env, "/"@, 3);
    lemma_lookup_finds_newest(env, "<="@, 4);
    lemma_lookup_finds_newest(env, "substring"@, 5);
    lemma_lookup_finds_newest(env, "strlen"@, 6);
    lemma_lookup_finds_newest(env, "equal?"@, 7);
    lemma_lookup_finds_newest(env, "error"@, 8);
    lemma_lookup_finds_newest(env, "true"@, 9);
    lemma_lookup_finds_newest(env, "false"@, 10);
}

/// What a well-formed environment binds a name to is well formed.
pub proof fn lemma_lookup_well_formed(env: Env, name: Seq<char>)
    requires
        env_well_formed(env),
    ensures
        lookup_spec(env, name) matches Ok(v) ==> value_well_formed(v),
    decreases env.len(),
{
    if env.len() > 0 {
        if env.last().0 == name {
            assert(env.last() == env[env.len() - 1]);
        } else {
            let shorter = env.drop_last();
            assert forall|i: int| 0 <= i < shorter.len() implies value_well_formed(
                (#[trigger] shorter[i]).1,
            ) by {
                assert(shorter[i] == env[i]);
            }
            lemma_lookup_well_formed(shorter, name);
        }
    }
}

/// A well-formed environment extended by well-formed arguments is well
/// formed.
pub proof fn lemma_extend_well_formed(params: Seq<Seq<char>>, args: Seq<Val>, env: Env)
    requires
        env_well_formed(env),
        values_well_formed(args),
    ensures
        extend_spec(params, args, env) matches Ok(inner) ==> env_well_formed(inner),
{
    if params.len() == args.len() {
        let inner = env + pairs(params, args);
        assert forall|i: int| 0 <= i < inner.len() implies value_well_formed(
            (#[trigger] inner[i]).1,
        ) by {
            if i < env.len() {
                assert(inner[i] == env[i]);
            } else {
                assert(inner[i].1 == args[i - env.len()]);
            }
        }
    }
}

/// The starting environment is well formed.
pub proof fn lemma_top_env_well_formed()
    ensures
        env_well_formed(top_env_spec()),
{
}

} // verus!
