//! Runtime values, environments, and their mathematical models.

use vstd::prelude::*;
use crate::ast::{clone_names, distinct, names_view, well_formed, Expr, ExprC};

verus! {

/// A number, held as the bit pattern of a double.
#[derive(Debug, Clone)]
pub struct NumV {
    pub n: u64,
}

/// A truth value.
#[derive(Debug, Clone)]
pub struct BoolV {
    pub b: bool,
}

/// A string.
#[derive(Debug, Clone)]
pub struct StringV {
    pub s: String,
}

/// A function value: parameters, body, and the environment in which the
/// function was written down.
#[derive(Debug, Clone)]
pub struct CloV {
    pub params: Vec<String>,
    pub body: Box<ExprC>,
    pub env: Environment,
}

/// A built-in operator, named by its symbol.
#[derive(Debug, Clone)]
pub struct PrimV {
    pub s: String,
}

/// A runtime value.
#[derive(Debug)]
pub enum Value {
    NumV(NumV),
    BoolV(BoolV),
    StringV(StringV),
    CloV(CloV),
    PrimV(PrimV),
}

/// Bindings from oldest to newest. A later binding shadows an earlier one of
/// the same name.
pub type Environment = Vec<(String, Value)>;

/// What a value is, as a mathematical term.
pub enum Val {
    Num(u64),
    Bool(bool),
    Str(Seq<char>),
    Clo { params: Seq<Seq<char>>, body: Box<Expr>, env: Seq<(Seq<char>, Val)> },
    Prim(Seq<char>),
}

impl Val {
    /// The function value with these parameters, this body and this captured
    /// environment.
    pub open spec fn closure(params: Seq<Seq<char>>, body: Expr, env: Env) -> Val {
        Val::Clo { params, body: Box::new(body), env }
    }
}

/// What an environment is: its bindings, oldest first.
pub type Env = Seq<(Seq<char>, Val)>;

/// The term that a value stands for.
pub open spec fn value_model(v: Value) -> Val
    decreases v,
{
    match v {
        Value::NumV(x) => Val::Num(x.n),
        Value::BoolV(x) => Val::Bool(x.b),
        Value::StringV(x) => Val::Str(x.s@),
        Value::CloV(x) => Val::Clo {
            params: names_view(x.params@),
            body: Box::new((*x.body)@),
            env: env_model(x.env@),
        },
        Value::PrimV(x) => Val::Prim(x.s@),
    }
}

/// The bindings that an environment holds, oldest first.
pub open spec fn env_model(env: Seq<(String, Value)>) -> Env
    decreases env,
{
    Seq::new(
        env.len(),
        |i: int|
            if 0 <= i < env.len() {
                (env[i].0@, value_model(env[i].1))
            } else {
                arbitrary()
            },
    )
}

/// The terms that a sequence of values stands for, in order.
pub open spec fn values_model(values: Seq<Value>) -> Seq<Val> {
    Seq::new(values.len(), |i: int| value_model(values[i]))
}

impl View for Value {
    type V = Val;

    open spec fn view(&self) -> Val {
        value_model(*self)
    }
}

/// Copies an environment, binding by binding.
pub fn clone_env(env: &Environment) -> (r: Environment)
    ensures
        env_model(r@) == env_model(env@),
    decreases env,
{
    let mut out: Environment = Vec::new();
    let mut i: usize = 0;
    while i < env.len()
        invariant
            i <= env.len(),
            out.len() == i,
            forall|j: int|
                0 <= j < i ==> (#[trigger] out@[j]).0@ == env@[j].0@ && out@[j].1@ == env@[j].1@,
        decreases env.len() - i,
    {
        let name = env[i].0.clone();
        let value = env[i].1.clone();
        out.push((name, value));
        i += 1;
    }
    assert(env_model(out@) =~= env_model(env@));
    out
}

impl Clone for Value {
    /// A deep copy: the result stands for the same term.
    fn clone(&self) -> (r: Self)
        ensures
            r@ == self@,
        decreases self,
    {
        match self {
            Value::NumV(x) => Value::NumV(NumV { n: x.n }),
            Value::BoolV(x) => Value::BoolV(BoolV { b: x.b }),
            Value::StringV(x) => Value::StringV(StringV { s: x.s.clone() }),
            Value::CloV(x) => Value::CloV(
                CloV {
                    params: clone_names(&x.params),
                    body: Box::new((&*x.body).clone()),
                    env: clone_env(&x.env),
                },
            ),
            Value::PrimV(x) => Value::PrimV(PrimV { s: x.s.clone() }),
        }
    }
}

/// Whether every function that `v` holds, itself or in a captured
/// environment, has parameters that differ from one another.
pub open spec fn value_well_formed(v: Val) -> bool
    decreases v,
{
    match v {
        Val::Clo { params, body, env } => distinct(params) && well_formed(*body) && forall|i: int|
            0 <= i < env.len() ==> value_well_formed((#[trigger] env[i]).1),
        _ => true,
    }
}

/// Whether every value that `env` binds is well formed.
pub open spec fn env_well_formed(env: Env) -> bool {
    forall|i: int| 0 <= i < env.len() ==> value_well_formed((#[trigger] env[i]).1)
}

/// Whether every value of a list is well formed.
pub open spec fn values_well_formed(values: Seq<Val>) -> bool {
    forall|i: int| 0 <= i < values.len() ==> value_well_formed(#[trigger] values[i])
}

} // verus!
