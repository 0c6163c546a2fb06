//! The ways in which an evaluation can fail.

use vstd::prelude::*;
use crate::value::{Val, Value};

verus! {

/// Why an evaluation stopped without a value.
#[derive(Debug)]
pub enum InterpError {
    /// A name was looked up that no binding in scope carries.
    UnboundIdentifier { name: String },
    /// A function was called with another number of arguments than it has
    /// parameters.
    ArityMismatch { expected: usize, found: usize },
    /// The condition of a conditional was not a truth value.
    IfNotBoolean { got: Value },
    /// The value in function position was neither a function nor a built-in
    /// operator.
    NotCallable { got: Value },
    /// Function calls were nested more deeply than the caller allowed.
    DepthExceeded,
}

/// What a failure is, as a mathematical term.
pub enum Failure {
    Unbound(Seq<char>),
    Arity { expected: nat, found: nat },
    NotBoolean(Val),
    NotCallable(Val),
    DepthExceeded,
}

impl View for InterpError {
    type V = Failure;

    open spec fn view(&self) -> Failure {
        match self {
            InterpError::UnboundIdentifier { name } => Failure::Unbound(name@),
            InterpError::ArityMismatch { expected, found } => Failure::Arity {
                expected: *expected as nat,
                found: *found as nat,
            },
            InterpError::IfNotBoolean { got } => Failure::NotBoolean(got@),
            InterpError::NotCallable { got } => Failure::NotCallable(got@),
            InterpError::DepthExceeded => Failure::DepthExceeded,
        }
    }
}

/// What came out of an evaluation: a value or a failure.
pub type Outcome = Result<Val, Failure>;

/// The outcome that a result stands for.
pub open spec fn outcome_model(r: Result<Value, InterpError>) -> Outcome {
    match r {
        Ok(v) => Ok(v@),
        Err(e) => Err(e@),
    }
}

} // verus!
