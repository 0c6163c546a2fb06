//! The external form of a value.

use vstd::prelude::*;
use crate::value::{Val, Value};

verus! {

/// Whether `out` is an external form of `v`: for a number, a string that
/// `render` returned for it; the word `true` or `false`; a string's own
/// characters; a fixed tag for a function and for a built-in operator.
pub open spec fn rendering<R: Fn(u64) -> String>(render: R, v: Val, out: String) -> bool {
    match v {
        Val::Num(n) => render.ensures((n,), out),
        Val::Bool(b) => out@ == if b {
            "true"@
        } else {
            "false"@
        },
        Val::Str(s) => out@ == s,
        Val::Clo { .. } => out@ == "#<procedure>"@,
        Val::Prim(_) => out@ == "#<primop>"@,
    }
}

/// A function renders as one fixed tag and a built-in operator as another,
/// whatever either holds and whatever `render` does.
pub proof fn lemma_tags_are_fixed<R: Fn(u64) -> String>(render: R, v: Val, out: String)
    ensures
        v is Clo ==> (rendering(render, v, out) <==> out@ == "#<procedure>"@),
        v is Prim ==> (rendering(render, v, out) <==> out@ == "#<primop>"@),
{
}

/// Renders a value. `render` turns a number into its decimal form, and is
/// called for a number only.
pub fn serialize<R: Fn(u64) -> String>(val: Value, render: &R) -> (r: String)
    requires
        val@ is Num ==> render.requires((val@->Num_0,)),
    ensures
        rendering(*render, val@, r),
{
    match val {
        Value::NumV(nv) => render(nv.n),
        Value::BoolV(bv) => if bv.b {
            "true".to_owned()
        } else {
            "false".to_owned()
        },
        Value::StringV(sv) => sv.s,
        Value::CloV(_) => "#<procedure>".to_owned(),
        Value::PrimV(_) => "#<primop>".to_owned(),
    }
}

} // verus!
