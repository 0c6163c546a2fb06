//! The abstract syntax of the language and its mathematical model.

use vstd::prelude::*;

verus! {

/// A number literal, held as the bit pattern of a double.
#[derive(Debug, Clone)]
pub struct NumC {
    pub n: u64,
}

/// A reference to a name.
#[derive(Debug, Clone)]
pub struct IdC {
    pub name: String,
}

/// A string literal.
#[derive(Debug, Clone)]
pub struct StringC {
    pub s: String,
}

/// A call: the expression in function position and its arguments.
#[derive(Debug, Clone)]
pub struct AppC {
    pub fun: Box<ExprC>,
    pub args: Vec<ExprC>,
}

/// A function: its parameter names and its body.
///
/// The names are meant to differ from one another, which `is_well_formed`
/// tells. Where a name repeats, the later parameter shadows the earlier.
#[derive(Debug, Clone)]
pub struct LamC {
    pub args: Vec<String>,
    pub body: Box<ExprC>,
}

/// A conditional.
#[derive(Debug, Clone)]
pub struct IfC {
    pub condition: Box<ExprC>,
    pub then_: Box<ExprC>,
    pub else_: Box<ExprC>,
}

/// An expression.
#[derive(Debug)]
pub enum ExprC {
    NumC(NumC),
    IdC(IdC),
    StringC(StringC),
    IfC(IfC),
    AppC(AppC),
    LamC(LamC),
}

/// What an expression is, as a mathematical term.
pub enum Expr {
    Num(u64),
    Id(Seq<char>),
    Str(Seq<char>),
    If { cond: Box<Expr>, then_: Box<Expr>, else_: Box<Expr> },
    Lam { params: Seq<Seq<char>>, body: Box<Expr> },
    App { fun: Box<Expr>, args: Seq<Expr> },
}

impl Expr {
    /// The conditional with these three parts.
    pub open spec fn cond(cond: Expr, then_: Expr, else_: Expr) -> Expr {
        Expr::If { cond: Box::new(cond), then_: Box::new(then_), else_: Box::new(else_) }
    }

    /// The function with these parameters and this body.
    pub open spec fn lambda(params: Seq<Seq<char>>, body: Expr) -> Expr {
        Expr::Lam { params, body: Box::new(body) }
    }

    /// The call of `fun` on `args`.
    pub open spec fn call(fun: Expr, args: Seq<Expr>) -> Expr {
        Expr::App { fun: Box::new(fun), args }
    }
}

/// The names that a vector of strings holds.
pub open spec fn names_view(names: Seq<String>) -> Seq<Seq<char>> {
    Seq::new(names.len(), |i: int| names[i]@)
}

/// The term that an expression stands for.
pub open spec fn expr_model(e: ExprC) -> Expr
    decreases e,
{
    match e {
        ExprC::NumC(c) => Expr::Num(c.n),
        ExprC::IdC(c) => Expr::Id(c.name@),
        ExprC::StringC(c) => Expr::Str(c.s@),
        ExprC::IfC(c) => Expr::If {
            cond: Box::new(expr_model(*c.condition)),
            then_: Box::new(expr_model(*c.then_)),
            else_: Box::new(expr_model(*c.else_)),
        },
        ExprC::LamC(c) => Expr::Lam {
            params: names_view(c.args@),
            body: Box::new(expr_model(*c.body)),
        },
        ExprC::AppC(c) => Expr::App {
            fun: Box::new(expr_model(*c.fun)),
            args: exprs_model(c.args@),
        },
    }
}

/// The terms that a sequence of expressions stands for, in order.
pub open spec fn exprs_model(exprs: Seq<ExprC>) -> Seq<Expr>
    decreases exprs,
{
    Seq::new(
        exprs.len(),
        |i: int|
            if 0 <= i < exprs.len() {
                expr_model(exprs[i])
            } else {
                arbitrary()
            },
    )
}

impl View for ExprC {
    type V = Expr;

    open spec fn view(&self) -> Expr {
        expr_model(*self)
    }
}

/// Whether no name occurs twice.
pub open spec fn distinct(names: Seq<Seq<char>>) -> bool {
    forall|i: int, j: int| 0 <= i < j < names.len() ==> names[i] != names[j]
}

/// Whether every function in `e` has parameters that differ from one another.
pub open spec fn well_formed(e: Expr) -> bool
    decreases e,
{
    match e {
        Expr::If { cond, then_, else_ } => well_formed(*cond) && well_formed(*then_)
            && well_formed(*else_),
        Expr::Lam { params, body } => distinct(params) && well_formed(*body),
        Expr::App { fun, args } => well_formed(*fun) && forall|i: int|
            0 <= i < args.len() ==> well_formed(#[trigger] args[i]),
        _ => true,
    }
}

/// Tells whether no name occurs twice.
pub fn has_distinct_names(names: &Vec<String>) -> (r: bool)
    ensures
        r == distinct(names_view(names@)),
{
    let ghost view = names_view(names@);
    let mut j: usize = 0;
    while j < names.len()
        invariant
            j <= names.len(),
            view == names_view(names@),
            forall|a: int, b: int| 0 <= a < b < j ==> view[a] != view[b],
        decreases names.len() - j,
    {
        let mut i: usize = 0;
        while i < j
            invariant
                i <= j < names.len(),
                view == names_view(names@),
                forall|a: int, b: int| 0 <= a < b < j ==> view[a] != view[b],
                forall|a: int| 0 <= a < i ==> view[a] != view[j as int],
            decreases j - i,
        {
            if names[i] == names[j] {
                assert(view[i as int] == view[j as int]);
                return false;
            }
            i += 1;
        }
        j += 1;
    }
    true
}

impl ExprC {
    /// Tells whether every function in the expression has parameters that
    /// differ from one another.
    pub fn is_well_formed(&self) -> (r: bool)
        ensures
            r == well_formed(self@),
        decreases self,
    {
        match self {
            ExprC::NumC(_) => true,
            ExprC::IdC(_) => true,
            ExprC::StringC(_) => true,
            ExprC::IfC(c) => c.condition.is_well_formed() && c.then_.is_well_formed()
                && c.else_.is_well_formed(),
            ExprC::LamC(c) => has_distinct_names(&c.args) && c.body.is_well_formed(),
            ExprC::AppC(c) => {
                if !c.fun.is_well_formed() {
                    return false;
                }
                let ghost args = exprs_model(c.args@);
                let mut i: usize = 0;
                while i < c.args.len()
                    invariant
                        *self == ExprC::AppC(*c),
                        args == exprs_model(c.args@),
                        i <= c.args.len(),
                        forall|j: int| 0 <= j < i ==> well_formed(#[trigger] args[j]),
                    decreases c.args.len() - i,
                {
                    assert(decreases_to!((self->AppC_0).args@ => (self->AppC_0).args@[i as int]));
                    if !c.args[i].is_well_formed() {
                        assert(!well_formed(args[i as int]));
                        assert(self@ matches Expr::App { fun, args: a } && a == args);
                        return false;
                    }
                    i += 1;
                }
                true
            },
        }
    }
}

/// Copies a list of names.
pub fn clone_names(names: &Vec<String>) -> (r: Vec<String>)
    ensures
        r@ == names@,
{
    let mut out: Vec<String> = Vec::new();
    let mut i: usize = 0;
    while i < names.len()
        invariant
            i <= names.len(),
            out@ == names@.take(i as int),
        decreases names.len() - i,
    {
        out.push(names[i].clone());
        i += 1;
    }
    out
}

impl Clone for ExprC {
    /// A deep copy: the result stands for the same term.
    fn clone(&self) -> (r: Self)
        ensures
            r@ == self@,
        decreases self,
    {
        match self {
            ExprC::NumC(c) => ExprC::NumC(NumC { n: c.n }),
            ExprC::IdC(c) => ExprC::IdC(IdC { name: c.name.clone() }),
            ExprC::StringC(c) => ExprC::StringC(StringC { s: c.s.clone() }),
            ExprC::IfC(c) => ExprC::IfC(
                IfC {
                    condition: Box::new((&*c.condition).clone()),
                    then_: Box::new((&*c.then_).clone()),
                    else_: Box::new((&*c.else_).clone()),
                },
            ),
            ExprC::LamC(c) => ExprC::LamC(
                LamC { args: clone_names(&c.args), body: Box::new((&*c.body).clone()) },
            ),
            ExprC::AppC(c) => {
                let fun = (&*c.fun).clone();
                let mut args: Vec<ExprC> = Vec::new();
                let mut i: usize = 0;
                while i < c.args.len()
                    invariant
                        *self == ExprC::AppC(*c),
                        i <= c.args.len(),
                        args.len() == i,
                        forall|j: int| 0 <= j < i ==> (#[trigger] args@[j])@ == c.args@[j]@,
                    decreases c.args.len() - i,
                {
                    assert(decreases_to!((self->AppC_0).args@ => (self->AppC_0).args@[i as int]));
                    let arg = c.args[i].clone();
                    args.push(arg);
                    i += 1;
                }
                assert(exprs_model(args@) =~= exprs_model(c.args@));
                ExprC::AppC(AppC { fun: Box::new(fun), args })
            },
        }
    }
}

} // verus!
