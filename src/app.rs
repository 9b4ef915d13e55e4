use crate::expressions::Substitution;
use crate::term::{size, subst, Term};
use crate::unty_var::UntyVar;
use crate::untyped_lambda_calculus::UntyLamExpr;
use vstd::prelude::*;

verus! {

/// An application `lhs rhs`.
#[derive(Debug, PartialEq, PartialOrd, Ord, Eq, Hash)]
pub struct App {
    pub lhs: Box<UntyLamExpr>,
    pub rhs: Box<UntyLamExpr>,
}

/// Tells abstractions apart from the other expressions.
pub trait IsAbs {
    spec fn spec_is_abs(&self) -> bool;

    fn is_abs(&self) -> (r: bool)
        ensures
            r == self.spec_is_abs(),
    ;
}

impl App {
    pub fn new(lhs: UntyLamExpr, rhs: UntyLamExpr) -> (r: Self)
        ensures
            *r.lhs == lhs,
            *r.rhs == rhs,
    {
        Self { lhs: Box::new(lhs), rhs: Box::new(rhs) }
    }

    pub fn new_expr(lhs: UntyLamExpr, rhs: UntyLamExpr) -> (r: UntyLamExpr)
        ensures
            r@ == Term::App(Box::new(lhs@), Box::new(rhs@)),
    {
        UntyLamExpr::App(Self { lhs: Box::new(lhs), rhs: Box::new(rhs) })
    }

    pub fn into_expr(self) -> (r: UntyLamExpr)
        ensures
            r == UntyLamExpr::App(self),
            r@ == Term::App(Box::new(self.lhs@), Box::new(self.rhs@)),
    {
        UntyLamExpr::App(self)
    }

    /// The term this application denotes.
    pub open spec fn term(&self) -> Term {
        Term::App(Box::new(self.lhs@), Box::new(self.rhs@))
    }

    /// Substitution in an application: in both of its sides.
    pub fn subst_app(&self, v: &UntyVar, e: &UntyLamExpr) -> (r: UntyLamExpr)
        ensures
            r@ == subst(self.term(), v@, e@),
        decreases size(self.term()), 0int,
    {
        App::new_expr(self.lhs.subst(v, e), self.rhs.subst(v, e))
    }
}

impl Substitution<UntyVar, UntyLamExpr> for App {
    open spec fn is_substitution_of(&self, v: UntyVar, e: UntyLamExpr, r: UntyLamExpr) -> bool {
        r@ == subst(self.term(), v@, e@)
    }

    fn substitute(&self, v: &UntyVar, e: &UntyLamExpr) -> UntyLamExpr {
        self.subst_app(v, e)
    }
}

} // verus!
