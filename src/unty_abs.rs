use crate::expressions::Substitution;
use crate::term::{
    fresh_from, fresh_name, lemma_rename_size, ones, scope_len, size, subst, Term,
};
use crate::unty_var::UntyVar;
use crate::untyped_lambda_calculus::UntyLamExpr;
use vstd::prelude::*;

verus! {

/// An abstraction `λ var. expr`.
#[derive(Debug, PartialEq, PartialOrd, Ord, Eq, Hash)]
pub struct UntyAbs {
    pub var: UntyVar,
    pub expr: Box<UntyLamExpr>,
}

impl UntyAbs {
    pub fn new(var: UntyVar, expr: UntyLamExpr) -> (r: Self)
        ensures
            r.var == var,
            *r.expr == expr,
    {
        Self { var, expr: Box::new(expr) }
    }

    pub fn new_expr(var: UntyVar, expr: UntyLamExpr) -> (r: UntyLamExpr)
        ensures
            r@ == Term::Abs(var@, Box::new(expr@)),
    {
        UntyLamExpr::Abs(Self { var, expr: Box::new(expr) })
    }

    pub fn into_expr(self) -> (r: UntyLamExpr)
        ensures
            r == UntyLamExpr::Abs(self),
            r@ == Term::Abs(self.var@, Box::new(self.expr@)),
    {
        UntyLamExpr::Abs(self)
    }

    /// The term this abstraction denotes.
    pub open spec fn term(&self) -> Term {
        Term::Abs(self.var@, Box::new(self.expr@))
    }

    /// Substitution in an abstraction. A parameter named `v` shadows it, and
    /// the abstraction stays as it is. A parameter that `e` holds free is
    /// first renamed to a fresh name, so that it captures nothing.
    pub fn subst_abs(&self, v: &UntyVar, e: &UntyLamExpr) -> (r: UntyLamExpr)
        ensures
            r@ == subst(self.term(), v@, e@),
        decreases size(self.term()), 0int,
    {
        if self.var.same_name(v) {
            UntyAbs::new_expr(self.var.copy(), self.expr.copy())
        } else if e.has_free(&self.var) {
            let q = fresh_var(&self.var, &self.expr, e, v);
            let renamed = self.expr.rename(&self.var, &q);
            proof {
                lemma_rename_size(self.expr@, self.var@, q@);
            }
            UntyAbs::new_expr(q, renamed.subst(v, e))
        } else {
            UntyAbs::new_expr(self.var.copy(), self.expr.subst(v, e))
        }
    }
}

/// The name that parameter `base` takes so that it captures no free variable
/// of `e` while `v` is replaced in `body`.
fn fresh_var(base: &UntyVar, body: &UntyLamExpr, e: &UntyLamExpr, v: &UntyVar) -> (q: UntyVar)
    ensures
        q@ == fresh_name(base@, body@, e@, v@),
{
    let b = body.max_name_len();
    let r = e.max_name_len();
    let w = v.name_len();
    let rw = if r >= w {
        r
    } else {
        w
    };
    let limit = if b >= rw {
        b
    } else {
        rw
    };
    let ghost k: nat = 1;
    let mut cand = base.copy();
    cand.push_one();
    assert(cand@ =~= base@ + ones(1));
    while cand.name_len() <= limit && (body.mentions(&cand) || e.has_free(&cand) || cand.same_name(
        v,
    ))
        invariant
            limit == scope_len(body@, e@, v@),
            k >= 1,
            cand@ == base@ + ones(k),
            fresh_from(base@, body@, e@, v@, k) == fresh_name(base@, body@, e@, v@),
        decreases limit + 1 - k,
    {
        cand.push_one();
        proof {
            assert(cand@ =~= base@ + ones(k + 1));
            k = k + 1;
        }
    }
    cand
}

impl Substitution<UntyVar, UntyLamExpr> for UntyAbs {
    open spec fn is_substitution_of(&self, v: UntyVar, e: UntyLamExpr, r: UntyLamExpr) -> bool {
        r@ == subst(self.term(), v@, e@)
    }

    fn substitute(&self, v: &UntyVar, e: &UntyLamExpr) -> UntyLamExpr {
        self.subst_abs(v, e)
    }
}

} // verus!
