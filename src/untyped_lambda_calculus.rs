use crate::app::{App, IsAbs};
use crate::expressions::{CalcStepError, Expression, Substitution, Sum};
use crate::term::{free_in, is_value, max_len, occurs, rename, render, size, step, subst, Term};
use crate::unty_abs::UntyAbs;
use crate::unty_var::UntyVar;
use vstd::prelude::*;
use vstd::string::*;

verus! {

/// An expression of the untyped lambda calculus. Each node owns its children.
#[derive(Debug, PartialEq, PartialOrd, Ord, Eq, Hash)]
pub enum UntyLamExpr {
    Var(UntyVar),
    Abs(UntyAbs),
    App(App),
}

/// The term that an expression denotes.
pub open spec fn term_of(e: UntyLamExpr) -> Term
    decreases e,
{
    match e {
        UntyLamExpr::Var(v) => Term::Var(v@),
        UntyLamExpr::Abs(a) => Term::Abs(a.var@, Box::new(term_of(*a.expr))),
        UntyLamExpr::App(a) => Term::App(Box::new(term_of(*a.lhs)), Box::new(term_of(*a.rhs))),
    }
}

impl View for UntyLamExpr {
    type V = Term;

    open spec fn view(&self) -> Term {
        term_of(*self)
    }
}

/// The terms of an optional expression.
pub open spec fn opt_term(r: Option<UntyLamExpr>) -> Option<Term> {
    match r {
        Some(e) => Some(e@),
        None => None,
    }
}

impl UntyLamExpr {
    /// A copy of the whole tree.
    pub fn copy(&self) -> (r: Self)
        ensures
            r@ == self@,
        decreases self,
    {
        match self {
            UntyLamExpr::Var(v) => UntyLamExpr::Var(v.copy()),
            UntyLamExpr::Abs(a) => UntyAbs::new_expr(a.var.copy(), a.expr.copy()),
            UntyLamExpr::App(a) => App::new_expr(a.lhs.copy(), a.rhs.copy()),
        }
    }

    /// Whether `n` occurs anywhere, as a variable or as a parameter.
    pub fn mentions(&self, n: &UntyVar) -> (r: bool)
        ensures
            r == occurs(self@, n@),
        decreases self,
    {
        match self {
            UntyLamExpr::Var(v) => v.same_name(n),
            UntyLamExpr::Abs(a) => a.var.same_name(n) || a.expr.mentions(n),
            UntyLamExpr::App(a) => a.lhs.mentions(n) || a.rhs.mentions(n),
        }
    }

    /// Whether `n` occurs free.
    pub fn has_free(&self, n: &UntyVar) -> (r: bool)
        ensures
            r == free_in(self@, n@),
        decreases self,
    {
        match self {
            UntyLamExpr::Var(v) => v.same_name(n),
            UntyLamExpr::Abs(a) => !a.var.same_name(n) && a.expr.has_free(n),
            UntyLamExpr::App(a) => a.lhs.has_free(n) || a.rhs.has_free(n),
        }
    }

    /// Length of the longest name in the expression.
    pub fn max_name_len(&self) -> (r: usize)
        ensures
            r == max_len(self@),
        decreases self,
    {
        match self {
            UntyLamExpr::Var(v) => v.name_len(),
            UntyLamExpr::Abs(a) => {
                let p = a.var.name_len();
                let b = a.expr.max_name_len();
                if p >= b {
                    p
                } else {
                    b
                }
            },
            UntyLamExpr::App(a) => {
                let f = a.lhs.max_name_len();
                let x = a.rhs.max_name_len();
                if f >= x {
                    f
                } else {
                    x
                }
            },
        }
    }

    /// Replaces the free occurrences of `old` by `new`.
    pub fn rename(&self, old: &UntyVar, new: &UntyVar) -> (r: Self)
        ensures
            r@ == rename(self@, old@, new@),
        decreases self,
    {
        match self {
            UntyLamExpr::Var(v) => if v.same_name(old) {
                UntyLamExpr::Var(new.copy())
            } else {
                UntyLamExpr::Var(v.copy())
            },
            UntyLamExpr::Abs(a) => if a.var.same_name(old) {
                self.copy()
            } else {
                UntyAbs::new_expr(a.var.copy(), a.expr.rename(old, new))
            },
            UntyLamExpr::App(a) => App::new_expr(a.lhs.rename(old, new), a.rhs.rename(old, new)),
        }
    }

    /// Capture-avoiding substitution of `e` for the free occurrences of `v`.
    pub fn subst(&self, v: &UntyVar, e: &UntyLamExpr) -> (r: Self)
        ensures
            r@ == subst(self@, v@, e@),
        decreases size(self@), 1int,
    {
        match self {
            UntyLamExpr::Var(x) => x.subst_var(v, e),
            UntyLamExpr::Abs(a) => a.subst_abs(v, e),
            UntyLamExpr::App(a) => a.subst_app(v, e),
        }
    }

    /// One normal-order reduction step, or `None` in normal form.
    pub fn step(&self) -> (r: Option<Self>)
        ensures
            opt_term(r) == step(self@),
        decreases self,
    {
        match self {
            UntyLamExpr::Var(_) => None,
            UntyLamExpr::Abs(a) => match a.expr.step() {
                Some(b) => Some(UntyAbs::new_expr(a.var.copy(), b)),
                None => None,
            },
            UntyLamExpr::App(a) => match &*a.lhs {
                UntyLamExpr::Abs(f) => Some(f.expr.subst(&f.var, &a.rhs)),
                _ => match a.lhs.step() {
                    Some(l) => Some(App::new_expr(l, a.rhs.copy())),
                    None => match a.rhs.step() {
                        Some(r) => Some(App::new_expr(a.lhs.copy(), r)),
                        None => None,
                    },
                },
            },
        }
    }

    fn render_into(&self, out: &mut String)
        ensures
            final(out)@ == old(out)@ + render(self@),
        decreases self,
    {
        proof {
            reveal_strlit("λ ");
            reveal_strlit(". ");
            reveal_strlit(" ");
        }
        match self {
            UntyLamExpr::Var(v) => v.write_name(out),
            UntyLamExpr::Abs(a) => {
                let ghost start = out@;
                out.append("λ ");
                a.var.write_name(out);
                out.append(". ");
                a.expr.render_into(out);
                assert(out@ =~= start + render(self@));
            },
            UntyLamExpr::App(a) => {
                let ghost start = out@;
                a.lhs.render_into(out);
                out.append(" ");
                a.rhs.render_into(out);
                assert(out@ =~= start + render(self@));
            },
        }
    }

    /// The text of the expression: `λ p. body` for an abstraction and
    /// `f a` for an application, with no parentheses added.
    pub fn render(&self) -> (r: String)
        ensures
            r@ == render(self@),
    {
        let mut out = String::new();
        self.render_into(&mut out);
        assert(out@ =~= render(self@));
        out
    }
}

impl Sum<UntyVar> for UntyLamExpr {
    open spec fn packed(content: UntyVar) -> Self {
        UntyLamExpr::Var(content)
    }

    fn pack(content: UntyVar) -> Self {
        UntyLamExpr::Var(content)
    }
}

impl Sum<UntyAbs> for UntyLamExpr {
    open spec fn packed(content: UntyAbs) -> Self {
        UntyLamExpr::Abs(content)
    }

    fn pack(content: UntyAbs) -> Self {
        UntyLamExpr::Abs(content)
    }
}

impl Sum<App> for UntyLamExpr {
    open spec fn packed(content: App) -> Self {
        UntyLamExpr::App(content)
    }

    fn pack(content: App) -> Self {
        UntyLamExpr::App(content)
    }
}

impl Expression<UntyLamExpr> for UntyLamExpr {
    open spec fn spec_is_value(&self) -> bool {
        is_value(self@)
    }

    open spec fn is_step_of(&self, r: Result<UntyLamExpr, CalcStepError>) -> bool {
        match r {
            Ok(e) => step(self@) == Some(e@),
            Err(CalcStepError::NoRedex) => step(self@) is None,
        }
    }

    fn is_value(&self) -> bool {
        match self {
            UntyLamExpr::App(_) => false,
            _ => true,
        }
    }

    fn calc_step(&self) -> Result<UntyLamExpr, CalcStepError> {
        match self.step() {
            Some(e) => Ok(e),
            None => Err(CalcStepError::NoRedex),
        }
    }
}

impl Substitution<UntyVar, UntyLamExpr> for UntyLamExpr {
    open spec fn is_substitution_of(&self, v: UntyVar, e: UntyLamExpr, r: UntyLamExpr) -> bool {
        r@ == subst(self@, v@, e@)
    }

    fn substitute(&self, v: &UntyVar, e: &UntyLamExpr) -> UntyLamExpr {
        self.subst(v, e)
    }
}

impl IsAbs for UntyLamExpr {
    open spec fn spec_is_abs(&self) -> bool {
        self is Abs
    }

    fn is_abs(&self) -> bool {
        match self {
            UntyLamExpr::Abs(_) => true,
            _ => false,
        }
    }
}

} // verus!
