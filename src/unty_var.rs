use crate::expressions::Substitution;
use crate::term::{subst, Term};
use crate::untyped_lambda_calculus::UntyLamExpr;
use vstd::prelude::*;
use vstd::string::*;

verus! {

/// A variable, known by its name.
#[derive(Debug, PartialEq, PartialOrd, Ord, Eq, Hash, Clone)]
pub struct UntyVar {
    name: String,
}

impl View for UntyVar {
    type V = Seq<char>;

    closed spec fn view(&self) -> Seq<char> {
        self.name@
    }
}

impl UntyVar {
    pub fn new(name: &str) -> (r: Self)
        ensures
            r@ == name@,
    {
        Self { name: String::from_str(name) }
    }

    pub fn new_expr(name: &str) -> (r: UntyLamExpr)
        ensures
            r@ == Term::Var(name@),
    {
        UntyLamExpr::Var(Self::new(name))
    }

    pub fn into_expr(self) -> (r: UntyLamExpr)
        ensures
            r == UntyLamExpr::Var(self),
            r@ == Term::Var(self@),
    {
        UntyLamExpr::Var(self)
    }

    /// A copy with the same name.
    pub fn copy(&self) -> (r: Self)
        ensures
            r@ == self@,
    {
        Self { name: self.name.clone() }
    }

    pub fn same_name(&self, other: &Self) -> (r: bool)
        ensures
            r == (self@ == other@),
    {
        self.name == other.name
    }

    /// Number of characters in the name.
    pub fn name_len(&self) -> (r: usize)
        ensures
            r == self@.len(),
    {
        self.name.as_str().unicode_len()
    }

    /// Appends the digit one to the name.
    pub fn push_one(&mut self)
        ensures
            final(self)@ == old(self)@ + seq!['1'],
    {
        proof {
            reveal_strlit("1");
        }
        self.name.append("1");
    }

    /// Substitution in a variable: `e` when the names agree, else the
    /// variable itself.
    pub fn subst_var(&self, v: &UntyVar, e: &UntyLamExpr) -> (r: UntyLamExpr)
        ensures
            r@ == subst(Term::Var(self@), v@, e@),
    {
        if self.same_name(v) {
            e.copy()
        } else {
            UntyLamExpr::Var(self.copy())
        }
    }

    /// Appends the name to `out`.
    pub fn write_name(&self, out: &mut String)
        ensures
            final(out)@ == old(out)@ + self@,
    {
        out.append(self.name.as_str());
    }
}

impl Substitution<UntyVar, UntyLamExpr> for UntyVar {
    open spec fn is_substitution_of(&self, v: UntyVar, e: UntyLamExpr, r: UntyLamExpr) -> bool {
        r@ == subst(Term::Var(self@), v@, e@)
    }

    fn substitute(&self, v: &UntyVar, e: &UntyLamExpr) -> UntyLamExpr {
        self.subst_var(v, e)
    }
}

} // verus!
