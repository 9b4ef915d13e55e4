use vstd::prelude::*;

verus! {

/// Why a reduction step could not be taken.
#[derive(Debug, PartialEq, Eq, Clone, Copy)]
pub enum CalcStepError {
    /// The expression is in normal form.
    NoRedex,
}

/// A sum type that can hold a `TERM` as one of its variants.
pub trait Sum<TERM>: Sized {
    /// The sum value that holds `content`.
    spec fn packed(content: TERM) -> Self;

    fn pack(content: TERM) -> (r: Self)
        ensures
            r == Self::packed(content),
    ;
}

/// An expression that can be tested for value-ness and stepped.
pub trait Expression<EXPR>: Sized {
    spec fn spec_is_value(&self) -> bool;

    /// `r` is what one reduction step of `self` gives.
    spec fn is_step_of(&self, r: Result<EXPR, CalcStepError>) -> bool;

    fn is_value(&self) -> (r: bool)
        ensures
            r == self.spec_is_value(),
    ;

    fn calc_step(&self) -> (r: Result<EXPR, CalcStepError>)
        ensures
            self.is_step_of(r),
    ;
}

/// An expression in which a variable can be replaced by an expression.
pub trait Substitution<VAR, EXPR>: Sized {
    /// `r` is `self` with `e` substituted for `v`.
    spec fn is_substitution_of(&self, v: VAR, e: EXPR, r: EXPR) -> bool;

    fn substitute(&self, v: &VAR, e: &EXPR) -> (r: EXPR)
        ensures
            self.is_substitution_of(*v, *e, r),
    ;
}

} // verus!
