use crate::expressions::{CalcStepError, Expression};
use crate::history::HistoryView;
use crate::term::{
    fresh_from, fresh_name, free_in, has_redex, in_scope, lemma_fresh_name, lemma_rename_size,
    occurs, ones, rename, scope_len, size, step, subst, Term,
};
use crate::untyped_lambda_calculus::UntyLamExpr;
use vstd::prelude::*;

verus! {

proof fn lemma_free_occurs(t: Term, n: Seq<char>)
    ensures
        free_in(t, n) ==> occurs(t, n),
    decreases t,
{
    match t {
        Term::Var(_) => {},
        Term::Abs(_, b) => {
            lemma_free_occurs(*b, n);
        },
        Term::App(f, a) => {
            lemma_free_occurs(*f, n);
            lemma_free_occurs(*a, n);
        },
    }
}

proof fn lemma_rename_free(b: Term, p: Seq<char>, q: Seq<char>, n: Seq<char>)
    requires
        !occurs(b, q),
        p != q,
    ensures
        free_in(rename(b, p, q), n) == if n == q {
            free_in(b, p)
        } else {
            n != p && free_in(b, n)
        },
    decreases b,
{
    match b {
        Term::Var(_) => {},
        Term::Abs(_, c) => {
            lemma_free_occurs(*c, q);
            lemma_rename_free(*c, p, q, n);
        },
        Term::App(f, a) => {
            lemma_rename_free(*f, p, q, n);
            lemma_rename_free(*a, p, q, n);
        },
    }
}

proof fn lemma_fresh_from_longer(base: Seq<char>, body: Term, r: Term, v: Seq<char>, k: nat)
    ensures
        fresh_from(base, body, r, v, k).len() >= base.len() + k,
    decreases scope_len(body, r, v) + 1 - k,
{
    let cand = base + ones(k);
    if cand.len() <= scope_len(body, r, v) && in_scope(cand, body, r, v) {
        lemma_fresh_from_longer(base, body, r, v, k + 1);
    }
}

/// Substitution captures no variable: after `r` replaces `v` in `t`, a name
/// is free exactly when it was free in `t` and is not `v`, or it is free in
/// `r` and `v` was free in `t`.
pub proof fn lemma_subst_free(t: Term, v: Seq<char>, r: Term, n: Seq<char>)
    ensures
        free_in(subst(t, v, r), n) == ((free_in(t, n) && n != v) || (free_in(t, v) && free_in(
            r,
            n,
        ))),
    decreases size(t),
{
    match t {
        Term::Var(_) => {},
        Term::App(f, a) => {
            lemma_subst_free(*f, v, r, n);
            lemma_subst_free(*a, v, r, n);
        },
        Term::Abs(p, b) => {
            if p == v {
            } else if free_in(r, p) {
                let q = fresh_name(p, *b, r, v);
                lemma_fresh_name(p, *b, r, v);
                lemma_fresh_from_longer(p, *b, r, v, 1);
                lemma_rename_size(*b, p, q);
                lemma_rename_free(*b, p, q, n);
                lemma_rename_free(*b, p, q, v);
                lemma_subst_free(rename(*b, p, q), v, r, n);
                lemma_free_occurs(*b, q);
            } else {
                lemma_subst_free(*b, v, r, n);
            }
        },
    }
}

/// Normal order finds a redex whenever there is one: a step fails exactly on
/// the terms that hold no redex.
pub proof fn lemma_no_step_iff_normal_form(t: Term)
    ensures
        step(t) is None <==> !has_redex(t),
    decreases t,
{
    match t {
        Term::Var(_) => {},
        Term::Abs(_, b) => {
            lemma_no_step_iff_normal_form(*b);
        },
        Term::App(f, a) => {
            lemma_no_step_iff_normal_form(*f);
            lemma_no_step_iff_normal_form(*a);
        },
    }
}

/// A variable never steps.
pub proof fn lemma_variable_is_normal(x: Seq<char>)
    ensures
        step(Term::Var(x)) is None,
{
}

/// Stepping is deterministic: two expressions that denote the same term step
/// to the same term, or both fail.
pub proof fn lemma_step_deterministic(
    a: UntyLamExpr,
    b: UntyLamExpr,
    ra: Result<UntyLamExpr, CalcStepError>,
    rb: Result<UntyLamExpr, CalcStepError>,
)
    requires
        a@ == b@,
        a.is_step_of(ra),
        b.is_step_of(rb),
    ensures
        match (ra, rb) {
            (Ok(x), Ok(y)) => x@ == y@,
            (Err(_), Err(_)) => true,
            _ => false,
        },
{
}

/// After recording three terms and undoing twice, the first of them is
/// current; recording a fourth then drops the other two, so that redo fails.
pub proof fn lemma_history_linear(h: HistoryView, a: Term, b: Term, c: Term, d: Term)
    requires
        h.wf(),
    ensures
        ({
            let h3 = h.record(a).record(b).record(c);
            let u1 = h3.undo();
            let u2 = u1.0.undo();
            let h4 = u2.0.record(d);
            &&& u1.1 == Some(b)
            &&& u2.1 == Some(a)
            &&& h4.wf()
            &&& h4.current() == Some(d)
            &&& h4.entries.len() == h3.entries.len() - 1
            &&& h4.redo().1 is None
            &&& h4.redo().0 == h4
        }),
{
    let h1 = h.record(a);
    let h2 = h1.record(b);
    let h3 = h2.record(c);
    assert(h3.entries[h3.cursor - 1] == b);
    assert(h3.entries[h3.cursor - 2] == a);
}

/// The self-application `(λx. x x) (λx. x x)`.
pub open spec fn omega() -> Term {
    let w = Term::Abs(
        seq!['x'],
        Box::new(Term::App(Box::new(Term::Var(seq!['x'])), Box::new(Term::Var(seq!['x'])))),
    );
    Term::App(Box::new(w), Box::new(w))
}

/// The self-application steps to itself.
pub proof fn lemma_omega_steps_to_itself()
    ensures
        step(omega()) == Some(omega()),
{
    let x = Term::Var(seq!['x']);
    let w = Term::Abs(seq!['x'], Box::new(Term::App(Box::new(x), Box::new(x))));
    assert(subst(x, seq!['x'], w) == w);
    assert(subst(Term::App(Box::new(x), Box::new(x)), seq!['x'], w) == Term::App(
        Box::new(w),
        Box::new(w),
    ));
}

/// The history after `n` steps forward.
pub open spec fn step_forward_n(h: HistoryView, n: nat) -> HistoryView
    decreases n,
{
    if n == 0 {
        h
    } else {
        step_forward_n(h.step_forward().0, (n - 1) as nat)
    }
}

/// Stepping the self-application never ends: after any number of steps
/// forward the current term is the same, and the next step succeeds too.
pub proof fn lemma_omega_never_stops(h: HistoryView, n: nat)
    requires
        h.wf(),
        h.current() == Some(omega()),
    ensures
        step_forward_n(h, n).wf(),
        step_forward_n(h, n).current() == Some(omega()),
        step_forward_n(h, n).step_forward().1 == Some(omega()),
    decreases n,
{
    lemma_omega_steps_to_itself();
    if n > 0 {
        let h1 = h.step_forward().0;
        assert(h1.current() == Some(omega()));
        lemma_omega_never_stops(h1, (n - 1) as nat);
    }
}

} // verus!
