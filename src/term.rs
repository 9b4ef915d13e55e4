use vstd::prelude::*;

verus! {

/// The mathematical model of a lambda term: variables are named by their
/// character sequences.
pub enum Term {
    Var(Seq<char>),
    Abs(Seq<char>, Box<Term>),
    App(Box<Term>, Box<Term>),
}

/// Number of nodes in the tree.
pub open spec fn size(t: Term) -> nat
    decreases t,
{
    match t {
        Term::Var(_) => 1,
        Term::Abs(_, b) => 1 + size(*b),
        Term::App(f, a) => 1 + size(*f) + size(*a),
    }
}

/// Variables and abstractions are values; an application never is.
pub open spec fn is_value(t: Term) -> bool {
    !(t is App)
}

/// `n` occurs free in `t`.
pub open spec fn free_in(t: Term, n: Seq<char>) -> bool
    decreases t,
{
    match t {
        Term::Var(x) => x == n,
        Term::Abs(p, b) => p != n && free_in(*b, n),
        Term::App(f, a) => free_in(*f, n) || free_in(*a, n),
    }
}

/// `n` occurs anywhere in `t`, as a variable or as a parameter.
pub open spec fn occurs(t: Term, n: Seq<char>) -> bool
    decreases t,
{
    match t {
        Term::Var(x) => x == n,
        Term::Abs(p, b) => p == n || occurs(*b, n),
        Term::App(f, a) => occurs(*f, n) || occurs(*a, n),
    }
}

pub open spec fn max_nat(a: nat, b: nat) -> nat {
    if a >= b {
        a
    } else {
        b
    }
}

/// Length of the longest name that occurs in `t`.
pub open spec fn max_len(t: Term) -> nat
    decreases t,
{
    match t {
        Term::Var(x) => x.len(),
        Term::Abs(p, b) => max_nat(p.len(), max_len(*b)),
        Term::App(f, a) => max_nat(max_len(*f), max_len(*a)),
    }
}

/// Replaces the free occurrences of `old` by `new`. This is only meaningful
/// (and only used) when `new` occurs nowhere in `t`.
pub open spec fn rename(t: Term, old: Seq<char>, new: Seq<char>) -> Term
    decreases t,
{
    match t {
        Term::Var(x) => if x == old {
            Term::Var(new)
        } else {
            Term::Var(x)
        },
        Term::Abs(p, b) => if p == old {
            Term::Abs(p, b)
        } else {
            Term::Abs(p, Box::new(rename(*b, old, new)))
        },
        Term::App(f, a) => Term::App(
            Box::new(rename(*f, old, new)),
            Box::new(rename(*a, old, new)),
        ),
    }
}

/// `k` copies of the digit one.
pub open spec fn ones(k: nat) -> Seq<char> {
    Seq::new(k, |_i: int| '1')
}

/// A name that a renamed parameter must avoid while `v` is replaced by `r`
/// in `body`.
pub open spec fn in_scope(n: Seq<char>, body: Term, r: Term, v: Seq<char>) -> bool {
    occurs(body, n) || free_in(r, n) || n == v
}

/// No name in scope is longer than this.
pub open spec fn scope_len(body: Term, r: Term, v: Seq<char>) -> nat {
    max_nat(max_len(body), max_nat(max_len(r), v.len()))
}

/// Tries `base1`, `base11`, `base111`, ... from `k` ones on, and takes the
/// first candidate that is not in scope. A candidate longer than
/// `scope_len` is out of scope whatever it spells.
pub open spec fn fresh_from(base: Seq<char>, body: Term, r: Term, v: Seq<char>, k: nat) -> Seq<
    char,
>
    decreases scope_len(body, r, v) + 1 - k,
{
    let cand = base + ones(k);
    if cand.len() > scope_len(body, r, v) || !in_scope(cand, body, r, v) {
        cand
    } else {
        fresh_from(base, body, r, v, k + 1)
    }
}

/// The name that parameter `base` gets when it would capture a free variable
/// of `r`.
pub open spec fn fresh_name(base: Seq<char>, body: Term, r: Term, v: Seq<char>) -> Seq<char> {
    fresh_from(base, body, r, v, 1)
}

/// Capture-avoiding substitution of `r` for the free occurrences of `v` in `t`.
pub open spec fn subst(t: Term, v: Seq<char>, r: Term) -> Term
    decreases size(t),
{
    match t {
        Term::Var(x) => if x == v {
            r
        } else {
            Term::Var(x)
        },
        Term::App(f, a) => Term::App(Box::new(subst(*f, v, r)), Box::new(subst(*a, v, r))),
        Term::Abs(p, b) => if p == v {
            Term::Abs(p, b)
        } else if free_in(r, p) {
            let q = fresh_name(p, *b, r, v);
            proof {
                lemma_rename_size(*b, p, q);
            }
            Term::Abs(q, Box::new(subst(rename(*b, p, q), v, r)))
        } else {
            Term::Abs(p, Box::new(subst(*b, v, r)))
        },
    }
}

/// One normal-order (leftmost-outermost) beta step; `None` when `t` has no
/// redex.
pub open spec fn step(t: Term) -> Option<Term>
    decreases t,
{
    match t {
        Term::Var(_) => None,
        Term::Abs(p, b) => match step(*b) {
            Some(b2) => Some(Term::Abs(p, Box::new(b2))),
            None => None,
        },
        Term::App(f, a) => match *f {
            Term::Abs(p, body) => Some(subst(*body, p, *a)),
            _ => match step(*f) {
                Some(f2) => Some(Term::App(Box::new(f2), a)),
                None => match step(*a) {
                    Some(a2) => Some(Term::App(f, Box::new(a2))),
                    None => None,
                },
            },
        },
    }
}

/// `t` holds a redex: an application whose function is an abstraction.
pub open spec fn has_redex(t: Term) -> bool
    decreases t,
{
    match t {
        Term::Var(_) => false,
        Term::Abs(_, b) => has_redex(*b),
        Term::App(f, a) => (*f is Abs) || has_redex(*f) || has_redex(*a),
    }
}

/// The text of a term: `λ p. body` and `f a`, with no parentheses added.
pub open spec fn render(t: Term) -> Seq<char>
    decreases t,
{
    match t {
        Term::Var(x) => x,
        Term::Abs(p, b) => seq!['λ', ' '] + p + seq!['.', ' '] + render(*b),
        Term::App(f, a) => render(*f) + seq![' '] + render(*a),
    }
}

pub proof fn lemma_rename_size(t: Term, old: Seq<char>, new: Seq<char>)
    ensures
        size(rename(t, old, new)) == size(t),
    decreases t,
{
    match t {
        Term::Var(_) => {},
        Term::Abs(p, b) => {
            lemma_rename_size(*b, old, new);
        },
        Term::App(f, a) => {
            lemma_rename_size(*f, old, new);
            lemma_rename_size(*a, old, new);
        },
    }
}

pub proof fn lemma_longer_not_occurs(t: Term, n: Seq<char>)
    requires
        n.len() > max_len(t),
    ensures
        !occurs(t, n),
        !free_in(t, n),
    decreases t,
{
    match t {
        Term::Var(_) => {},
        Term::Abs(p, b) => {
            lemma_longer_not_occurs(*b, n);
        },
        Term::App(f, a) => {
            lemma_longer_not_occurs(*f, n);
            lemma_longer_not_occurs(*a, n);
        },
    }
}

proof fn lemma_fresh_from(base: Seq<char>, body: Term, r: Term, v: Seq<char>, k: nat)
    ensures
        !in_scope(fresh_from(base, body, r, v, k), body, r, v),
    decreases scope_len(body, r, v) + 1 - k,
{
    let cand = base + ones(k);
    if cand.len() > scope_len(body, r, v) {
        lemma_longer_not_occurs(body, cand);
        lemma_longer_not_occurs(r, cand);
    } else if in_scope(cand, body, r, v) {
        lemma_fresh_from(base, body, r, v, k + 1);
    }
}

/// The name chosen for a renamed parameter is in scope nowhere: it occurs
/// nowhere in the body, is not free in the replacement, and differs from the
/// variable being replaced.
pub proof fn lemma_fresh_name(base: Seq<char>, body: Term, r: Term, v: Seq<char>)
    ensures
        !occurs(body, fresh_name(base, body, r, v)),
        !free_in(r, fresh_name(base, body, r, v)),
        fresh_name(base, body, r, v) != v,
{
    lemma_fresh_from(base, body, r, v, 1);
}

} // verus!
