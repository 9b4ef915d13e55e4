use crate::term::Term;
use vstd::prelude::*;

verus! {

// The grammar of expressions as an ordered-choice (PEG) semantics over the
// characters of the input. Each rule takes a position `i` and yields what it
// recognizes there with the number of characters it consumed, or `None`.
//
//   expression := abstraction / application / variable / "(" ws* expression ws* ")"
//   abstraction := lambda ws* variable (ws+ variable)* ws* "." ws* expression
//   application := operand ws+ operand (ws+ operand)*      (left-associative)
//   operand     := "(" ws* expression ws* ")" / variable
//   variable    := [A-Za-z][A-Za-z0-9]*
//   lambda      := "λ" / "\" / "lam" ws+ / "lambda" ws+ / "fun" ws+
//   ws          := " " / "\t" / "\n"
pub open spec fn is_ws(c: char) -> bool {
    c == ' ' || c == '\t' || c == '\n'
}

pub open spec fn is_letter(c: char) -> bool {
    ('a' <= c && c <= 'z') || ('A' <= c && c <= 'Z')
}

pub open spec fn is_alnum(c: char) -> bool {
    is_letter(c) || ('0' <= c && c <= '9')
}

/// Number of characters from `i` to the end.
pub open spec fn rest_len(s: Seq<char>, i: int) -> nat {
    if i <= s.len() {
        (s.len() - i) as nat
    } else {
        0
    }
}

/// Length of the run of whitespace at `i`.
pub open spec fn ws_len(s: Seq<char>, i: int) -> nat
    decreases s.len() - i,
{
    if 0 <= i < s.len() && is_ws(s[i]) {
        1 + ws_len(s, i + 1)
    } else {
        0
    }
}

/// Length of the run of letters and digits at `i`.
pub open spec fn alnum_len(s: Seq<char>, i: int) -> nat
    decreases s.len() - i,
{
    if 0 <= i < s.len() && is_alnum(s[i]) {
        1 + alnum_len(s, i + 1)
    } else {
        0
    }
}

/// `x` is a well-formed variable name.
pub open spec fn is_name(x: Seq<char>) -> bool {
    x.len() > 0 && is_letter(x[0]) && forall|k: int| 1 <= k < x.len() ==> is_alnum(x[k])
}

/// Every variable and parameter of `t` has a well-formed name.
pub open spec fn names_valid(t: Term) -> bool
    decreases t,
{
    match t {
        Term::Var(x) => is_name(x),
        Term::Abs(p, b) => is_name(p) && names_valid(*b),
        Term::App(f, a) => names_valid(*f) && names_valid(*a),
    }
}

pub proof fn lemma_alnum_run(s: Seq<char>, i: int)
    requires
        0 <= i <= s.len(),
    ensures
        i + alnum_len(s, i) <= s.len(),
        forall|k: int| i <= k < i + alnum_len(s, i) ==> is_alnum(#[trigger] s[k]),
    decreases s.len() - i,
{
    if i < s.len() && is_alnum(s[i]) {
        lemma_alnum_run(s, i + 1);
    }
}

/// What a variable rule consumes is a well-formed name.
pub proof fn lemma_variable_name(s: Seq<char>, i: int)
    requires
        0 <= i,
        var_len(s, i) > 0,
    ensures
        i + var_len(s, i) <= s.len(),
        is_name(s.subrange(i, i + var_len(s, i))),
{
    lemma_alnum_run(s, i + 1);
    let x = s.subrange(i, i + var_len(s, i));
    assert forall|k: int| 1 <= k < x.len() implies is_alnum(x[k]) by {
        assert(x[k] == s[i + k]);
    }
}

/// Length of the variable name at `i`, zero if there is none.
pub open spec fn var_len(s: Seq<char>, i: int) -> nat {
    if 0 <= i < s.len() && is_letter(s[i]) {
        1 + alnum_len(s, i + 1)
    } else {
        0
    }
}

/// The characters of `w` stand at `i`.
pub open spec fn word_at(s: Seq<char>, i: int, w: Seq<char>) -> bool {
    0 <= i && i + w.len() <= s.len() && forall|k: int| 0 <= k < w.len() ==> s[i + k] == w[k]
}

/// Length of keyword `w` at `i` with the whitespace that must follow it,
/// zero if they are not there.
pub open spec fn keyword_len(s: Seq<char>, i: int, w: Seq<char>) -> nat {
    if word_at(s, i, w) && ws_len(s, i + w.len()) > 0 {
        w.len() + ws_len(s, i + w.len())
    } else {
        0
    }
}

/// Length of the lambda sign at `i`, zero if there is none.
pub open spec fn lambda_len(s: Seq<char>, i: int) -> nat {
    if 0 <= i < s.len() && (s[i] == 'λ' || s[i] == '\\') {
        1
    } else if keyword_len(s, i, seq!['l', 'a', 'm']) > 0 {
        keyword_len(s, i, seq!['l', 'a', 'm'])
    } else if keyword_len(s, i, seq!['l', 'a', 'm', 'b', 'd', 'a']) > 0 {
        keyword_len(s, i, seq!['l', 'a', 'm', 'b', 'd', 'a'])
    } else {
        keyword_len(s, i, seq!['f', 'u', 'n'])
    }
}

/// A variable at `i`.
pub open spec fn variable(s: Seq<char>, i: int) -> Option<(Term, nat)> {
    let n = var_len(s, i);
    if n == 0 {
        None
    } else {
        Some((Term::Var(s.subrange(i, i + n)), n))
    }
}

/// An expression at `i`: the first of the four alternatives that matches.
pub open spec fn expression(s: Seq<char>, i: int) -> Option<(Term, nat)>
    decreases rest_len(s, i), 4int,
{
    match abstraction(s, i) {
        Some(r) => Some(r),
        None => match application(s, i) {
            Some(r) => Some(r),
            None => match variable(s, i) {
                Some(r) => Some(r),
                None => parenthesized(s, i),
            },
        },
    }
}

/// An abstraction at `i`: a lambda sign, then its parameters and body.
pub open spec fn abstraction(s: Seq<char>, i: int) -> Option<(Term, nat)>
    decreases rest_len(s, i), 3int,
{
    let l = lambda_len(s, i);
    if l == 0 {
        None
    } else {
        let p = i + l + ws_len(s, i + l);
        match parameters(s, p) {
            Some((t, m)) => Some((t, (p + m - i) as nat)),
            None => None,
        }
    }
}

/// The parameters of an abstraction from `i` on, then its dot and body;
/// `x y. e` stands for `x. (y. e)`.
pub open spec fn parameters(s: Seq<char>, i: int) -> Option<(Term, nat)>
    decreases rest_len(s, i), 2int,
{
    let n = var_len(s, i);
    if n == 0 {
        None
    } else {
        let x = s.subrange(i, i + n);
        let w = ws_len(s, i + n);
        if w > 0 && var_len(s, i + n + w) > 0 {
            match parameters(s, i + n + w) {
                Some((b, m)) => Some((Term::Abs(x, Box::new(b)), n + w + m)),
                None => None,
            }
        } else {
            let d = i + n + w;
            if 0 <= d < s.len() && s[d] == '.' {
                let b = d + 1 + ws_len(s, d + 1);
                match expression(s, b) {
                    Some((e, m)) => Some((Term::Abs(x, Box::new(e)), (b + m - i) as nat)),
                    None => None,
                }
            } else {
                None
            }
        }
    }
}

/// An application at `i`: two or more operands apart by whitespace.
pub open spec fn application(s: Seq<char>, i: int) -> Option<(Term, nat)>
    decreases rest_len(s, i), 3int,
{
    match operand(s, i) {
        None => None,
        Some((f, n1)) => {
            let w = ws_len(s, i + n1);
            if w == 0 {
                None
            } else {
                match operand(s, i + n1 + w) {
                    None => None,
                    Some((a, n2)) => {
                        let rest = applied(s, i + n1 + w + n2, Term::App(Box::new(f), Box::new(a)));
                        Some((rest.0, n1 + w + n2 + rest.1))
                    },
                }
            }
        },
    }
}

/// The further operands of an application from `i` on, applied in turn to
/// `acc` from the left; stops before whitespace that no operand follows.
pub open spec fn applied(s: Seq<char>, i: int, acc: Term) -> (Term, nat)
    decreases rest_len(s, i), 3int,
{
    let w = ws_len(s, i);
    if w == 0 {
        (acc, 0)
    } else {
        match operand(s, i + w) {
            None => (acc, 0),
            Some((a, n)) => {
                let rest = applied(s, i + w + n, Term::App(Box::new(acc), Box::new(a)));
                (rest.0, w + n + rest.1)
            },
        }
    }
}

/// An operand of an application: a parenthesized expression or a variable.
pub open spec fn operand(s: Seq<char>, i: int) -> Option<(Term, nat)>
    decreases rest_len(s, i), 1int,
{
    match parenthesized(s, i) {
        Some(r) => Some(r),
        None => variable(s, i),
    }
}

/// An expression in parentheses at `i`.
pub open spec fn parenthesized(s: Seq<char>, i: int) -> Option<(Term, nat)>
    decreases rest_len(s, i), 0int,
{
    if 0 <= i < s.len() && s[i] == '(' {
        let p = i + 1 + ws_len(s, i + 1);
        match expression(s, p) {
            Some((e, n)) => {
                let c = p + n + ws_len(s, p + n);
                if 0 <= c < s.len() && s[c] == ')' {
                    Some((e, (c + 1 - i) as nat))
                } else {
                    None
                }
            },
            None => None,
        }
    } else {
        None
    }
}

/// The term that the whole text `s` denotes, if it is an expression.
pub open spec fn parse(s: Seq<char>) -> Option<Term> {
    match expression(s, 0) {
        Some((t, n)) => if n == s.len() {
            Some(t)
        } else {
            None
        },
        None => None,
    }
}

/// Where parsing `s` stopped: the end of the expression that starts it, or
/// zero when it does not start with one.
pub open spec fn stop(s: Seq<char>) -> nat {
    match expression(s, 0) {
        Some((_, n)) => n,
        None => 0,
    }
}

} // verus!
