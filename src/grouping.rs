use crate::grammar::{
    abstraction, alnum_len, application, applied, expression, is_alnum, is_ws, keyword_len,
    lambda_len, lemma_alnum_run, lemma_variable_name, operand, parameters, parenthesized, parse,
    rest_len, var_len, variable, word_at, ws_len,
};
use crate::term::Term;
use vstd::prelude::*;

verus! {

/// `t` in parentheses.
pub open spec fn wrap(t: Seq<char>) -> Seq<char> {
    seq!['('] + t + seq![')']
}

/// Every opening parenthesis of `t` starts a parenthesized expression.
pub open spec fn parens_close(t: Seq<char>) -> bool {
    forall|j: int| 0 <= j < t.len() && t[j] == '(' ==> (#[trigger] parenthesized(t, j)) is Some
}

proof fn lemma_wrap_at(t: Seq<char>, i: int)
    requires
        0 <= i,
    ensures
        i < t.len() ==> wrap(t)[i + 1] == t[i],
        i == t.len() ==> wrap(t)[i + 1] == ')',
        wrap(t).len() == t.len() + 2,
{
}

proof fn lemma_ws_shift(t: Seq<char>, i: int)
    requires
        0 <= i,
    ensures
        ws_len(wrap(t), i + 1) == ws_len(t, i),
    decreases rest_len(t, i),
{
    lemma_wrap_at(t, i);
    if i < t.len() && is_ws(t[i]) {
        lemma_ws_shift(t, i + 1);
    }
}

proof fn lemma_alnum_shift(t: Seq<char>, i: int)
    requires
        0 <= i,
    ensures
        alnum_len(wrap(t), i + 1) == alnum_len(t, i),
    decreases rest_len(t, i),
{
    lemma_wrap_at(t, i);
    if i < t.len() && is_alnum(t[i]) {
        lemma_alnum_shift(t, i + 1);
    }
}

proof fn lemma_var_len_shift(t: Seq<char>, i: int)
    requires
        0 <= i,
    ensures
        var_len(wrap(t), i + 1) == var_len(t, i),
{
    lemma_wrap_at(t, i);
    lemma_alnum_shift(t, i + 1);
}

proof fn lemma_word_shift(t: Seq<char>, i: int, w: Seq<char>)
    requires
        0 <= i,
        w.len() > 0,
        forall|k: int| 0 <= k < w.len() ==> w[k] != ')',
    ensures
        word_at(wrap(t), i + 1, w) == word_at(t, i, w),
{
    let u = wrap(t);
    if word_at(t, i, w) {
        assert forall|k: int| 0 <= k < w.len() implies u[i + 1 + k] == w[k] by {
            lemma_wrap_at(t, i + k);
        }
    }
    if word_at(u, i + 1, w) {
        if i + w.len() > t.len() {
            lemma_wrap_at(t, t.len() as int);
            let k = w.len() - 1;
            assert(u[i + 1 + k] == w[k]);
        }
        assert forall|k: int| 0 <= k < w.len() implies t[i + k] == w[k] by {
            lemma_wrap_at(t, i + k);
            assert(u[i + 1 + k] == w[k]);
        }
    }
}

proof fn lemma_keyword_shift(t: Seq<char>, i: int, w: Seq<char>)
    requires
        0 <= i,
        w.len() > 0,
        forall|k: int| 0 <= k < w.len() ==> w[k] != ')',
    ensures
        keyword_len(wrap(t), i + 1, w) == keyword_len(t, i, w),
{
    lemma_word_shift(t, i, w);
    lemma_ws_shift(t, i + w.len());
}

proof fn lemma_lambda_shift(t: Seq<char>, i: int)
    requires
        0 <= i,
    ensures
        lambda_len(wrap(t), i + 1) == lambda_len(t, i),
{
    lemma_wrap_at(t, i);
    let lam = seq!['l', 'a', 'm'];
    let lambda = seq!['l', 'a', 'm', 'b', 'd', 'a'];
    let fun = seq!['f', 'u', 'n'];
    assert forall|k: int| 0 <= k < lam.len() implies lam[k] != ')' by {}
    assert forall|k: int| 0 <= k < lambda.len() implies lambda[k] != ')' by {}
    assert forall|k: int| 0 <= k < fun.len() implies fun[k] != ')' by {}
    lemma_keyword_shift(t, i, lam);
    lemma_keyword_shift(t, i, lambda);
    lemma_keyword_shift(t, i, fun);
}

proof fn lemma_variable_shift(t: Seq<char>, i: int)
    requires
        0 <= i,
    ensures
        variable(wrap(t), i + 1) == variable(t, i),
{
    lemma_var_len_shift(t, i);
    let n = var_len(t, i);
    if n > 0 {
        lemma_variable_name(t, i);
        assert(wrap(t).subrange(i + 1, i + 1 + n) =~= t.subrange(i, i + n));
    }
}

proof fn lemma_expression_shift(t: Seq<char>, i: int)
    requires
        0 <= i,
        parens_close(t),
    ensures
        expression(wrap(t), i + 1) == expression(t, i),
    decreases rest_len(t, i), 4int,
{
    lemma_abstraction_shift(t, i);
    lemma_application_shift(t, i);
    lemma_variable_shift(t, i);
    lemma_parenthesized_shift(t, i);
}

proof fn lemma_abstraction_shift(t: Seq<char>, i: int)
    requires
        0 <= i,
        parens_close(t),
    ensures
        abstraction(wrap(t), i + 1) == abstraction(t, i),
    decreases rest_len(t, i), 3int,
{
    lemma_lambda_shift(t, i);
    let l = lambda_len(t, i);
    if l > 0 {
        lemma_ws_shift(t, i + l);
        lemma_parameters_shift(t, i + l + ws_len(t, i + l));
    }
}

proof fn lemma_parameters_shift(t: Seq<char>, i: int)
    requires
        0 <= i,
        parens_close(t),
    ensures
        parameters(wrap(t), i + 1) == parameters(t, i),
    decreases rest_len(t, i), 2int,
{
    let u = wrap(t);
    lemma_var_len_shift(t, i);
    let n = var_len(t, i);
    if n > 0 {
        lemma_variable_name(t, i);
        assert(u.subrange(i + 1, i + 1 + n) =~= t.subrange(i, i + n));
        lemma_ws_shift(t, i + n);
        let w = ws_len(t, i + n);
        lemma_var_len_shift(t, i + n + w);
        if w > 0 && var_len(t, i + n + w) > 0 {
            lemma_parameters_shift(t, i + n + w);
        } else {
            let d = i + n + w;
            lemma_wrap_at(t, d);
            if 0 <= d < t.len() && t[d] == '.' {
                lemma_ws_shift(t, d + 1);
                lemma_expression_shift(t, d + 1 + ws_len(t, d + 1));
            }
        }
    }
}

#[verifier::rlimit(50)]
proof fn lemma_application_shift(t: Seq<char>, i: int)
    requires
        0 <= i,
        parens_close(t),
    ensures
        application(wrap(t), i + 1) == application(t, i),
    decreases rest_len(t, i), 3int,
{
    lemma_operand_shift(t, i);
    if let Some((f, n1)) = operand(t, i) {
        lemma_ws_shift(t, i + n1);
        let w = ws_len(t, i + n1);
        if w > 0 {
            lemma_operand_shift(t, i + n1 + w);
            if let Some((a, n2)) = operand(t, i + n1 + w) {
                lemma_applied_shift(
                    t,
                    i + n1 + w + n2,
                    Term::App(Box::new(f), Box::new(a)),
                );
            }
        }
    }
}

proof fn lemma_applied_shift(t: Seq<char>, i: int, acc: Term)
    requires
        0 <= i,
        parens_close(t),
    ensures
        applied(wrap(t), i + 1, acc) == applied(t, i, acc),
    decreases rest_len(t, i), 3int,
{
    lemma_ws_shift(t, i);
    let w = ws_len(t, i);
    if w > 0 {
        lemma_operand_shift(t, i + w);
        if let Some((a, n)) = operand(t, i + w) {
            lemma_applied_shift(t, i + w + n, Term::App(Box::new(acc), Box::new(a)));
        }
    }
}

proof fn lemma_operand_shift(t: Seq<char>, i: int)
    requires
        0 <= i,
        parens_close(t),
    ensures
        operand(wrap(t), i + 1) == operand(t, i),
    decreases rest_len(t, i), 1int,
{
    lemma_parenthesized_shift(t, i);
    lemma_variable_shift(t, i);
}

proof fn lemma_parenthesized_shift(t: Seq<char>, i: int)
    requires
        0 <= i,
        parens_close(t),
    ensures
        parenthesized(wrap(t), i + 1) == parenthesized(t, i),
    decreases rest_len(t, i), 0int,
{
    lemma_wrap_at(t, i);
    if 0 <= i < t.len() && t[i] == '(' {
        assert(parenthesized(t, i) is Some);
        lemma_ws_shift(t, i + 1);
        let p = i + 1 + ws_len(t, i + 1);
        lemma_expression_shift(t, p);
        if let Some((e, n)) = expression(t, p) {
            lemma_ws_shift(t, p + n);
            lemma_wrap_at(t, p + n + ws_len(t, p + n));
        }
    }
}

/// Every opening parenthesis of `t` in `[a, b)` starts a parenthesized
/// expression.
pub open spec fn closes_in(t: Seq<char>, a: int, b: int) -> bool {
    forall|j: int|
        a <= j < b && 0 <= j < t.len() && t[j] == '(' ==> (#[trigger] parenthesized(t, j)) is Some
}

/// No opening parenthesis stands in `[a, b)`.
pub open spec fn no_open(t: Seq<char>, a: int, b: int) -> bool {
    forall|j: int| a <= j < b && 0 <= j < t.len() ==> #[trigger] t[j] != '('
}

proof fn lemma_closes_join(t: Seq<char>, a: int, b: int, c: int)
    requires
        closes_in(t, a, b),
        closes_in(t, b, c),
    ensures
        closes_in(t, a, c),
{
}

proof fn lemma_no_open_closes(t: Seq<char>, a: int, b: int)
    requires
        no_open(t, a, b),
    ensures
        closes_in(t, a, b),
{
    assert forall|j: int|
        a <= j < b && 0 <= j < t.len() && t[j] == '(' implies (#[trigger] parenthesized(
            t,
            j,
        )) is Some by {
        assert(t[j] != '(');
    }
}

proof fn lemma_ws_no_open(t: Seq<char>, i: int)
    requires
        0 <= i,
    ensures
        no_open(t, i, i + ws_len(t, i)),
    decreases rest_len(t, i),
{
    if i < t.len() && is_ws(t[i]) {
        lemma_ws_no_open(t, i + 1);
    }
}

proof fn lemma_var_no_open(t: Seq<char>, i: int)
    requires
        0 <= i,
    ensures
        no_open(t, i, i + var_len(t, i)),
{
    if var_len(t, i) > 0 {
        lemma_alnum_run(t, i + 1);
    }
}

proof fn lemma_word_no_open(t: Seq<char>, i: int, w: Seq<char>)
    requires
        word_at(t, i, w),
        forall|k: int| 0 <= k < w.len() ==> w[k] != '(',
    ensures
        no_open(t, i, i + w.len()),
{
    assert forall|j: int| i <= j < i + w.len() && 0 <= j < t.len() implies #[trigger] t[j]
        != '(' by {
        assert(t[i + (j - i)] == w[j - i]);
    }
}

proof fn lemma_keyword_no_open(t: Seq<char>, i: int, w: Seq<char>)
    requires
        0 <= i,
        forall|k: int| 0 <= k < w.len() ==> w[k] != '(',
    ensures
        no_open(t, i, i + keyword_len(t, i, w)),
{
    if keyword_len(t, i, w) > 0 {
        lemma_word_no_open(t, i, w);
        lemma_ws_no_open(t, i + w.len());
    }
}

proof fn lemma_lambda_no_open(t: Seq<char>, i: int)
    requires
        0 <= i,
    ensures
        no_open(t, i, i + lambda_len(t, i)),
{
    let lam = seq!['l', 'a', 'm'];
    let lambda = seq!['l', 'a', 'm', 'b', 'd', 'a'];
    let fun = seq!['f', 'u', 'n'];
    assert forall|k: int| 0 <= k < lam.len() implies lam[k] != '(' by {}
    assert forall|k: int| 0 <= k < lambda.len() implies lambda[k] != '(' by {}
    assert forall|k: int| 0 <= k < fun.len() implies fun[k] != '(' by {}
    lemma_keyword_no_open(t, i, lam);
    lemma_keyword_no_open(t, i, lambda);
    lemma_keyword_no_open(t, i, fun);
}

/// The region that a rule consumes from `i` closes its parentheses.
pub open spec fn consumed_closes(t: Seq<char>, i: int, r: Option<(Term, nat)>) -> bool {
    match r {
        Some((_, n)) => closes_in(t, i, i + n),
        None => true,
    }
}

proof fn lemma_variable_closes(t: Seq<char>, i: int)
    requires
        0 <= i,
    ensures
        consumed_closes(t, i, variable(t, i)),
{
    lemma_var_no_open(t, i);
    lemma_no_open_closes(t, i, i + var_len(t, i));
}

proof fn lemma_expression_closes(t: Seq<char>, i: int)
    requires
        0 <= i,
    ensures
        consumed_closes(t, i, expression(t, i)),
    decreases rest_len(t, i), 4int,
{
    lemma_abstraction_closes(t, i);
    lemma_application_closes(t, i);
    lemma_variable_closes(t, i);
    lemma_parenthesized_closes(t, i);
}

proof fn lemma_abstraction_closes(t: Seq<char>, i: int)
    requires
        0 <= i,
    ensures
        consumed_closes(t, i, abstraction(t, i)),
    decreases rest_len(t, i), 3int,
{
    let l = lambda_len(t, i);
    if l > 0 {
        let p = i + l + ws_len(t, i + l);
        lemma_parameters_closes(t, p);
        if let Some((_, m)) = parameters(t, p) {
            lemma_lambda_no_open(t, i);
            lemma_no_open_closes(t, i, i + l);
            lemma_ws_no_open(t, i + l);
            lemma_no_open_closes(t, i + l, p);
            lemma_closes_join(t, i, i + l, p);
            lemma_closes_join(t, i, p, p + m);
        }
    }
}

proof fn lemma_parameters_closes(t: Seq<char>, i: int)
    requires
        0 <= i,
    ensures
        consumed_closes(t, i, parameters(t, i)),
    decreases rest_len(t, i), 2int,
{
    let n = var_len(t, i);
    if n > 0 {
        let w = ws_len(t, i + n);
        lemma_var_no_open(t, i);
        lemma_no_open_closes(t, i, i + n);
        lemma_ws_no_open(t, i + n);
        lemma_no_open_closes(t, i + n, i + n + w);
        lemma_closes_join(t, i, i + n, i + n + w);
        if w > 0 && var_len(t, i + n + w) > 0 {
            lemma_parameters_closes(t, i + n + w);
            if let Some((_, m)) = parameters(t, i + n + w) {
                lemma_closes_join(t, i, i + n + w, i + n + w + m);
            }
        } else {
            let d = i + n + w;
            if 0 <= d < t.len() && t[d] == '.' {
                let b = d + 1 + ws_len(t, d + 1);
                lemma_ws_no_open(t, d + 1);
                assert(no_open(t, d, b));
                lemma_no_open_closes(t, d, b);
                lemma_closes_join(t, i, d, b);
                lemma_expression_closes(t, b);
                if let Some((_, m)) = expression(t, b) {
                    lemma_closes_join(t, i, b, b + m);
                }
            }
        }
    }
}

#[verifier::rlimit(50)]
proof fn lemma_application_closes(t: Seq<char>, i: int)
    requires
        0 <= i,
    ensures
        consumed_closes(t, i, application(t, i)),
    decreases rest_len(t, i), 3int,
{
    lemma_operand_closes(t, i);
    if let Some((f, n1)) = operand(t, i) {
        let w = ws_len(t, i + n1);
        if w > 0 {
            lemma_operand_closes(t, i + n1 + w);
            if let Some((a, n2)) = operand(t, i + n1 + w) {
                let acc = Term::App(Box::new(f), Box::new(a));
                lemma_applied_closes(t, i + n1 + w + n2, acc);
                let n3 = applied(t, i + n1 + w + n2, acc).1;
                lemma_ws_no_open(t, i + n1);
                lemma_no_open_closes(t, i + n1, i + n1 + w);
                lemma_closes_join(t, i, i + n1, i + n1 + w);
                lemma_closes_join(t, i, i + n1 + w, i + n1 + w + n2);
                lemma_closes_join(t, i, i + n1 + w + n2, i + n1 + w + n2 + n3);
            }
        }
    }
}

proof fn lemma_applied_closes(t: Seq<char>, i: int, acc: Term)
    requires
        0 <= i,
    ensures
        closes_in(t, i, i + applied(t, i, acc).1),
    decreases rest_len(t, i), 3int,
{
    let w = ws_len(t, i);
    if w > 0 {
        lemma_operand_closes(t, i + w);
        if let Some((a, n)) = operand(t, i + w) {
            let acc2 = Term::App(Box::new(acc), Box::new(a));
            lemma_applied_closes(t, i + w + n, acc2);
            let m = applied(t, i + w + n, acc2).1;
            lemma_ws_no_open(t, i);
            lemma_no_open_closes(t, i, i + w);
            lemma_closes_join(t, i, i + w, i + w + n);
            lemma_closes_join(t, i, i + w + n, i + w + n + m);
        }
    }
}

proof fn lemma_operand_closes(t: Seq<char>, i: int)
    requires
        0 <= i,
    ensures
        consumed_closes(t, i, operand(t, i)),
    decreases rest_len(t, i), 1int,
{
    lemma_parenthesized_closes(t, i);
    lemma_variable_closes(t, i);
}

proof fn lemma_parenthesized_closes(t: Seq<char>, i: int)
    requires
        0 <= i,
    ensures
        consumed_closes(t, i, parenthesized(t, i)),
    decreases rest_len(t, i), 0int,
{
    if 0 <= i < t.len() && t[i] == '(' {
        let p = i + 1 + ws_len(t, i + 1);
        lemma_expression_closes(t, p);
        if let Some((e, n)) = expression(t, p) {
            let c = p + n + ws_len(t, p + n);
            if 0 <= c < t.len() && t[c] == ')' {
                assert(closes_in(t, i, i + 1));
                lemma_ws_no_open(t, i + 1);
                lemma_no_open_closes(t, i + 1, p);
                lemma_closes_join(t, i, i + 1, p);
                lemma_closes_join(t, i, p, p + n);
                lemma_ws_no_open(t, p + n);
                assert(no_open(t, p + n, c + 1));
                lemma_no_open_closes(t, p + n, c + 1);
                lemma_closes_join(t, i, p + n, c + 1);
            }
        }
    }
}

/// A text that parses whole has every parenthesis closed.
proof fn lemma_parse_closes(t: Seq<char>)
    requires
        parse(t) is Some,
    ensures
        parens_close(t),
        expression(t, 0) == Some((parse(t).unwrap(), t.len())),
        ws_len(t, 0) == 0,
{
    lemma_expression_closes(t, 0);
    if t.len() > 0 && is_ws(t[0]) {
        let lam = seq!['l', 'a', 'm'];
        let lambda = seq!['l', 'a', 'm', 'b', 'd', 'a'];
        let fun = seq!['f', 'u', 'n'];
        assert(!word_at(t, 0, lam)) by {
            assert(lam[0] == 'l');
        }
        assert(!word_at(t, 0, lambda)) by {
            assert(lambda[0] == 'l');
        }
        assert(!word_at(t, 0, fun)) by {
            assert(fun[0] == 'f');
        }
        assert(lambda_len(t, 0) == 0);
        assert(abstraction(t, 0) is None);
        assert(parenthesized(t, 0) is None);
        assert(variable(t, 0) is None);
        assert(operand(t, 0) is None);
        assert(application(t, 0) is None);
        assert(expression(t, 0) is None);
    }
}

proof fn lemma_wrap_parenthesized(t: Seq<char>)
    requires
        parse(t) is Some,
    ensures
        parenthesized(wrap(t), 0) == Some((parse(t).unwrap(), (t.len() + 2) as nat)),
{
    let u = wrap(t);
    lemma_parse_closes(t);
    lemma_wrap_at(t, 0);
    lemma_wrap_at(t, t.len() as int);
    lemma_ws_shift(t, 0);
    lemma_expression_shift(t, 0);
    lemma_ws_shift(t, t.len() as int);
    assert(u[0] == '(');
    assert(ws_len(u, 1) == 0);
    assert(expression(u, 1) == Some((parse(t).unwrap(), t.len())));
    assert(ws_len(u, 1 + t.len() as int) == 0);
}

proof fn lemma_wrap_not_abstraction(t: Seq<char>)
    ensures
        abstraction(wrap(t), 0) is None,
        variable(wrap(t), 0) is None,
{
    let u = wrap(t);
    assert(u[0] == '(');
    let lam = seq!['l', 'a', 'm'];
    let lambda = seq!['l', 'a', 'm', 'b', 'd', 'a'];
    let fun = seq!['f', 'u', 'n'];
    assert(!word_at(u, 0, lam)) by {
        assert(lam[0] == 'l');
    }
    assert(!word_at(u, 0, lambda)) by {
        assert(lambda[0] == 'l');
    }
    assert(!word_at(u, 0, fun)) by {
        assert(fun[0] == 'f');
    }
    assert(lambda_len(u, 0) == 0);
}

proof fn lemma_wrap_not_application(t: Seq<char>)
    requires
        parse(t) is Some,
    ensures
        application(wrap(t), 0) is None,
{
    let u = wrap(t);
    lemma_wrap_parenthesized(t);
    lemma_wrap_not_abstraction(t);
    assert(operand(u, 0) == parenthesized(u, 0));
    assert(ws_len(u, t.len() + 2int) == 0);
}

/// Parentheses are transparent: a text that parses, put in parentheses,
/// parses to the same term.
pub proof fn lemma_parens_transparent(t: Seq<char>)
    requires
        parse(t) is Some,
    ensures
        parse(wrap(t)) == parse(t),
{
    lemma_wrap_parenthesized(t);
    lemma_wrap_not_abstraction(t);
    lemma_wrap_not_application(t);
    assert(expression(wrap(t), 0) == Some((parse(t).unwrap(), wrap(t).len())));
}

} // verus!
