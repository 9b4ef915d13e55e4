use crate::app::App;
use crate::grammar;
use crate::grammar::rest_len;
use crate::term::Term;
use crate::unty_abs::UntyAbs;
use crate::unty_var::UntyVar;
use crate::untyped_lambda_calculus::UntyLamExpr;
use vstd::prelude::*;
use vstd::string::*;

verus! {

/// Where a text stopped being an expression.
#[derive(Debug, PartialEq, Eq, Clone, Copy)]
pub struct SyntaxError {
    /// Offset, in characters, at which parsing stopped.
    pub offset: usize,
}

/// Reads expressions of the untyped lambda calculus from text.
pub struct UntypedLambdaCalculusParser;

/// What a rule's result denotes.
pub open spec fn denoted(r: Option<(UntyLamExpr, usize)>) -> Option<(Term, nat)> {
    match r {
        Some((e, n)) => Some((e@, n as nat)),
        None => None,
    }
}

/// A rule's result ends within the input, and its names are well formed.
pub open spec fn within(r: Option<(UntyLamExpr, usize)>, i: usize, len: nat) -> bool {
    match r {
        Some((e, n)) => i + n <= len && grammar::names_valid(e@),
        None => true,
    }
}

fn is_ws(c: char) -> (r: bool)
    ensures
        r == grammar::is_ws(c),
{
    c == ' ' || c == '\t' || c == '\n'
}

fn is_letter(c: char) -> (r: bool)
    ensures
        r == grammar::is_letter(c),
{
    ('a' <= c && c <= 'z') || ('A' <= c && c <= 'Z')
}

fn is_alnum(c: char) -> (r: bool)
    ensures
        r == grammar::is_alnum(c),
{
    is_letter(c) || ('0' <= c && c <= '9')
}

fn ws_len(s: &Vec<char>, i: usize) -> (r: usize)
    requires
        i <= s.len(),
    ensures
        r == grammar::ws_len(s@, i as int),
        i + r <= s.len(),
{
    let mut j = i;
    while j < s.len() && is_ws(s[j])
        invariant
            i <= j <= s.len(),
            grammar::ws_len(s@, i as int) == (j - i) + grammar::ws_len(s@, j as int),
        decreases s.len() - j,
    {
        j += 1;
    }
    j - i
}

fn var_len(s: &Vec<char>, i: usize) -> (r: usize)
    requires
        i <= s.len(),
    ensures
        r == grammar::var_len(s@, i as int),
        i + r <= s.len(),
{
    if i < s.len() && is_letter(s[i]) {
        let mut j = i + 1;
        while j < s.len() && is_alnum(s[j])
            invariant
                i < j <= s.len(),
                grammar::alnum_len(s@, i + 1) == (j - i - 1) + grammar::alnum_len(s@, j as int),
            decreases s.len() - j,
        {
            j += 1;
        }
        j - i
    } else {
        0
    }
}

fn word_at(s: &Vec<char>, i: usize, w: &Vec<char>) -> (r: bool)
    requires
        i <= s.len(),
    ensures
        r == grammar::word_at(s@, i as int, w@),
{
    if w.len() > s.len() - i {
        return false;
    }
    let mut k: usize = 0;
    while k < w.len()
        invariant
            k <= w.len(),
            i + w.len() <= s.len(),
            forall|m: int| 0 <= m < k ==> s@[i + m] == w@[m],
        decreases w.len() - k,
    {
        if s[i + k] != w[k] {
            return false;
        }
        k += 1;
    }
    true
}

fn keyword_len(s: &Vec<char>, i: usize, w: &Vec<char>) -> (r: usize)
    requires
        i <= s.len(),
    ensures
        r == grammar::keyword_len(s@, i as int, w@),
        i + r <= s.len(),
{
    if word_at(s, i, w) {
        let n = ws_len(s, i + w.len());
        if n > 0 {
            return w.len() + n;
        }
    }
    0
}

fn lambda_len(s: &Vec<char>, i: usize) -> (r: usize)
    requires
        i <= s.len(),
    ensures
        r == grammar::lambda_len(s@, i as int),
        i + r <= s.len(),
{
    if i < s.len() && (s[i] == 'λ' || s[i] == '\\') {
        return 1;
    }
    let lam = vec!['l', 'a', 'm'];
    let lambda = vec!['l', 'a', 'm', 'b', 'd', 'a'];
    let fun = vec!['f', 'u', 'n'];
    assert(lam@ =~= seq!['l', 'a', 'm']);
    assert(lambda@ =~= seq!['l', 'a', 'm', 'b', 'd', 'a']);
    assert(fun@ =~= seq!['f', 'u', 'n']);
    let n = keyword_len(s, i, &lam);
    if n > 0 {
        return n;
    }
    let n = keyword_len(s, i, &lambda);
    if n > 0 {
        return n;
    }
    keyword_len(s, i, &fun)
}

fn variable(src: &str, s: &Vec<char>, i: usize) -> (r: Option<(UntyLamExpr, usize)>)
    requires
        s@ == src@,
        i <= s.len(),
    ensures
        denoted(r) == grammar::variable(s@, i as int),
        within(r, i, s@.len()),
{
    let n = var_len(s, i);
    if n == 0 {
        None
    } else {
        proof {
            grammar::lemma_variable_name(s@, i as int);
        }
        let name = src.substring_char(i, i + n);
        Some((UntyVar::new_expr(name), n))
    }
}

fn expression(src: &str, s: &Vec<char>, i: usize) -> (r: Option<(UntyLamExpr, usize)>)
    requires
        s@ == src@,
        i <= s.len(),
    ensures
        denoted(r) == grammar::expression(s@, i as int),
        within(r, i, s@.len()),
    decreases rest_len(s@, i as int), 4int,
{
    match abstraction(src, s, i) {
        Some(r) => Some(r),
        None => match application(src, s, i) {
            Some(r) => Some(r),
            None => match variable(src, s, i) {
                Some(r) => Some(r),
                None => parenthesized(src, s, i),
            },
        },
    }
}

fn abstraction(src: &str, s: &Vec<char>, i: usize) -> (r: Option<(UntyLamExpr, usize)>)
    requires
        s@ == src@,
        i <= s.len(),
    ensures
        denoted(r) == grammar::abstraction(s@, i as int),
        within(r, i, s@.len()),
    decreases rest_len(s@, i as int), 3int,
{
    let l = lambda_len(s, i);
    if l == 0 {
        None
    } else {
        let p = i + l + ws_len(s, i + l);
        match parameters(src, s, p) {
            Some((t, m)) => Some((t, p + m - i)),
            None => None,
        }
    }
}

fn parameters(src: &str, s: &Vec<char>, i: usize) -> (r: Option<(UntyLamExpr, usize)>)
    requires
        s@ == src@,
        i <= s.len(),
    ensures
        denoted(r) == grammar::parameters(s@, i as int),
        within(r, i, s@.len()),
    decreases rest_len(s@, i as int), 2int,
{
    let n = var_len(s, i);
    if n == 0 {
        return None;
    }
    proof {
        grammar::lemma_variable_name(s@, i as int);
    }
    let x = UntyVar::new(src.substring_char(i, i + n));
    let w = ws_len(s, i + n);
    if w > 0 && var_len(s, i + n + w) > 0 {
        match parameters(src, s, i + n + w) {
            Some((b, m)) => Some((UntyAbs::new_expr(x, b), n + w + m)),
            None => None,
        }
    } else {
        let d = i + n + w;
        if d < s.len() && s[d] == '.' {
            let b = d + 1 + ws_len(s, d + 1);
            match expression(src, s, b) {
                Some((e, m)) => Some((UntyAbs::new_expr(x, e), b + m - i)),
                None => None,
            }
        } else {
            None
        }
    }
}

fn application(src: &str, s: &Vec<char>, i: usize) -> (r: Option<(UntyLamExpr, usize)>)
    requires
        s@ == src@,
        i <= s.len(),
    ensures
        denoted(r) == grammar::application(s@, i as int),
        within(r, i, s@.len()),
    decreases rest_len(s@, i as int), 3int,
{
    match operand(src, s, i) {
        None => None,
        Some((f, n1)) => {
            let w = ws_len(s, i + n1);
            if w == 0 {
                None
            } else {
                match operand(src, s, i + n1 + w) {
                    None => None,
                    Some((a, n2)) => {
                        let (t, n3) = applied(src, s, i + n1 + w + n2, App::new_expr(f, a));
                        Some((t, n1 + w + n2 + n3))
                    },
                }
            }
        },
    }
}

fn applied(src: &str, s: &Vec<char>, i: usize, acc: UntyLamExpr) -> (r: (UntyLamExpr, usize))
    requires
        s@ == src@,
        i <= s.len(),
        grammar::names_valid(acc@),
    ensures
        (r.0@, r.1 as nat) == grammar::applied(s@, i as int, acc@),
        i + r.1 <= s.len(),
        grammar::names_valid(r.0@),
    decreases rest_len(s@, i as int), 3int,
{
    let w = ws_len(s, i);
    if w == 0 {
        (acc, 0)
    } else {
        match operand(src, s, i + w) {
            None => (acc, 0),
            Some((a, n)) => {
                let (t, m) = applied(src, s, i + w + n, App::new_expr(acc, a));
                (t, w + n + m)
            },
        }
    }
}

fn operand(src: &str, s: &Vec<char>, i: usize) -> (r: Option<(UntyLamExpr, usize)>)
    requires
        s@ == src@,
        i <= s.len(),
    ensures
        denoted(r) == grammar::operand(s@, i as int),
        within(r, i, s@.len()),
    decreases rest_len(s@, i as int), 1int,
{
    match parenthesized(src, s, i) {
        Some(r) => Some(r),
        None => variable(src, s, i),
    }
}

fn parenthesized(src: &str, s: &Vec<char>, i: usize) -> (r: Option<(UntyLamExpr, usize)>)
    requires
        s@ == src@,
        i <= s.len(),
    ensures
        denoted(r) == grammar::parenthesized(s@, i as int),
        within(r, i, s@.len()),
    decreases rest_len(s@, i as int), 0int,
{
    if i < s.len() && s[i] == '(' {
        let p = i + 1 + ws_len(s, i + 1);
        match expression(src, s, p) {
            Some((e, n)) => {
                let c = p + n + ws_len(s, p + n);
                if c < s.len() && s[c] == ')' {
                    Some((e, c + 1 - i))
                } else {
                    None
                }
            },
            None => None,
        }
    } else {
        None
    }
}

/// The characters of `src`, one by one.
fn chars_of(src: &str) -> (r: Vec<char>)
    ensures
        r@ == src@,
{
    let n = src.unicode_len();
    let mut v: Vec<char> = Vec::new();
    let mut i: usize = 0;
    while i < n
        invariant
            n == src@.len(),
            i <= n,
            v@ == src@.subrange(0, i as int),
        decreases n - i,
    {
        v.push(src.get_char(i));
        i += 1;
        assert(v@ =~= src@.subrange(0, i as int));
    }
    assert(v@ =~= src@);
    v
}

impl UntypedLambdaCalculusParser {
    /// Parses the whole of `input` as one expression.
    pub fn parse(input: &str) -> (r: Result<UntyLamExpr, SyntaxError>)
        ensures
            match r {
                Ok(e) => grammar::parse(input@) == Some(e@) && grammar::names_valid(e@),
                Err(err) => grammar::parse(input@) is None && err.offset == grammar::stop(input@),
            },
    {
        let s = chars_of(input);
        match expression(input, &s, 0) {
            Some((e, n)) => if n == s.len() {
                Ok(e)
            } else {
                Err(SyntaxError { offset: n })
            },
            None => Err(SyntaxError { offset: 0 }),
        }
    }
}

} // verus!
