use lambda_calculator::app::{App, IsAbs};
use lambda_calculator::expressions::{CalcStepError, Expression, Substitution, Sum};
use lambda_calculator::parser::{SyntaxError, UntypedLambdaCalculusParser};
use lambda_calculator::unty_abs::UntyAbs;
use lambda_calculator::unty_var::UntyVar;
use lambda_calculator::untyped_lambda_calculus::UntyLamExpr;

fn parse(s: &str) -> UntyLamExpr {
    UntypedLambdaCalculusParser::parse(s).unwrap()
}

#[test]
fn application_is_left_associative() {
    let expected = App::new_expr(
        App::new_expr(UntyVar::new_expr("a"), UntyVar::new_expr("b")),
        UntyVar::new_expr("c"),
    );
    assert_eq!(parse("a b c"), expected);
}

#[test]
fn parameters_desugar_to_nested_abstractions() {
    let expected = UntyAbs::new_expr(
        UntyVar::new("x"),
        UntyAbs::new_expr(UntyVar::new("y"), UntyVar::new_expr("y")),
    );
    assert_eq!(parse("λx y.y"), expected);
}

#[test]
fn parentheses_are_transparent() {
    assert_eq!(parse("((a b))"), parse("a b"));
}

#[test]
fn keywords_for_lambda() {
    let id = UntyAbs::new_expr(UntyVar::new("x"), UntyVar::new_expr("x"));
    assert_eq!(parse("fun x.x"), id);
    assert_eq!(parse("lambda   x .x"), id);
    assert_eq!(parse("lam"), UntyVar::new_expr("lam"));
    assert_eq!(
        parse("lam x"),
        App::new_expr(UntyVar::new_expr("lam"), UntyVar::new_expr("x"))
    );
    assert_eq!(parse("lamx"), UntyVar::new_expr("lamx"));
}

#[test]
fn syntax_errors_carry_where_parsing_stopped() {
    assert_eq!(UntypedLambdaCalculusParser::parse("a b)"), Err(SyntaxError { offset: 3 }));
    assert_eq!(UntypedLambdaCalculusParser::parse("1"), Err(SyntaxError { offset: 0 }));
    assert_eq!(UntypedLambdaCalculusParser::parse(""), Err(SyntaxError { offset: 0 }));
    assert_eq!(UntypedLambdaCalculusParser::parse(" a"), Err(SyntaxError { offset: 0 }));
    assert_eq!(UntypedLambdaCalculusParser::parse("a(b)"), Err(SyntaxError { offset: 1 }));
    assert_eq!(UntypedLambdaCalculusParser::parse("λx y"), Err(SyntaxError { offset: 0 }));
}

#[test]
fn render_adds_no_parentheses() {
    assert_eq!(parse("λx.λy.x y").render(), "λ x. λ y. x y");
    assert_eq!(parse("(λx. x) (a b)").render(), "λ x. x a b");
    assert_eq!(parse("abc").render(), "abc");
}

#[test]
fn substitution_avoids_capture() {
    let body = parse("λy. x");
    let r = body.substitute(&UntyVar::new("x"), &UntyVar::new_expr("y"));
    assert_ne!(r, parse("λy. y"));
    assert_eq!(r, parse("λy1. y"));
    assert_eq!(r.render(), "λ y1. y");
}

#[test]
fn fresh_name_skips_names_in_scope() {
    let body = parse("λy. x y1");
    let r = body.substitute(&UntyVar::new("x"), &UntyVar::new_expr("y"));
    assert_eq!(r, parse("λy11. y y1"));
}

#[test]
fn substitution_stops_at_rebinding() {
    let body = parse("λx. x");
    let r = body.substitute(&UntyVar::new("x"), &UntyVar::new_expr("z"));
    assert_eq!(r, parse("λx. x"));
    let free = parse("x (λy. x y)");
    let r = free.substitute(&UntyVar::new("x"), &UntyVar::new_expr("z"));
    assert_eq!(r, parse("z (λy. z y)"));
}

#[test]
fn step_is_deterministic() {
    let e = parse("(λx. λy. x) (a b) c");
    let first = e.calc_step();
    let second = e.calc_step();
    assert_eq!(first, second);
    assert_eq!(first, Ok(parse("(λy. a b) c")));
}

#[test]
fn normal_forms_do_not_step() {
    assert_eq!(UntyVar::new_expr("x").calc_step(), Err(CalcStepError::NoRedex));
    assert_eq!(parse("λx.x").calc_step(), Err(CalcStepError::NoRedex));
    assert_eq!(parse("a (λx. x) b").calc_step(), Err(CalcStepError::NoRedex));
}

#[test]
fn normal_order_reduces_outermost_first() {
    // the redex in the argument waits for the outer one
    let e = parse("(λx. y) ((λz. z) w)");
    assert_eq!(e.calc_step(), Ok(UntyVar::new_expr("y")));
    // inside an abstraction, and in the argument once the function is stuck
    assert_eq!(parse("λa. (λx. x) a").calc_step(), Ok(parse("λa. a")));
    assert_eq!(parse("f ((λx. x) a)").calc_step(), Ok(parse("f a")));
    // the function position reduces before the application fires
    assert_eq!(
        parse("((λf. f) (λx. x)) q").calc_step(),
        Ok(parse("(λx. x) q"))
    );
}

#[test]
fn values_and_abstractions() {
    assert!(parse("x").is_value());
    assert!(parse("λx. x x").is_value());
    assert!(!parse("(λx. x) y").is_value());
    assert!(parse("λx. x").is_abs());
    assert!(!parse("x y").is_abs());
}

#[test]
fn packing_and_constructors() {
    let v: UntyLamExpr = UntyLamExpr::pack(UntyVar::new("v"));
    assert_eq!(v, UntyVar::new("v").into_expr());
    let a: UntyLamExpr = UntyLamExpr::pack(App::new(parse("f"), parse("x")));
    assert_eq!(a, App::new(parse("f"), parse("x")).into_expr());
    assert_eq!(a, parse("f x"));
    let l: UntyLamExpr = UntyLamExpr::pack(UntyAbs::new(UntyVar::new("x"), parse("x")));
    assert_eq!(l, UntyAbs::new(UntyVar::new("x"), parse("x")).into_expr());
    assert_eq!(l, parse("λx.x"));
}

#[test]
fn substitution_per_variant() {
    let x = UntyVar::new("x");
    let z = UntyVar::new_expr("z");
    assert_eq!(UntyVar::new("x").substitute(&x, &z), parse("z"));
    assert_eq!(UntyVar::new("y").substitute(&x, &z), parse("y"));
    let app = App::new(parse("x"), parse("λx. x"));
    assert_eq!(app.substitute(&x, &z), parse("z (λx. x)"));
    let abs = UntyAbs::new(UntyVar::new("z"), parse("x z"));
    assert_eq!(abs.substitute(&x, &z), parse("λz1. z z1"));
    let shadow = UntyAbs::new(UntyVar::new("x"), parse("x"));
    assert_eq!(shadow.substitute(&x, &z), parse("λx. x"));
}

#[test]
fn parentheses_around_any_expression() {
    for text in ["λx y. x y", "a (b c) d", "(λx. x) y", "f", "lam x"] {
        let wrapped = format!("({})", text);
        let twice = format!("(( {} ))", text);
        assert_eq!(parse(&wrapped), parse(text));
        assert_eq!(parse(&twice), parse(text));
    }
}
