use lambda_calculator::app::App;
use lambda_calculator::parser::UntypedLambdaCalculusParser;
use lambda_calculator::unty_abs::UntyAbs;
use lambda_calculator::unty_var::UntyVar;

#[test]
fn combined_expressions() {
    let expr = UntypedLambdaCalculusParser::parse("λx. x x").unwrap();
    assert_eq!(
        expr,
        UntyAbs::new_expr(
            UntyVar::new("x"),
            App::new_expr(UntyVar::new_expr("x"), UntyVar::new_expr("x"))
        )
    );
    let expr = UntypedLambdaCalculusParser::parse("(λx. x) x").unwrap();
    assert_eq!(
        expr,
        App::new_expr(
            UntyAbs::new_expr(UntyVar::new("x"), UntyVar::new_expr("x")),
            UntyVar::new_expr("x")
        )
    );
    let expr = UntypedLambdaCalculusParser::parse("(λx. x) (λy z. z z y)").unwrap();
    assert_eq!(
        expr,
        App::new_expr(
            UntyAbs::new_expr(UntyVar::new("x"), UntyVar::new_expr("x")),
            UntyAbs::new_expr(
                UntyVar::new("y"),
                UntyAbs::new_expr(
                    UntyVar::new("z"),
                    App::new_expr(
                        App::new_expr(UntyVar::new_expr("z"), UntyVar::new_expr("z")),
                        UntyVar::new_expr("y")
                    )
                )
            )
        )
    );
    let expr = UntypedLambdaCalculusParser::parse("(λx. x) (λy z. z z y) (λ f. f) p").unwrap();
    assert_eq!(
        expr,
        App::new_expr(
            App::new_expr(
                App::new_expr(
                    UntyAbs::new_expr(UntyVar::new("x"), UntyVar::new_expr("x")),
                    UntyAbs::new_expr(
                        UntyVar::new("y"),
                        UntyAbs::new_expr(
                            UntyVar::new("z"),
                            App::new_expr(
                                App::new_expr(UntyVar::new_expr("z"), UntyVar::new_expr("z")),
                                UntyVar::new_expr("y")
                            )
                        )
                    )
                ),
                UntyAbs::new_expr(UntyVar::new("f"), UntyVar::new_expr("f"))
            ),
            UntyVar::new_expr("p")
        )
    );
}

#[test]
fn lam_abs() {
    let expr = UntypedLambdaCalculusParser::parse("λx.x").unwrap();
    assert_eq!(
        expr,
        UntyAbs::new_expr(UntyVar::new("x"), UntyVar::new_expr("x"))
    );
    let expr = UntypedLambdaCalculusParser::parse("\\x.x").unwrap();
    assert_eq!(
        expr,
        UntyAbs::new_expr(UntyVar::new("x"), UntyVar::new_expr("x"))
    );
    let expr = UntypedLambdaCalculusParser::parse("lam x.x").unwrap();
    assert_eq!(
        expr,
        UntyAbs::new_expr(UntyVar::new("x"), UntyVar::new_expr("x"))
    );
    let expr = UntypedLambdaCalculusParser::parse("lambda x.x").unwrap();
    assert_eq!(
        expr,
        UntyAbs::new_expr(UntyVar::new("x"), UntyVar::new_expr("x"))
    );
    let expr = UntypedLambdaCalculusParser::parse("(λx.x)").unwrap();
    assert_eq!(
        expr,
        UntyAbs::new_expr(UntyVar::new("x"), UntyVar::new_expr("x"))
    );
    let expr = UntypedLambdaCalculusParser::parse("((λx.x))").unwrap();
    assert_eq!(
        expr,
        UntyAbs::new_expr(UntyVar::new("x"), UntyVar::new_expr("x"))
    );
    let expr = UntypedLambdaCalculusParser::parse("((  λ  x .   x  ))").unwrap();
    assert_eq!(
        expr,
        UntyAbs::new_expr(UntyVar::new("x"), UntyVar::new_expr("x"))
    );
    let expr = UntypedLambdaCalculusParser::parse("λx.λx.x").unwrap();
    assert_eq!(
        expr,
        UntyAbs::new_expr(
            UntyVar::new("x"),
            UntyAbs::new_expr(UntyVar::new("x"), UntyVar::new_expr("x"))
        )
    );
    let expr = UntypedLambdaCalculusParser::parse("λx.λy.y").unwrap();
    assert_eq!(
        expr,
        UntyAbs::new_expr(
            UntyVar::new("x"),
            UntyAbs::new_expr(UntyVar::new("y"), UntyVar::new_expr("y"))
        )
    );
    let expr = UntypedLambdaCalculusParser::parse("λx.λx.y").unwrap();
    assert_eq!(
        expr,
        UntyAbs::new_expr(
            UntyVar::new("x"),
            UntyAbs::new_expr(UntyVar::new("x"), UntyVar::new_expr("y"))
        )
    );
    let expr = UntypedLambdaCalculusParser::parse("λx y z.y").unwrap();
    assert_eq!(
        expr,
        UntyAbs::new_expr(
            UntyVar::new("x"),
            UntyAbs::new_expr(
                UntyVar::new("y"),
                UntyAbs::new_expr(UntyVar::new("z"), UntyVar::new_expr("y"))
            )
        )
    );
    let expr = UntypedLambdaCalculusParser::parse("λx.λy.λz.y").unwrap();
    assert_eq!(
        expr,
        UntyAbs::new_expr(
            UntyVar::new("x"),
            UntyAbs::new_expr(
                UntyVar::new("y"),
                UntyAbs::new_expr(UntyVar::new("z"), UntyVar::new_expr("y"))
            )
        )
    );
    let expr = UntypedLambdaCalculusParser::parse("(λx.λy.λz.y)").unwrap();
    assert_eq!(
        expr,
        UntyAbs::new_expr(
            UntyVar::new("x"),
            UntyAbs::new_expr(
                UntyVar::new("y"),
                UntyAbs::new_expr(UntyVar::new("z"), UntyVar::new_expr("y"))
            )
        )
    );
    let expr = UntypedLambdaCalculusParser::parse("λx.(λy.λz.y)").unwrap();
    assert_eq!(
        expr,
        UntyAbs::new_expr(
            UntyVar::new("x"),
            UntyAbs::new_expr(
                UntyVar::new("y"),
                UntyAbs::new_expr(UntyVar::new("z"), UntyVar::new_expr("y"))
            )
        )
    );
    let expr = UntypedLambdaCalculusParser::parse("λx.λy.(λz.y)").unwrap();
    assert_eq!(
        expr,
        UntyAbs::new_expr(
            UntyVar::new("x"),
            UntyAbs::new_expr(
                UntyVar::new("y"),
                UntyAbs::new_expr(UntyVar::new("z"), UntyVar::new_expr("y"))
            )
        )
    );
    let expr = UntypedLambdaCalculusParser::parse("λx.λy.λz.(y)").unwrap();
    assert_eq!(
        expr,
        UntyAbs::new_expr(
            UntyVar::new("x"),
            UntyAbs::new_expr(
                UntyVar::new("y"),
                UntyAbs::new_expr(UntyVar::new("z"), UntyVar::new_expr("y"))
            )
        )
    );
    let expr = UntypedLambdaCalculusParser::parse("λx.λy.(λz.(y))").unwrap();
    assert_eq!(
        expr,
        UntyAbs::new_expr(
            UntyVar::new("x"),
            UntyAbs::new_expr(
                UntyVar::new("y"),
                UntyAbs::new_expr(UntyVar::new("z"), UntyVar::new_expr("y"))
            )
        )
    );
    let expr = UntypedLambdaCalculusParser::parse("λx.(λy.λz.(y))").unwrap();
    assert_eq!(
        expr,
        UntyAbs::new_expr(
            UntyVar::new("x"),
            UntyAbs::new_expr(
                UntyVar::new("y"),
                UntyAbs::new_expr(UntyVar::new("z"), UntyVar::new_expr("y"))
            )
        )
    );
    let expr = UntypedLambdaCalculusParser::parse("(λx.λy.λz.(y))").unwrap();
    assert_eq!(
        expr,
        UntyAbs::new_expr(
            UntyVar::new("x"),
            UntyAbs::new_expr(
                UntyVar::new("y"),
                UntyAbs::new_expr(UntyVar::new("z"), UntyVar::new_expr("y"))
            )
        )
    );
    let expr = UntypedLambdaCalculusParser::parse("(λx.λy.(λz.y))").unwrap();
    assert_eq!(
        expr,
        UntyAbs::new_expr(
            UntyVar::new("x"),
            UntyAbs::new_expr(
                UntyVar::new("y"),
                UntyAbs::new_expr(UntyVar::new("z"), UntyVar::new_expr("y"))
            )
        )
    );
    let expr = UntypedLambdaCalculusParser::parse("(λx.(λy.λz.y))").unwrap();
    assert_eq!(
        expr,
        UntyAbs::new_expr(
            UntyVar::new("x"),
            UntyAbs::new_expr(
                UntyVar::new("y"),
                UntyAbs::new_expr(UntyVar::new("z"), UntyVar::new_expr("y"))
            )
        )
    );
    let expr = UntypedLambdaCalculusParser::parse("(λx.(λy.(λz.y)))").unwrap();
    assert_eq!(
        expr,
        UntyAbs::new_expr(
            UntyVar::new("x"),
            UntyAbs::new_expr(
                UntyVar::new("y"),
                UntyAbs::new_expr(UntyVar::new("z"), UntyVar::new_expr("y"))
            )
        )
    );
    let expr = UntypedLambdaCalculusParser::parse("(λx.(λy.(λz.(y))))").unwrap();
    assert_eq!(
        expr,
        UntyAbs::new_expr(
            UntyVar::new("x"),
            UntyAbs::new_expr(
                UntyVar::new("y"),
                UntyAbs::new_expr(UntyVar::new("z"), UntyVar::new_expr("y"))
            )
        )
    );
}

#[test]
fn lam_apps() {
    let expr = UntypedLambdaCalculusParser::parse("a b").unwrap();
    assert_eq!(
        expr,
        App::new_expr(UntyVar::new_expr("a"), UntyVar::new_expr("b"))
    );
    let expr = UntypedLambdaCalculusParser::parse("(a b)").unwrap();
    assert_eq!(
        expr,
        App::new_expr(UntyVar::new_expr("a"), UntyVar::new_expr("b"))
    );
    let expr = UntypedLambdaCalculusParser::parse("((a) b)").unwrap();
    assert_eq!(
        expr,
        App::new_expr(UntyVar::new_expr("a"), UntyVar::new_expr("b"))
    );
    let expr = UntypedLambdaCalculusParser::parse("((a b))").unwrap();
    assert_eq!(
        expr,
        App::new_expr(UntyVar::new_expr("a"), UntyVar::new_expr("b"))
    );
    let expr = UntypedLambdaCalculusParser::parse("(((a b)))").unwrap();
    assert_eq!(
        expr,
        App::new_expr(UntyVar::new_expr("a"), UntyVar::new_expr("b"))
    );
    let expr = UntypedLambdaCalculusParser::parse("a b c").unwrap();
    assert_eq!(
        expr,
        App::new_expr(
            App::new_expr(UntyVar::new_expr("a"), UntyVar::new_expr("b")),
            UntyVar::new_expr("c")
        )
    );
    let expr = UntypedLambdaCalculusParser::parse("(a b) c").unwrap();
    assert_eq!(
        expr,
        App::new_expr(
            App::new_expr(UntyVar::new_expr("a"), UntyVar::new_expr("b")),
            UntyVar::new_expr("c")
        )
    );
    let expr = UntypedLambdaCalculusParser::parse("a (b c)").unwrap();
    assert_eq!(
        expr,
        App::new_expr(
            UntyVar::new_expr("a"),
            App::new_expr(UntyVar::new_expr("b"), UntyVar::new_expr("c")),
        )
    );
    let expr = UntypedLambdaCalculusParser::parse("a b c d").unwrap();
    assert_eq!(
        expr,
        App::new_expr(
            App::new_expr(
                App::new_expr(UntyVar::new_expr("a"), UntyVar::new_expr("b")),
                UntyVar::new_expr("c")
            ),
            UntyVar::new_expr("d")
        )
    );
    let expr = UntypedLambdaCalculusParser::parse("(a b) c d").unwrap();
    assert_eq!(
        expr,
        App::new_expr(
            App::new_expr(
                App::new_expr(UntyVar::new_expr("a"), UntyVar::new_expr("b")),
                UntyVar::new_expr("c")
            ),
            UntyVar::new_expr("d")
        )
    );
    let expr = UntypedLambdaCalculusParser::parse("(a b c) d").unwrap();
    assert_eq!(
        expr,
        App::new_expr(
            App::new_expr(
                App::new_expr(UntyVar::new_expr("a"), UntyVar::new_expr("b")),
                UntyVar::new_expr("c")
            ),
            UntyVar::new_expr("d")
        )
    );
    let expr = UntypedLambdaCalculusParser::parse("(a b c d)").unwrap();
    assert_eq!(
        expr,
        App::new_expr(
            App::new_expr(
                App::new_expr(UntyVar::new_expr("a"), UntyVar::new_expr("b")),
                UntyVar::new_expr("c")
            ),
            UntyVar::new_expr("d")
        )
    );
    let expr = UntypedLambdaCalculusParser::parse("((a b) c) d").unwrap();
    assert_eq!(
        expr,
        App::new_expr(
            App::new_expr(
                App::new_expr(UntyVar::new_expr("a"), UntyVar::new_expr("b")),
                UntyVar::new_expr("c")
            ),
            UntyVar::new_expr("d")
        )
    );
    let expr = UntypedLambdaCalculusParser::parse("((a b) c d)").unwrap();
    assert_eq!(
        expr,
        App::new_expr(
            App::new_expr(
                App::new_expr(UntyVar::new_expr("a"), UntyVar::new_expr("b")),
                UntyVar::new_expr("c")
            ),
            UntyVar::new_expr("d")
        )
    );
    let expr = UntypedLambdaCalculusParser::parse("((a b c) d)").unwrap();
    assert_eq!(
        expr,
        App::new_expr(
            App::new_expr(
                App::new_expr(UntyVar::new_expr("a"), UntyVar::new_expr("b")),
                UntyVar::new_expr("c")
            ),
            UntyVar::new_expr("d")
        )
    );
    let expr = UntypedLambdaCalculusParser::parse("(((a b) c) d)").unwrap();
    assert_eq!(
        expr,
        App::new_expr(
            App::new_expr(
                App::new_expr(UntyVar::new_expr("a"), UntyVar::new_expr("b")),
                UntyVar::new_expr("c")
            ),
            UntyVar::new_expr("d")
        )
    );
    let expr = UntypedLambdaCalculusParser::parse("(a b)").unwrap();
    assert_eq!(
        expr,
        App::new_expr(UntyVar::new_expr("a"), UntyVar::new_expr("b"))
    );
}

#[test]
fn simple_lam_vars() {
    let expr = UntypedLambdaCalculusParser::parse("a").unwrap();
    assert_eq!(expr, UntyVar::new_expr("a"));
    let expr = UntypedLambdaCalculusParser::parse("b").unwrap();
    assert_eq!(expr, UntyVar::new_expr("b"));
    let expr = UntypedLambdaCalculusParser::parse("c").unwrap();
    assert_eq!(expr, UntyVar::new_expr("c"));
    let expr = UntypedLambdaCalculusParser::parse("A").unwrap();
    assert_eq!(expr, UntyVar::new_expr("A"));
    let expr = UntypedLambdaCalculusParser::parse("B").unwrap();
    assert_eq!(expr, UntyVar::new_expr("B"));
    let expr = UntypedLambdaCalculusParser::parse("C").unwrap();
    assert_eq!(expr, UntyVar::new_expr("C"));
    let expr = UntypedLambdaCalculusParser::parse("a1").unwrap();
    assert_eq!(expr, UntyVar::new_expr("a1"));
    let expr = UntypedLambdaCalculusParser::parse("A1").unwrap();
    assert_eq!(expr, UntyVar::new_expr("A1"));
    let expr = UntypedLambdaCalculusParser::parse("a1b22CC33").unwrap();
    assert_eq!(expr, UntyVar::new_expr("a1b22CC33"));
    let expr = UntypedLambdaCalculusParser::parse("1");
    assert!(expr.is_err());
    let expr = UntypedLambdaCalculusParser::parse("1abc");
    assert!(expr.is_err());
    let expr = UntypedLambdaCalculusParser::parse("_abc");
    assert!(expr.is_err());
    let expr = UntypedLambdaCalculusParser::parse("abc_abc");
    assert!(expr.is_err());
}
