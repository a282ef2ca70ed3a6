use lambda_calculus::expression::Abstraction;
use lambda_calculus::expression::Application;
use lambda_calculus::expression::Expression;
use lambda_calculus::expression::Variable;
use lambda_calculus::surface::Program;
use lambda_calculus::surface::Statement;
use lambda_calculus::surface::SurfaceError;
use lambda_calculus::surface::SurfaceExpression;

fn var(index: Option<usize>, name: &str) -> Expression {
    Expression::Variable(Variable::new(index, name))
}

fn abs(parameter: &str, body: Expression) -> Expression {
    Expression::Abstraction(Abstraction::new(parameter, body))
}

fn app(callee: Expression, argument: Expression) -> Expression {
    Expression::Application(Application::new(callee, argument))
}

fn s_var(name: &str) -> SurfaceExpression {
    SurfaceExpression::Variable { name: name.to_string() }
}

fn s_abs(parameters: &[&str], body: SurfaceExpression) -> SurfaceExpression {
    SurfaceExpression::Abstraction {
        parameters: parameters.iter().map(|p| p.to_string()).collect(),
        body: Box::new(body),
    }
}

fn s_app(expressions: Vec<SurfaceExpression>) -> SurfaceExpression {
    SurfaceExpression::Application { expressions }
}

fn resolved(value: &SurfaceExpression) -> Result<Expression, SurfaceError> {
    let mut scopes: Vec<String> = Vec::new();
    Expression::from_cst(value, &mut scopes)
}

#[test]
fn translate_abstraction() {
    // λx x. x resolves its body to the inner binder
    let result = resolved(&s_abs(&["x", "x"], s_var("x"))).unwrap();
    let expected = abs("x", abs("x", var(Some(0), "x")));
    assert_eq!(expected, result);

    // λx. ((λx. x) x): both occurrences bind to their nearest binder
    let b = resolved(&s_abs(
        &["x"],
        s_app(vec![s_abs(&["x"], s_var("x")), s_var("x")]),
    ))
    .unwrap();
    let expected = abs("x", app(abs("x", var(Some(0), "x")), var(Some(0), "x")));
    assert_eq!(expected, b);
}

#[test]
fn translate_application() {
    // a b c resolves to ((a b) c), all three free
    let a = resolved(&s_app(vec![s_var("a"), s_var("b"), s_var("c")])).unwrap();
    let expected = app(app(var(None, "a"), var(None, "b")), var(None, "c"));
    assert_eq!(expected, a);
}

#[test]
fn single_element_application_degenerates() {
    let a = resolved(&s_app(vec![s_var("a")])).unwrap();
    assert_eq!(a, var(None, "a"));
}

#[test]
fn empty_application_is_malformed() {
    let r = resolved(&s_app(vec![]));
    assert_eq!(r, Err(SurfaceError::MalformedProgram));
}

#[test]
fn nested_binders_count_outwards() {
    // λx. λy. x y: x is one binder out, y the innermost
    let r = resolved(&s_abs(&["x"], s_abs(&["y"], s_app(vec![s_var("x"), s_var("y")])))).unwrap();
    let expected = abs("x", abs("y", app(var(Some(1), "x"), var(Some(0), "y"))));
    assert_eq!(expected, r);
}

#[test]
fn shadowing_inner_binder_wins() {
    // ((λx. λx. x) a) b evaluates to b: the inner binder wins
    let surface = s_app(vec![s_abs(&["x", "x"], s_var("x")), s_var("a"), s_var("b")]);
    let term = resolved(&surface).unwrap();
    assert_eq!(term.evaluate(), var(None, "b"));
}

#[test]
fn literal_passes_through_opaquely() {
    // an already-encoded literal resolves to itself, even under binders
    let encoded = Abstraction::new("f", abs("x", var(Some(1), "f")));
    let surface = s_abs(
        &["f"],
        SurfaceExpression::Literal { encoded: encoded.clone() },
    );
    let r = resolved(&surface).unwrap();
    assert_eq!(r, abs("f", Expression::Abstraction(encoded)));
}

#[test]
fn let_desugaring_matches_bare_term() {
    // let id = λx. x; id y  ≡  (λx. x) y  ≡  y
    let program = Program {
        statements: vec![
            Statement::Let {
                variable: "id".to_string(),
                expression: s_abs(&["x"], s_var("x")),
            },
            Statement::Expression { expression: s_app(vec![s_var("id"), s_var("y")]) },
        ],
    };
    let from_let = Expression::from_program(&program).unwrap().evaluate();

    let bare = resolved(&s_app(vec![s_abs(&["x"], s_var("x")), s_var("y")]))
        .unwrap()
        .evaluate();

    assert_eq!(from_let, bare);
    assert_eq!(from_let, var(None, "y"));
}

#[test]
fn program_desugars_to_applied_abstractions() {
    // let a = x; a resolves to (λa. a) x
    let program = Program {
        statements: vec![
            Statement::Let { variable: "a".to_string(), expression: s_var("x") },
            Statement::Expression { expression: s_var("a") },
        ],
    };
    let r = Expression::from_program(&program).unwrap();
    let expected = app(abs("a", var(Some(0), "a")), var(None, "x"));
    assert_eq!(expected, r);
}

#[test]
fn empty_program_is_malformed() {
    let program = Program { statements: vec![] };
    assert_eq!(
        Expression::from_program(&program),
        Err(SurfaceError::MalformedProgram)
    );
}

#[test]
fn program_ending_in_binding_is_malformed() {
    let program = Program {
        statements: vec![Statement::Let {
            variable: "a".to_string(),
            expression: s_var("x"),
        }],
    };
    assert_eq!(
        Expression::from_program(&program),
        Err(SurfaceError::MalformedProgram)
    );
}

#[test]
fn binding_after_final_expression_is_malformed() {
    let program = Program {
        statements: vec![
            Statement::Expression { expression: s_var("x") },
            Statement::Let { variable: "a".to_string(), expression: s_var("y") },
        ],
    };
    assert_eq!(
        Expression::from_program(&program),
        Err(SurfaceError::MalformedProgram)
    );
}
