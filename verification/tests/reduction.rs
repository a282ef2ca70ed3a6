use lambda_calculus::expression::Abstraction;
use lambda_calculus::expression::Application;
use lambda_calculus::expression::Expression;
use lambda_calculus::expression::Variable;

fn var(index: Option<usize>, name: &str) -> Expression {
    Expression::Variable(Variable::new(index, name))
}

fn abs(parameter: &str, body: Expression) -> Expression {
    Expression::Abstraction(Abstraction::new(parameter, body))
}

fn app(callee: Expression, argument: Expression) -> Expression {
    Expression::Application(Application::new(callee, argument))
}

#[test]
fn test_shift() {
    let expected = var(Some(1), "x");
    let result = var(Some(0), "x").shifted(1, 0);
    assert_eq!(expected, result);

    let expected = var(Some(0), "x");
    let result = var(Some(0), "x").shifted(1, 1);
    assert_eq!(expected, result);

    let expected = abs("x", var(Some(2), "y"));
    let result = abs("x", var(Some(1), "y")).shifted(1, 0);
    assert_eq!(expected, result);

    let expected = abs("x", var(Some(0), "x"));
    let result = abs("x", var(Some(0), "x")).shifted(1, 0);
    assert_eq!(expected, result);

    let expected = app(var(Some(1), "x"), var(Some(2), "y"));
    let result = app(var(Some(0), "x"), var(Some(1), "y")).shifted(1, 0);
    assert_eq!(expected, result);
}

#[test]
fn test_substitute() {
    let expected = var(None, "a");
    let result = var(Some(0), "x").substituted(0, var(None, "a"));
    assert_eq!(expected, result);

    let expected = var(Some(1), "x");
    let result = var(Some(1), "x").substituted(0, var(None, "a"));
    assert_eq!(expected, result);

    let expected = abs("x", var(None, "a"));
    let result = abs("x", var(Some(1), "y")).substituted(0, var(None, "a"));
    assert_eq!(expected, result);

    let expected = abs("x", var(Some(0), "x"));
    let result = abs("x", var(Some(0), "x")).substituted(0, var(None, "a"));
    assert_eq!(expected, result);

    let expected = app(var(Some(0), "x"), var(None, "a"));
    let result = app(var(Some(0), "x"), var(Some(1), "y")).substituted(1, var(None, "a"));
    assert_eq!(expected, result);
}

#[test]
fn mod_test_shift() {
    let expected = var(Some(1), "x");
    let result = var(Some(0), "x").shifted(1, 0);
    assert_eq!(expected, result);

    let expected = var(Some(0), "x");
    let result = var(Some(0), "x").shifted(1, 1);
    assert_eq!(expected, result);

    let expected = abs("x", var(Some(2), "y"));
    let result = abs("x", var(Some(1), "y")).shifted(1, 0);
    assert_eq!(expected, result);

    let expected = abs("x", var(Some(0), "x"));
    let result = abs("x", var(Some(0), "x")).shifted(1, 0);
    assert_eq!(expected, result);

    let expected = app(var(Some(1), "x"), var(Some(2), "y"));
    let result = app(var(Some(0), "x"), var(Some(1), "y")).shifted(1, 0);
    assert_eq!(expected, result);
}

#[test]
fn mod_test_substitute() {
    let expected = var(None, "a");
    let result = var(Some(0), "x").substituted(0, var(None, "a"));
    assert_eq!(expected, result);

    let expected = var(Some(1), "x");
    let result = var(Some(1), "x").substituted(0, var(None, "a"));
    assert_eq!(expected, result);

    let expected = abs("x", var(None, "a"));
    let result = abs("x", var(Some(1), "y")).substituted(0, var(None, "a"));
    assert_eq!(expected, result);

    let expected = abs("x", var(Some(0), "x"));
    let result = abs("x", var(Some(0), "x")).substituted(0, var(None, "a"));
    assert_eq!(expected, result);

    let expected = app(var(Some(0), "x"), var(None, "a"));
    let result = app(var(Some(0), "x"), var(Some(1), "y")).substituted(1, var(None, "a"));
    assert_eq!(expected, result);
}

#[test]
fn shift_by_zero_is_identity() {
    let term = app(abs("x", app(var(Some(0), "x"), var(Some(3), "w"))), var(None, "y"));
    assert_eq!(term.clone().shifted(0, 0), term);
    let term = abs("x", abs("y", var(Some(1), "x")));
    assert_eq!(term.clone().shifted(0, 2), term);
}

#[test]
fn substitute_absent_index_is_identity() {
    // no occurrence refers 4 binders out of this term, so nothing changes
    let term = app(abs("x", var(Some(0), "x")), var(Some(2), "z"));
    assert_eq!(term.clone().substituted(4, var(None, "a")), term);
}

#[test]
fn beta_identity() {
    // (λx. x) y reduces to y
    let term = app(abs("x", var(Some(0), "x")), var(None, "y"));
    assert_eq!(term.evaluate(), var(None, "y"));
}

#[test]
fn congruence_before_beta() {
    // ((λx. x) y) z: the inner redex is contracted first, then the outer
    // application is stuck on a free callee
    let inner = Application::new(abs("x", var(Some(0), "x")), var(None, "y"));
    let outer = Application::new(Expression::Application(inner.clone()), var(None, "z"));

    // rule 2: one step reduces the callee application, the argument untouched
    let stepped = Expression::Application(outer.clone()).evaluate();
    assert_eq!(stepped, app(var(None, "y"), var(None, "z")));

    // rule 1 on the inner redex alone
    assert_eq!(inner.evaluate1(), var(None, "y"));

    // the outer application's callee is now a free variable: a normal form
    let normal = app(var(None, "y"), var(None, "z"));
    assert!(!normal.is_reducible());
    assert_eq!(normal.clone().evaluate(), normal);
}

#[test]
fn single_step_on_normal_form_is_identity() {
    let stuck = Application::new(var(None, "y"), var(None, "z"));
    assert_eq!(
        stuck.clone().evaluate1(),
        Expression::Application(stuck)
    );
}

#[test]
fn evaluate_is_idempotent() {
    // ((λx. λy. x) a) b evaluates to a; evaluating the result again changes
    // nothing
    let term = app(
        app(abs("x", abs("y", var(Some(1), "x"))), var(None, "a")),
        var(None, "b"),
    );
    let once = term.evaluate();
    assert_eq!(once.clone().evaluate(), once);
    assert_eq!(once, var(None, "a"));
}

#[test]
fn is_reducible_cases() {
    assert!(!var(None, "x").is_reducible());
    assert!(!abs("x", var(Some(0), "x")).is_reducible());
    assert!(app(abs("x", var(Some(0), "x")), var(None, "y")).is_reducible());
    assert!(!app(var(None, "f"), var(None, "y")).is_reducible());
    // an application whose callee is a reducible application
    assert!(app(
        app(abs("x", var(Some(0), "x")), var(None, "y")),
        var(None, "z")
    )
    .is_reducible());
}

#[test]
fn negative_shift_moves_indices_down() {
    let expected = var(Some(2), "y");
    let result = var(Some(3), "y").shifted(-1, 0);
    assert_eq!(expected, result);

    let expected = app(var(Some(0), "x"), var(Some(4), "y"));
    let result = app(var(Some(0), "x"), var(Some(5), "y")).shifted(-1, 1);
    assert_eq!(expected, result);
}

#[test]
fn application_shifted_and_substituted() {
    let subject = Application::new(var(Some(0), "x"), abs("y", var(Some(1), "x")));
    let shifted = subject.clone().shifted(2, 0);
    assert_eq!(
        Expression::Application(shifted),
        app(var(Some(2), "x"), abs("y", var(Some(3), "x")))
    );

    let substituted = subject.substituted(0, var(None, "a"));
    assert_eq!(
        Expression::Application(substituted),
        app(var(None, "a"), abs("y", var(None, "a")))
    );
}

#[test]
fn twofold_application_reduces_with_shifts() {
    // (λf. λx. f (f x)) g h reduces to g (g h); the argument crosses a binder
    // on its way in, so the shift discipline is exercised for real
    let two = abs(
        "f",
        abs(
            "x",
            app(var(Some(1), "f"), app(var(Some(1), "f"), var(Some(0), "x"))),
        ),
    );
    let term = app(app(two, var(None, "g")), var(None, "h"));
    let expected = app(var(None, "g"), app(var(None, "g"), var(None, "h")));
    assert_eq!(term.evaluate(), expected);
}
