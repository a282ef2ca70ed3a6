use vstd::prelude::*;

use crate::expression::Abstraction;
use crate::expression::Application;
use crate::expression::Expression;
use crate::expression::Variable;

verus! {

broadcast use vstd::std_specs::vec::axiom_vec_index_decreases;

/// A freshly parsed term: variables carry only names, abstractions may bind
/// several parameters at once, and applications are non-empty lists that are
/// still to be folded into binary form. A literal arrives from the (external)
/// literal encoder as an already-encoded, closed abstraction that is carried
/// through opaquely.
#[derive(Debug, PartialEq, Eq)]
pub enum SurfaceExpression {
    Variable { name: String },
    Abstraction { parameters: Vec<String>, body: Box<SurfaceExpression> },
    Application { expressions: Vec<SurfaceExpression> },
    Literal { encoded: Abstraction },
}

/// One statement of a program: a binding, or a bare expression.
#[derive(Debug, PartialEq, Eq)]
pub enum Statement {
    Let { variable: String, expression: SurfaceExpression },
    Expression { expression: SurfaceExpression },
}

/// A program: a sequence of bindings terminated by exactly one bare
/// expression.
#[derive(Debug, PartialEq, Eq)]
pub struct Program {
    pub statements: Vec<Statement>,
}

/// The syntax producer broke its contract: an application node with no
/// sub-expressions, a program with no trailing bare expression, or a binding
/// after the final expression.
#[derive(Debug, PartialEq, Eq, Clone, Copy)]
pub enum SurfaceError {
    MalformedProgram,
}

/// The distance, counted from the innermost binder, of the nearest binder in
/// `scopes` (a stack, most recent last) whose name reads `name`; `None` when
/// no binder in sight carries that name. The nearest binder always wins, so a
/// shadowed outer binder is never found.
pub open spec fn spec_lookup(scopes: Seq<String>, name: Seq<char>) -> Option<int>
    decreases scopes.len(),
{
    if scopes.len() == 0 {
        None
    } else if scopes.last()@ == name {
        Some(0)
    } else {
        match spec_lookup(scopes.drop_last(), name) {
            Some(p) => Some(p + 1),
            None => None,
        }
    }
}

/// What resolving a surface term under the binder stack `scopes` yields: the
/// same term with every variable's index assigned — the distance to the
/// nearest binder of that name, or `None` (free) when there is none. `None`
/// as a whole marks a malformed term: an application node with no
/// sub-expressions.
pub open spec fn spec_resolved(e: SurfaceExpression, scopes: Seq<String>) -> Option<Expression>
    decreases e, 0int,
{
    match e {
        SurfaceExpression::Variable { name } => Some(
            Expression::Variable(
                Variable {
                    index: match spec_lookup(scopes, name@) {
                        Some(p) => Some(p as usize),
                        None => None,
                    },
                    name,
                },
            ),
        ),
        SurfaceExpression::Abstraction { parameters, body } => spec_resolved_abstraction(
            parameters,
            0,
            *body,
            scopes,
        ),
        SurfaceExpression::Application { expressions } => spec_resolved_application(
            expressions,
            expressions@.len() as int,
            scopes,
        ),
        SurfaceExpression::Literal { encoded } => Some(Expression::Abstraction(encoded)),
    }
}

/// Resolving a multi-parameter abstraction from parameter `i` on: each
/// parameter binds one nested abstraction, the leftmost outermost, and the
/// body is resolved under all of them (the rightmost parameter is the
/// innermost binder, so duplicate names shadow correctly).
pub open spec fn spec_resolved_abstraction(
    parameters: Vec<String>,
    i: int,
    body: SurfaceExpression,
    scopes: Seq<String>,
) -> Option<Expression>
    decreases body, parameters@.len() - i + 1,
{
    if !(0 <= i <= parameters@.len()) {
        None
    } else if i == parameters@.len() {
        spec_resolved(body, scopes)
    } else {
        match spec_resolved_abstraction(parameters, i + 1, body, scopes.push(parameters@[i])) {
            Some(b) => Some(
                Expression::Abstraction(
                    Abstraction { parameter: parameters@[i], body: Box::new(b) },
                ),
            ),
            None => None,
        }
    }
}

/// Resolving the first `n` sub-expressions of an application node as a
/// left-associated chain: `e1 e2 ... en` becomes `(...((e1 e2) e3)...) en`. A
/// single element is just itself; an empty node is malformed.
pub open spec fn spec_resolved_application(
    expressions: Vec<SurfaceExpression>,
    n: int,
    scopes: Seq<String>,
) -> Option<Expression>
    decreases expressions, n,
{
    if n <= 0 || n > expressions@.len() {
        None
    } else if n == 1 {
        spec_resolved(expressions@[0], scopes)
    } else {
        match (
            spec_resolved_application(expressions, n - 1, scopes),
            spec_resolved(expressions@[n - 1], scopes),
        ) {
            (Some(callee), Some(argument)) => Some(
                Expression::Application(
                    Application { callee: Box::new(callee), argument: Box::new(argument) },
                ),
            ),
            _ => None,
        }
    }
}

/// What resolving a whole program yields: `let v = e; rest` becomes the
/// immediately-applied abstraction `(λv. rest) e`, with `e` resolved outside
/// the new binder and `rest` under it; the one trailing bare expression is the
/// innermost body. `None` marks a malformed program: no statements, no
/// trailing bare expression, or a bare expression before the last statement.
pub open spec fn spec_resolved_program(statements: Seq<Statement>, scopes: Seq<String>) -> Option<
    Expression,
>
    decreases statements.len(),
{
    if statements.len() == 0 {
        None
    } else if statements.len() == 1 {
        match statements[0] {
            Statement::Expression { expression } => spec_resolved(expression, scopes),
            Statement::Let { .. } => None,
        }
    } else {
        match statements[0] {
            Statement::Let { variable, expression } => match (
                spec_resolved_program(statements.drop_first(), scopes.push(variable)),
                spec_resolved(expression, scopes),
            ) {
                (Some(rest), Some(bound)) => Some(
                    Expression::Application(
                        Application {
                            callee: Box::new(
                                Expression::Abstraction(
                                    Abstraction { parameter: variable, body: Box::new(rest) },
                                ),
                            ),
                            argument: Box::new(bound),
                        },
                    ),
                ),
                _ => None,
            },
            Statement::Expression { .. } => None,
        }
    }
}


/// Scans the binder stack from the innermost binder outwards for `name` and
/// returns the distance to the nearest match.
fn lookup(scopes: &Vec<String>, name: &String) -> (r: Option<usize>)
    ensures
        (match spec_lookup(scopes@, name@) {
            Some(p) => r == Some(p as usize),
            None => r is None,
        }),
{
    let mut i = scopes.len();
    while i > 0
        invariant
            i <= scopes@.len(),
            forall|k: int| i <= k < scopes@.len() ==> scopes@[k]@ != name@,
        decreases i,
    {
        i = i - 1;
        if scopes[i] == *name {
            proof {
                lemma_lookup_at(scopes@, name@, i as int);
            }
            return Some(scopes.len() - 1 - i);
        }
    }
    proof {
        lemma_lookup_none(scopes@, name@);
    }
    None
}

/// A name that stands at position `i` of the stack, with no nearer
/// occurrence, is found at distance `len - 1 - i`.
proof fn lemma_lookup_at(scopes: Seq<String>, name: Seq<char>, i: int)
    requires
        0 <= i < scopes.len(),
        scopes[i]@ == name,
        forall|k: int| i < k < scopes.len() ==> scopes[k]@ != name,
    ensures
        spec_lookup(scopes, name) == Some(scopes.len() - 1 - i),
    decreases scopes.len(),
{
    if i < scopes.len() - 1 {
        lemma_lookup_at(scopes.drop_last(), name, i);
    }
}

/// A name that stands nowhere in the stack is not found.
proof fn lemma_lookup_none(scopes: Seq<String>, name: Seq<char>)
    requires
        forall|k: int| 0 <= k < scopes.len() ==> scopes[k]@ != name,
    ensures
        spec_lookup(scopes, name) is None,
    decreases scopes.len(),
{
    if scopes.len() > 0 {
        lemma_lookup_none(scopes.drop_last(), name);
    }
}

impl Expression {
    /// Scope resolution: converts each variable occurrence of a freshly parsed
    /// term from a textual name into a de Bruijn index relative to `scopes`, a
    /// stack of the binder names currently visible (most recent last); a name
    /// no binder carries stays free, marked by an unset index. Every name
    /// either resolves or is marked free — the one failure is a malformed
    /// application node with no sub-expressions. The stack is handed back as
    /// it came.
    pub fn from_cst(value: &SurfaceExpression, scopes: &mut Vec<String>) -> (r: Result<
        Expression,
        SurfaceError,
    >)
        ensures
            final(scopes)@ == old(scopes)@,
            (match spec_resolved(*value, old(scopes)@) {
                Some(e) => r == Ok::<Expression, SurfaceError>(e),
                None => r == Err::<Expression, SurfaceError>(SurfaceError::MalformedProgram),
            }),
        decreases *value, 0int,
    {
        match value {
            SurfaceExpression::Variable { name } => {
                let index = lookup(scopes, name);
                Ok(Expression::Variable(Variable { index, name: name.clone() }))
            },
            SurfaceExpression::Abstraction { parameters, body } => Self::from_cst_parameters(
                parameters,
                0,
                body,
                scopes,
            ),
            SurfaceExpression::Application { expressions } => Application::from_cst(
                expressions,
                scopes,
            ),
            SurfaceExpression::Literal { encoded } => Ok(Expression::Abstraction(encoded.clone())),
        }
    }

    /// Resolves a multi-parameter abstraction from parameter `i` on: pushes
    /// each parameter, resolves the body under all of them, and folds the
    /// nested single-parameter abstractions back up while popping.
    fn from_cst_parameters(
        parameters: &Vec<String>,
        i: usize,
        body: &SurfaceExpression,
        scopes: &mut Vec<String>,
    ) -> (r: Result<Expression, SurfaceError>)
        requires
            i <= parameters@.len(),
        ensures
            final(scopes)@ == old(scopes)@,
            (match spec_resolved_abstraction(*parameters, i as int, *body, old(scopes)@) {
                Some(e) => r == Ok::<Expression, SurfaceError>(e),
                None => r == Err::<Expression, SurfaceError>(SurfaceError::MalformedProgram),
            }),
        decreases *body, parameters@.len() - i + 1,
    {
        if i == parameters.len() {
            Expression::from_cst(body, scopes)
        } else {
            scopes.push(parameters[i].clone());
            let inner = Self::from_cst_parameters(parameters, i + 1, body, scopes);
            let parameter = scopes.pop().unwrap();
            match inner {
                Ok(b) => Ok(
                    Expression::Abstraction(Abstraction { parameter, body: Box::new(b) }),
                ),
                Err(e) => Err(e),
            }
        }
    }
}

impl Application {
    /// Resolves an application node: its sub-expressions are resolved under
    /// the same stack and folded left-associatively into binary applications;
    /// a single element degenerates to itself, and an empty node is the
    /// malformed-program condition.
    pub fn from_cst(expressions: &Vec<SurfaceExpression>, scopes: &mut Vec<String>) -> (r: Result<
        Expression,
        SurfaceError,
    >)
        ensures
            final(scopes)@ == old(scopes)@,
            (match spec_resolved_application(*expressions, expressions@.len() as int, old(
                scopes,
            )@) {
                Some(e) => r == Ok::<Expression, SurfaceError>(e),
                None => r == Err::<Expression, SurfaceError>(SurfaceError::MalformedProgram),
            }),
        decreases *expressions, expressions@.len() as int + 1,
    {
        let n = expressions.len();
        Self::from_cst_prefix(expressions, n, scopes)
    }

    /// Resolves the first `n` sub-expressions of an application node into a
    /// left-associated chain.
    fn from_cst_prefix(
        expressions: &Vec<SurfaceExpression>,
        n: usize,
        scopes: &mut Vec<String>,
    ) -> (r: Result<Expression, SurfaceError>)
        requires
            n <= expressions@.len(),
        ensures
            final(scopes)@ == old(scopes)@,
            (match spec_resolved_application(*expressions, n as int, old(scopes)@) {
                Some(e) => r == Ok::<Expression, SurfaceError>(e),
                None => r == Err::<Expression, SurfaceError>(SurfaceError::MalformedProgram),
            }),
        decreases *expressions, n as int,
    {
        if n == 0 {
            Err(SurfaceError::MalformedProgram)
        } else if n == 1 {
            Expression::from_cst(&expressions[0], scopes)
        } else {
            let callee = Self::from_cst_prefix(expressions, n - 1, scopes)?;
            let argument = Expression::from_cst(&expressions[n - 1], scopes)?;
            Ok(
                Expression::Application(
                    Application { callee: Box::new(callee), argument: Box::new(argument) },
                ),
            )
        }
    }
}


impl Expression {
    /// Desugars and resolves a whole program: each binding `let v = e;`
    /// becomes an abstraction over the rest of the program applied immediately
    /// to `e`, and the one trailing bare expression is the innermost body. A
    /// program with no statements, with no trailing bare expression, or with a
    /// bare expression before the last statement is malformed.
    pub fn from_program(program: &Program) -> (r: Result<Expression, SurfaceError>)
        ensures
            (match spec_resolved_program(program.statements@, Seq::empty()) {
                Some(e) => r == Ok::<Expression, SurfaceError>(e),
                None => r == Err::<Expression, SurfaceError>(SurfaceError::MalformedProgram),
            }),
    {
        let mut scopes: Vec<String> = Vec::new();
        proof {
            assert(program.statements@.skip(0) =~= program.statements@);
        }
        Self::from_statements(&program.statements, 0, &mut scopes)
    }

    /// Resolves the statements from position `i` on: a binding wraps the rest
    /// in an immediately-applied abstraction, with the bound expression
    /// resolved outside the new binder and the rest under it.
    fn from_statements(statements: &Vec<Statement>, i: usize, scopes: &mut Vec<String>) -> (r:
        Result<Expression, SurfaceError>)
        requires
            i <= statements@.len(),
        ensures
            final(scopes)@ == old(scopes)@,
            (match spec_resolved_program(statements@.skip(i as int), old(scopes)@) {
                Some(e) => r == Ok::<Expression, SurfaceError>(e),
                None => r == Err::<Expression, SurfaceError>(SurfaceError::MalformedProgram),
            }),
        decreases statements@.len() - i,
    {
        if i == statements.len() {
            return Err(SurfaceError::MalformedProgram);
        }
        if i == statements.len() - 1 {
            match &statements[i] {
                Statement::Expression { expression } => Expression::from_cst(expression, scopes),
                Statement::Let { .. } => Err(SurfaceError::MalformedProgram),
            }
        } else {
            match &statements[i] {
                Statement::Let { variable, expression } => {
                    let bound = match Expression::from_cst(expression, scopes) {
                        Ok(bound) => bound,
                        Err(e) => {
                            return Err(e);
                        },
                    };
                    scopes.push(variable.clone());
                    let rest = Self::from_statements(statements, i + 1, scopes);
                    let parameter = scopes.pop().unwrap();
                    proof {
                        assert(statements@.skip(i as int).drop_first() =~= statements@.skip(
                            i as int + 1,
                        ));
                    }
                    match rest {
                        Ok(rest_resolved) => Ok(
                            Expression::Application(
                                Application {
                                    callee: Box::new(
                                        Expression::Abstraction(
                                            Abstraction {
                                                parameter,
                                                body: Box::new(rest_resolved),
                                            },
                                        ),
                                    ),
                                    argument: Box::new(bound),
                                },
                            ),
                        ),
                        Err(e) => Err(e),
                    }
                },
                Statement::Expression { .. } => Err(SurfaceError::MalformedProgram),
            }
        }
    }
}


/// Every literal in the surface term is a closed encoding: the external
/// literal encoder promises an already-valid abstraction whose indices all
/// point at binders inside it.
pub open spec fn spec_literals_closed(e: SurfaceExpression) -> bool
    decreases e, 0int,
{
    match e {
        SurfaceExpression::Variable { .. } => true,
        SurfaceExpression::Abstraction { parameters: _, body } => spec_literals_closed(*body),
        SurfaceExpression::Application { expressions } => spec_literals_closed_prefix(
            expressions,
            expressions@.len() as int,
        ),
        SurfaceExpression::Literal { encoded } => crate::expression::spec_well_indexed(
            Expression::Abstraction(encoded),
            0,
        ),
    }
}

/// `spec_literals_closed` over the first `n` sub-expressions of an
/// application node.
pub open spec fn spec_literals_closed_prefix(
    expressions: Vec<SurfaceExpression>,
    n: int,
) -> bool
    decreases expressions, n,
{
    if n <= 0 || n > expressions@.len() {
        true
    } else {
        spec_literals_closed_prefix(expressions, n - 1) && spec_literals_closed(
            expressions@[n - 1],
        )
    }
}


/// The surface expression a statement carries.
pub open spec fn spec_statement_expression(s: Statement) -> SurfaceExpression {
    match s {
        Statement::Let { variable: _, expression } => expression,
        Statement::Expression { expression } => expression,
    }
}

/// Every literal in every statement of the program is a closed encoding.
pub open spec fn spec_program_literals_closed(statements: Seq<Statement>) -> bool {
    forall|k: int|
        0 <= k < statements.len() ==> spec_literals_closed(
            spec_statement_expression(#[trigger] statements[k]),
        )
}

} // verus!
