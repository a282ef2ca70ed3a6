use vstd::prelude::*;

use crate::expression::Abstraction;
use crate::expression::Application;
use crate::expression::Expression;
use crate::expression::spec_avoids;
use crate::expression::spec_eval1_ok;
use crate::expression::spec_evaluate1;
use crate::expression::spec_evaluated_n;
use crate::expression::spec_is_reducible;
use crate::expression::spec_shift_ok;
use crate::expression::spec_shifted;
use crate::expression::spec_subst_ok;
use crate::expression::spec_substituted;
use crate::expression::spec_well_indexed;
use crate::surface::Statement;
use crate::surface::SurfaceExpression;
use crate::surface::spec_literals_closed;
use crate::surface::spec_literals_closed_prefix;
use crate::surface::spec_lookup;
use crate::surface::spec_program_literals_closed;
use crate::surface::spec_resolved;
use crate::surface::spec_resolved_abstraction;
use crate::surface::spec_resolved_application;
use crate::surface::spec_resolved_program;
use crate::surface::spec_statement_expression;

verus! {

broadcast use vstd::std_specs::vec::axiom_vec_index_decreases;

/// A shift by zero changes nothing: for every term and every cutoff,
/// `shifted(0, c)` is the identity.
pub proof fn lemma_shifted_zero_identity(e: Expression, c: int)
    ensures
        spec_shifted(e, 0, c) == e,
    decreases e,
{
    match e {
        Expression::Variable(_) => {},
        Expression::Abstraction(a) => {
            lemma_shifted_zero_identity(*a.body, c + 1);
        },
        Expression::Application(a) => {
            lemma_shifted_zero_identity(*a.callee, c);
            lemma_shifted_zero_identity(*a.argument, c);
        },
    }
}

/// Substitution at an index the term is free of is the identity: when no
/// occurrence in `e` refers `j` binders out, `substituted(j, t)` returns `e`
/// exactly as it was, whatever `t` is — no occurrence is replaced and no other
/// index is renumbered.
pub proof fn lemma_substituted_absent_identity(e: Expression, j: int, t: Expression)
    requires
        spec_avoids(e, j),
    ensures
        spec_substituted(e, j, t) == e,
    decreases e,
{
    match e {
        Expression::Variable(_) => {},
        Expression::Abstraction(a) => {
            lemma_substituted_absent_identity(*a.body, j + 1, spec_shifted(t, 1, 0));
        },
        Expression::Application(a) => {
            lemma_substituted_absent_identity(*a.callee, j, t);
            lemma_substituted_absent_identity(*a.argument, j, t);
        },
    }
}

/// A normal form is a fixed point of the single rewrite step.
pub proof fn lemma_normal_form_fixed(e: Expression)
    requires
        !spec_is_reducible(e),
    ensures
        spec_evaluate1(e) == e,
    decreases e,
{
    match e {
        Expression::Application(a) => match *a.callee {
            Expression::Application(_) => {
                lemma_normal_form_fixed(*a.callee);
            },
            _ => {},
        },
        _ => {},
    }
}

/// Full evaluation is idempotent: once a normal form is reached — and
/// `evaluate` only returns normal forms — any number of further rewrite steps
/// leaves it unchanged, so evaluating an evaluated term yields the same term.
pub proof fn lemma_evaluate_idempotent(e: Expression, n: nat)
    requires
        !spec_is_reducible(e),
    ensures
        spec_evaluated_n(e, n) == e,
    decreases n,
{
    if n > 0 {
        lemma_evaluate_idempotent(e, (n - 1) as nat);
        lemma_normal_form_fixed(e);
    }
}


/// Rewrite steps compose: `a + b` steps from `e` are `b` steps from wherever
/// `a` steps lead.
proof fn lemma_evaluated_n_compose(e: Expression, a: nat, b: nat)
    ensures
        spec_evaluated_n(e, a + b) == spec_evaluated_n(spec_evaluated_n(e, a), b),
    decreases b,
{
    if b > 0 {
        lemma_evaluated_n_compose(e, a, (b - 1) as nat);
    }
}

/// The normal form reached by rewriting is unique: the strategy is
/// deterministic (the leftmost-outermost redex is always the one contracted),
/// so any two irreducible points of the reduction sequence from `e` are the
/// same term — whenever `evaluate` returns a normal form, it is the only one
/// its input can reach.
pub proof fn lemma_normal_form_unique(e: Expression, n1: nat, n2: nat)
    requires
        !spec_is_reducible(spec_evaluated_n(e, n1)),
        !spec_is_reducible(spec_evaluated_n(e, n2)),
    ensures
        spec_evaluated_n(e, n1) == spec_evaluated_n(e, n2),
{
    if n1 <= n2 {
        lemma_evaluated_n_compose(e, n1, (n2 - n1) as nat);
        lemma_evaluate_idempotent(spec_evaluated_n(e, n1), (n2 - n1) as nat);
    } else {
        lemma_evaluated_n_compose(e, n2, (n1 - n2) as nat);
        lemma_evaluate_idempotent(spec_evaluated_n(e, n2), (n1 - n2) as nat);
    }
}

/// A name found in the binder stack is found within it.
proof fn lemma_lookup_in_range(scopes: Seq<String>, name: Seq<char>)
    ensures
        (match spec_lookup(scopes, name) {
            Some(p) => 0 <= p < scopes.len(),
            None => true,
        }),
    decreases scopes.len(),
{
    if scopes.len() > 0 && !(scopes.last()@ == name) {
        lemma_lookup_in_range(scopes.drop_last(), name);
    }
}

/// Well-indexedness only loosens as more binders come into sight.
proof fn lemma_well_indexed_weaken(e: Expression, tight: int, loose: int)
    requires
        spec_well_indexed(e, tight),
        tight <= loose,
    ensures
        spec_well_indexed(e, loose),
    decreases e,
{
    match e {
        Expression::Variable(_) => {},
        Expression::Abstraction(a) => {
            lemma_well_indexed_weaken(*a.body, tight + 1, loose + 1);
        },
        Expression::Application(a) => {
            lemma_well_indexed_weaken(*a.callee, tight, loose);
            lemma_well_indexed_weaken(*a.argument, tight, loose);
        },
    }
}

/// The scope resolver assigns only in-range indices: in a term resolved under
/// a stack of `n` binder names, every occurrence at depth `d` from the root
/// has its index below `d + n` — it refers to a binder that exists. The
/// resolver establishes this by construction, provided every literal is the
/// closed encoding its producer promises.
pub proof fn lemma_resolved_well_indexed(e: SurfaceExpression, scopes: Seq<String>)
    requires
        spec_literals_closed(e),
    ensures
        (match spec_resolved(e, scopes) {
            Some(t) => spec_well_indexed(t, scopes.len() as int),
            None => true,
        }),
    decreases e, 0int,
{
    match e {
        SurfaceExpression::Variable { name } => {
            lemma_lookup_in_range(scopes, name@);
        },
        SurfaceExpression::Abstraction { parameters, body } => {
            lemma_resolved_abstraction_well_indexed(parameters, 0, *body, scopes);
        },
        SurfaceExpression::Application { expressions } => {
            lemma_resolved_application_well_indexed(
                expressions,
                expressions@.len() as int,
                scopes,
            );
        },
        SurfaceExpression::Literal { encoded } => {
            lemma_well_indexed_weaken(
                Expression::Abstraction(encoded),
                0,
                scopes.len() as int,
            );
        },
    }
}

/// The resolver's multi-parameter abstraction case assigns only in-range
/// indices.
proof fn lemma_resolved_abstraction_well_indexed(
    parameters: Vec<String>,
    i: int,
    body: SurfaceExpression,
    scopes: Seq<String>,
)
    requires
        spec_literals_closed(body),
    ensures
        (match spec_resolved_abstraction(parameters, i, body, scopes) {
            Some(t) => spec_well_indexed(t, scopes.len() as int),
            None => true,
        }),
    decreases body, parameters@.len() - i + 1,
{
    if 0 <= i && i < parameters@.len() {
        lemma_resolved_abstraction_well_indexed(
            parameters,
            i + 1,
            body,
            scopes.push(parameters@[i]),
        );
    } else if i == parameters@.len() {
        lemma_resolved_well_indexed(body, scopes);
    }
}

/// The resolver's application fold assigns only in-range indices.
proof fn lemma_resolved_application_well_indexed(
    expressions: Vec<SurfaceExpression>,
    n: int,
    scopes: Seq<String>,
)
    requires
        spec_literals_closed_prefix(expressions, n),
    ensures
        (match spec_resolved_application(expressions, n, scopes) {
            Some(t) => spec_well_indexed(t, scopes.len() as int),
            None => true,
        }),
    decreases expressions, n,
{
    if 0 < n && n <= expressions@.len() {
        if n == 1 {
            lemma_resolved_well_indexed(expressions@[0], scopes);
        } else {
            lemma_resolved_application_well_indexed(expressions, n - 1, scopes);
            lemma_resolved_well_indexed(expressions@[n - 1], scopes);
        }
    }
}

/// A resolved program carries only in-range indices: desugaring adds binders
/// one at a time and resolves everything under the stack they build up.
pub proof fn lemma_resolved_program_well_indexed(statements: Seq<Statement>, scopes: Seq<String>)
    requires
        spec_program_literals_closed(statements),
    ensures
        (match spec_resolved_program(statements, scopes) {
            Some(t) => spec_well_indexed(t, scopes.len() as int),
            None => true,
        }),
    decreases statements.len(),
{
    if statements.len() == 1 {
        match statements[0] {
            Statement::Expression { expression } => {
                lemma_resolved_well_indexed(expression, scopes);
            },
            Statement::Let { .. } => {},
        }
    } else if statements.len() > 1 {
        reveal_with_fuel(spec_well_indexed, 3);
        match statements[0] {
            Statement::Let { variable, expression } => {
                assert forall|k: int| 0 <= k < statements.drop_first().len() implies
                    spec_literals_closed(
                        spec_statement_expression(#[trigger] statements.drop_first()[k]),
                    ) by {
                    assert(statements.drop_first()[k] == statements[k + 1]);
                }
                lemma_resolved_program_well_indexed(
                    statements.drop_first(),
                    scopes.push(variable),
                );
                lemma_resolved_well_indexed(expression, scopes);
            },
            Statement::Expression { .. } => {},
        }
    }
}


/// An in-bounds upward shift keeps indices in range, one level higher.
proof fn lemma_shifted_up_well_indexed(e: Expression, d: int, c: int, depth: int)
    requires
        spec_well_indexed(e, depth),
        spec_shift_ok(e, d, c),
        d >= 0,
    ensures
        spec_well_indexed(spec_shifted(e, d, c), depth + d),
    decreases e,
{
    match e {
        Expression::Variable(_) => {},
        Expression::Abstraction(a) => {
            lemma_shifted_up_well_indexed(*a.body, d, c + 1, depth + 1);
        },
        Expression::Application(a) => {
            lemma_shifted_up_well_indexed(*a.callee, d, c, depth);
            lemma_shifted_up_well_indexed(*a.argument, d, c, depth);
        },
    }
}

/// After an in-bounds shift up by one at cutoff `c`, no occurrence refers
/// exactly `c` binders out: indices below the cutoff stay below it, indices at
/// or above it move past it.
proof fn lemma_shifted_up_avoids(e: Expression, c: int)
    requires
        spec_shift_ok(e, 1, c),
    ensures
        spec_avoids(spec_shifted(e, 1, c), c),
    decreases e,
{
    match e {
        Expression::Variable(_) => {},
        Expression::Abstraction(a) => {
            lemma_shifted_up_avoids(*a.body, c + 1);
        },
        Expression::Application(a) => {
            lemma_shifted_up_avoids(*a.callee, c);
            lemma_shifted_up_avoids(*a.argument, c);
        },
    }
}

/// An in-bounds shift up by one below index `j` moves an avoided index `j` to
/// an avoided `j + 1`.
proof fn lemma_shifted_up_avoids_incremented(e: Expression, c: int, j: int)
    requires
        spec_avoids(e, j),
        spec_shift_ok(e, 1, c),
        0 <= c <= j,
    ensures
        spec_avoids(spec_shifted(e, 1, c), j + 1),
    decreases e,
{
    match e {
        Expression::Variable(_) => {},
        Expression::Abstraction(a) => {
            lemma_shifted_up_avoids_incremented(*a.body, c + 1, j + 1);
        },
        Expression::Application(a) => {
            lemma_shifted_up_avoids_incremented(*a.callee, c, j);
            lemma_shifted_up_avoids_incremented(*a.argument, c, j);
        },
    }
}

/// An in-bounds substitution of an in-range term keeps indices in range: the
/// replaced occurrences take the substituted term's place at the same level,
/// and nothing else is renumbered.
proof fn lemma_substituted_well_indexed(e: Expression, j: int, s: Expression, depth: int)
    requires
        spec_well_indexed(e, depth),
        spec_well_indexed(s, depth),
        spec_subst_ok(e, j, s),
    ensures
        spec_well_indexed(spec_substituted(e, j, s), depth),
    decreases e,
{
    match e {
        Expression::Variable(_) => {},
        Expression::Abstraction(a) => {
            lemma_shifted_up_well_indexed(s, 1, 0, depth);
            lemma_substituted_well_indexed(
                *a.body,
                j + 1,
                spec_shifted(s, 1, 0),
                depth + 1,
            );
        },
        Expression::Application(a) => {
            lemma_substituted_well_indexed(*a.callee, j, s, depth);
            lemma_substituted_well_indexed(*a.argument, j, s, depth);
        },
    }
}

/// Substituting a term that itself avoids index `j` eliminates every
/// occurrence of `j`: the result avoids `j`.
proof fn lemma_substituted_avoids(e: Expression, j: int, s: Expression)
    requires
        spec_avoids(s, j),
        spec_subst_ok(e, j, s),
        j >= 0,
    ensures
        spec_avoids(spec_substituted(e, j, s), j),
    decreases e,
{
    match e {
        Expression::Variable(_) => {},
        Expression::Abstraction(a) => {
            lemma_shifted_up_avoids_incremented(s, 0, j);
            lemma_substituted_avoids(*a.body, j + 1, spec_shifted(s, 1, 0));
        },
        Expression::Application(a) => {
            lemma_substituted_avoids(*a.callee, j, s);
            lemma_substituted_avoids(*a.argument, j, s);
        },
    }
}

/// Closing the gap left by an eliminated binder: a term in range one level up
/// that avoids the cutoff shifts down by one into range, and the shift itself
/// stays within bounds.
proof fn lemma_shifted_down_well_indexed(e: Expression, c: int, depth: int)
    requires
        spec_well_indexed(e, depth + 1),
        spec_avoids(e, c),
        0 <= c <= depth,
    ensures
        spec_well_indexed(spec_shifted(e, -1, c), depth),
    decreases e,
{
    match e {
        Expression::Variable(_) => {},
        Expression::Abstraction(a) => {
            lemma_shifted_down_well_indexed(*a.body, c + 1, depth + 1);
        },
        Expression::Application(a) => {
            lemma_shifted_down_well_indexed(*a.callee, c, depth);
            lemma_shifted_down_well_indexed(*a.argument, c, depth);
        },
    }
}

/// One in-bounds reduction step keeps every index in range: the beta step's
/// shift discipline — argument up by one, substitute at zero, result down by
/// one — is exactly what preserves well-indexedness as the subterms move
/// across the consumed binder.
pub proof fn lemma_step_preserves_well_indexed(e: Expression, depth: int)
    requires
        spec_well_indexed(e, depth),
        spec_eval1_ok(e),
        depth >= 0,
    ensures
        spec_well_indexed(spec_evaluate1(e), depth),
    decreases e,
{
    reveal_with_fuel(spec_well_indexed, 3);
    match e {
        Expression::Application(a) => match *a.callee {
            Expression::Abstraction(abs) => {
                let shifted_argument = spec_shifted(*a.argument, 1, 0);
                let substituted_body = spec_substituted(*abs.body, 0, shifted_argument);
                lemma_shifted_up_well_indexed(*a.argument, 1, 0, depth);
                lemma_shifted_up_avoids(*a.argument, 0);
                lemma_substituted_well_indexed(*abs.body, 0, shifted_argument, depth + 1);
                lemma_substituted_avoids(*abs.body, 0, shifted_argument);
                lemma_shifted_down_well_indexed(substituted_body, 0, depth);
            },
            Expression::Application(_) => {
                lemma_step_preserves_well_indexed(*a.callee, depth);
            },
            Expression::Variable(_) => {},
        },
        _ => {},
    }
}

} // verus!
