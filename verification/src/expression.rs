use vstd::prelude::*;

verus! {

/// A variable occurrence. `index` is the de Bruijn index of the binder this
/// occurrence refers to (counting enclosing abstractions from the innermost,
/// starting at 0); `None` marks a free variable, identified by `name` alone.
/// `name` is retained for display only once indices are assigned.
#[derive(Debug, PartialEq, Eq)]
pub struct Variable {
    pub index: Option<usize>,
    pub name: String,
}

/// An abstraction binds exactly one variable; `parameter` is kept for display
/// and plays no role in resolution once indices are assigned.
#[derive(Debug, PartialEq, Eq)]
pub struct Abstraction {
    pub parameter: String,
    pub body: Box<Expression>,
}

/// An ordered application of a callee to an argument.
#[derive(Debug, PartialEq, Eq)]
pub struct Application {
    pub callee: Box<Expression>,
    pub argument: Box<Expression>,
}

/// A term of the untyped lambda calculus in de Bruijn form.
#[derive(Debug, PartialEq, Eq)]
pub enum Expression {
    Variable(Variable),
    Abstraction(Abstraction),
    Application(Application),
}

impl Clone for Variable {
    /// An exact copy: the clone is spec-equal to the original.
    fn clone(&self) -> (res: Self)
        ensures
            res == *self,
    {
        Variable { index: self.index, name: self.name.clone() }
    }
}

impl Clone for Abstraction {
    /// An exact copy: the clone is spec-equal to the original.
    fn clone(&self) -> (res: Self)
        ensures
            res == *self,
        decreases *self,
    {
        Abstraction { parameter: self.parameter.clone(), body: Box::new((*self.body).clone()) }
    }
}

impl Clone for Application {
    /// An exact copy: the clone is spec-equal to the original.
    fn clone(&self) -> (res: Self)
        ensures
            res == *self,
        decreases *self,
    {
        Application {
            callee: Box::new((*self.callee).clone()),
            argument: Box::new((*self.argument).clone()),
        }
    }
}

impl Clone for Expression {
    /// An exact copy: the clone is spec-equal to the original.
    fn clone(&self) -> (res: Self)
        ensures
            res == *self,
        decreases *self,
    {
        match self {
            Expression::Variable(v) => Expression::Variable(v.clone()),
            Expression::Abstraction(a) => Expression::Abstraction(a.clone()),
            Expression::Application(a) => Expression::Application(a.clone()),
        }
    }
}

/// What `shifted(d, c)` returns: every index at least `c` (`c` grows by one
/// under each binder) is moved by `d`; smaller indices and free variables are
/// left alone.
pub open spec fn spec_shifted(e: Expression, d: int, c: int) -> Expression
    decreases e,
{
    match e {
        Expression::Variable(v) => Expression::Variable(Variable {
            index: match v.index {
                Some(i) => Some(if i >= c { ((i + d) as usize) } else { i }),
                None => None,
            },
            name: v.name,
        }),
        Expression::Abstraction(a) => Expression::Abstraction(Abstraction {
            parameter: a.parameter,
            body: Box::new(spec_shifted(*a.body, d, c + 1)),
        }),
        Expression::Application(a) => Expression::Application(Application {
            callee: Box::new(spec_shifted(*a.callee, d, c)),
            argument: Box::new(spec_shifted(*a.argument, d, c)),
        }),
    }
}

/// The machine-size bounds under which a shift by `d` at cutoff `c` can be
/// carried out on `usize` indices: every moved index lands in `0..=usize::MAX`
/// and the cutoff itself never overflows while descending.
pub open spec fn spec_shift_ok(e: Expression, d: int, c: int) -> bool
    decreases e,
{
    match e {
        Expression::Variable(v) => match v.index {
            Some(i) => i >= c ==> 0 <= i + d <= usize::MAX,
            None => true,
        },
        Expression::Abstraction(a) => c + 1 <= usize::MAX && spec_shift_ok(*a.body, d, c + 1),
        Expression::Application(a) => spec_shift_ok(*a.callee, d, c) && spec_shift_ok(
            *a.argument,
            d,
            c,
        ),
    }
}

impl Expression {
    /// Relocation across binders: adds `d` to every index that is at least
    /// `c`, raising the cutoff by one under each abstraction, so that
    /// references to binders inside the shifted subterm stay untouched while
    /// references pointing out of it are adjusted.
    pub fn shifted(self, d: isize, c: usize) -> (r: Expression)
        requires
            spec_shift_ok(self, d as int, c as int),
        ensures
            r == spec_shifted(self, d as int, c as int),
        decreases self,
    {
        match self {
            Expression::Variable(v) => {
                let index = match v.index {
                    Some(i) => if i >= c {
                        if d >= 0 {
                            Some(i + (d as usize))
                        } else {
                            let magnitude: usize = if d == isize::MIN {
                                (isize::MAX as usize) + 1
                            } else {
                                (-d) as usize
                            };
                            Some(i - magnitude)
                        }
                    } else {
                        Some(i)
                    },
                    None => None,
                };
                Expression::Variable(Variable { index, name: v.name })
            },
            Expression::Abstraction(a) => Expression::Abstraction(Abstraction {
                parameter: a.parameter,
                body: Box::new((*a.body).shifted(d, c + 1)),
            }),
            Expression::Application(a) => Expression::Application(Application {
                callee: Box::new((*a.callee).shifted(d, c)),
                argument: Box::new((*a.argument).shifted(d, c)),
            }),
        }
    }
}

/// What `substituted(j, t)` returns: every variable occurrence whose index
/// refers `j` binders out (so index `j + k` at depth `k`) is replaced by `t`,
/// with `t` shifted up by one for each binder crossed so that none of its free
/// indices is captured; all other occurrences are left exactly as they are.
pub open spec fn spec_substituted(e: Expression, j: int, t: Expression) -> Expression
    decreases e,
{
    match e {
        Expression::Variable(v) => match v.index {
            Some(i) => if i == j {
                t
            } else {
                Expression::Variable(v)
            },
            None => Expression::Variable(v),
        },
        Expression::Abstraction(a) => Expression::Abstraction(Abstraction {
            parameter: a.parameter,
            body: Box::new(spec_substituted(*a.body, j + 1, spec_shifted(t, 1, 0))),
        }),
        Expression::Application(a) => Expression::Application(Application {
            callee: Box::new(spec_substituted(*a.callee, j, t)),
            argument: Box::new(spec_substituted(*a.argument, j, t)),
        }),
    }
}

/// The machine-size bounds under which `substituted(j, t)` can be carried out
/// on `usize` indices: the target index and the capture-avoiding shifts of `t`
/// stay within `usize` while descending under binders.
pub open spec fn spec_subst_ok(e: Expression, j: int, t: Expression) -> bool
    decreases e,
{
    match e {
        Expression::Variable(_) => true,
        Expression::Abstraction(a) => j + 1 <= usize::MAX && spec_shift_ok(t, 1, 0)
            && spec_subst_ok(*a.body, j + 1, spec_shifted(t, 1, 0)),
        Expression::Application(a) => spec_subst_ok(*a.callee, j, t) && spec_subst_ok(
            *a.argument,
            j,
            t,
        ),
    }
}

impl Expression {
    /// Capture-avoiding substitution: replaces each occurrence of the variable
    /// bound `j` binders out by `term`, duplicating `term` once per occurrence
    /// site and shifting it by one for every binder crossed on the way down.
    /// Occurrences with any other index are returned unchanged.
    pub fn substituted(self, j: usize, term: Expression) -> (r: Expression)
        requires
            spec_subst_ok(self, j as int, term),
        ensures
            r == spec_substituted(self, j as int, term),
        decreases self,
    {
        match self {
            Expression::Variable(v) => match v.index {
                Some(i) => if i == j {
                    term
                } else {
                    Expression::Variable(v)
                },
                None => Expression::Variable(v),
            },
            Expression::Abstraction(a) => Expression::Abstraction(Abstraction {
                parameter: a.parameter,
                body: Box::new((*a.body).substituted(j + 1, term.shifted(1, 0))),
            }),
            Expression::Application(a) => {
                let argument_term = term.clone();
                Expression::Application(Application {
                    callee: Box::new((*a.callee).substituted(j, term)),
                    argument: Box::new((*a.argument).substituted(j, argument_term)),
                })
            },
        }
    }
}

/// A term is reducible exactly when it is an application whose callee is an
/// abstraction (a redex) or whose callee is itself a reducible application (a
/// congruence opportunity). Variables, abstractions and applications headed by
/// an irreducible non-abstraction are normal forms of this strategy.
pub open spec fn spec_is_reducible(e: Expression) -> bool
    decreases e,
{
    match e {
        Expression::Application(a) => (*a.callee) is Abstraction || spec_is_reducible(*a.callee),
        _ => false,
    }
}

/// The beta step: plug `argument` into the body of the consumed binder. The
/// argument is first shifted up by one so that crossing the binder does not
/// capture its free indices, the substitution targets index 0, and the result
/// is shifted down by one to close the gap left by the eliminated binder.
pub open spec fn spec_beta(body: Expression, argument: Expression) -> Expression {
    spec_shifted(spec_substituted(body, 0, spec_shifted(argument, 1, 0)), -1, 0)
}

/// The machine-size bounds under which the beta step on `usize` indices stays
/// exact: the argument's up-shift, the substitution, and the closing
/// down-shift each stay within `usize`.
pub open spec fn spec_beta_ok(body: Expression, argument: Expression) -> bool {
    &&& spec_shift_ok(argument, 1, 0)
    &&& spec_subst_ok(body, 0, spec_shifted(argument, 1, 0))
    &&& spec_shift_ok(spec_substituted(body, 0, spec_shifted(argument, 1, 0)), -1, 0)
}

/// One normal-order (leftmost-outermost) rewrite step. A redex is contracted;
/// otherwise the step recurses into the callee of an application; any other
/// term is already a normal form and is returned unchanged. Arguments are
/// never reduced before being substituted, and reduction never goes under an
/// abstraction.
pub open spec fn spec_evaluate1(e: Expression) -> Expression
    decreases e,
{
    match e {
        Expression::Application(a) => match *a.callee {
            Expression::Abstraction(abs) => spec_beta(*abs.body, *a.argument),
            Expression::Application(_) => Expression::Application(Application {
                callee: Box::new(spec_evaluate1(*a.callee)),
                argument: a.argument,
            }),
            Expression::Variable(_) => e,
        },
        _ => e,
    }
}

/// The machine-size bounds under which one rewrite step on `usize` indices
/// stays exact: the contracted redex (the leftmost-outermost one) satisfies
/// `spec_beta_ok`. On a term nested deeply beyond any machine-representable
/// size this can fail; on anything that fits in memory it holds.
pub open spec fn spec_eval1_ok(e: Expression) -> bool
    decreases e,
{
    match e {
        Expression::Application(a) => match *a.callee {
            Expression::Abstraction(abs) => spec_beta_ok(*abs.body, *a.argument),
            Expression::Application(_) => spec_eval1_ok(*a.callee),
            Expression::Variable(_) => true,
        },
        _ => true,
    }
}

/// `n` rewrite steps from `e`; past a normal form further steps change
/// nothing.
pub open spec fn spec_evaluated_n(e: Expression, n: nat) -> Expression
    decreases n,
{
    if n == 0 {
        e
    } else {
        spec_evaluate1(spec_evaluated_n(e, (n - 1) as nat))
    }
}

impl Expression {
    /// Whether this term is reducible under the normal-order strategy.
    pub fn is_reducible(&self) -> (r: bool)
        ensures
            r == spec_is_reducible(*self),
        decreases *self,
    {
        match self {
            Expression::Application(application) => application.is_reducible(),
            _ => false,
        }
    }

    /// Whether a shift by `d` at cutoff `c` stays within `usize` on this term.
    fn shift_within(&self, d: isize, c: usize) -> (r: bool)
        ensures
            r == spec_shift_ok(*self, d as int, c as int),
        decreases *self,
    {
        match self {
            Expression::Variable(v) => match v.index {
                Some(i) => if i >= c {
                    if d >= 0 {
                        i <= usize::MAX - (d as usize)
                    } else {
                        let magnitude: usize = if d == isize::MIN {
                            (isize::MAX as usize) + 1
                        } else {
                            (-d) as usize
                        };
                        i >= magnitude
                    }
                } else {
                    true
                },
                None => true,
            },
            Expression::Abstraction(a) => c < usize::MAX && a.body.shift_within(d, c + 1),
            Expression::Application(a) => a.callee.shift_within(d, c) && a.argument.shift_within(
                d,
                c,
            ),
        }
    }

    /// Whether substituting `term` at index `j` stays within `usize` on this
    /// term.
    fn subst_within(&self, j: usize, term: &Expression) -> (r: bool)
        ensures
            r == spec_subst_ok(*self, j as int, *term),
        decreases *self,
    {
        match self {
            Expression::Variable(_) => true,
            Expression::Abstraction(a) => j < usize::MAX && term.shift_within(1, 0) && {
                let shifted_term = term.clone().shifted(1, 0);
                a.body.subst_within(j + 1, &shifted_term)
            },
            Expression::Application(a) => a.callee.subst_within(j, term) && a.argument.subst_within(
                j,
                term,
            ),
        }
    }

    /// The beta step on a redex's parts, guarded against `usize` overflow:
    /// `None` exactly when the indices involved would leave `0..=usize::MAX`,
    /// which no term of machine-representable depth can make happen.
    fn try_beta(body: &Expression, argument: &Expression) -> (r: Option<Expression>)
        ensures
            spec_beta_ok(*body, *argument) ==> r == Some(spec_beta(*body, *argument)),
            !spec_beta_ok(*body, *argument) ==> r is None,
    {
        if !argument.shift_within(1, 0) {
            return None;
        }
        let shifted_argument = argument.clone().shifted(1, 0);
        if !body.subst_within(0, &shifted_argument) {
            return None;
        }
        let substituted_body = body.clone().substituted(0, shifted_argument);
        if !substituted_body.shift_within(-1, 0) {
            return None;
        }
        Some(substituted_body.shifted(-1, 0))
    }

    /// One rewrite step; a term that is not an application is a normal form
    /// and comes back unchanged.
    fn evaluate1(self) -> (r: Expression)
        ensures
            spec_eval1_ok(self) ==> r == spec_evaluate1(self),
            !spec_eval1_ok(self) ==> r == self,
    {
        match self {
            Expression::Application(application) => application.evaluate1(),
            other => other,
        }
    }

    /// Repeats the single rewrite step while the term stays reducible and
    /// returns the first normal form reached; the sequence of steps is the
    /// unique leftmost-outermost one. Reduction of a divergent term does not
    /// reach a normal form: Verus asks every loop for a termination measure,
    /// so the fixpoint iteration carries a step budget of `u64::MAX`, a count
    /// no machine finishes; within it this function behaves as the unbounded
    /// fixpoint.
    pub fn evaluate(self) -> (r: Expression)
        ensures
            exists|n: nat|
                r == spec_evaluated_n(self, n) && (spec_is_reducible(r) ==> !spec_eval1_ok(r) || n
                    >= u64::MAX),
            !spec_is_reducible(self) ==> r == self,
    {
        let ghost start = self;
        let mut current = self;
        let mut budget: u64 = u64::MAX;
        let ghost mut steps: nat = 0;
        let ghost mut stalled: bool = false;
        while budget > 0 && current.is_reducible()
            invariant
                current == spec_evaluated_n(start, steps),
                stalled ==> !spec_eval1_ok(current),
                !stalled ==> steps == u64::MAX - budget,
                steps <= u64::MAX,
                !spec_is_reducible(start) ==> steps == 0,
            decreases budget,
        {
            let ghost previous = current;
            current = current.evaluate1();
            proof {
                if spec_eval1_ok(previous) {
                    steps = steps + 1;
                } else {
                    stalled = true;
                }
            }
            budget = budget - 1;
        }
        current
    }
}

impl Application {
    /// Whether this application is reducible: its callee is an abstraction or
    /// itself a reducible application.
    pub fn is_reducible(&self) -> (r: bool)
        ensures
            r == spec_is_reducible(Expression::Application(*self)),
        decreases *self,
    {
        proof {
            reveal_with_fuel(spec_is_reducible, 2);
        }
        match &*self.callee {
            Expression::Abstraction(_) => true,
            Expression::Application(inner) => inner.is_reducible(),
            Expression::Variable(_) => false,
        }
    }

    /// One rewrite step on this application: contract the redex if the callee
    /// is an abstraction, step inside the callee if it is an application, and
    /// return the term unchanged otherwise.
    pub fn evaluate1(self) -> (r: Expression)
        ensures
            spec_eval1_ok(Expression::Application(self)) ==> r == spec_evaluate1(
                Expression::Application(self),
            ),
            !spec_eval1_ok(Expression::Application(self)) ==> r == Expression::Application(self),
        decreases self,
    {
        let Application { callee, argument } = self;
        match *callee {
            Expression::Abstraction(abs) => match Expression::try_beta(&abs.body, &argument) {
                Some(reduced) => reduced,
                None => Expression::Application(Application {
                    callee: Box::new(Expression::Abstraction(abs)),
                    argument,
                }),
            },
            Expression::Application(inner) => Expression::Application(Application {
                callee: Box::new(inner.evaluate1()),
                argument,
            }),
            Expression::Variable(v) => Expression::Application(Application {
                callee: Box::new(Expression::Variable(v)),
                argument,
            }),
        }
    }
}

/// No variable occurrence in `e` refers `j` binders out of `e`: at depth `k`
/// under `k` abstractions, no index equals `j + k`. Such a term is free of
/// index `j` at top level.
pub open spec fn spec_avoids(e: Expression, j: int) -> bool
    decreases e,
{
    match e {
        Expression::Variable(v) => match v.index {
            Some(i) => i != j,
            None => true,
        },
        Expression::Abstraction(a) => spec_avoids(*a.body, j + 1),
        Expression::Application(a) => spec_avoids(*a.callee, j) && spec_avoids(*a.argument, j),
    }
}

/// Every assigned index refers to a binder that is actually in sight: an
/// occurrence at depth `k` under `k` abstractions within `e` has its index
/// below `k + depth`, where `depth` counts the binders visible outside `e`.
/// The scope resolver establishes this by construction, with `depth` the size
/// of its binder stack; free variables carry no index and are always fine.
pub open spec fn spec_well_indexed(e: Expression, depth: int) -> bool
    decreases e,
{
    match e {
        Expression::Variable(v) => match v.index {
            Some(i) => i < depth,
            None => true,
        },
        Expression::Abstraction(a) => spec_well_indexed(*a.body, depth + 1),
        Expression::Application(a) => spec_well_indexed(*a.callee, depth) && spec_well_indexed(
            *a.argument,
            depth,
        ),
    }
}

impl Variable {
    /// A variable occurrence with the given index (`None` for a free
    /// variable) and display name.
    pub fn new(index: Option<usize>, name: &str) -> (r: Self)
        ensures
            r.index == index,
            r.name@ == name@,
    {
        Variable { index, name: name.to_owned() }
    }
}

impl Abstraction {
    /// An abstraction binding one variable, with the given display name for
    /// its parameter.
    pub fn new(parameter: &str, body: Expression) -> (r: Self)
        ensures
            r.parameter@ == parameter@,
            *r.body == body,
    {
        Abstraction { parameter: parameter.to_owned(), body: Box::new(body) }
    }
}

impl Application {
    /// An application of `callee` to `argument`, in that order.
    pub fn new(callee: Expression, argument: Expression) -> (r: Self)
        ensures
            *r.callee == callee,
            *r.argument == argument,
    {
        Application { callee: Box::new(callee), argument: Box::new(argument) }
    }

    /// Shifts both children by `d` at cutoff `c`; an application adds no
    /// binder, so the cutoff is passed through unchanged.
    pub fn shifted(self, d: isize, c: usize) -> (r: Self)
        requires
            spec_shift_ok(Expression::Application(self), d as int, c as int),
        ensures
            Expression::Application(r) == spec_shifted(
                Expression::Application(self),
                d as int,
                c as int,
            ),
    {
        Application {
            callee: Box::new((*self.callee).shifted(d, c)),
            argument: Box::new((*self.argument).shifted(d, c)),
        }
    }

    /// Substitutes `term` at index `j` independently in callee and argument,
    /// duplicating `term` once per side.
    pub fn substituted(self, j: usize, term: Expression) -> (r: Self)
        requires
            spec_subst_ok(Expression::Application(self), j as int, term),
        ensures
            Expression::Application(r) == spec_substituted(
                Expression::Application(self),
                j as int,
                term,
            ),
    {
        let argument_term = term.clone();
        Application {
            callee: Box::new((*self.callee).substituted(j, term)),
            argument: Box::new((*self.argument).substituted(j, argument_term)),
        }
    }
}

} // verus!
