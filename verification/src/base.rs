use vstd::prelude::*;

use crate::score::Score;

verus! {

/// The value/feasibility pair produced for a candidate solution.
///
/// `is_feasible` is true exactly when the penalty computed for the solution
/// was zero; `value` then holds the objective value, and otherwise the
/// penalty magnitude. A freshly constructed evaluation carries an undefined
/// value and is infeasible, and is never better than any other evaluation
/// (see [`lemma_fresh_never_better`]).
#[derive(Clone, Copy, Debug, PartialEq, Eq, Structural)]
pub struct Evaluation {
    pub value: Score,
    pub is_feasible: bool,
}

impl Evaluation {
    /// The evaluation of a solution that has not been evaluated yet.
    pub open spec fn fresh_spec() -> Evaluation {
        Evaluation { value: Score::Undefined, is_feasible: false }
    }
}

impl Default for Evaluation {
    /// A fresh evaluation: undefined value, not feasible.
    fn default() -> (e: Evaluation)
        ensures
            e == Evaluation::fresh_spec(),
    {
        Evaluation { value: Score::Undefined, is_feasible: false }
    }
}

/// The working copies of a solution that a local search keeps.
#[derive(Clone, Copy, Debug, PartialEq, Eq, Hash, Structural)]
pub enum State {
    Best,
    Current,
    BeforeChange,
}

/// A caller-defined optimization problem. The engine never inspects it; it
/// only needs a stable identity when several problems are orchestrated.
pub trait Problem: Sized {
    /// The problem's identity.
    spec fn id_spec(&self) -> u32;

    /// Returns the problem's identity.
    fn get_id(&self) -> (id: u32)
        ensures
            id == self.id_spec(),
    ;
}

/// A caller-defined candidate solution carrying an embedded [`Evaluation`].
///
/// The embedded evaluation is the only part of a solution the engine reads or
/// writes; `with_eval_spec` describes, per implementation, the solution that
/// differs from `self` only in that evaluation.
pub trait Solution: Sized {
    /// The evaluation currently embedded in the solution.
    spec fn eval_spec(&self) -> Evaluation;

    /// The same solution, carrying evaluation `e` instead.
    spec fn with_eval_spec(&self, e: Evaluation) -> Self;

    /// Replacing the evaluation yields exactly that evaluation.
    proof fn lemma_with_eval(&self, e: Evaluation)
        ensures
            self.with_eval_spec(e).eval_spec() == e,
    ;

    /// Reads the embedded evaluation.
    fn get_eval(&self) -> (e: Evaluation)
        ensures
            e == self.eval_spec(),
    ;

    /// Writes the embedded evaluation, leaving the rest of the solution as it
    /// was.
    fn set_eval(&mut self, e: Evaluation)
        ensures
            *final(self) == old(self).with_eval_spec(e),
    ;

    /// An exact copy of the solution.
    fn clone_sol(&self) -> (s: Self)
        ensures
            s == *self,
    ;

    /// The value of the embedded evaluation.
    fn get_value(&self) -> (v: Score)
        ensures
            v == self.eval_spec().value,
    {
        self.get_eval().value
    }
}

/// The caller's scoring functions for one problem/solution pairing: a penalty
/// (zero exactly on feasible solutions) and an objective value. A pure
/// dispatch capability: each scoring method is a mathematical function of the
/// problem and the solution, named by its spec member, so that the engine's
/// contracts can say which scores an evaluation came from.
pub trait Objective<P, S> {
    /// The penalty as a function of problem and solution.
    spec fn penalty_spec(&self, problem: &P, solution: &S) -> Score;

    /// The objective value as a function of problem and solution.
    spec fn value_spec(&self, problem: &P, solution: &S) -> Score;

    /// How far the solution is from feasibility; zero when feasible.
    fn penalty(&self, problem: &P, solution: &S) -> (r: Score)
        ensures
            r == self.penalty_spec(problem, solution),
    ;

    /// The objective value of the solution.
    fn value(&self, problem: &P, solution: &S) -> (r: Score)
        ensures
            r == self.value_spec(problem, solution),
    ;
}

/// The total "better than" order on evaluations that every algorithm uses to
/// decide acceptance and survival.
///
/// A feasible evaluation beats any infeasible one; two infeasible evaluations
/// compare by lower penalty, whatever the direction; two feasible ones
/// compare by value in the direction given by `minimize`. Comparisons with an
/// undefined value are false, so a fresh evaluation never wins.
pub open spec fn better_spec(a: Evaluation, b: Evaluation, minimize: bool) -> bool {
    if a.is_feasible && !b.is_feasible {
        true
    } else if !a.is_feasible && b.is_feasible {
        false
    } else if !b.is_feasible {
        a.value.lt_spec(b.value)
    } else if minimize {
        a.value.lt_spec(b.value)
    } else {
        b.value.lt_spec(a.value)
    }
}

/// The evaluation that scoring produces from a penalty and an objective
/// value: a zero penalty makes the solution feasible and carries the
/// objective value; any other penalty makes it infeasible and carries the
/// penalty itself.
pub open spec fn eval_from_spec(penalty: Score, value: Score) -> Evaluation {
    if penalty == Score::Num(0) {
        Evaluation { value, is_feasible: true }
    } else {
        Evaluation { value: penalty, is_feasible: false }
    }
}

/// The evaluation that scoring a solution against a problem with this
/// objective produces.
pub open spec fn objective_eval_spec<P, S, O: Objective<P, S>>(
    objective: O,
    problem: P,
    solution: S,
) -> Evaluation {
    eval_from_spec(
        objective.penalty_spec(&problem, &solution),
        objective.value_spec(&problem, &solution),
    )
}

/// The solution carries exactly the evaluation the objective's scores give
/// it: it is some pre-evaluation state of itself with that state's scoring
/// written into the embedded evaluation.
pub open spec fn criterion_scored<P, S: Solution, O: Objective<P, S>>(
    objective: O,
    problem: P,
    solution: S,
) -> bool {
    exists|pre: S|
        solution == #[trigger] pre.with_eval_spec(objective_eval_spec(objective, problem, pre))
}

/// The solution's embedded evaluation is one this objective computes for
/// this problem: the scoring of some candidate state. Weaker than
/// [`criterion_scored`]: it constrains the evaluation alone, which is what
/// survives the swarm's book-keeping writes to a particle's best index.
pub open spec fn scored_eval<P, S: Solution, O: Objective<P, S>>(
    objective: O,
    problem: P,
    solution: S,
) -> bool {
    exists|pre: S|
        solution.eval_spec() == #[trigger] objective_eval_spec(objective, problem, pre)
}

/// A solution scored as a whole carries a scored evaluation.
pub proof fn lemma_scored_implies_scored_eval<P, S: Solution, O: Objective<P, S>>(
    objective: O,
    problem: P,
    solution: S,
)
    requires
        criterion_scored(objective, problem, solution),
    ensures
        scored_eval(objective, problem, solution),
{
    let pre = choose|pre: S|
        solution == #[trigger] pre.with_eval_spec(objective_eval_spec(objective, problem, pre));
    pre.lemma_with_eval(objective_eval_spec(objective, problem, pre));
}

/// Executable form of [`eval_from_spec`].
pub fn eval_from(penalty: Score, value: Score) -> (e: Evaluation)
    ensures
        e == eval_from_spec(penalty, value),
{
    if penalty == Score::Num(0) {
        Evaluation { value, is_feasible: true }
    } else {
        Evaluation { value: penalty, is_feasible: false }
    }
}

/// Feasibility dominance: a feasible evaluation is better than an infeasible
/// one and never the other way around, whatever the direction and whatever
/// the two values.
pub proof fn lemma_feasibility_dominance(a: Evaluation, b: Evaluation, minimize: bool)
    requires
        a.is_feasible,
        !b.is_feasible,
    ensures
        better_spec(a, b, minimize),
        !better_spec(b, a, minimize),
{
}

/// Direction consistency: between two feasible evaluations, "better" is
/// exactly "lower value" under minimization and exactly "higher value"
/// otherwise.
pub proof fn lemma_direction_consistency(a: Evaluation, b: Evaluation)
    requires
        a.is_feasible,
        b.is_feasible,
    ensures
        better_spec(a, b, true) == a.value.lt_spec(b.value),
        better_spec(a, b, false) == b.value.lt_spec(a.value),
{
}

/// Evaluate exactness: a penalty of exactly zero yields a feasible
/// evaluation carrying the objective value; any other penalty yields an
/// infeasible evaluation carrying that penalty.
pub proof fn lemma_evaluate_exactness(penalty: Score, value: Score)
    ensures
        penalty == Score::Num(0) ==> eval_from_spec(penalty, value) == (Evaluation {
            value,
            is_feasible: true,
        }),
        penalty != Score::Num(0) ==> eval_from_spec(penalty, value) == (Evaluation {
            value: penalty,
            is_feasible: false,
        }),
{
}

/// A fresh, never-evaluated evaluation is never better than any evaluation.
pub proof fn lemma_fresh_never_better(e: Evaluation, minimize: bool)
    ensures
        !better_spec(Evaluation::fresh_spec(), e, minimize),
{
}

/// "Better than" is asymmetric: no two evaluations are each better than the
/// other.
pub proof fn lemma_better_asymmetric(a: Evaluation, b: Evaluation, minimize: bool)
    ensures
        !(better_spec(a, b, minimize) && better_spec(b, a, minimize)),
{
    crate::score::lemma_score_lt_asymmetric(a.value, b.value);
}

/// On defined values, "better than" decides every pair: one side is better,
/// or the two evaluations agree on feasibility and value.
pub proof fn lemma_better_trichotomy(a: Evaluation, b: Evaluation, minimize: bool)
    requires
        a.value is Num,
        b.value is Num,
    ensures
        better_spec(a, b, minimize) || better_spec(b, a, minimize) || (a.is_feasible
            == b.is_feasible && a.value == b.value),
{
}

/// "Better than" is transitive: every true strict comparison forces its
/// operands to be defined, so no side condition is needed.
pub proof fn lemma_better_transitive(a: Evaluation, b: Evaluation, c: Evaluation, minimize: bool)
    requires
        better_spec(a, b, minimize),
        better_spec(b, c, minimize),
    ensures
        better_spec(a, c, minimize),
{
}

/// Scores a solution against a problem and totally orders evaluations.
///
/// Holds the caller's [`Objective`] capability and the search direction; the
/// ordering and the feasibility rule themselves are fixed here.
pub struct Criterion<O> {
    pub objective: O,
    pub is_minimization: bool,
}

impl<O> Criterion<O> {
    /// A criterion scoring with `objective`, comparing in the direction given
    /// by `is_minimization`.
    pub fn new(objective: O, is_minimization: bool) -> (c: Self)
        ensures
            c.objective == objective,
            c.is_minimization == is_minimization,
    {
        Criterion { objective, is_minimization }
    }

    /// Whether `first` is better than `second` under this criterion's
    /// direction; see [`better_spec`].
    pub fn is_first_better(&self, first: &Evaluation, second: &Evaluation) -> (r: bool)
        ensures
            r == better_spec(*first, *second, self.is_minimization),
    {
        if first.is_feasible && !second.is_feasible {
            return true;
        }
        if !first.is_feasible && second.is_feasible {
            return false;
        }
        if !second.is_feasible {
            return first.value.lt(second.value);
        }
        if self.is_minimization {
            first.value.lt(second.value)
        } else {
            second.value.lt(first.value)
        }
    }

    /// Scores `solution` against `problem` and writes the result into the
    /// solution's embedded evaluation: the penalty is computed first, and the
    /// objective value only when the penalty is zero. Only the evaluation
    /// changes, and what is written is exactly [`eval_from_spec`] of the
    /// objective's penalty and value for the incoming solution.
    pub fn evaluate<P, S: Solution>(&self, problem: &P, solution: &mut S) where O: Objective<P, S>
        ensures
            *final(solution) == old(solution).with_eval_spec(
                objective_eval_spec(self.objective, *problem, *old(solution)),
            ),
            final(solution).eval_spec() == objective_eval_spec(
                self.objective,
                *problem,
                *old(solution),
            ),
            criterion_scored(self.objective, *problem, *final(solution)),
    {
        let penalty = self.objective.penalty(problem, solution);
        if penalty == Score::Num(0) {
            let value = self.objective.value(problem, solution);
            let ghost old_sol = *solution;
            solution.set_eval(Evaluation { value, is_feasible: true });
            proof {
                old_sol.lemma_with_eval(eval_from_spec(penalty, value));
            }
        } else {
            let ghost old_sol = *solution;
            solution.set_eval(Evaluation { value: penalty, is_feasible: false });
            proof {
                assert(*solution == old_sol.with_eval_spec(
                    objective_eval_spec(self.objective, *problem, old_sol),
                ));
                old_sol.lemma_with_eval(eval_from_spec(penalty, penalty));
            }
        }
    }
}

/// The name of a search strategy, attached to orchestration results.
#[derive(Clone, Copy, Debug, PartialEq, Eq, Structural)]
pub enum AlgorithmId {
    SimulatedAnnealing,
    ParticleSwarm,
    GeneticAlgorithm,
}

/// A search strategy: given a problem and a criterion, produce solutions.
pub trait OptAlgorithm<P: Problem, S: Solution, O: Objective<P, S>>: Sized {
    /// Runs the search and returns the solutions found; every returned
    /// solution carries an evaluation the criterion computed for this
    /// problem.
    fn solve(&mut self, problem: &P, criterion: &Criterion<O>) -> (result: Vec<S>)
        ensures
            forall|j: int|
                0 <= j < result@.len() ==> #[trigger] scored_eval(
                    criterion.objective,
                    *problem,
                    result@[j],
                ),
    ;

    /// Restores the run-scoped state so the next `solve` starts afresh.
    fn reset(&mut self);
}

/// Something that can present itself as one row of a results table; used by
/// callers that log search results.
pub trait AsCsvRow {
    /// The row for this element, at position `i`.
    fn as_row(&self, i: usize) -> String;
}

/// The observer that observes nothing: for runs without an insight callback.
#[derive(Clone, Copy, Debug, PartialEq, Eq, Structural)]
pub struct NoInsight;

} // verus!
