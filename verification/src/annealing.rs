use vstd::prelude::*;

use crate::base::{
    criterion_scored, lemma_better_transitive, lemma_scored_implies_scored_eval,
    objective_eval_spec, better_spec, scored_eval, Criterion, NoInsight, Objective, OptAlgorithm,
    Problem, Solution,
};
use crate::score::Score;
use crate::stop::StopCriteria;

verus! {

/// Maintains and decays the temperature scalar of an annealing run. The
/// temperature only feeds the caller's [`Acceptance`] draw, so it is carried
/// as a score order key; the decay arithmetic is the implementation's own.
pub trait Cooler: Sized {
    /// The state the cooler is in right after a reset: back at its initial
    /// temperature.
    spec fn reset_spec(&self) -> Self;

    /// One cooling step.
    fn cool(&mut self);

    /// Restores the initial temperature.
    fn reset(&mut self)
        ensures
            *final(self) == old(self).reset_spec(),
    ;

    /// The current temperature.
    fn get_temp(&self) -> Score;
}

/// The probabilistic side of the Metropolis rule: called only for a strictly
/// worse move, with the two values and the current temperature, it decides
/// whether the move is accepted anyway — classically by comparing a uniform
/// random draw against the exponential of the normalized difference over the
/// temperature. A caller capability with no contract: the engine holds for
/// every answer it may give.
pub trait Acceptance {
    /// Whether to accept a move from `before` to the strictly worse
    /// `current` at this `temperature`.
    fn accept_worse(&mut self, current: Score, before: Score, temperature: Score) -> bool;
}

/// Perturbation capability: mutates a candidate solution in place, using the
/// caller's own operators and randomness.
pub trait Perturbation<P, S> {
    /// Changes the solution, typically by one random move.
    fn change(&mut self, solution: &mut S, problem: &P);
}

/// Per-step observer for the annealing loop; a pure side channel that never
/// affects control flow.
pub trait AnnealingInsight<P, S, C> {
    /// Called once per step, and once more with `is_final` set after the
    /// loop has ended.
    fn observe(
        &mut self,
        cooler: &C,
        step: u32,
        problem: &P,
        best: &S,
        current: &S,
        is_final: bool,
    );
}

impl<P, S, C> AnnealingInsight<P, S, C> for NoInsight {
    fn observe(
        &mut self,
        _cooler: &C,
        _step: u32,
        _problem: &P,
        _best: &S,
        _current: &S,
        _is_final: bool,
    ) {
    }
}

/// The deterministic part of the Metropolis acceptance rule, on the raw
/// values of the current and the previous solution: equal values never swap
/// (the move is not hot enough), a strict improvement in the search
/// direction always swaps, and an undefined value on either side never
/// swaps. For a strictly worse move nothing is decided here — that is the
/// [`Acceptance`] draw's part.
pub open spec fn metropolis_fixed(current: Score, before: Score, minimize: bool) -> Option<bool> {
    match current {
        Score::Undefined => Some(false),
        Score::Num(c) => match before {
            Score::Undefined => Some(false),
            Score::Num(b) => if c == b {
                Some(false)
            } else if (minimize && c < b) || (!minimize && c > b) {
                Some(true)
            } else {
                None
            },
        },
    }
}

/// Single-solution local search with Metropolis acceptance: each step
/// perturbs the current solution, keeps it when it is better or when the
/// acceptance draw allows a worse move, rolls it back otherwise, and tracks
/// the best solution seen.
pub struct SimulatedAnnealing<S, C, SC, PE, A, I> {
    pub initial_solution: S,
    pub stop_criteria: SC,
    pub cooler: C,
    pub perturbation: PE,
    pub acceptance: A,
    pub insight: Option<I>,
}

impl<S, C: Cooler, SC, PE, A: Acceptance, I> SimulatedAnnealing<S, C, SC, PE, A, I> {
    /// An annealing run starting from `initial_solution`.
    pub fn new(initial_solution: S, stop_criteria: SC, cooler: C, perturbation: PE, acceptance: A)
        -> (r: Self)
        ensures
            r.initial_solution == initial_solution,
            r.stop_criteria == stop_criteria,
            r.cooler == cooler,
            r.perturbation == perturbation,
            r.acceptance == acceptance,
            r.insight is None,
    {
        SimulatedAnnealing {
            initial_solution,
            stop_criteria,
            cooler,
            perturbation,
            acceptance,
            insight: None,
        }
    }

    /// Registers a per-step observer.
    pub fn register_insight(&mut self, insight: I)
        ensures
            *final(self) == (SimulatedAnnealing { insight: Some(insight), ..*old(self) }),
    {
        self.insight = Some(insight);
    }

    /// Decides whether the move from `before_value` to `current_value` is
    /// kept: exactly as [`metropolis_fixed`] where that is decided, and by
    /// the [`Acceptance`] draw for a strictly worse move. Touches nothing of
    /// the run but the acceptance capability.
    pub fn hot_enough_to_swap(
        &mut self,
        current_value: Score,
        before_value: Score,
        minimize: bool,
    ) -> (r: bool)
        ensures
            metropolis_fixed(current_value, before_value, minimize) matches Some(d) ==> r == d,
            *final(self) == (SimulatedAnnealing {
                acceptance: final(self).acceptance,
                ..*old(self)
            }),
    {
        match current_value {
            Score::Undefined => false,
            Score::Num(c) => match before_value {
                Score::Undefined => false,
                Score::Num(b) => {
                    if c == b {
                        false
                    } else if minimize && c < b {
                        true
                    } else if !minimize && c > b {
                        true
                    } else {
                        let temperature = self.cooler.get_temp();
                        self.acceptance.accept_worse(current_value, before_value, temperature)
                    }
                },
            },
        }
    }
}

impl<
    P: Problem,
    S: Solution,
    O: Objective<P, S>,
    C: Cooler,
    SC: StopCriteria,
    PE: Perturbation<P, S>,
    A: Acceptance,
    I: AnnealingInsight<P, S, C>,
> OptAlgorithm<P, S, O> for SimulatedAnnealing<S, C, SC, PE, A, I> {
    /// Runs the annealing loop and returns the single best solution found:
    /// it carries the evaluation the criterion computed for it, and it is
    /// never worse, under the criterion, than the evaluated initial
    /// solution — the best only ever advances.
    fn solve(&mut self, problem: &P, criterion: &Criterion<O>) -> (result: Vec<S>)
        ensures
            result@.len() == 1,
            final(self).initial_solution == old(self).initial_solution,
            criterion_scored(criterion.objective, *problem, result@[0]),
            forall|j: int|
                0 <= j < result@.len() ==> #[trigger] scored_eval(
                    criterion.objective,
                    *problem,
                    result@[j],
                ),
            !better_spec(
                objective_eval_spec(criterion.objective, *problem, old(self).initial_solution),
                result@[0].eval_spec(),
                criterion.is_minimization,
            ),
    {
        self.cooler.reset();
        self.stop_criteria.reset();
        let mut solution = self.initial_solution.clone_sol();
        criterion.evaluate(problem, &mut solution);
        let ghost e0 = objective_eval_spec(
            criterion.objective,
            *problem,
            old(self).initial_solution,
        );
        let mut best = solution.clone_sol();
        proof {
            old(self).initial_solution.lemma_with_eval(e0);
        }
        let mut counter: u32 = 0;
        while !self.stop_criteria.should_stop(solution.get_value())
            invariant
                self.initial_solution == old(self).initial_solution,
                e0 == objective_eval_spec(
                    criterion.objective,
                    *problem,
                    old(self).initial_solution,
                ),
                criterion_scored(criterion.objective, *problem, best),
                !better_spec(e0, best.eval_spec(), criterion.is_minimization),
            decreases self.stop_criteria.fuel(),
        {
            let before = solution.clone_sol();
            self.perturbation.change(&mut solution, problem);
            criterion.evaluate(problem, &mut solution);
            let current_eval = solution.get_eval();
            let before_eval = before.get_eval();
            let hot_enough = self.hot_enough_to_swap(
                current_eval.value,
                before_eval.value,
                criterion.is_minimization,
            );
            if criterion.is_first_better(&current_eval, &before_eval) || hot_enough {
                let best_eval = best.get_eval();
                if criterion.is_first_better(&current_eval, &best_eval) {
                    proof {
                        if better_spec(e0, current_eval, criterion.is_minimization) {
                            lemma_better_transitive(
                                e0,
                                current_eval,
                                best_eval,
                                criterion.is_minimization,
                            );
                        }
                    }
                    best = solution.clone_sol();
                }
            } else {
                solution = before;
            }
            match &mut self.insight {
                Some(ins) => ins.observe(&self.cooler, counter, problem, &best, &solution, false),
                None => {},
            }
            if counter < u32::MAX {
                counter = counter + 1;
            }
            self.cooler.cool();
        }
        match &mut self.insight {
            Some(ins) => ins.observe(&self.cooler, counter, problem, &best, &solution, true),
            None => {},
        }
        proof {
            lemma_scored_implies_scored_eval(criterion.objective, *problem, best);
        }
        let mut result: Vec<S> = Vec::new();
        result.push(best);
        result
    }

    /// Resets the cooler and the stop criteria for a fresh run; everything
    /// else is left as it was.
    fn reset(&mut self)
        ensures
            final(self).cooler == old(self).cooler.reset_spec(),
            final(self).stop_criteria == old(self).stop_criteria.reset_spec(),
            final(self).initial_solution == old(self).initial_solution,
            final(self).perturbation == old(self).perturbation,
            final(self).acceptance == old(self).acceptance,
            final(self).insight == old(self).insight,
    {
        self.cooler.reset();
        self.stop_criteria.reset();
    }
}

} // verus!
