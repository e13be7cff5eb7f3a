use vstd::prelude::*;
use vstd::pervasive::VecAdditionalExecFns;
use vstd::seq_lib::group_to_multiset_ensures;

use crate::base::{
    better_spec, criterion_scored, lemma_scored_implies_scored_eval, objective_eval_spec,
    scored_eval, Criterion, NoInsight, Objective, OptAlgorithm, Problem, Solution,
};

verus! {

/// Selection capability: resamples a new population of the given capacity
/// from the current one, fitness-proportionally in the caller's chosen way
/// (tournament, roulette, ...). A caller capability with no contract.
pub trait Selector<S> {
    /// A new population of up to `capacity` members drawn from `population`.
    fn select(&mut self, capacity: usize, population: &Vec<S>) -> Vec<S>;
}

/// Crossover capability: recombines members of the population in place.
pub trait Crosser<S> {
    /// Performs crossover over the population.
    fn cross(&mut self, population: &mut Vec<S>);
}

/// Mutation capability: perturbs members of the population in place.
pub trait Mutator<S> {
    /// Mutates the population.
    fn mutate(&mut self, population: &mut Vec<S>);
}

/// Per-generation observer for the genetic algorithm; a pure side channel.
pub trait GeneticInsight<S> {
    /// Called once per generation with the freshly evaluated population.
    fn observe(&mut self, generation: u32, population: &Vec<S>);
}

impl<S> GeneticInsight<S> for NoInsight {
    fn observe(&mut self, _generation: u32, _population: &Vec<S>) {
    }
}

/// An exact copy of a population.
pub fn clone_population<S: Solution>(population: &Vec<S>) -> (r: Vec<S>)
    ensures
        r@ == population@,
{
    let mut r: Vec<S> = Vec::new();
    let mut i: usize = 0;
    while i < population.len()
        invariant
            i <= population.len(),
            r@ == population@.take(i as int),
        decreases population.len() - i,
    {
        r.push(population[i].clone_sol());
        proof {
            assert(r@ =~= population@.take(i as int + 1));
        }
        i = i + 1;
    }
    proof {
        assert(r@ =~= population@);
    }
    r
}

/// Every member of `after` is the member of `before` at the same position,
/// re-scored by the objective against the problem.
pub open spec fn scored_population<P, S: Solution, O: Objective<P, S>>(
    objective: O,
    problem: P,
    before: Seq<S>,
    after: Seq<S>,
) -> bool {
    &&& after.len() == before.len()
    &&& forall|j: int|
        #![trigger after[j]]
        0 <= j < after.len() ==> after[j] == before[j].with_eval_spec(
            objective_eval_spec(objective, problem, before[j]),
        )
}

/// Scores every member of the population in place: each member's embedded
/// evaluation is replaced by exactly what the criterion computes for it, and
/// nothing else about any member changes.
pub fn evaluate_population<P, S: Solution, O: Objective<P, S>>(
    criterion: &Criterion<O>,
    problem: &P,
    population: &mut Vec<S>,
)
    ensures
        scored_population(criterion.objective, *problem, old(population)@, final(population)@),
{
    let ghost orig = population@;
    let n = population.len();
    let mut i: usize = 0;
    while i < n
        invariant
            i <= n,
            population@.len() == n,
            forall|j: int| i <= j < n ==> population@[j] == orig[j],
            forall|j: int|
                #![trigger population@[j]]
                0 <= j < i ==> population@[j] == orig[j].with_eval_spec(
                    objective_eval_spec(criterion.objective, *problem, orig[j]),
                ),
        decreases n - i,
    {
        let ghost before = population@;
        let mut x = population.remove(i);
        let ghost x0 = x;
        criterion.evaluate(problem, &mut x);
        population.insert(i, x);
        proof {
            assert(x0 == orig[i as int]);
            assert(population@ =~= before.update(i as int, x));
        }
        i = i + 1;
    }
}

/// Sorts the population with the criterion's "better than" order: afterwards
/// no member is better than the member before it, and the population holds
/// exactly the members it held before.
pub fn sort_population<S: Solution, O>(criterion: &Criterion<O>, population: &mut Vec<S>)
    ensures
        final(population)@.len() == old(population)@.len(),
        final(population)@.to_multiset() == old(population)@.to_multiset(),
        forall|k: int|
            #![trigger final(population)@[k]]
            0 <= k && k + 1 < final(population)@.len() ==> !better_spec(
                final(population)@[k + 1].eval_spec(),
                final(population)@[k].eval_spec(),
                criterion.is_minimization,
            ),
{
    let ghost orig = population@;
    let minimize: bool = criterion.is_minimization;
    if population.len() == 0 {
        return ;
    }
    let mut i: usize = 1;
    while i < population.len()
        invariant
            1 <= i,
            population@.len() == orig.len(),
            population@.to_multiset() == orig.to_multiset(),
            criterion.is_minimization == minimize,
            forall|k: int|
                #![trigger population@[k]]
                0 <= k && k + 1 < i ==> !better_spec(
                    population@[k + 1].eval_spec(),
                    population@[k].eval_spec(),
                    minimize,
                ),
        decreases population@.len() - i,
    {
        let mut j: usize = i;
        let mut placed = false;
        while j > 0 && !placed
            invariant
                0 <= j <= i < population@.len(),
                population@.len() == orig.len(),
                population@.to_multiset() == orig.to_multiset(),
                criterion.is_minimization == minimize,
                forall|k: int|
                    #![trigger population@[k]]
                    0 <= k && k + 1 <= i && k != j - 1 && k != j ==> !better_spec(
                        population@[k + 1].eval_spec(),
                        population@[k].eval_spec(),
                        minimize,
                    ),
                j < i ==> !better_spec(
                    population@[j + 1].eval_spec(),
                    population@[j as int].eval_spec(),
                    minimize,
                ),
                1 <= j && j + 1 <= i ==> !better_spec(
                    population@[j + 1].eval_spec(),
                    population@[j - 1].eval_spec(),
                    minimize,
                ),
                placed && j >= 1 ==> !better_spec(
                    population@[j as int].eval_spec(),
                    population@[j - 1].eval_spec(),
                    minimize,
                ),
            decreases j + (if placed { 0int } else { 1int }),
        {
            let ej = population[j].get_eval();
            let ej1 = population[j - 1].get_eval();
            if criterion.is_first_better(&ej, &ej1) {
                let ghost before = population@;
                let x = population.remove(j);
                population.insert(j - 1, x);
                proof {
                    broadcast use group_to_multiset_ensures;
                    broadcast use vstd::multiset::group_multiset_axioms;
                    broadcast use vstd::multiset::group_multiset_properties;

                    let xs = before[j as int];
                    let removed = before.remove(j as int);
                    assert(population@ == removed.insert(j - 1, xs));
                    assert(population@ =~= before.update(j - 1, xs).update(j as int, before[j - 1]));
                    crate::base::lemma_better_asymmetric(
                        xs.eval_spec(),
                        before[j - 1].eval_spec(),
                        minimize,
                    );
                    vstd::seq_lib::to_multiset_contains(before, xs);
                    vstd::seq_lib::to_multiset_remove(before, j as int);
                    vstd::seq_lib::to_multiset_insert(removed, j - 1, xs);
                    assert(removed.to_multiset() == before.to_multiset().remove(xs));
                    assert(population@.to_multiset() == removed.to_multiset().insert(xs));
                    assert(before.contains(xs)) by {
                        assert(before[j as int] == xs);
                    }
                    assert(before.to_multiset().count(xs) > 0);
                    assert(population@.to_multiset() =~= before.to_multiset());
                }
                j = j - 1;
            } else {
                placed = true;
            }
        }
        i = i + 1;
    }
}

/// Generational population search: per generation a new population is
/// selected, recombined, mutated and evaluated; after a fixed number of
/// generations the whole population is evaluated once more, sorted best
/// first, and returned.
pub struct GeneticAlgorithm<S, SEL, CR, MU, I> {
    pub population: Vec<S>,
    pub initial_population: Vec<S>,
    pub population_cap: usize,
    pub generations: u32,
    pub selector: SEL,
    pub crosser: CR,
    pub mutator: MU,
    pub insight: Option<I>,
}

impl<S: Solution, SEL, CR, MU, I> GeneticAlgorithm<S, SEL, CR, MU, I> {
    /// A genetic algorithm over `population`, remembering it as the initial
    /// population that `reset` restores.
    pub fn new(
        population_cap: usize,
        population: Vec<S>,
        selector: SEL,
        crosser: CR,
        mutator: MU,
        generations: u32,
    ) -> (g: Self)
        ensures
            g.population@ == population@,
            g.initial_population@ == population@,
            g.population_cap == population_cap,
            g.generations == generations,
            g.selector == selector,
            g.crosser == crosser,
            g.mutator == mutator,
            g.insight is None,
    {
        let initial_population = clone_population(&population);
        GeneticAlgorithm {
            population,
            initial_population,
            population_cap,
            generations,
            selector,
            crosser,
            mutator,
            insight: None,
        }
    }

    /// Registers a per-generation observer.
    pub fn register_insight(&mut self, insight: I)
        ensures
            *final(self) == (GeneticAlgorithm { insight: Some(insight), ..*old(self) }),
    {
        self.insight = Some(insight);
    }
}

impl<
    P: Problem,
    S: Solution,
    O: Objective<P, S>,
    SEL: Selector<S>,
    CR: Crosser<S>,
    MU: Mutator<S>,
    I: GeneticInsight<S>,
> OptAlgorithm<P, S, O> for GeneticAlgorithm<S, SEL, CR, MU, I> {
    /// Runs the generational loop and returns the final population itself,
    /// sorted so that no member is better than its predecessor under the
    /// criterion; every member carries the evaluation the criterion computed
    /// for it. With zero generations the result is the incoming population,
    /// re-scored and sorted.
    fn solve(&mut self, problem: &P, criterion: &Criterion<O>) -> (result: Vec<S>)
        ensures
            result@ == final(self).population@,
            forall|k: int|
                #![trigger result@[k]]
                0 <= k && k + 1 < result@.len() ==> !better_spec(
                    result@[k + 1].eval_spec(),
                    result@[k].eval_spec(),
                    criterion.is_minimization,
                ),
            forall|k: int|
                0 <= k < result@.len() ==> #[trigger] criterion_scored(
                    criterion.objective,
                    *problem,
                    result@[k],
                ),
            forall|k: int|
                0 <= k < result@.len() ==> #[trigger] scored_eval(
                    criterion.objective,
                    *problem,
                    result@[k],
                ),
            final(self).initial_population@ == old(self).initial_population@,
            final(self).population_cap == old(self).population_cap,
            final(self).generations == old(self).generations,
            old(self).generations == 0 ==> exists|scored: Seq<S>|
                #[trigger] scored_population(
                    criterion.objective,
                    *problem,
                    old(self).population@,
                    scored,
                ) && final(self).population@.to_multiset() == scored.to_multiset(),
    {
        let mut generation: u32 = 0;
        while generation < self.generations
            invariant
                generation <= self.generations,
                self.initial_population@ == old(self).initial_population@,
                self.population_cap == old(self).population_cap,
                self.generations == old(self).generations,
                old(self).generations == 0 ==> self.population@ == old(self).population@,
            decreases self.generations - generation,
        {
            let selected = self.selector.select(self.population_cap, &self.population);
            self.population = selected;
            self.crosser.cross(&mut self.population);
            self.mutator.mutate(&mut self.population);
            evaluate_population(criterion, problem, &mut self.population);
            match &mut self.insight {
                Some(ins) => ins.observe(generation, &self.population),
                None => {},
            }
            generation = generation + 1;
        }
        let ghost pre_eval = self.population@;
        evaluate_population(criterion, problem, &mut self.population);
        let ghost scored_snapshot = self.population@;
        sort_population(criterion, &mut self.population);
        proof {
            broadcast use group_to_multiset_ensures;

            assert forall|k: int|
                0 <= k < self.population@.len() implies #[trigger] criterion_scored(
                criterion.objective,
                *problem,
                self.population@[k],
            ) by {
                let x = self.population@[k];
                assert(self.population@.contains(x));
                assert(scored_snapshot.to_multiset().count(x) > 0);
                assert(scored_snapshot.contains(x));
                let i = choose|i: int| 0 <= i < scored_snapshot.len() && scored_snapshot[i] == x;
                assert(scored_snapshot[i] == pre_eval[i].with_eval_spec(
                    objective_eval_spec(criterion.objective, *problem, pre_eval[i]),
                ));
            }
            assert forall|k: int|
                0 <= k < self.population@.len() implies #[trigger] scored_eval(
                criterion.objective,
                *problem,
                self.population@[k],
            ) by {
                lemma_scored_implies_scored_eval(
                    criterion.objective,
                    *problem,
                    self.population@[k],
                );
            }
            if old(self).generations == 0 {
                assert(scored_population(
                    criterion.objective,
                    *problem,
                    old(self).population@,
                    scored_snapshot,
                ));
            }
        }
        clone_population(&self.population)
    }

    /// Restores the initial population snapshot; the generation count, the
    /// capacity, the capabilities and the observer are untouched.
    fn reset(&mut self)
        ensures
            final(self).population@ == old(self).initial_population@,
            final(self).initial_population@ == old(self).initial_population@,
            final(self).population_cap == old(self).population_cap,
            final(self).generations == old(self).generations,
            final(self).selector == old(self).selector,
            final(self).crosser == old(self).crosser,
            final(self).mutator == old(self).mutator,
            final(self).insight == old(self).insight,
    {
        self.population = clone_population(&self.initial_population);
    }
}

} // verus!
