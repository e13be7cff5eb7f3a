use vstd::prelude::*;
use vstd::pervasive::VecAdditionalExecFns;

use crate::base::{
    better_spec, criterion_scored, lemma_better_transitive, lemma_scored_implies_scored_eval,
    scored_eval, Criterion, Evaluation, NoInsight, Objective, OptAlgorithm, Problem, Solution,
};
use crate::score::{
    clamp_spec, clamp_score, max_value_of_range, max_value_spec, min_value_of_range,
    min_value_spec, Score, ScoreRange,
};
use crate::stop::StopCriteria;

verus! {

/// The order key of the default attraction coefficient, one half.
pub const DEFAULT_ATTRACTION_KEY: i64 = 0x3FE0_0000_0000_0000;

/// The order key of the default inertia coefficient, five hundredths.
pub const DEFAULT_INERTIA_KEY: i64 = 0x3FA9_9999_9999_999A;

/// One candidate position in the swarm: a position, its velocity, the index
/// of the particle's own best-known position, and the embedded evaluation —
/// a particle is itself a [`Solution`].
#[derive(Clone, Copy, Debug, PartialEq, Eq, Structural)]
pub struct Particle {
    pub best_local_index: usize,
    pub velocity_x: Score,
    pub velocity_y: Score,
    pub x: Score,
    pub y: Score,
    pub eval: Evaluation,
}

impl Particle {
    /// A resting particle at the given position, evaluated to a zero value.
    pub fn new(x: Score, y: Score) -> (p: Particle)
        ensures
            p == (Particle {
                best_local_index: 0,
                velocity_x: Score::Num(0),
                velocity_y: Score::Num(0),
                x,
                y,
                eval: Evaluation { value: Score::Num(0), is_feasible: true },
            }),
    {
        Particle {
            best_local_index: 0,
            velocity_x: Score::Num(0),
            velocity_y: Score::Num(0),
            x,
            y,
            eval: Evaluation { value: Score::Num(0), is_feasible: true },
        }
    }

    /// Clamps the particle's position into the problem's domain; everything
    /// else about the particle is untouched.
    pub fn clamp_to_domain(&mut self, problem: &FnProblem)
        requires
            domain_wf(*problem),
        ensures
            *final(self) == (Particle {
                x: clamp_spec(
                    old(self).x,
                    min_value_spec(problem.x_range).unwrap(),
                    max_value_spec(problem.x_range).unwrap(),
                ),
                y: clamp_spec(
                    old(self).y,
                    min_value_spec(problem.y_range).unwrap(),
                    max_value_spec(problem.y_range).unwrap(),
                ),
                ..*old(self)
            }),
    {
        let x_min = min_value_of_range(&problem.x_range).unwrap();
        let x_max = max_value_of_range(&problem.x_range).unwrap();
        let y_min = min_value_of_range(&problem.y_range).unwrap();
        let y_max = max_value_of_range(&problem.y_range).unwrap();
        self.x = clamp_score(self.x, x_min, x_max);
        self.y = clamp_score(self.y, y_min, y_max);
    }
}

impl Solution for Particle {
    open spec fn eval_spec(&self) -> Evaluation {
        self.eval
    }

    open spec fn with_eval_spec(&self, e: Evaluation) -> Particle {
        Particle { eval: e, ..*self }
    }

    proof fn lemma_with_eval(&self, e: Evaluation) {
    }

    fn get_eval(&self) -> (e: Evaluation) {
        self.eval
    }

    fn set_eval(&mut self, e: Evaluation) {
        self.eval = e;
    }

    fn clone_sol(&self) -> (s: Self) {
        *self
    }
}

/// A two-dimensional search domain for function optimization: an identity
/// and one score range per axis.
#[derive(Clone, Copy, Debug, PartialEq, Eq, Structural)]
pub struct FnProblem {
    pub id: u32,
    pub x_range: ScoreRange,
    pub y_range: ScoreRange,
}

impl FnProblem {
    /// A domain with the given identity and per-axis ranges.
    pub fn new(id: u32, x_range: ScoreRange, y_range: ScoreRange) -> (p: FnProblem)
        ensures
            p == (FnProblem { id, x_range, y_range }),
    {
        FnProblem { id, x_range, y_range }
    }
}

impl Problem for FnProblem {
    open spec fn id_spec(&self) -> u32 {
        self.id
    }

    fn get_id(&self) -> (id: u32) {
        self.id
    }
}

/// A domain the swarm can move in: both axes have a lower and an upper edge.
pub open spec fn domain_wf(problem: FnProblem) -> bool {
    &&& min_value_spec(problem.x_range) is Some
    &&& max_value_spec(problem.x_range) is Some
    &&& min_value_spec(problem.y_range) is Some
    &&& max_value_spec(problem.y_range) is Some
}

/// The domain's edges are ordered: neither axis has its upper edge below
/// its lower edge.
pub open spec fn domain_ordered(problem: FnProblem) -> bool {
    &&& domain_wf(problem)
    &&& !max_value_spec(problem.x_range).unwrap().lt_spec(
        min_value_spec(problem.x_range).unwrap(),
    )
    &&& !max_value_spec(problem.y_range).unwrap().lt_spec(
        min_value_spec(problem.y_range).unwrap(),
    )
}

/// The particle's position lies within the problem's domain edges. (An
/// undefined coordinate compares with nothing and so lies within every
/// domain.)
pub open spec fn in_domain(p: Particle, problem: FnProblem) -> bool {
    &&& !p.x.lt_spec(min_value_spec(problem.x_range).unwrap())
    &&& !max_value_spec(problem.x_range).unwrap().lt_spec(p.x)
    &&& !p.y.lt_spec(min_value_spec(problem.y_range).unwrap())
    &&& !max_value_spec(problem.y_range).unwrap().lt_spec(p.y)
}

/// Whether the swarm can move in this problem's domain.
pub fn domain_ok(problem: &FnProblem) -> (r: bool)
    ensures
        r == domain_wf(*problem),
{
    min_value_of_range(&problem.x_range).is_some() && max_value_of_range(
        &problem.x_range,
    ).is_some() && min_value_of_range(&problem.y_range).is_some() && max_value_of_range(
        &problem.y_range,
    ).is_some()
}

/// The positional model of the swarm: draws initial particles from the
/// problem's domain and performs the velocity/position arithmetic of one
/// move, using the caller's randomness. A caller capability with no
/// contract: the engine re-establishes what it needs after every call.
pub trait Motion {
    /// An initial particle for slot `index`, drawn from the domain.
    fn sample(&mut self, problem: &FnProblem, index: usize) -> Particle;

    /// One move of `particle`: update its velocity from its own best and the
    /// global best position with the given coefficients, and advance its
    /// position by the velocity (the engine clamps afterwards).
    fn advance(
        &mut self,
        particle: &mut Particle,
        best_local: &Particle,
        best_global: &Particle,
        local_attraction: Score,
        global_attraction: Score,
        inertia: Score,
    );
}

/// Per-iteration observer for the swarm; returning true asks the search to
/// stop early — the one caller-driven cancellation in the engine.
pub trait SwarmInsight {
    /// Called once per iteration; true requests early termination.
    fn observe(
        &mut self,
        problem: &FnProblem,
        particles: &Vec<Particle>,
        best_global_index: usize,
        is_final: bool,
    ) -> bool;
}

impl SwarmInsight for NoInsight {
    fn observe(
        &mut self,
        _problem: &FnProblem,
        _particles: &Vec<Particle>,
        _best_global_index: usize,
        _is_final: bool,
    ) -> bool {
        false
    }
}

/// Population-based search over a two-dimensional domain: a swarm of
/// particles drawn towards their own and the swarm's best-known positions.
pub struct ParticleSwarm<SC, M, I> {
    pub particles: Vec<Particle>,
    pub best_global_index: usize,
    pub size: usize,
    pub stop_criteria: SC,
    pub local_attraction: Score,
    pub global_attraction: Score,
    pub inertia: Score,
    pub motion: M,
    pub insight: Option<I>,
}

impl<SC, M: Motion, I> ParticleSwarm<SC, M, I> {
    /// Every particle's best-known index points into the swarm.
    pub open spec fn particles_wf(self) -> bool {
        forall|j: int|
            #![trigger self.particles@[j]]
            0 <= j < self.particles@.len() ==> self.particles@[j].best_local_index
                < self.particles@.len()
    }

    /// A swarm of `size` particles with the default attraction and inertia
    /// coefficients.
    pub fn new(size: usize, stop_criteria: SC, motion: M) -> (r: Self)
        ensures
            r.size == size,
            r.best_global_index == 0,
            r.particles@.len() == 0,
            r.stop_criteria == stop_criteria,
            r.motion == motion,
            r.local_attraction == Score::Num(DEFAULT_ATTRACTION_KEY),
            r.global_attraction == Score::Num(DEFAULT_ATTRACTION_KEY),
            r.inertia == Score::Num(DEFAULT_INERTIA_KEY),
            r.insight is None,
    {
        ParticleSwarm {
            particles: Vec::new(),
            best_global_index: 0,
            size,
            stop_criteria,
            local_attraction: Score::Num(DEFAULT_ATTRACTION_KEY),
            global_attraction: Score::Num(DEFAULT_ATTRACTION_KEY),
            inertia: Score::Num(DEFAULT_INERTIA_KEY),
            motion,
            insight: None,
        }
    }

    /// A swarm of `size` particles with the given coefficients.
    pub fn with_attraction(
        size: usize,
        stop_criteria: SC,
        global_attraction: Score,
        local_attraction: Score,
        inertia: Score,
        motion: M,
    ) -> (r: Self)
        ensures
            r.size == size,
            r.best_global_index == 0,
            r.particles@.len() == 0,
            r.stop_criteria == stop_criteria,
            r.motion == motion,
            r.local_attraction == local_attraction,
            r.global_attraction == global_attraction,
            r.inertia == inertia,
            r.insight is None,
    {
        ParticleSwarm {
            particles: Vec::new(),
            best_global_index: 0,
            size,
            stop_criteria,
            local_attraction,
            global_attraction,
            inertia,
            motion,
            insight: None,
        }
    }

    /// Registers a per-iteration observer.
    pub fn register_insight(&mut self, insight: I)
        ensures
            *final(self) == (ParticleSwarm { insight: Some(insight), ..*old(self) }),
    {
        self.insight = Some(insight);
    }

    /// Whether particle `this` is better than particle `known_best_index`,
    /// under the criterion's ordering of their current evaluations.
    pub fn is_better<O>(
        &self,
        this: usize,
        known_best_index: usize,
        criterion: &Criterion<O>,
    ) -> (r: bool)
        requires
            this < self.particles@.len(),
            known_best_index < self.particles@.len(),
        ensures
            r == better_spec(
                self.particles@[this as int].eval,
                self.particles@[known_best_index as int].eval,
                criterion.is_minimization,
            ),
    {
        let current = self.particles[this].get_eval();
        let best = self.particles[known_best_index].get_eval();
        criterion.is_first_better(&current, &best)
    }

    /// Builds the swarm afresh: `size` particles drawn by the motion model,
    /// each its own best, each clamped into the domain and then scored by
    /// the criterion, and the global best index set to a particle no worse
    /// than any of them.
    fn initialize<O: Objective<FnProblem, Particle>>(
        &mut self,
        problem: &FnProblem,
        criterion: &Criterion<O>,
    )
        requires
            old(self).size >= 1,
            domain_wf(*problem),
        ensures
            final(self).particles@.len() == old(self).size,
            final(self).size == old(self).size,
            forall|j: int|
                #![trigger final(self).particles@[j]]
                0 <= j < final(self).particles@.len()
                    ==> final(self).particles@[j].best_local_index == j,
            final(self).best_global_index < final(self).particles@.len(),
            forall|j: int|
                0 <= j < final(self).particles@.len() ==> #[trigger] criterion_scored(
                    criterion.objective,
                    *problem,
                    final(self).particles@[j],
                ),
            forall|j: int|
                0 <= j < final(self).particles@.len() ==> !better_spec(
                    #[trigger] final(self).particles@[j].eval,
                    final(self).particles@[final(self).best_global_index as int].eval,
                    criterion.is_minimization,
                ),
            domain_ordered(*problem) ==> forall|j: int|
                0 <= j < final(self).particles@.len() ==> in_domain(
                    #[trigger] final(self).particles@[j],
                    *problem,
                ),
            final(self).stop_criteria == old(self).stop_criteria,
            final(self).local_attraction == old(self).local_attraction,
            final(self).global_attraction == old(self).global_attraction,
            final(self).inertia == old(self).inertia,
            final(self).insight == old(self).insight,
    {
        self.particles = Vec::new();
        self.best_global_index = 0;
        let ghost sz = self.size;
        let mut i: usize = 0;
        while i < self.size
            invariant
                self.size == sz,
                i <= sz,
                self.particles@.len() == i,
                domain_wf(*problem),
                self.stop_criteria == old(self).stop_criteria,
                self.local_attraction == old(self).local_attraction,
                self.global_attraction == old(self).global_attraction,
                self.inertia == old(self).inertia,
                self.insight == old(self).insight,
                forall|j: int|
                    #![trigger self.particles@[j]]
                    0 <= j < i ==> self.particles@[j].best_local_index == j,
                i == 0 ==> self.best_global_index == 0,
                i > 0 ==> self.best_global_index < i,
                forall|j: int|
                    0 <= j < i ==> #[trigger] criterion_scored(
                        criterion.objective,
                        *problem,
                        self.particles@[j],
                    ),
                i > 0 ==> forall|j: int|
                    0 <= j < i ==> !better_spec(
                        #[trigger] self.particles@[j].eval,
                        self.particles@[self.best_global_index as int].eval,
                        criterion.is_minimization,
                    ),
                domain_ordered(*problem) ==> forall|j: int|
                    0 <= j < i ==> in_domain(#[trigger] self.particles@[j], *problem),
            decreases self.size - i,
        {
            let mut particle = self.motion.sample(problem, i);
            particle.best_local_index = i;
            let ghost sampled = particle;
            particle.clamp_to_domain(problem);
            proof {
                if domain_ordered(*problem) {
                    crate::score::lemma_clamp_within(
                        sampled.x,
                        min_value_spec(problem.x_range).unwrap(),
                        max_value_spec(problem.x_range).unwrap(),
                    );
                    crate::score::lemma_clamp_within(
                        sampled.y,
                        min_value_spec(problem.y_range).unwrap(),
                        max_value_spec(problem.y_range).unwrap(),
                    );
                }
            }
            criterion.evaluate(problem, &mut particle);
            self.particles.push(particle);
            let ghost old_best = self.best_global_index;
            if i > 0 && self.is_better(i, self.best_global_index, criterion) {
                self.best_global_index = i;
                proof {
                    let minimize = criterion.is_minimization;
                    assert forall|j: int| 0 <= j < i + 1 implies !better_spec(
                        #[trigger] self.particles@[j].eval,
                        self.particles@[i as int].eval,
                        minimize,
                    ) by {
                        if j < i && better_spec(
                            self.particles@[j].eval,
                            self.particles@[i as int].eval,
                            minimize,
                        ) {
                            lemma_better_transitive(
                                self.particles@[j].eval,
                                self.particles@[i as int].eval,
                                self.particles@[old_best as int].eval,
                                minimize,
                            );
                        }
                    }
                }
            }
            i = i + 1;
        }
    }
}

impl<
    O: Objective<FnProblem, Particle>,
    SC: StopCriteria,
    M: Motion,
    I: SwarmInsight,
> OptAlgorithm<FnProblem, Particle, O> for ParticleSwarm<SC, M, I> {
    /// Runs the swarm and returns the best particle found, carrying an
    /// evaluation the criterion computed; with ordered domain edges every
    /// particle, the returned one included, stays inside the domain. With an
    /// empty swarm, or a domain an axis of which has no edge to clamp to,
    /// there is nothing to search and nothing is returned.
    fn solve(&mut self, problem: &FnProblem, criterion: &Criterion<O>) -> (result: Vec<Particle>)
        ensures
            old(self).size >= 1 && domain_wf(*problem) ==> result@.len() == 1,
            !(old(self).size >= 1 && domain_wf(*problem)) ==> result@.len() == 0,
            final(self).size == old(self).size,
            old(self).size >= 1 && domain_wf(*problem) ==> {
                &&& final(self).particles@.len() == old(self).size
                &&& final(self).best_global_index < final(self).particles@.len()
                &&& result@[0] == final(self).particles@[final(self).best_global_index as int]
            },
            forall|j: int|
                0 <= j < result@.len() ==> #[trigger] scored_eval(
                    criterion.objective,
                    *problem,
                    result@[j],
                ),
            domain_ordered(*problem) ==> forall|j: int|
                0 <= j < result@.len() ==> in_domain(#[trigger] result@[j], *problem),
    {
        self.stop_criteria.reset();
        self.best_global_index = 0;
        if self.size == 0 || !domain_ok(problem) {
            return Vec::new();
        }
        self.initialize(problem, criterion);
        let ghost sz = self.size;
        proof {
            assert forall|j: int|
                0 <= j < sz implies #[trigger] scored_eval(
                criterion.objective,
                *problem,
                self.particles@[j],
            ) by {
                lemma_scored_implies_scored_eval(
                    criterion.objective,
                    *problem,
                    self.particles@[j],
                );
            }
        }
        while !self.stop_criteria.should_stop(
            self.particles[self.best_global_index].get_value(),
        )
            invariant
                self.size == sz,
                self.particles@.len() == sz,
                sz >= 1,
                self.best_global_index < sz,
                self.particles_wf(),
                domain_wf(*problem),
                forall|j: int|
                    0 <= j < sz ==> #[trigger] scored_eval(
                        criterion.objective,
                        *problem,
                        self.particles@[j],
                    ),
                domain_ordered(*problem) ==> forall|j: int|
                    0 <= j < sz ==> in_domain(#[trigger] self.particles@[j], *problem),
            decreases self.stop_criteria.fuel(),
        {
            let ghost stop_snapshot = self.stop_criteria;
            let mut i: usize = 0;
            while i < self.size
                invariant
                    self.size == sz,
                    self.particles@.len() == sz,
                    sz >= 1,
                    i <= sz,
                    self.best_global_index < sz,
                    self.particles_wf(),
                    domain_wf(*problem),
                    self.stop_criteria == stop_snapshot,
                    forall|j: int|
                        0 <= j < sz ==> #[trigger] scored_eval(
                            criterion.objective,
                            *problem,
                            self.particles@[j],
                        ),
                    domain_ordered(*problem) ==> forall|j: int|
                        0 <= j < sz ==> in_domain(#[trigger] self.particles@[j], *problem),
                decreases self.size - i,
            {
                let particle = self.particles[i];
                let best_local_index = particle.best_local_index;
                let best_local = self.particles[best_local_index];
                let best_global = self.particles[self.best_global_index];
                let mut moved = particle;
                self.motion.advance(
                    &mut moved,
                    &best_local,
                    &best_global,
                    self.local_attraction,
                    self.global_attraction,
                    self.inertia,
                );
                moved.best_local_index = best_local_index;
                let ghost advanced = moved;
                moved.clamp_to_domain(problem);
                proof {
                    if domain_ordered(*problem) {
                        crate::score::lemma_clamp_within(
                            advanced.x,
                            min_value_spec(problem.x_range).unwrap(),
                            max_value_spec(problem.x_range).unwrap(),
                        );
                        crate::score::lemma_clamp_within(
                            advanced.y,
                            min_value_spec(problem.y_range).unwrap(),
                            max_value_spec(problem.y_range).unwrap(),
                        );
                    }
                }
                criterion.evaluate(problem, &mut moved);
                proof {
                    lemma_scored_implies_scored_eval(criterion.objective, *problem, moved);
                }
                self.particles.set(i, moved);
                if self.is_better(i, best_local_index, criterion) {
                    let mut promoted = self.particles[i];
                    promoted.best_local_index = i;
                    self.particles.set(i, promoted);
                }
                if self.is_better(i, self.best_global_index, criterion) {
                    self.best_global_index = i;
                }
                i = i + 1;
            }
            let stop_early = match &mut self.insight {
                Some(f) => f.observe(problem, &self.particles, self.best_global_index, false),
                None => false,
            };
            if stop_early {
                break ;
            }
        }
        let mut result: Vec<Particle> = Vec::new();
        result.push(self.particles[self.best_global_index]);
        result
    }

    /// Resets the stop criteria and the global best index; everything else
    /// is left as it was.
    fn reset(&mut self)
        ensures
            final(self).best_global_index == 0,
            final(self).stop_criteria == old(self).stop_criteria.reset_spec(),
            final(self).particles@ == old(self).particles@,
            final(self).size == old(self).size,
            final(self).local_attraction == old(self).local_attraction,
            final(self).global_attraction == old(self).global_attraction,
            final(self).inertia == old(self).inertia,
            final(self).motion == old(self).motion,
            final(self).insight == old(self).insight,
    {
        self.stop_criteria.reset();
        self.best_global_index = 0;
    }
}

} // verus!
