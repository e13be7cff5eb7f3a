use vstd::prelude::*;

use crate::base::{
    scored_eval, AlgorithmId, Criterion, Objective, OptAlgorithm, Problem, Solution,
};

verus! {

/// What one run of one algorithm produced for one problem under one
/// criterion.
pub struct SolverResult<S> {
    pub problem_id: u32,
    pub algorithm: AlgorithmId,
    pub solutions: Vec<S>,
}

/// One registered algorithm, carrying the label reported in results.
pub struct SolverEntry<A> {
    pub id: AlgorithmId,
    pub algorithm: A,
}

/// One registration group: these problems are solved by these algorithms
/// under these criteria.
pub struct SolverGroup<P, O, A> {
    pub problems: Vec<P>,
    pub criteria: Vec<Criterion<O>>,
    pub algorithms: Vec<SolverEntry<A>>,
}

/// Either of the two strategies the solver mixes in one pipeline.
pub enum SolverAlgorithm<AN, GE> {
    Annealing(AN),
    Genetic(GE),
}

impl<
    P: Problem,
    S: Solution,
    O: Objective<P, S>,
    AN: OptAlgorithm<P, S, O>,
    GE: OptAlgorithm<P, S, O>,
> OptAlgorithm<P, S, O> for SolverAlgorithm<AN, GE> {
    fn solve(&mut self, problem: &P, criterion: &Criterion<O>) -> Vec<S> {
        match self {
            SolverAlgorithm::Annealing(a) => a.solve(problem, criterion),
            SolverAlgorithm::Genetic(g) => g.solve(problem, criterion),
        }
    }

    fn reset(&mut self) {
        match self {
            SolverAlgorithm::Annealing(a) => a.reset(),
            SolverAlgorithm::Genetic(g) => g.reset(),
        }
    }
}

/// The identities of a sequence of problems, in order.
pub open spec fn problem_ids_spec<P: Problem>(problems: Seq<P>) -> Seq<u32> {
    problems.map_values(|p: P| p.id_spec())
}

/// No value occurs twice.
pub open spec fn distinct_spec(ids: Seq<u32>) -> bool {
    forall|i: int, j: int| 0 <= i < j < ids.len() ==> ids[i] != ids[j]
}

/// The identities of every problem in a sequence of groups, in order.
pub open spec fn groups_ids_spec<P: Problem, O, A>(groups: Seq<SolverGroup<P, O, A>>) -> Seq<
    u32,
> {
    groups.map_values(|g: SolverGroup<P, O, A>| problem_ids_spec(g.problems@)).flatten()
}

proof fn lemma_group_id_registered<P: Problem, O, A>(
    groups: Seq<SolverGroup<P, O, A>>,
    k: int,
    id: u32,
)
    requires
        0 <= k < groups.len(),
        problem_ids_spec(groups[k].problems@).contains(id),
    ensures
        groups_ids_spec(groups).contains(id),
    decreases k,
{
    broadcast use vstd::seq_lib::lemma_seq_concat_contains_all_elements;

    let mapped = groups.map_values(|g: SolverGroup<P, O, A>| problem_ids_spec(g.problems@));
    if k == 0 {
        assert(mapped.first() == problem_ids_spec(groups[0].problems@));
        assert(mapped.first().contains(id));
        assert((mapped.first() + mapped.drop_first().flatten()).contains(id));
    } else {
        let rest = groups.drop_first();
        assert(rest[k - 1] == groups[k]);
        lemma_group_id_registered(rest, k - 1, id);
        assert(mapped.drop_first() =~= rest.map_values(
            |g: SolverGroup<P, O, A>| problem_ids_spec(g.problems@),
        ));
        assert((mapped.first() + mapped.drop_first().flatten()).contains(id));
    }
}

/// How many runs one group asks for: every problem under every algorithm
/// under every criterion.
pub open spec fn group_combos_spec<P, O, A>(g: SolverGroup<P, O, A>) -> int {
    g.problems@.len() as int * g.algorithms@.len() as int * g.criteria@.len() as int
}

/// How many runs a sequence of groups asks for.
pub open spec fn combos_spec<P, O, A>(groups: Seq<SolverGroup<P, O, A>>) -> int
    decreases groups.len(),
{
    if groups.len() == 0 {
        0
    } else {
        group_combos_spec(groups[0]) + combos_spec(groups.drop_first())
    }
}

proof fn lemma_combos_add<P, O, A>(a: Seq<SolverGroup<P, O, A>>, b: Seq<SolverGroup<P, O, A>>)
    ensures
        combos_spec(a + b) == combos_spec(a) + combos_spec(b),
    decreases a.len(),
{
    if a.len() == 0 {
        assert(a + b =~= b);
    } else {
        assert((a + b).drop_first() =~= a.drop_first() + b);
        lemma_combos_add(a.drop_first(), b);
    }
}

/// The result came from one of these groups.
pub open spec fn result_registered<P: Problem, S: Solution, O: Objective<P, S>, A>(
    groups: Seq<SolverGroup<P, O, A>>,
    result: SolverResult<S>,
) -> bool {
    exists|gi: int| 0 <= gi < groups.len() && #[trigger] result_from_group(groups[gi], result)
}

/// Orchestration: binds problems to criteria and algorithm instances in
/// groups, then runs the full cross-product and collects a result per
/// (problem, algorithm, criterion) combination.
///
/// Problems must be registered under distinct identities: registering the
/// same identity twice is a caller error, and `solve` demands freshness up
/// front.
pub struct Solver<P, O, A> {
    pub groups: Vec<SolverGroup<P, O, A>>,
}

impl<P: Problem, O, A> Solver<P, O, A> {
    /// The identities of every problem registered so far, in order.
    pub open spec fn ids_spec(&self) -> Seq<u32> {
        groups_ids_spec(self.groups@)
    }

    /// An empty pipeline.
    pub fn new() -> (s: Self)
        ensures
            s.groups@.len() == 0,
            s.ids_spec().len() == 0,
    {
        let s = Solver { groups: Vec::new() };
        proof {
            assert(s.groups@.map_values(
                |g: SolverGroup<P, O, A>| problem_ids_spec(g.problems@),
            ) =~= Seq::<Seq<u32>>::empty());
        }
        s
    }

    /// Opens a new group for the given problems; criteria and algorithms
    /// registered next apply to them. Every identity, across all groups,
    /// must be fresh.
    pub fn solve(self, problems: Vec<P>) -> (r: Self)
        requires
            distinct_spec(self.ids_spec() + problem_ids_spec(problems@)),
        ensures
            r.groups@.len() == self.groups@.len() + 1,
            r.groups@.last().problems@ == problems@,
            r.groups@.last().criteria@.len() == 0,
            r.groups@.last().algorithms@.len() == 0,
            r.groups@.take(self.groups@.len() as int) == self.groups@,
    {
        let ghost orig = self.groups@;
        let mut s = self;
        s.groups.push(
            SolverGroup { problems, criteria: Vec::new(), algorithms: Vec::new() },
        );
        proof {
            assert(s.groups@.take(orig.len() as int) =~= orig);
        }
        s
    }

    /// Adds a criterion to the group opened last; everything else in the
    /// pipeline is left as it was.
    pub fn use_criteria(self, criterion: Criterion<O>) -> (r: Self)
        requires
            self.groups@.len() >= 1,
        ensures
            r.groups@.len() == self.groups@.len(),
            r.groups@.last().problems@ == self.groups@.last().problems@,
            r.groups@.last().criteria@ == self.groups@.last().criteria@.push(criterion),
            r.groups@.last().algorithms@ == self.groups@.last().algorithms@,
            r.groups@.take(self.groups@.len() - 1) == self.groups@.take(self.groups@.len() - 1),
    {
        let ghost orig = self.groups@;
        let mut s = self;
        let popped = s.groups.pop();
        match popped {
            Some(mut g) => {
                g.criteria.push(criterion);
                s.groups.push(g);
                proof {
                    assert(s.groups@.take(orig.len() - 1) =~= orig.take(orig.len() - 1));
                }
                s
            },
            None => {
                proof {
                    assert(false);
                }
                s
            },
        }
    }

    /// Adds an algorithm instance, under the given label, to the group
    /// opened last: exactly this entry is appended, and everything else is
    /// left as it was.
    pub fn with_algorithm(self, id: AlgorithmId, algorithm: A) -> (r: Self)
        requires
            self.groups@.len() >= 1,
        ensures
            r.groups@.len() == self.groups@.len(),
            r.groups@.last().problems@ == self.groups@.last().problems@,
            r.groups@.last().criteria@ == self.groups@.last().criteria@,
            r.groups@.last().algorithms@ == self.groups@.last().algorithms@.push(
                (SolverEntry { id, algorithm }),
            ),
            r.groups@.take(self.groups@.len() - 1) == self.groups@.take(self.groups@.len() - 1),
    {
        let ghost orig = self.groups@;
        let mut s = self;
        let popped = s.groups.pop();
        match popped {
            Some(mut g) => {
                g.algorithms.push(SolverEntry { id, algorithm });
                s.groups.push(g);
                proof {
                    assert(s.groups@.take(orig.len() - 1) =~= orig.take(orig.len() - 1));
                }
                s
            },
            None => {
                proof {
                    assert(false);
                }
                s
            },
        }
    }
}

impl<P: Problem, O, AN, GE> Solver<P, O, SolverAlgorithm<AN, GE>> {
    /// Adds a simulated-annealing instance to the group opened last, under
    /// the simulated-annealing label.
    pub fn with_annealing(self, algorithm: AN) -> (r: Self)
        requires
            self.groups@.len() >= 1,
        ensures
            r.groups@.len() == self.groups@.len(),
            r.groups@.last().problems@ == self.groups@.last().problems@,
            r.groups@.last().criteria@ == self.groups@.last().criteria@,
            r.groups@.last().algorithms@ == self.groups@.last().algorithms@.push(
                (SolverEntry {
                    id: AlgorithmId::SimulatedAnnealing,
                    algorithm: SolverAlgorithm::Annealing(algorithm),
                }),
            ),
            r.groups@.take(self.groups@.len() - 1) == self.groups@.take(self.groups@.len() - 1),
    {
        self.with_algorithm(AlgorithmId::SimulatedAnnealing, SolverAlgorithm::Annealing(algorithm))
    }

    /// Adds a genetic-algorithm instance to the group opened last, under the
    /// genetic-algorithm label.
    pub fn with_genetic(self, algorithm: GE) -> (r: Self)
        requires
            self.groups@.len() >= 1,
        ensures
            r.groups@.len() == self.groups@.len(),
            r.groups@.last().problems@ == self.groups@.last().problems@,
            r.groups@.last().criteria@ == self.groups@.last().criteria@,
            r.groups@.last().algorithms@ == self.groups@.last().algorithms@.push(
                (SolverEntry {
                    id: AlgorithmId::GeneticAlgorithm,
                    algorithm: SolverAlgorithm::Genetic(algorithm),
                }),
            ),
            r.groups@.take(self.groups@.len() - 1) == self.groups@.take(self.groups@.len() - 1),
    {
        self.with_algorithm(AlgorithmId::GeneticAlgorithm, SolverAlgorithm::Genetic(algorithm))
    }
}

/// Runs one group's full cross-product, appending one result per
/// (problem, algorithm, criterion) combination.
/// The labels of a group's registered algorithm entries, in order.
pub open spec fn algorithm_ids_spec<A>(entries: Seq<SolverEntry<A>>) -> Seq<AlgorithmId> {
    entries.map_values(|e: SolverEntry<A>| e.id)
}

/// The result came from this group: its problem is one of the group's, its
/// identity is that problem's, and every solution in it carries an
/// evaluation one of the group's criteria computed for that problem.
pub open spec fn result_from_group<P: Problem, S: Solution, O: Objective<P, S>, A>(
    g: SolverGroup<P, O, A>,
    result: SolverResult<S>,
) -> bool {
    exists|pi: int, ci: int|
        #![trigger g.problems@[pi], g.criteria@[ci]]
        {
            &&& 0 <= pi < g.problems@.len()
            &&& 0 <= ci < g.criteria@.len()
            &&& result.problem_id == g.problems@[pi].id_spec()
            &&& forall|j: int|
                0 <= j < result.solutions@.len() ==> scored_eval(
                    g.criteria@[ci].objective,
                    g.problems@[pi],
                    #[trigger] result.solutions@[j],
                )
        }
}

fn run_group<P: Problem, S: Solution, O: Objective<P, S>, A: OptAlgorithm<P, S, O>>(
    g: &mut SolverGroup<P, O, A>,
    results: &mut Vec<SolverResult<S>>,
)
    ensures
        final(results)@.len() == old(results)@.len() + group_combos_spec(*old(g)),
        forall|k: int|
            #![trigger final(results)@[k]]
            0 <= k < old(results)@.len() ==> final(results)@[k] == old(results)@[k],
        forall|k: int|
            #![trigger final(results)@[k]]
            old(results)@.len() <= k < final(results)@.len() ==> {
                &&& problem_ids_spec(old(g).problems@).contains(final(results)@[k].problem_id)
                &&& algorithm_ids_spec(old(g).algorithms@).contains(final(results)@[k].algorithm)
            },
        forall|k: int|
            #![trigger final(results)@[k]]
            old(results)@.len() <= k < final(results)@.len() ==> result_from_group(
                *old(g),
                final(results)@[k],
            ),
        final(g).problems@ == old(g).problems@,
        final(g).criteria@ == old(g).criteria@,
        final(g).algorithms@.len() == old(g).algorithms@.len(),
{
    let np = g.problems.len();
    let na = g.algorithms.len();
    let nc = g.criteria.len();
    let ghost rbase = results@.len() as int;
    let ghost labels = algorithm_ids_spec(old(g).algorithms@);
    let mut pi: usize = 0;
    while pi < np
        invariant
            pi <= np,
            g.problems@ == old(g).problems@,
            g.criteria@ == old(g).criteria@,
            g.algorithms@.len() == na,
            algorithm_ids_spec(g.algorithms@) == labels,
            labels == algorithm_ids_spec(old(g).algorithms@),
            labels.len() == na,
            np == old(g).problems@.len(),
            na == old(g).algorithms@.len(),
            nc == old(g).criteria@.len(),
            rbase == old(results)@.len(),
            results@.len() == rbase + pi as int * (na as int * nc as int),
            forall|k: int| #![trigger results@[k]] 0 <= k < rbase ==> results@[k] == old(results)@[k],
            forall|k: int|
                #![trigger results@[k]]
                rbase <= k < results@.len() ==> {
                    &&& problem_ids_spec(old(g).problems@).contains(results@[k].problem_id)
                    &&& labels.contains(results@[k].algorithm)
                    &&& result_from_group(*old(g), results@[k])
                },
        decreases np - pi,
    {
        let ghost abase = results@.len() as int;
        let mut ai: usize = 0;
        while ai < na
            invariant
                ai <= na,
                pi < np,
                g.problems@ == old(g).problems@,
                g.criteria@ == old(g).criteria@,
                g.algorithms@.len() == na,
                algorithm_ids_spec(g.algorithms@) == labels,
                labels == algorithm_ids_spec(old(g).algorithms@),
                labels.len() == na,
                np == old(g).problems@.len(),
                na == old(g).algorithms@.len(),
                nc == old(g).criteria@.len(),
                rbase == old(results)@.len(),
                abase >= rbase,
                results@.len() == abase + ai as int * nc as int,
                forall|k: int| #![trigger results@[k]] 0 <= k < rbase ==> results@[k] == old(results)@[k],
                forall|k: int|
                    #![trigger results@[k]]
                    rbase <= k < results@.len() ==> {
                        &&& problem_ids_spec(old(g).problems@).contains(results@[k].problem_id)
                        &&& labels.contains(results@[k].algorithm)
                        &&& result_from_group(*old(g), results@[k])
                    },
            decreases na - ai,
        {
            let ghost alg_pre = g.algorithms@;
            let mut entry = g.algorithms.remove(ai);
            proof {
                assert(entry.id == labels[ai as int]);
                assert(labels.contains(entry.id));
            }
            let ghost cbase = results@.len() as int;
            let mut ci: usize = 0;
            while ci < nc
                invariant
                    ci <= nc,
                    pi < np,
                    ai < na,
                    g.problems@ == old(g).problems@,
                    g.criteria@ == old(g).criteria@,
                    g.algorithms@ == alg_pre.remove(ai as int),
                    alg_pre.len() == na,
                    entry.id == labels[ai as int],
                    labels.contains(entry.id),
                    labels == algorithm_ids_spec(old(g).algorithms@),
                    labels.len() == na,
                    np == old(g).problems@.len(),
                    nc == old(g).criteria@.len(),
                    rbase == old(results)@.len(),
                    cbase >= rbase,
                    results@.len() == cbase + ci as int,
                    forall|k: int| #![trigger results@[k]] 0 <= k < rbase ==> results@[k] == old(results)@[k],
                    forall|k: int|
                        #![trigger results@[k]]
                        rbase <= k < results@.len() ==> {
                            &&& problem_ids_spec(old(g).problems@).contains(results@[k].problem_id)
                            &&& labels.contains(results@[k].algorithm)
                            &&& result_from_group(*old(g), results@[k])
                        },
                decreases nc - ci,
            {
                let solutions = entry.algorithm.solve(&g.problems[pi], &g.criteria[ci]);
                let problem_id = g.problems[pi].get_id();
                results.push(SolverResult { problem_id, algorithm: entry.id, solutions });
                proof {
                    assert(problem_ids_spec(old(g).problems@)[pi as int] == old(
                        g,
                    ).problems@[pi as int].id_spec());
                    assert(problem_ids_spec(old(g).problems@).contains(problem_id));
                    let pushed = results@.last();
                    assert(pushed.solutions@ == solutions@);
                    assert(old(g).problems@[pi as int] == g.problems@[pi as int]);
                    assert(old(g).criteria@[ci as int] == g.criteria@[ci as int]);
                    assert(result_from_group(*old(g), pushed));
                }
                ci = ci + 1;
            }
            g.algorithms.insert(ai, entry);
            proof {
                assert forall|j: int|
                    0 <= j < g.algorithms@.len() implies algorithm_ids_spec(g.algorithms@)[j]
                    == labels[j] by {
                    if j < ai {
                        assert(g.algorithms@[j] == alg_pre[j]);
                    } else if j == ai {
                        assert(g.algorithms@[j] == entry);
                    } else {
                        assert(g.algorithms@[j] == alg_pre[j]);
                    }
                }
                assert(algorithm_ids_spec(g.algorithms@) =~= labels);
            }
            ai = ai + 1;
            proof {
                let a = ai as int;
                let c = nc as int;
                assert(a * c == (a - 1) * c + c) by (nonlinear_arith);
            }
        }
        pi = pi + 1;
        proof {
            let p = pi as int;
            let m = na as int * nc as int;
            assert(p * m == (p - 1) * m + m) by (nonlinear_arith);
        }
    }
    proof {
        let p = np as int;
        let a = na as int;
        let c = nc as int;
        assert(p * (a * c) == p * a * c) by (nonlinear_arith);
    }
}

impl<P: Problem, O, A> Solver<P, O, A> {
    /// Executes the whole pipeline: every group's every problem is solved by
    /// the group's every algorithm under the group's every criterion, in
    /// registration order, and exactly one result is collected per
    /// combination.
    pub fn run<S: Solution>(&mut self) -> (results: Vec<SolverResult<S>>) where
        O: Objective<P, S>,
        A: OptAlgorithm<P, S, O>,

        ensures
            results@.len() == combos_spec(old(self).groups@),
            final(self).groups@.len() == old(self).groups@.len(),
            forall|k: int|
                #![trigger results@[k]]
                0 <= k < results@.len() ==> old(self).ids_spec().contains(results@[k].problem_id),
            forall|k: int|
                #![trigger results@[k]]
                0 <= k < results@.len() ==> exists|gi: int|
                    0 <= gi < old(self).groups@.len() && #[trigger] algorithm_ids_spec(
                        old(self).groups@[gi].algorithms@,
                    ).contains(results@[k].algorithm),
            forall|k: int|
                #![trigger results@[k]]
                0 <= k < results@.len() ==> result_registered(old(self).groups@, results@[k]),
    {
        let ghost orig = self.groups@;
        let mut results: Vec<SolverResult<S>> = Vec::new();
        let mut processed: Vec<SolverGroup<P, O, A>> = Vec::new();
        proof {
            assert(self.groups@ =~= orig.skip(0));
            assert(orig.take(0) =~= Seq::<SolverGroup<P, O, A>>::empty());
        }
        while self.groups.len() > 0
            invariant
                processed@.len() <= orig.len(),
                self.groups@ == orig.skip(processed@.len() as int),
                results@.len() == combos_spec(orig.take(processed@.len() as int)),
                forall|k: int|
                    #![trigger results@[k]]
                    0 <= k < results@.len() ==> groups_ids_spec(orig).contains(
                        results@[k].problem_id,
                    ),
                forall|k: int|
                    #![trigger results@[k]]
                    0 <= k < results@.len() ==> exists|gi: int|
                        0 <= gi < orig.len() && #[trigger] algorithm_ids_spec(
                            orig[gi].algorithms@,
                        ).contains(results@[k].algorithm),
                forall|k: int|
                    #![trigger results@[k]]
                    0 <= k < results@.len() ==> result_registered(orig, results@[k]),
            decreases self.groups.len(),
        {
            let ghost k = processed@.len() as int;
            let ghost pre_len = results@.len() as int;
            let ghost pre_results = results@;
            let mut g = self.groups.remove(0);
            let ghost gsnap = g;
            proof {
                assert(gsnap == orig[k]);
            }
            run_group(&mut g, &mut results);
            processed.push(g);
            proof {
                assert forall|kk: int|
                    0 <= kk < results@.len() implies groups_ids_spec(orig).contains(
                    #[trigger] results@[kk].problem_id,
                ) by {
                    if kk >= pre_len {
                        lemma_group_id_registered(orig, k, results@[kk].problem_id);
                    }
                }
                assert forall|kk: int| 0 <= kk < results@.len() implies exists|gi: int|
                    0 <= gi < orig.len() && #[trigger] algorithm_ids_spec(
                        orig[gi].algorithms@,
                    ).contains(#[trigger] results@[kk].algorithm) by {
                    if kk >= pre_len {
                        assert(algorithm_ids_spec(orig[k].algorithms@).contains(
                            results@[kk].algorithm,
                        ));
                    }
                }
                assert forall|kk: int| #![trigger results@[kk]] 0 <= kk < results@.len() implies
                    result_registered(orig, results@[kk]) by {
                    if kk < pre_len {
                        assert(results@[kk] == pre_results[kk]);
                        assert(result_registered(orig, pre_results[kk]));
                    } else {
                        assert(result_from_group(orig[k], results@[kk]));
                    }
                }
                assert(self.groups@ =~= orig.skip(k + 1));
                let taken = orig.take(k);
                assert(orig.take(k + 1) =~= taken + seq![gsnap]);
                lemma_combos_add(taken, seq![gsnap]);
                assert(seq![gsnap].drop_first() =~= Seq::<SolverGroup<P, O, A>>::empty());
                assert(combos_spec(seq![gsnap]) == group_combos_spec(gsnap) + combos_spec(
                    Seq::<SolverGroup<P, O, A>>::empty(),
                ));
            }
        }
        proof {
            assert(orig.take(processed@.len() as int) =~= orig);
        }
        self.groups = processed;
        results
    }
}

} // verus!
