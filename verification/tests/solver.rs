use optima::annealing::{Acceptance, Cooler, Perturbation, SimulatedAnnealing};
use optima::base::{
    AlgorithmId, Criterion, Evaluation, NoInsight, Objective, Problem, Solution,
};
use optima::genetic::{Crosser, GeneticAlgorithm, Mutator, Selector};
use optima::score::Score;
use optima::solver::Solver;
use optima::stop::MaxSteps;
use rand::rngs::StdRng;
use rand::{Rng, SeedableRng};

fn key(x: f64) -> i64 {
    let x = if x == 0.0 { 0.0 } else { x };
    let b = x.to_bits() as i64;
    if b < 0 {
        b ^ 0x7FFF_FFFF_FFFF_FFFF
    } else {
        b
    }
}

fn score(x: f64) -> Score {
    if x.is_nan() {
        Score::Undefined
    } else {
        Score::Num(key(x))
    }
}

fn fval(s: Score) -> f64 {
    match s {
        Score::Undefined => f64::NAN,
        Score::Num(k) => {
            let b = if k < 0 { k ^ 0x7FFF_FFFF_FFFF_FFFF } else { k };
            f64::from_bits(b as u64)
        }
    }
}

#[derive(Clone, Debug)]
struct KnapsackSolution {
    picked_items: Vec<bool>,
    eval: Evaluation,
}

impl Solution for KnapsackSolution {
    fn eval_spec(&self) -> Evaluation {
        self.eval
    }

    fn with_eval_spec(&self, e: Evaluation) -> Self {
        Self { picked_items: self.picked_items.clone(), eval: e }
    }

    fn lemma_with_eval(&self, _e: Evaluation) {}

    fn get_eval(&self) -> Evaluation {
        self.eval
    }

    fn set_eval(&mut self, e: Evaluation) {
        self.eval = e;
    }

    fn clone_sol(&self) -> Self {
        self.clone()
    }
}

#[derive(Clone)]
struct KnapsackProblem {
    id: u32,
    weights: Vec<f64>,
    values: Vec<f64>,
    capacity: f64,
}

impl Problem for KnapsackProblem {
    fn id_spec(&self) -> u32 {
        self.id
    }

    fn get_id(&self) -> u32 {
        self.id
    }
}

struct KnapsackObjective;

impl Objective<KnapsackProblem, KnapsackSolution> for KnapsackObjective {
    fn penalty_spec(&self, problem: &KnapsackProblem, solution: &KnapsackSolution) -> Score {
        self.penalty(problem, solution)
    }

    fn value_spec(&self, problem: &KnapsackProblem, solution: &KnapsackSolution) -> Score {
        self.value(problem, solution)
    }

    fn penalty(&self, problem: &KnapsackProblem, solution: &KnapsackSolution) -> Score {
        let mut total_weight = 0.0;
        for i in 0..solution.picked_items.len() {
            if solution.picked_items[i] {
                total_weight += problem.weights[i];
            }
        }
        score((total_weight - problem.capacity).max(0.0))
    }

    fn value(&self, problem: &KnapsackProblem, solution: &KnapsackSolution) -> Score {
        let mut total_value = 0.0;
        for i in 0..solution.picked_items.len() {
            if solution.picked_items[i] {
                total_value += problem.values[i];
            }
        }
        score(total_value)
    }
}

struct QuadraticCooler {
    initial_temp: f64,
    temperature: f64,
    multiplier: f64,
}

impl Cooler for QuadraticCooler {
    fn reset_spec(&self) -> Self {
        Self { initial_temp: self.initial_temp, temperature: self.initial_temp, multiplier: self.multiplier }
    }

    fn cool(&mut self) {
        self.temperature *= self.multiplier;
    }

    fn reset(&mut self) {
        self.temperature = self.initial_temp;
    }

    fn get_temp(&self) -> Score {
        score(self.temperature)
    }
}

struct ExpDraw {
    rng: StdRng,
}

impl Acceptance for ExpDraw {
    fn accept_worse(&mut self, current: Score, before: Score, temperature: Score) -> bool {
        let diff = fval(current) - fval(before);
        self.rng.gen::<f64>() < (diff / fval(temperature)).exp()
    }
}

struct FlipOne {
    rng: StdRng,
}

impl Perturbation<KnapsackProblem, KnapsackSolution> for FlipOne {
    fn change(&mut self, solution: &mut KnapsackSolution, _problem: &KnapsackProblem) {
        let i = self.rng.gen_range(0..solution.picked_items.len());
        solution.picked_items[i] = !solution.picked_items[i];
    }
}

struct Tournament {
    rng: StdRng,
}

impl Selector<KnapsackSolution> for Tournament {
    fn select(&mut self, capacity: usize, population: &Vec<KnapsackSolution>) -> Vec<KnapsackSolution> {
        let mut selected = Vec::with_capacity(capacity);
        while selected.len() < capacity {
            let a = &population[self.rng.gen_range(0..population.len())];
            let b = &population[self.rng.gen_range(0..population.len())];
            let a_wins = match (a.eval.is_feasible, b.eval.is_feasible) {
                (true, false) => true,
                (false, true) => false,
                _ => match (a.eval.value, b.eval.value) {
                    (Score::Num(x), Score::Num(y)) => x >= y,
                    _ => false,
                },
            };
            selected.push(if a_wins { a.clone() } else { b.clone() });
        }
        selected
    }
}

struct OnePoint {
    rng: StdRng,
}

impl Crosser<KnapsackSolution> for OnePoint {
    fn cross(&mut self, population: &mut Vec<KnapsackSolution>) {
        let n = population.len();
        let mut pair = 0;
        while pair + 1 < n {
            let bits = population[pair].picked_items.len();
            if bits >= 2 {
                let cut = self.rng.gen_range(1..bits);
                for i in cut..bits {
                    let a = population[pair].picked_items[i];
                    let b = population[pair + 1].picked_items[i];
                    population[pair].picked_items[i] = b;
                    population[pair + 1].picked_items[i] = a;
                }
            }
            pair += 2;
        }
    }
}

struct BitFlip {
    rng: StdRng,
}

impl Mutator<KnapsackSolution> for BitFlip {
    fn mutate(&mut self, population: &mut Vec<KnapsackSolution>) {
        for member in population.iter_mut() {
            for i in 0..member.picked_items.len() {
                if self.rng.gen::<f64>() < 0.2 {
                    member.picked_items[i] = !member.picked_items[i];
                }
            }
        }
    }
}

type KnapsackAnnealing = SimulatedAnnealing<
    KnapsackSolution,
    QuadraticCooler,
    MaxSteps,
    FlipOne,
    ExpDraw,
    NoInsight,
>;
type KnapsackGenetic =
    GeneticAlgorithm<KnapsackSolution, Tournament, OnePoint, BitFlip, NoInsight>;

fn knapsack_problem(id: u32) -> KnapsackProblem {
    KnapsackProblem {
        id,
        weights: vec![1.0, 2.0, 3.0],
        values: vec![4.0, 5.0, 1.0],
        capacity: 2.0,
    }
}

fn annealing(seed: u64) -> KnapsackAnnealing {
    SimulatedAnnealing::new(
        KnapsackSolution { picked_items: vec![false, false, false], eval: Evaluation::default() },
        MaxSteps::new(2000),
        QuadraticCooler { initial_temp: 1000.0, temperature: 1000.0, multiplier: 0.997 },
        FlipOne { rng: StdRng::seed_from_u64(seed) },
        ExpDraw { rng: StdRng::seed_from_u64(seed + 1) },
    )
}

fn genetic(seed: u64) -> KnapsackGenetic {
    let mut rng = StdRng::seed_from_u64(seed);
    let mut population = Vec::new();
    for _ in 0..16 {
        let picked = vec![rng.gen::<bool>(), rng.gen::<bool>(), rng.gen::<bool>()];
        population.push(KnapsackSolution { picked_items: picked, eval: Evaluation::default() });
    }
    GeneticAlgorithm::new(
        16,
        population,
        Tournament { rng: StdRng::seed_from_u64(seed + 1) },
        OnePoint { rng: StdRng::seed_from_u64(seed + 2) },
        BitFlip { rng: StdRng::seed_from_u64(seed + 3) },
        60,
    )
}

/// End-to-end: the knapsack with weights one, two, three, values four,
/// five, one and capacity two has the feasible optimum that picks only the
/// second item, exhausting the capacity at value five — and every
/// registered combination finds it.
#[test]
fn solver_runs_the_cross_product_and_finds_the_optimum() {
    let solver = Solver::new()
        .solve(vec![knapsack_problem(0), knapsack_problem(1)])
        .use_criteria(Criterion::new(KnapsackObjective, false))
        .with_annealing(annealing(100))
        .with_genetic(genetic(200))
        .solve(vec![knapsack_problem(7)])
        .use_criteria(Criterion::new(KnapsackObjective, false))
        .with_annealing(annealing(300));
    let mut solver = solver;
    let results = solver.run();

    // Two problems times two algorithms times one criterion, plus one more
    // problem under one algorithm and one criterion.
    assert_eq!(results.len(), 5);

    let mut seen_ids: Vec<u32> = results.iter().map(|r| r.problem_id).collect();
    seen_ids.sort();
    assert_eq!(seen_ids, vec![0, 0, 1, 1, 7]);

    let annealing_runs = results
        .iter()
        .filter(|r| r.algorithm == AlgorithmId::SimulatedAnnealing)
        .count();
    let genetic_runs = results
        .iter()
        .filter(|r| r.algorithm == AlgorithmId::GeneticAlgorithm)
        .count();
    assert_eq!(annealing_runs, 3);
    assert_eq!(genetic_runs, 2);

    for result in &results {
        let best = &result.solutions[0];
        assert!(best.eval.is_feasible);
        assert_eq!(best.eval.value, score(5.0));
        assert_eq!(best.picked_items, vec![false, true, false]);
    }
}

#[test]
fn solver_with_no_groups_produces_no_results() {
    let mut solver: Solver<KnapsackProblem, KnapsackObjective, KnapsackAnnealing> = Solver::new();
    let results = solver.run::<KnapsackSolution>();
    assert_eq!(results.len(), 0);
}
