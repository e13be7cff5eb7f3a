use optima::base::{eval_from, Criterion, Evaluation, Objective, Problem, Solution};
use optima::score::Score;

fn key(x: f64) -> i64 {
    let x = if x == 0.0 { 0.0 } else { x };
    let b = x.to_bits() as i64;
    if b < 0 {
        b ^ 0x7FFF_FFFF_FFFF_FFFF
    } else {
        b
    }
}

fn score(x: f64) -> Score {
    if x.is_nan() {
        Score::Undefined
    } else {
        Score::Num(key(x))
    }
}

#[derive(Clone)]
struct TestSolution {
    eval: Evaluation,
}

impl Default for TestSolution {
    fn default() -> Self {
        Self { eval: Evaluation::default() }
    }
}

impl Solution for TestSolution {
    fn eval_spec(&self) -> Evaluation {
        self.eval
    }

    fn with_eval_spec(&self, e: Evaluation) -> Self {
        Self { eval: e }
    }

    fn lemma_with_eval(&self, _e: Evaluation) {}

    fn get_eval(&self) -> Evaluation {
        self.eval
    }

    fn set_eval(&mut self, e: Evaluation) {
        self.eval = e;
    }

    fn clone_sol(&self) -> Self {
        self.clone()
    }
}

#[derive(Clone, Copy)]
struct TestProblem;

impl Problem for TestProblem {
    fn id_spec(&self) -> u32 {
        1
    }

    fn get_id(&self) -> u32 {
        1
    }
}

struct TestObjective {
    penalty: f64,
    value: f64,
}

impl Objective<TestProblem, TestSolution> for TestObjective {
    fn penalty_spec(&self, problem: &TestProblem, solution: &TestSolution) -> Score {
        self.penalty(problem, solution)
    }

    fn value_spec(&self, problem: &TestProblem, solution: &TestSolution) -> Score {
        self.value(problem, solution)
    }

    fn penalty(&self, _: &TestProblem, _: &TestSolution) -> Score {
        score(self.penalty)
    }

    fn value(&self, _: &TestProblem, _: &TestSolution) -> Score {
        score(self.value)
    }
}

#[test]
fn evaluate_penalty_evaluated_correctly() {
    let criterion = Criterion::new(TestObjective { penalty: 10.0, value: 20.0 }, false);
    let mut initial_state = TestSolution { eval: Evaluation::default() };
    let problem = TestProblem {};
    criterion.evaluate(&problem, &mut initial_state);

    let info = initial_state.get_eval();

    assert_eq!(score(10.0), info.value);
    assert_eq!(false, info.is_feasible);
}

#[test]
fn evaluate_value_evaluated_correctly() {
    let criterion = Criterion::new(TestObjective { penalty: 0.0, value: 20.0 }, false);
    let mut initial_state = TestSolution { eval: Evaluation::default() };
    let problem = TestProblem {};
    criterion.evaluate(&problem, &mut initial_state);

    let info = initial_state.get_eval();

    assert_eq!(score(20.0), info.value);
    assert_eq!(true, info.is_feasible);
}

#[test]
fn evaluate_weird_solution() {
    let criterion = Criterion::new(TestObjective { penalty: 10.0, value: 20.0 }, false);
    let mut initial_state = TestSolution {
        eval: Evaluation { value: score(10.0), is_feasible: false },
    };
    let problem = TestProblem {};
    criterion.evaluate(&problem, &mut initial_state);

    let info = initial_state.get_eval();

    assert_eq!(score(10.0), info.value);
    assert_eq!(false, info.is_feasible);
}

#[test]
fn is_first_better_value_comparison() {
    let mut criterion = Criterion::new(TestObjective { penalty: 10.0, value: 20.0 }, false);
    let mut info_a = Evaluation { value: score(10.0), is_feasible: true };
    let mut info_b = Evaluation { value: score(20.0), is_feasible: true };

    assert_eq!(false, criterion.is_first_better(&info_a, &info_b));
    info_a.value = score(20.0);
    info_b.value = score(10.0);
    assert_eq!(true, criterion.is_first_better(&info_a, &info_b));

    criterion.is_minimization = true;

    assert_eq!(false, criterion.is_first_better(&info_a, &info_b));
    info_a.value = score(10.0);
    info_b.value = score(20.0);
    assert_eq!(true, criterion.is_first_better(&info_a, &info_b));
}

#[test]
fn is_first_better_take_feasibility_into_account() {
    let mut criterion = Criterion::new(TestObjective { penalty: 10.0, value: 20.0 }, false);

    let info_a = Evaluation { value: score(30.0), is_feasible: true };
    let info_b = Evaluation { value: score(2.0), is_feasible: false };

    assert_eq!(true, criterion.is_first_better(&info_a, &info_b));
    criterion.is_minimization = true;
    assert_eq!(true, criterion.is_first_better(&info_a, &info_b));
}

#[test]
fn feasibility_dominance_holds_for_both_directions() {
    for minimize in [false, true] {
        let criterion = Criterion::new(TestObjective { penalty: 0.0, value: 0.0 }, minimize);
        let feasible = Evaluation { value: score(1000.0), is_feasible: true };
        let infeasible = Evaluation { value: score(0.5), is_feasible: false };
        assert!(criterion.is_first_better(&feasible, &infeasible));
        assert!(!criterion.is_first_better(&infeasible, &feasible));
    }
}

#[test]
fn direction_decides_between_feasible_evaluations() {
    let lower = Evaluation { value: score(-3.5), is_feasible: true };
    let higher = Evaluation { value: score(12.25), is_feasible: true };

    let minimizing = Criterion::new(TestObjective { penalty: 0.0, value: 0.0 }, true);
    assert!(minimizing.is_first_better(&lower, &higher));
    assert!(!minimizing.is_first_better(&higher, &lower));

    let maximizing = Criterion::new(TestObjective { penalty: 0.0, value: 0.0 }, false);
    assert!(maximizing.is_first_better(&higher, &lower));
    assert!(!maximizing.is_first_better(&lower, &higher));
}

#[test]
fn infeasible_evaluations_compare_by_lower_penalty() {
    let small = Evaluation { value: score(1.0), is_feasible: false };
    let large = Evaluation { value: score(7.0), is_feasible: false };
    for minimize in [false, true] {
        let criterion = Criterion::new(TestObjective { penalty: 0.0, value: 0.0 }, minimize);
        assert!(criterion.is_first_better(&small, &large));
        assert!(!criterion.is_first_better(&large, &small));
    }
}

#[test]
fn eval_from_is_exact_on_the_zero_boundary() {
    let zero = eval_from(score(0.0), score(42.0));
    assert_eq!(zero.is_feasible, true);
    assert_eq!(zero.value, score(42.0));

    let tiny = eval_from(score(1e-300), score(42.0));
    assert_eq!(tiny.is_feasible, false);
    assert_eq!(tiny.value, score(1e-300));

    let negative = eval_from(score(-1e-300), score(42.0));
    assert_eq!(negative.is_feasible, false);
    assert_eq!(negative.value, score(-1e-300));
}

#[test]
fn fresh_evaluation_never_wins_a_comparison() {
    let fresh = Evaluation::default();
    assert_eq!(fresh.is_feasible, false);
    assert_eq!(fresh.value, Score::Undefined);
    let real_bad = Evaluation { value: score(1e18), is_feasible: false };
    let real_good = Evaluation { value: score(1.0), is_feasible: true };
    for minimize in [false, true] {
        let criterion = Criterion::new(TestObjective { penalty: 0.0, value: 0.0 }, minimize);
        assert!(!criterion.is_first_better(&fresh, &real_bad));
        assert!(!criterion.is_first_better(&fresh, &real_good));
        // Between two infeasible evaluations an undefined value compares like
        // a value that is not a number: neither side wins.
        assert!(!criterion.is_first_better(&real_bad, &fresh));
        // A feasible evaluation still dominates the infeasible fresh one.
        assert!(criterion.is_first_better(&real_good, &fresh));
    }
}
