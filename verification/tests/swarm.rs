use optima::base::{Criterion, NoInsight, Objective, OptAlgorithm, Problem, Solution};
use optima::score::{Score, ScoreRange};
use optima::stop::MaxSteps;
use optima::swarm::{
    domain_ok, FnProblem, Motion, Particle, ParticleSwarm, SwarmInsight,
};
use rand::rngs::StdRng;
use rand::{Rng, SeedableRng};

fn key(x: f64) -> i64 {
    let x = if x == 0.0 { 0.0 } else { x };
    let b = x.to_bits() as i64;
    if b < 0 {
        b ^ 0x7FFF_FFFF_FFFF_FFFF
    } else {
        b
    }
}

fn score(x: f64) -> Score {
    if x.is_nan() {
        Score::Undefined
    } else {
        Score::Num(key(x))
    }
}

fn fval(s: Score) -> f64 {
    match s {
        Score::Undefined => f64::NAN,
        Score::Num(k) => {
            let b = if k < 0 { k ^ 0x7FFF_FFFF_FFFF_FFFF } else { k };
            f64::from_bits(b as u64)
        }
    }
}

fn square_domain(id: u32, half_side: f64) -> FnProblem {
    FnProblem::new(
        id,
        ScoreRange::inclusive(score(-half_side), score(half_side)),
        ScoreRange::inclusive(score(-half_side), score(half_side)),
    )
}

/// Uniform sampling and the classical velocity/position update, with both
/// random coefficients shared across the two axes of one move.
struct RandomMotion {
    rng: StdRng,
}

impl Motion for RandomMotion {
    fn sample(&mut self, problem: &FnProblem, _index: usize) -> Particle {
        let xmin = fval(optima::score::min_value_of_range(&problem.x_range).unwrap());
        let xmax = fval(optima::score::max_value_of_range(&problem.x_range).unwrap());
        let ymin = fval(optima::score::min_value_of_range(&problem.y_range).unwrap());
        let ymax = fval(optima::score::max_value_of_range(&problem.y_range).unwrap());
        let mut p = Particle::new(
            score(self.rng.gen_range(xmin..=xmax)),
            score(self.rng.gen_range(ymin..=ymax)),
        );
        p.velocity_x = score(self.rng.gen::<f64>());
        p.velocity_y = score(self.rng.gen::<f64>());
        p
    }

    fn advance(
        &mut self,
        particle: &mut Particle,
        best_local: &Particle,
        best_global: &Particle,
        local_attraction: Score,
        global_attraction: Score,
        inertia: Score,
    ) {
        let r_local: f64 = self.rng.gen();
        let r_global: f64 = self.rng.gen();
        let la = fval(local_attraction);
        let ga = fval(global_attraction);
        let w = fval(inertia);

        let x = fval(particle.x);
        let y = fval(particle.y);
        let vx = w * fval(particle.velocity_x)
            + la * r_local * (fval(best_local.x) - x)
            + ga * r_global * (fval(best_global.x) - x);
        let vy = w * fval(particle.velocity_y)
            + la * r_local * (fval(best_local.y) - y)
            + ga * r_global * (fval(best_global.y) - y);

        particle.velocity_x = score(vx);
        particle.velocity_y = score(vy);
        particle.x = score(x + vx);
        particle.y = score(y + vy);
    }
}

struct SphereObjective;

impl Objective<FnProblem, Particle> for SphereObjective {
    fn penalty_spec(&self, problem: &FnProblem, solution: &Particle) -> Score {
        self.penalty(problem, solution)
    }

    fn value_spec(&self, problem: &FnProblem, solution: &Particle) -> Score {
        self.value(problem, solution)
    }

    fn penalty(&self, _: &FnProblem, _: &Particle) -> Score {
        score(0.0)
    }

    fn value(&self, _: &FnProblem, p: &Particle) -> Score {
        let x = fval(p.x);
        let y = fval(p.y);
        score(x * x + y * y)
    }
}

/// Swarm convergence sanity: minimizing the sphere function over the square
/// of side twenty with at least fifty particles and at least two thousand
/// iterations ends below one.
#[test]
fn swarm_converges_on_the_sphere_function() {
    let problem = square_domain(0, 10.0);
    let criterion = Criterion::new(SphereObjective, true);
    let mut swarm: ParticleSwarm<MaxSteps, RandomMotion, NoInsight> = ParticleSwarm::new(
        60,
        MaxSteps::new(2500),
        RandomMotion { rng: StdRng::seed_from_u64(5) },
    );

    let result = swarm.solve(&problem, &criterion);

    assert_eq!(result.len(), 1);
    let best = &result[0];
    assert!(best.eval.is_feasible);
    let best_value = fval(best.eval.value);
    assert!(best_value < 1.0, "swarm did not converge: {}", best_value);
    assert!(fval(best.x).abs() <= 10.0);
    assert!(fval(best.y).abs() <= 10.0);
}

/// The insight callback can cancel the search early.
struct StopAfter {
    iterations: usize,
    seen: usize,
}

impl SwarmInsight for StopAfter {
    fn observe(
        &mut self,
        _problem: &FnProblem,
        _particles: &Vec<Particle>,
        _best_global_index: usize,
        _is_final: bool,
    ) -> bool {
        self.seen += 1;
        self.seen >= self.iterations
    }
}

#[test]
fn swarm_insight_can_request_early_termination() {
    let problem = square_domain(0, 10.0);
    let criterion = Criterion::new(SphereObjective, true);
    let mut swarm: ParticleSwarm<MaxSteps, RandomMotion, StopAfter> = ParticleSwarm::new(
        10,
        MaxSteps::new(1_000_000),
        RandomMotion { rng: StdRng::seed_from_u64(6) },
    );
    swarm.register_insight(StopAfter { iterations: 3, seen: 0 });

    let result = swarm.solve(&problem, &criterion);

    assert_eq!(result.len(), 1);
    assert_eq!(swarm.insight.as_ref().unwrap().seen, 3);
}

#[test]
fn swarm_with_no_particles_returns_nothing() {
    let problem = square_domain(0, 10.0);
    let criterion = Criterion::new(SphereObjective, true);
    let mut swarm: ParticleSwarm<MaxSteps, RandomMotion, NoInsight> = ParticleSwarm::new(
        0,
        MaxSteps::new(10),
        RandomMotion { rng: StdRng::seed_from_u64(8) },
    );
    let result = swarm.solve(&problem, &criterion);
    assert_eq!(result.len(), 0);
}

#[test]
fn particles_stay_clamped_inside_the_domain() {
    let problem = square_domain(0, 1.0);
    assert!(domain_ok(&problem));
    let mut particle = Particle::new(score(15.0), score(-3.0));
    particle.clamp_to_domain(&problem);
    assert_eq!(particle.x, score(1.0));
    assert_eq!(particle.y, score(-1.0));

    let mut inside = Particle::new(score(0.25), score(-0.75));
    inside.clamp_to_domain(&problem);
    assert_eq!(inside.x, score(0.25));
    assert_eq!(inside.y, score(-0.75));

    let mut undefined = Particle::new(Score::Undefined, score(2.0));
    undefined.clamp_to_domain(&problem);
    assert_eq!(undefined.x, Score::Undefined);
    assert_eq!(undefined.y, score(1.0));
}

#[test]
fn new_particles_rest_with_a_zero_evaluation() {
    let p = Particle::new(score(1.5), score(-2.5));
    assert_eq!(p.best_local_index, 0);
    assert_eq!(p.velocity_x, score(0.0));
    assert_eq!(p.velocity_y, score(0.0));
    assert_eq!(p.eval.value, score(0.0));
    assert!(p.eval.is_feasible);
    assert_eq!(p.get_value(), score(0.0));

    let problem = square_domain(3, 2.0);
    assert_eq!(problem.get_id(), 3);
}
