//! A metaheuristic optimization engine: callers describe a problem and a
//! candidate-solution representation, and the engine searches for a feasible,
//! well-valued solution with interchangeable strategies — simulated annealing,
//! particle swarm optimization, and a genetic algorithm — none of which knows
//! anything about the problem domain.
//!
//! The engine works on [`score::Score`] order keys, so that every comparison
//! and every acceptance, survival, and termination decision is verified here;
//! the caller supplies, through small capability traits, the parts that are
//! inherently its own: objective and penalty functions, perturbation and
//! variation operators, random draws, and the floating-point arithmetic of
//! cooling schedules and particle motion.

pub mod annealing;
pub mod base;
pub mod genetic;
pub mod score;
pub mod solver;
pub mod stop;
pub mod swarm;
