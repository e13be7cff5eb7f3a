use vstd::prelude::*;

use crate::score::Score;

verus! {

/// Decides, from an evolving best-value signal, whether a search run should
/// terminate. One call to `should_stop` is one completed step: it feeds the
/// new value to the criterion and asks whether to stop.
///
/// The `fuel` of a criterion bounds how many more times it can decline to
/// stop: every call that returns false consumes fuel, which is what lets
/// every search loop in this crate terminate.
pub trait StopCriteria: Sized {
    /// An upper bound on the number of further calls that may return false.
    spec fn fuel(&self) -> nat;

    /// The state the criterion is in right after a reset.
    spec fn reset_spec(&self) -> Self;

    /// Records one step with the given tracked value and reports whether the
    /// search should stop.
    fn should_stop(&mut self, value: Score) -> (stop: bool)
        ensures
            !stop ==> final(self).fuel() < old(self).fuel(),
    ;

    /// Restores the criterion to its initial state.
    fn reset(&mut self)
        ensures
            *final(self) == old(self).reset_spec(),
    ;
}

/// Stops once the number of completed steps exceeds a fixed budget.
#[derive(Clone, Copy, Debug, PartialEq, Eq, Structural)]
pub struct MaxSteps {
    pub max_steps: usize,
    pub steps: usize,
}

impl MaxSteps {
    /// The state of a freshly built criterion with the given budget.
    pub open spec fn new_spec(max_steps: usize) -> MaxSteps {
        MaxSteps { max_steps, steps: 0 }
    }

    /// One call to `should_stop`: within the budget the step counter
    /// advances and the search goes on; at the budget the state is left
    /// alone and the search stops.
    pub open spec fn next_spec(self) -> (MaxSteps, bool) {
        if self.steps >= self.max_steps {
            (self, true)
        } else {
            (MaxSteps { steps: (self.steps + 1) as usize, ..self }, false)
        }
    }

    /// The state after `n` calls to `should_stop`.
    pub open spec fn after_spec(self, n: nat) -> MaxSteps
        decreases n,
    {
        if n == 0 {
            self
        } else {
            self.after_spec((n - 1) as nat).next_spec().0
        }
    }

    /// A criterion permitting `max_steps` steps.
    pub fn new(max_steps: usize) -> (s: Self)
        ensures
            s == MaxSteps::new_spec(max_steps),
    {
        MaxSteps { max_steps, steps: 0 }
    }
}

impl StopCriteria for MaxSteps {
    open spec fn fuel(&self) -> nat {
        if self.steps <= self.max_steps {
            (self.max_steps - self.steps) as nat
        } else {
            0
        }
    }

    /// A reset criterion keeps its budget and forgets its steps.
    open spec fn reset_spec(&self) -> Self {
        MaxSteps { steps: 0, ..*self }
    }

    fn should_stop(&mut self, _value: Score) -> (stop: bool)
        ensures
            *final(self) == old(self).next_spec().0,
            stop == old(self).next_spec().1,
    {
        if self.steps >= self.max_steps {
            true
        } else {
            self.steps = self.steps + 1;
            false
        }
    }

    fn reset(&mut self) {
        self.steps = 0;
    }
}

proof fn lemma_max_steps_after(max_steps: usize, k: nat)
    ensures
        MaxSteps::new_spec(max_steps).after_spec(k).max_steps == max_steps,
        MaxSteps::new_spec(max_steps).after_spec(k).steps == if k <= max_steps {
            k
        } else {
            max_steps as nat
        },
    decreases k,
{
    if k > 0 {
        lemma_max_steps_after(max_steps, (k - 1) as nat);
    }
}

/// MaxSteps termination: a criterion built with budget `max_steps` permits
/// exactly `max_steps` steps. Counting calls from one, the n-th call to
/// `should_stop` reports stop exactly when `n` exceeds the budget.
pub proof fn lemma_max_steps_permits_exactly(max_steps: usize, n: nat)
    requires
        n >= 1,
    ensures
        MaxSteps::new_spec(max_steps).after_spec((n - 1) as nat).next_spec().1 == (n > max_steps),
{
    lemma_max_steps_after(max_steps, (n - 1) as nat);
}

/// Whether `value` improves on the best value seen so far, in the given
/// direction. An undefined best (nothing seen yet) is improved on by any
/// defined value, playing the part of an infinitely bad sentinel; an
/// undefined value improves on nothing.
pub open spec fn improves_spec(best: Score, value: Score, minimize: bool) -> bool {
    match value {
        Score::Undefined => false,
        Score::Num(v) => match best {
            Score::Undefined => true,
            Score::Num(b) => if minimize {
                v < b
            } else {
                v > b
            },
        },
    }
}

/// Executable form of [`improves_spec`].
pub fn improves(best: Score, value: Score, minimize: bool) -> (r: bool)
    ensures
        r == improves_spec(best, value, minimize),
{
    match value {
        Score::Undefined => false,
        Score::Num(v) => match best {
            Score::Undefined => true,
            Score::Num(b) => if minimize {
                v < b
            } else {
                v > b
            },
        },
    }
}

/// Stops when an absolute step budget is exceeded, or when the tracked best
/// value has not improved for `patience` consecutive steps.
#[derive(Clone, Copy, Debug, PartialEq, Eq, Structural)]
pub struct NotGettingBetter {
    pub max_steps: u64,
    pub best_value: Score,
    pub found_at: u64,
    pub steps: u64,
    pub patience: u64,
    pub is_minimization: bool,
}

impl NotGettingBetter {
    /// The state of a freshly built criterion: no steps taken, no best value
    /// seen yet.
    pub open spec fn new_spec(max_steps: u64, patience: u64, is_minimization: bool)
        -> NotGettingBetter {
        NotGettingBetter {
            max_steps,
            best_value: Score::Undefined,
            found_at: 0,
            steps: 0,
            patience,
            is_minimization,
        }
    }

    /// One call to `should_stop`: past the budget the state is left alone
    /// and the search stops; otherwise the step counter advances, an
    /// improving value is recorded together with the step that found it, and
    /// the search stops when the steps since the last improvement reach
    /// `patience`.
    pub open spec fn next_spec(self, value: Score) -> (NotGettingBetter, bool) {
        if self.steps >= self.max_steps {
            (self, true)
        } else {
            let stepped = (self.steps + 1) as u64;
            let s = if improves_spec(self.best_value, value, self.is_minimization) {
                NotGettingBetter { steps: stepped, best_value: value, found_at: stepped, ..self }
            } else {
                NotGettingBetter { steps: stepped, ..self }
            };
            let since = if s.steps >= s.found_at {
                s.steps - s.found_at
            } else {
                0
            };
            (s, since >= s.patience)
        }
    }

    /// The state after feeding the values of `values`, in order, to
    /// `should_stop`.
    pub open spec fn after_spec(self, values: Seq<Score>) -> NotGettingBetter
        decreases values.len(),
    {
        if values.len() == 0 {
            self
        } else {
            self.next_spec(values[0]).0.after_spec(values.drop_first())
        }
    }

    /// A criterion with the given step budget, patience, and direction.
    pub fn new(max_steps: u64, patience: u64, is_minimization: bool) -> (s: Self)
        ensures
            s == NotGettingBetter::new_spec(max_steps, patience, is_minimization),
    {
        NotGettingBetter {
            max_steps,
            best_value: Score::Undefined,
            found_at: 0,
            steps: 0,
            patience,
            is_minimization,
        }
    }
}

impl StopCriteria for NotGettingBetter {
    open spec fn fuel(&self) -> nat {
        if self.steps <= self.max_steps {
            (self.max_steps - self.steps) as nat
        } else {
            0
        }
    }

    /// A reset criterion keeps its budget, patience and direction, and
    /// forgets its steps and tracked best.
    open spec fn reset_spec(&self) -> Self {
        NotGettingBetter { steps: 0, found_at: 0, best_value: Score::Undefined, ..*self }
    }

    fn should_stop(&mut self, value: Score) -> (stop: bool)
        ensures
            *final(self) == old(self).next_spec(value).0,
            stop == old(self).next_spec(value).1,
    {
        if self.steps >= self.max_steps {
            return true;
        }
        self.steps = self.steps + 1;
        if improves(self.best_value, value, self.is_minimization) {
            self.best_value = value;
            self.found_at = self.steps;
        }
        let since = if self.steps >= self.found_at {
            self.steps - self.found_at
        } else {
            0
        };
        since >= self.patience
    }

    fn reset(&mut self) {
        self.steps = 0;
        self.found_at = 0;
        self.best_value = Score::Undefined;
    }
}

proof fn lemma_ngb_stays(s: NotGettingBetter, values: Seq<Score>)
    requires
        forall|i: int|
            0 <= i < values.len() ==> !improves_spec(s.best_value, values[i], s.is_minimization),
        s.steps + values.len() <= s.max_steps,
    ensures
        s.after_spec(values) == (NotGettingBetter { steps: (s.steps + values.len()) as u64, ..s }),
    decreases values.len(),
{
    if values.len() > 0 {
        let s1 = s.next_spec(values[0]).0;
        assert(s1 == (NotGettingBetter { steps: (s.steps + 1) as u64, ..s }));
        assert(forall|i: int|
            0 <= i < values.drop_first().len() ==> values.drop_first()[i] == values[i + 1]);
        lemma_ngb_stays(s1, values.drop_first());
    }
}

/// NotGettingBetter termination: once a first update has set the tracked
/// best value, and none of the following updates improves on it, the
/// criterion reports stop at exactly the `patience`-th further update —
/// earlier ones let the search go on (the step budget permitting).
pub proof fn lemma_not_getting_better_patience(
    max_steps: u64,
    patience: u64,
    minimize: bool,
    first: Score,
    values: Seq<Score>,
    i: int,
)
    requires
        first is Num,
        values.len() + 1 <= max_steps,
        forall|j: int| 0 <= j < values.len() ==> !improves_spec(first, values[j], minimize),
        0 <= i < values.len(),
    ensures
        NotGettingBetter::new_spec(max_steps, patience, minimize).next_spec(first).1 == (patience
            == 0),
        ({
            let s1 = NotGettingBetter::new_spec(max_steps, patience, minimize).next_spec(first).0;
            s1.after_spec(values.take(i)).next_spec(values[i]).1 == (i + 1 >= patience)
        }),
{
    let s1 = NotGettingBetter::new_spec(max_steps, patience, minimize).next_spec(first).0;
    assert(s1.best_value == first && s1.found_at == 1 && s1.steps == 1);
    assert(forall|j: int| 0 <= j < values.take(i).len() ==> values.take(i)[j] == values[j]);
    lemma_ngb_stays(s1, values.take(i));
}

} // verus!
