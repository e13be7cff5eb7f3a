use vstd::prelude::*;

verus! {

/// The numeric domain of the engine.
///
/// Every quantity the search engine reasons about (objective values, penalties,
/// temperatures, coordinates, velocities) is a `Score`. A defined score holds
/// the *order key* of the caller's double-precision value: callers map each of
/// their numbers to an `i64` key with an order-preserving encoding, so that
/// comparing two keys with `<` gives exactly the same answer as comparing the
/// two numbers they encode, and the number zero is mapped to the key `0`. The
/// canonical such encoding reinterprets the value's IEEE 754 bit pattern as a
/// signed integer and, when the sign bit is set, flips the lower sixty-three
/// bits (negative zero is first normalized to zero). The engine itself never
/// does arithmetic on scores; it only compares them, so any encoding with
/// these two properties agrees with the contracts here.
///
/// `Score::Undefined` stands for a value that is not a number (the state of a
/// freshly constructed, never evaluated solution). Like such a value, an
/// undefined score is never less than, greater than, or equal in order to
/// anything: `lt_spec` involving it is always false.
#[derive(Clone, Copy, Debug, PartialEq, Eq, Structural)]
pub enum Score {
    Undefined,
    Num(i64),
}

impl Score {
    /// True when the score holds an actual number.
    pub open spec fn is_defined(self) -> bool {
        self is Num
    }

    /// The strict order on scores: defined keys compare as integers, and an
    /// undefined score is below or above nothing.
    pub open spec fn lt_spec(self, other: Self) -> bool {
        match self {
            Score::Undefined => false,
            Score::Num(a) => match other {
                Score::Undefined => false,
                Score::Num(b) => a < b,
            },
        }
    }

    /// Executable strict comparison.
    pub fn lt(self, other: Self) -> (r: bool)
        ensures
            r == self.lt_spec(other),
    {
        match self {
            Score::Undefined => false,
            Score::Num(a) => match other {
                Score::Undefined => false,
                Score::Num(b) => a < b,
            },
        }
    }
}

/// The strict order on scores is asymmetric: two scores are never each
/// strictly below the other.
pub proof fn lemma_score_lt_asymmetric(a: Score, b: Score)
    ensures
        !(a.lt_spec(b) && b.lt_spec(a)),
{
}

/// One side of a score range, mirroring the three kinds of interval end.
#[derive(Clone, Copy, Debug, PartialEq, Eq, Structural)]
pub enum ScoreBound {
    Included(Score),
    Excluded(Score),
    Unbounded,
}

/// An interval of scores, described by its two bounds.
#[derive(Clone, Copy, Debug, PartialEq, Eq, Structural)]
pub struct ScoreRange {
    pub start: ScoreBound,
    pub end: ScoreBound,
}

impl ScoreRange {
    /// The range holding every score from `lo` to `hi`, both included.
    pub fn inclusive(lo: Score, hi: Score) -> (r: ScoreRange)
        ensures
            r == (ScoreRange { start: ScoreBound::Included(lo), end: ScoreBound::Included(hi) }),
    {
        ScoreRange { start: ScoreBound::Included(lo), end: ScoreBound::Included(hi) }
    }
}

/// The least value a search may use from the range: the start bound's score,
/// whether included or excluded, and nothing when the range has no lower end.
pub open spec fn min_value_spec(range: ScoreRange) -> Option<Score> {
    match range.start {
        ScoreBound::Included(s) => Some(s),
        ScoreBound::Excluded(s) => Some(s),
        ScoreBound::Unbounded => None,
    }
}

/// The greatest value a search may use from the range: the end bound's score
/// when the range has an upper end; for an excluded upper end below a bounded
/// start, the start's score is used instead.
pub open spec fn max_value_spec(range: ScoreRange) -> Option<Score> {
    match range.end {
        ScoreBound::Included(e) => Some(e),
        ScoreBound::Excluded(e) => match range.start {
            ScoreBound::Included(s) => Some(if s.lt_spec(e) { e } else { s }),
            ScoreBound::Excluded(s) => Some(if s.lt_spec(e) { e } else { s }),
            ScoreBound::Unbounded => Some(e),
        },
        ScoreBound::Unbounded => None,
    }
}

/// The lower edge of a range of scores.
pub fn min_value_of_range(range: &ScoreRange) -> (r: Option<Score>)
    ensures
        r == min_value_spec(*range),
{
    match range.start {
        ScoreBound::Included(s) => Some(s),
        ScoreBound::Excluded(s) => Some(s),
        ScoreBound::Unbounded => None,
    }
}

/// The upper edge of a range of scores.
pub fn max_value_of_range(range: &ScoreRange) -> (r: Option<Score>)
    ensures
        r == max_value_spec(*range),
{
    match range.end {
        ScoreBound::Included(e) => Some(e),
        ScoreBound::Excluded(e) => match range.start {
            ScoreBound::Included(s) => if s.lt(e) {
                Some(e)
            } else {
                Some(s)
            },
            ScoreBound::Excluded(s) => if s.lt(e) {
                Some(e)
            } else {
                Some(s)
            },
            ScoreBound::Unbounded => Some(e),
        },
        ScoreBound::Unbounded => None,
    }
}

/// Clamping a score into `[lo, hi]`: below `lo` becomes `lo`, above `hi`
/// becomes `hi`, anything else (an in-range or undefined score) is unchanged.
pub open spec fn clamp_spec(x: Score, lo: Score, hi: Score) -> Score {
    if x.lt_spec(lo) {
        lo
    } else if hi.lt_spec(x) {
        hi
    } else {
        x
    }
}

/// Clamping into an ordered interval lands inside it: the result is neither
/// below `lo` nor above `hi`. (An undefined score is inside every interval,
/// as it compares with nothing.)
pub proof fn lemma_clamp_within(x: Score, lo: Score, hi: Score)
    requires
        !hi.lt_spec(lo),
    ensures
        !clamp_spec(x, lo, hi).lt_spec(lo),
        !hi.lt_spec(clamp_spec(x, lo, hi)),
{
}

/// Executable clamping of a score into `[lo, hi]`.
pub fn clamp_score(x: Score, lo: Score, hi: Score) -> (r: Score)
    ensures
        r == clamp_spec(x, lo, hi),
{
    if x.lt(lo) {
        lo
    } else if hi.lt(x) {
        hi
    } else {
        x
    }
}

} // verus!
