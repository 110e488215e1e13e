//! The range that an expansion runs over, and the value of one iteration.

use vstd::prelude::*;

verus! {

/// A loop variable and the half-open range `lower..upper` of the values it
/// takes.
#[derive(Clone, Debug, PartialEq, Eq)]
pub struct RangeSpec {
    /// The name that stands for the value in the body.
    pub variable: String,
    /// The first value.
    pub lower: i64,
    /// One past the last value.
    pub upper: i64,
    /// Whether the range was written inclusive, so that `upper` is one more
    /// than the bound that was written.
    pub inclusive_adjusted: bool,
}

/// The mathematical value of a [`RangeSpec`].
pub struct RangeModel {
    pub variable: Seq<char>,
    pub lower: int,
    pub upper: int,
    pub inclusive_adjusted: bool,
}

impl View for RangeSpec {
    type V = RangeModel;

    open spec fn view(&self) -> RangeModel {
        RangeModel {
            variable: self.variable@,
            lower: self.lower as int,
            upper: self.upper as int,
            inclusive_adjusted: self.inclusive_adjusted,
        }
    }
}

impl RangeModel {
    /// The number of values in the range; none where `upper` is not above
    /// `lower`.
    pub open spec fn size(self) -> nat {
        if self.lower < self.upper {
            (self.upper - self.lower) as nat
        } else {
            0
        }
    }
}

/// The range that the bounds `start` and `end` describe as they were written:
/// an inclusive range ends one past `end`, and a range that would run
/// backwards is the empty range at `start`.
pub open spec fn range_of(variable: Seq<char>, start: int, end: int, inclusive: bool) -> RangeModel {
    let past = if inclusive {
        end + 1
    } else {
        end
    };
    RangeModel {
        variable,
        lower: start,
        upper: if past < start {
            start
        } else {
            past
        },
        inclusive_adjusted: inclusive,
    }
}

impl RangeSpec {
    /// A range is well formed when its bounds are in order. The parser only
    /// gives such ranges; the expansion takes any, and repeats nothing where
    /// they are not.
    pub open spec fn wf(&self) -> bool {
        self.lower <= self.upper
    }

    /// The range of `variable` from `start` to `end`, with `end` itself in it
    /// where `inclusive` is set. There is none only where the bound one past an
    /// inclusive `end` is not an `i64`.
    pub fn from_bounds(
        variable: String,
        start: i64,
        end: i64,
        inclusive: bool,
    ) -> (range: Option<RangeSpec>)
        ensures
            range is None <==> inclusive && end == i64::MAX,
            range matches Some(r) ==> r@ == range_of(variable@, start as int, end as int, inclusive)
                && r.wf(),
    {
        if inclusive && end == i64::MAX {
            return None;
        }
        let past = if inclusive {
            end + 1
        } else {
            end
        };
        let upper = if past < start {
            start
        } else {
            past
        };
        Some(RangeSpec { variable, lower: start, upper, inclusive_adjusted: inclusive })
    }
}

/// The loop variable together with the value it has in one iteration.
#[derive(Clone, Debug, PartialEq, Eq)]
pub struct ExpansionContext {
    /// The name that is replaced.
    pub variable: String,
    /// The value that replaces it.
    pub current_value: i64,
}

impl ExpansionContext {
    /// The context of the iteration in which `variable` is `value`.
    pub fn new(variable: &String, value: i64) -> (context: ExpansionContext)
        ensures
            context.variable@ == variable@,
            context.current_value == value,
    {
        ExpansionContext { variable: variable.clone(), current_value: value }
    }
}

} // verus!
