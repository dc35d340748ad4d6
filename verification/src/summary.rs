//! Counter vectors: what one step did, and the summary that reports are made of.

use vstd::prelude::*;
use vstd::std_specs::ops::AddSpecImpl;
use vstd::std_specs::ops::DivSpecImpl;
use vstd::std_specs::ops::MulSpecImpl;
use vstd::std_specs::ops::SubSpecImpl;

verus! {

/// The largest value that a counter of the walk may reach. A count up to
/// here can still be scaled to a rate per thousand in 64 bits.
pub const MAX_COUNT: u64 = 18_446_744_073_709_551;

/// The factor between a count per millisecond and a count per second.
pub const MILLIS_PER_SEC: u64 = 1000;

/// Four counters as mathematical numbers: the model of a summary.
pub struct Counts {
    pub walked: nat,
    pub checked: nat,
    pub queued: nat,
    pub errors: nat,
}

impl Counts {
    /// All counters at zero.
    pub open spec fn zero() -> Counts {
        Counts { walked: 0, checked: 0, queued: 0, errors: 0 }
    }

    /// The sum, counter by counter.
    pub open spec fn plus(self, other: Counts) -> Counts {
        Counts {
            walked: self.walked + other.walked,
            checked: self.checked + other.checked,
            queued: self.queued + other.queued,
            errors: self.errors + other.errors,
        }
    }

    /// The difference, counter by counter; meant for `other.le(self)`.
    pub open spec fn minus(self, other: Counts) -> Counts {
        Counts {
            walked: (self.walked - other.walked) as nat,
            checked: (self.checked - other.checked) as nat,
            queued: (self.queued - other.queued) as nat,
            errors: (self.errors - other.errors) as nat,
        }
    }

    /// Every counter times `factor`.
    pub open spec fn scaled(self, factor: nat) -> Counts {
        Counts {
            walked: self.walked * factor,
            checked: self.checked * factor,
            queued: self.queued * factor,
            errors: self.errors * factor,
        }
    }

    /// The quotient, counter by counter, rounded down; meant for `divisor > 0`.
    pub open spec fn divided(self, divisor: nat) -> Counts {
        Counts {
            walked: self.walked / divisor,
            checked: self.checked / divisor,
            queued: self.queued / divisor,
            errors: self.errors / divisor,
        }
    }

    /// No counter of `self` is above the same counter of `other`.
    pub open spec fn le(self, other: Counts) -> bool {
        &&& self.walked <= other.walked
        &&& self.checked <= other.checked
        &&& self.queued <= other.queued
        &&& self.errors <= other.errors
    }

    /// No counter is above `bound`.
    pub open spec fn within(self, bound: nat) -> bool {
        &&& self.walked <= bound
        &&& self.checked <= bound
        &&& self.queued <= bound
        &&& self.errors <= bound
    }

    /// The rate per second of these counts over `millis` milliseconds,
    /// rounded down; zero over no time at all.
    pub open spec fn per_second(self, millis: nat) -> Counts {
        if millis == 0 {
            Counts::zero()
        } else {
            self.scaled(MILLIS_PER_SEC as nat).divided(millis)
        }
    }
}

/// What one step of the walk did, as the walker tells it.
#[derive(Clone, Copy, Debug, PartialEq, Eq, Structural)]
pub struct StepStats {
    pub error_count: u64,
    pub num_expanded_new: u64,
    pub visited_of_type: u64,
}

impl StepStats {
    /// What a step with these statistics adds to the counters of its type,
    /// but for the step itself.
    pub open spec fn counts(self) -> Counts {
        Counts {
            walked: 0,
            checked: self.visited_of_type as nat,
            queued: self.num_expanded_new as nat,
            errors: self.error_count as nat,
        }
    }

    /// The statistics of a step that met `error_count` errors, found
    /// `num_expanded_new` new children and checked `visited_of_type` nodes of its type.
    pub fn new(error_count: u64, num_expanded_new: u64, visited_of_type: u64) -> (s: StepStats)
        ensures
            s.error_count == error_count,
            s.num_expanded_new == num_expanded_new,
            s.visited_of_type == visited_of_type,
    {
        StepStats { error_count, num_expanded_new, visited_of_type }
    }
}

impl Default for StepStats {
    /// The statistics of a step that did nothing.
    fn default() -> (s: StepStats)
        ensures
            s.counts() == Counts::zero(),
    {
        StepStats { error_count: 0, num_expanded_new: 0, visited_of_type: 0 }
    }
}

impl core::ops::Add for StepStats {
    type Output = StepStats;

    fn add(self, rhs: StepStats) -> (sum: StepStats) {
        StepStats {
            error_count: self.error_count + rhs.error_count,
            num_expanded_new: self.num_expanded_new + rhs.num_expanded_new,
            visited_of_type: self.visited_of_type + rhs.visited_of_type,
        }
    }
}

impl AddSpecImpl for StepStats {
    open spec fn obeys_add_spec() -> bool {
        true
    }

    open spec fn add_req(self, rhs: StepStats) -> bool {
        self.counts().plus(rhs.counts()).within(u64::MAX as nat)
    }

    open spec fn add_spec(self, rhs: StepStats) -> StepStats {
        StepStats {
            error_count: (self.error_count + rhs.error_count) as u64,
            num_expanded_new: (self.num_expanded_new + rhs.num_expanded_new) as u64,
            visited_of_type: (self.visited_of_type + rhs.visited_of_type) as u64,
        }
    }
}

/// What a step adds to the counters of its type: one walked node, and
/// the statistics, where there are any.
pub open spec fn step_counts(ss: Option<StepStats>) -> Counts {
    match ss {
        Some(s) => Counts { walked: 1, ..s.counts() },
        None => Counts { walked: 1, checked: 0, queued: 0, errors: 0 },
    }
}

/// The counters of a report: nodes walked, nodes checked, children queued, errors.
#[derive(Clone, Copy, Debug, PartialEq, Eq, Structural)]
pub struct ProgressSummary {
    pub walked: u64,
    pub checked: u64,
    pub queued: u64,
    pub errors: u64,
}

impl View for ProgressSummary {
    type V = Counts;

    open spec fn view(&self) -> Counts {
        Counts {
            walked: self.walked as nat,
            checked: self.checked as nat,
            queued: self.queued as nat,
            errors: self.errors as nat,
        }
    }
}

impl ProgressSummary {
    /// The summary with these counters.
    pub fn new(walked: u64, checked: u64, queued: u64, errors: u64) -> (s: ProgressSummary)
        ensures
            s.walked == walked,
            s.checked == checked,
            s.queued == queued,
            s.errors == errors,
    {
        ProgressSummary { walked, checked, queued, errors }
    }

    /// The summary of one type: `walked` steps, and what their statistics add up to.
    pub fn of_steps(walked: u64, stats: &StepStats) -> (s: ProgressSummary)
        ensures
            s@ == (Counts { walked: walked as nat, ..stats.counts() }),
    {
        ProgressSummary {
            walked,
            checked: stats.visited_of_type,
            queued: stats.num_expanded_new,
            errors: stats.error_count,
        }
    }

    /// The rate per second of this summary over `millis` milliseconds,
    /// rounded down. Over no time at all the rate is zero.
    pub fn per_second(self, millis: u128) -> (rate: ProgressSummary)
        requires
            self@.within(MAX_COUNT as nat),
        ensures
            rate@ == self@.per_second(millis as nat),
            millis == 0 ==> rate@ == Counts::zero(),
    {
        if millis == 0 {
            ProgressSummary::default()
        } else if millis > u64::MAX as u128 {
            proof {
                lemma_small_quotient(self.walked as nat, millis as nat);
                lemma_small_quotient(self.checked as nat, millis as nat);
                lemma_small_quotient(self.queued as nat, millis as nat);
                lemma_small_quotient(self.errors as nat, millis as nat);
            }
            ProgressSummary::default()
        } else {
            self * MILLIS_PER_SEC / (millis as u64)
        }
    }
}

/// A count within the limit, scaled and divided by more than 64 bits hold, gives zero.
proof fn lemma_small_quotient(count: nat, millis: nat)
    requires
        count <= MAX_COUNT,
        millis > u64::MAX,
    ensures
        (count * (MILLIS_PER_SEC as nat)) / millis == 0,
{
    let scaled = count * (MILLIS_PER_SEC as nat);
    assert(scaled < millis);
    vstd::arithmetic::div_mod::lemma_basic_div(scaled as int, millis as int);
}

impl Default for ProgressSummary {
    /// All counters at zero.
    fn default() -> (s: ProgressSummary)
        ensures
            s@ == Counts::zero(),
    {
        ProgressSummary { walked: 0, checked: 0, queued: 0, errors: 0 }
    }
}

impl core::ops::Add for ProgressSummary {
    type Output = ProgressSummary;

    fn add(self, rhs: ProgressSummary) -> (sum: ProgressSummary) {
        ProgressSummary {
            walked: self.walked + rhs.walked,
            checked: self.checked + rhs.checked,
            queued: self.queued + rhs.queued,
            errors: self.errors + rhs.errors,
        }
    }
}

impl AddSpecImpl for ProgressSummary {
    open spec fn obeys_add_spec() -> bool {
        true
    }

    open spec fn add_req(self, rhs: ProgressSummary) -> bool {
        self@.plus(rhs@).within(u64::MAX as nat)
    }

    open spec fn add_spec(self, rhs: ProgressSummary) -> ProgressSummary {
        ProgressSummary {
            walked: (self.walked + rhs.walked) as u64,
            checked: (self.checked + rhs.checked) as u64,
            queued: (self.queued + rhs.queued) as u64,
            errors: (self.errors + rhs.errors) as u64,
        }
    }
}

impl core::ops::Sub for ProgressSummary {
    type Output = ProgressSummary;

    fn sub(self, rhs: ProgressSummary) -> (difference: ProgressSummary) {
        ProgressSummary {
            walked: self.walked - rhs.walked,
            checked: self.checked - rhs.checked,
            queued: self.queued - rhs.queued,
            errors: self.errors - rhs.errors,
        }
    }
}

impl SubSpecImpl for ProgressSummary {
    open spec fn obeys_sub_spec() -> bool {
        true
    }

    open spec fn sub_req(self, rhs: ProgressSummary) -> bool {
        rhs@.le(self@)
    }

    open spec fn sub_spec(self, rhs: ProgressSummary) -> ProgressSummary {
        ProgressSummary {
            walked: (self.walked - rhs.walked) as u64,
            checked: (self.checked - rhs.checked) as u64,
            queued: (self.queued - rhs.queued) as u64,
            errors: (self.errors - rhs.errors) as u64,
        }
    }
}

impl core::ops::Mul<u64> for ProgressSummary {
    type Output = ProgressSummary;

    fn mul(self, rhs: u64) -> (product: ProgressSummary) {
        ProgressSummary {
            walked: self.walked * rhs,
            checked: self.checked * rhs,
            queued: self.queued * rhs,
            errors: self.errors * rhs,
        }
    }
}

impl MulSpecImpl<u64> for ProgressSummary {
    open spec fn obeys_mul_spec() -> bool {
        true
    }

    open spec fn mul_req(self, rhs: u64) -> bool {
        self@.scaled(rhs as nat).within(u64::MAX as nat)
    }

    open spec fn mul_spec(self, rhs: u64) -> ProgressSummary {
        ProgressSummary {
            walked: (self.walked * rhs) as u64,
            checked: (self.checked * rhs) as u64,
            queued: (self.queued * rhs) as u64,
            errors: (self.errors * rhs) as u64,
        }
    }
}

impl core::ops::Div<u64> for ProgressSummary {
    type Output = ProgressSummary;

    fn div(self, rhs: u64) -> (quotient: ProgressSummary) {
        ProgressSummary {
            walked: self.walked / rhs,
            checked: self.checked / rhs,
            queued: self.queued / rhs,
            errors: self.errors / rhs,
        }
    }
}

impl DivSpecImpl<u64> for ProgressSummary {
    open spec fn obeys_div_spec() -> bool {
        true
    }

    open spec fn div_req(self, rhs: u64) -> bool {
        rhs != 0
    }

    open spec fn div_spec(self, rhs: u64) -> ProgressSummary {
        ProgressSummary {
            walked: self.walked / rhs,
            checked: self.checked / rhs,
            queued: self.queued / rhs,
            errors: self.errors / rhs,
        }
    }
}

} // verus!
