//! Usage percentages and the delta sampling that produces them.

use vstd::prelude::*;

verus! {

/// Number of basis points (hundredths of a percent) in one hundred percent.
pub const FULL_SCALE: u32 = 10_000;

/// Busy share of an interval, in basis points, clamped to `[0, FULL_SCALE]`.
///
/// `busy_delta` is the busy time accumulated over the interval, `elapsed` the
/// wall time of the interval in the same unit, and `cores` the number of
/// processors that the busy time is spread over. An interval that carries no
/// information (no busy time, no elapsed time, no processor) has share zero.
pub open spec fn busy_share(busy_delta: int, elapsed: int, cores: int) -> int {
    if busy_delta <= 0 || elapsed <= 0 || cores <= 0 {
        0
    } else if busy_delta * 10_000 / (elapsed * cores) >= 10_000 {
        10_000
    } else {
        busy_delta * 10_000 / (elapsed * cores)
    }
}

/// The share is always a valid percentage.
pub proof fn lemma_busy_share_in_range(busy_delta: int, elapsed: int, cores: int)
    ensures
        0 <= busy_share(busy_delta, elapsed, cores) <= 10_000,
{
    if busy_delta > 0 && elapsed > 0 && cores > 0 {
        assert(elapsed * cores > 0) by (nonlinear_arith)
            requires
                elapsed > 0,
                cores > 0,
        ;
        assert(busy_delta * 10_000 / (elapsed * cores) >= 0) by (nonlinear_arith)
            requires
                busy_delta > 0,
                elapsed * cores > 0,
        ;
    }
}

/// A percentage between 0 and 100, held in basis points.
#[derive(Clone, Copy, Debug, PartialEq, Eq, Structural)]
pub struct UsagePercentage {
    basis_points: u32,
}

impl View for UsagePercentage {
    type V = int;

    /// The percentage in basis points.
    closed spec fn view(&self) -> int {
        self.basis_points as int
    }
}

impl UsagePercentage {
    /// No value of this type is above one hundred percent.
    #[verifier::type_invariant]
    spec fn in_range(self) -> bool {
        self.basis_points <= 10_000
    }

    /// The value lies between 0 and 100 percent.
    pub open spec fn wf(&self) -> bool {
        0 <= self@ <= 10_000
    }

    /// Zero percent: the value of a series that has no data yet.
    pub fn zero() -> (r: UsagePercentage)
        ensures
            r@ == 0,
            r.wf(),
    {
        UsagePercentage { basis_points: 0 }
    }

    /// A percentage from its basis points; `None` above one hundred percent.
    pub fn from_basis_points(basis_points: u32) -> (r: Option<UsagePercentage>)
        ensures
            r is Some <==> basis_points <= 10_000,
            r matches Some(u) ==> u@ == basis_points && u.wf(),
    {
        if basis_points <= FULL_SCALE {
            Some(UsagePercentage { basis_points })
        } else {
            None
        }
    }

    /// The percentage in basis points: at most `FULL_SCALE`.
    pub fn basis_points(&self) -> (r: u32)
        ensures
            r == self@,
            r <= 10_000,
            self.wf(),
    {
        proof {
            use_type_invariant(self);
        }
        self.basis_points
    }

    /// The percentage rounded down to a whole number: at most 100.
    pub fn whole_percent(&self) -> (r: u32)
        ensures
            r == self@ / 100,
            r <= 100,
    {
        proof {
            use_type_invariant(self);
        }
        self.basis_points / 100
    }

    /// The busy share of the interval between two samples of one series, taken
    /// over `cores` processors. Without an earlier sample the result is zero.
    pub fn between(previous: Option<Sample>, current: Sample, cores: u64) -> (r: UsagePercentage)
        ensures
            r@ == usage_between(previous, current, cores as int),
            r.wf(),
    {
        match previous {
            None => UsagePercentage::zero(),
            Some(earlier) => {
                if current.busy <= earlier.busy || current.at <= earlier.at || cores == 0 {
                    UsagePercentage::zero()
                } else {
                    let delta: u128 = (current.busy - earlier.busy) as u128;
                    let elapsed: u128 = (current.at - earlier.at) as u128;
                    let spread: u128 = cores as u128;
                    assert(elapsed * spread <= 0xffff_ffff_ffff_ffff * 0xffff_ffff_ffff_ffff
                        && elapsed * spread > 0) by (nonlinear_arith)
                        requires
                            0 < elapsed <= 0xffff_ffff_ffff_ffff,
                            0 < spread <= 0xffff_ffff_ffff_ffff,
                    ;
                    let capacity: u128 = elapsed * spread;
                    let scaled: u128 = delta * 10_000;
                    let share: u128 = scaled / capacity;
                    proof {
                        lemma_busy_share_in_range(
                            current.busy - earlier.busy,
                            current.at - earlier.at,
                            cores as int,
                        );
                    }
                    if share >= 10_000 {
                        UsagePercentage { basis_points: FULL_SCALE }
                    } else {
                        UsagePercentage { basis_points: share as u32 }
                    }
                }
            },
        }
    }
}

/// One reading of a cumulative busy-time counter: the busy time accumulated so
/// far and the instant of the reading, both in the counter's tick unit.
#[derive(Clone, Copy, Debug, PartialEq, Eq, Structural)]
pub struct Sample {
    pub busy: u64,
    pub at: u64,
}

/// Usage that two successive samples of one series give, in basis points. The
/// first sample of a series has nothing to be compared with and gives zero.
pub open spec fn usage_between(previous: Option<Sample>, current: Sample, cores: int) -> int {
    match previous {
        None => 0,
        Some(earlier) => busy_share(current.busy - earlier.busy, current.at - earlier.at, cores),
    }
}

/// The state of one tracked series: the sample that the next one is compared
/// with.
#[derive(Clone, Copy, Debug)]
pub struct UsageTracker {
    previous: Option<Sample>,
}

impl View for UsageTracker {
    type V = Option<Sample>;

    /// The last sample observed, if any.
    closed spec fn view(&self) -> Option<Sample> {
        self.previous
    }
}

impl UsageTracker {
    /// A series of which nothing was observed yet.
    pub fn new() -> (r: UsageTracker)
        ensures
            r@ is None,
    {
        UsageTracker { previous: None }
    }

    /// The last sample observed, if any.
    pub fn previous(&self) -> (r: Option<Sample>)
        ensures
            r == self@,
    {
        self.previous
    }

    /// Takes the next sample of the series and returns the usage since the
    /// sample before it. The new sample replaces the retained one.
    pub fn observe(&mut self, busy: u64, now: u64, cores: u64) -> (r: UsagePercentage)
        ensures
            r@ == usage_between(old(self)@, Sample { busy, at: now }, cores as int),
            r.wf(),
            final(self)@ == Some(Sample { busy, at: now }),
    {
        let current = Sample { busy, at: now };
        let usage = UsagePercentage::between(self.previous, current, cores);
        self.previous = Some(current);
        usage
    }
}

/// The first sample of any series yields exactly zero, whatever it holds.
pub proof fn lemma_first_sample_is_zero(current: Sample, cores: int)
    ensures
        usage_between(None, current, cores) == 0,
{
}

/// Usage derived from samples is always between 0 and 100 percent.
pub proof fn lemma_usage_in_range(previous: Option<Sample>, current: Sample, cores: int)
    ensures
        0 <= usage_between(previous, current, cores) <= 10_000,
{
    if let Some(earlier) = previous {
        lemma_busy_share_in_range(current.busy - earlier.busy, current.at - earlier.at, cores);
    }
}

} // verus!
