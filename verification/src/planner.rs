//! The cost of a bucket in steps, and the number of walks it is given.

use vstd::prelude::*;

verus! {

/// The least number of independent walks that any bucket is given.
pub const MIN_WALKS: i64 = 500;

/// The number of walks for a bucket whose step budget asks for `demand` of
/// them: the demand itself, but never less than [`MIN_WALKS`].
pub open spec fn floor_walks(demand: int) -> int {
    if demand < MIN_WALKS {
        MIN_WALKS as int
    } else {
        demand
    }
}

/// The number of walks to run for a bucket, given the number that its step
/// budget asks for.
pub fn walk_count(demand: i64) -> (walks: i64)
    ensures
        walks == floor_walks(demand as int),
        walks >= MIN_WALKS,
        walks >= demand,
{
    if demand < MIN_WALKS {
        MIN_WALKS
    } else {
        demand
    }
}

/// The number of walks never falls below [`MIN_WALKS`], nor below the
/// demand.
pub proof fn lemma_walk_count_floor(demand: int)
    ensures
        floor_walks(demand) >= MIN_WALKS,
        floor_walks(demand) >= demand,
        floor_walks(demand) == demand || floor_walks(demand) == MIN_WALKS,
{
}

/// A larger demand never gets fewer walks.
pub proof fn lemma_walk_count_monotone(smaller: int, larger: int)
    requires
        smaller <= larger,
    ensures
        floor_walks(smaller) <= floor_walks(larger),
{
}

/// How the buckets of a sweep are turned into simulation requests.
#[derive(Clone, Copy, Debug, PartialEq, Eq, Structural)]
pub enum Sampling {
    /// A bucket is the length of each walk.
    Direct,
    /// A bucket is a number of samples, each `steps_per_sample` steps long.
    Bucketed { steps_per_sample: i32 },
}

impl Sampling {
    /// The number of steps that one walk of a bucket takes in all.
    pub open spec fn spec_total_steps(self, bucket: i32) -> int {
        match self {
            Sampling::Direct => bucket as int,
            Sampling::Bucketed { steps_per_sample } => bucket * steps_per_sample,
        }
    }

    /// The bucket can be simulated: it is at least one, so is the number of
    /// steps per sample where there is one, and the total fits an `i32`.
    pub open spec fn admits(self, bucket: i32) -> bool {
        &&& bucket >= 1
        &&& self matches Sampling::Bucketed { steps_per_sample } ==> steps_per_sample >= 1
        &&& self.spec_total_steps(bucket) <= i32::MAX
    }

    /// The step budget of a bucket: the number of steps that one of its walks
    /// takes in all, or nothing for a bucket that cannot be simulated.
    pub fn total_steps(&self, bucket: i32) -> (total: Option<i32>)
        ensures
            total == if self.admits(bucket) {
                Some(self.spec_total_steps(bucket) as i32)
            } else {
                None
            },
    {
        if bucket < 1 {
            return None;
        }
        match *self {
            Sampling::Direct => Some(bucket),
            Sampling::Bucketed { steps_per_sample } => {
                if steps_per_sample < 1 {
                    return None;
                }
                assert(0 < bucket * steps_per_sample <= 0x4000_0000_0000_0000)
                    by (nonlinear_arith)
                    requires
                        1 <= bucket < 0x8000_0000,
                        1 <= steps_per_sample < 0x8000_0000,
                ;
                let total: i64 = (bucket as i64) * (steps_per_sample as i64);
                if total <= i32::MAX as i64 {
                    Some(total as i32)
                } else {
                    None
                }
            },
        }
    }

    /// An admitted bucket has a step budget of at least one.
    pub proof fn lemma_total_steps_positive(self, bucket: i32)
        requires
            self.admits(bucket),
        ensures
            1 <= self.spec_total_steps(bucket) <= i32::MAX,
    {
        if let Sampling::Bucketed { steps_per_sample } = self {
            assert(bucket * steps_per_sample >= 1) by (nonlinear_arith)
                requires
                    bucket >= 1,
                    steps_per_sample >= 1,
            ;
        }
    }
}

} // verus!
