//! The schedule of a sweep: one simulation request per bucket, in bucket
//! order.

use vstd::prelude::*;
use crate::kinds::GridType;
use crate::kinds::WalkType;
use crate::planner::floor_walks;
use crate::planner::walk_count;
use crate::planner::Sampling;
use crate::planner::MIN_WALKS;
use crate::sequence::arithm_term;
use crate::sequence::lemma_arithm_monotone;

verus! {

/// What every request of one sweep has in common.
#[derive(Clone, Copy, Debug, PartialEq, Eq, Structural)]
pub struct WalkSetup {
    /// The seed that the simulation draws its randomness from.
    pub seed: i32,
    pub walk_type: WalkType,
    pub grid_type: GridType,
    pub sampling: Sampling,
}

/// One call of the simulation: a batch of independent walks of one length.
#[derive(Clone, Copy, Debug, PartialEq, Eq, Structural)]
pub enum OracleRequest {
    /// `num_walks` walks of `num_steps` steps each.
    Walks { seed: i32, walk_type: WalkType, grid_type: GridType, num_walks: i64, num_steps: i32 },
    /// `num_walks` walks of `num_buckets` samples each, a sample being
    /// `steps_per_bucket` steps long.
    BucketedWalks {
        seed: i32,
        walk_type: WalkType,
        grid_type: GridType,
        num_walks: i64,
        num_buckets: i32,
        steps_per_bucket: i32,
    },
}

impl OracleRequest {
    /// The number of walks asked for.
    pub open spec fn spec_num_walks(self) -> i64 {
        match self {
            OracleRequest::Walks { num_walks, .. } => num_walks,
            OracleRequest::BucketedWalks { num_walks, .. } => num_walks,
        }
    }

    /// The number of steps that each walk takes in all.
    pub open spec fn spec_total_steps(self) -> int {
        match self {
            OracleRequest::Walks { num_steps, .. } => num_steps as int,
            OracleRequest::BucketedWalks { num_buckets, steps_per_bucket, .. } => num_buckets
                * steps_per_bucket,
        }
    }

    /// The request asks for at least [`MIN_WALKS`] walks of at least one
    /// step, and the steps of a walk can be counted in an `i32`.
    pub open spec fn well_formed(self) -> bool {
        &&& self.spec_num_walks() >= MIN_WALKS
        &&& 1 <= self.spec_total_steps() <= i32::MAX
        &&& self matches OracleRequest::BucketedWalks { num_buckets, steps_per_bucket, .. }
            ==> num_buckets >= 1 && steps_per_bucket >= 1
    }

    /// The number of walks asked for.
    pub fn num_walks(&self) -> (walks: i64)
        ensures
            walks == self.spec_num_walks(),
    {
        match *self {
            OracleRequest::Walks { num_walks, .. } => num_walks,
            OracleRequest::BucketedWalks { num_walks, .. } => num_walks,
        }
    }
}

/// The request that a sweep makes for one bucket, given the number of walks
/// that the bucket's step budget asks for.
pub open spec fn request_for(setup: WalkSetup, bucket: i32, demand: i64) -> OracleRequest {
    match setup.sampling {
        Sampling::Direct => OracleRequest::Walks {
            seed: setup.seed,
            walk_type: setup.walk_type,
            grid_type: setup.grid_type,
            num_walks: floor_walks(demand as int) as i64,
            num_steps: bucket,
        },
        Sampling::Bucketed { steps_per_sample } => OracleRequest::BucketedWalks {
            seed: setup.seed,
            walk_type: setup.walk_type,
            grid_type: setup.grid_type,
            num_walks: floor_walks(demand as int) as i64,
            num_buckets: bucket,
            steps_per_bucket: steps_per_sample,
        },
    }
}

/// Makes the request of a sweep for one bucket.
fn make_request(setup: &WalkSetup, bucket: i32, demand: i64) -> (request: OracleRequest)
    ensures
        request == request_for(*setup, bucket, demand),
{
    let num_walks: i64 = walk_count(demand);
    match setup.sampling {
        Sampling::Direct => OracleRequest::Walks {
            seed: setup.seed,
            walk_type: setup.walk_type,
            grid_type: setup.grid_type,
            num_walks,
            num_steps: bucket,
        },
        Sampling::Bucketed { steps_per_sample } => OracleRequest::BucketedWalks {
            seed: setup.seed,
            walk_type: setup.walk_type,
            grid_type: setup.grid_type,
            num_walks,
            num_buckets: bucket,
            steps_per_bucket: steps_per_sample,
        },
    }
}

/// The requests of a whole sweep, one per bucket and in bucket order.
pub open spec fn requests_for(setup: WalkSetup, buckets: Seq<i32>, demands: Seq<i64>) -> Seq<
    OracleRequest,
> {
    Seq::new(buckets.len(), |i: int| request_for(setup, buckets[i], demands[i]))
}

/// The sweep can be scheduled: there is one demand per bucket, and every
/// bucket can be simulated.
pub open spec fn sweep_admitted(setup: WalkSetup, buckets: Seq<i32>, demands: Seq<i64>) -> bool {
    &&& buckets.len() == demands.len()
    &&& forall|i: int| 0 <= i < buckets.len() ==> setup.sampling.admits(#[trigger] buckets[i])
}

/// The demands are what a planner can answer, bucket by bucket, when it is
/// given the step budget of the bucket.
pub open spec fn planned_by<P: Fn(i32) -> i64>(
    setup: WalkSetup,
    buckets: Seq<i32>,
    planner: P,
    demands: Seq<i64>,
) -> bool {
    &&& demands.len() == buckets.len()
    &&& forall|i: int|
        0 <= i < buckets.len() ==> call_ensures(
            planner,
            (setup.sampling.spec_total_steps(buckets[i]) as i32,),
            #[trigger] demands[i],
        )
}

/// The request for an admitted bucket is well formed.
pub proof fn lemma_request_well_formed(setup: WalkSetup, bucket: i32, demand: i64)
    requires
        setup.sampling.admits(bucket),
    ensures
        request_for(setup, bucket, demand).well_formed(),
        request_for(setup, bucket, demand).spec_total_steps() == setup.sampling.spec_total_steps(
            bucket,
        ),
        request_for(setup, bucket, demand).spec_num_walks() == floor_walks(demand as int),
{
    setup.sampling.lemma_total_steps_positive(bucket);
}

/// The terms of an arithmetic sweep that starts at one or above and never
/// steps down can all be simulated as walk lengths.
pub proof fn lemma_rising_sweep_admitted(init: int, step: int, i: int, bucket: i32)
    requires
        init >= 1,
        step >= 0,
        i >= 0,
        bucket == arithm_term(init, step, i),
    ensures
        Sampling::Direct.admits(bucket),
{
    lemma_arithm_monotone(init, step, 0, i);
}

/// The schedule of one sweep. Every request in it is well formed.
pub struct Plan {
    requests: Vec<OracleRequest>,
}

impl View for Plan {
    type V = Seq<OracleRequest>;

    closed spec fn view(&self) -> Seq<OracleRequest> {
        self.requests@
    }
}

impl Plan {
    #[verifier::type_invariant]
    spec fn all_well_formed(self) -> bool {
        forall|i: int|
            0 <= i < self.requests@.len() ==> (#[trigger] self.requests@[i]).well_formed()
    }

    /// Schedules a sweep: for each bucket, in order, the request for as many
    /// walks as the bucket's demand asks for, but at least [`MIN_WALKS`].
    /// There is no schedule where the demands are not one per bucket, or
    /// where a bucket cannot be simulated.
    pub fn new(setup: &WalkSetup, buckets: &Vec<i32>, demands: &Vec<i64>) -> (plan: Option<Plan>)
        ensures
            plan is Some <==> sweep_admitted(*setup, buckets@, demands@),
            plan matches Some(p) ==> p@ == requests_for(*setup, buckets@, demands@),
    {
        if buckets.len() != demands.len() {
            return None;
        }
        let mut requests: Vec<OracleRequest> = Vec::new();
        let mut i: usize = 0;
        while i < buckets.len()
            invariant
                0 <= i <= buckets@.len(),
                buckets@.len() == demands@.len(),
                requests@.len() == i,
                forall|j: int| 0 <= j < i ==> setup.sampling.admits(#[trigger] buckets@[j]),
                forall|j: int|
                    0 <= j < i ==> #[trigger] requests@[j] == request_for(
                        *setup,
                        buckets@[j],
                        demands@[j],
                    ),
            decreases buckets@.len() - i,
        {
            if setup.sampling.total_steps(buckets[i]).is_none() {
                return None;
            }
            let request = make_request(setup, buckets[i], demands[i]);
            requests.push(request);
            i = i + 1;
        }
        proof {
            assert(requests@ =~= requests_for(*setup, buckets@, demands@));
            assert forall|j: int| 0 <= j < requests@.len() implies (
            #[trigger] requests@[j]).well_formed() by {
                lemma_request_well_formed(*setup, buckets@[j], demands@[j]);
            }
        }
        Some(Plan { requests })
    }

    /// Schedules a sweep with a planner, a function that is given the step
    /// budget of a bucket and answers with the number of walks to ask for:
    /// the schedule is that of [`Plan::new`] for the planner's answers.
    /// There is no schedule where a bucket cannot be simulated.
    pub fn with_planner<P: Fn(i32) -> i64>(
        setup: &WalkSetup,
        buckets: &Vec<i32>,
        planner: P,
    ) -> (plan: Option<Plan>)
        requires
            forall|i: int|
                0 <= i < buckets@.len() && setup.sampling.admits(#[trigger] buckets@[i])
                    ==> call_requires(
                    planner,
                    (setup.sampling.spec_total_steps(buckets@[i]) as i32,),
                ),
        ensures
            plan is Some <==> forall|i: int|
                0 <= i < buckets@.len() ==> setup.sampling.admits(#[trigger] buckets@[i]),
            plan matches Some(p) ==> exists|demands: Seq<i64>| #[trigger]
                planned_by(*setup, buckets@, planner, demands) && p@ == requests_for(
                    *setup,
                    buckets@,
                    demands,
                ),
    {
        let mut demands: Vec<i64> = Vec::new();
        let mut i: usize = 0;
        while i < buckets.len()
            invariant
                0 <= i <= buckets@.len(),
                demands@.len() == i,
                forall|j: int|
                    0 <= j < buckets@.len() && setup.sampling.admits(#[trigger] buckets@[j])
                        ==> call_requires(
                        planner,
                        (setup.sampling.spec_total_steps(buckets@[j]) as i32,),
                    ),
                forall|j: int| 0 <= j < i ==> setup.sampling.admits(#[trigger] buckets@[j]),
                forall|j: int|
                    0 <= j < i ==> call_ensures(
                        planner,
                        (setup.sampling.spec_total_steps(buckets@[j]) as i32,),
                        #[trigger] demands@[j],
                    ),
            decreases buckets@.len() - i,
        {
            match setup.sampling.total_steps(buckets[i]) {
                None => {
                    return None;
                },
                Some(total) => {
                    let demand: i64 = planner(total);
                    demands.push(demand);
                },
            }
            i = i + 1;
        }
        assert(planned_by(*setup, buckets@, planner, demands@));
        Plan::new(setup, buckets, &demands)
    }

    /// The number of requests.
    pub fn len(&self) -> (n: usize)
        ensures
            n == self@.len(),
    {
        self.requests.len()
    }

    /// The requests, in bucket order.
    pub fn requests(&self) -> (requests: &Vec<OracleRequest>)
        ensures
            requests@ == self@,
            forall|i: int| 0 <= i < requests@.len() ==> (#[trigger] requests@[i]).well_formed(),
    {
        proof {
            use_type_invariant(self);
        }
        &self.requests
    }
}

} // verus!
