//! Building a trace: the requests of a plan are put to the simulation one by
//! one, and each answer either adds a sample or ends the whole trace.
//!
//! [`TraceBuilder`] holds the decisions, for a caller that talks to the
//! simulation itself. [`generate_walk`] and [`run_batch`] run the whole
//! exchange with a simulation that is given as a function.

use vstd::prelude::*;
use crate::plan::lemma_request_well_formed;
use crate::plan::requests_for;
use crate::plan::sweep_admitted;
use crate::plan::OracleRequest;
use crate::plan::Plan;
use crate::plan::WalkSetup;
use crate::planner::floor_walks;
use crate::planner::MIN_WALKS;
use crate::trace::sample_of;
use crate::trace::Measurement;
use crate::trace::Trace;
use crate::trace::WalkResult;

verus! {

/// One request of a sweep, with its place in the sweep.
#[derive(Clone, Copy, Debug, PartialEq, Eq, Structural)]
pub struct Turn {
    /// The position of the bucket in its sweep, counted from zero.
    pub position: usize,
    /// The number of buckets in the sweep.
    pub total: usize,
    /// What is asked of the simulation for this bucket.
    pub request: OracleRequest,
}

/// The simulation failed on a bucket, which ends the trace of that sweep.
#[derive(Debug, PartialEq, Eq)]
pub struct OracleError<E> {
    /// The position of the bucket in its sweep, counted from zero.
    pub bucket: usize,
    /// What the simulation reported.
    pub cause: E,
}

/// A trace under construction: the samples of the buckets answered so far.
/// At least one request of its plan is still open.
pub struct TraceBuilder<'a> {
    plan: &'a Plan,
    samples: Vec<WalkResult>,
}

/// Where the building of a trace stands.
pub enum Progress<'a, E> {
    /// The request of this turn is to be put to the simulation, and its
    /// answer handed to the builder.
    Ask(TraceBuilder<'a>, Turn),
    /// Every bucket was answered: the trace is complete.
    Done(Trace),
    /// The simulation failed: there is no trace.
    Aborted(OracleError<E>),
}

/// The turn of the `i`-th request of a plan.
pub open spec fn turn_at(plan: Seq<OracleRequest>, i: int) -> Turn {
    Turn { position: i as usize, total: plan.len() as usize, request: plan[i] }
}

/// The sample of a request that the simulation answered with `measured`.
fn make_sample(request: OracleRequest, measured: Measurement) -> (sample: WalkResult)
    requires
        request.well_formed(),
    ensures
        sample == sample_of(request, measured),
        sample.well_formed(),
{
    let num_steps: i32 = match request {
        OracleRequest::Walks { num_steps, .. } => num_steps,
        OracleRequest::BucketedWalks { num_buckets, steps_per_bucket, .. } => num_buckets
            * steps_per_bucket,
    };
    WalkResult {
        num_steps,
        num_walks: request.num_walks(),
        mean: measured.mean,
        variance: measured.variance,
    }
}

impl<'a> TraceBuilder<'a> {
    #[verifier::type_invariant]
    spec fn open_and_well_formed(self) -> bool {
        &&& self.samples@.len() < self.plan@.len()
        &&& forall|i: int|
            0 <= i < self.samples@.len() ==> (#[trigger] self.samples@[i]).well_formed()
    }

    /// The requests of the plan that is being carried out.
    pub closed spec fn plan(self) -> Seq<OracleRequest> {
        self.plan@
    }

    /// The samples of the buckets answered so far, in bucket order.
    pub closed spec fn samples(self) -> Seq<WalkResult> {
        self.samples@
    }

    /// Begins a trace. An empty plan is complete at once, with an empty
    /// trace; any other asks its first request.
    pub fn start<E>(plan: &'a Plan) -> (progress: Progress<'a, E>)
        ensures
            match progress {
                Progress::Ask(builder, turn) => {
                    &&& plan@.len() > 0
                    &&& builder.plan() == plan@
                    &&& builder.samples() == Seq::<WalkResult>::empty()
                    &&& turn == turn_at(plan@, 0)
                },
                Progress::Done(trace) => plan@.len() == 0 && trace@ == Seq::<WalkResult>::empty(),
                Progress::Aborted(_) => false,
            },
    {
        let samples: Vec<WalkResult> = Vec::new();
        let requests = plan.requests();
        if requests.len() == 0 {
            Progress::Done(Trace::assemble(samples))
        } else {
            let turn = Turn { position: 0, total: requests.len(), request: requests[0] };
            Progress::Ask(TraceBuilder { plan, samples }, turn)
        }
    }

    /// Takes the simulation's answer to the request that was asked last.
    ///
    /// A failure ends the trace: what was measured before is dropped, and the
    /// failure is reported with the position of its bucket. A measurement adds
    /// the sample of that bucket; after the last bucket the trace is
    /// complete, before it the next request is asked.
    pub fn step<E>(self, reply: Result<Measurement, E>) -> (progress: Progress<'a, E>)
        ensures
            match reply {
                Err(cause) => {
                    &&& progress matches Progress::Aborted(failure)
                    &&& failure.bucket == self.samples().len()
                    &&& failure.cause == cause
                },
                Ok(measured) => {
                    let answered = self.samples().len() as int;
                    let grown = self.samples().push(sample_of(self.plan()[answered], measured));
                    if answered + 1 == self.plan().len() {
                        progress matches Progress::Done(trace) && trace@ == grown
                    } else {
                        &&& progress matches Progress::Ask(builder, turn)
                        &&& builder.plan() == self.plan()
                        &&& builder.samples() == grown
                        &&& turn == turn_at(self.plan(), answered + 1)
                    }
                },
            },
    {
        proof {
            use_type_invariant(&self);
        }
        let TraceBuilder { plan, samples } = self;
        let mut samples = samples;
        let answered: usize = samples.len();
        match reply {
            Err(cause) => Progress::Aborted(OracleError { bucket: answered, cause }),
            Ok(measured) => {
                let requests = plan.requests();
                samples.push(make_sample(requests[answered], measured));
                if samples.len() == requests.len() {
                    Progress::Done(Trace::assemble(samples))
                } else {
                    let turn = Turn {
                        position: samples.len(),
                        total: requests.len(),
                        request: requests[samples.len()],
                    };
                    Progress::Ask(TraceBuilder { plan, samples }, turn)
                }
            },
        }
    }
}

/// The sample is what the `i`-th request of the plan yields for a
/// measurement that `ask` can answer its turn with.
pub open spec fn yields<E, F: Fn(Turn) -> Result<Measurement, E>>(
    ask: F,
    plan: Seq<OracleRequest>,
    i: int,
    sample: WalkResult,
) -> bool {
    exists|measured: Measurement|
        call_ensures(ask, (turn_at(plan, i),), Ok::<Measurement, E>(measured)) && sample
            == sample_of(plan[i], measured)
}

/// Every one of the samples is what the request in its place yields with
/// `ask`.
pub open spec fn answered_by<E, F: Fn(Turn) -> Result<Measurement, E>>(
    plan: Seq<OracleRequest>,
    ask: F,
    samples: Seq<WalkResult>,
) -> bool {
    &&& samples.len() <= plan.len()
    &&& forall|i: int| 0 <= i < samples.len() ==> #[trigger] yields(ask, plan, i, samples[i])
}

/// What carrying out a plan with `ask` can come to.
///
/// A trace holds one sample per request, in order, each made of its request
/// and of a measurement that `ask` can give for it. A failure names a turn
/// that `ask` can fail on in that way, all turns before it having been
/// answered with measurements.
pub open spec fn walk_outcome<E, F: Fn(Turn) -> Result<Measurement, E>>(
    plan: Seq<OracleRequest>,
    ask: F,
    outcome: Result<Trace, OracleError<E>>,
) -> bool {
    match outcome {
        Ok(trace) => trace@.len() == plan.len() && answered_by(plan, ask, trace@),
        Err(failure) => {
            &&& failure.bucket < plan.len()
            &&& call_ensures(
                ask,
                (turn_at(plan, failure.bucket as int),),
                Err::<Measurement, E>(failure.cause),
            )
            &&& exists|dropped: Seq<WalkResult>|
                dropped.len() == failure.bucket && #[trigger] answered_by(plan, ask, dropped)
        },
    }
}

/// `ask` can be called on every turn of the plan.
pub open spec fn can_ask<E, F: Fn(Turn) -> Result<Measurement, E>>(
    plan: Seq<OracleRequest>,
    ask: F,
) -> bool {
    forall|i: int| 0 <= i < plan.len() ==> call_requires(ask, (#[trigger] turn_at(plan, i),))
}

/// `ask` has at most one answer to each turn of the plan.
pub open spec fn single_valued<E, F: Fn(Turn) -> Result<Measurement, E>>(
    plan: Seq<OracleRequest>,
    ask: F,
) -> bool {
    forall|i: int, first: Result<Measurement, E>, second: Result<Measurement, E>|
        0 <= i < plan.len() && #[trigger] call_ensures(ask, (turn_at(plan, i),), first)
            && #[trigger] call_ensures(ask, (turn_at(plan, i),), second) ==> first == second
}

/// A turn on which `ask` can only fail ends the trace: whatever it answers
/// to the other turns, the plan comes to a failure, on that turn or before
/// it, and to no trace.
pub proof fn lemma_failure_ends_the_trace<E, F: Fn(Turn) -> Result<Measurement, E>>(
    plan: Seq<OracleRequest>,
    ask: F,
    failing: int,
    outcome: Result<Trace, OracleError<E>>,
)
    requires
        0 <= failing < plan.len(),
        forall|reply: Result<Measurement, E>| #[trigger]
            call_ensures(ask, (turn_at(plan, failing),), reply) ==> reply is Err,
        walk_outcome(plan, ask, outcome),
    ensures
        outcome is Err,
        outcome->Err_0.bucket <= failing,
{
    match outcome {
        Ok(trace) => {
            assert(yields(ask, plan, failing, trace@[failing]));
        },
        Err(failure) => {
            if failure.bucket > failing {
                let dropped = choose|dropped: Seq<WalkResult>|
                    dropped.len() == failure.bucket && #[trigger] answered_by(plan, ask, dropped);
                assert(yields(ask, plan, failing, dropped[failing]));
            }
        },
    }
}

/// With an `ask` that has at most one answer to each turn, a plan can come
/// to one outcome only: two traces hold the same samples, two failures are
/// the same failure, and there is not a trace and a failure.
pub proof fn lemma_outcome_unique<E, F: Fn(Turn) -> Result<Measurement, E>>(
    plan: Seq<OracleRequest>,
    ask: F,
    first: Result<Trace, OracleError<E>>,
    second: Result<Trace, OracleError<E>>,
)
    requires
        single_valued(plan, ask),
        walk_outcome(plan, ask, first),
        walk_outcome(plan, ask, second),
    ensures
        first is Ok <==> second is Ok,
        first matches Ok(a) ==> second matches Ok(b) && a@ == b@,
        first matches Err(a) ==> second matches Err(b) && a == b,
{
    match (first, second) {
        (Ok(a), Ok(b)) => {
            assert forall|i: int| 0 <= i < a@.len() implies a@[i] == b@[i] by {
                lemma_single_sample(plan, ask, i, a@[i], b@[i]);
            }
            assert(a@ =~= b@);
        },
        (Ok(a), Err(b)) => {
            lemma_failure_beyond_samples(plan, ask, a@, b);
        },
        (Err(a), Ok(b)) => {
            lemma_failure_beyond_samples(plan, ask, b@, a);
        },
        (Err(a), Err(b)) => {
            let dropped_a = choose|dropped: Seq<WalkResult>|
                dropped.len() == a.bucket && #[trigger] answered_by(plan, ask, dropped);
            let dropped_b = choose|dropped: Seq<WalkResult>|
                dropped.len() == b.bucket && #[trigger] answered_by(plan, ask, dropped);
            lemma_failure_beyond_samples(plan, ask, dropped_b, a);
            lemma_failure_beyond_samples(plan, ask, dropped_a, b);
            assert(a.bucket == b.bucket);
            assert(Err::<Measurement, E>(a.cause) == Err::<Measurement, E>(b.cause));
        },
    }
}

/// With an `ask` that has at most one answer to each turn, a request yields
/// one sample only.
proof fn lemma_single_sample<E, F: Fn(Turn) -> Result<Measurement, E>>(
    plan: Seq<OracleRequest>,
    ask: F,
    i: int,
    first: WalkResult,
    second: WalkResult,
)
    requires
        single_valued(plan, ask),
        0 <= i < plan.len(),
        yields(ask, plan, i, first),
        yields(ask, plan, i, second),
    ensures
        first == second,
{
    let m1 = choose|measured: Measurement|
        call_ensures(ask, (turn_at(plan, i),), Ok::<Measurement, E>(measured)) && first
            == sample_of(plan[i], measured);
    let m2 = choose|measured: Measurement|
        call_ensures(ask, (turn_at(plan, i),), Ok::<Measurement, E>(measured)) && second
            == sample_of(plan[i], measured);
    assert(Ok::<Measurement, E>(m1) == Ok::<Measurement, E>(m2));
}

/// With an `ask` that has at most one answer to each turn, no turn is both
/// answered with a sample and failed on: a failure lies beyond every
/// answered turn.
proof fn lemma_failure_beyond_samples<E, F: Fn(Turn) -> Result<Measurement, E>>(
    plan: Seq<OracleRequest>,
    ask: F,
    samples: Seq<WalkResult>,
    failure: OracleError<E>,
)
    requires
        single_valued(plan, ask),
        answered_by(plan, ask, samples),
        failure.bucket < plan.len(),
        call_ensures(
            ask,
            (turn_at(plan, failure.bucket as int),),
            Err::<Measurement, E>(failure.cause),
        ),
    ensures
        failure.bucket >= samples.len(),
{
    let i = failure.bucket as int;
    if i < samples.len() {
        assert(yields(ask, plan, i, samples[i]));
        let m = choose|measured: Measurement|
            call_ensures(ask, (turn_at(plan, i),), Ok::<Measurement, E>(measured)) && samples[i]
                == sample_of(plan[i], measured);
        assert(Ok::<Measurement, E>(m) == Err::<Measurement, E>(failure.cause));
    }
}

/// The samples of a sweep follow its buckets: each has the step budget of
/// the bucket in its place, and as many walks as that bucket's demand asks
/// for, but at least [`MIN_WALKS`].
pub proof fn lemma_samples_follow_sweep<E, F: Fn(Turn) -> Result<Measurement, E>>(
    setup: WalkSetup,
    buckets: Seq<i32>,
    demands: Seq<i64>,
    ask: F,
    samples: Seq<WalkResult>,
)
    requires
        sweep_admitted(setup, buckets, demands),
        answered_by(requests_for(setup, buckets, demands), ask, samples),
    ensures
        forall|i: int|
            0 <= i < samples.len() ==> {
                &&& (#[trigger] samples[i]).num_steps == setup.sampling.spec_total_steps(buckets[i])
                &&& samples[i].num_walks == floor_walks(demands[i] as int)
                &&& samples[i].num_walks >= MIN_WALKS
                &&& samples[i].well_formed()
            },
{
    let plan = requests_for(setup, buckets, demands);
    assert forall|i: int| 0 <= i < samples.len() implies {
        &&& (#[trigger] samples[i]).num_steps == setup.sampling.spec_total_steps(buckets[i])
        &&& samples[i].num_walks == floor_walks(demands[i] as int)
        &&& samples[i].num_walks >= MIN_WALKS
        &&& samples[i].well_formed()
    } by {
        assert(yields(ask, plan, i, samples[i]));
        assert(setup.sampling.admits(buckets[i]));
        lemma_request_well_formed(setup, buckets[i], demands[i]);
    }
}

/// The number of requests that are still to be asked, counting the one that
/// is being asked.
spec fn requests_left<E>(progress: Progress<'_, E>) -> nat {
    match progress {
        Progress::Ask(builder, _) => (builder.plan().len() - builder.samples().len()) as nat,
        Progress::Done(_) => 0,
        Progress::Aborted(_) => 0,
    }
}

/// Carries out a plan with a borrowed function.
fn walk_with<E, F: Fn(Turn) -> Result<Measurement, E>>(
    plan: &Plan,
    ask: &F,
) -> (outcome: Result<Trace, OracleError<E>>)
    requires
        can_ask(plan@, *ask),
    ensures
        walk_outcome(plan@, *ask, outcome),
{
    let mut progress: Progress<'_, E> = TraceBuilder::start(plan);
    loop
        invariant
            can_ask(plan@, *ask),
            match progress {
                Progress::Ask(builder, turn) => {
                    &&& builder.plan() == plan@
                    &&& builder.samples().len() < plan@.len()
                    &&& turn == turn_at(plan@, builder.samples().len() as int)
                    &&& answered_by(plan@, *ask, builder.samples())
                },
                Progress::Done(trace) => walk_outcome(
                    plan@,
                    *ask,
                    Ok::<Trace, OracleError<E>>(trace),
                ),
                Progress::Aborted(failure) => walk_outcome(
                    plan@,
                    *ask,
                    Err::<Trace, OracleError<E>>(failure),
                ),
            },
        decreases requests_left(progress),
    {
        match progress {
            Progress::Ask(builder, turn) => {
                let ghost before = builder.samples();
                let reply = ask(turn);
                let ghost answer = reply;
                progress = builder.step(reply);
                proof {
                    if let Ok(measured) = answer {
                        let grown = before.push(sample_of(turn.request, measured));
                        assert forall|i: int| 0 <= i < grown.len() implies #[trigger] yields(
                            *ask,
                            plan@,
                            i,
                            grown[i],
                        ) by {
                            if i < before.len() {
                                assert(yields(*ask, plan@, i, before[i]));
                            }
                        }
                    }
                }
            },
            Progress::Done(trace) => {
                return Ok(trace);
            },
            Progress::Aborted(failure) => {
                return Err(failure);
            },
        }
    }
}

/// Carries out a plan: calls `ask` on its turns in order, and returns the
/// trace of the answers. The first failure ends the run, and is returned in
/// place of a trace.
pub fn generate_walk<E, F: Fn(Turn) -> Result<Measurement, E>>(
    plan: &Plan,
    ask: F,
) -> (outcome: Result<Trace, OracleError<E>>)
    requires
        can_ask(plan@, ask),
    ensures
        walk_outcome(plan@, ask, outcome),
{
    walk_with(plan, &ask)
}

/// Carries out several plans one after the other, each on its own: the
/// failure of one sweep leaves the others untouched. The outcomes come in
/// the order of the plans.
pub fn run_batch<E, F: Fn(Turn) -> Result<Measurement, E>>(
    plans: &Vec<Plan>,
    ask: F,
) -> (outcomes: Vec<Result<Trace, OracleError<E>>>)
    requires
        forall|k: int| 0 <= k < plans@.len() ==> can_ask((#[trigger] plans@[k])@, ask),
    ensures
        outcomes@.len() == plans@.len(),
        forall|k: int|
            0 <= k < plans@.len() ==> walk_outcome(plans@[k]@, ask, #[trigger] outcomes@[k]),
{
    let mut outcomes: Vec<Result<Trace, OracleError<E>>> = Vec::new();
    let mut k: usize = 0;
    while k < plans.len()
        invariant
            0 <= k <= plans@.len(),
            outcomes@.len() == k,
            forall|k: int| 0 <= k < plans@.len() ==> can_ask((#[trigger] plans@[k])@, ask),
            forall|j: int| 0 <= j < k ==> walk_outcome(plans@[j]@, ask, #[trigger] outcomes@[j]),
        decreases plans@.len() - k,
    {
        let outcome = walk_with(&plans[k], &ask);
        outcomes.push(outcome);
        k = k + 1;
    }
    outcomes
}

} // verus!
