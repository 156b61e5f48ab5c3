//! The trace of a sweep: one measured sample per bucket, in bucket order.

use vstd::prelude::*;
use crate::double::DoubleBits;
use crate::plan::OracleRequest;

verus! {

/// What the simulation measured in one batch of walks.
#[derive(Clone, Copy, Debug, PartialEq, Eq, Structural)]
pub struct Measurement {
    /// The observable, averaged over the walks of the batch.
    pub mean: DoubleBits,
    /// The sample variance of the observable over the walks of the batch.
    pub variance: DoubleBits,
}

/// One measured point of a trace.
#[derive(Clone, Copy, Debug, PartialEq, Eq, Structural)]
pub struct WalkResult {
    /// The number of steps of each walk.
    pub num_steps: i32,
    /// The number of independent walks that were averaged.
    pub num_walks: i64,
    /// The observable, averaged over the walks.
    pub mean: DoubleBits,
    /// The sample variance of the observable over the walks.
    pub variance: DoubleBits,
}

impl WalkResult {
    /// The sample stands for at least two walks of at least one step.
    pub open spec fn well_formed(self) -> bool {
        self.num_steps >= 1 && self.num_walks >= 2
    }

    /// Whether the sample stands for at least two walks of at least one step.
    pub fn is_well_formed(&self) -> (ok: bool)
        ensures
            ok == self.well_formed(),
    {
        self.num_steps >= 1 && self.num_walks >= 2
    }
}

/// The sample that a request yields when the simulation answers it with a
/// measurement: the walk length and walk count of the request, the mean and
/// variance of the answer.
pub open spec fn sample_of(request: OracleRequest, measured: Measurement) -> WalkResult {
    WalkResult {
        num_steps: request.spec_total_steps() as i32,
        num_walks: request.spec_num_walks(),
        mean: measured.mean,
        variance: measured.variance,
    }
}

/// The step counts of a run of samples, in order.
pub open spec fn steps_of(samples: Seq<WalkResult>) -> Seq<i32> {
    Seq::new(samples.len(), |i: int| samples[i].num_steps)
}

/// The samples of one sweep, in bucket order. Every sample in it is well
/// formed.
pub struct Trace {
    samples: Vec<WalkResult>,
}

impl View for Trace {
    type V = Seq<WalkResult>;

    closed spec fn view(&self) -> Seq<WalkResult> {
        self.samples@
    }
}

impl Trace {
    #[verifier::type_invariant]
    spec fn all_well_formed(self) -> bool {
        forall|i: int| 0 <= i < self.samples@.len() ==> (#[trigger] self.samples@[i]).well_formed()
    }

    /// A trace of samples that are known to be well formed.
    pub(crate) fn assemble(samples: Vec<WalkResult>) -> (trace: Trace)
        requires
            forall|i: int| 0 <= i < samples@.len() ==> (#[trigger] samples@[i]).well_formed(),
        ensures
            trace@ == samples@,
    {
        Trace { samples }
    }

    /// A trace of the given samples, in the given order; none where a sample
    /// is not well formed.
    pub fn from_samples(samples: Vec<WalkResult>) -> (trace: Option<Trace>)
        ensures
            trace is Some <==> forall|i: int|
                0 <= i < samples@.len() ==> (#[trigger] samples@[i]).well_formed(),
            trace matches Some(t) ==> t@ == samples@,
    {
        let mut i: usize = 0;
        while i < samples.len()
            invariant
                0 <= i <= samples@.len(),
                forall|j: int| 0 <= j < i ==> (#[trigger] samples@[j]).well_formed(),
            decreases samples@.len() - i,
        {
            if !samples[i].is_well_formed() {
                return None;
            }
            i = i + 1;
        }
        Some(Trace::assemble(samples))
    }

    /// The number of samples.
    pub fn len(&self) -> (n: usize)
        ensures
            n == self@.len(),
    {
        self.samples.len()
    }

    /// The samples, in bucket order.
    pub fn samples(&self) -> (samples: &Vec<WalkResult>)
        ensures
            samples@ == self@,
            forall|i: int| 0 <= i < samples@.len() ==> (#[trigger] samples@[i]).well_formed(),
    {
        proof {
            use_type_invariant(self);
        }
        &self.samples
    }

    /// The step counts of the samples, in bucket order.
    pub fn steps(&self) -> (steps: Vec<i32>)
        ensures
            steps@ == steps_of(self@),
    {
        let mut steps: Vec<i32> = Vec::new();
        let mut i: usize = 0;
        while i < self.samples.len()
            invariant
                0 <= i <= self.samples@.len(),
                steps@.len() == i,
                forall|j: int| 0 <= j < i ==> steps@[j] == self.samples@[j].num_steps,
            decreases self.samples@.len() - i,
        {
            steps.push(self.samples[i].num_steps);
            i = i + 1;
        }
        assert(steps@ =~= steps_of(self@));
        steps
    }

    /// The abscissas of the outline of a band drawn around the trace: the
    /// step counts in bucket order, for one edge of the band, and then in
    /// reverse, for the way back along the other edge.
    pub fn band_steps(&self) -> (outline: Vec<i32>)
        ensures
            outline@ == steps_of(self@) + steps_of(self@).reverse(),
    {
        let n: usize = self.samples.len();
        let mut outline: Vec<i32> = Vec::new();
        let mut i: usize = 0;
        while i < n
            invariant
                0 <= i <= n,
                n == self.samples@.len(),
                outline@.len() == i,
                forall|j: int| 0 <= j < i ==> outline@[j] == self.samples@[j].num_steps,
            decreases n - i,
        {
            outline.push(self.samples[i].num_steps);
            i = i + 1;
        }
        let mut k: usize = n;
        while k > 0
            invariant
                0 <= k <= n,
                n == self.samples@.len(),
                outline@.len() == n + (n - k),
                forall|j: int| 0 <= j < n ==> outline@[j] == self.samples@[j].num_steps,
                forall|j: int|
                    n <= j < outline@.len() ==> outline@[j] == self.samples@[2 * n - 1
                        - j].num_steps,
            decreases k,
        {
            k = k - 1;
            outline.push(self.samples[k].num_steps);
        }
        assert(outline@ =~= steps_of(self@) + steps_of(self@).reverse());
        outline
    }
}

} // verus!
