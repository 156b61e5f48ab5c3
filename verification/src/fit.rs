//! Whether a trace can be fitted with a power law.
//!
//! The fit is a straight line through the points `(ln steps, ln mean)` of a
//! trace. It is undefined where a mean has no logarithm, and undetermined
//! where the points do not span two distinct abscissas. Both are decided
//! here, before any logarithm is taken.

use vstd::prelude::*;
use crate::trace::Trace;
use crate::trace::WalkResult;

verus! {

/// Why a trace has no fit.
#[derive(Clone, Copy, Debug, PartialEq, Eq, Structural)]
pub enum FitError {
    /// A sample has a mean of zero or less, which has no logarithm.
    InvalidObservable,
    /// There are fewer than two samples, or all samples have the same
    /// number of steps: no line is determined.
    DegenerateFit,
}

/// Some sample of the run has a mean of zero or less.
pub open spec fn has_non_positive_mean(samples: Seq<WalkResult>) -> bool {
    exists|i: int| 0 <= i < samples.len() && (#[trigger] samples[i]).mean.is_non_positive()
}

/// All samples of the run have the same number of steps.
pub open spec fn single_abscissa(samples: Seq<WalkResult>) -> bool {
    forall|i: int, j: int|
        0 <= i < samples.len() && 0 <= j < samples.len() ==> (#[trigger] samples[i]).num_steps == (
        #[trigger] samples[j]).num_steps
}

/// The verdict on a run of samples: a non-positive mean makes the
/// observable invalid; otherwise fewer than two samples, or a single
/// abscissa, make the fit degenerate; otherwise the run can be fitted.
pub open spec fn fit_verdict(samples: Seq<WalkResult>) -> Result<(), FitError> {
    if has_non_positive_mean(samples) {
        Err(FitError::InvalidObservable)
    } else if samples.len() < 2 || single_abscissa(samples) {
        Err(FitError::DegenerateFit)
    } else {
        Ok(())
    }
}

/// Decides whether a trace can be fitted, and if not, why not.
pub fn check_log_fit(trace: &Trace) -> (verdict: Result<(), FitError>)
    ensures
        verdict == fit_verdict(trace@),
{
    let samples = trace.samples();
    let n: usize = samples.len();
    let mut i: usize = 0;
    while i < n
        invariant
            0 <= i <= n,
            n == samples@.len(),
            samples@ == trace@,
            forall|j: int| 0 <= j < i ==> !(#[trigger] samples@[j]).mean.is_non_positive(),
        decreases n - i,
    {
        if samples[i].mean.non_positive() {
            return Err(FitError::InvalidObservable);
        }
        i = i + 1;
    }
    if n < 2 {
        return Err(FitError::DegenerateFit);
    }
    let first: i32 = samples[0].num_steps;
    let mut k: usize = 1;
    while k < n
        invariant
            1 <= k <= n,
            n == samples@.len(),
            samples@ == trace@,
            !has_non_positive_mean(trace@),
            first == samples@[0].num_steps,
            forall|j: int| 0 <= j < k ==> (#[trigger] samples@[j]).num_steps == first,
        decreases n - k,
    {
        if samples[k].num_steps != first {
            assert(samples@[k as int].num_steps != samples@[0].num_steps);
            return Ok(());
        }
        k = k + 1;
    }
    Err(FitError::DegenerateFit)
}

/// A run of fewer than two samples, none of which has a non-positive mean,
/// is degenerate.
pub proof fn lemma_short_trace_is_degenerate(samples: Seq<WalkResult>)
    requires
        samples.len() < 2,
        !has_non_positive_mean(samples),
    ensures
        fit_verdict(samples) == Err::<(), FitError>(FitError::DegenerateFit),
{
}

/// A run that holds a sample with a non-positive mean has an invalid
/// observable, whatever else it holds.
pub proof fn lemma_non_positive_mean_is_invalid(samples: Seq<WalkResult>, i: int)
    requires
        0 <= i < samples.len(),
        samples[i].mean.is_non_positive(),
    ensures
        fit_verdict(samples) == Err::<(), FitError>(FitError::InvalidObservable),
{
}

/// A run can be fitted exactly when no mean is non-positive and two of its
/// samples differ in their number of steps.
pub proof fn lemma_fit_admitted(samples: Seq<WalkResult>)
    ensures
        fit_verdict(samples) is Ok <==> !has_non_positive_mean(samples) && exists|i: int, j: int|
            0 <= i < samples.len() && 0 <= j < samples.len() && (#[trigger] samples[i]).num_steps
                != (#[trigger] samples[j]).num_steps,
{
}

} // verus!
