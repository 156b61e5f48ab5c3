//! The sequencing core of a random-walk scaling experiment.
//!
//! An experiment sweeps a range of walk lengths (the buckets), asks a
//! simulation for the mean displacement of many independent walks of each
//! length, and fits a power law to the trace of those means. This library
//! holds the parts of that pipeline that are decided by counting:
//!
//! - [`sequence`]: the arithmetic sweep of step counts;
//! - [`planner`]: the step budget of a bucket, and the floor on the number
//!   of walks it is given;
//! - [`plan`]: the schedule of a sweep, one simulation request per bucket;
//! - [`builder`]: the exchange with the simulation, which ends in a trace
//!   or, on the first failure, in none;
//! - [`trace`]: the trace itself;
//! - [`fit`]: whether a trace can be fitted at all;
//! - [`kinds`]: the walk, lattice and sweep kinds, with their codes and
//!   names.
//!
//! Measured quantities are double-precision numbers. They pass through the
//! library untouched, as bit patterns (see [`double`]); roots, logarithms
//! and the least-squares fit itself are the caller's to compute.

pub mod builder;
pub mod double;
pub mod fit;
pub mod kinds;
pub mod plan;
pub mod planner;
pub mod sequence;
pub mod trace;
