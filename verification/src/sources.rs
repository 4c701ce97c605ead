//! The two sources of values that depend on the moment of the call: the
//! high-resolution clock and the thread's random generator.

use vstd::prelude::*;

verus! {

/// `time::precise_time_ns`: a reading of the host's high-resolution
/// performance counter, in nanoseconds since an unspecified epoch. Nothing is
/// stated of the value: it depends on the moment of the call.
#[verifier::external_body]
pub(crate) fn precise_time_ns() -> u64 {
    time::precise_time_ns()
}

/// `rand::thread_rng().gen::<u32>()`: a number drawn from the thread's
/// random generator. Nothing is stated of the value.
#[verifier::external_body]
pub(crate) fn random_u32() -> u32 {
    rand::Rng::gen::<u32>(&mut rand::thread_rng())
}

} // verus!
