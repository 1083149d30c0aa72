//! Random numbers, taken from the `rand` crate.  Nothing in this file is
//! proved: it states what the rest of the library relies on.
use vstd::prelude::*;
use rand::Rng;
use rand::rngs::ThreadRng;

verus! {

/// `rand::rngs::ThreadRng`, the handle to the generator of the current
/// thread.  Nothing is known of what it holds.
#[verifier::external_type_specification]
#[verifier::external_body]
pub struct ExThreadRng(rand::rngs::ThreadRng);

/// `rand::thread_rng` hands out the generator of the current thread, seeded
/// by the operating system on first use.  Nothing is claimed of it.  It
/// panics if the operating system gives no seed; no argument brings that
/// about.
pub assume_specification[ rand::thread_rng ]() -> (rng: ThreadRng);

/// `Rng::gen_range` on the half-open range `low..high`: the number drawn
/// lies in the range.  Which one it is depends on chance.  `gen_range`
/// panics on an empty range, so the range must not be empty.  The
/// generator reseeds itself from the operating system now and then, and
/// panics if that fails; no argument brings that about.
#[verifier::external_body]
pub(crate) fn draw(rng: &mut ThreadRng, low: i32, high: i32) -> (n: i32)
    requires
        low < high,
    ensures
        low <= n < high,
{
    rng.gen_range(low..high)
}

} // verus!
