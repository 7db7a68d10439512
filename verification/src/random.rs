//! The source of chance.

use rand::Rng;
use vstd::prelude::*;

verus! {

/// A whole number drawn from `lo..hi` by `Rng::gen_range` of the rand crate,
/// on the generator that `rand::thread_rng` keeps for the current thread.
///
/// Trusted, not proved: `gen_range` returns a value of the range that it is
/// given, which here is half-open and, by the precondition, not empty (on an
/// empty range it panics). Which value comes is left open.
#[verifier::external_body]
pub(crate) fn uniform_between(lo: i64, hi: i64) -> (r: i64)
    requires
        lo < hi,
    ensures
        lo <= r < hi,
{
    rand::thread_rng().gen_range(lo..hi)
}

} // verus!
