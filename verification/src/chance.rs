//! Random choices.
//!
//! The only source of chance is the thread-local generator of the `rand`
//! crate. What comes back differs from call to call, so the contracts here
//! state only what holds of every outcome.

use rand::seq::SliceRandom;
use rand::Rng;
use vstd::prelude::*;

verus! {

/// One item of `items`, picked uniformly at random; `None` when there is
/// none to pick.
///
/// Trusted: this is `rand::seq::SliceRandom::choose` on the slice of
/// `items` with the generator of `rand::thread_rng`. It returns `None` for
/// an empty slice and otherwise a reference to the item at an index below
/// the length.
#[verifier::external_body]
pub(crate) fn pick_one<T>(items: &Vec<T>) -> (pick: Option<&T>)
    ensures
        pick is None <==> items.len() == 0,
        pick is Some ==> items@.contains(*pick->0),
{
    items.choose(&mut rand::thread_rng())
}

/// A number from `low` up to, but not including, `high`, picked uniformly
/// at random.
///
/// Trusted: this is `rand::Rng::gen_range` on the half-open range
/// `low..high` with the generator of `rand::thread_rng`. It panics on an
/// empty range, which `requires` leaves out, and otherwise returns a value
/// of the range.
#[verifier::external_body]
pub(crate) fn random_between(low: usize, high: usize) -> (pick: usize)
    requires
        low < high,
    ensures
        low <= pick < high,
{
    rand::thread_rng().gen_range(low..high)
}

} // verus!
