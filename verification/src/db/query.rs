//! Choices made when reading from the database.

use vstd::prelude::*;
use rand::Rng;

verus! {

/// `rand::thread_rng().gen_range(low..=high)`: a number drawn from `low..=high`
/// (the range must not be empty, else `gen_range` panics). Which one is drawn is
/// left to chance and not stated.
#[verifier::external_body]
fn random_between(low: i32, high: i32) -> (r: i32)
    requires
        low <= high,
    ensures
        low <= r <= high,
{
    rand::thread_rng().gen_range(low..=high)
}

/// A random identifier among `1..=max`, as used to pick a random seating and a
/// random voting within it.
pub fn random_identifier(max: i32) -> (r: i32)
    requires
        max >= 1,
    ensures
        1 <= r <= max,
{
    random_between(1, max)
}

} // verus!
