//! The calls into outside crates and std: random permutations, clocks and shared handles.
use vstd::prelude::*;

verus! {

/// The random number generator of `rand` that each thread owns.
#[verifier::external_type_specification]
#[verifier::external_body]
pub struct ExThreadRng(rand::rngs::ThreadRng);

/// Calls `rand::rng`, which hands out the generator of the current thread.
/// Nothing is claimed of the generator.
#[verifier::external_body]
pub(crate) fn thread_rng() -> rand::rngs::ThreadRng {
    rand::rng()
}

/// Calls `rand::seq::SliceRandom::shuffle` on the items of `items`.
/// The contract claims only what holds of every outcome: the items are
/// permuted, none is added or lost.
#[verifier::external_body]
pub(crate) fn shuffle<T>(items: &mut Vec<T>, rng: &mut rand::rngs::ThreadRng)
    ensures
        final(items)@.to_multiset() == old(items)@.to_multiset(),
{
    rand::seq::SliceRandom::shuffle(items.as_mut_slice(), rng)
}

/// Calls `Arc::clone`, which makes another handle on the same allocation:
/// the handle it returns points to the very value that `a` points to.
#[verifier::external_body]
pub(crate) fn arc_clone<T>(a: &std::sync::Arc<T>) -> (r: std::sync::Arc<T>)
    ensures
        r == *a,
{
    std::sync::Arc::clone(a)
}

/// A point in time of the monotonic clock (`instant::Instant` is this type
/// outside the browser).
#[verifier::external_type_specification]
#[verifier::external_body]
pub struct ExInstant(std::time::Instant);

/// Calls `instant::Instant::now`. Nothing is claimed of the time it reads.
#[verifier::external_body]
pub(crate) fn now() -> std::time::Instant {
    instant::Instant::now()
}

/// Calls `Instant::checked_add`: the point `d` after `start`, or `None`
/// where the clock cannot represent it. Nothing is claimed of the result.
#[verifier::external_body]
pub(crate) fn checked_deadline(start: &std::time::Instant, d: std::time::Duration) -> Option<
    std::time::Instant,
> {
    start.checked_add(d)
}

/// Calls `Instant::elapsed`: the time since `start`. Nothing is claimed of it.
#[verifier::external_body]
pub(crate) fn elapsed(start: &std::time::Instant) -> std::time::Duration {
    start.elapsed()
}

/// Calls `>=` on `Instant`: whether `t` is at or after `deadline`. Instants
/// are opaque here: nothing is claimed of the answer.
#[verifier::external_body]
pub(crate) fn at_or_after(t: &std::time::Instant, deadline: &std::time::Instant) -> bool {
    *t >= *deadline
}

/// What `Duration::is_zero` answers for `d`: whether `d` is no time at all.
pub uninterp spec fn zero_length(d: std::time::Duration) -> bool;

/// Calls `Duration::is_zero`: whether `d` is no time at all.
#[verifier::external_body]
pub(crate) fn duration_is_zero(d: &std::time::Duration) -> (r: bool)
    ensures
        r == zero_length(*d),
{
    d.is_zero()
}

/// Calls `Duration::new(0, 0)`: no time at all.
#[verifier::external_body]
pub(crate) fn duration_zero() -> (r: std::time::Duration)
    ensures
        zero_length(r),
{
    std::time::Duration::new(0, 0)
}

/// Calls `Duration::from_secs`: `secs` whole seconds, which is no time at
/// all exactly when `secs` is zero. Nothing else is claimed of it.
#[verifier::external_body]
pub(crate) fn duration_from_secs(secs: u64) -> (r: std::time::Duration)
    ensures
        zero_length(r) == (secs == 0),
{
    std::time::Duration::from_secs(secs)
}

} // verus!
