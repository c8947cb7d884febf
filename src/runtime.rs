//! What the routing core takes from its surroundings: the clock and random
//! request identifiers. Nothing is known of these values beyond their type.
use vstd::prelude::*;

verus! {

/// A point in time, as read from the monotonic clock.
#[verifier::external_type_specification]
#[verifier::external_body]
pub struct ExInstant(std::time::Instant);

/// Relies on `Instant::now`: reads the monotonic clock.
pub assume_specification[ std::time::Instant::now ]() -> std::time::Instant;

/// Relies on `Instant::elapsed`: the time since the instant (zero if the
/// clock reads earlier).
pub assume_specification[ std::time::Instant::elapsed ](
    i: &std::time::Instant,
) -> core::time::Duration;

/// Relies on `Duration::as_millis`: the whole milliseconds of a duration.
pub assume_specification[ core::time::Duration::as_millis ](d: &core::time::Duration) -> u128;

/// Relies on `Duration::as_micros`: the whole microseconds of a duration.
pub assume_specification[ core::time::Duration::as_micros ](d: &core::time::Duration) -> u128;

/// Relies on `rand::random`: a value drawn from the thread-local generator.
pub assume_specification<T>[ rand::random::<T> ]() -> T
    where
        rand::distributions::Standard: rand::distributions::Distribution<T>,
;

} // verus!
