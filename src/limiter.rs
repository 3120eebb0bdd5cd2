//! Non-blocking admission control for outbound requests.
use ratelimit_meter::{DirectRateLimiter, GCRA};
use vstd::prelude::*;

verus! {

/// Requests admitted per second at the steady rate.
pub const REQUESTS_PER_SECOND: u32 = 1000;

/// A GCRA limiter of `ratelimit_meter` on the monotonic clock. Verus refuses a
/// declaration of `DirectRateLimiter` (its bounds name the crate's own traits), so
/// it is held opaque here and reached only through the two functions below.
#[verifier::external_body]
struct GcraMeter {
    inner: DirectRateLimiter<GCRA>,
}

/// Relies on `DirectRateLimiter::per_second`: a GCRA limiter that admits
/// `per_second` cells per second (panics on zero, hence the `requires`).
#[verifier::external_body]
fn gcra_per_second(per_second: u32) -> GcraMeter
    requires
        per_second > 0,
{
    GcraMeter { inner: DirectRateLimiter::<GCRA>::per_second(std::num::NonZeroU32::new(per_second).unwrap()) }
}

/// Relies on `DirectRateLimiter::check`: whether one cell conforms at the current
/// clock reading. The answer depends on the time, so nothing is stated of it.
#[verifier::external_body]
fn gcra_check(meter: &mut GcraMeter) -> bool {
    meter.inner.check().is_ok()
}

/// A generic cell-rate limiter that answers at once, never waiting.
pub struct RateLimiter {
    meter: GcraMeter,
    per_second: u32,
}

impl RateLimiter {
    /// The steady rate, in requests per second.
    pub closed spec fn rate(&self) -> u32 {
        self.per_second
    }

    /// A limiter admitting `per_second` requests per second.
    pub fn per_second(per_second: u32) -> (r: Self)
        requires
            per_second > 0,
        ensures
            r.rate() == per_second,
    {
        RateLimiter { meter: gcra_per_second(per_second), per_second }
    }

    /// Whether one more request is admitted now; an admitted request is counted.
    pub fn check(&mut self) -> (r: bool)
        ensures
            final(self).rate() == old(self).rate(),
    {
        gcra_check(&mut self.meter)
    }

    /// The steady rate, in requests per second.
    pub fn rate_per_second(&self) -> (r: u32)
        ensures
            r == self.rate(),
    {
        self.per_second
    }
}

} // verus!
