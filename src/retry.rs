//! Requests that carry their own exponential backoff.

use vstd::prelude::*;

use crate::config::RetryBackoffConfig;

verus! {

/// The delay that follows `delay` once it is multiplied by `factor`.
pub open spec fn next_delay(delay: int, factor: u32) -> int {
    delay * factor
}

/// A request that can be retried: its payload, the delay before its next attempt, the factor
/// that multiplies the delay after each attempt, and the largest delay that is still retried.
pub struct Retry<T> {
    data: T,
    delay: u128,
    factor: u32,
    max: u64,
}

impl<T> Retry<T> {
    /// The payload of the request.
    pub closed spec fn spec_data(&self) -> T {
        self.data
    }

    /// The delay, in seconds, before the next attempt.
    pub closed spec fn spec_delay(&self) -> u128 {
        self.delay
    }

    /// The factor that multiplies the delay after each attempt.
    pub closed spec fn spec_factor(&self) -> u32 {
        self.factor
    }

    /// The largest delay, in seconds, that is still retried.
    pub closed spec fn spec_max(&self) -> u64 {
        self.max
    }

    /// A first attempt at a request, with the backoff of `config`.
    pub fn new(data: T, config: &RetryBackoffConfig) -> (r: Self)
        ensures
            r.spec_data() == data,
            r.spec_delay() == config.base,
            r.spec_factor() == config.factor,
            r.spec_max() == config.max,
    {
        Retry { data, delay: config.base as u128, factor: config.factor, max: config.max }
    }

    /// Whether a further attempt is permitted.
    pub fn can_retry(&self) -> (r: bool)
        ensures
            r == (self.spec_delay() <= self.spec_max()),
    {
        self.delay <= self.max as u128
    }

    /// The delay, in seconds, before the next attempt.
    pub fn delay(&self) -> (r: u128)
        ensures
            r == self.spec_delay(),
    {
        self.delay
    }

    /// The payload of the request.
    pub fn as_data(&self) -> (r: &T)
        ensures
            *r == self.spec_data(),
    {
        &self.data
    }

    /// A copy of the payload of the request.
    pub fn to_data(&self) -> T
        where
            T: Clone,
    {
        self.data.clone()
    }

    /// The payload of the request, consuming the envelope.
    pub fn into_data(self) -> (r: T)
        ensures
            r == self.spec_data(),
    {
        self.data
    }

    /// Schedules the next attempt: returns the delay to wait before it, and multiplies the delay
    /// of the attempt after it by the factor.
    pub fn schedule(&mut self) -> (r: u64)
        requires
            old(self).spec_delay() <= old(self).spec_max(),
        ensures
            r == old(self).spec_delay(),
            final(self).spec_delay() == next_delay(
                old(self).spec_delay() as int,
                old(self).spec_factor(),
            ),
            final(self).spec_data() == old(self).spec_data(),
            final(self).spec_factor() == old(self).spec_factor(),
            final(self).spec_max() == old(self).spec_max(),
    {
        let delay = self.delay;
        let factor = self.factor as u128;
        assert(delay * factor <= u64::MAX as u128 * u32::MAX as u128) by (nonlinear_arith)
            requires
                delay <= u64::MAX,
                factor <= u32::MAX,
        ;
        self.delay = delay * factor;
        delay as u64
    }
}

/// An envelope that leaves the retry queue waits for a delay that it was allowed to wait, and the
/// delay of its next attempt is longer.
pub proof fn lemma_retry_delay_grows(delay_in: int, factor: u32, max: u64)
    requires
        1 <= delay_in <= max,
        factor >= 2,
    ensures
        delay_in <= max,
        next_delay(delay_in, factor) > delay_in,
{
    assert(delay_in * factor >= delay_in * 2) by (nonlinear_arith)
        requires
            factor >= 2,
            delay_in >= 1,
    ;
}

} // verus!
