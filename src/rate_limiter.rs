//! The admission rule of a fetch pipeline: at most `max_concurrent` requests run at once, and at
//! most `max_interval` requests start in a window, which opens at the first admission after the
//! previous window closed and lasts `interval`.

use vstd::prelude::*;

use crate::config::RateLimitingSettings;

verus! {

/// The state of one pipeline's rate limit. Times are in milliseconds.
pub struct RateLimiter {
    interval: u64,
    max_interval: usize,
    max_concurrent: usize,
    in_flight: usize,
    curr_interval: usize,
    window: Option<u64>,
    last_now: u64,
    admitted: Ghost<Seq<u64>>,
}

impl RateLimiter {
    /// The length of a window.
    pub closed spec fn spec_interval(&self) -> u64 {
        self.interval
    }

    /// The most requests that start in one window.
    pub closed spec fn spec_max_interval(&self) -> usize {
        self.max_interval
    }

    /// The most requests that run at once.
    pub closed spec fn spec_max_concurrent(&self) -> usize {
        self.max_concurrent
    }

    /// The requests that run now.
    pub closed spec fn spec_in_flight(&self) -> usize {
        self.in_flight
    }

    /// When the current window opened, if one is open.
    pub closed spec fn window_start(&self) -> Option<u64> {
        self.window
    }

    /// When each request admitted in the current window started.
    pub closed spec fn window_admissions(&self) -> Seq<u64> {
        self.admitted@
    }

    /// The latest time that the limiter was asked at.
    pub closed spec fn spec_now(&self) -> u64 {
        self.last_now
    }

    /// The limits hold: no more requests run than allowed, no more started in the current window
    /// than allowed, and each of those started within the window.
    pub closed spec fn well_formed(&self) -> bool {
        &&& self.interval >= 1
        &&& self.in_flight <= self.max_concurrent
        &&& self.curr_interval <= self.max_interval
        &&& self.admitted@.len() == self.curr_interval
        &&& self.window is None ==> self.curr_interval == 0
        &&& self.window matches Some(s) ==> {
            &&& s <= self.last_now
            &&& forall|i: int|
                0 <= i < self.admitted@.len() ==> s <= #[trigger] self.admitted@[i] && self.admitted@[i]
                    < s + self.interval
        }
    }

    /// A limiter with the limits of `settings` that has admitted nothing yet.
    pub fn new(settings: &RateLimitingSettings) -> (r: Self)
        requires
            settings.interval >= 1,
        ensures
            r.well_formed(),
            r.spec_interval() == settings.interval * 1000 || (settings.interval * 1000 > u64::MAX
                && r.spec_interval() == u64::MAX),
            r.spec_max_interval() == settings.max_interval,
            r.spec_max_concurrent() == settings.max_concurrent,
            r.spec_in_flight() == 0,
            r.window_start() is None,
            r.spec_now() == 0,
    {
        let interval = match settings.interval.checked_mul(1000) {
            Some(ms) => ms,
            None => u64::MAX,
        };
        RateLimiter {
            interval,
            max_interval: settings.max_interval,
            max_concurrent: settings.max_concurrent,
            in_flight: 0,
            curr_interval: 0,
            window: None,
            last_now: 0,
            admitted: Ghost(Seq::empty()),
        }
    }

    /// The window is over at `now`: the count of started requests starts again.
    pub open spec fn window_over(&self, now: u64) -> bool {
        self.window_start() matches Some(s) && now - s >= self.spec_interval()
    }

    /// The requests that count against the window at `now`.
    pub open spec fn started_in_window(&self, now: u64) -> nat {
        if self.window_over(now) {
            0
        } else {
            self.window_admissions().len()
        }
    }

    /// Asks, at time `now`, to start one more request. It starts where fewer than
    /// `max_concurrent` requests run and fewer than `max_interval` started in the window.
    pub fn try_admit(&mut self, now: u64) -> (r: bool)
        requires
            old(self).well_formed(),
            old(self).spec_now() <= now,
        ensures
            final(self).well_formed(),
            final(self).spec_now() == now,
            final(self).spec_interval() == old(self).spec_interval(),
            final(self).spec_max_interval() == old(self).spec_max_interval(),
            final(self).spec_max_concurrent() == old(self).spec_max_concurrent(),
            r == (old(self).spec_in_flight() < old(self).spec_max_concurrent()
                && old(self).started_in_window(now) < old(self).spec_max_interval()),
            r ==> final(self).spec_in_flight() == old(self).spec_in_flight() + 1,
            !r ==> final(self).spec_in_flight() == old(self).spec_in_flight(),
            ({
                let kept_start = if old(self).window_over(now) {
                    None
                } else {
                    old(self).window_start()
                };
                let kept = if old(self).window_over(now) {
                    Seq::<u64>::empty()
                } else {
                    old(self).window_admissions()
                };
                if r {
                    &&& final(self).window_start() == (if kept_start is None {
                        Some(now)
                    } else {
                        kept_start
                    })
                    &&& final(self).window_admissions() == kept.push(now)
                } else {
                    &&& final(self).window_start() == kept_start
                    &&& final(self).window_admissions() == kept
                }
            }),
    {
        if let Some(start) = self.window {
            if now - start >= self.interval {
                self.curr_interval = 0;
                self.window = None;
                self.admitted = Ghost(Seq::empty());
            }
        }
        self.last_now = now;
        if self.in_flight < self.max_concurrent && self.curr_interval < self.max_interval {
            self.in_flight = self.in_flight + 1;
            self.curr_interval = self.curr_interval + 1;
            if self.window.is_none() {
                self.window = Some(now);
            }
            self.admitted = Ghost(self.admitted@.push(now));
            true
        } else {
            false
        }
    }

    /// A request that was started has finished.
    pub fn complete(&mut self)
        requires
            old(self).well_formed(),
            old(self).spec_in_flight() > 0,
        ensures
            final(self).well_formed(),
            final(self).spec_in_flight() == old(self).spec_in_flight() - 1,
            final(self).spec_now() == old(self).spec_now(),
            final(self).spec_interval() == old(self).spec_interval(),
            final(self).spec_max_interval() == old(self).spec_max_interval(),
            final(self).spec_max_concurrent() == old(self).spec_max_concurrent(),
            final(self).window_start() == old(self).window_start(),
            final(self).window_admissions() == old(self).window_admissions(),
    {
        self.in_flight = self.in_flight - 1;
    }

    /// The number of requests that run now.
    pub fn in_flight(&self) -> (r: usize)
        ensures
            r == self.spec_in_flight(),
    {
        self.in_flight
    }
}

/// In every state of a limiter: at most `max_concurrent` requests run, at most `max_interval`
/// started in the current window, and each of them started less than `interval` after the
/// window opened.
pub proof fn lemma_rate_limits_hold(limiter: &RateLimiter)
    requires
        limiter.well_formed(),
    ensures
        limiter.spec_in_flight() <= limiter.spec_max_concurrent(),
        limiter.window_admissions().len() <= limiter.spec_max_interval(),
        limiter.window_start() matches Some(s) ==> forall|i: int|
            0 <= i < limiter.window_admissions().len() ==> s <= #[trigger] limiter.window_admissions()[i]
                && limiter.window_admissions()[i] < s + limiter.spec_interval(),
{
}

} // verus!
