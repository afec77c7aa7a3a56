//! Spacing of requests. Times are milliseconds of a clock that never goes back.

use vstd::prelude::*;
use rand::Rng;

verus! {

/// `rand::rng().random_range(0..n)`: a number below `n`, which one is left to chance.
#[verifier::external_body]
pub(crate) fn random_below(n: u64) -> (r: u64)
    requires
        n > 0,
    ensures
        r < n,
{
    rand::rng().random_range(0..n)
}

/// A least gap between requests, with a random part on top.
pub struct RateLimiter {
    /// When the last request passed.
    pub last: u64,
    /// What counts as having passed already at `last`.
    pub credit: u64,
    pub min_interval: u64,
    pub jitter_max: u64,
}

pub open spec fn later(a: int, b: int) -> int {
    if a > b {
        a
    } else {
        b
    }
}

/// How long a request at `now` waits, with this random part.
pub open spec fn pause_of(l: RateLimiter, now: u64, jitter: u64) -> int {
    later(0, l.min_interval + jitter - (later(0, now - l.last) + l.credit))
}

impl RateLimiter {
    /// The first request counts as one whose gap has just passed.
    pub fn new(min_interval: u64, jitter_max: u64, now: u64) -> (r: RateLimiter)
        ensures
            r == (RateLimiter { last: now, credit: min_interval, min_interval, jitter_max }),
    {
        RateLimiter { last: now, credit: min_interval, min_interval, jitter_max }
    }

    /// How long a request at `now` waits, given the random part.
    pub fn pause_with(&self, now: u64, jitter: u64) -> (r: u128)
        ensures
            r == pause_of(*self, now, jitter),
    {
        let elapsed: u128 = (if now > self.last {
            now - self.last
        } else {
            0
        }) as u128 + self.credit as u128;
        let gap: u128 = self.min_interval as u128 + jitter as u128;
        if elapsed < gap {
            gap - elapsed
        } else {
            0
        }
    }

    /// How long a request at `now` waits.
    pub fn pause(&self, now: u64) -> (r: u128)
        ensures
            self.jitter_max == 0 ==> r == pause_of(*self, now, 0),
            self.jitter_max > 0 ==> exists|j: u64| j < self.jitter_max && r == #[trigger] pause_of(*self, now, j),
    {
        let jitter: u64 = if self.jitter_max == 0 {
            0
        } else {
            random_below(self.jitter_max)
        };
        self.pause_with(now, jitter)
    }

    /// Marks that a request passes at `now`.
    pub fn passed(&mut self, now: u64)
        ensures
            *final(self) == (RateLimiter { last: now, credit: 0, ..*old(self) }),
    {
        self.last = now;
        self.credit = 0;
    }
}

/// Two requests that waited as told are at least the interval apart.
pub proof fn requests_are_spaced(l: RateLimiter, now: u64, jitter: u64)
    requires
        l.credit == 0,
        now >= l.last,
    ensures
        now + pause_of(l, now, jitter) >= l.last + l.min_interval + jitter,
{
}

/// What a caller does next.
#[derive(PartialEq, Eq, Structural, Clone, Copy, Debug)]
pub enum GateStep {
    /// Nobody wants the answer any more.
    GiveUp,
    /// Wait this long and ask again.
    Sleep(u64),
    /// Its turn, after the pause of the limiter.
    Go,
}

/// A limiter with a cool-down that every caller waits out.
pub struct RateGate {
    pub limiter: RateLimiter,
    pub cooldown_until: Option<u64>,
}

impl RateGate {
    pub fn new(min_interval: u64, jitter_max: u64, now: u64) -> (r: RateGate)
        ensures
            r.limiter == (RateLimiter { last: now, credit: min_interval, min_interval, jitter_max }),
            r.cooldown_until is None,
    {
        RateGate { limiter: RateLimiter::new(min_interval, jitter_max, now), cooldown_until: None }
    }

    /// One look at whether a request may pass, by one that waits for as long as it takes.
    pub fn wait_turn(&mut self, now: u64) -> (r: GateStep)
        ensures
            final(self).limiter == old(self).limiter,
            r == (match old(self).cooldown_until {
                Some(t) => if t >= now {
                    GateStep::Sleep(
                        if t - now < 250 {
                            (t - now) as u64
                        } else {
                            250
                        },
                    )
                } else {
                    GateStep::Go
                },
                None => GateStep::Go,
            }),
            final(self).cooldown_until == (if r is Go {
                None
            } else {
                old(self).cooldown_until
            }),
    {
        self.wait_turn_while(true, now)
    }

    /// One look at whether a request may pass: a cool-down is waited out in naps of at most a quarter of a second.
    pub fn wait_turn_while(&mut self, wanted: bool, now: u64) -> (r: GateStep)
        ensures
            final(self).limiter == old(self).limiter,
            r == (if !wanted {
                GateStep::GiveUp
            } else {
                match old(self).cooldown_until {
                    Some(t) => if t >= now {
                        GateStep::Sleep(
                            if t - now < 250 {
                                (t - now) as u64
                            } else {
                                250
                            },
                        )
                    } else {
                        GateStep::Go
                    },
                    None => GateStep::Go,
                }
            }),
            final(self).cooldown_until == (if r is Go {
                None
            } else {
                old(self).cooldown_until
            }),
    {
        if !wanted {
            return GateStep::GiveUp;
        }
        if let Some(t) = self.cooldown_until {
            if t >= now {
                let left: u64 = t - now;
                return GateStep::Sleep(
                    if left < 250 {
                        left
                    } else {
                        250
                    },
                );
            }
            self.cooldown_until = None;
        }
        GateStep::Go
    }

    /// Makes every caller wait at least this long; a longer cool-down stays.
    pub fn set_cooldown(&mut self, now: u64, wait: u64)
        requires
            now + wait <= u64::MAX,
        ensures
            final(self).limiter == old(self).limiter,
            final(self).cooldown_until == (match old(self).cooldown_until {
                Some(t) => if t < now + wait {
                    Some((now + wait) as u64)
                } else {
                    Some(t)
                },
                None => Some((now + wait) as u64),
            }),
    {
        let until: u64 = now + wait;
        match self.cooldown_until {
            Some(t) => {
                if t < until {
                    self.cooldown_until = Some(until);
                }
            },
            None => {
                self.cooldown_until = Some(until);
            },
        }
    }
}

} // verus!
