//! Per-address connection limits: concurrent connections and connection
//! attempts within a sliding minute. An address is a `u128` (an IPv4
//! address as its IPv6-mapped form); times are milliseconds on the
//! limiter's clock.

use crate::clock::{instant_now, millis_since};
use crate::text::{decimal, decimal_string};
use std::collections::HashMap;
use std::time::Instant;
use vstd::prelude::*;

verus! {

broadcast use vstd::std_specs::hash::group_hash_axioms;

/// Length of the attempt window, in milliseconds.
pub const ATTEMPT_WINDOW_MS: u64 = 60000;

/// Why a connection was refused.
#[derive(Debug, Clone, Copy, PartialEq, Eq, Structural)]
pub enum RateLimitError {
    TooManyConnections { current: usize, max: usize },
    TooManyAttempts { attempts: usize, max: usize },
}

impl RateLimitError {
    /// The human-readable text of the error.
    pub fn message(&self) -> (r: String)
        ensures
            self matches RateLimitError::TooManyConnections { current, max } ==> r@
                == "Too many concurrent connections ("@ + decimal(current as nat) + "/"@ + decimal(max as nat) + ")"@,
            self matches RateLimitError::TooManyAttempts { attempts, max } ==> r@
                == "Too many connection attempts ("@ + decimal(attempts as nat) + "/"@ + decimal(max as nat)
                + " per minute)"@,
    {
        let (mut r, a, b, tail) = match self {
            RateLimitError::TooManyConnections { current, max } => (
                String::from_str("Too many concurrent connections ("),
                *current,
                *max,
                ")",
            ),
            RateLimitError::TooManyAttempts { attempts, max } => (
                String::from_str("Too many connection attempts ("),
                *attempts,
                *max,
                " per minute)",
            ),
        };
        let sa = decimal_string(a as u64);
        r.append(sa.as_str());
        r.append("/");
        let sb = decimal_string(b as u64);
        r.append(sb.as_str());
        r.append(tail);
        r
    }
}

/// The attempts still inside the window at time `now`, oldest first.
pub open spec fn recent(ts: Seq<u64>, now: u64) -> Seq<u64>
    decreases ts.len(),
{
    if ts.len() == 0 {
        ts
    } else if ts.last() + ATTEMPT_WINDOW_MS > now {
        recent(ts.drop_last(), now).push(ts.last())
    } else {
        recent(ts.drop_last(), now)
    }
}

pub proof fn lemma_recent_len(ts: Seq<u64>, now: u64)
    ensures
        recent(ts, now).len() <= ts.len(),
    decreases ts.len(),
{
    if ts.len() > 0 {
        lemma_recent_len(ts.drop_last(), now);
    }
}

/// Simple per-address limiter.
pub struct RateLimiter {
    max_connections_per_ip: usize,
    max_attempts_per_minute: usize,
    /// Open connections per address; an address with none has no entry.
    connections: HashMap<u128, usize>,
    /// Connection attempts per address, oldest first.
    attempts: HashMap<u128, Vec<u64>>,
    origin: Instant,
}

impl RateLimiter {
    /// Connections of `ip` now open.
    pub closed spec fn connections(&self, ip: u128) -> nat {
        if self.connections@.contains_key(ip) {
            self.connections@[ip] as nat
        } else {
            0
        }
    }

    /// Recorded attempts of `ip`, oldest first.
    pub closed spec fn attempts(&self, ip: u128) -> Seq<u64> {
        if self.attempts@.contains_key(ip) {
            self.attempts@[ip]@
        } else {
            Seq::empty()
        }
    }

    pub closed spec fn max_connections(&self) -> usize {
        self.max_connections_per_ip
    }

    pub closed spec fn max_attempts(&self) -> usize {
        self.max_attempts_per_minute
    }

    pub fn new(max_connections_per_ip: usize, max_attempts_per_minute: usize) -> (r: Self)
        ensures
            r.max_connections() == max_connections_per_ip,
            r.max_attempts() == max_attempts_per_minute,
            forall|ip: u128| r.connections(ip) == 0 && r.attempts(ip).len() == 0,
    {
        RateLimiter {
            max_connections_per_ip,
            max_attempts_per_minute,
            connections: HashMap::new(),
            attempts: HashMap::new(),
            origin: instant_now(),
        }
    }

    /// Milliseconds on the limiter's clock.
    pub fn now_ms(&self) -> u64 {
        millis_since(&self.origin)
    }

    fn connections_of(&self, ip: u128) -> (r: usize)
        ensures
            r as nat == self.connections(ip),
    {
        match self.connections.get(&ip) {
            Some(c) => *c,
            None => 0,
        }
    }

    /// One check of a connection from `ip` at time `now`: refused when the
    /// attempts of the last minute reach the cap; otherwise the attempt is
    /// recorded, and the connection is refused when the address already holds
    /// the maximum of concurrent connections. Nothing else changes.
    pub open spec fn check_step(self, after: Self, ip: u128, now: u64, r: Result<(), RateLimitError>) -> bool {
        &&& after.max_connections() == self.max_connections()
        &&& after.max_attempts() == self.max_attempts()
        &&& forall|other: u128| other != ip ==> after.connections(other) == self.connections(other)
            && after.attempts(other) == self.attempts(other)
        &&& after.connections(ip) == self.connections(ip)
        &&& ({
            let rec = recent(self.attempts(ip), now);
            &&& rec.len() >= self.max_attempts() ==> r == Err::<(), RateLimitError>(
                RateLimitError::TooManyAttempts { attempts: rec.len() as usize, max: self.max_attempts() },
            ) && after.attempts(ip) == rec
            &&& rec.len() < self.max_attempts() ==> after.attempts(ip) == rec.push(now) && ({
                let c = self.connections(ip);
                if c > 0 && c >= self.max_connections() {
                    r == Err::<(), RateLimitError>(
                        RateLimitError::TooManyConnections { current: c as usize, max: self.max_connections() },
                    )
                } else {
                    r is Ok
                }
            })
        })
    }

    /// Checks a new connection from `ip` at time `now`, as `check_step` states.
    pub fn check_connection_at(&mut self, ip: u128, now: u64) -> (r: Result<(), RateLimitError>)
        ensures
            old(self).check_step(*final(self), ip, now, r),
    {
        let old_attempts: Vec<u64> = match self.attempts.get(&ip) {
            Some(v) => v.clone(),
            None => Vec::new(),
        };
        assert(old_attempts@ == self.attempts(ip));
        let conns = self.connections_of(ip);
        let mut kept: Vec<u64> = Vec::new();
        let mut j: usize = 0;
        while j < old_attempts.len()
            invariant
                j <= old_attempts@.len(),
                kept@ == recent(old_attempts@.subrange(0, j as int), now),
            decreases old_attempts@.len() - j,
        {
            proof {
                assert(old_attempts@.subrange(0, j + 1).drop_last() =~= old_attempts@.subrange(0, j as int));
            }
            let t = old_attempts[j];
            if t as u128 + ATTEMPT_WINDOW_MS as u128 > now as u128 {
                kept.push(t);
            }
            j = j + 1;
        }
        assert(old_attempts@.subrange(0, old_attempts@.len() as int) =~= old_attempts@);
        proof { lemma_recent_len(old_attempts@, now); }
        let n = kept.len();
        let result = if n >= self.max_attempts_per_minute {
            Err(RateLimitError::TooManyAttempts { attempts: n, max: self.max_attempts_per_minute })
        } else {
            kept.push(now);
            if conns > 0 && conns >= self.max_connections_per_ip {
                Err(RateLimitError::TooManyConnections { current: conns, max: self.max_connections_per_ip })
            } else {
                Ok(())
            }
        };
        self.attempts.insert(ip, kept);
        result
    }

    /// Checks a new connection from `ip` now.
    pub fn check_connection(&mut self, ip: u128) -> (r: Result<(), RateLimitError>)
        ensures
            exists|now: u64| #[trigger] old(self).check_step(*final(self), ip, now, r),
    {
        let now = self.now_ms();
        self.check_connection_at(ip, now)
    }

    /// Records a new open connection of `ip`.
    pub fn add_connection(&mut self, ip: u128)
        ensures
            final(self).connections(ip) == if old(self).connections(ip) < usize::MAX {
                old(self).connections(ip) + 1
            } else {
                old(self).connections(ip)
            },
            final(self).attempts(ip) == old(self).attempts(ip),
            forall|other: u128| other != ip ==> final(self).connections(other) == old(self).connections(other)
                && final(self).attempts(other) == old(self).attempts(other),
            final(self).max_connections() == old(self).max_connections(),
            final(self).max_attempts() == old(self).max_attempts(),
    {
        self.update_connections(ip, true);
    }

    /// Records that a connection of `ip` closed.
    pub fn remove_connection(&mut self, ip: u128)
        ensures
            final(self).connections(ip) == if old(self).connections(ip) > 0 {
                (old(self).connections(ip) - 1) as nat
            } else {
                0
            },
            final(self).attempts(ip) == old(self).attempts(ip),
            forall|other: u128| other != ip ==> final(self).connections(other) == old(self).connections(other)
                && final(self).attempts(other) == old(self).attempts(other),
            final(self).max_connections() == old(self).max_connections(),
            final(self).max_attempts() == old(self).max_attempts(),
    {
        self.update_connections(ip, false);
    }

    fn update_connections(&mut self, ip: u128, up: bool)
        ensures
            up ==> final(self).connections(ip) == if old(self).connections(ip) < usize::MAX {
                old(self).connections(ip) + 1
            } else {
                old(self).connections(ip)
            },
            !up ==> final(self).connections(ip) == if old(self).connections(ip) > 0 {
                (old(self).connections(ip) - 1) as nat
            } else {
                0
            },
            final(self).attempts(ip) == old(self).attempts(ip),
            forall|other: u128| other != ip ==> final(self).connections(other) == old(self).connections(other)
                && final(self).attempts(other) == old(self).attempts(other),
            final(self).max_connections() == old(self).max_connections(),
            final(self).max_attempts() == old(self).max_attempts(),
    {
        let c = self.connections_of(ip);
        let c2 = if up {
            if c < usize::MAX { c + 1 } else { c }
        } else {
            if c > 0 { c - 1 } else { 0 }
        };
        if c2 == 0 {
            self.connections.remove(&ip);
        } else {
            self.connections.insert(ip, c2);
        }
    }
}

} // verus!
