//! Decisions of the push-notification client: the debounce between two
//! notifications and the relay's base URL.

use crate::text::{chars_of, string_of};
use vstd::prelude::*;

verus! {

/// Shortest time between two notifications, in milliseconds.
pub const PUSH_COOLDOWN_MS: u64 = 30000;

/// Remembers when the last notification went out.
pub struct Debounce {
    last: Option<u64>,
    cooldown_ms: u64,
}

impl Debounce {
    pub closed spec fn last_sent(&self) -> Option<u64> {
        self.last
    }

    pub closed spec fn cooldown(&self) -> u64 {
        self.cooldown_ms
    }

    /// A debounce that has sent nothing yet.
    pub fn new(cooldown_ms: u64) -> (r: Self)
        ensures
            r.last_sent() is None,
            r.cooldown() == cooldown_ms,
    {
        Debounce { last: None, cooldown_ms }
    }

    /// Whether a notification may go out at time `now`: the first one
    /// always, a later one once the cooldown has passed since the last that
    /// went out. A notification that goes out is recorded.
    pub fn try_fire_at(&mut self, now: u64) -> (r: bool)
        ensures
            r == match old(self).last_sent() {
                None => true,
                Some(t) => now >= t && now - t >= old(self).cooldown(),
            },
            r ==> final(self).last_sent() == Some(now),
            !r ==> final(self).last_sent() == old(self).last_sent(),
            final(self).cooldown() == old(self).cooldown(),
    {
        let fire = match self.last {
            None => true,
            Some(t) => now >= t && now - t >= self.cooldown_ms,
        };
        if fire {
            self.last = Some(now);
        }
        fire
    }
}

/// `s` without its trailing slashes.
pub open spec fn trim_slashes(s: Seq<char>) -> Seq<char>
    decreases s.len(),
{
    if s.len() > 0 && s.last() == '/' {
        trim_slashes(s.drop_last())
    } else {
        s
    }
}

/// The relay's base URL, without trailing slashes.
pub fn relay_base_url(url: &str) -> (r: String)
    ensures
        r@ == trim_slashes(url@),
{
    let v = chars_of(url);
    let mut end = v.len();
    assert(v@.subrange(0, end as int) =~= v@);
    while end > 0 && v[end - 1] == '/'
        invariant
            end <= v@.len(),
            v@ == url@,
            trim_slashes(url@) == trim_slashes(v@.subrange(0, end as int)),
        decreases end,
    {
        assert(v@.subrange(0, end as int).drop_last() =~= v@.subrange(0, end - 1));
        end = end - 1;
    }
    string_of(&v, 0, end)
}

} // verus!
