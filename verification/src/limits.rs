//! The rate limit on requests per client, and the idle clock of an ephemeral
//! server.

use vstd::prelude::*;
use vstd::hash_map::StringHashMap;
use crate::flit::Reply;
use crate::outside::now;

verus! {

/// The length of a rate window, in seconds.
pub open spec fn rate_window() -> u64 {
    60
}

/// One step of the rate limit for a client whose window is `entry` (its start
/// and the requests counted in it), at time `now`, under `limit` requests per
/// window (0 for no limit): whether the request is let in, and the client's
/// window afterwards. A request outside the current window opens a new one.
pub open spec fn rate_step(limit: u32, entry: Option<(u64, u32)>, now: u64) -> (bool, Option<(u64, u32)>) {
    if limit == 0 {
        (true, entry)
    } else {
        match entry {
            Some((start, count)) => if now < start + rate_window() {
                if count < limit {
                    (true, Some((start, (count + 1) as u32)))
                } else {
                    (false, Some((start, count)))
                }
            } else {
                (true, Some((now, 1u32)))
            },
            None => (true, Some((now, 1u32))),
        }
    }
}

/// What a request over the limit is answered.
pub open spec fn rate_refusal() -> Reply {
    Reply::Text(429, "too many requests")
}

/// A request of `client` at `now` was counted: let in (`None`) or refused as
/// `rate_step` decides, with the client's window updated and the others kept.
pub open spec fn rate_checked(
    old: RateLimiter,
    client: Seq<char>,
    now: u64,
    new: RateLimiter,
    r: Option<Reply>,
) -> bool {
    let (admitted, next) = rate_step(old.limit(), old.windows().get(client), now);
    &&& new.limit() == old.limit()
    &&& (admitted ==> r is None)
    &&& (!admitted ==> r == Some(rate_refusal()))
    &&& new.windows() == match next {
        Some(w) => old.windows().insert(client, w),
        None => old.windows(),
    }
}

/// Counts each client's requests in fixed windows and refuses those over the
/// limit.
pub struct RateLimiter {
    limit: u32,
    windows: StringHashMap<(u64, u32)>,
}

impl RateLimiter {
    pub closed spec fn limit(&self) -> u32 {
        self.limit
    }

    /// Each client's window: its start and the requests counted in it.
    pub closed spec fn windows(&self) -> Map<Seq<char>, (u64, u32)> {
        self.windows@
    }

    /// A limiter of `limit` requests per client and window (0 for none).
    pub fn new(limit: u32) -> (r: RateLimiter)
        ensures
            r.limit() == limit,
            r.windows() == Map::<Seq<char>, (u64, u32)>::empty(),
    {
        RateLimiter { limit, windows: StringHashMap::new() }
    }

    /// Counts a request of `client` at `now`: `None` lets it in, else the
    /// refusal (429).
    pub fn check_at(&mut self, client: &str, now: u64) -> (r: Option<Reply>)
        ensures
            rate_checked(*old(self), client@, now, *final(self), r),
    {
        if self.limit == 0 {
            proof {
                if self.windows@.contains_key(client@) {
                    assert(self.windows@.insert(client@, self.windows@[client@]) =~= self.windows@);
                }
            }
            return None;
        }
        let entry = match self.windows.get(client) {
            Some(w) => Some(*w),
            None => None,
        };
        match entry {
            Some((start, count)) => {
                if now < start || now - start < 60 {
                    if count < self.limit {
                        self.windows.insert(String::from_str(client), (start, count + 1));
                        None
                    } else {
                        proof {
                            assert(self.windows@.insert(client@, (start, count)) =~= self.windows@);
                        }
                        Some(Reply::Text(429, "too many requests"))
                    }
                } else {
                    self.windows.insert(String::from_str(client), (now, 1));
                    None
                }
            },
            None => {
                self.windows.insert(String::from_str(client), (now, 1));
                None
            },
        }
    }

    /// Counts a request of `client` at the current time (see `check_at`).
    pub fn check(&mut self, client: &str) -> (r: Option<Reply>)
        ensures
            exists|t: u64| #[trigger] rate_checked(*old(self), client@, t, *final(self), r),
    {
        let t = now();
        self.check_at(client, t)
    }
}

/// When the server last served a request, for the ephemeral mode's idle exit.
pub struct Activity {
    last: u64,
}

/// An ephemeral server with an idle limit of `idle_secs` seconds (0 for none)
/// that last served a request at `last` is due to exit at `now` once that many
/// seconds have passed.
pub open spec fn idle_exit_due_spec(last: u64, now: u64, idle_secs: u64) -> bool {
    idle_secs > 0 && now >= last + idle_secs
}

impl Activity {
    pub closed spec fn last(&self) -> u64 {
        self.last
    }

    /// Activity that starts at `now`.
    pub fn new(now: u64) -> (r: Activity)
        ensures
            r.last() == now,
    {
        Activity { last: now }
    }

    /// Records a request at `now`.
    pub fn touch(&mut self, now: u64)
        ensures
            final(self).last() == now,
    {
        self.last = now;
    }

    /// Whether the server has been idle for `idle_secs` seconds at `now`.
    pub fn idle_exit_due(&self, now: u64, idle_secs: u64) -> (r: bool)
        ensures
            r == idle_exit_due_spec(self.last(), now, idle_secs),
    {
        idle_secs > 0 && now >= self.last && now - self.last >= idle_secs
    }
}

} // verus!
