//! A cache for the last `Proxy-Authorization` value that the upstream proxy
//! accepted, so that later tunnels can skip the authentication handshake.
//!
//! Times are nanoseconds on a monotonic clock chosen by the caller.
use vstd::prelude::*;

verus! {

/// One hour, in nanoseconds: how long an accepted token is reused.
pub const TOKEN_TTL_NANOS: u64 = 3_600_000_000_000;

/// The last accepted authorization value and when it was stored.
pub struct SpnegoCache {
    token: Option<(String, u64)>,
    ttl: u64,
}

/// What a lookup at `now` yields from `entry`: the token while less than
/// `ttl` has elapsed since it was stored (a clock that went backwards
/// counts as no time elapsed).
pub open spec fn cache_lookup(entry: Option<(Seq<char>, u64)>, ttl: u64, now: u64) -> Option<
    Seq<char>,
> {
    match entry {
        Some((t, stamp)) => if (if now >= stamp {
            now - stamp
        } else {
            0
        }) < ttl {
            Some(t)
        } else {
            None
        },
        None => None,
    }
}

impl SpnegoCache {
    /// The stored token and its time stamp.
    pub closed spec fn entry(&self) -> Option<(Seq<char>, u64)> {
        match self.token {
            Some((t, stamp)) => Some((t@, stamp)),
            None => None,
        }
    }

    /// How long a stored token stays usable.
    pub closed spec fn ttl(&self) -> u64 {
        self.ttl
    }

    /// An empty cache whose tokens live one hour.
    pub fn new() -> (c: Self)
        ensures
            c.entry() is None,
            c.ttl() == TOKEN_TTL_NANOS,
    {
        SpnegoCache { token: None, ttl: TOKEN_TTL_NANOS }
    }

    /// The stored token, if it is still fresh at `now`.
    pub fn get(&self, now: u64) -> (r: Option<String>)
        ensures
            match cache_lookup(self.entry(), self.ttl(), now) {
                Some(t) => r matches Some(s) && s@ == t,
                None => r is None,
            },
    {
        match &self.token {
            Some((t, stamp)) => {
                let elapsed = if now >= *stamp {
                    now - *stamp
                } else {
                    0
                };
                if elapsed < self.ttl {
                    Some(t.clone())
                } else {
                    None
                }
            },
            None => None,
        }
    }

    /// Stores `token` as accepted at `now`, replacing any earlier one.
    pub fn set(&mut self, token: String, now: u64)
        ensures
            final(self).entry() == Some((token@, now)),
            final(self).ttl() == old(self).ttl(),
    {
        self.token = Some((token, now));
    }

    /// Forgets the stored token.
    pub fn clear(&mut self)
        ensures
            final(self).entry() is None,
            final(self).ttl() == old(self).ttl(),
    {
        self.token = None;
    }
}

/// The process-wide cache starts out as this value: empty, one-hour tokens.
pub fn spnego_cache() -> (c: SpnegoCache)
    ensures
        c.entry() is None,
        c.ttl() == TOKEN_TTL_NANOS,
{
    SpnegoCache::new()
}

/// A token stored at `stamp` is returned by every lookup made less than the
/// lifetime later.
pub proof fn lemma_stored_token_is_returned(token: Seq<char>, stamp: u64, ttl: u64, now: u64)
    requires
        stamp <= now,
        now - stamp < ttl,
    ensures
        cache_lookup(Some((token, stamp)), ttl, now) == Some(token),
{
}

/// Once the lifetime has elapsed a stored token is no longer returned.
pub proof fn lemma_stale_token_is_dropped(token: Seq<char>, stamp: u64, ttl: u64, now: u64)
    requires
        stamp <= now,
        now - stamp >= ttl,
    ensures
        cache_lookup(Some((token, stamp)), ttl, now) is None,
{
}

/// A cleared cache answers no lookup.
pub proof fn lemma_cleared_cache_is_empty(ttl: u64, now: u64)
    ensures
        cache_lookup(None, ttl, now) is None,
{
}

} // verus!
