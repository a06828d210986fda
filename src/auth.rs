//! Constant-time credential comparison and a per-client rate limiter.
use vstd::prelude::*;
use vstd::string::StringSliceAdditionalSpecFns;

use crate::provider::common::{elapsed_millis_u64, prune, recent, window_millis};
use crate::utils::time::instant_now;

verus! {

/// Whether two byte strings are equal, looking at every byte of equal-length
/// inputs whatever they hold.
pub fn constant_time_eq(a: &[u8], b: &[u8]) -> (r: bool)
    ensures
        r == (a@ == b@),
{
    if a.len() != b.len() {
        return false;
    }
    let mut result: u8 = 0;
    let mut i: usize = 0;
    proof {
        assert(a@.take(0) =~= b@.take(0));
    }
    while i < a.len()
        invariant
            a@.len() == b@.len(),
            i <= a@.len(),
            (result == 0) == (a@.take(i as int) == b@.take(i as int)),
        decreases a@.len() - i,
    {
        let x = a[i];
        let y = b[i];
        let ghost prev = result;
        result = result | (x ^ y);
        proof {
            assert((prev | (x ^ y)) == 0 <==> (prev == 0 && x == y)) by (bit_vector);
            assert(a@.take(i + 1) == a@.take(i as int).push(x));
            assert(b@.take(i + 1) == b@.take(i as int).push(y));
            if a@.take(i as int) == b@.take(i as int) && x == y {
                assert(a@.take(i + 1) =~= b@.take(i + 1));
            }
            if a@.take(i + 1) == b@.take(i + 1) {
                assert(a@.take(i + 1).drop_last() =~= a@.take(i as int));
                assert(b@.take(i + 1).drop_last() =~= b@.take(i as int));
                assert(a@.take(i + 1)[i as int] == x);
            }
        }
        i += 1;
    }
    proof {
        assert(a@.take(a@.len() as int) =~= a@);
        assert(b@.take(b@.len() as int) =~= b@);
    }
    result == 0
}


/// The calls recorded for `client`: those of the last slot of that client,
/// or none.
pub open spec fn history(slots: Seq<(String, Vec<u64>)>, client: Seq<char>) -> Seq<u64>
    decreases slots.len(),
{
    if slots.len() == 0 {
        Seq::empty()
    } else if slots.last().0@ == client {
        slots.last().1@
    } else {
        history(slots.drop_last(), client)
    }
}

/// Removing the slot of another client leaves a client's calls as they were.
proof fn lemma_history_remove(slots: Seq<(String, Vec<u64>)>, i: int, client: Seq<char>)
    requires
        0 <= i < slots.len(),
        slots[i].0@ != client,
    ensures
        history(slots.remove(i), client) == history(slots, client),
    decreases slots.len(),
{
    if i == slots.len() - 1 {
        assert(slots.remove(i) =~= slots.drop_last());
    } else {
        assert(slots.remove(i).drop_last() =~= slots.drop_last().remove(i));
        assert(slots.remove(i).last() == slots.last());
        lemma_history_remove(slots.drop_last(), i, client);
    }
}

/// One admission check of a client: its calls older than the window are
/// forgotten, then the call is admitted and recorded if fewer than `max`
/// remain.
pub open spec fn client_admission(calls: Seq<u64>, now: u64, max: int, window: int) -> (
    bool,
    Seq<u64>,
) {
    if recent(calls, now, window).len() < max {
        (true, recent(calls, now, window).push(now))
    } else {
        (false, recent(calls, now, window))
    }
}

/// Limits authentication attempts per client within a sliding window.
pub struct RateLimiter {
    attempts: Vec<(String, Vec<u64>)>,
    max_attempts: usize,
    window_seconds: u64,
    origin: std::time::Instant,
}

impl RateLimiter {
    /// The recorded attempts of a client, in milliseconds since the limiter
    /// was made.
    pub closed spec fn attempts_of(&self, client: Seq<char>) -> Seq<u64> {
        history(self.attempts@, client)
    }

    /// The most attempts admitted per client within one window.
    pub closed spec fn limit(&self) -> usize {
        self.max_attempts
    }

    /// The window, in seconds.
    pub closed spec fn window(&self) -> u64 {
        self.window_seconds
    }

    /// A limiter of `max_attempts` per client per `window_seconds`.
    pub fn new(max_attempts: usize, window_seconds: u64) -> (r: Self)
        ensures
            r.limit() == max_attempts,
            r.window() == window_seconds,
            forall|c: Seq<char>| #[trigger] r.attempts_of(c).len() == 0,
    {
        RateLimiter {
            attempts: Vec::new(),
            max_attempts,
            window_seconds,
            origin: instant_now(),
        }
    }

    /// The admission check of `client_id` at `now` (milliseconds since the
    /// limiter was made); other clients are not affected.
    pub fn check_rate_limit_at(&mut self, client_id: &str, now: u64) -> (r: bool)
        ensures
            (r, final(self).attempts_of(client_id@)) == client_admission(
                old(self).attempts_of(client_id@),
                now,
                old(self).limit() as int,
                window_millis(old(self).window()),
            ),
            forall|c: Seq<char>|
                c != client_id@ ==> #[trigger] final(self).attempts_of(c) == old(self).attempts_of(c),
            final(self).limit() == old(self).limit(),
            final(self).window() == old(self).window(),
    {
        let key = String::from_str(client_id);
        let mut i: usize = self.attempts.len();
        let mut found = false;
        proof {
            assert(self.attempts@.take(i as int) =~= self.attempts@);
        }
        while i > 0 && !found
            invariant
                i <= self.attempts@.len(),
                found ==> i < self.attempts@.len() && self.attempts@[i as int].0@ == key@
                    && history(self.attempts@, key@) == self.attempts@[i as int].1@,
                !found ==> history(self.attempts@, key@) == history(self.attempts@.take(i as int), key@),
            decreases i + (if found { 0int } else { 1int }),
        {
            proof {
                assert(self.attempts@.take(i as int).drop_last() =~= self.attempts@.take(i - 1));
            }
            if self.attempts[i - 1].0 == key {
                found = true;
            }
            i -= 1;
        }
        let ghost before = self.attempts@;
        let calls: Vec<u64> = if found {
            let slot = self.attempts.remove(i);
            proof {
                assert forall|c: Seq<char>| c != key@ implies history(self.attempts@, c) == history(
                    before,
                    c,
                ) by {
                    lemma_history_remove(before, i as int, c);
                }
            }
            slot.1
        } else {
            Vec::new()
        };
        let window = self.window_seconds as u128 * 1000;
        let mut kept = prune(&calls, now, window);
        let ok = kept.len() < self.max_attempts;
        if ok {
            kept.push(now);
        }
        let ghost rest = self.attempts@;
        self.attempts.push((key, kept));
        proof {
            assert(self.attempts@.drop_last() =~= rest);
        }
        ok
    }

    /// The admission check of `client_id` at the current time.
    pub fn check_rate_limit(&mut self, client_id: &str) -> (r: bool)
        ensures
            exists|now: u64|
                (r, final(self).attempts_of(client_id@)) == client_admission(
                    old(self).attempts_of(client_id@),
                    now,
                    old(self).limit() as int,
                    window_millis(old(self).window()),
                ),
            forall|c: Seq<char>|
                c != client_id@ ==> #[trigger] final(self).attempts_of(c) == old(self).attempts_of(c),
    {
        let now = elapsed_millis_u64(&self.origin);
        self.check_rate_limit_at(client_id, now)
    }
}


/// Why a request was refused.
#[derive(Debug, Clone, Copy, PartialEq, Eq, Structural)]
pub enum AuthRejection {
    /// The client exceeded its rate limit (HTTP 429, retry after 60 s).
    TooManyRequests,
    /// The credential is missing or wrong (HTTP 401).
    Unauthorized,
}

impl AuthRejection {
    /// The HTTP status of the refusal.
    pub fn status_code(&self) -> (r: u16)
        ensures
            *self == AuthRejection::TooManyRequests ==> r == 429,
            *self == AuthRejection::Unauthorized ==> r == 401,
    {
        match self {
            AuthRejection::TooManyRequests => 429,
            AuthRejection::Unauthorized => 401,
        }
    }
}

/// Whether a request carries the API key: the `Authorization` header, if
/// present, must equal the key byte for byte, compared in constant time.
pub fn check_credential(header: Option<&str>, api_key: &str) -> (r: Result<(), AuthRejection>)
    ensures
        r is Ok <==> (header matches Some(h) && h.spec_bytes() == api_key.spec_bytes()),
        r is Err ==> r == Err::<(), AuthRejection>(AuthRejection::Unauthorized),
        r == check_credential_spec(header, api_key),
{
    match header {
        Some(h) => if constant_time_eq(h.as_bytes(), api_key.as_bytes()) {
            Ok(())
        } else {
            Err(AuthRejection::Unauthorized)
        },
        None => Err(AuthRejection::Unauthorized),
    }
}

/// Admits a request of `client_id`: first against the rate limiter, then
/// by its credential.
pub fn validate_auth_header(
    rate_limiter: &mut RateLimiter,
    client_id: &str,
    header: Option<&str>,
    api_key: &str,
) -> (r: Result<(), AuthRejection>)
    ensures
        exists|now: u64|
            {
                let outcome = #[trigger] client_admission(
                    old(rate_limiter).attempts_of(client_id@),
                    now,
                    old(rate_limiter).limit() as int,
                    window_millis(old(rate_limiter).window()),
                );
                &&& final(rate_limiter).attempts_of(client_id@) == outcome.1
                &&& !outcome.0 ==> r == Err::<(), AuthRejection>(AuthRejection::TooManyRequests)
                &&& outcome.0 ==> r == check_credential_spec(header, api_key)
            },
{
    if !rate_limiter.check_rate_limit(client_id) {
        return Err(AuthRejection::TooManyRequests);
    }
    check_credential(header, api_key)
}

/// The outcome `check_credential` gives.
pub open spec fn check_credential_spec(header: Option<&str>, api_key: &str) -> Result<(), AuthRejection> {
    if header matches Some(h) && h.spec_bytes() == api_key.spec_bytes() {
        Ok(())
    } else {
        Err(AuthRejection::Unauthorized)
    }
}

} // verus!
