//! Connection-pool settings and status.
use vstd::prelude::*;

use crate::provider::common::{decimal, push_decimal};

verus! {

/// How a connection pool is set up.
#[derive(Debug, Clone)]
pub struct DatabaseConfig {
    pub db_name: String,
    pub username: String,
    pub password: String,
    pub host: String,
    pub port: Option<u16>,
    pub pool_size: Option<usize>,
    pub connection_timeout: Option<std::time::Duration>,
    pub idle_timeout: Option<std::time::Duration>,
    pub max_lifetime: Option<std::time::Duration>,
    pub use_ssl: bool,
}

/// A snapshot of a connection pool's occupancy.
#[derive(Debug, Clone, Copy)]
pub struct PoolStatus {
    pub size: usize,
    pub available: usize,
    pub waiting: usize,
}

impl PoolStatus {
    /// The line that reports this status for a pool:
    /// `[{pool}] Pool status - Size: {size}, Available: {available}, Waiting: {waiting}`.
    pub open spec fn spec_log(&self, pool_name: Seq<char>) -> Seq<char> {
        "["@ + pool_name + "] Pool status - Size: "@ + decimal(self.size as nat) + ", Available: "@
            + decimal(self.available as nat) + ", Waiting: "@ + decimal(self.waiting as nat)
    }

    /// The line that reports this status for a pool, for the caller's log.
    pub fn log(&self, pool_name: &str) -> (r: String)
        ensures
            r@ == self.spec_log(pool_name@),
    {
        let mut s = String::from_str("[");
        s.append(pool_name);
        s.append("] Pool status - Size: ");
        push_decimal(&mut s, self.size as u64);
        s.append(", Available: ");
        push_decimal(&mut s, self.available as u64);
        s.append(", Waiting: ");
        push_decimal(&mut s, self.waiting as u64);
        s
    }
}


/// What to do after a failed attempt to get a connection.
#[derive(Debug, Clone, Copy, PartialEq, Eq, Structural)]
pub enum RetryStep {
    /// Wait this many milliseconds, then try again.
    WaitMillis(u64),
    /// Give up and report the last error.
    GiveUp,
}

/// `100 * 2^failures` milliseconds, capped at `u64::MAX`.
pub open spec fn backoff_millis(failures: nat) -> int {
    let d: int = 100 * (vstd::arithmetic::power2::pow2(failures) as int);
    if d <= u64::MAX {
        d
    } else {
        u64::MAX as int
    }
}

/// The decision after `failures` failed attempts out of `max_retries`:
/// retry after an exponentially growing delay while attempts remain.
pub fn after_failed_attempt(failures: u32, max_retries: u32) -> (r: RetryStep)
    ensures
        failures >= max_retries ==> r == RetryStep::GiveUp,
        failures < max_retries ==> r == RetryStep::WaitMillis(backoff_millis(failures as nat) as u64),
{
    if failures >= max_retries {
        return RetryStep::GiveUp;
    }
    let mut d: u64 = 100;
    let mut i: u32 = 0;
    let mut capped = false;
    proof {
        vstd::arithmetic::power2::lemma2_to64();
    }
    while i < failures
        invariant
            i <= failures,
            !capped ==> d as int == 100 * vstd::arithmetic::power2::pow2(i as nat),
            capped ==> backoff_millis(i as nat) == u64::MAX as int && d == u64::MAX,
        decreases failures - i,
    {
        proof {
            vstd::arithmetic::power2::lemma_pow2_unfold((i + 1) as nat);
            vstd::arithmetic::power2::lemma_pow2_pos(i as nat);
        }
        if !capped && d <= u64::MAX / 2 {
            d = d * 2;
        } else {
            capped = true;
            d = u64::MAX;
        }
        i += 1;
    }
    RetryStep::WaitMillis(d)
}

} // verus!
