//! Counters of connection-pool activity and the metrics built from them.
use vstd::prelude::*;

use crate::db_pool::PoolStatus;
use crate::utils::time::{read_clock_millis, seconds_from_reading};

verus! {

/// A report on one connection pool.
#[derive(Debug, Clone)]
pub struct PoolMetrics {
    pub pool_name: String,
    pub size: usize,
    pub available: usize,
    pub waiting: usize,
    pub total_connections_created: u64,
    pub total_connections_recycled: u64,
    pub total_connection_errors: u64,
    pub average_wait_time_ms: u64,
    pub timestamp: i64,
}

/// `a + b` wrapped around at 2^64.
pub open spec fn wrapped_sum(a: u64, b: u64) -> u64 {
    if a + b <= u64::MAX {
        (a + b) as u64
    } else {
        (a + b - 0x1_0000_0000_0000_0000) as u64
    }
}

/// `a + b`, wrapping around at 2^64.
fn wrapping_add_u64(a: u64, b: u64) -> (r: u64)
    ensures
        r == wrapped_sum(a, b),
{
    if a <= u64::MAX - b {
        a + b
    } else {
        a - (u64::MAX - b) - 1
    }
}

/// Counts connections created, recycled and failed, and waits for a
/// connection; the counters wrap around on overflow.
pub struct PoolMonitor {
    total_connections_created: u64,
    total_connections_recycled: u64,
    total_connection_errors: u64,
    total_wait_time_ms: u64,
    wait_count: u64,
}

impl PoolMonitor {
    /// Connections created so far.
    pub closed spec fn created(&self) -> u64 {
        self.total_connections_created
    }

    /// Connections recycled so far.
    pub closed spec fn recycled(&self) -> u64 {
        self.total_connections_recycled
    }

    /// Connection errors so far.
    pub closed spec fn errors(&self) -> u64 {
        self.total_connection_errors
    }

    /// Total time spent waiting, in milliseconds.
    pub closed spec fn wait_total(&self) -> u64 {
        self.total_wait_time_ms
    }

    /// Number of waits recorded.
    pub closed spec fn waits(&self) -> u64 {
        self.wait_count
    }

    /// A monitor with every counter at zero.
    pub fn new() -> (r: Self)
        ensures
            r.created() == 0 && r.recycled() == 0 && r.errors() == 0,
            r.wait_total() == 0 && r.waits() == 0,
    {
        PoolMonitor {
            total_connections_created: 0,
            total_connections_recycled: 0,
            total_connection_errors: 0,
            total_wait_time_ms: 0,
            wait_count: 0,
        }
    }

    /// Counts one connection created.
    pub fn record_connection_created(&mut self)
        ensures
            final(self).created() == wrapped_sum(old(self).created(), 1),
            final(self).recycled() == old(self).recycled(),
            final(self).errors() == old(self).errors(),
            final(self).wait_total() == old(self).wait_total(),
            final(self).waits() == old(self).waits(),
    {
        self.total_connections_created = wrapping_add_u64(self.total_connections_created, 1);
    }

    /// Counts one connection recycled.
    pub fn record_connection_recycled(&mut self)
        ensures
            final(self).recycled() == wrapped_sum(old(self).recycled(), 1),
            final(self).created() == old(self).created(),
            final(self).errors() == old(self).errors(),
            final(self).wait_total() == old(self).wait_total(),
            final(self).waits() == old(self).waits(),
    {
        self.total_connections_recycled = wrapping_add_u64(self.total_connections_recycled, 1);
    }

    /// Counts one connection error.
    pub fn record_connection_error(&mut self)
        ensures
            final(self).errors() == wrapped_sum(old(self).errors(), 1),
            final(self).created() == old(self).created(),
            final(self).recycled() == old(self).recycled(),
            final(self).wait_total() == old(self).wait_total(),
            final(self).waits() == old(self).waits(),
    {
        self.total_connection_errors = wrapping_add_u64(self.total_connection_errors, 1);
    }

    /// Records one wait of `wait_time_ms` milliseconds.
    pub fn record_wait_time(&mut self, wait_time_ms: u64)
        ensures
            final(self).wait_total() == wrapped_sum(old(self).wait_total(), wait_time_ms),
            final(self).waits() == wrapped_sum(old(self).waits(), 1),
            final(self).created() == old(self).created(),
            final(self).recycled() == old(self).recycled(),
            final(self).errors() == old(self).errors(),
    {
        self.total_wait_time_ms = wrapping_add_u64(self.total_wait_time_ms, wait_time_ms);
        self.wait_count = wrapping_add_u64(self.wait_count, 1);
    }

    /// The mean wait in milliseconds, rounded down; zero before any wait.
    pub fn get_average_wait_time(&self) -> (r: u64)
        ensures
            self.waits() == 0 ==> r == 0,
            self.waits() > 0 ==> r == self.wait_total() / self.waits(),
    {
        if self.wait_count == 0 {
            0
        } else {
            self.total_wait_time_ms / self.wait_count
        }
    }

    /// The metrics of a pool with the given occupancy, stamped `timestamp`.
    pub fn metrics_at(
        &self,
        pool_name: String,
        size: usize,
        available: usize,
        waiting: usize,
        timestamp: i64,
    ) -> (r: PoolMetrics)
        ensures
            r.pool_name == pool_name,
            r.size == size && r.available == available && r.waiting == waiting,
            r.total_connections_created == self.created(),
            r.total_connections_recycled == self.recycled(),
            r.total_connection_errors == self.errors(),
            self.waits() == 0 ==> r.average_wait_time_ms == 0,
            self.waits() > 0 ==> r.average_wait_time_ms == self.wait_total() / self.waits(),
            r.timestamp == timestamp,
    {
        PoolMetrics {
            pool_name,
            size,
            available,
            waiting,
            total_connections_created: self.total_connections_created,
            total_connections_recycled: self.total_connections_recycled,
            total_connection_errors: self.total_connection_errors,
            average_wait_time_ms: self.get_average_wait_time(),
            timestamp,
        }
    }

    /// The metrics of a pool with the given occupancy, stamped with the
    /// current time in seconds (zero when the clock cannot be read).
    pub fn get_metrics(&self, pool_name: String, size: usize, available: usize, waiting: usize) -> (r:
        PoolMetrics)
        ensures
            r.pool_name == pool_name,
            r.size == size && r.available == available && r.waiting == waiting,
            r.total_connections_created == self.created(),
            r.total_connections_recycled == self.recycled(),
            r.total_connection_errors == self.errors(),
            self.waits() == 0 ==> r.average_wait_time_ms == 0,
            self.waits() > 0 ==> r.average_wait_time_ms == self.wait_total() / self.waits(),
    {
        let timestamp = match seconds_from_reading(read_clock_millis()) {
            Ok(t) => t,
            Err(_) => 0,
        };
        self.metrics_at(pool_name, size, available, waiting, timestamp)
    }
}

/// The metrics of the pools that exist and are monitored: Homebrew's, then
/// Combo's, each stamped `timestamp`.
pub fn get_all_pool_metrics(
    homebrew: Option<(PoolStatus, &PoolMonitor)>,
    combo: Option<(PoolStatus, &PoolMonitor)>,
    timestamp: i64,
) -> (r: Vec<PoolMetrics>)
    ensures
        r@.len() == (if homebrew is Some { 1int } else { 0int }) + (if combo is Some {
            1int
        } else {
            0int
        }),
        homebrew matches Some((s, _)) ==> r@[0].pool_name@ == "homebrew"@ && r@[0].size == s.size
            && r@[0].available == s.available && r@[0].waiting == s.waiting,
        combo matches Some((s, _)) ==> r@.last().pool_name@ == "combo"@ && r@.last().size == s.size
            && r@.last().available == s.available && r@.last().waiting == s.waiting,
        forall|i: int| 0 <= i < r@.len() ==> (#[trigger] r@[i]).timestamp == timestamp,
{
    let mut metrics: Vec<PoolMetrics> = Vec::new();
    if let Some((status, monitor)) = homebrew {
        metrics.push(
            monitor.metrics_at(
                String::from_str("homebrew"),
                status.size,
                status.available,
                status.waiting,
                timestamp,
            ),
        );
    }
    if let Some((status, monitor)) = combo {
        metrics.push(
            monitor.metrics_at(
                String::from_str("combo"),
                status.size,
                status.available,
                status.waiting,
                timestamp,
            ),
        );
    }
    metrics
}


/// How a pool is doing.
#[derive(Debug, Clone, Copy, PartialEq, Eq, Structural)]
pub enum PoolHealth {
    /// No connection is available and requests wait.
    Exhausted,
    /// Fewer than a fifth of the connections are available.
    Low,
    Healthy,
}

/// Classifies a pool's occupancy: exhausted when nothing is available and
/// someone waits; low when fewer than a fifth of its connections are
/// available; healthy otherwise (an empty pool included).
pub fn pool_health(metrics: &PoolMetrics) -> (r: PoolHealth)
    ensures
        metrics.available == 0 && metrics.waiting > 0 ==> r == PoolHealth::Exhausted,
        !(metrics.available == 0 && metrics.waiting > 0) && metrics.size > 0 && 5 * metrics.available
            < metrics.size ==> r == PoolHealth::Low,
        !(metrics.available == 0 && metrics.waiting > 0) && !(metrics.size > 0 && 5
            * metrics.available < metrics.size) ==> r == PoolHealth::Healthy,
{
    if metrics.available == 0 && metrics.waiting > 0 {
        PoolHealth::Exhausted
    } else if metrics.size > 0 && (metrics.available as u128) * 5 < metrics.size as u128 {
        PoolHealth::Low
    } else {
        PoolHealth::Healthy
    }
}

} // verus!
