//! Server counters: requests, connections, bytes, cache hits and misses,
//! range requests, compressed responses and a count per response status.
//! Counters wrap around on overflow, as atomic counters do.
use vstd::prelude::*;
use dashmap::DashMap;
use std::time::{Duration, Instant};
use crate::num::{decimal, push_decimal};
use crate::text::push_str;

verus! {

#[verifier::external_type_specification]
#[verifier::external_body]
#[verifier::reject_recursive_types(K)]
#[verifier::reject_recursive_types(V)]
#[verifier::reject_recursive_types(S)]
pub struct ExDashMap<K, V, S>(DashMap<K, V, S>);

#[verifier::external_type_specification]
#[verifier::external_body]
pub struct ExInstant(Instant);

/// A map from response status to the number of responses sent with it.
pub type StatusMap = DashMap<u16, u64>;

/// What a map of status counts holds.
pub uninterp spec fn status_map_contents(m: DashMap<u16, u64>) -> Map<u16, u64>;

/// `DashMap::new`: an empty map.
#[verifier::external_body]
fn status_map_new() -> (fresh: StatusMap)
    ensures
        status_map_contents(fresh) =~= Map::empty(),
{
    DashMap::new()
}

/// `DashMap::get`: the count held for `status`, if there is one.
#[verifier::external_body]
fn status_map_get(m: &DashMap<u16, u64>, status: u16) -> (r: Option<u64>)
    ensures
        r == status_map_contents(*m).get(status),
{
    match m.get(&status) {
        Some(entry) => Some(*entry),
        None => None,
    }
}

/// `DashMap::insert`: afterwards `status` maps to `count`, and every other
/// key keeps its count.
#[verifier::external_body]
fn status_map_insert(m: &mut DashMap<u16, u64>, status: u16, count: u64)
    ensures
        status_map_contents(*final(m)) == status_map_contents(*old(m)).insert(status, count),
{
    m.insert(status, count);
}

/// `Instant::now`; nothing is known of the instant returned.
#[verifier::external_body]
fn instant_now() -> (t: Instant) {
    Instant::now()
}

/// `Instant::elapsed`; nothing is known of the duration returned.
#[verifier::external_body]
fn instant_elapsed(t: &Instant) -> (d: Duration) {
    t.elapsed()
}

/// `Duration::as_secs`; nothing is known of the seconds returned.
#[verifier::external_body]
fn duration_secs(d: &Duration) -> (s: u64) {
    d.as_secs()
}

/// The counters of the server.
pub struct Counters {
    pub total_requests: u64,
    pub active_connections: u64,
    pub bytes_sent: u64,
    pub bytes_received: u64,
    pub status_counts: Map<u16, u64>,
    pub cache_hits: u64,
    pub cache_misses: u64,
    pub range_requests: u64,
    pub compressed_responses: u64,
}

/// Counters at start-up: all zero, no status seen.
pub open spec fn zero_counters() -> Counters {
    Counters {
        total_requests: 0,
        active_connections: 0,
        bytes_sent: 0,
        bytes_received: 0,
        status_counts: Map::empty(),
        cache_hits: 0,
        cache_misses: 0,
        range_requests: 0,
        compressed_responses: 0,
    }
}

/// `x + 1`, wrapping around.
pub open spec fn bump(x: u64) -> u64 {
    vstd::wrapping::u64_specs::wrapping_add(x, 1)
}

/// Metrics of a running server.
#[derive(Debug)]
pub struct ServerMetrics {
    start_time: Instant,
    total_requests: u64,
    active_connections: u64,
    bytes_sent: u64,
    bytes_received: u64,
    status_counts: DashMap<u16, u64>,
    cache_hits: u64,
    cache_misses: u64,
    range_requests: u64,
    compressed_responses: u64,
}

impl ServerMetrics {
    /// The counters.
    pub closed spec fn counters(self) -> Counters {
        Counters {
            total_requests: self.total_requests,
            active_connections: self.active_connections,
            bytes_sent: self.bytes_sent,
            bytes_received: self.bytes_received,
            status_counts: status_map_contents(self.status_counts),
            cache_hits: self.cache_hits,
            cache_misses: self.cache_misses,
            range_requests: self.range_requests,
            compressed_responses: self.compressed_responses,
        }
    }

    /// When the metrics were started.
    pub closed spec fn started(self) -> Instant {
        self.start_time
    }

    /// Fresh metrics, started now.
    pub fn new() -> (r: Self)
        ensures
            r.counters() == zero_counters(),
    {
        ServerMetrics {
            start_time: instant_now(),
            total_requests: 0,
            active_connections: 0,
            bytes_sent: 0,
            bytes_received: 0,
            status_counts: status_map_new(),
            cache_hits: 0,
            cache_misses: 0,
            range_requests: 0,
            compressed_responses: 0,
        }
    }

    /// When the metrics were started.
    pub fn start_time(&self) -> (t: Instant)
        ensures
            t == self.started(),
    {
        self.start_time
    }

    /// Whole seconds since the metrics were started.
    pub fn uptime_seconds(&self) -> (s: u64) {
        let d = instant_elapsed(&self.start_time);
        duration_secs(&d)
    }

    pub fn total_requests(&self) -> (n: u64)
        ensures
            n == self.counters().total_requests,
    {
        self.total_requests
    }

    pub fn increment_requests(&mut self)
        ensures
            final(self).started() == old(self).started(),
            final(self).counters() == (Counters {
                total_requests: bump(old(self).counters().total_requests),
                ..old(self).counters()
            }),
    {
        self.total_requests = self.total_requests.wrapping_add(1);
    }

    pub fn active_connections(&self) -> (n: u64)
        ensures
            n == self.counters().active_connections,
    {
        self.active_connections
    }

    pub fn increment_connections(&mut self)
        ensures
            final(self).started() == old(self).started(),
            final(self).counters() == (Counters {
                active_connections: bump(old(self).counters().active_connections),
                ..old(self).counters()
            }),
    {
        self.active_connections = self.active_connections.wrapping_add(1);
    }

    pub fn decrement_connections(&mut self)
        ensures
            final(self).started() == old(self).started(),
            final(self).counters() == (Counters {
                active_connections: vstd::wrapping::u64_specs::wrapping_sub(
                    old(self).counters().active_connections,
                    1,
                ),
                ..old(self).counters()
            }),
    {
        self.active_connections = self.active_connections.wrapping_sub(1);
    }

    pub fn bytes_sent(&self) -> (n: u64)
        ensures
            n == self.counters().bytes_sent,
    {
        self.bytes_sent
    }

    pub fn add_bytes_sent(&mut self, bytes: u64)
        ensures
            final(self).started() == old(self).started(),
            final(self).counters() == (Counters {
                bytes_sent: vstd::wrapping::u64_specs::wrapping_add(
                    old(self).counters().bytes_sent,
                    bytes,
                ),
                ..old(self).counters()
            }),
    {
        self.bytes_sent = self.bytes_sent.wrapping_add(bytes);
    }

    /// Counts one more response with `status`.
    pub fn record_status(&mut self, status: u16)
        requires
            old(self).counters().status_counts.dom().contains(status) ==> old(
                self,
            ).counters().status_counts[status] < u64::MAX,
        ensures
            final(self).started() == old(self).started(),
            final(self).counters() == (Counters {
                status_counts: old(self).counters().status_counts.insert(
                    status,
                    (if old(self).counters().status_counts.dom().contains(status) {
                        old(self).counters().status_counts[status] + 1
                    } else {
                        1
                    }) as u64,
                ),
                ..old(self).counters()
            }),
    {
        let current = match status_map_get(&self.status_counts, status) {
            Some(n) => n,
            None => 0,
        };
        status_map_insert(&mut self.status_counts, status, current + 1);
    }

    /// How many responses were counted with `status`.
    pub fn status_count(&self, status: u16) -> (n: u64)
        ensures
            n == (if self.counters().status_counts.dom().contains(status) {
                self.counters().status_counts[status]
            } else {
                0
            }),
    {
        match status_map_get(&self.status_counts, status) {
            Some(n) => n,
            None => 0,
        }
    }

    pub fn cache_hits(&self) -> (n: u64)
        ensures
            n == self.counters().cache_hits,
    {
        self.cache_hits
    }

    pub fn increment_cache_hits(&mut self)
        ensures
            final(self).started() == old(self).started(),
            final(self).counters() == (Counters {
                cache_hits: bump(old(self).counters().cache_hits),
                ..old(self).counters()
            }),
    {
        self.cache_hits = self.cache_hits.wrapping_add(1);
    }

    pub fn cache_misses(&self) -> (n: u64)
        ensures
            n == self.counters().cache_misses,
    {
        self.cache_misses
    }

    pub fn increment_cache_misses(&mut self)
        ensures
            final(self).started() == old(self).started(),
            final(self).counters() == (Counters {
                cache_misses: bump(old(self).counters().cache_misses),
                ..old(self).counters()
            }),
    {
        self.cache_misses = self.cache_misses.wrapping_add(1);
    }

    pub fn increment_range_requests(&mut self)
        ensures
            final(self).started() == old(self).started(),
            final(self).counters() == (Counters {
                range_requests: bump(old(self).counters().range_requests),
                ..old(self).counters()
            }),
    {
        self.range_requests = self.range_requests.wrapping_add(1);
    }

    pub fn increment_compressed_responses(&mut self)
        ensures
            final(self).started() == old(self).started(),
            final(self).counters() == (Counters {
                compressed_responses: bump(old(self).counters().compressed_responses),
                ..old(self).counters()
            }),
    {
        self.compressed_responses = self.compressed_responses.wrapping_add(1);
    }
}

impl Default for ServerMetrics {
    fn default() -> (r: Self)
        ensures
            r.counters() == zero_counters(),
    {
        Self::new()
    }
}

/// The uptime as shown in the health report: `<h>h <m>m <s>s`.
pub open spec fn uptime_text(secs: nat) -> Seq<char> {
    decimal(secs / 3600) + "h "@ + decimal((secs % 3600) / 60) + "m "@ + decimal(secs % 60)
        + "s"@
}

/// `format!("{}h {}m {}s", ..)` of an uptime in seconds.
pub fn format_uptime(secs: u64) -> (r: String)
    ensures
        r@ == uptime_text(secs as nat),
{
    let mut r = String::new();
    push_decimal(&mut r, secs / 3600);
    push_str(&mut r, "h ");
    push_decimal(&mut r, (secs % 3600) / 60);
    push_str(&mut r, "m ");
    push_decimal(&mut r, secs % 60);
    push_str(&mut r, "s");
    assert(r@ =~= uptime_text(secs as nat));
    r
}

} // verus!
