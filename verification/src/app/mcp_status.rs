//! MCP status shown in the UI: the cached server counts and the throttle
//! on refreshing them. The counts are mirrored from the MCP manager on a
//! throttled poll so rendering never has to take the manager lock; the
//! panel's server list itself is the app's.

use vstd::prelude::*;
use crate::app::generation::now;
use crate::text::str_eq;
use std::time::{Duration, Instant};

verus! {

/// How long ago `since` was: `Instant::elapsed`. Which duration comes back
/// is the clock's, and nothing is stated of it.
#[verifier::external_body]
fn elapsed(since: &Instant) -> (d: Duration) {
    since.elapsed()
}

/// The whole seconds of `d`: `Duration::as_secs`. The duration is opaque
/// here, so nothing is stated of the count.
#[verifier::external_body]
fn whole_seconds(d: &Duration) -> (secs: u64) {
    d.as_secs()
}

/// What the counts read of one configured server.
#[derive(Debug, Clone)]
pub struct ServerState {
    pub enabled: bool,
    pub status: String,
}

/// The server is enabled and connected.
pub open spec fn is_connected(s: ServerState) -> bool {
    s.enabled && s.status@ == "connected"@
}

/// How many of `servers` are enabled and connected.
pub open spec fn connected_count(servers: Seq<ServerState>) -> nat
    decreases servers.len(),
{
    if servers.len() == 0 {
        0
    } else {
        connected_count(servers.drop_last()) + if is_connected(servers.last()) {
            1nat
        } else {
            0nat
        }
    }
}

/// UI-facing MCP status: cached server counts and when they were taken.
pub struct McpStatus {
    /// Total configured servers, mirrored from the manager.
    pub server_count: usize,
    /// Servers currently connected, mirrored from the manager.
    pub connected_count: usize,
    /// When the counts were last refreshed, for poll throttling.
    pub last_stats_update: Option<Instant>,
}

/// Minimum gap between throttled count refreshes, in seconds.
pub const STATS_INTERVAL_SECS: u64 = 2;

impl Default for McpStatus {
    fn default() -> (s: McpStatus)
        ensures
            s.server_count == 0,
            s.connected_count == 0,
            s.last_stats_update is None,
    {
        McpStatus { server_count: 0, connected_count: 0, last_stats_update: None }
    }
}

/// Whether a throttled refresh may run, given how many whole seconds ago the
/// last one was (`None`: never).
pub fn refresh_due_after(age_secs: Option<u64>) -> (due: bool)
    ensures
        due == match age_secs {
            None => true,
            Some(secs) => secs >= STATS_INTERVAL_SECS,
        },
{
    match age_secs {
        None => true,
        Some(secs) => secs >= STATS_INTERVAL_SECS,
    }
}

impl McpStatus {
    /// Whether a throttled refresh may run now: never refreshed, or the last
    /// refresh is at least the interval old.
    /// How old the last refresh is is the clock's answer, so only the
    /// never-refreshed case is stated here; [`refresh_due_after`] says what
    /// each age gives.
    pub fn stats_due(&self) -> (due: bool)
        ensures
            self.last_stats_update is None ==> due,
    {
        let age = match &self.last_stats_update {
            None => None,
            Some(last) => {
                let since = elapsed(last);
                Some(whole_seconds(&since))
            },
        };
        refresh_due_after(age)
    }

    /// Take fresh counts from the manager's server list, stamped with the
    /// current time. Returns whether the visible numbers changed (drives
    /// the dirty flag).
    pub fn record_servers(&mut self, servers: &[ServerState]) -> (changed: bool)
        ensures
            final(self).server_count == servers@.len(),
            final(self).connected_count == connected_count(servers@),
            final(self).last_stats_update is Some,
            changed == (connected_count(servers@) != old(self).connected_count || servers@.len()
                != old(self).server_count),
    {
        let mut connected: usize = 0;
        let mut i: usize = 0;
        while i < servers.len()
            invariant
                i <= servers@.len(),
                connected == connected_count(servers@.take(i as int)),
                connected <= i,
            decreases servers.len() - i,
        {
            assert(servers@.take(i + 1).drop_last() =~= servers@.take(i as int));
            if servers[i].enabled && str_eq(servers[i].status.as_str(), "connected") {
                connected += 1;
            }
            i += 1;
        }
        assert(servers@.take(servers@.len() as int) =~= servers@);
        let changed = connected != self.connected_count || servers.len() != self.server_count;
        self.connected_count = connected;
        self.server_count = servers.len();
        self.last_stats_update = Some(now());
        changed
    }

    /// Forget when the counts were taken, so the next poll refreshes them
    /// at once (after an MCP operation or the startup connects).
    pub fn invalidate(&mut self)
        ensures
            final(self).last_stats_update is None,
            final(self).server_count == old(self).server_count,
            final(self).connected_count == old(self).connected_count,
    {
        self.last_stats_update = None;
    }
}

} // verus!
