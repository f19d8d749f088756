//! Counts of running background processes, mirrored from the process
//! registry, and the status lines for stopping and pruning jobs.

use vstd::prelude::*;
use crate::text::{decimal, push_decimal};

verus! {

/// Cached counts of running background processes.
#[derive(Debug, Clone, Copy, PartialEq, Eq, Structural)]
pub struct BackgroundCounters {
    pub total: usize,
    pub interactive: usize,
    pub persistent: usize,
}

impl Default for BackgroundCounters {
    fn default() -> (c: BackgroundCounters)
        ensures
            c == (BackgroundCounters { total: 0, interactive: 0, persistent: 0 }),
    {
        BackgroundCounters { total: 0, interactive: 0, persistent: 0 }
    }
}

impl BackgroundCounters {
    /// Zero every count.
    pub fn clear(&mut self)
        ensures
            *final(self) == (BackgroundCounters { total: 0, interactive: 0, persistent: 0 }),
    {
        self.total = 0;
        self.interactive = 0;
        self.persistent = 0;
    }

    /// Take the counts the registry reports.
    pub fn set(&mut self, total: usize, interactive: usize, persistent: usize)
        ensures
            *final(self) == (BackgroundCounters { total, interactive, persistent }),
    {
        self.total = total;
        self.interactive = interactive;
        self.persistent = persistent;
    }

    /// Before a new user turn, non-persistent processes are stopped only
    /// when some process runs at all.
    pub fn needs_cleanup(&self) -> (b: bool)
        ensures
            b == (self.total != 0),
    {
        self.total != 0
    }
}

/// What stopping one job came to.
#[derive(Debug, Clone, PartialEq, Eq)]
pub enum KillOutcome {
    /// It was stopped and removed from the registry.
    Stopped,
    /// Stopping it failed, for this reason.
    Failed(String),
    /// No job has that id.
    Missing,
}

/// The status line for stopping job `id`.
pub open spec fn kill_status_spec(id: u64, outcome: KillOutcome) -> Seq<char> {
    match outcome {
        KillOutcome::Stopped => "Stopped job #"@ + decimal(id as nat) + "."@,
        KillOutcome::Failed(error) => "Failed to stop job #"@ + decimal(id as nat) + ": "@ + error@,
        KillOutcome::Missing => "No job with id="@ + decimal(id as nat) + "."@,
    }
}

/// The user-facing status line for stopping job `id`.
pub fn kill_status(id: u64, outcome: &KillOutcome) -> (s: String)
    ensures
        s@ == kill_status_spec(id, *outcome),
{
    match outcome {
        KillOutcome::Stopped => {
            let mut s = "Stopped job #".to_owned();
            push_decimal(&mut s, id);
            s.append(".");
            s
        },
        KillOutcome::Failed(error) => {
            let mut s = "Failed to stop job #".to_owned();
            push_decimal(&mut s, id);
            s.append(": ");
            s.append(error.as_str());
            s
        },
        KillOutcome::Missing => {
            let mut s = "No job with id=".to_owned();
            push_decimal(&mut s, id);
            s.append(".");
            s
        },
    }
}

/// The status line after pruning `finished` finished and `expired` expired
/// jobs.
pub open spec fn prune_status_spec(finished: usize, expired: usize) -> Seq<char> {
    if finished == 0 && expired == 0 {
        "No jobs pruned."@
    } else {
        "Pruned jobs: finished="@ + decimal(finished as nat) + ", expired="@ + decimal(expired as nat)
            + "."@
    }
}

/// The user-facing status line after pruning jobs.
pub fn prune_status(finished: usize, expired: usize) -> (s: String)
    ensures
        s@ == prune_status_spec(finished, expired),
{
    if finished == 0 && expired == 0 {
        "No jobs pruned.".to_owned()
    } else {
        let mut s = "Pruned jobs: finished=".to_owned();
        push_decimal(&mut s, finished as u64);
        s.append(", expired=");
        push_decimal(&mut s, expired as u64);
        s.append(".");
        s
    }
}

} // verus!
