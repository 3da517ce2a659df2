//! The read-only status snapshot exposed to operators.

use vstd::prelude::*;
use vstd::string::StringExecFns;

use crate::state::State;

verus! {

/// A point-in-time view of the counters, safe to hand to any reporting
/// channel.
pub struct StatsSnapshot {
    /// Seconds since the process started.
    pub uptime_secs: u64,
    /// Inbound messages accepted from allowed senders.
    pub messages: u64,
    /// Sessions currently live.
    pub active_sessions: usize,
    /// Senders on the allow list.
    pub allowed_senders: usize,
    /// Cumulative backend cost, in microdollars.
    pub total_cost_micros: u64,
    /// The configured default model.
    pub model: String,
    /// This library's version.
    pub version: String,
}

/// Snapshot every counter of the shared state at `now_ms`.
pub fn build_stats_snapshot(s: &State, now_ms: u64) -> (r: StatsSnapshot)
    ensures
        r.uptime_secs == if now_ms >= s.metrics.start_ms {
            ((now_ms - s.metrics.start_ms) / 1000) as u64
        } else {
            0u64
        },
        r.messages == s.metrics.message_count,
        r.active_sessions == s.sessions_map().dom().len(),
        r.allowed_senders == s.allowed_set().len(),
        r.total_cost_micros == s.metrics.total_cost_micros,
        r.model@ == s.config.model@,
        r.version@ == crate::VERSION@,
{
    StatsSnapshot {
        uptime_secs: if now_ms >= s.metrics.start_ms {
            (now_ms - s.metrics.start_ms) / 1000
        } else {
            0
        },
        messages: s.metrics.message_count,
        active_sessions: s.session_count(),
        allowed_senders: s.allowed_count(),
        total_cost_micros: s.metrics.total_cost_micros,
        model: s.config.model.clone(),
        version: String::from_str(crate::VERSION),
    }
}

} // verus!
