//! Message-orchestration core for a chat relay: per-sender sessions with
//! idle expiry, burst debouncing, token-bucket rate limiting, echo
//! suppression, outbound chunking and reconnect backoff.
//!
//! All state is kept in memory and rebuilt at startup.  Time never comes
//! from a clock inside this crate: every operation that depends on it takes
//! the current time in milliseconds as an argument, so the behaviour of each
//! function is a function of its inputs alone.

pub mod bucket;
pub mod chunk;
pub mod debounce;
pub mod dispatch;
pub mod echo;
pub mod shared_map;
pub mod state;
pub mod stats;
pub mod transport;
pub mod text;

use vstd::prelude::*;

verus! {

/// Maximum outbound message length before splitting into multiple parts.
pub const MAX_MSG_LEN: usize = 4000;

/// Reply length at or above which the reply is flagged as likely truncated.
pub const TRUNCATION_THRESHOLD: usize = 3500;

/// Default debounce window in milliseconds.
pub const DEFAULT_DEBOUNCE_MS: u64 = 3000;

/// Delay between successive parts of a chunked reply, in milliseconds.
pub const INTER_PART_DELAY_MS: u64 = 200;

/// Version string reported by the status snapshot.
pub const VERSION: &'static str = "0.1.0";

/// `a + b`, saturating at the limit of the counter.
pub open spec fn sat_add(a: u64, b: u64) -> u64 {
    if a + b <= u64::MAX {
        (a + b) as u64
    } else {
        u64::MAX
    }
}

} // verus!
