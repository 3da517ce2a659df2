//! Transport-side decisions: which inbound frames qualify as messages,
//! and the reconnect backoff state machine.  The connection itself is
//! the caller's business; this module only decides.

use vstd::prelude::*;

verus! {

/// Longest reconnect delay, in seconds.
pub const MAX_BACKOFF_SECS: u64 = 60;

/// Exponential reconnect backoff: 1 s after a success, doubling on each
/// consecutive failure, capped at one minute.
pub struct Backoff {
    /// The next delay to sleep before reconnecting, in seconds.
    pub delay_secs: u64,
}

impl Backoff {
    /// The delay always lies between one second and the cap.
    pub open spec fn wf(self) -> bool {
        1 <= self.delay_secs <= MAX_BACKOFF_SECS
    }

    /// A fresh backoff starts at one second.
    pub fn new() -> (b: Backoff)
        ensures
            b.wf(),
            b.delay_secs == 1,
    {
        Backoff { delay_secs: 1 }
    }

    /// A connection succeeded: the next failure waits one second again.
    pub fn on_connected(&mut self)
        ensures
            final(self).wf(),
            final(self).delay_secs == 1,
    {
        self.delay_secs = 1;
    }

    /// Take the delay to sleep now, and double it (up to the cap) for
    /// the next consecutive failure.
    pub fn delay_and_advance(&mut self) -> (d: u64)
        requires
            old(self).wf(),
        ensures
            final(self).wf(),
            d == old(self).delay_secs,
            final(self).delay_secs == if old(self).delay_secs * 2 <= MAX_BACKOFF_SECS {
                (old(self).delay_secs * 2) as u64
            } else {
                MAX_BACKOFF_SECS
            },
    {
        let d = self.delay_secs;
        self.delay_secs = if d <= MAX_BACKOFF_SECS / 2 {
            d * 2
        } else {
            MAX_BACKOFF_SECS
        };
        d
    }
}

/// Keep an inbound frame only when it carries both a sender and a
/// non-empty message text; receipts, typing indicators and empty
/// messages are dropped.
pub fn accept_event(source: Option<String>, message: Option<String>) -> (r: Option<
    (String, String),
>)
    ensures
        r is Some <==> (source is Some && message is Some && message->Some_0@.len() > 0),
        r is Some ==> r->Some_0.0@ == source->Some_0@ && r->Some_0.1@ == message->Some_0@,
{
    match (source, message) {
        (Some(s), Some(m)) => {
            if m.as_str().is_empty() {
                None
            } else {
                Some((s, m))
            }
        },
        _ => None,
    }
}

} // verus!
