//! Burst debouncing: rapid successive fragments from one sender are
//! buffered and merged into a single prompt once the sender has been
//! quiet for the whole window, measured from the most recent fragment.
//! At most one merge timer is pending per sender; a fragment arriving
//! while one is pending extends it instead of scheduling a second.

use vstd::prelude::*;

use crate::sat_add;
use crate::shared_map::deb_get;
use crate::shared_map::deb_insert;
use crate::shared_map::deb_remove;
use crate::state::DebounceEntry;
use crate::state::State;
use crate::text::join_fragments;
use crate::text::spec_join;

verus! {

/// What became of one inbound fragment.
pub enum DebounceOutcome {
    /// Debouncing is disabled for this configuration: dispatch the
    /// fragment alone, immediately.
    DispatchNow,
    /// The fragment was buffered and no timer was pending: the caller
    /// must schedule a merge timer to fire at `fire_at_ms`.
    TimerArmed { fire_at_ms: u64 },
    /// The fragment was buffered under a timer that is already pending;
    /// the pending timer will see it and wait again.
    TimerPending,
}

/// What a merge timer found when it fired.
pub enum TimerOutcome {
    /// The sender has been quiet for the whole window: the buffered
    /// fragments, merged in arrival order, are ready to dispatch as one
    /// prompt.
    Dispatch(String),
    /// A fragment arrived during the window: wait again until
    /// `fire_at_ms`.
    Rearm { fire_at_ms: u64 },
    /// Nothing is buffered for this sender.
    Idle,
}

impl State {
    /// Buffer one inbound fragment, arming the merge timer if none is
    /// pending.  With a zero window the fragment passes straight
    /// through and the state is untouched.
    pub fn buffer_fragment(&mut self, sender: &str, text: &str, now_ms: u64) -> (r:
        DebounceOutcome)
        ensures
            *final(self) == (State { debounce: final(self).debounce, ..*old(self) }),
            old(self).config.debounce_ms == 0 ==> *final(self) == *old(self) && r
                is DispatchNow,
            old(self).config.debounce_ms > 0 ==> {
                &&& final(self).debounce_map() == old(self).debounce_map().insert(
                    sender@,
                    final(self).debounce_map()[sender@],
                )
                &&& ({
                    let entry = final(self).debounce_map()[sender@];
                    &&& entry.last_fragment_ms == now_ms
                    &&& entry.armed
                    &&& entry.fragments.deep_view() == if old(self).debounce_map().dom().contains(
                        sender@,
                    ) {
                        old(self).debounce_map()[sender@].fragments.deep_view().push(text@)
                    } else {
                        seq![text@]
                    }
                })
                &&& (if old(self).debounce_map().dom().contains(sender@) && old(
                    self,
                ).debounce_map()[sender@].armed {
                    r is TimerPending
                } else {
                    r matches DebounceOutcome::TimerArmed { fire_at_ms } && fire_at_ms == sat_add(
                        now_ms,
                        old(self).config.debounce_ms,
                    )
                })
            },
    {
        let window = self.config.debounce_ms;
        if window == 0 {
            return DebounceOutcome::DispatchNow;
        }
        let fire_at_ms = if now_ms <= u64::MAX - window {
            now_ms + window
        } else {
            u64::MAX
        };
        match deb_get(&self.debounce, sender) {
            Some(prev) => {
                let was_armed = prev.armed;
                let mut fragments = prev.fragments;
                fragments.push(text.to_owned());
                let entry = DebounceEntry { fragments, last_fragment_ms: now_ms, armed: true };
                proof {
                    assert(entry.fragments.deep_view() =~= old(
                        self,
                    ).debounce_map()[sender@].fragments.deep_view().push(text@));
                }
                deb_insert(&mut self.debounce, sender.to_owned(), entry);
                if was_armed {
                    DebounceOutcome::TimerPending
                } else {
                    DebounceOutcome::TimerArmed { fire_at_ms }
                }
            },
            None => {
                let mut fragments: Vec<String> = Vec::new();
                fragments.push(text.to_owned());
                let entry = DebounceEntry { fragments, last_fragment_ms: now_ms, armed: true };
                proof {
                    assert(entry.fragments.deep_view() =~= seq![text@]);
                }
                deb_insert(&mut self.debounce, sender.to_owned(), entry);
                DebounceOutcome::TimerArmed { fire_at_ms }
            },
        }
    }

    /// React to the merge timer firing: dispatch the merged prompt if
    /// the sender has been quiet for the whole window, otherwise report
    /// when to wake again.
    pub fn debounce_timer_fired(&mut self, sender: &str, now_ms: u64) -> (r: TimerOutcome)
        ensures
            *final(self) == (State { debounce: final(self).debounce, ..*old(self) }),
            !old(self).debounce_map().dom().contains(sender@) ==> *final(self) == *old(self) && r
                is Idle,
            old(self).debounce_map().dom().contains(sender@) ==> ({
                let entry = old(self).debounce_map()[sender@];
                let deadline = sat_add(entry.last_fragment_ms, old(self).config.debounce_ms);
                if now_ms >= deadline {
                    &&& final(self).debounce_map() == old(self).debounce_map().remove(sender@)
                    &&& r matches TimerOutcome::Dispatch(prompt) && prompt@ == spec_join(
                        entry.fragments.deep_view(),
                    )
                } else {
                    &&& *final(self) == *old(self)
                    &&& r matches TimerOutcome::Rearm { fire_at_ms } && fire_at_ms == deadline
                }
            }),
    {
        let window = self.config.debounce_ms;
        match deb_get(&self.debounce, sender) {
            None => TimerOutcome::Idle,
            Some(entry) => {
                let deadline = if entry.last_fragment_ms <= u64::MAX - window {
                    entry.last_fragment_ms + window
                } else {
                    u64::MAX
                };
                if now_ms >= deadline {
                    let prompt = join_fragments(&entry.fragments);
                    deb_remove(&mut self.debounce, sender);
                    TimerOutcome::Dispatch(prompt)
                } else {
                    TimerOutcome::Rearm { fire_at_ms: deadline }
                }
            },
        }
    }
}

} // verus!
