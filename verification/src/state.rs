//! The process-wide shared state: configuration, counters, and the
//! per-sender collections (sessions, debounce buffers, rate buckets,
//! sent-hash set, allow list, pending senders), together with the
//! session-manager operations.

use vstd::prelude::*;

use crate::bucket::TokenBucket;
use crate::shared_map::allow_contains;
use crate::shared_map::allow_insert;
use crate::shared_map::allow_len;
use crate::shared_map::allow_new;
use crate::shared_map::buckets_of;
use crate::shared_map::deb_new;
use crate::shared_map::debounce_of;
use crate::shared_map::hashes_new;
use crate::shared_map::hashes_of;
use crate::shared_map::members_of;
use crate::shared_map::rate_new;
use crate::shared_map::sess_entries;
use crate::shared_map::sess_get;
use crate::shared_map::sess_insert;
use crate::shared_map::sess_len;
use crate::shared_map::sess_new;
use crate::shared_map::sess_remove;
use crate::shared_map::sessions_of;
use dashmap::DashMap;

verus! {

/// Immutable configuration, set once at startup.
pub struct Config {
    /// Default backend model selector for new sessions.
    pub model: String,
    /// Per-invocation budget handed to the backend, in microdollars.
    pub max_budget_micros: u64,
    /// Rate limiting, if enabled: (capacity, refill rate per second), both
    /// in milli-tokens.
    pub rate_limit: Option<(u64, u64)>,
    /// Idle time after which a session may be swept, in milliseconds.
    pub session_ttl_ms: Option<u64>,
    /// Quiet period after which buffered fragments are merged; zero
    /// disables debouncing.
    pub debounce_ms: u64,
    /// The transport account this process serves.
    pub account: String,
}

/// Runtime counters.
pub struct Metrics {
    /// Process start time, in milliseconds.
    pub start_ms: u64,
    /// Inbound messages accepted from allowed senders.
    pub message_count: u64,
    /// Cumulative backend cost, in microdollars.
    pub total_cost_micros: u64,
}

/// One sender's ongoing conversation.
#[derive(Clone)]
pub struct SessionRec {
    /// Opaque identifier handed to the backend to resume context.
    pub session_id: String,
    /// Model selector in effect for this sender.
    pub model: String,
    /// Time of the last inbound message, for idle expiry.
    pub last_activity_ms: u64,
    /// A backend round-trip is in flight for this sender.
    pub busy: bool,
    /// The previous reply looked cut short.
    pub truncated: bool,
}

/// One sender's buffered burst of message fragments.
#[derive(Clone)]
pub struct DebounceEntry {
    /// Fragments pending merge, in arrival order.
    pub fragments: Vec<String>,
    /// Arrival time of the most recent fragment.
    pub last_fragment_ms: u64,
    /// A merge timer is already scheduled for this sender.
    pub armed: bool,
}

/// A sender not yet on the allow list, noted for an operator.
pub struct PendingSender {
    /// Display name, as the transport reported it.
    pub name: String,
    /// Short numeric id an operator can approve by.
    pub short_id: u64,
}

/// The whole shared state.  Every per-sender collection is a concurrent
/// map so that one sender's entry never blocks another's.
pub struct State {
    pub config: Config,
    pub metrics: Metrics,
    pub sessions: DashMap<String, SessionRec>,
    pub debounce: DashMap<String, DebounceEntry>,
    pub allowed: DashMap<String, ()>,
    pub pending: Vec<(String, PendingSender)>,
    pub pending_counter: u64,
    pub sent_hashes: DashMap<u64, ()>,
    pub rate_limits: DashMap<String, TokenBucket>,
}

/// What getting-or-creating a session does to the session map: an
/// existing session is kept (only its last activity refreshed), an
/// absent one is created from `fresh`.  Returns the new map, the
/// session id handed out, and whether the session is new.
pub open spec fn spec_get_or_create(
    m: Map<Seq<char>, SessionRec>,
    k: Seq<char>,
    fresh: SessionRec,
    now_ms: u64,
) -> (Map<Seq<char>, SessionRec>, Seq<char>, bool) {
    if m.dom().contains(k) {
        (m.insert(k, (SessionRec { last_activity_ms: now_ms, ..m[k] })), m[k].session_id@, false)
    } else {
        (m.insert(k, fresh), fresh.session_id@, true)
    }
}

/// Law: for one sender, any number of racing "first" messages resolve
/// to a single session.  The first creation wins; every later attempt
/// observes it, reports the session as not new, and receives the same
/// session id; no further session appears.
pub proof fn lemma_session_creation_idempotent(
    m: Map<Seq<char>, SessionRec>,
    k: Seq<char>,
    fresh1: SessionRec,
    fresh2: SessionRec,
    now1: u64,
    now2: u64,
)
    requires
        !m.dom().contains(k),
    ensures
        ({
            let first = spec_get_or_create(m, k, fresh1, now1);
            let second = spec_get_or_create(first.0, k, fresh2, now2);
            &&& first.2
            &&& !second.2
            &&& second.1 == first.1
            &&& second.0.dom() =~= m.dom().insert(k)
        }),
{
}

/// A session is stale once its last activity lies more than `ttl_ms`
/// before `now_ms`.
pub open spec fn session_expired(rec: SessionRec, now_ms: u64, ttl_ms: u64) -> bool {
    rec.last_activity_ms + ttl_ms < now_ms
}

impl State {
    /// The sessions, keyed by sender.
    pub open spec fn sessions_map(self) -> Map<Seq<char>, SessionRec> {
        sessions_of(self.sessions)
    }

    /// The debounce buffers, keyed by sender.
    pub open spec fn debounce_map(self) -> Map<Seq<char>, DebounceEntry> {
        debounce_of(self.debounce)
    }

    /// The rate buckets, keyed by sender.
    pub open spec fn buckets_map(self) -> Map<Seq<char>, TokenBucket> {
        buckets_of(self.rate_limits)
    }

    /// The allow-listed senders.
    pub open spec fn allowed_set(self) -> Set<Seq<char>> {
        members_of(self.allowed)
    }

    /// The hashes of texts this process has sent.
    pub open spec fn sent_set(self) -> Set<u64> {
        hashes_of(self.sent_hashes)
    }

    /// Every rate bucket respects its capacity.
    pub open spec fn wf(self) -> bool {
        forall|k: Seq<char>|
            self.buckets_map().dom().contains(k) ==> (#[trigger] self.buckets_map()[k]).wf()
    }

    /// Fresh state: empty collections, zero counters, the allow list
    /// taken from `allowed_list`.
    pub fn new(config: Config, allowed_list: Vec<String>, now_ms: u64) -> (s: State)
        ensures
            s.wf(),
            s.config == config,
            s.metrics.start_ms == now_ms,
            s.metrics.message_count == 0,
            s.metrics.total_cost_micros == 0,
            s.sessions_map() == Map::<Seq<char>, SessionRec>::empty(),
            s.debounce_map() == Map::<Seq<char>, DebounceEntry>::empty(),
            s.buckets_map() == Map::<Seq<char>, TokenBucket>::empty(),
            s.sent_set() == Set::<u64>::empty(),
            s.pending@.len() == 0,
            forall|x: Seq<char>|
                s.allowed_set().contains(x) <==> exists|i: int|
                    0 <= i < allowed_list@.len() && #[trigger] allowed_list@[i]@ == x,
    {
        let mut allowed = allow_new();
        let n = allowed_list.len();
        let mut i: usize = 0;
        while i < n
            invariant
                n == allowed_list@.len(),
                i <= n,
                forall|x: Seq<char>|
                    members_of(allowed).contains(x) <==> exists|j: int|
                        0 <= j < i && #[trigger] allowed_list@[j]@ == x,
            decreases n - i,
        {
            allow_insert(&mut allowed, allowed_list[i].clone());
            i += 1;
        }
        State {
            config,
            metrics: Metrics { start_ms: now_ms, message_count: 0, total_cost_micros: 0 },
            sessions: sess_new(),
            debounce: deb_new(),
            allowed,
            pending: Vec::new(),
            pending_counter: 0,
            sent_hashes: hashes_new(),
            rate_limits: rate_new(),
        }
    }

    /// Only the named sender is allowed; the empty sender never is.
    pub fn is_allowed(&self, sender: &str) -> (r: bool)
        ensures
            r == (sender@.len() > 0 && self.allowed_set().contains(sender@)),
    {
        !sender.is_empty() && allow_contains(&self.allowed, sender)
    }

    /// How many senders are allow-listed.
    pub fn allowed_count(&self) -> (n: usize)
        ensures
            n == self.allowed_set().len(),
    {
        allow_len(&self.allowed)
    }

    /// How many sessions are live.
    pub fn session_count(&self) -> (n: usize)
        ensures
            n == self.sessions_map().dom().len(),
    {
        sess_len(&self.sessions)
    }

    /// Add a backend invocation's cost to the running total, saturating
    /// at the counter's limit.
    pub fn add_cost(&mut self, cost_micros: u64)
        ensures
            *final(self) == (State {
                metrics: Metrics {
                    total_cost_micros: if old(self).metrics.total_cost_micros + cost_micros
                        <= u64::MAX {
                        (old(self).metrics.total_cost_micros + cost_micros) as u64
                    } else {
                        u64::MAX
                    },
                    ..old(self).metrics
                },
                ..*old(self)
            }),
    {
        if self.metrics.total_cost_micros <= u64::MAX - cost_micros {
            self.metrics.total_cost_micros = self.metrics.total_cost_micros + cost_micros;
        } else {
            self.metrics.total_cost_micros = u64::MAX;
        }
    }

    /// Count one accepted inbound message, saturating at the counter's
    /// limit.
    pub fn record_message(&mut self)
        ensures
            *final(self) == (State {
                metrics: Metrics {
                    message_count: if old(self).metrics.message_count < u64::MAX {
                        (old(self).metrics.message_count + 1) as u64
                    } else {
                        u64::MAX
                    },
                    ..old(self).metrics
                },
                ..*old(self)
            }),
    {
        if self.metrics.message_count < u64::MAX {
            self.metrics.message_count = self.metrics.message_count + 1;
        }
    }

    /// Note a sender who is not allow-listed, once, under a fresh short
    /// id, so an operator can approve them out of band.
    pub fn note_pending(&mut self, sender: &str, name: &str)
        ensures
            *final(self) == (State {
                pending: final(self).pending,
                pending_counter: final(self).pending_counter,
                ..*old(self)
            }),
            (exists|i: int| 0 <= i < old(self).pending@.len() && #[trigger] old(
                self,
            ).pending@[i].0@ == sender@) ==> *final(self) == *old(self),
            !(exists|i: int| 0 <= i < old(self).pending@.len() && #[trigger] old(
                self,
            ).pending@[i].0@ == sender@) ==> {
                &&& final(self).pending@.len() == old(self).pending@.len() + 1
                &&& final(self).pending@.take(old(self).pending@.len() as int) == old(
                    self,
                ).pending@
                &&& final(self).pending@.last().0@ == sender@
                &&& final(self).pending@.last().1.name@ == name@
                &&& final(self).pending@.last().1.short_id == old(self).pending_counter
                &&& final(self).pending_counter == if old(self).pending_counter < u64::MAX {
                    (old(self).pending_counter + 1) as u64
                } else {
                    old(self).pending_counter
                }
            },
    {
        let n = self.pending.len();
        let mut i: usize = 0;
        while i < n
            invariant
                n == self.pending@.len(),
                i <= n,
                forall|j: int| 0 <= j < i ==> #[trigger] self.pending@[j].0@ != sender@,
                *self == *old(self),
            decreases n - i,
        {
            if crate::text::str_eq(self.pending[i].0.as_str(), sender) {
                return ;
            }
            i += 1;
        }
        let id = self.pending_counter;
        if self.pending_counter < u64::MAX {
            self.pending_counter = self.pending_counter + 1;
        }
        self.pending.push(
            (sender.to_owned(), PendingSender { name: name.to_owned(), short_id: id }),
        );
        proof {
            assert(self.pending@.take(old(self).pending@.len() as int) =~= old(self).pending@);
        }
    }

    /// Get this sender's session, creating it if absent.  Returns the
    /// session id, the model in effect, and whether the session is new;
    /// the sender's last-activity time is refreshed either way.
    pub fn get_or_create_session(&mut self, sender: &str, now_ms: u64) -> (r: (String, String, bool))
        ensures
            *final(self) == (State { sessions: final(self).sessions, ..*old(self) }),
            r.2 == !old(self).sessions_map().dom().contains(sender@),
            final(self).sessions_map().dom().contains(sender@),
            final(self).sessions_map() == old(self).sessions_map().insert(
                sender@,
                final(self).sessions_map()[sender@],
            ),
            ({
                let rec = final(self).sessions_map()[sender@];
                &&& rec.session_id@ == r.0@
                &&& rec.model@ == r.1@
                &&& rec.last_activity_ms == now_ms
            }),
            !r.2 ==> ({
                let prev = old(self).sessions_map()[sender@];
                let rec = final(self).sessions_map()[sender@];
                &&& rec.session_id@ == prev.session_id@
                &&& rec.model@ == prev.model@
                &&& rec.busy == prev.busy
                &&& rec.truncated == prev.truncated
            }),
            r.2 ==> ({
                let rec = final(self).sessions_map()[sender@];
                &&& rec.model@ == old(self).config.model@
                &&& !rec.busy
                &&& !rec.truncated
            }),
            ({
                let t = spec_get_or_create(
                    old(self).sessions_map(),
                    sender@,
                    final(self).sessions_map()[sender@],
                    now_ms,
                );
                &&& final(self).sessions_map() == t.0
                &&& r.0@ == t.1
                &&& r.2 == t.2
            }),
    {
        match sess_get(&self.sessions, sender) {
            Some(prev) => {
                let sid = prev.session_id.clone();
                let model = prev.model.clone();
                let rec = SessionRec {
                    session_id: prev.session_id,
                    model: prev.model,
                    last_activity_ms: now_ms,
                    busy: prev.busy,
                    truncated: prev.truncated,
                };
                sess_insert(&mut self.sessions, sender.to_owned(), rec);
                (sid, model, false)
            },
            None => {
                let sid = fresh_session_id();
                let model = self.config.model.clone();
                let rec = SessionRec {
                    session_id: sid.clone(),
                    model: self.config.model.clone(),
                    last_activity_ms: now_ms,
                    busy: false,
                    truncated: false,
                };
                sess_insert(&mut self.sessions, sender.to_owned(), rec);
                (sid, model, true)
            },
        }
    }

    /// Drop this sender's session; the next message starts a fresh
    /// conversation under a new session id.
    pub fn reset_session(&mut self, sender: &str)
        ensures
            *final(self) == (State { sessions: final(self).sessions, ..*old(self) }),
            final(self).sessions_map() == old(self).sessions_map().remove(sender@),
    {
        sess_remove(&mut self.sessions, sender);
    }

    /// Set this sender's model, creating the session lazily if absent;
    /// an existing session keeps its id and conversational context.
    pub fn switch_model(&mut self, sender: &str, model: &str, now_ms: u64)
        ensures
            *final(self) == (State { sessions: final(self).sessions, ..*old(self) }),
            final(self).sessions_map().dom().contains(sender@),
            final(self).sessions_map() == old(self).sessions_map().insert(
                sender@,
                final(self).sessions_map()[sender@],
            ),
            final(self).sessions_map()[sender@].model@ == model@,
            old(self).sessions_map().dom().contains(sender@) ==> ({
                let prev = old(self).sessions_map()[sender@];
                let rec = final(self).sessions_map()[sender@];
                &&& rec.session_id@ == prev.session_id@
                &&& rec.last_activity_ms == prev.last_activity_ms
                &&& rec.busy == prev.busy
                &&& rec.truncated == prev.truncated
            }),
            !old(self).sessions_map().dom().contains(sender@) ==> ({
                let rec = final(self).sessions_map()[sender@];
                &&& rec.last_activity_ms == now_ms
                &&& !rec.busy
                &&& !rec.truncated
            }),
    {
        match sess_get(&self.sessions, sender) {
            Some(prev) => {
                let rec = SessionRec {
                    session_id: prev.session_id,
                    model: model.to_owned(),
                    last_activity_ms: prev.last_activity_ms,
                    busy: prev.busy,
                    truncated: prev.truncated,
                };
                sess_insert(&mut self.sessions, sender.to_owned(), rec);
            },
            None => {
                let rec = SessionRec {
                    session_id: fresh_session_id(),
                    model: model.to_owned(),
                    last_activity_ms: now_ms,
                    busy: false,
                    truncated: false,
                };
                sess_insert(&mut self.sessions, sender.to_owned(), rec);
            },
        }
    }

    /// Remove every session idle for longer than `ttl_ms`, leaving the
    /// rest untouched.  Bounds memory growth from abandoned
    /// conversations.
    pub fn sweep_idle_sessions(&mut self, now_ms: u64, ttl_ms: u64)
        ensures
            *final(self) == (State { sessions: final(self).sessions, ..*old(self) }),
            forall|k: Seq<char>|
                final(self).sessions_map().dom().contains(k) <==> (
                old(self).sessions_map().dom().contains(k) && !session_expired(
                    #[trigger] old(self).sessions_map()[k],
                    now_ms,
                    ttl_ms,
                )),
            forall|k: Seq<char>|
                final(self).sessions_map().dom().contains(k)
                    ==> #[trigger] final(self).sessions_map()[k] == old(self).sessions_map()[k],
    {
        let entries = sess_entries(&self.sessions);
        let ghost m0 = sessions_of(self.sessions);
        let n = entries.len();
        let mut i: usize = 0;
        while i < n
            invariant
                n == entries@.len(),
                i <= n,
                *self == (State { sessions: self.sessions, ..*old(self) }),
                forall|j: int|
                    0 <= j < n ==> m0.contains_pair(#[trigger] entries@[j].0@, entries@[j].1),
                forall|j1: int, j2: int|
                    #![trigger entries@[j1].0@, entries@[j2].0@]
                    0 <= j1 < j2 < n ==> entries@[j1].0@ != entries@[j2].0@,
                forall|k: Seq<char>|
                    m0.dom().contains(k) ==> exists|j: int|
                        0 <= j < n && #[trigger] entries@[j].0@ == k,
                forall|k: Seq<char>|
                    sessions_of(self.sessions).dom().contains(k) <==> (m0.dom().contains(k) && !(
                    exists|j: int|
                        0 <= j < i && #[trigger] entries@[j].0@ == k && session_expired(
                            entries@[j].1,
                            now_ms,
                            ttl_ms,
                        ))),
                forall|k: Seq<char>|
                    sessions_of(self.sessions).dom().contains(k)
                        ==> #[trigger] sessions_of(self.sessions)[k] == m0[k],
            decreases n - i,
        {
            let expired = {
                let rec = &entries[i].1;
                match ttl_ms.checked_add(rec.last_activity_ms) {
                    Some(limit) => limit < now_ms,
                    None => false,
                }
            };
            if expired {
                sess_remove(&mut self.sessions, entries[i].0.as_str());
            }
            proof {
                assert forall|k: Seq<char>|
                    sessions_of(self.sessions).dom().contains(k) <==> (m0.dom().contains(k) && !(
                    exists|j: int|
                        0 <= j < i + 1 && #[trigger] entries@[j].0@ == k && session_expired(
                            entries@[j].1,
                            now_ms,
                            ttl_ms,
                        ))) by {
                    if m0.dom().contains(k) {
                        if k == entries@[i as int].0@ && session_expired(entries@[i as int].1,
                            now_ms, ttl_ms) {
                            assert(entries@[i as int].0@ == k && session_expired(
                                entries@[i as int].1, now_ms, ttl_ms));
                        }
                    }
                }
            }
            i += 1;
        }
        proof {
            assert forall|k: Seq<char>|
                sessions_of(self.sessions).dom().contains(k) <==> (m0.dom().contains(k)
                    && !session_expired(m0[k], now_ms, ttl_ms)) by {
                if m0.dom().contains(k) {
                    let j0 = choose|j: int| 0 <= j < n && #[trigger] entries@[j].0@ == k;
                    assert(m0.contains_pair(entries@[j0].0@, entries@[j0].1));
                    if session_expired(m0[k], now_ms, ttl_ms) {
                        assert(entries@[j0].0@ == k && session_expired(entries@[j0].1, now_ms,
                            ttl_ms));
                    } else {
                        assert forall|j: int|
                            0 <= j < n && entries@[j].0@ == k implies !session_expired(
                            entries@[j].1,
                            now_ms,
                            ttl_ms,
                        ) by {
                            assert(m0.contains_pair(entries@[j].0@, entries@[j].1));
                        }
                    }
                }
            }
        }
    }
}

/// Relies on uuid::Uuid::new_v4 and its Display form: a fresh random
/// version-4 identifier, rendered in the 36-character hyphenated form.
#[verifier::external_body]
fn fresh_session_id() -> (r: String)
    ensures
        r@.len() == 36,
{
    uuid::Uuid::new_v4().to_string()
}

} // verus!
