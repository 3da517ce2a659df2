//! The dispatcher: for each inbound event it applies allow-listing, echo
//! suppression and debouncing; for each merged prompt it applies rate
//! limiting, intercepts in-band commands, and otherwise resolves the
//! sender's session for one backend round-trip.  Backend calls for one
//! sender never overlap: a round-trip begins only when the session is
//! not already busy, and every exit path ends it.

use vstd::prelude::*;
use vstd::string::StrSliceExecFns;
use vstd::string::StringExecFns;

use crate::bucket::TokenBucket;
use crate::debounce::DebounceOutcome;
use crate::echo::spec_hash;
use crate::sat_add;
use crate::shared_map::rate_get;
use crate::shared_map::rate_insert;
use crate::shared_map::sess_get;
use crate::shared_map::sess_insert;
use crate::state::Metrics;
use crate::state::SessionRec;
use crate::state::State;
use crate::text::digit_str;
use crate::text::spec_dec;
use crate::text::spec_digit;
use crate::text::spec_trim;
use crate::text::str_eq;
use crate::text::trim;
use crate::text::u64_to_dec;
use crate::MAX_MSG_LEN;
use crate::TRUNCATION_THRESHOLD;

verus! {

/// An in-band administrative command, recognised before the backend is
/// ever consulted.
pub enum Command {
    /// Drop the session; the next message starts a fresh conversation.
    Reset,
    /// Report uptime, message count, session count and cost.
    Status,
    /// Set the sender's model.
    SwitchModel(String),
}

/// The trimmed text asks for a session reset.
pub open spec fn is_reset_cmd(t: Seq<char>) -> bool {
    spec_trim(t) == "/reset"@
}

/// The trimmed text asks for a status report.
pub open spec fn is_status_cmd(t: Seq<char>) -> bool {
    spec_trim(t) == "/status"@
}

/// The model named by a model-switch command, if the text is one.
pub open spec fn switch_model_arg(t: Seq<char>) -> Option<Seq<char>> {
    let tr = spec_trim(t);
    if tr.len() >= 7 && tr.take(7) == "/model "@ {
        Some(spec_trim(tr.skip(7)))
    } else {
        None
    }
}

/// Recognise an in-band command; anything else is a prompt for the
/// backend.
pub fn classify_command(text: &str) -> (r: Option<Command>)
    ensures
        match r {
            Some(Command::Reset) => is_reset_cmd(text@),
            Some(Command::Status) => !is_reset_cmd(text@) && is_status_cmd(text@),
            Some(Command::SwitchModel(m)) => !is_reset_cmd(text@) && !is_status_cmd(text@)
                && switch_model_arg(text@) == Some(m@),
            None => !is_reset_cmd(text@) && !is_status_cmd(text@) && switch_model_arg(text@)
                is None,
        },
{
    let t = trim(text);
    if str_eq(t.as_str(), "/reset") {
        Some(Command::Reset)
    } else if str_eq(t.as_str(), "/status") {
        Some(Command::Status)
    } else {
        let n = t.as_str().unicode_len();
        proof {
            reveal_strlit("/model ");
        }
        if n >= 7 && crate::text::has_prefix(t.as_str(), "/model ") {
            let arg = trim(t.as_str().substring_char(7, n));
            Some(Command::SwitchModel(arg))
        } else {
            None
        }
    }
}

/// The reply to a session reset.
pub fn reset_reply() -> (r: String)
    ensures
        r@ == "Session reset. Next message starts a fresh conversation."@,
{
    String::from_str("Session reset. Next message starts a fresh conversation.")
}

/// The reply to a model switch.
pub fn model_reply(model: &str) -> (r: String)
    ensures
        r@ == "Model switched to: "@ + model@,
{
    let mut s = String::from_str("Model switched to: ");
    s.append(model);
    s
}

/// The visible notice sent when a sender is rate limited.
pub fn rate_limit_notice() -> (r: String)
    ensures
        r@ == "Rate limit exceeded. Please wait a moment before sending more."@,
{
    String::from_str("Rate limit exceeded. Please wait a moment before sending more.")
}

/// The visible notice sent when the backend fails on one message.
pub fn failure_notice(err: &str) -> (r: String)
    ensures
        r@ == "Backend error: "@ + err@,
{
    let mut s = String::from_str("Backend error: ");
    s.append(err);
    s
}

/// A cost in microdollars, rendered as dollars with four decimals.
pub open spec fn spec_cost_text(micros: u64) -> Seq<char> {
    spec_dec((micros / 1000000) as int) + "."@ + seq![
        spec_digit(((micros % 1000000) / 100000) as int),
        spec_digit(((micros % 100000) / 10000) as int),
        spec_digit(((micros % 10000) / 1000) as int),
        spec_digit(((micros % 1000) / 100) as int),
    ]
}

/// Render a cost in microdollars as dollars with four decimals.
pub fn render_cost(micros: u64) -> (r: String)
    ensures
        r@ == spec_cost_text(micros),
{
    let mut s = u64_to_dec(micros / 1000000);
    s.append(".");
    s.append(digit_str((micros % 1000000) / 100000));
    s.append(digit_str((micros % 100000) / 10000));
    s.append(digit_str((micros % 10000) / 1000));
    s.append(digit_str((micros % 1000) / 100));
    proof {
        assert(s@ =~= spec_cost_text(micros));
    }
    s
}

/// The status report text.
pub open spec fn spec_status_text(
    uptime_secs: u64,
    messages: u64,
    sessions: int,
    cost_micros: u64,
) -> Seq<char> {
    "ccchat status\nUptime: "@ + spec_dec((uptime_secs / 3600) as int) + "h "@ + spec_dec(
        (((uptime_secs % 3600) / 60)) as int,
    ) + "m\nMessages: "@ + spec_dec(messages as int) + "\nActive sessions: "@ + spec_dec(sessions)
        + "\nTotal cost: $"@ + spec_cost_text(cost_micros)
}

/// Render the status report.
pub fn render_status(uptime_secs: u64, messages: u64, sessions: usize, cost_micros: u64) -> (r:
    String)
    ensures
        r@ == spec_status_text(uptime_secs, messages, sessions as int, cost_micros),
{
    let mut s = String::from_str("ccchat status\nUptime: ");
    s.append(u64_to_dec(uptime_secs / 3600).as_str());
    s.append("h ");
    s.append(u64_to_dec((uptime_secs % 3600) / 60).as_str());
    s.append("m\nMessages: ");
    s.append(u64_to_dec(messages).as_str());
    s.append("\nActive sessions: ");
    s.append(u64_to_dec(sessions as u64).as_str());
    s.append("\nTotal cost: $");
    s.append(render_cost(cost_micros).as_str());
    proof {
        assert(s@ =~= spec_status_text(uptime_secs, messages, sessions as int,
            cost_micros));
    }
    s
}

proof fn lemma_wf_same_buckets(a: State, b: State)
    requires
        a.wf(),
        b.buckets_map() == a.buckets_map(),
    ensures
        b.wf(),
{
    assert forall|k: Seq<char>| b.buckets_map().dom().contains(k) implies (
    #[trigger] b.buckets_map()[k]).wf() by {
        assert(a.buckets_map()[k].wf());
    }
}

proof fn lemma_wf_insert_bucket(a: State, b: State, k: Seq<char>, bk: TokenBucket)
    requires
        a.wf(),
        bk.wf(),
        b.buckets_map() == a.buckets_map().insert(k, bk),
    ensures
        b.wf(),
{
    assert forall|k2: Seq<char>| b.buckets_map().dom().contains(k2) implies (
    #[trigger] b.buckets_map()[k2]).wf() by {
        if k2 != k {
            assert(a.buckets_map()[k2].wf());
        }
    }
}

/// What beginning a backend round-trip does to the session map: it
/// succeeds exactly when the session exists and is not busy, and then
/// marks it busy.
pub open spec fn spec_try_begin(m: Map<Seq<char>, SessionRec>, k: Seq<char>) -> (
    Map<Seq<char>, SessionRec>,
    bool,
) {
    if m.dom().contains(k) && !m[k].busy {
        (m.insert(k, (SessionRec { busy: true, ..m[k] })), true)
    } else {
        (m, false)
    }
}

/// What ending a backend round-trip does to the session map: the
/// session, if it still exists, is no longer busy.
pub open spec fn spec_finish_invoke(m: Map<Seq<char>, SessionRec>, k: Seq<char>) -> Map<
    Seq<char>,
    SessionRec,
> {
    if m.dom().contains(k) {
        m.insert(k, (SessionRec { busy: false, ..m[k] }))
    } else {
        m
    }
}

/// Law: per-sender backend round-trips are serialized.  Once one has
/// begun, no second one can begin for that sender until the first has
/// finished; after it finishes, the next can begin; and beginning one
/// sender's round-trip never touches another sender's session.
pub proof fn lemma_backend_serialized(m: Map<Seq<char>, SessionRec>, k: Seq<char>, k2: Seq<char>)
    ensures
        ({
            let begun = spec_try_begin(m, k);
            let again = spec_try_begin(begun.0, k);
            let after = spec_try_begin(spec_finish_invoke(begun.0, k), k);
            &&& (begun.1 ==> !again.1)
            &&& (begun.1 ==> after.1)
            &&& (k2 != k ==> begun.0.dom().contains(k2) == m.dom().contains(k2))
            &&& (k2 != k && m.dom().contains(k2) ==> begun.0[k2] == m[k2])
        }),
{
}

/// The hashes of the first `n` of these parts.
pub open spec fn part_hashes(ps: Seq<Seq<char>>, n: int) -> Set<u64>
    decreases n,
{
    if n <= 0 {
        Set::empty()
    } else {
        part_hashes(ps, n - 1).insert(spec_hash(ps[n - 1]))
    }
}

proof fn lemma_part_hashes_member(ps: Seq<Seq<char>>, n: int, h: u64)
    ensures
        part_hashes(ps, n).contains(h) <==> exists|j: int|
            0 <= j < n && h == spec_hash(#[trigger] ps[j]),
    decreases n,
{
    if n > 0 {
        lemma_part_hashes_member(ps, n - 1, h);
        if h == spec_hash(ps[n - 1]) {
            assert(0 <= n - 1 < n && h == spec_hash(ps[n - 1]));
        } else if exists|j: int| 0 <= j < n && h == spec_hash(#[trigger] ps[j]) {
            let j0 = choose|j: int| 0 <= j < n && h == spec_hash(#[trigger] ps[j]);
            assert(0 <= j0 < n - 1 && h == spec_hash(ps[j0]));
        }
    }
}

/// What became of one inbound event, before any backend work.
pub enum InboundDecision {
    /// The sender is not allow-listed: dropped silently.
    NotAllowed,
    /// The text is a copy of our own output looped back: dropped
    /// silently.
    EchoDropped,
    /// The fragment was buffered; a merge timer must fire at
    /// `fire_at_ms` to dispatch it.
    BufferedArmed { fire_at_ms: u64 },
    /// The fragment was buffered under an already-pending merge timer.
    BufferedPending,
    /// Debouncing is off: this text is ready to process as one prompt.
    Ready(String),
}

/// What to do with one merged prompt.
pub enum ProcessDecision {
    /// The sender's token bucket is exhausted: send this notice and
    /// stop.
    RateLimited(String),
    /// An in-band command was handled entirely here: send this reply,
    /// never touching the backend.
    CommandReply(String),
    /// Invoke the backend with the prompt, under this session and
    /// model.
    Invoke { session_id: String, model: String, is_new_session: bool },
}

impl State {
    /// Steps taken on every inbound text event: allow-listing, echo
    /// suppression, debouncing.  Every allowed message is counted, and
    /// nothing else changes until a prompt is ready.
    pub fn handle_inbound(&mut self, sender: &str, text: &str, now_ms: u64) -> (r: InboundDecision)
        ensures
            !(sender@.len() > 0 && old(self).allowed_set().contains(sender@)) ==> r
                is NotAllowed && *final(self) == *old(self),
            (sender@.len() > 0 && old(self).allowed_set().contains(sender@)) ==> ({
                let counted = (State {
                    metrics: Metrics {
                        message_count: sat_add(old(self).metrics.message_count, 1),
                        ..old(self).metrics
                    },
                    ..*old(self)
                });
                &&& final(self).metrics == counted.metrics
                &&& (old(self).sent_set().contains(spec_hash(text@)) ==> r is EchoDropped
                    && *final(self) == counted)
                &&& (!old(self).sent_set().contains(spec_hash(text@))
                    && old(self).config.debounce_ms == 0 ==> (r matches InboundDecision::Ready(p)
                    && p@ == text@) && *final(self) == counted)
                &&& (!old(self).sent_set().contains(spec_hash(text@))
                    && old(self).config.debounce_ms > 0 ==> {
                    &&& *final(self) == (State { debounce: final(self).debounce, ..counted })
                    &&& final(self).debounce_map() == old(self).debounce_map().insert(
                        sender@,
                        final(self).debounce_map()[sender@],
                    )
                    &&& ({
                        let entry = final(self).debounce_map()[sender@];
                        &&& entry.last_fragment_ms == now_ms
                        &&& entry.armed
                        &&& entry.fragments.deep_view() == if old(self).debounce_map().dom().contains(sender@) {
                            old(self).debounce_map()[sender@].fragments.deep_view().push(text@)
                        } else {
                            seq![text@]
                        }
                    })
                    &&& (if old(self).debounce_map().dom().contains(sender@) && old(self).debounce_map()[sender@].armed {
                        r is BufferedPending
                    } else {
                        r matches InboundDecision::BufferedArmed { fire_at_ms } && fire_at_ms
                            == sat_add(now_ms, old(self).config.debounce_ms)
                    })
                })
            }),
    {
        if !self.is_allowed(sender) {
            return InboundDecision::NotAllowed;
        }
        self.record_message();
        if self.is_echo(text) {
            return InboundDecision::EchoDropped;
        }
        match self.buffer_fragment(sender, text, now_ms) {
            DebounceOutcome::DispatchNow => InboundDecision::Ready(text.to_owned()),
            DebounceOutcome::TimerArmed { fire_at_ms } => InboundDecision::BufferedArmed {
                fire_at_ms,
            },
            DebounceOutcome::TimerPending => InboundDecision::BufferedPending,
        }
    }

    /// Steps taken on one merged prompt: rate limiting, in-band
    /// commands, then session resolution for a backend round-trip.
    pub fn process_prompt(&mut self, sender: &str, prompt: &str, now_ms: u64) -> (r:
        ProcessDecision)
        requires
            old(self).wf(),
        ensures
            final(self).wf(),
            *final(self) == (State {
                rate_limits: final(self).rate_limits,
                sessions: final(self).sessions,
                ..*old(self)
            }),
            ({
                let bucket0 = if old(self).buckets_map().dom().contains(sender@) {
                    old(self).buckets_map()[sender@]
                } else {
                    TokenBucket {
                        tokens_milli: old(self).config.rate_limit->Some_0.0,
                        capacity_milli: old(self).config.rate_limit->Some_0.0,
                        rate_milli_per_sec: old(self).config.rate_limit->Some_0.1,
                        last_refill_ms: now_ms,
                    }
                };
                let consumed = bucket0.spec_consume(now_ms);
                let limited = old(self).config.rate_limit is Some && !consumed.1;
                &&& (old(self).config.rate_limit is None ==> final(self).buckets_map() == old(self).buckets_map())
                &&& (old(self).config.rate_limit is Some ==> final(self).buckets_map() == old(self).buckets_map().insert(sender@, consumed.0))
                &&& (limited ==> (r matches ProcessDecision::RateLimited(n) && n@
                    == "Rate limit exceeded. Please wait a moment before sending more."@)
                    && final(self).sessions_map() == old(self).sessions_map())
                &&& (!limited && is_reset_cmd(prompt@) ==> final(self).sessions_map() == old(self).sessions_map().remove(sender@) && (r matches ProcessDecision::CommandReply(m)
                    && m@ == "Session reset. Next message starts a fresh conversation."@))
                &&& (!limited && !is_reset_cmd(prompt@) && is_status_cmd(prompt@) ==> final(self).sessions_map() == old(self).sessions_map() && (r
                    matches ProcessDecision::CommandReply(m) && m@ == spec_status_text(
                    if now_ms >= old(self).metrics.start_ms {
                        ((now_ms - old(self).metrics.start_ms) / 1000) as u64
                    } else {
                        0u64
                    },
                    old(self).metrics.message_count,
                    old(self).sessions_map().dom().len() as int,
                    old(self).metrics.total_cost_micros,
                )))
                &&& (!limited && !is_reset_cmd(prompt@) && !is_status_cmd(prompt@)
                    && switch_model_arg(prompt@) is Some ==> {
                    let name = switch_model_arg(prompt@)->Some_0;
                    &&& final(self).sessions_map().dom().contains(sender@)
                    &&& final(self).sessions_map() == old(self).sessions_map().insert(
                        sender@,
                        final(self).sessions_map()[sender@],
                    )
                    &&& final(self).sessions_map()[sender@].model@ == name
                    &&& (old(self).sessions_map().dom().contains(sender@)
                        ==> final(self).sessions_map()[sender@].session_id@ == old(self).sessions_map()[sender@].session_id@)
                    &&& (r matches ProcessDecision::CommandReply(m) && m@ == "Model switched to: "@
                        + name)
                })
                &&& (!limited && !is_reset_cmd(prompt@) && !is_status_cmd(prompt@)
                    && switch_model_arg(prompt@) is None ==> {
                    &&& final(self).sessions_map().dom().contains(sender@)
                    &&& final(self).sessions_map() == old(self).sessions_map().insert(
                        sender@,
                        final(self).sessions_map()[sender@],
                    )
                    &&& final(self).sessions_map()[sender@].last_activity_ms == now_ms
                    &&& (r matches ProcessDecision::Invoke { session_id, model, is_new_session }
                        && ({
                        let rec = final(self).sessions_map()[sender@];
                        &&& session_id@ == rec.session_id@
                        &&& model@ == rec.model@
                        &&& is_new_session == !old(self).sessions_map().dom().contains(sender@)
                        &&& (!is_new_session ==> rec.session_id@ == old(self).sessions_map()[sender@].session_id@ && rec.model@ == old(self).sessions_map()[sender@].model@)
                        &&& (is_new_session ==> rec.model@ == old(self).config.model@)
                    }))
                })
            }),
    {
        let limited = match self.config.rate_limit {
            Some((capacity_milli, rate_milli_per_sec)) => {
                let mut bucket = match rate_get(&self.rate_limits, sender) {
                    Some(b) => b,
                    None => TokenBucket {
                        tokens_milli: capacity_milli,
                        capacity_milli,
                        rate_milli_per_sec,
                        last_refill_ms: now_ms,
                    },
                };
                proof {
                    if !old(self).buckets_map().dom().contains(sender@) {
                        assert(bucket.wf());
                    }
                }
                let granted = bucket.try_consume(now_ms);
                rate_insert(&mut self.rate_limits, sender.to_owned(), bucket);
                proof {
                    lemma_wf_insert_bucket(*old(self), *self, sender@, bucket);
                }
                !granted
            },
            None => false,
        };
        proof {
            if old(self).config.rate_limit is None {
                lemma_wf_same_buckets(*old(self), *self);
            }
        }
        if limited {
            return ProcessDecision::RateLimited(rate_limit_notice());
        }
        let ghost mid = *self;
        let decision = match classify_command(prompt) {
            Some(Command::Reset) => {
                self.reset_session(sender);
                ProcessDecision::CommandReply(reset_reply())
            },
            Some(Command::Status) => {
                let uptime_secs = if now_ms >= self.metrics.start_ms {
                    (now_ms - self.metrics.start_ms) / 1000
                } else {
                    0
                };
                let sessions = self.session_count();
                let reply = render_status(
                    uptime_secs,
                    self.metrics.message_count,
                    sessions,
                    self.metrics.total_cost_micros,
                );
                ProcessDecision::CommandReply(reply)
            },
            Some(Command::SwitchModel(name)) => {
                self.switch_model(sender, name.as_str(), now_ms);
                ProcessDecision::CommandReply(model_reply(name.as_str()))
            },
            None => {
                let r = self.get_or_create_session(sender, now_ms);
                ProcessDecision::Invoke { session_id: r.0, model: r.1, is_new_session: r.2 }
            },
        };
        proof {
            lemma_wf_same_buckets(mid, *self);
        }
        decision
    }

    /// Begin the sender's backend round-trip: succeeds only when the
    /// session exists and no other round-trip is in flight for it, so
    /// per-sender backend calls never overlap.
    pub fn try_begin_invoke(&mut self, sender: &str) -> (ok: bool)
        ensures
            *final(self) == (State { sessions: final(self).sessions, ..*old(self) }),
            (final(self).sessions_map(), ok) == spec_try_begin(
                old(self).sessions_map(),
                sender@,
            ),
            ok == (old(self).sessions_map().dom().contains(sender@) && !old(self).sessions_map()[sender@].busy),
            !ok ==> *final(self) == *old(self),
            ok ==> final(self).sessions_map() == old(self).sessions_map().insert(
                sender@,
                (SessionRec { busy: true, ..old(self).sessions_map()[sender@] }),
            ),
    {
        match sess_get(&self.sessions, sender) {
            Some(prev) => {
                if prev.busy {
                    false
                } else {
                    let rec = SessionRec {
                        session_id: prev.session_id,
                        model: prev.model,
                        last_activity_ms: prev.last_activity_ms,
                        busy: true,
                        truncated: prev.truncated,
                    };
                    sess_insert(&mut self.sessions, sender.to_owned(), rec);
                    true
                }
            },
            None => false,
        }
    }

    /// End the sender's backend round-trip.  Called on every exit path,
    /// success or failure, so a sender is never deadlocked.
    pub fn finish_invoke(&mut self, sender: &str)
        ensures
            *final(self) == (State { sessions: final(self).sessions, ..*old(self) }),
            final(self).sessions_map() == spec_finish_invoke(old(self).sessions_map(), sender@),
            !old(self).sessions_map().dom().contains(sender@) ==> *final(self) == *old(self),
            old(self).sessions_map().dom().contains(sender@) ==> final(self).sessions_map() == old(self).sessions_map().insert(
                sender@,
                (SessionRec { busy: false, ..old(self).sessions_map()[sender@] }),
            ),
    {
        match sess_get(&self.sessions, sender) {
            Some(prev) => {
                let rec = SessionRec {
                    session_id: prev.session_id,
                    model: prev.model,
                    last_activity_ms: prev.last_activity_ms,
                    busy: false,
                    truncated: prev.truncated,
                };
                sess_insert(&mut self.sessions, sender.to_owned(), rec);
            },
            None => {},
        }
    }

    /// Account and package one successful backend reply: add its cost
    /// (no charge when the backend reports none), flag the session when
    /// the reply looks cut short, split the reply into transport-sized
    /// parts, and record each part's hash for the echo guard.
    pub fn complete_invocation(&mut self, sender: &str, reply: &str, cost_micros: Option<u64>) -> (
        parts: Vec<String>)
        ensures
            *final(self) == (State {
                metrics: final(self).metrics,
                sessions: final(self).sessions,
                sent_hashes: final(self).sent_hashes,
                ..*old(self)
            }),
            final(self).metrics == (Metrics {
                total_cost_micros: sat_add(
                    old(self).metrics.total_cost_micros,
                    match cost_micros {
                        Some(c) => c,
                        None => 0,
                    },
                ),
                ..old(self).metrics
            }),
            !old(self).sessions_map().dom().contains(sender@) ==> final(self).sessions_map() == old(self).sessions_map(),
            old(self).sessions_map().dom().contains(sender@) ==> final(self).sessions_map() == old(self).sessions_map().insert(
                sender@,
                (SessionRec {
                    truncated: reply@.len() >= TRUNCATION_THRESHOLD,
                    ..old(self).sessions_map()[sender@]
                }),
            ),
            parts@.len() >= 1,
            crate::chunk::splits_to(parts.deep_view(), reply@, MAX_MSG_LEN as int),
            forall|i: int|
                0 <= i < parts@.len() ==> #[trigger] parts.deep_view()[i].len() <= MAX_MSG_LEN,
            forall|h: u64|
                final(self).sent_set().contains(h) <==> (old(self).sent_set().contains(h) || exists|
                    i: int,
                |
                    0 <= i < parts@.len() && h == spec_hash(#[trigger] parts.deep_view()[i])),
    {
        let cost = match cost_micros {
            Some(c) => c,
            None => 0,
        };
        self.add_cost(cost);
        let looks_truncated = reply.unicode_len() >= TRUNCATION_THRESHOLD;
        match sess_get(&self.sessions, sender) {
            Some(prev) => {
                let rec = SessionRec {
                    session_id: prev.session_id,
                    model: prev.model,
                    last_activity_ms: prev.last_activity_ms,
                    busy: prev.busy,
                    truncated: looks_truncated,
                };
                sess_insert(&mut self.sessions, sender.to_owned(), rec);
            },
            None => {},
        }
        let parts = crate::chunk::split_message(reply, MAX_MSG_LEN);
        let ghost mid = *self;
        let n = parts.len();
        let mut i: usize = 0;
        proof {
            assert(mid.sent_set().union(part_hashes(parts.deep_view(), 0)) =~= mid.sent_set());
        }
        while i < n
            invariant
                n == parts@.len(),
                i <= n,
                *self == (State { sent_hashes: self.sent_hashes, ..mid }),
                forall|j: int| 0 <= j < n ==> parts.deep_view()[j] == parts@[j]@,
                self.sent_set() == mid.sent_set().union(
                    part_hashes(parts.deep_view(), i as int),
                ),
            decreases n - i,
        {
            proof {
                assert(mid.sent_set().union(part_hashes(parts.deep_view(), i as int)).insert(
                    spec_hash(parts@[i as int]@)) =~= mid.sent_set().union(
                    part_hashes(parts.deep_view(), i + 1)));
            }
            self.record_sent(parts[i].as_str());
            i += 1;
        }
        proof {
            assert forall|h: u64|
                self.sent_set().contains(h) <==> (mid.sent_set().contains(h) || exists|j: int|
                    0 <= j < parts@.len() && h == spec_hash(
                        #[trigger] parts.deep_view()[j],
                    )) by {
                lemma_part_hashes_member(parts.deep_view(), n as int, h);
            }
        }
        parts
    }
}

} // verus!
