use ccchat::dispatch::Command;
use ccchat::dispatch::InboundDecision;
use ccchat::dispatch::ProcessDecision;
use ccchat::dispatch::classify_command;
use ccchat::dispatch::failure_notice;
use ccchat::debounce::TimerOutcome;
use ccchat::state::Config;
use ccchat::state::State;
use ccchat::transport::Backoff;
use ccchat::transport::accept_event;

fn make_state(debounce_ms: u64, rate_limit: Option<(u64, u64)>) -> State {
    State::new(
        Config {
            model: "sonnet".to_string(),
            max_budget_micros: 5_000_000,
            rate_limit,
            session_ttl_ms: None,
            debounce_ms,
            account: "+1234567890".to_string(),
        },
        vec!["+1234567890".to_string(), "+allowed_user".to_string()],
        0,
    )
}

#[test]
fn unknown_sender_is_dropped_silently_without_a_session() {
    let mut state = make_state(0, None);
    let r = state.handle_inbound("+stranger", "hi", 0);
    assert!(matches!(r, InboundDecision::NotAllowed));
    assert_eq!(state.session_count(), 0);
    assert_eq!(state.metrics.message_count, 0);
}

#[test]
fn allowed_sender_text_is_ready_when_debounce_is_off() {
    let mut state = make_state(0, None);
    let r = state.handle_inbound("+allowed_user", "hi", 0);
    match r {
        InboundDecision::Ready(p) => assert_eq!(p, "hi"),
        _ => panic!("expected the text to pass straight through"),
    }
    assert_eq!(state.metrics.message_count, 1);
}

#[test]
fn debounce_merges_fragments_into_one_prompt() {
    let mut state = make_state(3000, None);
    let r1 = state.handle_inbound("+allowed_user", "hello", 0);
    assert!(matches!(r1, InboundDecision::BufferedArmed { fire_at_ms: 3000 }));
    let r2 = state.handle_inbound("+allowed_user", "world", 100);
    assert!(matches!(r2, InboundDecision::BufferedPending));
    // the timer armed by "hello" fires: "world" arrived meanwhile, so wait
    match state.debounce_timer_fired("+allowed_user", 3000) {
        TimerOutcome::Rearm { fire_at_ms } => assert_eq!(fire_at_ms, 3100),
        _ => panic!("expected the timer to re-arm"),
    }
    // quiet for the whole window after "world": one merged prompt
    match state.debounce_timer_fired("+allowed_user", 3100) {
        TimerOutcome::Dispatch(prompt) => assert_eq!(prompt, "hello\nworld"),
        _ => panic!("expected a merged dispatch"),
    }
    // dispatched exactly once: the buffer is gone
    assert!(matches!(
        state.debounce_timer_fired("+allowed_user", 3200),
        TimerOutcome::Idle
    ));
}

#[test]
fn status_command_reports_counters_without_backend() {
    let mut state = make_state(0, None);
    let r = state.process_prompt("+allowed_user", "/status", 0);
    match r {
        ProcessDecision::CommandReply(reply) => {
            assert_eq!(
                reply,
                "ccchat status\nUptime: 0h 0m\nMessages: 0\nActive sessions: 0\nTotal cost: $0.0000"
            );
        }
        _ => panic!("expected a status reply, not a backend call"),
    }
    assert_eq!(state.session_count(), 0);
}

#[test]
fn status_reply_reflects_counters() {
    let mut state = make_state(0, None);
    for _ in 0..7 {
        state.record_message();
    }
    state.add_cost(420_000);
    state.get_or_create_session("+allowed_user", 0);
    let r = state.process_prompt("+1234567890", "/status", 7_260_000);
    match r {
        ProcessDecision::CommandReply(reply) => {
            assert_eq!(
                reply,
                "ccchat status\nUptime: 2h 1m\nMessages: 7\nActive sessions: 1\nTotal cost: $0.4200"
            );
        }
        _ => panic!("expected a status reply"),
    }
}

#[test]
fn status_renders_multi_digit_counters_and_cost() {
    let mut state = make_state(0, None);
    for _ in 0..42 {
        state.record_message();
    }
    state.add_cost(12_345_678);
    let r = state.process_prompt("+allowed_user", "/status", 86_400_000);
    match r {
        ProcessDecision::CommandReply(reply) => {
            assert_eq!(
                reply,
                "ccchat status\nUptime: 24h 0m\nMessages: 42\nActive sessions: 0\nTotal cost: $12.3456"
            );
        }
        _ => panic!("expected a status reply"),
    }
}

#[test]
fn model_switch_then_text_invokes_with_new_model() {
    let mut state = make_state(0, None);
    let r = state.process_prompt("+allowed_user", "/model haiku", 0);
    match r {
        ProcessDecision::CommandReply(reply) => assert_eq!(reply, "Model switched to: haiku"),
        _ => panic!("expected a model-switch reply"),
    }
    let r2 = state.process_prompt("+allowed_user", "any text", 1);
    match r2 {
        ProcessDecision::Invoke { model, is_new_session, .. } => {
            assert_eq!(model, "haiku");
            assert!(!is_new_session);
        }
        _ => panic!("expected a backend invocation"),
    }
}

#[test]
fn reset_command_clears_the_session() {
    let mut state = make_state(0, None);
    state.get_or_create_session("+allowed_user", 0);
    let r = state.process_prompt("+allowed_user", "/reset", 1);
    match r {
        ProcessDecision::CommandReply(reply) => {
            assert_eq!(reply, "Session reset. Next message starts a fresh conversation.");
        }
        _ => panic!("expected a reset reply"),
    }
    assert_eq!(state.session_count(), 0);
}

#[test]
fn rate_limited_sender_gets_a_visible_notice() {
    // one whole token, no refill
    let mut state = make_state(0, Some((1000, 0)));
    let r1 = state.process_prompt("+allowed_user", "first", 0);
    assert!(matches!(r1, ProcessDecision::Invoke { .. }));
    let r2 = state.process_prompt("+allowed_user", "second", 1);
    match r2 {
        ProcessDecision::RateLimited(notice) => {
            assert_eq!(notice, "Rate limit exceeded. Please wait a moment before sending more.");
        }
        _ => panic!("expected a rate-limit rejection"),
    }
    // an unrelated sender still goes through
    let r3 = state.process_prompt("+1234567890", "third", 2);
    assert!(matches!(r3, ProcessDecision::Invoke { .. }));
}

#[test]
fn echo_of_own_output_is_dropped_before_the_backend() {
    let mut state = make_state(0, None);
    state.record_sent("hello");
    let r = state.handle_inbound("+allowed_user", "hello", 0);
    assert!(matches!(r, InboundDecision::EchoDropped));
    // a different text still goes through
    let r2 = state.handle_inbound("+allowed_user", "hello there", 1);
    assert!(matches!(r2, InboundDecision::Ready(_)));
}

#[test]
fn six_thousand_character_reply_is_two_parts_that_concatenate() {
    let mut state = make_state(0, None);
    let reply = "a".repeat(6000);
    let parts = state.complete_invocation("+allowed_user", &reply, Some(10_000));
    assert_eq!(parts.len(), 2);
    assert!(parts[0].len() <= 4000);
    assert!(parts[1].len() <= 4000);
    assert_eq!(format!("{}{}", parts[0], parts[1]), reply);
    assert_eq!(state.metrics.total_cost_micros, 10_000);
    // each part is now recognised as our own output
    assert!(matches!(
        state.handle_inbound("+allowed_user", &parts[0], 1),
        InboundDecision::EchoDropped
    ));
}

#[test]
fn backend_round_trips_per_sender_never_overlap() {
    let mut state = make_state(0, None);
    state.get_or_create_session("+allowed_user", 0);
    state.get_or_create_session("+1234567890", 0);
    assert!(state.try_begin_invoke("+allowed_user"));
    // the same sender cannot begin a second round-trip
    assert!(!state.try_begin_invoke("+allowed_user"));
    // an unrelated sender proceeds in parallel
    assert!(state.try_begin_invoke("+1234567890"));
    state.finish_invoke("+allowed_user");
    assert!(state.try_begin_invoke("+allowed_user"));
}

#[test]
fn classify_recognises_commands_and_plain_text() {
    assert!(matches!(classify_command("/reset"), Some(Command::Reset)));
    assert!(matches!(classify_command("  /status  "), Some(Command::Status)));
    match classify_command("/model  opus ") {
        Some(Command::SwitchModel(m)) => assert_eq!(m, "opus"),
        _ => panic!("expected a model switch"),
    }
    assert!(classify_command("hello /reset").is_none());
    assert!(classify_command("plain text").is_none());
}

#[test]
fn failure_notice_names_the_cause() {
    assert_eq!(failure_notice("exit status 1"), "Backend error: exit status 1");
}

#[test]
fn backoff_doubles_up_to_the_cap_and_resets_on_success() {
    let mut b = Backoff::new();
    let mut seen = Vec::new();
    for _ in 0..8 {
        seen.push(b.delay_and_advance());
    }
    assert_eq!(seen, vec![1, 2, 4, 8, 16, 32, 60, 60]);
    b.on_connected();
    assert_eq!(b.delay_and_advance(), 1);
}

#[test]
fn accept_event_keeps_only_real_messages() {
    assert_eq!(
        accept_event(Some("+a".to_string()), Some("hi".to_string())),
        Some(("+a".to_string(), "hi".to_string()))
    );
    assert_eq!(accept_event(Some("+a".to_string()), Some("".to_string())), None);
    assert_eq!(accept_event(Some("+a".to_string()), None), None);
    assert_eq!(accept_event(None, Some("hi".to_string())), None);
}
