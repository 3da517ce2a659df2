use ccchat::state::Config;
use ccchat::state::State;
use ccchat::stats::build_stats_snapshot;

fn stats_state() -> State {
    State::new(
        Config {
            model: "sonnet".to_string(),
            max_budget_micros: 5_000_000,
            rate_limit: None,
            session_ttl_ms: None,
            debounce_ms: 0,
            account: "+1234567890".to_string(),
        },
        vec!["+1234567890".to_string(), "+allowed_user".to_string()],
        0,
    )
}

#[test]
fn test_build_stats_json_initially_zero() {
    let state = stats_state();
    let snapshot = build_stats_snapshot(&state, 0);
    assert_eq!(snapshot.messages, 0);
    assert_eq!(snapshot.active_sessions, 0);
    assert_eq!(snapshot.total_cost_micros, 0);
}

#[test]
fn test_stats_includes_all_fields() {
    let state = stats_state();
    let snapshot = build_stats_snapshot(&state, 5000);
    assert_eq!(snapshot.uptime_secs, 5);
    assert_eq!(snapshot.messages, 0);
    assert_eq!(snapshot.active_sessions, 0);
    assert_eq!(snapshot.allowed_senders, 2);
    assert_eq!(snapshot.total_cost_micros, 0);
    assert!(!snapshot.model.is_empty());
    assert!(!snapshot.version.is_empty());
}

#[test]
fn test_stats_json_format() {
    let state = stats_state();
    let snapshot = build_stats_snapshot(&state, 0);
    assert_eq!(snapshot.model, "sonnet");
    assert_eq!(snapshot.version, "0.1.0");
}

#[test]
fn test_stats_reflects_state_mutations() {
    let mut state = stats_state();

    let snapshot = build_stats_snapshot(&state, 0);
    assert_eq!(snapshot.messages, 0);
    assert_eq!(snapshot.total_cost_micros, 0);
    assert_eq!(snapshot.active_sessions, 0);

    for _ in 0..42 {
        state.record_message();
    }
    let snapshot = build_stats_snapshot(&state, 0);
    assert_eq!(snapshot.messages, 42);

    state.add_cost(1_230_000);
    let snapshot = build_stats_snapshot(&state, 0);
    assert_eq!(snapshot.total_cost_micros, 1_230_000);

    state.get_or_create_session("+someone", 0);
    let snapshot = build_stats_snapshot(&state, 0);
    assert_eq!(snapshot.active_sessions, 1);
}
