use ccchat::bucket::TokenBucket;
use ccchat::state::Config;
use ccchat::state::State;

fn test_state() -> State {
    State::new(
        Config {
            model: "sonnet".to_string(),
            max_budget_micros: 5_000_000,
            rate_limit: None,
            session_ttl_ms: None,
            debounce_ms: 0,
            account: "+1234567890".to_string(),
        },
        vec!["+1234567890".to_string(), "+allowed_user".to_string()],
        0,
    )
}

#[test]
fn test_token_bucket_basic() {
    let mut bucket = TokenBucket::new(3000, 1000, 0);
    assert!(bucket.try_consume(0));
    assert!(bucket.try_consume(0));
    assert!(bucket.try_consume(0));
    assert!(!bucket.try_consume(0));
}

#[test]
fn test_token_bucket_refill() {
    let mut bucket = TokenBucket::new(2000, 1_000_000, 0);
    assert!(bucket.try_consume(0));
    assert!(bucket.try_consume(0));
    assert!(!bucket.try_consume(0));
    assert!(bucket.try_consume(10));
}

#[test]
fn test_rate_limit_blocks() {
    let mut bucket = TokenBucket::new(1000, 0, 0);
    assert!(bucket.try_consume(0));
    assert!(!bucket.try_consume(0));
    assert!(!bucket.try_consume(0));
    assert!(!bucket.try_consume(0));
}

#[test]
fn test_token_bucket_refill_capped_at_capacity() {
    let mut bucket = TokenBucket::new(2000, 1000, 0);
    assert!(bucket.try_consume(0));
    assert!(bucket.try_consume(0));
    // A very long idle period refills to capacity, never beyond it.
    assert!(bucket.try_consume(1_000_000));
    assert!(bucket.try_consume(1_000_000));
    assert!(!bucket.try_consume(1_000_000));
}

#[test]
fn test_session_expiry_logic() {
    let ttl = 50;
    let mut state = test_state();
    state.get_or_create_session("+allowed_user", 0);
    assert_eq!(state.session_count(), 1);
    state.sweep_idle_sessions(60, ttl);
    assert_eq!(state.session_count(), 0, "elapsed time should exceed TTL");
}

#[test]
fn test_sweep_keeps_fresh_sessions() {
    let mut state = test_state();
    state.get_or_create_session("+allowed_user", 0);
    state.get_or_create_session("+1234567890", 55);
    state.sweep_idle_sessions(60, 50);
    assert_eq!(state.session_count(), 1);
    let (_, _, is_new) = state.get_or_create_session("+1234567890", 61);
    assert!(!is_new);
}

#[test]
fn test_state_is_allowed_true() {
    let state = test_state();
    assert!(state.is_allowed("+allowed_user"));
}

#[test]
fn test_state_is_allowed_false() {
    let state = test_state();
    assert!(!state.is_allowed("+unknown_user"));
}

#[test]
fn test_state_is_allowed_empty() {
    let state = test_state();
    assert!(!state.is_allowed(""));
}

#[test]
fn test_get_or_create_session_new() {
    let mut state = test_state();
    let (session_id, model, is_new) = state.get_or_create_session("+fresh_user", 0);
    assert!(is_new);
    assert!(!session_id.is_empty());
    assert_eq!(model, "sonnet");
}

#[test]
fn test_get_or_create_session_existing_returns_same() {
    let mut state = test_state();
    let (id1, _, new1) = state.get_or_create_session("+repeat_user", 0);
    assert!(new1);
    let (id2, _, new2) = state.get_or_create_session("+repeat_user", 1);
    assert!(!new2);
    assert_eq!(id1, id2, "same sender should get same session");
}

#[test]
fn test_add_cost_and_total_cost_usd() {
    let mut state = test_state();
    assert_eq!(state.metrics.total_cost_micros, 0);
    state.add_cost(500_000);
    assert_eq!(state.metrics.total_cost_micros, 500_000);
    state.add_cost(1_250_000);
    assert_eq!(state.metrics.total_cost_micros, 1_750_000);
}

#[test]
fn test_add_cost_fractional() {
    let mut state = test_state();
    state.add_cost(1);
    assert!(state.metrics.total_cost_micros > 0);
    assert!(state.metrics.total_cost_micros < 1000);
}

#[test]
fn test_state_send_long_message_splits() {
    let mut state = test_state();
    let long_msg = "a".repeat(6000);
    let parts = state.complete_invocation("+allowed_user", &long_msg, None);
    assert_eq!(parts.len(), 2);
}

#[test]
fn test_note_pending_assigns_one_id_per_sender() {
    let mut state = test_state();
    state.note_pending("+stranger", "Stranger");
    state.note_pending("+stranger", "Stranger");
    state.note_pending("+other", "Other");
    assert_eq!(state.pending.len(), 2);
    assert_eq!(state.pending[0].1.short_id, 0);
    assert_eq!(state.pending[1].1.short_id, 1);
}

#[test]
fn test_reset_session_gives_fresh_id() {
    let mut state = test_state();
    let (id1, _, _) = state.get_or_create_session("+allowed_user", 0);
    state.reset_session("+allowed_user");
    assert_eq!(state.session_count(), 0);
    let (id2, _, is_new) = state.get_or_create_session("+allowed_user", 1);
    assert!(is_new);
    assert_ne!(id1, id2);
}

#[test]
fn test_switch_model_keeps_session_id() {
    let mut state = test_state();
    let (id1, model1, _) = state.get_or_create_session("+allowed_user", 0);
    assert_eq!(model1, "sonnet");
    state.switch_model("+allowed_user", "haiku", 1);
    let (id2, model2, is_new) = state.get_or_create_session("+allowed_user", 2);
    assert!(!is_new);
    assert_eq!(id1, id2);
    assert_eq!(model2, "haiku");
}
