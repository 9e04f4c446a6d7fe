use parser_core::trampoline::{with_trampoline, Countdown, ProtocolViolation, StrayEntry, TerminalValue};

#[test]
fn terminal_value_wraps() {
    let t = TerminalValue::new(5);
    assert_eq!(t.value, 5);
}

#[test]
fn countdown_terminates_immediately() {
    let r = with_trampoline(Countdown, (0, 42));
    assert!(matches!(r, Ok(42)));
}

#[test]
fn countdown_short_chain() {
    let r = with_trampoline(Countdown, (5, 0));
    assert!(matches!(r, Ok(5)));
}

#[test]
fn countdown_long_chain_runs_in_constant_stack() {
    // A chain of a million deferred calls must resolve correctly instead of
    // exhausting the host stack.
    let r = with_trampoline(Countdown, (1_000_000, 0));
    assert!(matches!(r, Ok(1_000_000)));
}

#[test]
fn protocol_violation_is_reported() {
    let r = with_trampoline(StrayEntry, 7);
    assert!(matches!(r, Err(ProtocolViolation)));
}
