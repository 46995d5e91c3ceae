use dastardly_daemon::action::EnforcementAction;
use dastardly_daemon::record::{EnforcementRecord, EnforcementState};

#[test]
fn test_enforcement_state_transitions() {
    // Create a new record
    let mut record = EnforcementRecord::new_at(
        "warning-123".to_string(),
        12345,
        67890,
        EnforcementAction::mute(Some(300)),
        1_000,
    );

    // Initial state should be Pending
    assert_eq!(record.state, EnforcementState::Pending);
    assert!(!record.executed);
    assert!(record.executed_at.is_none());

    // Execute should transition to Active (since it needs reversal)
    record.execute(1_010).unwrap();
    assert_eq!(record.state, EnforcementState::Active);
    assert!(record.executed);
    assert!(record.executed_at.is_some());
    assert!(record.reverse_at.is_some());

    // Reverse should transition to Reversed
    record.reverse(1_400).unwrap();
    assert_eq!(record.state, EnforcementState::Reversed);
    assert!(record.reversed_at.is_some());

    // Cannot reverse again
    assert!(record.reverse(1_500).is_err());

    // Test with an action that doesn't need reversal
    let mut record = EnforcementRecord::new_at(
        "warning-123".to_string(),
        12345,
        67890,
        EnforcementAction::kick(Some(0)),
        1_000,
    );

    // Execute should transition directly to Completed
    record.execute(1_010).unwrap();
    assert_eq!(record.state, EnforcementState::Completed);
    assert!(record.executed);
    assert!(record.executed_at.is_some());
    assert!(record.reverse_at.is_none());

    // Cannot reverse a completed enforcement
    assert!(record.reverse(1_020).is_err());
}

#[test]
fn test_cancellation() {
    // Test cancelling a pending enforcement
    let mut record = EnforcementRecord::new_at(
        "warning-123".to_string(),
        12345,
        67890,
        EnforcementAction::mute(Some(300)),
        1_000,
    );

    record.cancel().unwrap();
    assert_eq!(record.state, EnforcementState::Cancelled);

    // Cannot execute a cancelled enforcement
    assert!(record.execute(1_010).is_err());

    // Test cancelling an active enforcement
    let mut record = EnforcementRecord::new_at(
        "warning-123".to_string(),
        12345,
        67890,
        EnforcementAction::mute(Some(300)),
        1_000,
    );

    record.execute(1_010).unwrap();
    assert_eq!(record.state, EnforcementState::Active);

    record.cancel().unwrap();
    assert_eq!(record.state, EnforcementState::Cancelled);

    // Cannot reverse a cancelled enforcement
    assert!(record.reverse(1_020).is_err());
}

#[test]
fn test_due_for_execution_or_reversal() {
    // Test a record that's due for execution
    let now = 1_000;
    let past = now - 10;
    let mut record = EnforcementRecord::new_at(
        "warning-123".to_string(),
        12345,
        67890,
        EnforcementAction::mute(Some(300)),
        now,
    );
    record.execute_at = past;

    assert!(record.is_due_for_execution(now));
    assert!(!record.is_due_for_reversal(now));

    // Execute and test for reversal
    record.execute(now).unwrap();
    assert!(!record.is_due_for_execution(now));
    assert!(!record.is_due_for_reversal(now)); // Not due yet

    // Make it due for reversal
    record.reverse_at = Some(past);
    assert!(record.is_due_for_reversal(now));

    // Reverse and test neither should be true
    record.reverse(now).unwrap();
    assert!(!record.is_due_for_execution(now));
    assert!(!record.is_due_for_reversal(now));
}

#[test]
fn test_calculate_execute_time() {
    let now = 1_000;

    // Immediate actions
    let action = EnforcementAction::mute(Some(300));
    let time = EnforcementRecord::calculate_execute_time(&action, now);
    assert!(time <= now);

    // Delayed actions
    let action = EnforcementAction::kick(Some(60));
    let time = EnforcementRecord::calculate_execute_time(&action, now);
    assert!(time > now);
    let diff = time - now;
    assert!(diff >= 59 && diff <= 61);

    let action = EnforcementAction::voice_disconnect(Some(30));
    let time = EnforcementRecord::calculate_execute_time(&action, now);
    assert!(time > now);
    let diff = time - now;
    assert!(diff >= 29 && diff <= 31);
}

#[test]
fn test_round_trip_mute() {
    // A reversible record executed and then reversed ends Reversed with both
    // stamps set and the reversal scheduled at execution time plus duration.
    let mut record = EnforcementRecord::new_at(
        "w-round-trip".to_string(),
        111,
        222,
        EnforcementAction::mute(Some(300)),
        2_000,
    );
    record.execute(2_005).unwrap();
    assert_eq!(record.reverse_at, Some(2_305));
    record.reverse(2_305).unwrap();
    assert_eq!(record.state, EnforcementState::Reversed);
    assert_eq!(record.executed_at, Some(2_005));
    assert_eq!(record.reversed_at, Some(2_305));
}

#[test]
fn test_execute_twice_fails_once() {
    // Idempotence guard: the first execute succeeds, the second is refused
    // and changes nothing.
    let mut record = EnforcementRecord::new_at(
        "w-twice".to_string(),
        111,
        222,
        EnforcementAction::voice_deafen(Some(60)),
        3_000,
    );
    assert!(record.execute(3_001).is_ok());
    let after_first = record.clone();
    assert!(record.execute(3_002).is_err());
    assert_eq!(record.state, after_first.state);
    assert_eq!(record.executed_at, after_first.executed_at);
    assert_eq!(record.reverse_at, after_first.reverse_at);
}

#[test]
fn test_fresh_record_fields() {
    // IDs come from the platform's ID generator: hyphenated, 36 characters,
    // and unique across records; the wall clock stamps creation.
    let a = EnforcementRecord::new(
        "w-a".to_string(),
        1,
        2,
        EnforcementAction::mute(Some(10)),
    );
    let b = EnforcementRecord::new(
        "w-b".to_string(),
        1,
        2,
        EnforcementAction::mute(Some(10)),
    );
    assert_eq!(a.id.len(), 36);
    assert_eq!(b.id.len(), 36);
    assert_ne!(a.id, b.id);
    assert!(a.created_at > 1_600_000_000);
    assert_eq!(a.execute_at, a.created_at);
    assert_eq!(a.state, EnforcementState::Pending);
    assert!(!a.executed);

    // A delayed kick schedules its execution after the delay
    let c = EnforcementRecord::new(
        "w-c".to_string(),
        1,
        2,
        EnforcementAction::kick(Some(60)),
    );
    assert_eq!(c.execute_at, c.created_at + 60);
}
