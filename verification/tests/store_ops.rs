use dastardly_daemon::action::EnforcementAction;
use dastardly_daemon::record::{EnforcementRecord, EnforcementState};
use dastardly_daemon::store::EnforcementStore;

fn record(warning_id: &str, user_id: u64, guild_id: u64, action: EnforcementAction) -> EnforcementRecord {
    EnforcementRecord::new_at(warning_id.to_string(), user_id, guild_id, action, 1_000)
}

#[test]
fn test_add_and_get() {
    let mut store = EnforcementStore::new();
    let rec = record("warning-123", 12345, 67890, EnforcementAction::mute(Some(300)));
    let id = rec.id.clone();

    store.add(rec);

    let retrieved = store.get(&id);
    assert!(retrieved.is_some());
    assert_eq!(retrieved.unwrap().state, EnforcementState::Pending);
}

#[test]
fn test_execute_and_reverse() {
    let mut store = EnforcementStore::new();
    let rec = record("warning-123", 12345, 67890, EnforcementAction::mute(Some(300)));
    let id = rec.id.clone();

    store.add(rec);

    // Execute
    let result = store.execute_enforcement(&id, 1_010);
    assert!(result.is_ok());
    let executed = result.unwrap();
    assert_eq!(executed.state, EnforcementState::Active);

    // Verify state in store
    let retrieved = store.get(&id);
    assert!(retrieved.is_some());
    assert_eq!(retrieved.unwrap().state, EnforcementState::Active);

    // Reverse
    let result = store.reverse_enforcement(&id, 1_310);
    assert!(result.is_ok());
    let reversed = result.unwrap();
    assert_eq!(reversed.state, EnforcementState::Reversed);

    // Verify state in store
    let retrieved = store.get(&id);
    assert!(retrieved.is_some());
    assert_eq!(retrieved.unwrap().state, EnforcementState::Reversed);
}

#[test]
fn test_cancel() {
    let mut store = EnforcementStore::new();
    let rec = record("warning-123", 12345, 67890, EnforcementAction::mute(Some(300)));
    let id = rec.id.clone();

    store.add(rec);

    // Cancel
    let result = store.cancel_enforcement(&id);
    assert!(result.is_ok());
    let cancelled = result.unwrap();
    assert_eq!(cancelled.state, EnforcementState::Cancelled);

    // Verify state in store
    let retrieved = store.get(&id);
    assert!(retrieved.is_some());
    assert_eq!(retrieved.unwrap().state, EnforcementState::Cancelled);
}

#[test]
fn test_get_for_user() {
    let mut store = EnforcementStore::new();

    // Add multiple records for different users
    let record1 = record("warning-1", 12345, 67890, EnforcementAction::mute(Some(300)));
    let record2 = record("warning-2", 12345, 67890, EnforcementAction::voice_mute(Some(300)));
    let record3 = record("warning-3", 98765, 67890, EnforcementAction::mute(Some(300)));

    store.add(record1);
    store.add(record2);
    store.add(record3);

    // Test get_for_user
    let records = store.get_for_user(12345, 67890);
    assert_eq!(records.len(), 2);

    let records = store.get_for_user(98765, 67890);
    assert_eq!(records.len(), 1);

    let records = store.get_for_user(55555, 67890);
    assert_eq!(records.len(), 0);
}

#[test]
fn test_get_by_state() {
    let mut store = EnforcementStore::new();

    // Add records in different states
    let record1 = record("warning-1", 12345, 67890, EnforcementAction::mute(Some(300)));
    let record2 = record("warning-2", 12345, 67890, EnforcementAction::voice_mute(Some(300)));
    let record3 = record("warning-3", 98765, 67890, EnforcementAction::mute(Some(300)));

    let id1 = record1.id.clone();
    let id2 = record2.id.clone();

    store.add(record1);
    store.add(record2);
    store.add(record3);

    // Execute one record
    let _ = store.execute_enforcement(&id1, 1_010);

    // Cancel one record
    let _ = store.cancel_enforcement(&id2);

    // Test get_by_state
    let pending = store.get_by_state(EnforcementState::Pending);
    assert_eq!(pending.len(), 1);

    let active = store.get_by_state(EnforcementState::Active);
    assert_eq!(active.len(), 1);

    let cancelled = store.get_by_state(EnforcementState::Cancelled);
    assert_eq!(cancelled.len(), 1);
}

#[test]
fn test_cancel_all_for_user() {
    let mut store = EnforcementStore::new();

    // Add multiple records for the same user
    let record1 = record("warning-1", 12345, 67890, EnforcementAction::mute(Some(300)));
    let record2 = record("warning-2", 12345, 67890, EnforcementAction::voice_mute(Some(300)));
    let record3 = record("warning-3", 98765, 67890, EnforcementAction::mute(Some(300)));

    let id1 = record1.id.clone();

    store.add(record1);
    store.add(record2);
    store.add(record3);

    // Execute one record
    let _ = store.execute_enforcement(&id1, 1_010);

    // Cancel all for user
    let cancelled = store.cancel_all_for_user(12345, 67890);
    assert_eq!(cancelled.len(), 2);

    // Verify states
    let all_for_user = store.get_for_user(12345, 67890);
    for rec in all_for_user {
        assert_eq!(rec.state, EnforcementState::Cancelled);
    }

    // Other user's record should be untouched
    let other_user = store.get_for_user(98765, 67890);
    assert_eq!(other_user.len(), 1);
    assert_eq!(other_user[0].state, EnforcementState::Pending);
}

#[test]
fn test_due_lists() {
    let mut store = EnforcementStore::new();
    let due = record("warning-due", 1, 2, EnforcementAction::mute(Some(300)));
    let later = EnforcementRecord::new_at(
        "warning-later".to_string(),
        1,
        2,
        EnforcementAction::kick(Some(500)),
        1_000,
    );
    let due_id = due.id.clone();
    let later_id = later.id.clone();
    store.add(due);
    store.add(later);

    // Only the record whose execute_at has passed is listed
    let pending = store.get_pending_for_execution(1_100);
    assert_eq!(pending, vec![due_id.clone()]);

    // After executing it, it becomes due for reversal once its window ends
    store.execute_enforcement(&due_id, 1_100).unwrap();
    assert_eq!(store.get_active_for_reversal(1_200).len(), 0);
    let reversals = store.get_active_for_reversal(1_400);
    assert_eq!(reversals, vec![due_id.clone()]);

    // The delayed kick becomes due once its delay has elapsed
    let pending = store.get_pending_for_execution(1_500);
    assert_eq!(pending, vec![later_id]);
}

#[test]
fn test_remove_and_get_all() {
    let mut store = EnforcementStore::new();
    let record1 = record("warning-1", 1, 2, EnforcementAction::mute(Some(300)));
    let record2 = record("warning-2", 1, 2, EnforcementAction::ban(Some(300)));
    let id1 = record1.id.clone();
    store.add(record1);
    store.add(record2);
    assert_eq!(store.get_all().len(), 2);

    let removed = store.remove(&id1);
    assert!(removed.is_some());
    assert_eq!(removed.unwrap().id, id1);
    assert_eq!(store.get_all().len(), 1);
    assert!(store.get(&id1).is_none());
    assert!(store.remove(&id1).is_none());
}
