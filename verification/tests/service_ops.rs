use dastardly_daemon::action::EnforcementAction;
use dastardly_daemon::handler::EffectorCall;
use dastardly_daemon::record::EnforcementState;
use dastardly_daemon::service::EnforcementService;

#[test]
fn test_process_enforcement_mute() {
    // A pending mute whose execution time has passed becomes Active, and the
    // apply request (a messaging timeout) is produced exactly once.
    let mut service = EnforcementService::new();
    let rec = service.create_enforcement_at(
        "w1".to_string(),
        111,
        222,
        EnforcementAction::mute(Some(300)),
        1_000,
    );
    assert_eq!(rec.state, EnforcementState::Pending);
    assert_eq!(rec.execute_at, 1_000);

    let call = service.process_enforcement(&rec.id, 1_050).unwrap();
    match call {
        Some(EffectorCall::Timeout { until }) => assert_eq!(until, 1_350),
        other => panic!("expected a timeout request, got {:?}", other),
    }
    let stored = service.store.get(&rec.id).unwrap();
    assert_eq!(stored.state, EnforcementState::Active);
    assert_eq!(stored.reverse_at, Some(1_350));
}

#[test]
fn test_process_enforcement_kick_immediate() {
    // An immediate kick executes straight to Completed with the kick-apply
    // request produced exactly once and no reversal ever scheduled.
    let mut service = EnforcementService::new();
    let action = EnforcementAction::kick(Some(0));
    assert!(action.is_immediate());
    let rec = service.create_enforcement_at("w2".to_string(), 111, 222, action, 1_000);
    assert_eq!(rec.execute_at, rec.created_at);

    let call = service.process_enforcement(&rec.id, 1_000).unwrap();
    assert!(matches!(call, Some(EffectorCall::Kick { .. })));
    let stored = service.store.get(&rec.id).unwrap();
    assert_eq!(stored.state, EnforcementState::Completed);
    assert_eq!(stored.reverse_at, None);

    // Processing again produces no second application
    let again = service.process_enforcement(&rec.id, 1_001).unwrap();
    assert!(again.is_none());
}

#[test]
fn test_process_enforcement_same_id_twice() {
    // Two checks of the same record: exactly one transition happens; the
    // second call is a no-op, as when a sweep and an on-demand check race.
    let mut service = EnforcementService::new();
    let rec = service.create_enforcement_at(
        "w3".to_string(),
        111,
        222,
        EnforcementAction::mute(Some(300)),
        1_000,
    );
    let first = service.process_enforcement(&rec.id, 1_010).unwrap();
    assert!(first.is_some());
    let second = service.process_enforcement(&rec.id, 1_010).unwrap();
    assert!(second.is_none());
    assert_eq!(
        service.store.get(&rec.id).unwrap().state,
        EnforcementState::Active
    );
}

#[test]
fn test_cancel_all_for_user_scenario() {
    // One pending and one active record for the user: the plan asks to undo
    // the active one's effect exactly once, and the commit cancels both.
    let mut service = EnforcementService::new();
    let pending = service.create_enforcement_at(
        "w-pending".to_string(),
        111,
        222,
        EnforcementAction::mute(Some(300)),
        1_000,
    );
    let active = service.create_enforcement_at(
        "w-active".to_string(),
        111,
        222,
        EnforcementAction::voice_mute(Some(300)),
        1_000,
    );
    service.process_enforcement(&active.id, 1_010).unwrap();

    let plan = service.cancel_all_for_user_plan(111, 222);
    assert_eq!(plan.len(), 1);
    assert_eq!(plan[0].0, active.id);
    assert!(matches!(plan[0].1, EffectorCall::SetVoiceMute { muted: false }));

    let cancelled = service.cancel_all_for_user(111, 222);
    assert_eq!(cancelled.len(), 2);
    assert_eq!(
        service.store.get(&pending.id).unwrap().state,
        EnforcementState::Cancelled
    );
    assert_eq!(
        service.store.get(&active.id).unwrap().state,
        EnforcementState::Cancelled
    );
}

#[test]
fn test_cancel_enforcement_plan_and_commit() {
    let mut service = EnforcementService::new();
    let rec = service.create_enforcement_at(
        "w-cancel".to_string(),
        111,
        222,
        EnforcementAction::ban(Some(600)),
        1_000,
    );

    // Pending: nothing to undo
    assert!(service.cancel_enforcement_plan(&rec.id).unwrap().is_none());

    // Active: the ban must be lifted before the record moves on
    service.process_enforcement(&rec.id, 1_001).unwrap();
    let plan = service.cancel_enforcement_plan(&rec.id).unwrap();
    assert!(matches!(plan, Some(EffectorCall::Unban)));

    let cancelled = service.cancel_enforcement(&rec.id).unwrap();
    assert_eq!(cancelled.state, EnforcementState::Cancelled);

    // A settled record can no longer be cancelled
    assert!(service.cancel_enforcement(&rec.id).is_err());
    assert!(service.cancel_enforcement_plan(&rec.id).is_err());
}

#[test]
fn test_check_all_enforcements() {
    // A sweep executes every due pending record and reverses every due
    // active record, and leaves the rest alone.
    let mut service = EnforcementService::new();
    let due = service.create_enforcement_at(
        "w-due".to_string(),
        1,
        2,
        EnforcementAction::voice_deafen(Some(100)),
        1_000,
    );
    let later = service.create_enforcement_at(
        "w-later".to_string(),
        1,
        2,
        EnforcementAction::kick(Some(5_000)),
        1_000,
    );

    // First sweep: only the deafen is due; it is applied
    let calls = service.check_all_enforcements(1_010);
    assert_eq!(calls.len(), 1);
    assert_eq!(calls[0].0, due.id);
    assert!(matches!(calls[0].1, EffectorCall::SetVoiceDeafen { deafened: true }));
    assert_eq!(service.store.get(&due.id).unwrap().state, EnforcementState::Active);
    assert_eq!(service.store.get(&later.id).unwrap().state, EnforcementState::Pending);

    // Second sweep, past the reversal window and the kick's delay: the
    // deafen is lifted and the kick fires
    let calls = service.check_all_enforcements(7_000);
    assert_eq!(calls.len(), 2);
    assert_eq!(service.store.get(&due.id).unwrap().state, EnforcementState::Reversed);
    assert_eq!(service.store.get(&later.id).unwrap().state, EnforcementState::Completed);
}

#[test]
fn test_check_user_enforcements() {
    // A per-user check touches only that user's due records.
    let mut service = EnforcementService::new();
    let mine = service.create_enforcement_at(
        "w-mine".to_string(),
        111,
        222,
        EnforcementAction::mute(Some(300)),
        1_000,
    );
    let theirs = service.create_enforcement_at(
        "w-theirs".to_string(),
        999,
        222,
        EnforcementAction::mute(Some(300)),
        1_000,
    );

    let calls = service.check_user_enforcements(111, 222, 1_010);
    assert_eq!(calls.len(), 1);
    assert_eq!(calls[0].0, mine.id);
    assert_eq!(service.store.get(&mine.id).unwrap().state, EnforcementState::Active);
    assert_eq!(service.store.get(&theirs.id).unwrap().state, EnforcementState::Pending);
}

#[test]
fn test_process_enforcement_not_found() {
    let mut service = EnforcementService::new();
    let missing = "no-such-id".to_string();
    let err = service.process_enforcement(&missing, 1_000).unwrap_err();
    assert_eq!(err.message(), "Enforcement not found: no-such-id");
}

#[test]
fn test_sweep_of_empty_store() {
    let mut service = EnforcementService::new();
    assert!(service.check_all_enforcements(1_000).is_empty());
    assert!(service.check_user_enforcements(1, 2, 1_000).is_empty());
    assert!(service.cancel_all_for_user(1, 2).is_empty());
    assert!(service.cancel_all_for_user_plan(1, 2).is_empty());
}

#[test]
fn test_pending_record_not_yet_due_is_left_alone() {
    let mut service = EnforcementService::new();
    let rec = service.create_enforcement_at(
        "w-later".to_string(),
        1,
        2,
        EnforcementAction::voice_disconnect(Some(120)),
        1_000,
    );
    assert_eq!(rec.execute_at, 1_120);
    // Not due yet: processing is a no-op
    let call = service.process_enforcement(&rec.id, 1_100).unwrap();
    assert!(call.is_none());
    assert_eq!(
        service.store.get(&rec.id).unwrap().state,
        EnforcementState::Pending
    );
    // Due now: the disconnect fires
    let call = service.process_enforcement(&rec.id, 1_120).unwrap();
    assert!(matches!(call, Some(EffectorCall::Disconnect)));
}
