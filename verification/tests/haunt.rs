use dastardly_daemon::action::{EnforcementAction, HauntParams};
use dastardly_daemon::handler::{
    select_random_voice_channel, ActionHandlerRegistry, EffectorCall, HauntPlan, HauntStep,
};

#[test]
fn test_dispatch_apply_and_reverse() {
    let registry = ActionHandlerRegistry::new();

    let mute = EnforcementAction::mute(Some(300));
    assert!(matches!(
        registry.execute(&mute, 1_000),
        EffectorCall::Timeout { until: 1_300 }
    ));
    assert!(matches!(registry.reverse(&mute), EffectorCall::Nothing));

    let ban = EnforcementAction::ban(Some(600));
    match registry.execute(&ban, 1_000) {
        EffectorCall::Ban { duration, reason } => {
            assert_eq!(duration, 600);
            assert_eq!(reason, None);
        }
        other => panic!("expected a ban request, got {:?}", other),
    }
    assert!(matches!(registry.reverse(&ban), EffectorCall::Unban));

    let kick = EnforcementAction::kick(Some(0));
    assert!(matches!(registry.execute(&kick, 1_000), EffectorCall::Kick { .. }));
    assert!(matches!(registry.reverse(&kick), EffectorCall::Nothing));

    let vmute = EnforcementAction::voice_mute(Some(60));
    assert!(matches!(
        registry.execute(&vmute, 1_000),
        EffectorCall::SetVoiceMute { muted: true }
    ));
    assert!(matches!(
        registry.reverse(&vmute),
        EffectorCall::SetVoiceMute { muted: false }
    ));

    let disc = EnforcementAction::voice_disconnect(Some(0));
    assert!(matches!(registry.execute(&disc, 1_000), EffectorCall::Disconnect));
    assert!(matches!(registry.reverse(&disc), EffectorCall::Nothing));

    let haunt = EnforcementAction::voice_channel_haunt(Some(2), Some(5), Some(true), None);
    assert!(matches!(
        registry.execute(&haunt, 1_000),
        EffectorCall::BeginHaunt { .. }
    ));

    assert!(matches!(
        registry.execute(&EnforcementAction::NoAction, 1_000),
        EffectorCall::Nothing
    ));
}

#[test]
fn test_select_random_voice_channel_prefers_different() {
    let channels = vec![10, 20];
    for _ in 0..16 {
        // With a different channel available, the first relocation never
        // keeps the user in place.
        assert_eq!(select_random_voice_channel(&channels, true, 10), 20);
    }
    let only = vec![10];
    assert_eq!(select_random_voice_channel(&only, true, 10), 10);
    let picked = select_random_voice_channel(&channels, false, 10);
    assert!(picked == 10 || picked == 20);
}

#[test]
fn test_haunt_plan_full_walk() {
    // Two relocations five seconds apart, then a return to the origin.
    let params = HauntParams::new(Some(2), Some(5), Some(true), Some(99));
    let channels = vec![10, 20];
    let mut plan = HauntPlan::begin(&params, &channels, Some(10), 42).unwrap();
    assert_eq!(plan.targets.len(), 2);
    assert_eq!(plan.targets[0], 20);

    let first = plan.next_step();
    assert_eq!(first, HauntStep::Teleport { channel_id: plan.targets[0] });
    plan.report_teleport(true);

    assert_eq!(plan.next_step(), HauntStep::Wait { seconds: 5 });

    let second = plan.next_step();
    assert_eq!(second, HauntStep::Teleport { channel_id: plan.targets[1] });
    plan.report_teleport(true);

    // No wait after the last relocation: straight back to the origin
    assert_eq!(plan.next_step(), HauntStep::Teleport { channel_id: 99 });
    plan.report_teleport(true);

    assert_eq!(plan.next_step(), HauntStep::Done);
}

#[test]
fn test_haunt_plan_aborts_on_failure() {
    // A failed relocation abandons the remaining steps, including the return
    // to the origin.
    let params = HauntParams::new(Some(3), Some(5), Some(true), Some(99));
    let channels = vec![10, 20];
    let mut plan = HauntPlan::begin(&params, &channels, Some(10), 42).unwrap();

    assert!(matches!(plan.next_step(), HauntStep::Teleport { .. }));
    plan.report_teleport(false);
    assert_eq!(plan.next_step(), HauntStep::Done);
    assert_eq!(plan.next_step(), HauntStep::Done);
}

#[test]
fn test_haunt_plan_preconditions() {
    let params = HauntParams::default();
    let channels = vec![10];

    let err = HauntPlan::begin(&params, &channels, None, 42).unwrap_err();
    assert_eq!(err.message(), "User not in voice channel");

    let none: Vec<u64> = vec![];
    let err = HauntPlan::begin(&params, &none, Some(10), 42).unwrap_err();
    assert_eq!(err.message(), "No voice channels in guild: 42");
}

#[test]
fn test_haunt_plan_defaults() {
    // Unset parameters fall back to three relocations, ten seconds apart,
    // returning to the user's current channel.
    let params = HauntParams::default();
    let channels = vec![10];
    let plan = HauntPlan::begin(&params, &channels, Some(10), 42).unwrap();
    assert_eq!(plan.targets.len(), 3);
    assert_eq!(plan.interval, 10);
    assert!(plan.return_to_origin);
    assert_eq!(plan.origin_channel_id, 10);
}
