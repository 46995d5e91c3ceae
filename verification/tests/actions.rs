use dastardly_daemon::action::{ActionParams, EnforcementAction, EnforcementActionType, HauntParams};

#[test]
fn test_action_needs_reversal() {
    // Actions without duration don't need reversal
    assert!(!EnforcementAction::mute(None).needs_reversal());
    assert!(!EnforcementAction::ban(None).needs_reversal());
    assert!(!EnforcementAction::voice_mute(None).needs_reversal());
    assert!(!EnforcementAction::voice_deafen(None).needs_reversal());

    // Actions with duration do need reversal
    assert!(EnforcementAction::mute(Some(300)).needs_reversal());
    assert!(EnforcementAction::ban(Some(3600)).needs_reversal());
    assert!(EnforcementAction::voice_mute(Some(600)).needs_reversal());
    assert!(EnforcementAction::voice_deafen(Some(900)).needs_reversal());

    // One-time actions never need reversal
    assert!(!EnforcementAction::kick(None).needs_reversal());
    assert!(!EnforcementAction::voice_disconnect(None).needs_reversal());
    assert!(!EnforcementAction::voice_channel_haunt(None, None, None, None).needs_reversal());
    assert!(!EnforcementAction::kick(Some(10)).needs_reversal());
    assert!(!EnforcementAction::voice_disconnect(Some(5)).needs_reversal());
    assert!(
        !EnforcementAction::voice_channel_haunt(Some(3), Some(10), Some(true), Some(12345))
            .needs_reversal()
    );
}

#[test]
fn test_action_is_immediate() {
    // Actions without delay parameters are immediate
    assert!(EnforcementAction::mute(Some(300)).is_immediate());
    assert!(EnforcementAction::ban(Some(3600)).is_immediate());
    assert!(EnforcementAction::voice_mute(Some(600)).is_immediate());
    assert!(EnforcementAction::voice_deafen(Some(900)).is_immediate());

    // Actions with 0 delay are immediate
    assert!(EnforcementAction::kick(Some(0)).is_immediate());
    assert!(EnforcementAction::voice_disconnect(Some(0)).is_immediate());
    assert!(
        EnforcementAction::voice_channel_haunt(Some(3), Some(0), Some(true), Some(12345))
            .is_immediate()
    );

    // Actions with delay are not immediate
    assert!(!EnforcementAction::kick(Some(10)).is_immediate());
    assert!(!EnforcementAction::voice_disconnect(Some(5)).is_immediate());
    assert!(
        !EnforcementAction::voice_channel_haunt(Some(3), Some(10), Some(true), Some(12345))
            .is_immediate()
    );
}

#[test]
fn test_action_type() {
    assert_eq!(
        EnforcementAction::NoAction.get_type(),
        EnforcementActionType::NoAction
    );
    assert_eq!(
        EnforcementAction::mute(Some(300)).get_type(),
        EnforcementActionType::Mute
    );
    assert_eq!(
        EnforcementAction::ban(Some(3600)).get_type(),
        EnforcementActionType::Ban
    );
    assert_eq!(
        EnforcementAction::kick(Some(0)).get_type(),
        EnforcementActionType::Kick
    );
    assert_eq!(
        EnforcementAction::voice_mute(Some(600)).get_type(),
        EnforcementActionType::VoiceMute
    );
    assert_eq!(
        EnforcementAction::voice_deafen(Some(900)).get_type(),
        EnforcementActionType::VoiceDeafen
    );
    assert_eq!(
        EnforcementAction::voice_disconnect(Some(5)).get_type(),
        EnforcementActionType::VoiceDisconnect
    );
    assert_eq!(
        EnforcementAction::voice_channel_haunt(Some(3), Some(10), Some(true), Some(12345))
            .get_type(),
        EnforcementActionType::VoiceChannelHaunt
    );
}

#[test]
fn test_action_params() {
    let params = ActionParams::new(Some(300));
    assert_eq!(params.duration, Some(300));
    assert!(params.has_duration());
    assert_eq!(params.duration_or_default(), 300);

    let params = ActionParams::new(None);
    assert_eq!(params.duration, None);
    assert!(!params.has_duration());
    assert_eq!(params.duration_or_default(), 0);

    let params = ActionParams::with_reason(Some(300), "Test reason".to_string());
    assert_eq!(params.duration, Some(300));
    assert_eq!(params.reason, Some("Test reason".to_string()));
}

#[test]
fn test_haunt_params() {
    let params = HauntParams::new(Some(3), Some(10), Some(true), Some(12345));
    assert_eq!(params.teleport_count, Some(3));
    assert_eq!(params.interval, Some(10));
    assert_eq!(params.return_to_origin, Some(true));
    assert_eq!(params.original_channel_id, Some(12345));
    assert_eq!(params.teleport_count_or_default(), 3);
    assert_eq!(params.interval_or_default(), 10);
    assert!(params.return_to_origin_or_default());

    let params = HauntParams::default();
    assert_eq!(params.teleport_count, None);
    assert_eq!(params.interval, None);
    assert_eq!(params.return_to_origin, None);
    assert_eq!(params.original_channel_id, None);
    assert_eq!(params.teleport_count_or_default(), 3);
    assert_eq!(params.interval_or_default(), 10);
    assert!(params.return_to_origin_or_default());
}

#[test]
fn test_default_action_is_placeholder() {
    let action: EnforcementAction = Default::default();
    assert_eq!(action.get_type(), EnforcementActionType::NoAction);
    assert!(!action.needs_reversal());
    assert!(action.is_immediate());
}
