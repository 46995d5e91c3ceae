use dastardly_daemon::error::{u64_to_decimal, EnforcementError};

#[test]
fn test_error_display() {
    let error = EnforcementError::InvalidStateTransition;
    assert_eq!(error.message(), "Invalid state transition");

    let error = EnforcementError::NotFound("test-id".to_string());
    assert_eq!(error.message(), "Enforcement not found: test-id");

    let error = EnforcementError::from("Something went wrong".to_string());
    assert_eq!(error.message(), "Enforcement error: Something went wrong");
}

#[test]
fn test_error_messages_for_remaining_variants() {
    assert_eq!(
        EnforcementError::DiscordApi("rate limited".to_string()).message(),
        "Discord API error: rate limited"
    );
    assert_eq!(
        EnforcementError::GuildOrMemberNotFound("guild 7".to_string()).message(),
        "Failed to get guild or member: guild 7"
    );
    assert_eq!(
        EnforcementError::ValidationFailed("bad payload".to_string()).message(),
        "Action validation failed: bad payload"
    );
    assert_eq!(
        EnforcementError::NotInVoiceChannel.message(),
        "User not in voice channel"
    );
    assert_eq!(
        EnforcementError::NoVoiceChannels(67890).message(),
        "No voice channels in guild: 67890"
    );
}

#[test]
fn test_decimal_rendering() {
    assert_eq!(u64_to_decimal(0), "0");
    assert_eq!(u64_to_decimal(7), "7");
    assert_eq!(u64_to_decimal(10), "10");
    assert_eq!(u64_to_decimal(305), "305");
    assert_eq!(u64_to_decimal(18446744073709551615), "18446744073709551615");
}
