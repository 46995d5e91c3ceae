//! Action taxonomy: the closed set of enforcement actions, their parameter
//! payloads, and the pure classification helpers (`needs_reversal`,
//! `is_immediate`) that the rest of the engine dispatches on.

use vstd::prelude::*;

verus! {

/// Kind of enforcement action.
#[derive(Debug, Clone, Copy, PartialEq, Eq, Hash, Structural)]
pub enum EnforcementActionType {
    /// No action (placeholder)
    NoAction,
    /// Text channel timeout
    Mute,
    /// Server ban
    Ban,
    /// Server kick
    Kick,
    /// Voice mute
    VoiceMute,
    /// Voice deafen
    VoiceDeafen,
    /// Voice disconnect
    VoiceDisconnect,
    /// Voice channel haunting (repeated relocation)
    VoiceChannelHaunt,
}

/// Parameters common to most enforcement actions.
#[derive(Debug, Clone)]
pub struct ActionParams {
    /// Duration in seconds for timed actions, or pre-execution delay for
    /// one-shot actions.
    pub duration: Option<u32>,
    /// Reason for the action (for audit logs).
    pub reason: Option<String>,
}

impl ActionParams {
    /// The duration, or zero when absent.
    pub open spec fn spec_duration_or_default(self) -> u32 {
        match self.duration {
            Some(d) => d,
            None => 0u32,
        }
    }

    /// Whether the parameters carry a positive duration.
    pub open spec fn spec_has_duration(self) -> bool {
        match self.duration {
            Some(d) => d > 0,
            None => false,
        }
    }

    /// Create new action parameters with the specified duration.
    pub fn new(duration: Option<u32>) -> (r: Self)
        ensures
            r.duration == duration,
            r.reason is None,
    {
        Self { duration, reason: None }
    }

    /// Create new action parameters with the specified duration and reason.
    pub fn with_reason(duration: Option<u32>, reason: String) -> (r: Self)
        ensures
            r.duration == duration,
            r.reason == Some(reason),
    {
        Self { duration, reason: Some(reason) }
    }

    /// Get the duration or a default value.
    pub fn duration_or_default(&self) -> (r: u32)
        ensures
            r == self.spec_duration_or_default(),
    {
        match self.duration {
            Some(d) => d,
            None => 0,
        }
    }

    /// Check if the action has a duration (i.e., is timed).
    pub fn has_duration(&self) -> (r: bool)
        ensures
            r == self.spec_has_duration(),
    {
        match self.duration {
            Some(d) => d > 0,
            None => false,
        }
    }

    /// An exact copy.
    pub fn duplicate(&self) -> (r: Self)
        ensures
            r == *self,
    {
        Self {
            duration: self.duration,
            reason: match &self.reason {
                Some(s) => Some(s.clone()),
                None => None,
            },
        }
    }
}

impl Default for ActionParams {
    /// Parameters with no duration and no reason.
    fn default() -> (r: Self)
        ensures
            r.duration is None,
            r.reason is None,
    {
        Self { duration: None, reason: None }
    }
}

/// Parameters specific to the voice channel haunt action.
#[derive(Debug, Clone, Copy)]
pub struct HauntParams {
    /// Number of times to relocate the user between channels.
    pub teleport_count: Option<u32>,
    /// Seconds between each relocation.
    pub interval: Option<u32>,
    /// Whether to eventually return the user to their original channel.
    pub return_to_origin: Option<bool>,
    /// Original voice channel ID to potentially return to.
    pub original_channel_id: Option<u64>,
}

impl HauntParams {
    /// The relocation count, or its default of three.
    pub open spec fn spec_teleport_count(self) -> u32 {
        match self.teleport_count {
            Some(c) => c,
            None => 3u32,
        }
    }

    /// The interval in seconds, or its default of ten.
    pub open spec fn spec_interval(self) -> u32 {
        match self.interval {
            Some(i) => i,
            None => 10u32,
        }
    }

    /// Whether to return to the origin channel; true when unset.
    pub open spec fn spec_return_to_origin(self) -> bool {
        match self.return_to_origin {
            Some(b) => b,
            None => true,
        }
    }

    /// Create new haunting parameters.
    pub fn new(
        teleport_count: Option<u32>,
        interval: Option<u32>,
        return_to_origin: Option<bool>,
        original_channel_id: Option<u64>,
    ) -> (r: Self)
        ensures
            r.teleport_count == teleport_count,
            r.interval == interval,
            r.return_to_origin == return_to_origin,
            r.original_channel_id == original_channel_id,
    {
        Self { teleport_count, interval, return_to_origin, original_channel_id }
    }

    /// Get the teleport count or a default value.
    pub fn teleport_count_or_default(&self) -> (r: u32)
        ensures
            r == self.spec_teleport_count(),
    {
        match self.teleport_count {
            Some(c) => c,
            None => 3,
        }
    }

    /// Get the interval or a default value.
    pub fn interval_or_default(&self) -> (r: u32)
        ensures
            r == self.spec_interval(),
    {
        match self.interval {
            Some(i) => i,
            None => 10,
        }
    }

    /// Get whether to return to origin or a default value.
    pub fn return_to_origin_or_default(&self) -> (r: bool)
        ensures
            r == self.spec_return_to_origin(),
    {
        match self.return_to_origin {
            Some(b) => b,
            None => true,
        }
    }
}

impl Default for HauntParams {
    /// Parameters with every field unset, so every accessor yields its default.
    fn default() -> (r: Self)
        ensures
            r.teleport_count is None,
            r.interval is None,
            r.return_to_origin is None,
            r.original_channel_id is None,
    {
        Self {
            teleport_count: None,
            interval: None,
            return_to_origin: None,
            original_channel_id: None,
        }
    }
}

/// Enforcement actions that can be taken as part of a warning.
#[derive(Debug, Clone)]
pub enum EnforcementAction {
    /// No action (placeholder)
    NoAction,
    /// Text channel timeout
    Mute(ActionParams),
    /// Server ban
    Ban(ActionParams),
    /// Server kick
    Kick(ActionParams),
    /// Voice mute
    VoiceMute(ActionParams),
    /// Voice deafen
    VoiceDeafen(ActionParams),
    /// Voice disconnect
    VoiceDisconnect(ActionParams),
    /// Voice channel haunting (repeated relocation)
    VoiceChannelHaunt(HauntParams),
}

impl Default for EnforcementAction {
    /// The placeholder action.
    fn default() -> (r: Self)
        ensures
            r is NoAction,
    {
        Self::NoAction
    }
}

impl EnforcementAction {
    /// The kind of this action.
    pub open spec fn spec_type(self) -> EnforcementActionType {
        match self {
            Self::NoAction => EnforcementActionType::NoAction,
            Self::Mute(_) => EnforcementActionType::Mute,
            Self::Ban(_) => EnforcementActionType::Ban,
            Self::Kick(_) => EnforcementActionType::Kick,
            Self::VoiceMute(_) => EnforcementActionType::VoiceMute,
            Self::VoiceDeafen(_) => EnforcementActionType::VoiceDeafen,
            Self::VoiceDisconnect(_) => EnforcementActionType::VoiceDisconnect,
            Self::VoiceChannelHaunt(_) => EnforcementActionType::VoiceChannelHaunt,
        }
    }

    /// The duration field carried by the action's parameters, with absent
    /// durations read as zero; zero for the kinds that carry none.
    pub open spec fn spec_duration(self) -> u32 {
        match self {
            Self::Mute(p) => p.spec_duration_or_default(),
            Self::Ban(p) => p.spec_duration_or_default(),
            Self::Kick(p) => p.spec_duration_or_default(),
            Self::VoiceMute(p) => p.spec_duration_or_default(),
            Self::VoiceDeafen(p) => p.spec_duration_or_default(),
            Self::VoiceDisconnect(p) => p.spec_duration_or_default(),
            Self::NoAction => 0u32,
            Self::VoiceChannelHaunt(_) => 0u32,
        }
    }

    /// Whether applying this action schedules a later reversal: true exactly
    /// for the four reversible kinds when they carry a positive duration.
    pub open spec fn spec_needs_reversal(self) -> bool {
        match self {
            Self::Mute(p) => p.spec_has_duration(),
            Self::Ban(p) => p.spec_has_duration(),
            Self::VoiceMute(p) => p.spec_has_duration(),
            Self::VoiceDeafen(p) => p.spec_has_duration(),
            Self::Kick(_) => false,
            Self::VoiceDisconnect(_) => false,
            Self::VoiceChannelHaunt(_) => false,
            Self::NoAction => false,
        }
    }

    /// Whether the action executes right away: true unless the scheduling
    /// field (the delay of a kick or voice disconnect, the interval of a
    /// haunt) is present and positive.
    pub open spec fn spec_is_immediate(self) -> bool {
        match self {
            Self::Kick(p) => !p.spec_has_duration(),
            Self::VoiceDisconnect(p) => !p.spec_has_duration(),
            Self::VoiceChannelHaunt(p) => match p.interval {
                Some(i) => i == 0,
                None => true,
            },
            Self::Mute(_) => true,
            Self::Ban(_) => true,
            Self::VoiceMute(_) => true,
            Self::VoiceDeafen(_) => true,
            Self::NoAction => true,
        }
    }

    /// Get the type of this action.
    pub fn get_type(&self) -> (r: EnforcementActionType)
        ensures
            r == self.spec_type(),
    {
        match self {
            Self::NoAction => EnforcementActionType::NoAction,
            Self::Mute(_) => EnforcementActionType::Mute,
            Self::Ban(_) => EnforcementActionType::Ban,
            Self::Kick(_) => EnforcementActionType::Kick,
            Self::VoiceMute(_) => EnforcementActionType::VoiceMute,
            Self::VoiceDeafen(_) => EnforcementActionType::VoiceDeafen,
            Self::VoiceDisconnect(_) => EnforcementActionType::VoiceDisconnect,
            Self::VoiceChannelHaunt(_) => EnforcementActionType::VoiceChannelHaunt,
        }
    }

    /// Check if this action needs reversal.
    pub fn needs_reversal(&self) -> (r: bool)
        ensures
            r == self.spec_needs_reversal(),
    {
        match self {
            Self::Mute(params) => params.has_duration(),
            Self::Ban(params) => params.has_duration(),
            Self::VoiceMute(params) => params.has_duration(),
            Self::VoiceDeafen(params) => params.has_duration(),
            Self::Kick(_) => false,
            Self::VoiceDisconnect(_) => false,
            Self::VoiceChannelHaunt(_) => false,
            Self::NoAction => false,
        }
    }

    /// Check if this action is immediate (should be executed right away).
    pub fn is_immediate(&self) -> (r: bool)
        ensures
            r == self.spec_is_immediate(),
    {
        match self {
            Self::Kick(params) => !params.has_duration(),
            Self::VoiceDisconnect(params) => !params.has_duration(),
            Self::VoiceChannelHaunt(params) => match params.interval {
                Some(i) => i == 0,
                None => true,
            },
            Self::Mute(_) => true,
            Self::Ban(_) => true,
            Self::VoiceMute(_) => true,
            Self::VoiceDeafen(_) => true,
            Self::NoAction => true,
        }
    }

    /// An exact copy.
    pub fn duplicate(&self) -> (r: Self)
        ensures
            r == *self,
    {
        match self {
            Self::NoAction => Self::NoAction,
            Self::Mute(p) => Self::Mute(p.duplicate()),
            Self::Ban(p) => Self::Ban(p.duplicate()),
            Self::Kick(p) => Self::Kick(p.duplicate()),
            Self::VoiceMute(p) => Self::VoiceMute(p.duplicate()),
            Self::VoiceDeafen(p) => Self::VoiceDeafen(p.duplicate()),
            Self::VoiceDisconnect(p) => Self::VoiceDisconnect(p.duplicate()),
            Self::VoiceChannelHaunt(p) => Self::VoiceChannelHaunt(*p),
        }
    }

    /// Create a new Mute action.
    pub fn mute(duration: Option<u32>) -> (r: Self)
        ensures
            r == (Self::Mute(ActionParams { duration, reason: None })),
    {
        Self::Mute(ActionParams::new(duration))
    }

    /// Create a new Ban action.
    pub fn ban(duration: Option<u32>) -> (r: Self)
        ensures
            r == (Self::Ban(ActionParams { duration, reason: None })),
    {
        Self::Ban(ActionParams::new(duration))
    }

    /// Create a new Kick action.
    pub fn kick(delay: Option<u32>) -> (r: Self)
        ensures
            r == (Self::Kick(ActionParams { duration: delay, reason: None })),
    {
        Self::Kick(ActionParams::new(delay))
    }

    /// Create a new VoiceMute action.
    pub fn voice_mute(duration: Option<u32>) -> (r: Self)
        ensures
            r == (Self::VoiceMute(ActionParams { duration, reason: None })),
    {
        Self::VoiceMute(ActionParams::new(duration))
    }

    /// Create a new VoiceDeafen action.
    pub fn voice_deafen(duration: Option<u32>) -> (r: Self)
        ensures
            r == (Self::VoiceDeafen(ActionParams { duration, reason: None })),
    {
        Self::VoiceDeafen(ActionParams::new(duration))
    }

    /// Create a new VoiceDisconnect action.
    pub fn voice_disconnect(delay: Option<u32>) -> (r: Self)
        ensures
            r == (Self::VoiceDisconnect(ActionParams { duration: delay, reason: None })),
    {
        Self::VoiceDisconnect(ActionParams::new(delay))
    }

    /// Create a new VoiceChannelHaunt action.
    pub fn voice_channel_haunt(
        teleport_count: Option<u32>,
        interval: Option<u32>,
        return_to_origin: Option<bool>,
        original_channel_id: Option<u64>,
    ) -> (r: Self)
        ensures
            r == (Self::VoiceChannelHaunt(HauntParams {
                teleport_count,
                interval,
                return_to_origin,
                original_channel_id,
            })),
    {
        Self::VoiceChannelHaunt(HauntParams::new(
            teleport_count,
            interval,
            return_to_origin,
            original_channel_id,
        ))
    }
}

/// Law: an action needs reversal exactly when its kind is one of the four
/// reversible kinds (mute, ban, voice mute, voice deafen) and it carries a
/// positive duration; every other action never needs reversal.
pub proof fn lemma_needs_reversal_characterization(a: EnforcementAction)
    ensures
        a.spec_needs_reversal() <==> ((a.spec_type() == EnforcementActionType::Mute
            || a.spec_type() == EnforcementActionType::Ban
            || a.spec_type() == EnforcementActionType::VoiceMute
            || a.spec_type() == EnforcementActionType::VoiceDeafen) && a.spec_duration() > 0),
{
}

} // verus!
