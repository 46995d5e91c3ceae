//! Effect dispatch: what to ask the platform for each action kind.
//!
//! The taxonomy is closed, so dispatch is one exhaustive match per
//! direction: `execute` says how an action is applied, `reverse` how it is
//! undone.  The multi-step voice channel haunt is driven by a `HauntPlan`
//! state machine: the caller performs each emitted step against the
//! platform and reports each relocation's outcome back.

use crate::action::{EnforcementAction, HauntParams};
use crate::error::{EnforcementError, EnforcementResult};
use crate::record::MAX_INSTANT;
use vstd::prelude::*;

verus! {

/// One request to the platform effector.  The engine never talks to the
/// platform itself: it hands these to the caller.
#[derive(Debug, Clone)]
pub enum EffectorCall {
    /// Nothing to do on the platform
    Nothing,
    /// Time the user's messaging out until the given instant
    Timeout { until: i64 },
    /// Ban the user, with the duration and audit reason to report
    Ban { duration: u32, reason: Option<String> },
    /// Lift a ban
    Unban,
    /// Kick the user, with the audit reason to report
    Kick { reason: Option<String> },
    /// Set the server-side voice mute flag
    SetVoiceMute { muted: bool },
    /// Set the server-side voice deafen flag
    SetVoiceDeafen { deafened: bool },
    /// Disconnect the user from voice
    Disconnect,
    /// Run the multi-step relocation sequence for these parameters
    BeginHaunt { params: HauntParams },
}

/// The platform request that applies an action at `now`: a mute becomes a
/// messaging timeout until `now` plus the duration, a ban or kick carries
/// its parameters, the voice kinds set their flag or disconnect, a haunt
/// starts the relocation sequence, and the placeholder action asks nothing.
pub open spec fn spec_apply_call(action: EnforcementAction, now: i64) -> EffectorCall {
    match action {
        EnforcementAction::NoAction => EffectorCall::Nothing,
        EnforcementAction::Mute(p) => EffectorCall::Timeout {
            until: (now + p.spec_duration_or_default()) as i64,
        },
        EnforcementAction::Ban(p) => EffectorCall::Ban {
            duration: p.spec_duration_or_default(),
            reason: p.reason,
        },
        EnforcementAction::Kick(p) => EffectorCall::Kick { reason: p.reason },
        EnforcementAction::VoiceMute(_) => EffectorCall::SetVoiceMute { muted: true },
        EnforcementAction::VoiceDeafen(_) => EffectorCall::SetVoiceDeafen { deafened: true },
        EnforcementAction::VoiceDisconnect(_) => EffectorCall::Disconnect,
        EnforcementAction::VoiceChannelHaunt(p) => EffectorCall::BeginHaunt { params: p },
    }
}

/// The platform request that undoes an action: a ban is lifted, the voice
/// flags are cleared, and everything else needs nothing (platform timeouts
/// expire on their own, and the one-shot kinds cannot be undone).
pub open spec fn spec_reverse_call(action: EnforcementAction) -> EffectorCall {
    match action {
        EnforcementAction::Ban(_) => EffectorCall::Unban,
        EnforcementAction::VoiceMute(_) => EffectorCall::SetVoiceMute { muted: false },
        EnforcementAction::VoiceDeafen(_) => EffectorCall::SetVoiceDeafen { deafened: false },
        EnforcementAction::NoAction => EffectorCall::Nothing,
        EnforcementAction::Mute(_) => EffectorCall::Nothing,
        EnforcementAction::Kick(_) => EffectorCall::Nothing,
        EnforcementAction::VoiceDisconnect(_) => EffectorCall::Nothing,
        EnforcementAction::VoiceChannelHaunt(_) => EffectorCall::Nothing,
    }
}

/// The per-kind effect dispatch.  The taxonomy is closed, so every kind has
/// its handler and dispatch cannot fail.
pub struct ActionHandlerRegistry {}

impl ActionHandlerRegistry {
    /// Create the registry, with the handler for every action kind.
    pub fn new() -> (r: Self) {
        Self {  }
    }

    /// The platform request that applies the action at `now`.
    pub fn execute(&self, action: &EnforcementAction, now: i64) -> (r: EffectorCall)
        requires
            now <= MAX_INSTANT,
        ensures
            r == spec_apply_call(*action, now),
    {
        match action {
            EnforcementAction::NoAction => EffectorCall::Nothing,
            EnforcementAction::Mute(p) => EffectorCall::Timeout {
                until: now + p.duration_or_default() as i64,
            },
            EnforcementAction::Ban(p) => EffectorCall::Ban {
                duration: p.duration_or_default(),
                reason: match &p.reason {
                    Some(s) => Some(s.clone()),
                    None => None,
                },
            },
            EnforcementAction::Kick(p) => EffectorCall::Kick {
                reason: match &p.reason {
                    Some(s) => Some(s.clone()),
                    None => None,
                },
            },
            EnforcementAction::VoiceMute(_) => EffectorCall::SetVoiceMute { muted: true },
            EnforcementAction::VoiceDeafen(_) => EffectorCall::SetVoiceDeafen { deafened: true },
            EnforcementAction::VoiceDisconnect(_) => EffectorCall::Disconnect,
            EnforcementAction::VoiceChannelHaunt(p) => EffectorCall::BeginHaunt { params: *p },
        }
    }

    /// The platform request that undoes the action.
    pub fn reverse(&self, action: &EnforcementAction) -> (r: EffectorCall)
        ensures
            r == spec_reverse_call(*action),
    {
        match action {
            EnforcementAction::Ban(_) => EffectorCall::Unban,
            EnforcementAction::VoiceMute(_) => EffectorCall::SetVoiceMute { muted: false },
            EnforcementAction::VoiceDeafen(_) => EffectorCall::SetVoiceDeafen { deafened: false },
            EnforcementAction::NoAction => EffectorCall::Nothing,
            EnforcementAction::Mute(_) => EffectorCall::Nothing,
            EnforcementAction::Kick(_) => EffectorCall::Nothing,
            EnforcementAction::VoiceDisconnect(_) => EffectorCall::Nothing,
            EnforcementAction::VoiceChannelHaunt(_) => EffectorCall::Nothing,
        }
    }
}

/// Relies on rand::Rng::gen_range over `0..len`: a random index below `len`.
/// The result depends on the thread's generator, so nothing more than the
/// bound holds of it.
#[verifier::external_body]
fn pick_index(len: usize) -> (r: usize)
    requires
        len > 0,
    ensures
        r < len,
{
    rand::Rng::gen_range(&mut rand::thread_rng(), 0..len)
}

/// Select a random voice channel; when `must_be_different` is asked and any
/// listed channel differs from the current one, the choice differs from the
/// current one.
pub fn select_random_voice_channel(
    voice_channels: &Vec<u64>,
    must_be_different: bool,
    current_channel: u64,
) -> (r: u64)
    requires
        voice_channels@.len() > 0,
    ensures
        voice_channels@.contains(r),
        (must_be_different && exists|i: int|
            0 <= i < voice_channels@.len() && voice_channels@[i] != current_channel) ==> r
            != current_channel,
{
    if !must_be_different || voice_channels.len() <= 1 {
        let idx = pick_index(voice_channels.len());
        let r = voice_channels[idx];
        proof {
            assert(voice_channels@.contains(r));
            if must_be_different && r == current_channel {
                assert(voice_channels@.len() == 1);
                assert forall|i: int|
                    0 <= i < voice_channels@.len() implies voice_channels@[i]
                        == current_channel by {
                    assert(i == 0);
                }
            }
        }
        r
    } else {
        let mut different: Vec<u64> = Vec::new();
        let n = voice_channels.len();
        let mut idx: usize = 0;
        while idx < n
            invariant
                idx <= n,
                n == voice_channels@.len(),
                forall|i: int|
                    0 <= i < different@.len() ==> (#[trigger] different@[i]) != current_channel
                        && voice_channels@.contains(different@[i]),
                (exists|j: int| 0 <= j < idx && voice_channels@[j] != current_channel)
                    <==> different@.len() > 0,
            decreases n - idx,
        {
            let ghost gi = idx as int;
            if voice_channels[idx] != current_channel {
                different.push(voice_channels[idx]);
                proof {
                    assert(voice_channels@[gi] != current_channel);
                }
            }
            idx = idx + 1;
        }
        if different.len() > 0 {
            let idx = pick_index(different.len());
            different[idx]
        } else {
            // every listed channel is the current one; any pick is as good
            proof {
                assert(forall|j: int|
                    0 <= j < voice_channels@.len() ==> voice_channels@[j] == current_channel);
            }
            let idx = pick_index(voice_channels.len());
            let r = voice_channels[idx];
            proof {
                assert(voice_channels@.contains(r));
            }
            r
        }
    }
}


/// One step of the relocation sequence, for the caller to perform.
#[derive(Debug, Clone, Copy, PartialEq, Eq, Structural)]
pub enum HauntStep {
    /// Move the user to this voice channel, then report the outcome with
    /// `report_teleport`
    Teleport { channel_id: u64 },
    /// Sleep this many seconds, then ask for the next step
    Wait { seconds: u32 },
    /// The sequence is over
    Done,
}

/// The state of one haunt sequence: the chosen relocation targets, the pacing
/// parameters, and how far the sequence has come.  The caller alternates
/// `next_step` and (after each relocation) `report_teleport`; a failed
/// relocation aborts the remaining steps, and only a fully successful run
/// returns the user to the origin channel when that was asked.
#[derive(Debug, Clone)]
pub struct HauntPlan {
    /// The channels to relocate the user to, in order, chosen up front
    pub targets: Vec<u64>,
    /// Seconds to wait between relocations
    pub interval: u32,
    /// Whether to return the user to the origin channel at the end
    pub return_to_origin: bool,
    /// The channel to return the user to
    pub origin_channel_id: u64,
    /// Index of the next relocation target
    pub next_target: usize,
    /// A relocation step was emitted and its outcome not yet reported
    pub awaiting_report: bool,
    /// A wait step separates the last relocation from the next one
    pub wait_pending: bool,
    /// The final return-to-origin relocation was emitted
    pub returning: bool,
    /// A relocation failed; the remaining steps are abandoned
    pub failed: bool,
    /// The sequence is over
    pub finished: bool,
}

impl HauntPlan {
    /// The sequence's bookkeeping stays within its targets: the next-target
    /// index never passes the end, and an unreported relocation is either one
    /// of the targets or the final return to the origin.
    pub open spec fn wf(self) -> bool {
        &&& self.next_target <= self.targets@.len()
        &&& (self.awaiting_report && !self.returning ==> self.next_target < self.targets@.len())
        &&& (self.awaiting_report ==> !self.wait_pending && !self.failed && !self.finished)
    }

    /// Start a haunt sequence.  The user must be in a voice channel and the
    /// guild must have one; the targets are then chosen at random from the
    /// guild's voice channels, as many as the parameters ask, the first
    /// differing from the user's current channel whenever any listed channel
    /// does.
    pub fn begin(
        params: &HauntParams,
        voice_channels: &Vec<u64>,
        current_channel: Option<u64>,
        guild_id: u64,
    ) -> (r: EnforcementResult<HauntPlan>)
        ensures
            current_channel is None ==> (r matches Err(e) && e is NotInVoiceChannel),
            current_channel is Some && voice_channels@.len() == 0 ==> (r matches Err(e) && e
                == EnforcementError::NoVoiceChannels(guild_id)),
            current_channel is Some && voice_channels@.len() > 0 ==> (r matches Ok(plan)
                && plan.targets@.len() == params.spec_teleport_count() && (forall|i: int|
                0 <= i < plan.targets@.len() ==> voice_channels@.contains(
                    #[trigger] plan.targets@[i],
                )) && ((plan.targets@.len() > 0 && exists|i: int|
                0 <= i < voice_channels@.len() && voice_channels@[i] != current_channel.unwrap())
                ==> plan.targets@[0] != current_channel.unwrap()) && plan.interval
                == params.spec_interval() && plan.return_to_origin
                == params.spec_return_to_origin() && plan.origin_channel_id == (
            match params.original_channel_id {
                Some(o) => o,
                None => current_channel.unwrap(),
            }) && plan.next_target == 0 && !plan.awaiting_report && !plan.wait_pending
                && !plan.returning && !plan.failed && !plan.finished && plan.wf()),
    {
        let cur = match current_channel {
            None => {
                return Err(EnforcementError::NotInVoiceChannel);
            },
            Some(c) => c,
        };
        if voice_channels.len() == 0 {
            return Err(EnforcementError::NoVoiceChannels(guild_id));
        }
        let count = params.teleport_count_or_default();
        let mut targets: Vec<u64> = Vec::new();
        let mut i: u32 = 0;
        while i < count
            invariant
                i <= count,
                voice_channels@.len() > 0,
                targets@.len() == i,
                forall|j: int|
                    0 <= j < targets@.len() ==> voice_channels@.contains(#[trigger] targets@[j]),
                (targets@.len() > 0 && exists|j: int|
                    0 <= j < voice_channels@.len() && voice_channels@[j] != cur) ==> targets@[0]
                    != cur,
            decreases count - i,
        {
            let channel = select_random_voice_channel(voice_channels, i == 0, cur);
            targets.push(channel);
            i = i + 1;
        }
        Ok(
            HauntPlan {
                targets,
                interval: params.interval_or_default(),
                return_to_origin: params.return_to_origin_or_default(),
                origin_channel_id: match params.original_channel_id {
                    Some(o) => o,
                    None => cur,
                },
                next_target: 0,
                awaiting_report: false,
                wait_pending: false,
                returning: false,
                failed: false,
                finished: false,
            },
        )
    }

    /// The next step of the sequence: nothing after a failure or the end, the
    /// separating wait when one is pending, otherwise the next relocation --
    /// first the chosen targets, then, when asked, the return to the origin
    /// channel.
    pub fn next_step(&mut self) -> (s: HauntStep)
        requires
            !old(self).awaiting_report,
            old(self).wf(),
        ensures
            final(self).wf(),
            old(self).failed || old(self).finished ==> s is Done && *final(self) == (HauntPlan {
                finished: true,
                ..*old(self)
            }),
            !(old(self).failed || old(self).finished) && old(self).wait_pending ==> s == (
            HauntStep::Wait { seconds: old(self).interval }) && *final(self) == (HauntPlan {
                wait_pending: false,
                ..*old(self)
            }),
            !(old(self).failed || old(self).finished) && !old(self).wait_pending && old(
                self,
            ).next_target < old(self).targets@.len() ==> s == (HauntStep::Teleport {
                channel_id: old(self).targets@[old(self).next_target as int],
            }) && *final(self) == (HauntPlan { awaiting_report: true, ..*old(self) }),
            !(old(self).failed || old(self).finished) && !old(self).wait_pending && old(
                self,
            ).next_target == old(self).targets@.len() && old(self).return_to_origin && !old(
                self,
            ).returning ==> s == (HauntStep::Teleport { channel_id: old(self).origin_channel_id })
                && *final(self) == (HauntPlan { returning: true, awaiting_report: true, ..*old(self) }),
            !(old(self).failed || old(self).finished) && !old(self).wait_pending && old(
                self,
            ).next_target == old(self).targets@.len() && !(old(self).return_to_origin && !old(
                self,
            ).returning) ==> s is Done && *final(self) == (HauntPlan {
                finished: true,
                ..*old(self)
            }),
    {
        if self.failed || self.finished {
            self.finished = true;
            HauntStep::Done
        } else if self.wait_pending {
            self.wait_pending = false;
            HauntStep::Wait { seconds: self.interval }
        } else if self.next_target < self.targets.len() {
            self.awaiting_report = true;
            HauntStep::Teleport { channel_id: self.targets[self.next_target] }
        } else if self.return_to_origin && !self.returning {
            self.returning = true;
            self.awaiting_report = true;
            HauntStep::Teleport { channel_id: self.origin_channel_id }
        } else {
            self.finished = true;
            HauntStep::Done
        }
    }

    /// Report whether the relocation just asked for succeeded.  A failure
    /// abandons the remaining steps; the outcome of the final return to the
    /// origin channel is not acted on, since the sequence is over either way.
    pub fn report_teleport(&mut self, success: bool)
        requires
            old(self).awaiting_report,
            old(self).wf(),
        ensures
            final(self).wf(),
            old(self).returning ==> *final(self) == (HauntPlan {
                awaiting_report: false,
                finished: true,
                ..*old(self)
            }),
            !old(self).returning ==> *final(self) == (HauntPlan {
                awaiting_report: false,
                next_target: (old(self).next_target + 1) as usize,
                failed: !success,
                wait_pending: success && old(self).next_target + 1 < old(self).targets@.len(),
                ..*old(self)
            }),
    {
        if self.returning {
            self.awaiting_report = false;
            self.finished = true;
        } else {
            let cap = self.targets.len();
            proof {
                assert(self.next_target < cap);
            }
            self.awaiting_report = false;
            self.next_target = self.next_target + 1;
            if !success {
                self.failed = true;
            } else if self.next_target < self.targets.len() {
                self.wait_pending = true;
            }
        }
    }
}

} // verus!
