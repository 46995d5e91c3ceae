//! Enforcement record: one scheduled moderation action and its lifecycle
//! state machine.
//!
//! Legal paths: `Pending -> Active -> Reversed`, `Pending -> Completed`,
//! and `{Pending, Active} -> Cancelled`.  Every other attempted transition
//! fails with `InvalidStateTransition` and leaves the record unchanged.

use crate::action::EnforcementAction;
use crate::error::{EnforcementError, EnforcementResult};
use vstd::prelude::*;

verus! {

/// Latest instant (seconds since the Unix epoch) from which the engine can
/// schedule a delay without i64 overflow: every duration fits in 32 bits.
pub const MAX_INSTANT: i64 = i64::MAX - 0xffff_ffff;

/// Largest Unix timestamp the wall clock can report: the clock library
/// refuses dates past its maximum representable year, which is far below
/// this bound.
pub const MAX_CLOCK: i64 = 8_211_000_000_000;

/// Relies on chrono::Utc::now for the current Unix timestamp in seconds.
/// chrono aborts rather than return a time before the epoch or past its
/// maximum representable date (around year 262142, below `MAX_CLOCK`), so
/// every returned value lies in that window.
#[verifier::external_body]
pub(crate) fn now_unix() -> (r: i64)
    ensures
        0 <= r <= MAX_CLOCK,
{
    chrono::Utc::now().timestamp()
}

/// Relies on uuid::Uuid::new_v4 rendered in its default hyphenated form,
/// which is always 36 characters.
#[verifier::external_body]
pub(crate) fn fresh_enforcement_id() -> (r: String)
    ensures
        r@.len() == 36,
{
    uuid::Uuid::new_v4().to_string()
}

/// Enforcement action lifecycle states.
#[derive(Debug, Clone, Copy, PartialEq, Eq, Hash, Structural)]
pub enum EnforcementState {
    /// Not yet executed
    Pending,
    /// Applied but waiting for duration to expire
    Active,
    /// Action has been reversed (for timed actions)
    Reversed,
    /// Fully completed with no further action needed
    Completed,
    /// Manually cancelled by moderator
    Cancelled,
}

impl Default for EnforcementState {
    /// A record starts out pending.
    fn default() -> (r: Self)
        ensures
            r is Pending,
    {
        Self::Pending
    }
}

/// Record of an enforcement action.
#[derive(Debug, Clone)]
pub struct EnforcementRecord {
    /// Unique ID of this enforcement
    pub id: String,
    /// ID of the warning that triggered this enforcement
    pub warning_id: String,
    /// ID of the user who is being enforced
    pub user_id: u64,
    /// ID of the guild where the enforcement is happening
    pub guild_id: u64,
    /// The action to be taken
    pub action: EnforcementAction,
    /// When to execute the action (seconds since the Unix epoch)
    pub execute_at: i64,
    /// When to automatically reverse the action (if applicable)
    pub reverse_at: Option<i64>,
    /// Current state of the enforcement
    pub state: EnforcementState,
    /// When the record was created
    pub created_at: i64,
    /// When the action was executed (if it has been)
    pub executed_at: Option<i64>,
    /// When the action was reversed (if it has been)
    pub reversed_at: Option<i64>,
    /// Whether the action has been executed (legacy field)
    pub executed: bool,
}

/// The state changes a transition operation is allowed to make.
pub open spec fn legal_step(pre: EnforcementState, post: EnforcementState) -> bool {
    ||| (pre is Pending && post is Active)
    ||| (pre is Pending && post is Completed)
    ||| (pre is Active && post is Reversed)
    ||| (pre is Pending && post is Cancelled)
    ||| (pre is Active && post is Cancelled)
}

/// When an action executes, counted from the moment of scheduling: a kick or
/// voice disconnect is delayed by its duration, a haunt by its interval, and
/// every other action executes immediately.
pub open spec fn spec_execute_time(action: EnforcementAction, now: i64) -> int {
    match action {
        EnforcementAction::Kick(p) => if p.spec_has_duration() {
            now + p.spec_duration_or_default()
        } else {
            now as int
        },
        EnforcementAction::VoiceDisconnect(p) => if p.spec_has_duration() {
            now + p.spec_duration_or_default()
        } else {
            now as int
        },
        EnforcementAction::VoiceChannelHaunt(p) => match p.interval {
            Some(i) => if i > 0 {
                now + i
            } else {
                now as int
            },
            None => now as int,
        },
        _ => now as int,
    }
}

impl EnforcementRecord {
    /// Record-level invariants of the lifecycle:
    /// - `reverse_at` is unset while pending, and set exactly when the record
    ///   is past execution and its action needs reversal;
    /// - an active or completed or reversed record carries its execution
    ///   stamp, a reversed record also its reversal stamp;
    /// - the legacy `executed` flag mirrors the execution stamp.
    pub open spec fn wf(self) -> bool {
        &&& (self.state is Pending ==> self.reverse_at is None && self.executed_at is None)
        &&& (self.state is Active ==> self.executed_at is Some && self.reverse_at is Some
            && self.action.spec_needs_reversal())
        &&& (self.state is Completed ==> self.executed_at is Some && self.reverse_at is None
            && !self.action.spec_needs_reversal())
        &&& (self.state is Reversed ==> self.executed_at is Some && self.reverse_at is Some
            && self.reversed_at is Some && self.action.spec_needs_reversal())
        &&& (self.executed <==> self.executed_at is Some)
    }

    /// The fields of a freshly created record.
    pub open spec fn spec_fresh(
        self,
        warning_id: String,
        user_id: u64,
        guild_id: u64,
        action: EnforcementAction,
        now: i64,
    ) -> bool {
        &&& self.warning_id == warning_id
        &&& self.user_id == user_id
        &&& self.guild_id == guild_id
        &&& self.action == action
        &&& self.execute_at == spec_execute_time(action, now)
        &&& self.reverse_at is None
        &&& self.state is Pending
        &&& self.created_at == now
        &&& self.executed_at is None
        &&& self.reversed_at is None
        &&& self.executed == false
        &&& self.id@.len() == 36
    }

    /// The record after a successful execution at `now`.
    pub open spec fn spec_executed(self, now: i64) -> EnforcementRecord {
        EnforcementRecord {
            reverse_at: if self.action.spec_needs_reversal() {
                Some((now + self.action.spec_duration()) as i64)
            } else {
                None
            },
            state: if self.action.spec_needs_reversal() {
                EnforcementState::Active
            } else {
                EnforcementState::Completed
            },
            executed_at: Some(now),
            executed: true,
            ..self
        }
    }

    /// The record after a successful reversal at `now`.
    pub open spec fn spec_reversed(self, now: i64) -> EnforcementRecord {
        EnforcementRecord { state: EnforcementState::Reversed, reversed_at: Some(now), ..self }
    }

    /// The record after a successful cancellation.
    pub open spec fn spec_cancelled(self) -> EnforcementRecord {
        EnforcementRecord { state: EnforcementState::Cancelled, ..self }
    }

    /// A pending record whose scheduled execution time has passed is due.
    pub open spec fn spec_due_for_execution(self, now: i64) -> bool {
        self.state is Pending && self.execute_at <= now
    }

    /// An active record whose scheduled reversal time has passed is due.
    pub open spec fn spec_due_for_reversal(self, now: i64) -> bool {
        self.state is Active && match self.reverse_at {
            Some(t) => t <= now,
            None => false,
        }
    }

    /// Create a new enforcement record scheduled from the instant `now`,
    /// with a fresh unique ID.
    pub fn new_at(
        warning_id: String,
        user_id: u64,
        guild_id: u64,
        action: EnforcementAction,
        now: i64,
    ) -> (r: Self)
        requires
            now <= MAX_INSTANT,
        ensures
            r.spec_fresh(warning_id, user_id, guild_id, action, now),
            r.wf(),
    {
        let execute_at = Self::calculate_execute_time(&action, now);
        Self {
            id: fresh_enforcement_id(),
            warning_id,
            user_id,
            guild_id,
            action,
            execute_at,
            reverse_at: None,
            state: EnforcementState::Pending,
            created_at: now,
            executed_at: None,
            reversed_at: None,
            executed: false,
        }
    }

    /// Create a new enforcement record scheduled from the current wall-clock
    /// time.
    pub fn new(
        warning_id: String,
        user_id: u64,
        guild_id: u64,
        action: EnforcementAction,
    ) -> (r: Self)
        ensures
            r.spec_fresh(warning_id, user_id, guild_id, action, r.created_at),
            0 <= r.created_at <= MAX_CLOCK,
            r.wf(),
    {
        let now = now_unix();
        Self::new_at(warning_id, user_id, guild_id, action, now)
    }

    /// Calculate the execution time for an action scheduled at `now`.
    pub fn calculate_execute_time(action: &EnforcementAction, now: i64) -> (r: i64)
        requires
            now <= MAX_INSTANT,
        ensures
            r == spec_execute_time(*action, now),
    {
        match action {
            EnforcementAction::Kick(params) => {
                if params.has_duration() {
                    now + params.duration_or_default() as i64
                } else {
                    now
                }
            },
            EnforcementAction::VoiceDisconnect(params) => {
                if params.has_duration() {
                    now + params.duration_or_default() as i64
                } else {
                    now
                }
            },
            EnforcementAction::VoiceChannelHaunt(params) => {
                match params.interval {
                    Some(i) => if i > 0 {
                        now + i as i64
                    } else {
                        now
                    },
                    None => now,
                }
            },
            _ => now,
        }
    }

    /// Calculate when this record's action should be reversed if it were
    /// executed at `now`: the duration past `now` for actions that need
    /// reversal, nothing for the rest.
    pub fn calculate_reversal_time(&self, now: i64) -> (r: Option<i64>)
        requires
            now <= MAX_INSTANT,
        ensures
            self.action.spec_needs_reversal() ==> r == Some(
                (now + self.action.spec_duration()) as i64,
            ),
            !self.action.spec_needs_reversal() ==> r is None,
    {
        if self.action.needs_reversal() {
            let duration = match &self.action {
                EnforcementAction::Mute(p) => p.duration_or_default(),
                EnforcementAction::Ban(p) => p.duration_or_default(),
                EnforcementAction::VoiceMute(p) => p.duration_or_default(),
                EnforcementAction::VoiceDeafen(p) => p.duration_or_default(),
                _ => 0,
            };
            Some(now + duration as i64)
        } else {
            None
        }
    }

    /// Execute this enforcement at `now`, transitioning to Active when the
    /// action needs a later reversal and to Completed when it does not;
    /// legal only from Pending, and otherwise an error with no change.
    pub fn execute(&mut self, now: i64) -> (r: EnforcementResult<()>)
        requires
            now <= MAX_INSTANT,
        ensures
            old(self).state is Pending ==> r is Ok && *final(self) == old(self).spec_executed(now),
            !(old(self).state is Pending) ==> r == Err::<(), EnforcementError>(
                EnforcementError::InvalidStateTransition,
            ) && *final(self) == *old(self),
    {
        if self.state != EnforcementState::Pending {
            return Err(EnforcementError::InvalidStateTransition);
        }
        self.reverse_at = self.calculate_reversal_time(now);
        self.state = if self.reverse_at.is_some() {
            EnforcementState::Active
        } else {
            EnforcementState::Completed
        };
        self.executed_at = Some(now);
        self.executed = true;
        Ok(())
    }

    /// Reverse this enforcement at `now`; legal only from Active, and
    /// otherwise an error with no change.
    pub fn reverse(&mut self, now: i64) -> (r: EnforcementResult<()>)
        ensures
            old(self).state is Active ==> r is Ok && *final(self) == old(self).spec_reversed(now),
            !(old(self).state is Active) ==> r == Err::<(), EnforcementError>(
                EnforcementError::InvalidStateTransition,
            ) && *final(self) == *old(self),
    {
        if self.state != EnforcementState::Active {
            return Err(EnforcementError::InvalidStateTransition);
        }
        self.state = EnforcementState::Reversed;
        self.reversed_at = Some(now);
        Ok(())
    }

    /// Cancel this enforcement; legal from Pending or Active, and otherwise
    /// an error with no change.  Cancellation only changes the record:
    /// undoing an already-applied effect is the service's responsibility.
    pub fn cancel(&mut self) -> (r: EnforcementResult<()>)
        ensures
            (old(self).state is Pending || old(self).state is Active) ==> r is Ok && *final(self)
                == old(self).spec_cancelled(),
            !(old(self).state is Pending || old(self).state is Active) ==> r == Err::<
                (),
                EnforcementError,
            >(EnforcementError::InvalidStateTransition) && *final(self) == *old(self),
    {
        if self.state != EnforcementState::Pending && self.state != EnforcementState::Active {
            return Err(EnforcementError::InvalidStateTransition);
        }
        self.state = EnforcementState::Cancelled;
        Ok(())
    }

    /// Check if this enforcement is due for execution at `now`.
    pub fn is_due_for_execution(&self, now: i64) -> (r: bool)
        ensures
            r == self.spec_due_for_execution(now),
    {
        self.state == EnforcementState::Pending && self.execute_at <= now
    }

    /// Check if this enforcement is due for reversal at `now`.
    pub fn is_due_for_reversal(&self, now: i64) -> (r: bool)
        ensures
            r == self.spec_due_for_reversal(now),
    {
        self.state == EnforcementState::Active && match self.reverse_at {
            Some(t) => t <= now,
            None => false,
        }
    }

    /// An exact copy, as the store's snapshot reads hand out.
    pub fn duplicate(&self) -> (r: Self)
        ensures
            r == *self,
    {
        Self {
            id: self.id.clone(),
            warning_id: self.warning_id.clone(),
            user_id: self.user_id,
            guild_id: self.guild_id,
            action: self.action.duplicate(),
            execute_at: self.execute_at,
            reverse_at: self.reverse_at,
            state: self.state,
            created_at: self.created_at,
            executed_at: self.executed_at,
            reversed_at: self.reversed_at,
            executed: self.executed,
        }
    }
}

/// Law: every state change a successful transition operation makes follows a
/// legal lifecycle path, and the well-formedness invariants are preserved;
/// the operations' own contracts add that on any other source state they
/// return `InvalidStateTransition` and change nothing.
pub proof fn lemma_transitions_follow_legal_paths(r: EnforcementRecord, now: i64)
    requires
        r.wf(),
    ensures
        r.state is Pending ==> legal_step(r.state, r.spec_executed(now).state) && r.spec_executed(
            now,
        ).wf(),
        r.state is Active ==> legal_step(r.state, r.spec_reversed(now).state) && r.spec_reversed(
            now,
        ).wf(),
        (r.state is Pending || r.state is Active) ==> legal_step(
            r.state,
            r.spec_cancelled().state,
        ) && r.spec_cancelled().wf(),
{
}

/// Law: executing a record whose action needs no reversal always lands in
/// `Completed` with no reversal scheduled; executing one whose action needs
/// reversal always lands in `Active` with the reversal scheduled at the
/// execution time plus the action's duration.
pub proof fn lemma_execute_outcome(r: EnforcementRecord, now: i64)
    requires
        now <= MAX_INSTANT,
    ensures
        !r.action.spec_needs_reversal() ==> r.spec_executed(now).state is Completed
            && r.spec_executed(now).reverse_at is None,
        r.action.spec_needs_reversal() ==> r.spec_executed(now).state is Active && r.spec_executed(
            now,
        ).reverse_at == Some((now + r.action.spec_duration()) as i64) && now
            + r.action.spec_duration() <= i64::MAX,
{
}

/// Law: execution succeeds at most once.  A successful execution leaves a
/// record that is no longer pending, so a second `execute` on it is refused
/// with `InvalidStateTransition` by the transition contract.
pub proof fn lemma_execute_at_most_once(r: EnforcementRecord, now: i64)
    requires
        r.state is Pending,
    ensures
        !(r.spec_executed(now).state is Pending),
{
}

/// Law: a pending record whose action needs reversal, executed at one time
/// and reversed at another, ends `Reversed` with both the execution and the
/// reversal stamped.
pub proof fn lemma_execute_then_reverse(r: EnforcementRecord, t_exec: i64, t_rev: i64)
    requires
        r.state is Pending,
        r.action.spec_needs_reversal(),
    ensures
        r.spec_executed(t_exec).state is Active,
        r.spec_executed(t_exec).spec_reversed(t_rev).state is Reversed,
        r.spec_executed(t_exec).spec_reversed(t_rev).executed_at == Some(t_exec),
        r.spec_executed(t_exec).spec_reversed(t_rev).reversed_at == Some(t_rev),
{
}

} // verus!
