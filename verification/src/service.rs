//! Enforcement service: orchestrates the store and the effect dispatch.
//!
//! The service creates records, drives due records through execution and
//! reversal, and handles moderator-initiated cancellation.  It performs no
//! platform I/O itself: each operation transitions the store and returns the
//! platform requests for the caller to perform.  Per the engine's failure
//! policy, a platform failure never rolls a transition back, so no outcome
//! flows back in; cancellation is the one exception, where the caller
//! reverses the applied effect between planning and committing.

use crate::action::EnforcementAction;
use crate::error::{EnforcementError, EnforcementResult};
use crate::handler::{spec_apply_call, spec_reverse_call, ActionHandlerRegistry, EffectorCall};
use crate::record::{EnforcementRecord, EnforcementState, MAX_CLOCK, MAX_INSTANT};
use crate::store::{spec_cancellable_for, spec_for_user, EnforcementStore};
use vstd::prelude::*;

verus! {

/// Request type for the enforcement scheduling loop.  The loop itself is the
/// caller's: it alternates between these requests and a periodic tick, and
/// both paths converge on the service's check operations.
#[derive(Debug, Clone)]
pub enum EnforcementCheckRequest {
    /// Check for all pending enforcements regardless of timing
    CheckAll,
    /// Check for a specific user's enforcements in a specific guild
    CheckUser { user_id: u64, guild_id: u64 },
    /// Check for a specific enforcement by ID
    CheckEnforcement { enforcement_id: String },
    /// Shutdown the enforcement task
    Shutdown,
}

/// Service for enforcement operations.
pub struct EnforcementService {
    /// Store for enforcement records
    pub store: EnforcementStore,
    /// The per-kind effect dispatch
    pub handlers: ActionHandlerRegistry,
}

impl View for EnforcementService {
    type V = Map<Seq<char>, EnforcementRecord>;

    open spec fn view(&self) -> Map<Seq<char>, EnforcementRecord> {
        self.store@
    }
}

/// A record after one sweep pass at `now`: a due pending record is executed,
/// a due active record is reversed, anything else is untouched.
pub open spec fn spec_swept(rec: EnforcementRecord, now: i64) -> EnforcementRecord {
    if rec.spec_due_for_execution(now) {
        rec.spec_executed(now)
    } else if rec.spec_due_for_reversal(now) {
        rec.spec_reversed(now)
    } else {
        rec
    }
}

impl EnforcementService {
    /// The service is as well-formed as its store.
    pub open spec fn wf(self) -> bool {
        self.store.wf()
    }

    /// Create a new enforcement service with an empty store.
    pub fn new() -> (r: Self)
        ensures
            r@ == crate::store::empty_contents(),
            r.wf(),
    {
        Self { store: EnforcementStore::new(), handlers: ActionHandlerRegistry::new() }
    }

    /// Create a new enforcement record scheduled from the instant `now` and
    /// add it to the store.
    pub fn create_enforcement_at(
        &mut self,
        warning_id: String,
        user_id: u64,
        guild_id: u64,
        action: EnforcementAction,
        now: i64,
    ) -> (r: EnforcementRecord)
        requires
            old(self).wf(),
            now <= MAX_INSTANT,
        ensures
            final(self).wf(),
            r.spec_fresh(warning_id, user_id, guild_id, action, now),
            r.wf(),
            final(self)@ == old(self)@.insert(r.id@, r),
    {
        let record = EnforcementRecord::new_at(warning_id, user_id, guild_id, action, now);
        let snapshot = record.duplicate();
        self.store.add(record);
        snapshot
    }

    /// Create a new enforcement record scheduled from the current wall-clock
    /// time and add it to the store.
    pub fn create_enforcement(
        &mut self,
        warning_id: String,
        user_id: u64,
        guild_id: u64,
        action: EnforcementAction,
    ) -> (r: EnforcementRecord)
        requires
            old(self).wf(),
        ensures
            final(self).wf(),
            r.spec_fresh(warning_id, user_id, guild_id, action, r.created_at),
            0 <= r.created_at <= MAX_CLOCK,
            r.wf(),
            final(self)@ == old(self)@.insert(r.id@, r),
    {
        let record = EnforcementRecord::new(warning_id, user_id, guild_id, action);
        let snapshot = record.duplicate();
        self.store.add(record);
        snapshot
    }

    /// Process one enforcement at `now`: a due pending record is executed and
    /// its apply request returned, a due active record is reversed and its
    /// undo request returned, anything else is left alone.  The store's
    /// transition happens before the caller performs the request: a platform
    /// failure is the caller's to log and never rolls the record back.
    pub fn process_enforcement(&mut self, id: &String, now: i64) -> (r: EnforcementResult<
        Option<EffectorCall>,
    >)
        requires
            old(self).wf(),
            now <= MAX_INSTANT,
        ensures
            final(self).wf(),
            final(self)@.dom() == old(self)@.dom(),
            !old(self)@.dom().contains(id@) ==> (r matches Err(e) && e matches
                EnforcementError::NotFound(s) && s@ == id@) && final(self)@ == old(self)@,
            old(self)@.dom().contains(id@) ==> final(self)@ == old(self)@.insert(
                id@,
                spec_swept(old(self)@[id@], now),
            ),
            old(self)@.dom().contains(id@) && old(self)@[id@].spec_due_for_execution(now) ==> r
                == Ok::<Option<EffectorCall>, EnforcementError>(
                Some(spec_apply_call(old(self)@[id@].action, now)),
            ),
            old(self)@.dom().contains(id@) && old(self)@[id@].spec_due_for_reversal(now) ==> r
                == Ok::<Option<EffectorCall>, EnforcementError>(
                Some(spec_reverse_call(old(self)@[id@].action)),
            ),
            old(self)@.dom().contains(id@) && !old(self)@[id@].spec_due_for_execution(now) && !old(
                self,
            )@[id@].spec_due_for_reversal(now) ==> r == Ok::<Option<EffectorCall>,
                EnforcementError,
            >(None) && final(self)@ == old(self)@,
    {
        let rec = match self.store.get(id) {
            None => {
                return Err(EnforcementError::NotFound(id.clone()));
            },
            Some(rec) => rec,
        };
        if rec.is_due_for_execution(now) {
            let updated = match self.store.execute_enforcement(id, now) {
                Ok(updated) => updated,
                Err(e) => {
                    proof {
                        assert(false);
                    }
                    return Err(e);
                },
            };
            proof {
                assert(final(self)@.dom() =~= old(self)@.dom());
            }
            Ok(Some(self.handlers.execute(&updated.action, now)))
        } else if rec.is_due_for_reversal(now) {
            let updated = match self.store.reverse_enforcement(id, now) {
                Ok(updated) => updated,
                Err(e) => {
                    proof {
                        assert(false);
                    }
                    return Err(e);
                },
            };
            proof {
                assert(final(self)@.dom() =~= old(self)@.dom());
            }
            Ok(Some(self.handlers.reverse(&updated.action)))
        } else {
            proof {
                assert(old(self)@.insert(id@, old(self)@[id@]) =~= old(self)@);
            }
            Ok(None)
        }
    }

    /// What a cancellation must undo first: the undo request for an active
    /// record, nothing for a pending one.  The caller performs the returned
    /// request and then commits with `cancel_enforcement`: an explicit undo
    /// request reverses the real-world effect before the record moves on.
    pub fn cancel_enforcement_plan(&self, id: &String) -> (r: EnforcementResult<
        Option<EffectorCall>,
    >)
        requires
            self.wf(),
        ensures
            !self@.dom().contains(id@) ==> (r matches Err(e) && e matches
                EnforcementError::NotFound(s) && s@ == id@),
            self@.dom().contains(id@) && self@[id@].state is Active ==> r == Ok::<
                Option<EffectorCall>,
                EnforcementError,
            >(Some(spec_reverse_call(self@[id@].action))),
            self@.dom().contains(id@) && self@[id@].state is Pending ==> r == Ok::<
                Option<EffectorCall>,
                EnforcementError,
            >(None),
            self@.dom().contains(id@) && !(self@[id@].state is Active || self@[id@].state
                is Pending) ==> (r matches Err(e) && e is InvalidStateTransition),
    {
        match self.store.get(id) {
            None => Err(EnforcementError::NotFound(id.clone())),
            Some(rec) => {
                if rec.state == EnforcementState::Active {
                    Ok(Some(self.handlers.reverse(&rec.action)))
                } else if rec.state == EnforcementState::Pending {
                    Ok(None)
                } else {
                    Err(EnforcementError::InvalidStateTransition)
                }
            },
        }
    }

    /// Commit a cancellation: transition the record to Cancelled in the
    /// store.  The caller performs the plan's undo request first.
    pub fn cancel_enforcement(&mut self, id: &String) -> (r: EnforcementResult<EnforcementRecord>)
        requires
            old(self).wf(),
        ensures
            final(self).wf(),
            !old(self)@.dom().contains(id@) ==> (r matches Err(e) && e matches
                EnforcementError::NotFound(s) && s@ == id@) && final(self)@ == old(self)@,
            old(self)@.dom().contains(id@) && !(old(self)@[id@].state is Pending
                || old(self)@[id@].state is Active) ==> (r matches Err(e) && e
                is InvalidStateTransition) && final(self)@ == old(self)@,
            old(self)@.dom().contains(id@) && (old(self)@[id@].state is Pending
                || old(self)@[id@].state is Active) ==> (r matches Ok(rec) && rec == old(
                self,
            )@[id@].spec_cancelled()) && final(self)@ == old(self)@.insert(
                id@,
                old(self)@[id@].spec_cancelled(),
            ),
    {
        self.store.cancel_enforcement(id)
    }

    /// One sweep at `now`: execute every due pending record and reverse every
    /// due active record, in no particular order, and return each processed
    /// record's ID with the platform request it produced.
    pub fn check_all_enforcements(&mut self, now: i64) -> (r: Vec<(String, EffectorCall)>)
        requires
            old(self).wf(),
            now <= MAX_INSTANT,
        ensures
            final(self).wf(),
            final(self)@.dom() == old(self)@.dom(),
            forall|k: Seq<char>|
                #[trigger] old(self)@.dom().contains(k) ==> final(self)@[k] == spec_swept(
                    old(self)@[k],
                    now,
                ),
            forall|m: int|
                #![trigger r@[m]]
                0 <= m < r@.len() ==> old(self)@.dom().contains(r@[m].0@) && (old(
                    self,
                )@[r@[m].0@].spec_due_for_execution(now) || old(self)@[r@[m].0@].spec_due_for_reversal(
                    now,
                )) && r@[m].1 == (if old(self)@[r@[m].0@].spec_due_for_execution(now) {
                    spec_apply_call(old(self)@[r@[m].0@].action, now)
                } else {
                    spec_reverse_call(old(self)@[r@[m].0@].action)
                }),
            forall|m1: int, m2: int|
                #![trigger r@[m1], r@[m2]]
                0 <= m1 < m2 < r@.len() ==> r@[m1].0@ != r@[m2].0@,
            forall|k: Seq<char>|
                #[trigger] old(self)@.dom().contains(k) && (old(self)@[k].spec_due_for_execution(
                    now,
                ) || old(self)@[k].spec_due_for_reversal(now)) ==> exists|m: int|
                    0 <= m < r@.len() && (#[trigger] r@[m]).0@ == k,
    {
        let ids_p = self.store.get_pending_for_execution(now);
        let ids_a = self.store.get_active_for_reversal(now);
        let ghost orig = self@;
        let mut calls: Vec<(String, EffectorCall)> = Vec::new();
        let np = ids_p.len();
        let na = ids_a.len();
        let mut i: usize = 0;
        while i < np
            invariant
                i <= np,
                np == ids_p@.len(),
                now <= MAX_INSTANT,
                self.wf(),
                self@.dom() == orig.dom(),
                forall|j: int|
                    0 <= j < np ==> orig.dom().contains((#[trigger] ids_p@[j])@)
                        && orig[ids_p@[j]@].spec_due_for_execution(now),
                forall|j1: int, j2: int|
                    #![trigger ids_p@[j1], ids_p@[j2]]
                    0 <= j1 < j2 < np ==> ids_p@[j1]@ != ids_p@[j2]@,
                forall|j: int|
                    0 <= j < i ==> self@[(#[trigger] ids_p@[j])@] == orig[ids_p@[j]@].spec_executed(
                        now,
                    ),
                forall|j: int| i <= j < np ==> self@[(#[trigger] ids_p@[j])@] == orig[ids_p@[j]@],
                forall|k: Seq<char>|
                    #[trigger] orig.dom().contains(k) ==> self@[k] == orig[k] || (
                    orig[k].spec_due_for_execution(now) && self@[k] == orig[k].spec_executed(now)),
                calls@.len() == i,
                forall|j: int|
                    0 <= j < i ==> (#[trigger] calls@[j]).0@ == ids_p@[j]@ && calls@[j].1
                        == spec_apply_call(orig[ids_p@[j]@].action, now),
            decreases np - i,
        {
            let ghost gi = i as int;
            let id = &ids_p[i];
            let ghost pre = self@;
            proof {
                assert(pre[id@] == orig[id@]);
                assert(pre.dom().contains(id@));
            }
            let call = match self.process_enforcement(id, now) {
                Ok(Some(c)) => c,
                Ok(None) => {
                    proof {
                        assert(false);
                    }
                    EffectorCall::Nothing
                },
                Err(e) => {
                    proof {
                        assert(false);
                    }
                    EffectorCall::Nothing
                },
            };
            calls.push((id.clone(), call));
            proof {
                assert(self@ == pre.insert(id@, orig[id@].spec_executed(now)));
                assert forall|j: int|
                    gi + 1 <= j < np implies self@[(#[trigger] ids_p@[j])@]
                    == orig[ids_p@[j]@] by {
                    assert(ids_p@[j]@ != ids_p@[gi]@);
                }
            }
            i = i + 1;
        }
        let mut i2: usize = 0;
        proof {
            assert forall|j: int|
                0 <= j < na implies self@[(#[trigger] ids_a@[j])@] == orig[ids_a@[j]@] by {
                assert(orig.dom().contains(ids_a@[j]@));
                assert(orig[ids_a@[j]@].spec_due_for_reversal(now));
                assert(!orig[ids_a@[j]@].spec_due_for_execution(now));
            }
        }
        while i2 < na
            invariant
                i2 <= na,
                na == ids_a@.len(),
                np == ids_p@.len(),
                now <= MAX_INSTANT,
                self.wf(),
                self@.dom() == orig.dom(),
                forall|j: int|
                    0 <= j < na ==> orig.dom().contains((#[trigger] ids_a@[j])@)
                        && orig[ids_a@[j]@].spec_due_for_reversal(now),
                forall|j: int|
                    0 <= j < np ==> orig.dom().contains((#[trigger] ids_p@[j])@)
                        && orig[ids_p@[j]@].spec_due_for_execution(now),
                forall|j1: int, j2: int|
                    #![trigger ids_a@[j1], ids_a@[j2]]
                    0 <= j1 < j2 < na ==> ids_a@[j1]@ != ids_a@[j2]@,
                forall|j: int|
                    0 <= j < np ==> self@[(#[trigger] ids_p@[j])@] == orig[ids_p@[j]@].spec_executed(
                        now,
                    ),
                forall|j: int|
                    0 <= j < i2 ==> self@[(#[trigger] ids_a@[j])@] == orig[ids_a@[j]@].spec_reversed(
                        now,
                    ),
                forall|j: int| i2 <= j < na ==> self@[(#[trigger] ids_a@[j])@] == orig[ids_a@[j]@],
                forall|k: Seq<char>|
                    #[trigger] orig.dom().contains(k) ==> self@[k] == orig[k] || (
                    orig[k].spec_due_for_execution(now) && self@[k] == orig[k].spec_executed(now))
                        || (orig[k].spec_due_for_reversal(now) && self@[k]
                        == orig[k].spec_reversed(now)),
                calls@.len() == np + i2,
                forall|j: int|
                    0 <= j < np ==> (#[trigger] calls@[j]).0@ == ids_p@[j]@ && calls@[j].1
                        == spec_apply_call(orig[ids_p@[j]@].action, now),
                forall|j: int|
                    0 <= j < i2 ==> (#[trigger] calls@[np + j]).0@ == ids_a@[j]@ && calls@[np
                        + j].1 == spec_reverse_call(orig[ids_a@[j]@].action),
            decreases na - i2,
        {
            let ghost gi = i2 as int;
            let id = &ids_a[i2];
            let ghost pre = self@;
            proof {
                assert(pre[id@] == orig[id@]);
                assert(pre.dom().contains(id@));
                assert(!pre[id@].spec_due_for_execution(now));
            }
            let call = match self.process_enforcement(id, now) {
                Ok(Some(c)) => c,
                Ok(None) => {
                    proof {
                        assert(false);
                    }
                    EffectorCall::Nothing
                },
                Err(e) => {
                    proof {
                        assert(false);
                    }
                    EffectorCall::Nothing
                },
            };
            calls.push((id.clone(), call));
            proof {
                assert(self@ == pre.insert(id@, orig[id@].spec_reversed(now)));
                assert forall|j: int|
                    gi + 1 <= j < na implies self@[(#[trigger] ids_a@[j])@]
                    == orig[ids_a@[j]@] by {
                    assert(ids_a@[j]@ != ids_a@[gi]@);
                }
                assert forall|j: int|
                    0 <= j < np implies self@[(#[trigger] ids_p@[j])@]
                    == orig[ids_p@[j]@].spec_executed(now) by {
                    assert(orig[ids_p@[j]@].spec_due_for_execution(now));
                    assert(!orig[ids_p@[j]@].spec_due_for_reversal(now));
                    assert(ids_p@[j]@ != ids_a@[gi]@);
                }
            }
            i2 = i2 + 1;
        }
        proof {
            assert forall|k: Seq<char>| #[trigger] old(self)@.dom().contains(k) implies
                final(self)@[k] == spec_swept(old(self)@[k], now) by {
                if orig[k].spec_due_for_execution(now) {
                    let j = choose|j: int| 0 <= j < np && (#[trigger] ids_p@[j])@ == k;
                    assert(self@[ids_p@[j]@] == orig[ids_p@[j]@].spec_executed(now));
                } else if orig[k].spec_due_for_reversal(now) {
                    let j = choose|j: int| 0 <= j < na && (#[trigger] ids_a@[j])@ == k;
                    assert(self@[ids_a@[j]@] == orig[ids_a@[j]@].spec_reversed(now));
                }
            }
            assert forall|m: int| #![trigger calls@[m]] 0 <= m < calls@.len() implies
                old(self)@.dom().contains(calls@[m].0@) && (old(self)@[calls@[m].0@].spec_due_for_execution(now)
                || old(self)@[calls@[m].0@].spec_due_for_reversal(now)) && calls@[m].1 == (
            if old(self)@[calls@[m].0@].spec_due_for_execution(now) {
                spec_apply_call(old(self)@[calls@[m].0@].action, now)
            } else {
                spec_reverse_call(old(self)@[calls@[m].0@].action)
            }) by {
                if m < np {
                    assert(calls@[m].0@ == ids_p@[m]@);
                    assert(orig[ids_p@[m]@].spec_due_for_execution(now));
                } else {
                    let j = m - np;
                    assert(calls@[np + j].0@ == ids_a@[j]@ && calls@[np + j].1
                        == spec_reverse_call(orig[ids_a@[j]@].action));
                    assert(calls@[m].0@ == ids_a@[m - np]@);
                    assert(orig[ids_a@[m - np]@].spec_due_for_reversal(now));
                    assert(!orig[ids_a@[m - np]@].spec_due_for_execution(now));
                }
            }
            assert forall|m1: int, m2: int|
                #![trigger calls@[m1], calls@[m2]]
                0 <= m1 < m2 < calls@.len() implies calls@[m1].0@ != calls@[m2].0@ by {
                if m1 < np && m2 < np {
                    assert(calls@[m1].0@ == ids_p@[m1]@ && calls@[m2].0@ == ids_p@[m2]@);
                } else if m1 < np && m2 >= np {
                    let j2 = m2 - np;
                    assert(calls@[np + j2].0@ == ids_a@[j2]@);
                    assert(calls@[m1].0@ == ids_p@[m1]@ && calls@[m2].0@ == ids_a@[m2 - np]@);
                    assert(orig[ids_p@[m1]@].spec_due_for_execution(now));
                    assert(orig[ids_a@[m2 - np]@].spec_due_for_reversal(now));
                } else {
                    let j1 = m1 - np;
                    let j2 = m2 - np;
                    assert(calls@[np + j1].0@ == ids_a@[j1]@);
                    assert(calls@[np + j2].0@ == ids_a@[j2]@);
                    assert(calls@[m1].0@ == ids_a@[m1 - np]@ && calls@[m2].0@ == ids_a@[m2 - np]@);
                }
            }
            assert forall|k: Seq<char>|
                #[trigger] old(self)@.dom().contains(k) && (old(self)@[k].spec_due_for_execution(
                    now,
                ) || old(self)@[k].spec_due_for_reversal(now)) implies exists|m: int|
                0 <= m < calls@.len() && (#[trigger] calls@[m]).0@ == k by {
                if orig[k].spec_due_for_execution(now) {
                    let j = choose|j: int| 0 <= j < np && (#[trigger] ids_p@[j])@ == k;
                    assert(calls@[j].0@ == k);
                } else {
                    let j = choose|j: int| 0 <= j < na && (#[trigger] ids_a@[j])@ == k;
                    assert(calls@[np + j].0@ == k);
                }
            }
        }
        calls
    }

    /// One per-user sweep at `now`: execute the user's due pending records
    /// and reverse the user's due active records, in no particular order, and
    /// return each processed record's ID with the platform request it
    /// produced.  Records of other users are untouched.
    pub fn check_user_enforcements(&mut self, user_id: u64, guild_id: u64, now: i64) -> (r: Vec<
        (String, EffectorCall),
    >)
        requires
            old(self).wf(),
            now <= MAX_INSTANT,
        ensures
            final(self).wf(),
            final(self)@.dom() == old(self)@.dom(),
            forall|k: Seq<char>|
                #[trigger] old(self)@.dom().contains(k) ==> final(self)@[k] == (if spec_for_user(
                    old(self)@[k],
                    user_id,
                    guild_id,
                ) {
                    spec_swept(old(self)@[k], now)
                } else {
                    old(self)@[k]
                }),
            forall|m: int|
                #![trigger r@[m]]
                0 <= m < r@.len() ==> old(self)@.dom().contains(r@[m].0@) && spec_for_user(
                    old(self)@[r@[m].0@],
                    user_id,
                    guild_id,
                ) && (old(self)@[r@[m].0@].spec_due_for_execution(now)
                    || old(self)@[r@[m].0@].spec_due_for_reversal(now)) && r@[m].1 == (
                if old(self)@[r@[m].0@].spec_due_for_execution(now) {
                    spec_apply_call(old(self)@[r@[m].0@].action, now)
                } else {
                    spec_reverse_call(old(self)@[r@[m].0@].action)
                }),
            forall|m1: int, m2: int|
                #![trigger r@[m1], r@[m2]]
                0 <= m1 < m2 < r@.len() ==> r@[m1].0@ != r@[m2].0@,
            forall|k: Seq<char>|
                #[trigger] old(self)@.dom().contains(k) && spec_for_user(
                    old(self)@[k],
                    user_id,
                    guild_id,
                ) && (old(self)@[k].spec_due_for_execution(now)
                    || old(self)@[k].spec_due_for_reversal(now)) ==> exists|m: int|
                    0 <= m < r@.len() && (#[trigger] r@[m]).0@ == k,
    {
        let prec = self.store.get_pending_for_user(user_id, guild_id);
        let arec = self.store.get_active_for_user(user_id, guild_id);
        let ghost orig = self@;
        let ghost duef = |q: EnforcementRecord| q.spec_due_for_execution(now);
        let ghost callf = |q: EnforcementRecord| (q.id, spec_apply_call(q.action, now));
        let ghost duef2 = |q: EnforcementRecord| q.spec_due_for_reversal(now);
        let ghost callf2 = |q: EnforcementRecord| (q.id, spec_reverse_call(q.action));
        let mut calls: Vec<(String, EffectorCall)> = Vec::new();
        let np = prec.len();
        let na = arec.len();
        let mut i: usize = 0;
        while i < np
            invariant
                i <= np,
                np == prec@.len(),
                now <= MAX_INSTANT,
                self.wf(),
                self@.dom() == orig.dom(),
                forall|q: EnforcementRecord| #[trigger] duef(q) == q.spec_due_for_execution(now),
                forall|q: EnforcementRecord| #[trigger] callf(q) == (
                q.id,
                spec_apply_call(q.action, now),
                ),
                forall|j: int|
                    0 <= j < np ==> orig.contains_pair(
                        (#[trigger] prec@[j]).id@,
                        prec@[j],
                    ) && spec_for_user(prec@[j], user_id, guild_id) && prec@[j].state is Pending,
                forall|j1: int, j2: int|
                    #![trigger prec@[j1], prec@[j2]]
                    0 <= j1 < j2 < np ==> prec@[j1].id@ != prec@[j2].id@,
                forall|j: int|
                    0 <= j < i ==> self@[(#[trigger] prec@[j]).id@] == spec_swept(
                        orig[prec@[j].id@],
                        now,
                    ),
                forall|j: int| i <= j < np ==> self@[(#[trigger] prec@[j]).id@] == orig[prec@[j].id@],
                forall|k: Seq<char>|
                    #[trigger] orig.dom().contains(k) ==> self@[k] == orig[k] || (spec_for_user(
                        orig[k],
                        user_id,
                        guild_id,
                    ) && orig[k].spec_due_for_execution(now) && self@[k] == orig[k].spec_executed(
                        now,
                    )),
                calls@ == prec@.take(i as int).filter(duef).map_values(callf),
            decreases np - i,
        {
            let ghost gi = i as int;
            proof {
                prec@.lemma_take_succ_push(gi);
                prec@.take(gi).lemma_filter_push(prec@[gi], duef);
                prec@.take(gi).filter(duef).lemma_push_map_commute(callf, prec@[gi]);
            }
            let rec = &prec[i];
            if rec.is_due_for_execution(now) {
                let ghost pre = self@;
                proof {
                    assert(pre[rec.id@] == orig[rec.id@]);
                    assert(pre.dom().contains(rec.id@));
                }
                let call = match self.process_enforcement(&rec.id, now) {
                    Ok(Some(c)) => c,
                    Ok(None) => {
                        proof {
                            assert(false);
                        }
                        EffectorCall::Nothing
                    },
                    Err(e) => {
                        proof {
                            assert(false);
                        }
                        EffectorCall::Nothing
                    },
                };
                calls.push((rec.id.clone(), call));
                proof {
                    assert(self@ == pre.insert(rec.id@, orig[rec.id@].spec_executed(now)));
                    assert forall|j: int|
                        gi + 1 <= j < np implies self@[(#[trigger] prec@[j]).id@]
                        == orig[prec@[j].id@] by {
                        assert(prec@[j].id@ != prec@[gi].id@);
                    }
                }
            } else {
                proof {
                    assert(!duef(prec@[gi]));
                    assert(self@[prec@[gi].id@] == spec_swept(orig[prec@[gi].id@], now));
                }
            }
            i = i + 1;
        }
        let ghost calls1 = calls@;
        let mut i2: usize = 0;
        proof {
            broadcast use vstd::seq_lib::group_filter_ensures;

            prec@.lemma_take_len();
            assert(calls1 == prec@.filter(duef).map_values(callf));
            assert forall|j: int|
                0 <= j < na implies self@[(#[trigger] arec@[j]).id@] == orig[arec@[j].id@] by {
                assert(orig.contains_pair(arec@[j].id@, arec@[j]));
                assert(arec@[j].state is Active);
                assert(!orig[arec@[j].id@].spec_due_for_execution(now));
            }
            assert(calls@ == calls1 + arec@.take(0).filter(duef2).map_values(callf2));
        }
        while i2 < na
            invariant
                i2 <= na,
                na == arec@.len(),
                np == prec@.len(),
                now <= MAX_INSTANT,
                self.wf(),
                self@.dom() == orig.dom(),
                forall|q: EnforcementRecord| #[trigger] duef2(q) == q.spec_due_for_reversal(now),
                forall|q: EnforcementRecord| #[trigger] callf2(q) == (
                q.id,
                spec_reverse_call(q.action),
                ),
                forall|j: int|
                    0 <= j < na ==> orig.contains_pair(
                        (#[trigger] arec@[j]).id@,
                        arec@[j],
                    ) && spec_for_user(arec@[j], user_id, guild_id) && arec@[j].state is Active,
                forall|j: int|
                    0 <= j < np ==> orig.contains_pair(
                        (#[trigger] prec@[j]).id@,
                        prec@[j],
                    ) && spec_for_user(prec@[j], user_id, guild_id) && prec@[j].state is Pending,
                forall|j1: int, j2: int|
                    #![trigger arec@[j1], arec@[j2]]
                    0 <= j1 < j2 < na ==> arec@[j1].id@ != arec@[j2].id@,
                forall|j: int|
                    0 <= j < np ==> self@[(#[trigger] prec@[j]).id@] == spec_swept(
                        orig[prec@[j].id@],
                        now,
                    ),
                forall|j: int|
                    0 <= j < i2 ==> self@[(#[trigger] arec@[j]).id@] == spec_swept(
                        orig[arec@[j].id@],
                        now,
                    ),
                forall|j: int| i2 <= j < na ==> self@[(#[trigger] arec@[j]).id@] == orig[arec@[j].id@],
                forall|k: Seq<char>|
                    #[trigger] orig.dom().contains(k) ==> self@[k] == orig[k] || (spec_for_user(
                        orig[k],
                        user_id,
                        guild_id,
                    ) && orig[k].spec_due_for_execution(now) && self@[k] == orig[k].spec_executed(
                        now,
                    )) || (spec_for_user(orig[k], user_id, guild_id)
                        && orig[k].spec_due_for_reversal(now) && self@[k] == orig[k].spec_reversed(
                        now,
                    )),
                calls@ == calls1 + arec@.take(i2 as int).filter(duef2).map_values(callf2),
            decreases na - i2,
        {
            let ghost gi = i2 as int;
            proof {
                arec@.lemma_take_succ_push(gi);
                arec@.take(gi).lemma_filter_push(arec@[gi], duef2);
                arec@.take(gi).filter(duef2).lemma_push_map_commute(callf2, arec@[gi]);
                Seq::push_distributes_over_add(
                    calls1,
                    arec@.take(gi).filter(duef2).map_values(callf2),
                    callf2(arec@[gi]),
                );
            }
            let rec = &arec[i2];
            if rec.is_due_for_reversal(now) {
                let ghost pre = self@;
                proof {
                    assert(pre[rec.id@] == orig[rec.id@]);
                    assert(pre.dom().contains(rec.id@));
                    assert(!pre[rec.id@].spec_due_for_execution(now));
                }
                let call = match self.process_enforcement(&rec.id, now) {
                    Ok(Some(c)) => c,
                    Ok(None) => {
                        proof {
                            assert(false);
                        }
                        EffectorCall::Nothing
                    },
                    Err(e) => {
                        proof {
                            assert(false);
                        }
                        EffectorCall::Nothing
                    },
                };
                calls.push((rec.id.clone(), call));
                proof {
                    assert(self@ == pre.insert(rec.id@, orig[rec.id@].spec_reversed(now)));
                    assert forall|j: int|
                        gi + 1 <= j < na implies self@[(#[trigger] arec@[j]).id@]
                        == orig[arec@[j].id@] by {
                        assert(arec@[j].id@ != arec@[gi].id@);
                    }
                    assert forall|j: int|
                        0 <= j < np implies self@[(#[trigger] prec@[j]).id@] == spec_swept(
                        orig[prec@[j].id@],
                        now,
                    ) by {
                        assert(prec@[j].state is Pending && arec@[gi].state is Active);
                        assert(orig[prec@[j].id@] == prec@[j] && orig[arec@[gi].id@] == arec@[gi]);
                        assert(prec@[j].id@ != arec@[gi].id@);
                    }
                }
            } else {
                proof {
                    assert(!duef2(arec@[gi]));
                    assert(self@[arec@[gi].id@] == spec_swept(orig[arec@[gi].id@], now));
                }
            }
            i2 = i2 + 1;
        }
        proof {
            broadcast use vstd::seq_lib::group_filter_ensures;

            arec@.lemma_take_len();
            let f1 = prec@.filter(duef);
            let f2 = arec@.filter(duef2);
            let m1 = f1.map_values(callf);
            let m2 = f2.map_values(callf2);
            assert(calls@ == m1 + m2);
            crate::store::lemma_filter_keeps_distinct_ids(prec@, duef);
            crate::store::lemma_filter_keeps_distinct_ids(arec@, duef2);
            assert forall|k: Seq<char>| #[trigger] old(self)@.dom().contains(k) implies
                final(self)@[k] == (if spec_for_user(old(self)@[k], user_id, guild_id) {
                spec_swept(old(self)@[k], now)
            } else {
                old(self)@[k]
            }) by {
                if spec_for_user(orig[k], user_id, guild_id) {
                    if orig[k].state is Pending {
                        let j = choose|j: int|
                            0 <= j < np && (#[trigger] prec@[j]).id@ == k;
                        assert(orig.contains_pair(prec@[j].id@, prec@[j]));
                        assert(self@[prec@[j].id@] == spec_swept(orig[prec@[j].id@], now));
                    } else if orig[k].state is Active {
                        let j = choose|j: int|
                            0 <= j < na && (#[trigger] arec@[j]).id@ == k;
                        assert(orig.contains_pair(arec@[j].id@, arec@[j]));
                        assert(self@[arec@[j].id@] == spec_swept(orig[arec@[j].id@], now));
                    } else {
                        assert(!orig[k].spec_due_for_execution(now));
                        assert(!orig[k].spec_due_for_reversal(now));
                        assert(self@[k] == orig[k]);
                    }
                } else {
                    assert(self@[k] == orig[k]);
                }
            }
            assert forall|m: int| #![trigger calls@[m]] 0 <= m < calls@.len() implies
                old(self)@.dom().contains(calls@[m].0@) && spec_for_user(
                old(self)@[calls@[m].0@],
                user_id,
                guild_id,
            ) && (old(self)@[calls@[m].0@].spec_due_for_execution(now)
                || old(self)@[calls@[m].0@].spec_due_for_reversal(now)) && calls@[m].1 == (
            if old(self)@[calls@[m].0@].spec_due_for_execution(now) {
                spec_apply_call(old(self)@[calls@[m].0@].action, now)
            } else {
                spec_reverse_call(old(self)@[calls@[m].0@].action)
            }) by {
                if m < m1.len() {
                    assert(calls@[m] == callf(f1[m]));
                    assert(f1.contains(f1[m]));
                    prec@.lemma_filter_contains_rev(duef, f1[m]);
                    let j = choose|j: int| 0 <= j < prec@.len() && #[trigger] prec@[j] == f1[m];
                    assert(orig.contains_pair(prec@[j].id@, prec@[j]));
                    assert(duef(f1[m]));
                } else {
                    let mi = m - m1.len();
                    assert(calls@[m] == m2[mi]);
                    assert(m2[mi] == callf2(f2[mi]));
                    assert(f2.contains(f2[mi]));
                    arec@.lemma_filter_contains_rev(duef2, f2[mi]);
                    let j = choose|j: int| 0 <= j < arec@.len() && #[trigger] arec@[j] == f2[mi];
                    assert(orig.contains_pair(arec@[j].id@, arec@[j]));
                    assert(duef2(f2[mi]));
                    assert(!orig[arec@[j].id@].spec_due_for_execution(now));
                }
            }
            assert forall|ma: int, mb: int|
                #![trigger calls@[ma], calls@[mb]]
                0 <= ma < mb < calls@.len() implies calls@[ma].0@ != calls@[mb].0@ by {
                if ma < m1.len() {
                    assert(calls@[ma] == callf(f1[ma]));
                    assert(f1.contains(f1[ma]));
                    prec@.lemma_filter_contains_rev(duef, f1[ma]);
                    let ja = choose|ja: int| 0 <= ja < prec@.len() && #[trigger] prec@[ja] == f1[ma];
                    assert(orig.contains_pair(prec@[ja].id@, prec@[ja]));
                } else {
                    assert(calls@[ma] == callf2(f2[ma - m1.len()]));
                    assert(f2.contains(f2[ma - m1.len()]));
                    arec@.lemma_filter_contains_rev(duef2, f2[ma - m1.len()]);
                    let ja = choose|ja: int|
                        0 <= ja < arec@.len() && #[trigger] arec@[ja] == f2[ma - m1.len()];
                    assert(orig.contains_pair(arec@[ja].id@, arec@[ja]));
                }
                if mb < m1.len() {
                    assert(calls@[mb] == callf(f1[mb]));
                    assert(f1.contains(f1[mb]));
                    prec@.lemma_filter_contains_rev(duef, f1[mb]);
                    let jb = choose|jb: int| 0 <= jb < prec@.len() && #[trigger] prec@[jb] == f1[mb];
                    assert(orig.contains_pair(prec@[jb].id@, prec@[jb]));
                } else {
                    assert(calls@[mb] == callf2(f2[mb - m1.len()]));
                    assert(f2.contains(f2[mb - m1.len()]));
                    arec@.lemma_filter_contains_rev(duef2, f2[mb - m1.len()]);
                    let jb = choose|jb: int|
                        0 <= jb < arec@.len() && #[trigger] arec@[jb] == f2[mb - m1.len()];
                    assert(orig.contains_pair(arec@[jb].id@, arec@[jb]));
                }
                if ma < m1.len() && mb < m1.len() {
                    assert(f1[ma].id@ != f1[mb].id@);
                } else if ma < m1.len() && mb >= m1.len() {
                    assert(f1[ma].state is Pending && f2[mb - m1.len()].state is Active);
                } else {
                    assert(f2[ma - m1.len()].id@ != f2[mb - m1.len()].id@);
                }
            }
            assert forall|k: Seq<char>|
                #[trigger] old(self)@.dom().contains(k) && spec_for_user(
                    old(self)@[k],
                    user_id,
                    guild_id,
                ) && (old(self)@[k].spec_due_for_execution(now)
                    || old(self)@[k].spec_due_for_reversal(now)) implies exists|m: int|
                0 <= m < calls@.len() && (#[trigger] calls@[m]).0@ == k by {
                if orig[k].spec_due_for_execution(now) {
                    let j = choose|j: int| 0 <= j < np && (#[trigger] prec@[j]).id@ == k;
                    assert(orig.contains_pair(prec@[j].id@, prec@[j]));
                    assert(duef(prec@[j]));
                    assert(f1.contains(prec@[j]));
                    let fi = choose|fi: int| 0 <= fi < f1.len() && f1[fi] == prec@[j];
                    assert(calls@[fi] == callf(f1[fi]));
                    assert(calls@[fi].0@ == k);
                } else {
                    let j = choose|j: int| 0 <= j < na && (#[trigger] arec@[j]).id@ == k;
                    assert(orig.contains_pair(arec@[j].id@, arec@[j]));
                    assert(duef2(arec@[j]));
                    assert(f2.contains(arec@[j]));
                    let fi = choose|fi: int| 0 <= fi < f2.len() && f2[fi] == arec@[j];
                    assert(calls@[m1.len() + fi] == m2[fi]);
                    assert(calls@[m1.len() + fi].0@ == k);
                }
            }
        }
        calls
    }

    /// What cancelling every enforcement of a user must undo first: the undo
    /// request for each of the user's active records, each exactly once.  The
    /// caller performs these and then commits with `cancel_all_for_user`.
    pub fn cancel_all_for_user_plan(&self, user_id: u64, guild_id: u64) -> (r: Vec<
        (String, EffectorCall),
    >)
        requires
            self.wf(),
        ensures
            forall|m: int|
                #![trigger r@[m]]
                0 <= m < r@.len() ==> self@.dom().contains(r@[m].0@) && spec_for_user(
                    self@[r@[m].0@],
                    user_id,
                    guild_id,
                ) && self@[r@[m].0@].state is Active && r@[m].1 == spec_reverse_call(
                    self@[r@[m].0@].action,
                ),
            forall|m1: int, m2: int|
                #![trigger r@[m1], r@[m2]]
                0 <= m1 < m2 < r@.len() ==> r@[m1].0@ != r@[m2].0@,
            forall|k: Seq<char>|
                #[trigger] self@.dom().contains(k) && spec_for_user(self@[k], user_id, guild_id)
                    && self@[k].state is Active ==> exists|m: int|
                    0 <= m < r@.len() && (#[trigger] r@[m]).0@ == k,
    {
        let arec = self.store.get_active_for_user(user_id, guild_id);
        let mut calls: Vec<(String, EffectorCall)> = Vec::new();
        let na = arec.len();
        let mut i: usize = 0;
        while i < na
            invariant
                i <= na,
                na == arec@.len(),
                calls@.len() == i,
                forall|j: int|
                    0 <= j < i ==> (#[trigger] calls@[j]).0@ == arec@[j].id@ && calls@[j].1
                        == spec_reverse_call(arec@[j].action),
            decreases na - i,
        {
            let rec = &arec[i];
            let call = self.handlers.reverse(&rec.action);
            calls.push((rec.id.clone(), call));
            i = i + 1;
        }
        proof {
            assert forall|m: int| #![trigger calls@[m]] 0 <= m < calls@.len() implies
                self@.dom().contains(calls@[m].0@) && spec_for_user(
                self@[calls@[m].0@],
                user_id,
                guild_id,
            ) && self@[calls@[m].0@].state is Active && calls@[m].1 == spec_reverse_call(
                self@[calls@[m].0@].action,
            ) by {
                assert(self@.contains_pair(arec@[m].id@, arec@[m]));
            }
            assert forall|m1: int, m2: int|
                #![trigger calls@[m1], calls@[m2]]
                0 <= m1 < m2 < calls@.len() implies calls@[m1].0@ != calls@[m2].0@ by {
                assert(arec@[m1].id@ != arec@[m2].id@);
            }
            assert forall|k: Seq<char>|
                #[trigger] self@.dom().contains(k) && spec_for_user(self@[k], user_id, guild_id)
                    && self@[k].state is Active implies exists|m: int|
                0 <= m < calls@.len() && (#[trigger] calls@[m]).0@ == k by {
                let j = choose|j: int| 0 <= j < na && (#[trigger] arec@[j]).id@ == k;
                assert(calls@[j].0@ == k);
            }
        }
        calls
    }

    /// Commit cancelling every pending or active enforcement for a user in a
    /// guild, returning the cancelled records.  The caller performs the
    /// plan's undo requests first.
    pub fn cancel_all_for_user(&mut self, user_id: u64, guild_id: u64) -> (r: Vec<
        EnforcementRecord,
    >)
        requires
            old(self).wf(),
        ensures
            final(self).wf(),
            final(self)@.dom() == old(self)@.dom(),
            forall|k: Seq<char>|
                #[trigger] old(self)@.dom().contains(k) ==> final(self)@[k] == (if
                    spec_cancellable_for(old(self)@[k], user_id, guild_id) {
                    old(self)@[k].spec_cancelled()
                } else {
                    old(self)@[k]
                }),
            forall|m: int|
                #![trigger r@[m]]
                0 <= m < r@.len() ==> old(self)@.dom().contains(r@[m].id@)
                    && spec_cancellable_for(old(self)@[r@[m].id@], user_id, guild_id) && r@[m]
                    == old(self)@[r@[m].id@].spec_cancelled(),
            forall|m1: int, m2: int|
                #![trigger r@[m1], r@[m2]]
                0 <= m1 < m2 < r@.len() ==> r@[m1].id@ != r@[m2].id@,
            forall|k: Seq<char>|
                #[trigger] old(self)@.dom().contains(k) && spec_cancellable_for(
                    old(self)@[k],
                    user_id,
                    guild_id,
                ) ==> exists|m: int| 0 <= m < r@.len() && (#[trigger] r@[m]).id@ == k,
    {
        self.store.cancel_all_for_user(user_id, guild_id)
    }
}

} // verus!
