//! Enforcement store: a concurrent keyed repository of enforcement records.
//!
//! The store maps record IDs to records and exposes atomic transition
//! operations and snapshot query views.  Reads hand out owned copies, never
//! live references, so no internal lock is ever held across a caller's
//! subsequent logic.

use crate::error::{EnforcementError, EnforcementResult};
use crate::record::{EnforcementRecord, EnforcementState, MAX_INSTANT};
use vstd::prelude::*;

verus! {

/// The concurrent hash map the store is built on.
#[verifier::external_type_specification]
#[verifier::external_body]
#[verifier::reject_recursive_types(K)]
#[verifier::reject_recursive_types(V)]
#[verifier::reject_recursive_types(S)]
pub struct ExDashMap<K, V, S>(dashmap::DashMap<K, V, S>);

/// What the map holds: each key's record.
pub uninterp spec fn dash_contents(m: dashmap::DashMap<String, EnforcementRecord>) -> Map<
    Seq<char>,
    EnforcementRecord,
>;

/// The contents of a map with nothing in it.
pub open spec fn empty_contents() -> Map<Seq<char>, EnforcementRecord> {
    Map::empty()
}

/// Relies on dashmap::DashMap::new: a freshly created map is empty.
#[verifier::external_body]
fn dm_new() -> (m: dashmap::DashMap<String, EnforcementRecord>)
    ensures
        dash_contents(m) == empty_contents(),
{
    dashmap::DashMap::new()
}

/// Relies on dashmap::DashMap::insert: maps the key to the value, replacing
/// any previous entry for that key.
#[verifier::external_body]
fn dm_insert(m: &mut dashmap::DashMap<String, EnforcementRecord>, key: String, value: EnforcementRecord)
    ensures
        dash_contents(*final(m)) == dash_contents(*old(m)).insert(key@, value),
{
    m.insert(key, value);
}

/// Relies on dashmap::DashMap::get: the value the key maps to, if any,
/// handed out as an owned copy.
#[verifier::external_body]
fn dm_get(m: &dashmap::DashMap<String, EnforcementRecord>, key: &String) -> (r: Option<
    EnforcementRecord,
>)
    ensures
        match r {
            Some(v) => dash_contents(*m).contains_pair(key@, v),
            None => !dash_contents(*m).dom().contains(key@),
        },
{
    m.get(key).map(|entry| entry.value().clone())
}

/// Relies on dashmap::DashMap::remove: takes the entry for the key out of
/// the map and returns its value, if there was one.
#[verifier::external_body]
fn dm_remove(m: &mut dashmap::DashMap<String, EnforcementRecord>, key: &String) -> (r: Option<
    EnforcementRecord,
>)
    ensures
        dash_contents(*final(m)) == dash_contents(*old(m)).remove(key@),
        match r {
            Some(v) => dash_contents(*old(m)).contains_pair(key@, v),
            None => !dash_contents(*old(m)).dom().contains(key@),
        },
{
    m.remove(key).map(|(_, value)| value)
}

/// Relies on dashmap::DashMap::iter: visits every entry exactly once, with
/// each entry's key and an owned copy of its value.
#[verifier::external_body]
fn dm_entries(m: &dashmap::DashMap<String, EnforcementRecord>) -> (r: Vec<
    (String, EnforcementRecord),
>)
    ensures
        r@.len() == dash_contents(*m).dom().len(),
        forall|i: int|
            0 <= i < r@.len() ==> #[trigger] dash_contents(*m).contains_pair(r@[i].0@, r@[i].1),
        forall|i: int, j: int| 0 <= i < j < r@.len() ==> r@[i].0@ != r@[j].0@,
        forall|k: Seq<char>|
            #[trigger] dash_contents(*m).dom().contains(k) ==> exists|i: int|
                0 <= i < r@.len() && #[trigger] r@[i].0@ == k,
{
    m.iter().map(|entry| (entry.key().clone(), entry.value().clone())).collect()
}

/// Store for enforcement records.
pub struct EnforcementStore {
    records: dashmap::DashMap<String, EnforcementRecord>,
}

impl View for EnforcementStore {
    type V = Map<Seq<char>, EnforcementRecord>;

    closed spec fn view(&self) -> Map<Seq<char>, EnforcementRecord> {
        dash_contents(self.records)
    }
}

impl EnforcementStore {
    /// Store-level invariant: finitely many records, each stored under its
    /// own ID and individually well-formed.
    pub open spec fn wf(self) -> bool {
        &&& self@.dom().finite()
        &&& forall|k: Seq<char>|
            #[trigger] self@.dom().contains(k) ==> self@[k].id@ == k && self@[k].wf()
    }

    /// Create a new, empty enforcement store.
    pub fn new() -> (r: Self)
        ensures
            r@ == empty_contents(),
            r.wf(),
    {
        let r = Self { records: dm_new() };
        proof {
            assert(r@.dom() =~= Set::<Seq<char>>::empty());
        }
        r
    }

    /// Add an enforcement record, keyed by its ID; the caller guarantees
    /// globally unique IDs, and an existing record under the same ID would
    /// be replaced.
    pub fn add(&mut self, record: EnforcementRecord)
        requires
            old(self).wf(),
            record.wf(),
        ensures
            final(self)@ == old(self)@.insert(record.id@, record),
            final(self).wf(),
    {
        let key = record.id.clone();
        dm_insert(&mut self.records, key, record);
    }

    /// Get a snapshot of an enforcement record by ID.
    pub fn get(&self, id: &String) -> (r: Option<EnforcementRecord>)
        ensures
            match r {
                Some(v) => self@.contains_pair(id@, v),
                None => !self@.dom().contains(id@),
            },
    {
        dm_get(&self.records, id)
    }

    /// Remove an enforcement record by ID, returning it if it was present.
    pub fn remove(&mut self, id: &String) -> (r: Option<EnforcementRecord>)
        requires
            old(self).wf(),
        ensures
            final(self)@ == old(self)@.remove(id@),
            match r {
                Some(v) => old(self)@.contains_pair(id@, v),
                None => !old(self)@.dom().contains(id@),
            },
            final(self).wf(),
    {
        dm_remove(&mut self.records, id)
    }

    /// Get snapshots of all enforcement records, each exactly once, in no
    /// particular order.
    pub fn get_all(&self) -> (r: Vec<EnforcementRecord>)
        requires
            self.wf(),
        ensures
            r@.len() == self@.dom().len(),
            forall|i: int|
                0 <= i < r@.len() ==> self@.contains_pair(#[trigger] r@[i].id@, r@[i]),
            forall|i: int, j: int| 0 <= i < j < r@.len() ==> r@[i].id@ != r@[j].id@,
            forall|k: Seq<char>|
                #[trigger] self@.dom().contains(k) ==> exists|i: int|
                    0 <= i < r@.len() && #[trigger] r@[i].id@ == k,
    {
        let pairs = dm_entries(&self.records);
        let mut out: Vec<EnforcementRecord> = Vec::new();
        let n = pairs.len();
        let mut idx: usize = 0;
        #[verifier::loop_isolation(false)]
        while idx < n
            invariant
                idx <= n,
                out@.len() == idx,
                forall|i: int| 0 <= i < idx ==> out@[i] == pairs@[i].1,
            decreases n - idx,
        {
            let record = pairs[idx].1.duplicate();
            out.push(record);
            idx = idx + 1;
        }
        proof {
            assert forall|i: int| 0 <= i < out@.len() implies self@.contains_pair(
                #[trigger] out@[i].id@,
                out@[i],
            ) by {
                assert(self@.contains_pair(pairs@[i].0@, pairs@[i].1));
            }
            assert forall|i: int, j: int| 0 <= i < j < out@.len() implies out@[i].id@
                != out@[j].id@ by {
                assert(self@.contains_pair(pairs@[i].0@, pairs@[i].1));
                assert(self@.contains_pair(pairs@[j].0@, pairs@[j].1));
            }
            assert forall|k: Seq<char>| #[trigger] self@.dom().contains(k) implies exists|i: int|
                0 <= i < out@.len() && #[trigger] out@[i].id@ == k by {
                let j = choose|j: int| 0 <= j < pairs@.len() && #[trigger] pairs@[j].0@ == k;
                assert(self@.contains_pair(pairs@[j].0@, pairs@[j].1));
                assert(out@[j].id@ == k);
            }
        }
        out
    }


    /// Get the IDs of the pending enforcements due for execution at `now`,
    /// each exactly once.
    pub fn get_pending_for_execution(&self, now: i64) -> (r: Vec<String>)
        requires
            self.wf(),
        ensures
            forall|i: int|
                0 <= i < r@.len() ==> #[trigger] self@.dom().contains(r@[i]@)
                    && self@[r@[i]@].spec_due_for_execution(now),
            forall|i1: int, i2: int|
                #![trigger r@[i1], r@[i2]]
                0 <= i1 < i2 < r@.len() ==> r@[i1]@ != r@[i2]@,
            forall|k: Seq<char>|
                #[trigger] self@.dom().contains(k) && self@[k].spec_due_for_execution(now)
                    ==> exists|i: int| 0 <= i < r@.len() && #[trigger] r@[i]@ == k,
    {
        let pairs = dm_entries(&self.records);
        let ghost pred = |p: (String, EnforcementRecord)| p.1.spec_due_for_execution(now);
        let ghost keyf = |p: (String, EnforcementRecord)| p.0;
        let mut out: Vec<String> = Vec::new();
        let n = pairs.len();
        let mut idx: usize = 0;
        while idx < n
            invariant
                idx <= n,
                n == pairs@.len(),
                forall|q: (String, EnforcementRecord)| #[trigger] keyf(q) == q.0,
                forall|q: (String, EnforcementRecord)| #[trigger] pred(q)
                    == q.1.spec_due_for_execution(now),
                out@ == pairs@.take(idx as int).filter(pred).map_values(keyf),
            decreases n - idx,
        {
            let ghost gi = idx as int;
            proof {
                pairs@.lemma_take_succ_push(gi);
                pairs@.take(gi).lemma_filter_push(pairs@[gi], pred);
                pairs@.take(gi).filter(pred).lemma_push_map_commute(keyf, pairs@[gi]);
            }
            let p = &pairs[idx];
            proof {
                assert(pairs@.take(gi + 1) == pairs@.take(gi).push(pairs@[gi]));
                assert(keyf(pairs@[gi]) == pairs@[gi].0);
            }
            if p.1.is_due_for_execution(now) {
                out.push(p.0.clone());
                proof {
                    assert(pred(pairs@[gi]));
                    assert(out@ == pairs@.take(gi).filter(pred).map_values(keyf).push(
                        pairs@[gi].0,
                    ));
                    assert(pairs@.take(gi).push(pairs@[gi]).filter(pred) == pairs@.take(
                        gi,
                    ).filter(pred).push(pairs@[gi]));
                    assert(out@ == pairs@.take(gi + 1).filter(pred).map_values(keyf));
                }
            } else {
                proof {
                    assert(!pred(pairs@[gi]));
                    assert(pairs@.take(gi + 1).filter(pred) == pairs@.take(gi).filter(pred));
                    assert(out@ == pairs@.take(gi + 1).filter(pred).map_values(keyf));
                }
            }
            idx = idx + 1;
        }
        proof {
            broadcast use vstd::seq_lib::group_filter_ensures;

            pairs@.lemma_take_len();
            let f = pairs@.filter(pred);
            assert(out@ == f.map_values(keyf));
            lemma_filter_keeps_distinct_keys(pairs@, pred);
            assert forall|i: int| 0 <= i < out@.len() implies #[trigger] self@.dom().contains(
                out@[i]@,
            ) && self@[out@[i]@].spec_due_for_execution(now) by {
                assert(out@[i] == f[i].0);
                assert(f.contains(f[i]));
                pairs@.lemma_filter_contains_rev(pred, f[i]);
                let j = choose|j: int| 0 <= j < pairs@.len() && #[trigger] pairs@[j] == f[i];
                assert(self@.contains_pair(pairs@[j].0@, pairs@[j].1));
                assert(pred(f[i]));
            }
            assert forall|i1: int, i2: int|
                #![trigger out@[i1], out@[i2]]
                0 <= i1 < i2 < out@.len() implies out@[i1]@ != out@[i2]@ by {
                assert(f[i1].0@ != f[i2].0@);
            }
            assert forall|k: Seq<char>|
                #[trigger] self@.dom().contains(k) && self@[k].spec_due_for_execution(now)
                    implies exists|i: int| 0 <= i < out@.len() && #[trigger] out@[i]@ == k by {
                let j = choose|j: int| 0 <= j < pairs@.len() && #[trigger] pairs@[j].0@ == k;
                assert(self@.contains_pair(pairs@[j].0@, pairs@[j].1));
                assert(pred(pairs@[j]));
                assert(f.contains(pairs@[j]));
                let fi = choose|fi: int| 0 <= fi < f.len() && f[fi] == pairs@[j];
                assert(out@[fi]@ == k);
            }
        }
        out
    }

    /// Get the IDs of the active enforcements due for reversal at `now`, each
    /// exactly once.
    pub fn get_active_for_reversal(&self, now: i64) -> (r: Vec<String>)
        requires
            self.wf(),
        ensures
            forall|i: int|
                0 <= i < r@.len() ==> #[trigger] self@.dom().contains(r@[i]@)
                    && self@[r@[i]@].spec_due_for_reversal(now),
            forall|i1: int, i2: int|
                #![trigger r@[i1], r@[i2]]
                0 <= i1 < i2 < r@.len() ==> r@[i1]@ != r@[i2]@,
            forall|k: Seq<char>|
                #[trigger] self@.dom().contains(k) && self@[k].spec_due_for_reversal(now)
                    ==> exists|i: int| 0 <= i < r@.len() && #[trigger] r@[i]@ == k,
    {
        let pairs = dm_entries(&self.records);
        let ghost pred = |p: (String, EnforcementRecord)| p.1.spec_due_for_reversal(now);
        let ghost keyf = |p: (String, EnforcementRecord)| p.0;
        let mut out: Vec<String> = Vec::new();
        let n = pairs.len();
        let mut idx: usize = 0;
        while idx < n
            invariant
                idx <= n,
                n == pairs@.len(),
                forall|q: (String, EnforcementRecord)| #[trigger] keyf(q) == q.0,
                forall|q: (String, EnforcementRecord)| #[trigger] pred(q)
                    == q.1.spec_due_for_reversal(now),
                out@ == pairs@.take(idx as int).filter(pred).map_values(keyf),
            decreases n - idx,
        {
            let ghost gi = idx as int;
            proof {
                pairs@.lemma_take_succ_push(gi);
                pairs@.take(gi).lemma_filter_push(pairs@[gi], pred);
                pairs@.take(gi).filter(pred).lemma_push_map_commute(keyf, pairs@[gi]);
            }
            let p = &pairs[idx];
            if p.1.is_due_for_reversal(now) {
                out.push(p.0.clone());
            }
            idx = idx + 1;
        }
        proof {
            broadcast use vstd::seq_lib::group_filter_ensures;

            pairs@.lemma_take_len();
            let f = pairs@.filter(pred);
            assert(out@ == f.map_values(keyf));
            lemma_filter_keeps_distinct_keys(pairs@, pred);
            assert forall|i: int| 0 <= i < out@.len() implies #[trigger] self@.dom().contains(
                out@[i]@,
            ) && self@[out@[i]@].spec_due_for_reversal(now) by {
                assert(out@[i] == f[i].0);
                assert(f.contains(f[i]));
                pairs@.lemma_filter_contains_rev(pred, f[i]);
                let j = choose|j: int| 0 <= j < pairs@.len() && #[trigger] pairs@[j] == f[i];
                assert(self@.contains_pair(pairs@[j].0@, pairs@[j].1));
                assert(pred(f[i]));
            }
            assert forall|i1: int, i2: int|
                #![trigger out@[i1], out@[i2]]
                0 <= i1 < i2 < out@.len() implies out@[i1]@ != out@[i2]@ by {
                assert(f[i1].0@ != f[i2].0@);
            }
            assert forall|k: Seq<char>|
                #[trigger] self@.dom().contains(k) && self@[k].spec_due_for_reversal(now)
                    implies exists|i: int| 0 <= i < out@.len() && #[trigger] out@[i]@ == k by {
                let j = choose|j: int| 0 <= j < pairs@.len() && #[trigger] pairs@[j].0@ == k;
                assert(self@.contains_pair(pairs@[j].0@, pairs@[j].1));
                assert(pred(pairs@[j]));
                assert(f.contains(pairs@[j]));
                let fi = choose|fi: int| 0 <= fi < f.len() && f[fi] == pairs@[j];
                assert(out@[fi]@ == k);
            }
        }
        out
    }
}

impl EnforcementStore {
    /// Execute the enforcement with this ID at `now`: validates that the
    /// record is pending, applies the record-level transition and writes it
    /// back atomically, returning a snapshot of the updated record.
    pub fn execute_enforcement(&mut self, id: &String, now: i64) -> (r: EnforcementResult<
        EnforcementRecord,
    >)
        requires
            old(self).wf(),
            now <= MAX_INSTANT,
        ensures
            final(self).wf(),
            !old(self)@.dom().contains(id@) ==> (r matches Err(e) && e matches
                EnforcementError::NotFound(s) && s@ == id@) && final(self)@ == old(self)@,
            old(self)@.dom().contains(id@) && !(old(self)@[id@].state is Pending) ==> (r matches
                Err(e) && e is InvalidStateTransition) && final(self)@ == old(self)@,
            old(self)@.dom().contains(id@) && old(self)@[id@].state is Pending ==> (r matches Ok(
                rec,
            ) && rec == old(self)@[id@].spec_executed(now)) && final(self)@ == old(
                self,
            )@.insert(id@, old(self)@[id@].spec_executed(now)),
    {
        match dm_get(&self.records, id) {
            None => Err(EnforcementError::NotFound(id.clone())),
            Some(mut rec) => match rec.execute(now) {
                Ok(_) => {
                    let snapshot = rec.duplicate();
                    dm_insert(&mut self.records, id.clone(), rec);
                    Ok(snapshot)
                },
                Err(e) => Err(e),
            },
        }
    }

    /// Reverse the enforcement with this ID at `now`: validates that the
    /// record is active, applies the record-level transition and writes it
    /// back atomically, returning a snapshot of the updated record.
    pub fn reverse_enforcement(&mut self, id: &String, now: i64) -> (r: EnforcementResult<
        EnforcementRecord,
    >)
        requires
            old(self).wf(),
        ensures
            final(self).wf(),
            !old(self)@.dom().contains(id@) ==> (r matches Err(e) && e matches
                EnforcementError::NotFound(s) && s@ == id@) && final(self)@ == old(self)@,
            old(self)@.dom().contains(id@) && !(old(self)@[id@].state is Active) ==> (r matches
                Err(e) && e is InvalidStateTransition) && final(self)@ == old(self)@,
            old(self)@.dom().contains(id@) && old(self)@[id@].state is Active ==> (r matches Ok(
                rec,
            ) && rec == old(self)@[id@].spec_reversed(now)) && final(self)@ == old(
                self,
            )@.insert(id@, old(self)@[id@].spec_reversed(now)),
    {
        match dm_get(&self.records, id) {
            None => Err(EnforcementError::NotFound(id.clone())),
            Some(mut rec) => match rec.reverse(now) {
                Ok(_) => {
                    let snapshot = rec.duplicate();
                    dm_insert(&mut self.records, id.clone(), rec);
                    Ok(snapshot)
                },
                Err(e) => Err(e),
            },
        }
    }

    /// Cancel the enforcement with this ID: validates that the record is
    /// pending or active, applies the record-level transition and writes it
    /// back atomically, returning a snapshot of the updated record.
    pub fn cancel_enforcement(&mut self, id: &String) -> (r: EnforcementResult<EnforcementRecord>)
        requires
            old(self).wf(),
        ensures
            final(self).wf(),
            !old(self)@.dom().contains(id@) ==> (r matches Err(e) && e matches
                EnforcementError::NotFound(s) && s@ == id@) && final(self)@ == old(self)@,
            old(self)@.dom().contains(id@) && !(old(self)@[id@].state is Pending
                || old(self)@[id@].state is Active) ==> (r matches Err(e) && e
                is InvalidStateTransition) && final(self)@ == old(self)@,
            old(self)@.dom().contains(id@) && (old(self)@[id@].state is Pending
                || old(self)@[id@].state is Active) ==> (r matches Ok(rec) && rec == old(
                self,
            )@[id@].spec_cancelled()) && final(self)@ == old(self)@.insert(
                id@,
                old(self)@[id@].spec_cancelled(),
            ),
    {
        match dm_get(&self.records, id) {
            None => Err(EnforcementError::NotFound(id.clone())),
            Some(mut rec) => match rec.cancel() {
                Ok(_) => {
                    let snapshot = rec.duplicate();
                    dm_insert(&mut self.records, id.clone(), rec);
                    Ok(snapshot)
                },
                Err(e) => Err(e),
            },
        }
    }
}

impl EnforcementStore {
    /// Get snapshots of all enforcements for a user in a guild, each exactly
    /// once.
    pub fn get_for_user(&self, user_id: u64, guild_id: u64) -> (r: Vec<EnforcementRecord>)
        requires
            self.wf(),
        ensures
            forall|i: int|
                0 <= i < r@.len() ==> self@.contains_pair(#[trigger] r@[i].id@, r@[i])
                    && spec_for_user(r@[i], user_id, guild_id),
            forall|i1: int, i2: int|
                #![trigger r@[i1], r@[i2]]
                0 <= i1 < i2 < r@.len() ==> r@[i1].id@ != r@[i2].id@,
            forall|k: Seq<char>|
                #[trigger] self@.dom().contains(k) && spec_for_user(self@[k], user_id, guild_id) ==> exists|i: int|
                    0 <= i < r@.len() && #[trigger] r@[i].id@ == k,
    {
        let pairs = dm_entries(&self.records);
        let ghost pred = |p: (String, EnforcementRecord)| spec_for_user(p.1, user_id, guild_id);
        let ghost valf = |p: (String, EnforcementRecord)| p.1;
        let mut out: Vec<EnforcementRecord> = Vec::new();
        let n = pairs.len();
        let mut idx: usize = 0;
        while idx < n
            invariant
                idx <= n,
                n == pairs@.len(),
                forall|q: (String, EnforcementRecord)| #[trigger] valf(q) == q.1,
                forall|q: (String, EnforcementRecord)| #[trigger] pred(q) == spec_for_user(q.1, user_id, guild_id),
                out@ == pairs@.take(idx as int).filter(pred).map_values(valf),
            decreases n - idx,
        {
            let ghost gi = idx as int;
            proof {
                pairs@.lemma_take_succ_push(gi);
                pairs@.take(gi).lemma_filter_push(pairs@[gi], pred);
                pairs@.take(gi).filter(pred).lemma_push_map_commute(valf, pairs@[gi]);
            }
            let p = &pairs[idx];
            if p.1.user_id == user_id && p.1.guild_id == guild_id {
                out.push(p.1.duplicate());
            }
            idx = idx + 1;
        }
        proof {
            broadcast use vstd::seq_lib::group_filter_ensures;

            pairs@.lemma_take_len();
            let f = pairs@.filter(pred);
            assert(out@ == f.map_values(valf));
            lemma_filter_keeps_distinct_keys(pairs@, pred);
            assert forall|i: int| 0 <= i < out@.len() implies self@.contains_pair(
                #[trigger] out@[i].id@,
                out@[i],
            ) && spec_for_user(out@[i], user_id, guild_id) by {
                assert(out@[i] == f[i].1);
                assert(f.contains(f[i]));
                pairs@.lemma_filter_contains_rev(pred, f[i]);
                let j = choose|j: int| 0 <= j < pairs@.len() && #[trigger] pairs@[j] == f[i];
                assert(self@.contains_pair(pairs@[j].0@, pairs@[j].1));
                assert(pred(f[i]));
            }
            assert forall|i1: int, i2: int|
                #![trigger out@[i1], out@[i2]]
                0 <= i1 < i2 < out@.len() implies out@[i1].id@ != out@[i2].id@ by {
                assert(f.contains(f[i1]));
                pairs@.lemma_filter_contains_rev(pred, f[i1]);
                let j1 = choose|j1: int| 0 <= j1 < pairs@.len() && #[trigger] pairs@[j1] == f[i1];
                assert(self@.contains_pair(pairs@[j1].0@, pairs@[j1].1));
                assert(f.contains(f[i2]));
                pairs@.lemma_filter_contains_rev(pred, f[i2]);
                let j2 = choose|j2: int| 0 <= j2 < pairs@.len() && #[trigger] pairs@[j2] == f[i2];
                assert(self@.contains_pair(pairs@[j2].0@, pairs@[j2].1));
                assert(f[i1].0@ != f[i2].0@);
                assert(out@[i1].id@ == f[i1].0@ && out@[i2].id@ == f[i2].0@);
            }
            assert forall|k: Seq<char>|
                #[trigger] self@.dom().contains(k) && spec_for_user(self@[k], user_id, guild_id) implies exists|i: int|
                0 <= i < out@.len() && #[trigger] out@[i].id@ == k by {
                let j = choose|j: int| 0 <= j < pairs@.len() && #[trigger] pairs@[j].0@ == k;
                assert(self@.contains_pair(pairs@[j].0@, pairs@[j].1));
                assert(pred(pairs@[j]));
                assert(f.contains(pairs@[j]));
                let fi = choose|fi: int| 0 <= fi < f.len() && f[fi] == pairs@[j];
                assert(out@[fi].id@ == k);
            }
        }
        out
    }

    /// Get snapshots of the pending enforcements for a user in a guild, each
    /// exactly once.
    pub fn get_pending_for_user(&self, user_id: u64, guild_id: u64) -> (r: Vec<EnforcementRecord>)
        requires
            self.wf(),
        ensures
            forall|i: int|
                0 <= i < r@.len() ==> self@.contains_pair(#[trigger] r@[i].id@, r@[i])
                    && (spec_for_user(r@[i], user_id, guild_id) && r@[i].state is Pending),
            forall|i1: int, i2: int|
                #![trigger r@[i1], r@[i2]]
                0 <= i1 < i2 < r@.len() ==> r@[i1].id@ != r@[i2].id@,
            forall|k: Seq<char>|
                #[trigger] self@.dom().contains(k) && (spec_for_user(self@[k], user_id, guild_id) && self@[k].state is Pending) ==> exists|i: int|
                    0 <= i < r@.len() && #[trigger] r@[i].id@ == k,
    {
        let pairs = dm_entries(&self.records);
        let ghost pred = |p: (String, EnforcementRecord)| (spec_for_user(p.1, user_id, guild_id) && p.1.state is Pending);
        let ghost valf = |p: (String, EnforcementRecord)| p.1;
        let mut out: Vec<EnforcementRecord> = Vec::new();
        let n = pairs.len();
        let mut idx: usize = 0;
        while idx < n
            invariant
                idx <= n,
                n == pairs@.len(),
                forall|q: (String, EnforcementRecord)| #[trigger] valf(q) == q.1,
                forall|q: (String, EnforcementRecord)| #[trigger] pred(q) == (spec_for_user(q.1, user_id, guild_id) && q.1.state is Pending),
                out@ == pairs@.take(idx as int).filter(pred).map_values(valf),
            decreases n - idx,
        {
            let ghost gi = idx as int;
            proof {
                pairs@.lemma_take_succ_push(gi);
                pairs@.take(gi).lemma_filter_push(pairs@[gi], pred);
                pairs@.take(gi).filter(pred).lemma_push_map_commute(valf, pairs@[gi]);
            }
            let p = &pairs[idx];
            if p.1.user_id == user_id && p.1.guild_id == guild_id && p.1.state == EnforcementState::Pending {
                out.push(p.1.duplicate());
            }
            idx = idx + 1;
        }
        proof {
            broadcast use vstd::seq_lib::group_filter_ensures;

            pairs@.lemma_take_len();
            let f = pairs@.filter(pred);
            assert(out@ == f.map_values(valf));
            lemma_filter_keeps_distinct_keys(pairs@, pred);
            assert forall|i: int| 0 <= i < out@.len() implies self@.contains_pair(
                #[trigger] out@[i].id@,
                out@[i],
            ) && (spec_for_user(out@[i], user_id, guild_id) && out@[i].state is Pending) by {
                assert(out@[i] == f[i].1);
                assert(f.contains(f[i]));
                pairs@.lemma_filter_contains_rev(pred, f[i]);
                let j = choose|j: int| 0 <= j < pairs@.len() && #[trigger] pairs@[j] == f[i];
                assert(self@.contains_pair(pairs@[j].0@, pairs@[j].1));
                assert(pred(f[i]));
            }
            assert forall|i1: int, i2: int|
                #![trigger out@[i1], out@[i2]]
                0 <= i1 < i2 < out@.len() implies out@[i1].id@ != out@[i2].id@ by {
                assert(f.contains(f[i1]));
                pairs@.lemma_filter_contains_rev(pred, f[i1]);
                let j1 = choose|j1: int| 0 <= j1 < pairs@.len() && #[trigger] pairs@[j1] == f[i1];
                assert(self@.contains_pair(pairs@[j1].0@, pairs@[j1].1));
                assert(f.contains(f[i2]));
                pairs@.lemma_filter_contains_rev(pred, f[i2]);
                let j2 = choose|j2: int| 0 <= j2 < pairs@.len() && #[trigger] pairs@[j2] == f[i2];
                assert(self@.contains_pair(pairs@[j2].0@, pairs@[j2].1));
                assert(f[i1].0@ != f[i2].0@);
                assert(out@[i1].id@ == f[i1].0@ && out@[i2].id@ == f[i2].0@);
            }
            assert forall|k: Seq<char>|
                #[trigger] self@.dom().contains(k) && (spec_for_user(self@[k], user_id, guild_id) && self@[k].state is Pending) implies exists|i: int|
                0 <= i < out@.len() && #[trigger] out@[i].id@ == k by {
                let j = choose|j: int| 0 <= j < pairs@.len() && #[trigger] pairs@[j].0@ == k;
                assert(self@.contains_pair(pairs@[j].0@, pairs@[j].1));
                assert(pred(pairs@[j]));
                assert(f.contains(pairs@[j]));
                let fi = choose|fi: int| 0 <= fi < f.len() && f[fi] == pairs@[j];
                assert(out@[fi].id@ == k);
            }
        }
        out
    }

    /// Get snapshots of the active enforcements for a user in a guild, each
    /// exactly once.
    pub fn get_active_for_user(&self, user_id: u64, guild_id: u64) -> (r: Vec<EnforcementRecord>)
        requires
            self.wf(),
        ensures
            forall|i: int|
                0 <= i < r@.len() ==> self@.contains_pair(#[trigger] r@[i].id@, r@[i])
                    && (spec_for_user(r@[i], user_id, guild_id) && r@[i].state is Active),
            forall|i1: int, i2: int|
                #![trigger r@[i1], r@[i2]]
                0 <= i1 < i2 < r@.len() ==> r@[i1].id@ != r@[i2].id@,
            forall|k: Seq<char>|
                #[trigger] self@.dom().contains(k) && (spec_for_user(self@[k], user_id, guild_id) && self@[k].state is Active) ==> exists|i: int|
                    0 <= i < r@.len() && #[trigger] r@[i].id@ == k,
    {
        let pairs = dm_entries(&self.records);
        let ghost pred = |p: (String, EnforcementRecord)| (spec_for_user(p.1, user_id, guild_id) && p.1.state is Active);
        let ghost valf = |p: (String, EnforcementRecord)| p.1;
        let mut out: Vec<EnforcementRecord> = Vec::new();
        let n = pairs.len();
        let mut idx: usize = 0;
        while idx < n
            invariant
                idx <= n,
                n == pairs@.len(),
                forall|q: (String, EnforcementRecord)| #[trigger] valf(q) == q.1,
                forall|q: (String, EnforcementRecord)| #[trigger] pred(q) == (spec_for_user(q.1, user_id, guild_id) && q.1.state is Active),
                out@ == pairs@.take(idx as int).filter(pred).map_values(valf),
            decreases n - idx,
        {
            let ghost gi = idx as int;
            proof {
                pairs@.lemma_take_succ_push(gi);
                pairs@.take(gi).lemma_filter_push(pairs@[gi], pred);
                pairs@.take(gi).filter(pred).lemma_push_map_commute(valf, pairs@[gi]);
            }
            let p = &pairs[idx];
            if p.1.user_id == user_id && p.1.guild_id == guild_id && p.1.state == EnforcementState::Active {
                out.push(p.1.duplicate());
            }
            idx = idx + 1;
        }
        proof {
            broadcast use vstd::seq_lib::group_filter_ensures;

            pairs@.lemma_take_len();
            let f = pairs@.filter(pred);
            assert(out@ == f.map_values(valf));
            lemma_filter_keeps_distinct_keys(pairs@, pred);
            assert forall|i: int| 0 <= i < out@.len() implies self@.contains_pair(
                #[trigger] out@[i].id@,
                out@[i],
            ) && (spec_for_user(out@[i], user_id, guild_id) && out@[i].state is Active) by {
                assert(out@[i] == f[i].1);
                assert(f.contains(f[i]));
                pairs@.lemma_filter_contains_rev(pred, f[i]);
                let j = choose|j: int| 0 <= j < pairs@.len() && #[trigger] pairs@[j] == f[i];
                assert(self@.contains_pair(pairs@[j].0@, pairs@[j].1));
                assert(pred(f[i]));
            }
            assert forall|i1: int, i2: int|
                #![trigger out@[i1], out@[i2]]
                0 <= i1 < i2 < out@.len() implies out@[i1].id@ != out@[i2].id@ by {
                assert(f.contains(f[i1]));
                pairs@.lemma_filter_contains_rev(pred, f[i1]);
                let j1 = choose|j1: int| 0 <= j1 < pairs@.len() && #[trigger] pairs@[j1] == f[i1];
                assert(self@.contains_pair(pairs@[j1].0@, pairs@[j1].1));
                assert(f.contains(f[i2]));
                pairs@.lemma_filter_contains_rev(pred, f[i2]);
                let j2 = choose|j2: int| 0 <= j2 < pairs@.len() && #[trigger] pairs@[j2] == f[i2];
                assert(self@.contains_pair(pairs@[j2].0@, pairs@[j2].1));
                assert(f[i1].0@ != f[i2].0@);
                assert(out@[i1].id@ == f[i1].0@ && out@[i2].id@ == f[i2].0@);
            }
            assert forall|k: Seq<char>|
                #[trigger] self@.dom().contains(k) && (spec_for_user(self@[k], user_id, guild_id) && self@[k].state is Active) implies exists|i: int|
                0 <= i < out@.len() && #[trigger] out@[i].id@ == k by {
                let j = choose|j: int| 0 <= j < pairs@.len() && #[trigger] pairs@[j].0@ == k;
                assert(self@.contains_pair(pairs@[j].0@, pairs@[j].1));
                assert(pred(pairs@[j]));
                assert(f.contains(pairs@[j]));
                let fi = choose|fi: int| 0 <= fi < f.len() && f[fi] == pairs@[j];
                assert(out@[fi].id@ == k);
            }
        }
        out
    }

    /// Get snapshots of all enforcements in the given state, each exactly
    /// once.
    pub fn get_by_state(&self, state: EnforcementState) -> (r: Vec<EnforcementRecord>)
        requires
            self.wf(),
        ensures
            forall|i: int|
                0 <= i < r@.len() ==> self@.contains_pair(#[trigger] r@[i].id@, r@[i])
                    && r@[i].state == state,
            forall|i1: int, i2: int|
                #![trigger r@[i1], r@[i2]]
                0 <= i1 < i2 < r@.len() ==> r@[i1].id@ != r@[i2].id@,
            forall|k: Seq<char>|
                #[trigger] self@.dom().contains(k) && self@[k].state == state ==> exists|i: int|
                    0 <= i < r@.len() && #[trigger] r@[i].id@ == k,
    {
        let pairs = dm_entries(&self.records);
        let ghost pred = |p: (String, EnforcementRecord)| p.1.state == state;
        let ghost valf = |p: (String, EnforcementRecord)| p.1;
        let mut out: Vec<EnforcementRecord> = Vec::new();
        let n = pairs.len();
        let mut idx: usize = 0;
        while idx < n
            invariant
                idx <= n,
                n == pairs@.len(),
                forall|q: (String, EnforcementRecord)| #[trigger] valf(q) == q.1,
                forall|q: (String, EnforcementRecord)| #[trigger] pred(q) == (q.1.state == state),
                out@ == pairs@.take(idx as int).filter(pred).map_values(valf),
            decreases n - idx,
        {
            let ghost gi = idx as int;
            proof {
                pairs@.lemma_take_succ_push(gi);
                pairs@.take(gi).lemma_filter_push(pairs@[gi], pred);
                pairs@.take(gi).filter(pred).lemma_push_map_commute(valf, pairs@[gi]);
            }
            let p = &pairs[idx];
            if p.1.state == state {
                out.push(p.1.duplicate());
            }
            idx = idx + 1;
        }
        proof {
            broadcast use vstd::seq_lib::group_filter_ensures;

            pairs@.lemma_take_len();
            let f = pairs@.filter(pred);
            assert(out@ == f.map_values(valf));
            lemma_filter_keeps_distinct_keys(pairs@, pred);
            assert forall|i: int| 0 <= i < out@.len() implies self@.contains_pair(
                #[trigger] out@[i].id@,
                out@[i],
            ) && out@[i].state == state by {
                assert(out@[i] == f[i].1);
                assert(f.contains(f[i]));
                pairs@.lemma_filter_contains_rev(pred, f[i]);
                let j = choose|j: int| 0 <= j < pairs@.len() && #[trigger] pairs@[j] == f[i];
                assert(self@.contains_pair(pairs@[j].0@, pairs@[j].1));
                assert(pred(f[i]));
            }
            assert forall|i1: int, i2: int|
                #![trigger out@[i1], out@[i2]]
                0 <= i1 < i2 < out@.len() implies out@[i1].id@ != out@[i2].id@ by {
                assert(f.contains(f[i1]));
                pairs@.lemma_filter_contains_rev(pred, f[i1]);
                let j1 = choose|j1: int| 0 <= j1 < pairs@.len() && #[trigger] pairs@[j1] == f[i1];
                assert(self@.contains_pair(pairs@[j1].0@, pairs@[j1].1));
                assert(f.contains(f[i2]));
                pairs@.lemma_filter_contains_rev(pred, f[i2]);
                let j2 = choose|j2: int| 0 <= j2 < pairs@.len() && #[trigger] pairs@[j2] == f[i2];
                assert(self@.contains_pair(pairs@[j2].0@, pairs@[j2].1));
                assert(f[i1].0@ != f[i2].0@);
                assert(out@[i1].id@ == f[i1].0@ && out@[i2].id@ == f[i2].0@);
            }
            assert forall|k: Seq<char>|
                #[trigger] self@.dom().contains(k) && self@[k].state == state implies exists|i: int|
                0 <= i < out@.len() && #[trigger] out@[i].id@ == k by {
                let j = choose|j: int| 0 <= j < pairs@.len() && #[trigger] pairs@[j].0@ == k;
                assert(self@.contains_pair(pairs@[j].0@, pairs@[j].1));
                assert(pred(pairs@[j]));
                assert(f.contains(pairs@[j]));
                let fi = choose|fi: int| 0 <= fi < f.len() && f[fi] == pairs@[j];
                assert(out@[fi].id@ == k);
            }
        }
        out
    }
}

/// Whether a record is one that `cancel_all_for_user` cancels: it belongs to
/// the user in the guild and is still pending or active.
pub open spec fn spec_cancellable_for(rec: EnforcementRecord, user_id: u64, guild_id: u64) -> bool {
    spec_for_user(rec, user_id, guild_id) && (rec.state is Pending || rec.state is Active)
}

impl EnforcementStore {
    /// Cancel every pending or active enforcement for a user in a guild, and
    /// return the cancelled records; every other record is left unchanged.
    pub fn cancel_all_for_user(&mut self, user_id: u64, guild_id: u64) -> (r: Vec<
        EnforcementRecord,
    >)
        requires
            old(self).wf(),
        ensures
            final(self).wf(),
            final(self)@.dom() == old(self)@.dom(),
            forall|k: Seq<char>|
                #[trigger] old(self)@.dom().contains(k) ==> final(self)@[k] == (if
                    spec_cancellable_for(old(self)@[k], user_id, guild_id) {
                    old(self)@[k].spec_cancelled()
                } else {
                    old(self)@[k]
                }),
            forall|m: int|
                #![trigger r@[m]]
                0 <= m < r@.len() ==> old(self)@.dom().contains(r@[m].id@)
                    && spec_cancellable_for(old(self)@[r@[m].id@], user_id, guild_id) && r@[m]
                    == old(self)@[r@[m].id@].spec_cancelled(),
            forall|m1: int, m2: int|
                #![trigger r@[m1], r@[m2]]
                0 <= m1 < m2 < r@.len() ==> r@[m1].id@ != r@[m2].id@,
            forall|k: Seq<char>|
                #[trigger] old(self)@.dom().contains(k) && spec_cancellable_for(
                    old(self)@[k],
                    user_id,
                    guild_id,
                ) ==> exists|m: int| 0 <= m < r@.len() && (#[trigger] r@[m]).id@ == k,
    {
        let recs = self.get_for_user(user_id, guild_id);
        let ghost cpred = |rec: EnforcementRecord| rec.state is Pending || rec.state is Active;
        let ghost cancf = |rec: EnforcementRecord| rec.spec_cancelled();
        let ghost orig = self@;
        let mut out: Vec<EnforcementRecord> = Vec::new();
        let n = recs.len();
        let mut idx: usize = 0;
        while idx < n
            invariant
                idx <= n,
                n == recs@.len(),
                old(self).wf(),
                self.wf(),
                orig == old(self)@,
                forall|q: EnforcementRecord| #[trigger] cpred(q) == (q.state is Pending || q.state
                    is Active),
                forall|q: EnforcementRecord| #[trigger] cancf(q) == q.spec_cancelled(),
                forall|j: int|
                    0 <= j < n ==> orig.contains_pair(#[trigger] recs@[j].id@, recs@[j])
                        && spec_for_user(recs@[j], user_id, guild_id),
                forall|j1: int, j2: int|
                    #![trigger recs@[j1], recs@[j2]]
                    0 <= j1 < j2 < n ==> recs@[j1].id@ != recs@[j2].id@,
                self@.dom() == orig.dom(),
                forall|k: Seq<char>|
                    #[trigger] orig.dom().contains(k) ==> self@[k] == orig[k] || (
                    spec_cancellable_for(orig[k], user_id, guild_id) && self@[k]
                        == orig[k].spec_cancelled()),
                forall|j: int|
                    idx <= j < n ==> self@[(#[trigger] recs@[j]).id@] == orig[recs@[j].id@],
                forall|j: int|
                    0 <= j < idx && cpred(#[trigger] recs@[j]) ==> self@[recs@[j].id@]
                        == orig[recs@[j].id@].spec_cancelled(),
                out@ == recs@.take(idx as int).filter(cpred).map_values(cancf),
            decreases n - idx,
        {
            let ghost gi = idx as int;
            proof {
                recs@.lemma_take_succ_push(gi);
                recs@.take(gi).lemma_filter_push(recs@[gi], cpred);
                recs@.take(gi).filter(cpred).lemma_push_map_commute(cancf, recs@[gi]);
                assert(orig.contains_pair(recs@[gi].id@, recs@[gi]));
                assert(self@[recs@[gi].id@] == orig[recs@[gi].id@]);
            }
            let rec = &recs[idx];
            if rec.state == EnforcementState::Pending || rec.state == EnforcementState::Active {
                let ghost pre_map = self@;
                match self.cancel_enforcement(&rec.id) {
                    Ok(cancelled) => {
                        out.push(cancelled);
                        proof {
                            assert(self@ == pre_map.insert(
                                recs@[gi].id@,
                                orig[recs@[gi].id@].spec_cancelled(),
                            ));
                            assert forall|j: int|
                                idx + 1 <= j < n implies self@[(#[trigger] recs@[j]).id@]
                                == orig[recs@[j].id@] by {
                                assert(recs@[j].id@ != recs@[gi].id@);
                            }
                        }
                    },
                    Err(_) => {
                        proof {
                            assert(false);
                        }
                    },
                }
            }
            idx = idx + 1;
        }
        proof {
            broadcast use vstd::seq_lib::group_filter_ensures;

            recs@.lemma_take_len();
            let f = recs@.filter(cpred);
            assert(out@ == f.map_values(cancf));
            lemma_filter_keeps_distinct_ids(recs@, cpred);
            assert(orig == old(self)@);
            assert forall|k: Seq<char>| #[trigger] old(self)@.dom().contains(k) implies
                final(self)@[k] == (if spec_cancellable_for(old(self)@[k], user_id, guild_id) {
                old(self)@[k].spec_cancelled()
            } else {
                old(self)@[k]
            }) by {
                assert(orig.dom().contains(k));
                if spec_cancellable_for(orig[k], user_id, guild_id) {
                    let j = choose|j: int| 0 <= j < recs@.len() && (#[trigger] recs@[j]).id@ == k;
                    assert(orig.contains_pair(recs@[j].id@, recs@[j]));
                    assert(recs@[j] == orig[k]);
                    assert(cpred(recs@[j]));
                    assert(self@[k] == orig[k].spec_cancelled());
                }
            }
            assert forall|m: int| #![trigger out@[m]] 0 <= m < out@.len() implies old(self)@.dom().contains(
                out@[m].id@,
            ) && spec_cancellable_for(
                old(self)@[out@[m].id@],
                user_id,
                guild_id,
            ) && out@[m] == old(self)@[out@[m].id@].spec_cancelled() by {
                assert(out@[m] == cancf(f[m]));
                assert(f.contains(f[m]));
                recs@.lemma_filter_contains_rev(cpred, f[m]);
                let j = choose|j: int| 0 <= j < recs@.len() && #[trigger] recs@[j] == f[m];
                assert(orig.contains_pair(recs@[j].id@, recs@[j]));
                assert(cpred(f[m]));
                assert(orig.dom().contains(out@[m].id@));
                assert(spec_cancellable_for(orig[out@[m].id@], user_id, guild_id));
                assert(out@[m] == orig[out@[m].id@].spec_cancelled());
            }
            assert forall|m1: int, m2: int|
                #![trigger out@[m1], out@[m2]]
                0 <= m1 < m2 < out@.len() implies out@[m1].id@ != out@[m2].id@ by {
                assert(f[m1].id@ != f[m2].id@);
                assert(out@[m1] == cancf(f[m1]) && out@[m2] == cancf(f[m2]));
            }
            assert forall|k: Seq<char>|
                #[trigger] old(self)@.dom().contains(k) && spec_cancellable_for(
                    old(self)@[k],
                    user_id,
                    guild_id,
                ) implies exists|m: int| 0 <= m < out@.len() && (#[trigger] out@[m]).id@ == k by {
                assert(orig.dom().contains(k) && spec_cancellable_for(orig[k], user_id, guild_id));
                let j = choose|j: int| 0 <= j < recs@.len() && (#[trigger] recs@[j]).id@ == k;
                assert(orig.contains_pair(recs@[j].id@, recs@[j]));
                assert(cpred(recs@[j]));
                assert(f.contains(recs@[j]));
                let fi = choose|fi: int| 0 <= fi < f.len() && f[fi] == recs@[j];
                assert(out@[fi] == cancf(f[fi]));
                assert(out@[fi].id@ == k);
            }
        }
        out
    }
}

/// Filtering a sequence of records with pairwise-distinct IDs keeps the IDs
/// pairwise distinct.
pub(crate) proof fn lemma_filter_keeps_distinct_ids(
    s: Seq<EnforcementRecord>,
    pred: spec_fn(EnforcementRecord) -> bool,
)
    requires
        forall|i: int, j: int|
            #![trigger s[i], s[j]]
            0 <= i < j < s.len() ==> s[i].id@ != s[j].id@,
    ensures
        forall|i: int, j: int|
            #![trigger s.filter(pred)[i], s.filter(pred)[j]]
            0 <= i < j < s.filter(pred).len() ==> s.filter(pred)[i].id@ != s.filter(pred)[j].id@,
    decreases s.len(),
{
    reveal(Seq::filter);
    if s.len() > 0 {
        let rest = s.drop_last();
        lemma_filter_keeps_distinct_ids(rest, pred);
        let fr = rest.filter(pred);
        let f = s.filter(pred);
        if pred(s.last()) {
            assert(f =~= fr.push(s.last()));
            assert forall|i: int, j: int|
                #![trigger f[i], f[j]]
                0 <= i < j < f.len() implies f[i].id@ != f[j].id@ by {
                if j == f.len() - 1 {
                    assert(fr.contains(fr[i]));
                    rest.lemma_filter_contains_rev(pred, fr[i]);
                    let k = choose|k: int| 0 <= k < rest.len() && rest[k] == fr[i];
                    assert(s[k].id@ != s[s.len() - 1].id@);
                }
            }
        }
    }
}

/// Filtering a sequence of entries with pairwise-distinct keys keeps the
/// keys pairwise distinct.
proof fn lemma_filter_keeps_distinct_keys(
    s: Seq<(String, EnforcementRecord)>,
    pred: spec_fn((String, EnforcementRecord)) -> bool,
)
    requires
        forall|i: int, j: int|
            #![trigger s[i], s[j]]
            0 <= i < j < s.len() ==> s[i].0@ != s[j].0@,
    ensures
        forall|i: int, j: int|
            #![trigger s.filter(pred)[i], s.filter(pred)[j]]
            0 <= i < j < s.filter(pred).len() ==> s.filter(pred)[i].0@ != s.filter(pred)[j].0@,
    decreases s.len(),
{
    reveal(Seq::filter);
    if s.len() > 0 {
        let rest = s.drop_last();
        lemma_filter_keeps_distinct_keys(rest, pred);
        let fr = rest.filter(pred);
        let f = s.filter(pred);
        if pred(s.last()) {
            assert(f =~= fr.push(s.last()));
            assert forall|i: int, j: int|
                #![trigger f[i], f[j]]
                0 <= i < j < f.len() implies f[i].0@ != f[j].0@ by {
                if j == f.len() - 1 {
                    assert(fr.contains(fr[i]));
                    rest.lemma_filter_contains_rev(pred, fr[i]);
                    let k = choose|k: int| 0 <= k < rest.len() && rest[k] == fr[i];
                    assert(s[k].0@ != s[s.len() - 1].0@);
                }
            }
        }
    }
}


/// Whether a record belongs to the given user in the given guild.
pub open spec fn spec_for_user(rec: EnforcementRecord, user_id: u64, guild_id: u64) -> bool {
    rec.user_id == user_id && rec.guild_id == guild_id
}

} // verus!
