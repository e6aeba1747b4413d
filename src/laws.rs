//! Properties of the scheduling state machine that hold over all inputs.
use vstd::prelude::*;

use crate::coordinator::{begin_outcome, finished, marked, ScheduleError};
use crate::model::{duration_matches_attempt, evaluated_not_after_checked, is_evaluating, jobset_wf, Jobset};
use crate::routes::trigger_outcome;
use crate::store::{has_id, ids_ascending, index_of};

verus! {

/// Marking an attempt keeps a record's invariant: the last successful
/// evaluation stays no later than the last attempt, and an attempt is recorded.
pub proof fn lemma_marking_keeps_invariant(j: Jobset, now: i64)
    requires
        jobset_wf(j),
    ensures
        jobset_wf(marked(j, now)),
        evaluated_not_after_checked(marked(j, now)),
        is_evaluating(marked(j, now)),
{
}

/// Closing an attempt, successful or not, keeps a record's invariant; once it
/// is closed a duration is recorded exactly when an attempt is.
pub proof fn lemma_finishing_keeps_invariant(m: Jobset, succeeded: bool, duration: u64)
    requires
        jobset_wf(m),
        is_evaluating(m),
    ensures
        jobset_wf(finished(m, succeeded, duration)),
        evaluated_not_after_checked(finished(m, succeeded, duration)),
        finished(m, succeeded, duration).evaluation_took.is_some()
            == finished(m, succeeded, duration).last_checked.is_some(),
{
}

/// Every record that a request to schedule produces keeps the invariant.
pub proof fn lemma_scheduling_keeps_invariant(held: Set<i32>, j: Jobset, now: i64)
    requires
        jobset_wf(j),
    ensures
        begin_outcome(held, j, now) is Ok ==> jobset_wf(begin_outcome(held, j, now)->Ok_0),
{
}

/// For a well-formed record whose evaluation is not in flight, a duration is
/// recorded exactly when an attempt is.
pub proof fn lemma_duration_iff_checked(j: Jobset)
    requires
        jobset_wf(j),
        !is_evaluating(j),
    ensures
        j.evaluation_took.is_some() == j.last_checked.is_some(),
{
    assert(duration_matches_attempt(j));
}

/// Once a request to schedule a jobset has been granted, every later request
/// for the same jobset is refused as already running, whatever record it sees
/// and whenever it comes.
pub proof fn lemma_second_request_refused(held: Set<i32>, j: Jobset, now: i64, later: Jobset, later_now: i64)
    requires
        begin_outcome(held, j, now) is Ok,
        later.id == j.id,
    ensures
        begin_outcome(held.insert(j.id->0), later, later_now) == Err::<Jobset, ScheduleError>(
            ScheduleError::AlreadyRunning,
        ),
{
}

/// A jobset persisted as `EVALUATING` is refused as already running by every
/// coordinator, whatever it holds in flight: the persisted state alone guards
/// the evaluation.
pub proof fn lemma_persisted_marker_refuses(held: Set<i32>, j: Jobset, now: i64)
    requires
        j.id is Some,
        is_evaluating(j),
    ensures
        begin_outcome(held, j, now) == Err::<Jobset, ScheduleError>(ScheduleError::AlreadyRunning),
{
}

/// A request for a jobset that is already running produces no record to
/// write, so `last_checked`, `last_evaluated` and `evaluation_took` stay as
/// they were.
pub proof fn lemma_already_running_writes_nothing(held: Set<i32>, j: Jobset, now: i64)
    requires
        j.id is Some,
        held.contains(j.id->0) || is_evaluating(j),
    ensures
        !(begin_outcome(held, j, now) is Ok),
        begin_outcome(held, j, now) == Err::<Jobset, ScheduleError>(ScheduleError::AlreadyRunning),
{
}

/// Every record of `s` keeps the invariant.
pub open spec fn all_wf(s: Seq<Jobset>) -> bool {
    forall|k: int| 0 <= k < s.len() ==> jobset_wf(#[trigger] s[k])
}

proof fn lemma_index_of_found(s: Seq<Jobset>, id: i32)
    requires
        has_id(s, id),
    ensures
        0 <= index_of(s, id) < s.len(),
        s[index_of(s, id)].id == Some(id),
{
}

/// Storing the record of a granted trigger keeps every stored record's
/// invariant.
pub proof fn lemma_trigger_keeps_records_wf(held: Set<i32>, records: Seq<Jobset>, pid: Option<i32>, jid: Option<i32>, now: i64)
    requires
        all_wf(records),
        trigger_outcome(held, records, pid, jid, now) is Ok,
    ensures
        all_wf(records.update(index_of(records, jid->0), trigger_outcome(held, records, pid, jid, now)->Ok_0)),
{
    lemma_index_of_found(records, jid->0);
    let k = index_of(records, jid->0);
    lemma_marking_keeps_invariant(records[k], now);
    let updated = records.update(k, trigger_outcome(held, records, pid, jid, now)->Ok_0);
    assert forall|i: int| 0 <= i < updated.len() implies jobset_wf(#[trigger] updated[i]) by {
        if i != k {
            assert(updated[i] == records[i]);
        }
    }
}

/// Storing the record that closes a well-formed attempt keeps every stored
/// record's invariant, whether the attempt succeeded or failed.
pub proof fn lemma_completion_keeps_records_wf(records: Seq<Jobset>, m: Jobset, succeeded: bool, duration: u64)
    requires
        all_wf(records),
        jobset_wf(m),
        is_evaluating(m),
        m.id is Some,
        has_id(records, m.id->0),
    ensures
        all_wf(records.update(index_of(records, m.id->0), finished(m, succeeded, duration))),
{
    lemma_index_of_found(records, m.id->0);
    let k = index_of(records, m.id->0);
    lemma_finishing_keeps_invariant(m, succeeded, duration);
    let updated = records.update(k, finished(m, succeeded, duration));
    assert forall|i: int| 0 <= i < updated.len() implies jobset_wf(#[trigger] updated[i]) by {
        if i != k {
            assert(updated[i] == records[i]);
        }
    }
}

/// After a trigger of a jobset has been granted and its marker stored, a
/// second trigger of that jobset is refused as already running, whenever it
/// comes: neither the coordinator that holds it nor the stored marker lets it
/// through.
pub proof fn lemma_second_trigger_refused(
    held: Set<i32>,
    records: Seq<Jobset>,
    pid: Option<i32>,
    jid: Option<i32>,
    now: i64,
    later_now: i64,
)
    requires
        ids_ascending(records),
        trigger_outcome(held, records, pid, jid, now) is Ok,
    ensures
        trigger_outcome(
            held.insert(jid->0),
            records.update(index_of(records, jid->0), trigger_outcome(held, records, pid, jid, now)->Ok_0),
            pid,
            jid,
            later_now,
        ) == Err::<Jobset, ScheduleError>(ScheduleError::AlreadyRunning),
        trigger_outcome(
            Set::<i32>::empty(),
            records.update(index_of(records, jid->0), trigger_outcome(held, records, pid, jid, now)->Ok_0),
            pid,
            jid,
            later_now,
        ) == Err::<Jobset, ScheduleError>(ScheduleError::AlreadyRunning),
{
    let id = jid->0;
    lemma_index_of_found(records, id);
    let k = index_of(records, id);
    let m = trigger_outcome(held, records, pid, jid, now)->Ok_0;
    let updated = records.update(k, m);
    assert(m.id == Some(id));
    assert(updated[k].id == Some(id));
    assert(has_id(updated, id));
    lemma_index_of_found(updated, id);
    let k2 = index_of(updated, id);
    if k2 != k {
        assert(updated[k2] == records[k2]);
        if k2 < k {
            assert(records[k2].id->0 < records[k].id->0);
        } else {
            assert(records[k].id->0 < records[k2].id->0);
        }
    }
    assert(updated[k2] == m);
}

} // verus!
