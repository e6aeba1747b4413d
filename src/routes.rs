//! Requests on jobsets as callers make them: identifiers arrive as text.
use vstd::prelude::*;

use crate::coordinator::{begin_outcome, final_outcome, finish_evaluation, finished, Coordinator, ScheduleError};
use crate::model::Jobset;
use crate::runner::{BuildTarget, EvaluationResult};
use crate::store::{has_id, in_project, index_of, MemoryStore};

verus! {

pub open spec fn all_digits(s: Seq<char>) -> bool {
    forall|k: int| 0 <= k < s.len() ==> '0' <= #[trigger] s[k] && s[k] <= '9'
}

/// The value of a string of ASCII digits.
pub open spec fn digits_value(s: Seq<char>) -> int
    decreases s.len(),
{
    if s.len() == 0 {
        0
    } else {
        digits_value(s.drop_last()) * 10 + ((s.last() as u32) as int - ('0' as u32) as int)
    }
}

/// The value of a decimal numeral: an optional `+` or `-` sign followed by one
/// or more ASCII digits, and nothing else.
pub open spec fn numeral_value(s: Seq<char>) -> Option<int> {
    if s.len() > 0 && (s[0] == '+' || s[0] == '-') {
        let d = s.skip(1);
        if d.len() > 0 && all_digits(d) {
            Some(if s[0] == '-' { -digits_value(d) } else { digits_value(d) })
        } else {
            None
        }
    } else if s.len() > 0 && all_digits(s) {
        Some(digits_value(s))
    } else {
        None
    }
}

/// The identifier that `s` writes: a decimal numeral whose value is an `i32`.
pub open spec fn parsed_i32(s: Seq<char>) -> Option<i32> {
    match numeral_value(s) {
        Some(v) => if i32::MIN <= v && v <= i32::MAX { Some(v as i32) } else { None },
        None => None,
    }
}

/// Relies on std's `str::parse::<i32>`, which accepts exactly an optional sign
/// followed by decimal digits whose value fits an `i32`.
#[verifier::external_body]
fn parse_i32(s: &str) -> (r: Option<i32>)
    ensures
        r == parsed_i32(s@),
{
    s.parse::<i32>().ok()
}

/// The jobsets of the project whose id `id` writes, in ascending order of id;
/// invalid input when `id` writes no identifier.
pub fn get_jobsets(store: &MemoryStore, id: &str) -> (r: Result<Vec<Jobset>, ScheduleError>)
    requires
        store.wf(),
    ensures
        parsed_i32(id@) is None ==> r == Err::<Vec<Jobset>, ScheduleError>(ScheduleError::InvalidInput),
        parsed_i32(id@) is Some ==> r is Ok && r->Ok_0@ == store.records().filter(
            in_project(parsed_i32(id@)->0),
        ),
{
    match parse_i32(id) {
        None => Err(ScheduleError::InvalidInput),
        Some(n) => Ok(store.get_project_jobsets(n)),
    }
}

/// The jobset whose id `id` writes, if it is stored; invalid input when `id`
/// writes no identifier.
pub fn get_jobset(store: &MemoryStore, id: &str) -> (r: Result<Option<Jobset>, ScheduleError>)
    requires
        store.wf(),
    ensures
        parsed_i32(id@) is None ==> r == Err::<Option<Jobset>, ScheduleError>(ScheduleError::InvalidInput),
        parsed_i32(id@) is Some ==> r is Ok,
        parsed_i32(id@) is Some ==> (r->Ok_0 is None <==> !has_id(store.records(), parsed_i32(id@)->0)),
        parsed_i32(id@) is Some && r->Ok_0 is Some ==> r->Ok_0->0 == store.records()[index_of(
            store.records(),
            parsed_i32(id@)->0,
        )],
{
    match parse_i32(id) {
        None => Err(ScheduleError::InvalidInput),
        Some(n) => Ok(store.get_jobset(n)),
    }
}

/// What a trigger of jobset `jid` of project `pid` gives: invalid input unless
/// the jobset is stored under that project, and otherwise the decision on its
/// stored record.
pub open spec fn trigger_outcome(held: Set<i32>, records: Seq<Jobset>, pid: Option<i32>, jid: Option<i32>, now: i64) -> Result<Jobset, ScheduleError> {
    if pid is None || jid is None || !has_id(records, jid->0) {
        Err(ScheduleError::InvalidInput)
    } else if records[index_of(records, jid->0)].project_id != pid {
        Err(ScheduleError::InvalidInput)
    } else {
        begin_outcome(held, records[index_of(records, jid->0)], now)
    }
}

/// Starts an evaluation of jobset `jobset_id` of project `project_id` at time
/// `now`: the stored record is marked `EVALUATING` and the marked record is
/// returned; the caller evaluates its flake reference and then calls
/// `complete_jobset`. Nothing changes when the request is refused.
pub fn trigger_jobset(coordinator: &mut Coordinator, store: &mut MemoryStore, project_id: &str, jobset_id: &str, now: i64) -> (r: Result<Jobset, ScheduleError>)
    requires
        old(store).wf(),
    ensures
        final(store).wf(),
        r == trigger_outcome(old(coordinator).held(), old(store).records(), parsed_i32(project_id@), parsed_i32(jobset_id@), now),
        r is Ok ==> final(store).records() == old(store).records().update(
            index_of(old(store).records(), parsed_i32(jobset_id@)->0),
            r->Ok_0,
        ),
        r is Ok ==> final(coordinator).held() == old(coordinator).held().insert(parsed_i32(jobset_id@)->0),
        r is Err ==> final(store).records() == old(store).records(),
        r is Err ==> final(coordinator).held() == old(coordinator).held(),
{
    let pid = match parse_i32(project_id) {
        None => {
            return Err(ScheduleError::InvalidInput);
        },
        Some(p) => p,
    };
    let jid = match parse_i32(jobset_id) {
        None => {
            return Err(ScheduleError::InvalidInput);
        },
        Some(j) => j,
    };
    let current = match store.get_jobset(jid) {
        None => {
            return Err(ScheduleError::InvalidInput);
        },
        Some(j) => j,
    };
    if current.project_id != Some(pid) {
        return Err(ScheduleError::InvalidInput);
    }
    let m = coordinator.begin_schedule(&current, now)?;
    let persisted = store.update_jobset(m.duplicate()).is_ok();
    proof {
        assert(persisted);
    }
    let _flake = coordinator.marker_written(&m, persisted)?;
    Ok(m)
}

/// Closes the attempt marked by `m` with the evaluator's result: the record
/// that closes it is stored, the jobset is released, and the built targets are
/// returned, or why there are none.
pub fn complete_jobset(coordinator: &mut Coordinator, store: &mut MemoryStore, m: &Jobset, result: EvaluationResult) -> (r: Result<Vec<BuildTarget>, ScheduleError>)
    requires
        old(store).wf(),
        m.id is Some,
    ensures
        final(store).wf(),
        has_id(old(store).records(), m.id->0) ==> final(store).records() == old(store).records().update(
            index_of(old(store).records(), m.id->0),
            finished(*m, result.failure is None, result.duration),
        ),
        !has_id(old(store).records(), m.id->0) ==> final(store).records() == old(store).records(),
        final(coordinator).held() == old(coordinator).held().remove(m.id->0),
        match (r, final_outcome(result, has_id(old(store).records(), m.id->0))) {
            (Ok(v), Ok(s)) => v@ == s,
            (Err(e), Err(d)) => e == d,
            _ => false,
        },
{
    let f = finish_evaluation(m, &result);
    let persisted = store.update_jobset(f.duplicate()).is_ok();
    coordinator.record_written(&f, result, persisted)
}

} // verus!
