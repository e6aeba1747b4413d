//! The scheduling state machine: decides each step of an evaluation of a
//! jobset, and keeps the table of jobsets whose evaluation is in flight.
//!
//! One evaluation goes through four steps, each a method here; the caller
//! performs the work between them (writing a record, running the evaluator):
//! `begin_schedule` gives the record that marks the attempt, `marker_written`
//! is told whether that record was persisted and gives the flake reference to
//! evaluate, `finish_evaluation` gives the record that closes the attempt, and
//! `record_written` is told whether that record was persisted and gives the
//! outcome.
use vstd::prelude::*;

use crate::model::{is_evaluating, jobset_wf, Jobset, JobsetState};
use crate::runner::{built_targets, take_built_targets, BuildTarget, EvaluationResult};

verus! {

/// Every outcome of a request to the coordinator other than success.
#[derive(Clone, Debug, PartialEq, Eq)]
pub enum ScheduleError {
    /// A malformed identifier, or a jobset that does not exist.
    InvalidInput,
    /// An evaluation of the jobset is already in flight.
    AlreadyRunning,
    /// The evaluator could not run or produced nothing usable; its error text.
    EvaluatorFailure(String),
    /// The store refused or could not take a write.
    PersistenceFailure,
}

/// The time recorded for an attempt started at `now`: never earlier than the
/// attempt recorded before it.
pub open spec fn attempt_time(j: Jobset, now: i64) -> i64 {
    match j.last_checked {
        Some(c) => if c > now { c } else { now },
        None => now,
    }
}

/// The record that marks an attempt started at `now` as in flight.
pub open spec fn marked(j: Jobset, now: i64) -> Jobset {
    Jobset {
        state: Some(JobsetState::EVALUATING),
        last_checked: Some(attempt_time(j, now)),
        ..j
    }
}

/// The record that closes an attempt: on success the attempt's time becomes the
/// time of the last evaluation; on failure that time is kept.
pub open spec fn finished(j: Jobset, succeeded: bool, duration: u64) -> Jobset {
    if succeeded {
        Jobset {
            state: Some(JobsetState::SUCCEEDED),
            last_evaluated: j.last_checked,
            evaluation_took: Some(duration),
            ..j
        }
    } else {
        Jobset { state: Some(JobsetState::FAILED), evaluation_took: Some(duration), ..j }
    }
}

/// What a request to schedule `j` at `now` gives, with `held` the jobsets
/// whose evaluation is in flight.
pub open spec fn begin_outcome(held: Set<i32>, j: Jobset, now: i64) -> Result<Jobset, ScheduleError> {
    match j.id {
        None => Err(ScheduleError::InvalidInput),
        Some(id) => if held.contains(id) || is_evaluating(j) {
            Err(ScheduleError::AlreadyRunning)
        } else {
            Ok(marked(j, now))
        },
    }
}

/// What the last step of an evaluation reports.
pub open spec fn final_outcome(result: EvaluationResult, persisted: bool) -> Result<Seq<BuildTarget>, ScheduleError> {
    if !persisted {
        Err(ScheduleError::PersistenceFailure)
    } else {
        match result.failure {
            Some(m) => Err(ScheduleError::EvaluatorFailure(m)),
            None => Ok(built_targets(result.targets@)),
        }
    }
}

proof fn lemma_push_contains(s: Seq<i32>, a: i32, y: i32)
    ensures
        s.push(a).contains(y) <==> (s.contains(y) || y == a),
{
    if s.contains(y) {
        let k = choose|k: int| 0 <= k < s.len() && s[k] == y;
        assert(s.push(a)[k] == y);
    }
    if y == a {
        assert(s.push(a)[s.len() as int] == y);
    }
    if s.push(a).contains(y) {
        let k = choose|k: int| 0 <= k < s.push(a).len() && s.push(a)[k] == y;
        if k < s.len() {
            assert(s[k] == y);
        }
    }
}

/// The table of jobsets whose evaluation is in flight in this process.
pub struct Coordinator {
    in_flight: Vec<i32>,
}

impl Coordinator {
    /// The jobsets whose evaluation is in flight.
    pub closed spec fn held(&self) -> Set<i32> {
        Set::new(|x: i32| self.in_flight@.contains(x))
    }

    pub fn new() -> (r: Coordinator)
        ensures
            r.held() == Set::<i32>::empty(),
    {
        let r = Coordinator { in_flight: Vec::new() };
        proof {
            assert(r.held() =~= Set::<i32>::empty());
        }
        r
    }

    /// Whether an evaluation of jobset `id` is in flight.
    pub fn is_held(&self, id: i32) -> (r: bool)
        ensures
            r == self.held().contains(id),
    {
        let mut i: usize = 0;
        while i < self.in_flight.len()
            invariant
                i <= self.in_flight@.len(),
                forall|k: int| 0 <= k < i ==> self.in_flight@[k] != id,
            decreases self.in_flight@.len() - i,
        {
            if self.in_flight[i] == id {
                proof {
                    assert(self.in_flight@.contains(id));
                }
                return true;
            }
            i = i + 1;
        }
        proof {
            assert(!self.in_flight@.contains(id));
        }
        false
    }

    fn release(&mut self, id: i32)
        ensures
            final(self).held() == old(self).held().remove(id),
    {
        let mut kept: Vec<i32> = Vec::new();
        let mut i: usize = 0;
        while i < self.in_flight.len()
            invariant
                i <= self.in_flight@.len(),
                forall|x: i32| kept@.contains(x) <==> (self.in_flight@.take(i as int).contains(x) && x != id),
            decreases self.in_flight@.len() - i,
        {
            let x = self.in_flight[i];
            proof {
                assert(self.in_flight@.take(i + 1) =~= self.in_flight@.take(i as int).push(x));
            }
            proof {
                assert forall|y: i32| #[trigger] self.in_flight@.take(i + 1).contains(y)
                    <==> (self.in_flight@.take(i as int).contains(y) || y == x) by {
                    lemma_push_contains(self.in_flight@.take(i as int), x, y);
                }
            }
            let ghost kept_before = kept@;
            if x != id {
                kept.push(x);
                proof {
                    assert forall|y: i32| #[trigger] kept@.contains(y) <==> (kept_before.contains(y) || y == x) by {
                        lemma_push_contains(kept_before, x, y);
                    }
                }
            }
            i = i + 1;
        }
        proof {
            assert(self.in_flight@.take(i as int) =~= self.in_flight@);
        }
        let ghost before = self.in_flight@;
        self.in_flight = kept;
        proof {
            assert(self.held() =~= old(self).held().remove(id));
        }
    }

    /// Decides a request to evaluate the jobset whose persisted record is `j`,
    /// at time `now`.
    ///
    /// A record without an id is invalid input. A jobset that is persisted as
    /// `EVALUATING`, or whose evaluation this coordinator holds in flight, is
    /// already running: nothing changes. Otherwise the jobset is held in flight
    /// and the result is the record to persist, marked `EVALUATING` with the
    /// attempt's time as `last_checked`.
    pub fn begin_schedule(&mut self, j: &Jobset, now: i64) -> (r: Result<Jobset, ScheduleError>)
        ensures
            r == begin_outcome(old(self).held(), *j, now),
            r is Ok ==> final(self).held() == old(self).held().insert(j.id->0),
            r is Err ==> final(self).held() == old(self).held(),
    {
        let id = match j.id {
            None => {
                return Err(ScheduleError::InvalidInput);
            },
            Some(id) => id,
        };
        let evaluating = match j.state {
            Some(JobsetState::EVALUATING) => true,
            _ => false,
        };
        if evaluating || self.is_held(id) {
            return Err(ScheduleError::AlreadyRunning);
        }
        let attempt = match j.last_checked {
            Some(c) => if c > now { c } else { now },
            None => now,
        };
        let mut m = j.duplicate();
        m.state = Some(JobsetState::EVALUATING);
        m.last_checked = Some(attempt);
        let ghost before = self.in_flight@;
        self.in_flight.push(id);
        proof {
            assert forall|y: i32| #[trigger] self.in_flight@.contains(y) <==> (before.contains(y) || y == id) by {
                lemma_push_contains(before, id, y);
            }
            assert(self.held() =~= old(self).held().insert(id));
        }
        Ok(m)
    }

    /// Told whether the record that marks the attempt was persisted. If it
    /// was, the attempt goes on and the result is the flake reference to
    /// evaluate; if not, the jobset is released and no evaluation starts.
    pub fn marker_written(&mut self, m: &Jobset, persisted: bool) -> (r: Result<String, ScheduleError>)
        requires
            m.id is Some,
        ensures
            persisted ==> r == Ok::<String, ScheduleError>(m.flake) && final(self).held() == old(self).held(),
            !persisted ==> r == Err::<String, ScheduleError>(ScheduleError::PersistenceFailure)
                && final(self).held() == old(self).held().remove(m.id->0),
    {
        if persisted {
            Ok(m.flake.clone())
        } else {
            self.release(m.id.unwrap());
            Err(ScheduleError::PersistenceFailure)
        }
    }

    /// Told whether the record that closes the attempt was persisted; releases
    /// the jobset. The result is the built targets to hand on, or why there
    /// are none.
    pub fn record_written(&mut self, f: &Jobset, result: EvaluationResult, persisted: bool) -> (r: Result<Vec<BuildTarget>, ScheduleError>)
        requires
            f.id is Some,
        ensures
            final(self).held() == old(self).held().remove(f.id->0),
            match (r, final_outcome(result, persisted)) {
                (Ok(v), Ok(s)) => v@ == s,
                (Err(e), Err(d)) => e == d,
                _ => false,
            },
    {
        self.release(f.id.unwrap());
        if !persisted {
            return Err(ScheduleError::PersistenceFailure);
        }
        match result.failure {
            Some(m) => Err(ScheduleError::EvaluatorFailure(m)),
            None => Ok(take_built_targets(result.targets)),
        }
    }
}

/// The record that closes the attempt marked by `m`, from the evaluation's
/// result: `SUCCEEDED` with the attempt's time as `last_evaluated`, or
/// `FAILED` with `last_evaluated` kept; the duration is recorded either way.
pub fn finish_evaluation(m: &Jobset, result: &EvaluationResult) -> (r: Jobset)
    ensures
        r == finished(*m, result.failure is None, result.duration),
{
    let mut r = m.duplicate();
    match result.failure {
        None => {
            r.state = Some(JobsetState::SUCCEEDED);
            r.last_evaluated = m.last_checked;
        },
        Some(_) => {
            r.state = Some(JobsetState::FAILED);
        },
    }
    r.evaluation_took = Some(result.duration);
    r
}

} // verus!
