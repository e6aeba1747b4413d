//! Jobset records and the invariant that every stored record keeps.
use vstd::prelude::*;

verus! {

/// Where a jobset stands in its evaluation cycle.
#[allow(non_camel_case_types)]
#[derive(Clone, Copy, Debug, PartialEq, Eq, Structural)]
pub enum JobsetState {
    UNKNOWN,
    QUEUED,
    EVALUATING,
    SUCCEEDED,
    FAILED,
}

impl JobsetState {
    /// The state's name as it is shown to users.
    pub fn to_string(&self) -> (r: String)
        ensures
            r@ == state_name(*self),
    {
        match self {
            JobsetState::UNKNOWN => String::from_str("UNKNOWN"),
            JobsetState::QUEUED => String::from_str("QUEUED"),
            JobsetState::EVALUATING => String::from_str("EVALUATING"),
            JobsetState::SUCCEEDED => String::from_str("SUCCEEDED"),
            JobsetState::FAILED => String::from_str("FAILED"),
        }
    }
}

pub open spec fn state_name(s: JobsetState) -> Seq<char> {
    match s {
        JobsetState::UNKNOWN => "UNKNOWN"@,
        JobsetState::QUEUED => "QUEUED"@,
        JobsetState::EVALUATING => "EVALUATING"@,
        JobsetState::SUCCEEDED => "SUCCEEDED"@,
        JobsetState::FAILED => "FAILED"@,
    }
}

/// A named, schedulable unit of a project.
///
/// Timestamps are seconds since the Unix epoch; `evaluation_took` is a
/// duration in seconds.
#[derive(Clone, Debug, PartialEq, Eq)]
pub struct Jobset {
    pub id: Option<i32>,
    pub project_id: Option<i32>,
    pub name: String,
    pub description: String,
    pub flake: String,
    pub last_checked: Option<i64>,
    pub last_evaluated: Option<i64>,
    pub evaluation_took: Option<u64>,
    pub state: Option<JobsetState>,
}

/// The state a record is in, an absent state counting as `UNKNOWN`.
pub open spec fn state_of(j: Jobset) -> JobsetState {
    match j.state {
        Some(s) => s,
        None => JobsetState::UNKNOWN,
    }
}

pub open spec fn is_evaluating(j: Jobset) -> bool {
    state_of(j) == JobsetState::EVALUATING
}

/// The last successful evaluation is never later than the last attempt.
pub open spec fn evaluated_not_after_checked(j: Jobset) -> bool {
    match (j.last_evaluated, j.last_checked) {
        (Some(e), Some(c)) => e <= c,
        _ => true,
    }
}

/// A duration is recorded exactly when an attempt has been recorded; an attempt
/// that is still running has its start recorded but possibly no duration yet.
pub open spec fn duration_matches_attempt(j: Jobset) -> bool {
    if is_evaluating(j) {
        j.last_checked.is_some()
    } else {
        j.evaluation_took.is_some() == j.last_checked.is_some()
    }
}

/// The invariant of every record the coordinator writes.
pub open spec fn jobset_wf(j: Jobset) -> bool {
    &&& evaluated_not_after_checked(j)
    &&& duration_matches_attempt(j)
    &&& j.last_evaluated.is_some() ==> j.last_checked.is_some()
}

impl Jobset {
    /// A fresh record, never evaluated.
    pub fn new(id: Option<i32>, project_id: Option<i32>, name: String, description: String, flake: String) -> (r: Jobset)
        ensures
            r.id == id,
            r.project_id == project_id,
            r.name == name,
            r.description == description,
            r.flake == flake,
            r.last_checked is None,
            r.last_evaluated is None,
            r.evaluation_took is None,
            r.state == Some(JobsetState::UNKNOWN),
            jobset_wf(r),
    {
        Jobset {
            id,
            project_id,
            name,
            description,
            flake,
            last_checked: None,
            last_evaluated: None,
            evaluation_took: None,
            state: Some(JobsetState::UNKNOWN),
        }
    }

    /// A field-for-field copy.
    pub fn duplicate(&self) -> (r: Jobset)
        ensures
            r == *self,
    {
        Jobset {
            id: self.id,
            project_id: self.project_id,
            name: self.name.clone(),
            description: self.description.clone(),
            flake: self.flake.clone(),
            last_checked: self.last_checked,
            last_evaluated: self.last_evaluated,
            evaluation_took: self.evaluation_took,
            state: self.state,
        }
    }
}

} // verus!
