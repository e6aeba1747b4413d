use jobsets::coordinator::{finish_evaluation, Coordinator, ScheduleError};
use jobsets::dates::convert_date_to_string;
use jobsets::evaluator_output::{evaluation_result, parse_output, split_bytes};
use jobsets::model::{Jobset, JobsetState};
use jobsets::routes::{complete_jobset, get_jobset, get_jobsets, trigger_jobset};
use jobsets::runner::{BuildTarget, EvaluationResult, TargetOutcome};
use jobsets::scheduler::due_jobsets;
use jobsets::store::{MemoryStore, StoreError};

fn store_with(projects: &[i32]) -> MemoryStore {
    let mut store = MemoryStore::new();
    for (k, p) in projects.iter().enumerate() {
        let id = store.create(
            *p,
            format!("jobset{}", k + 1),
            String::from("a jobset"),
            String::from("git+https://example.org/config"),
        );
        assert_eq!(id, Some(k as i32 + 1));
    }
    store
}

fn stored(store: &MemoryStore, id: i32) -> Jobset {
    store.get_jobset(id).expect("stored jobset")
}

#[test]
fn fresh_jobset_succeeds_with_three_targets() {
    let mut store = store_with(&[1]);
    let mut coordinator = Coordinator::new();
    let fresh = stored(&store, 1);
    assert_eq!(fresh.state, Some(JobsetState::UNKNOWN));
    assert_eq!(fresh.last_checked, None);

    let m = trigger_jobset(&mut coordinator, &mut store, "1", "1", 1000).expect("started");
    assert_eq!(m.state, Some(JobsetState::EVALUATING));
    assert_eq!(m.last_checked, Some(1000));
    assert_eq!(stored(&store, 1), m);
    assert!(coordinator.is_held(1));

    let out = b"a\tok\t/store/a.drv\nb\tok\t/store/b.drv\nc\tok\t/store/c.drv\n".to_vec();
    let result = evaluation_result(None, &out, 12);
    assert!(result.failure.is_none());
    let targets = complete_jobset(&mut coordinator, &mut store, &m, result).expect("succeeded");
    assert_eq!(targets.len(), 3);
    assert_eq!(targets[0], BuildTarget { attr: b"a".to_vec(), output: b"/store/a.drv".to_vec() });
    assert_eq!(targets[2].attr, b"c".to_vec());

    let done = stored(&store, 1);
    assert_eq!(done.state, Some(JobsetState::SUCCEEDED));
    assert_eq!(done.last_checked, Some(1000));
    assert_eq!(done.last_evaluated, Some(1000));
    assert_eq!(done.evaluation_took, Some(12));
    assert!(done.evaluation_took.unwrap() > 0);
    assert!(!coordinator.is_held(1));
}

#[test]
fn second_trigger_while_evaluating_is_already_running() {
    let mut store = store_with(&[1]);
    let mut coordinator = Coordinator::new();
    let m = trigger_jobset(&mut coordinator, &mut store, "1", "1", 1000).expect("started");
    let before = stored(&store, 1);
    let second = trigger_jobset(&mut coordinator, &mut store, "1", "1", 2000);
    assert_eq!(second, Err(ScheduleError::AlreadyRunning));
    assert_eq!(stored(&store, 1), before);
    assert_eq!(before, m);
}

#[test]
fn persisted_marker_alone_refuses_a_second_evaluation() {
    let mut store = store_with(&[1]);
    let mut first = Coordinator::new();
    trigger_jobset(&mut first, &mut store, "1", "1", 1000).expect("started");
    let before = stored(&store, 1);
    let mut restarted = Coordinator::new();
    let second = trigger_jobset(&mut restarted, &mut store, "1", "1", 3000);
    assert_eq!(second, Err(ScheduleError::AlreadyRunning));
    assert_eq!(stored(&store, 1), before);
    assert_eq!(before.last_checked, Some(1000));
    assert_eq!(before.last_evaluated, None);
    assert_eq!(before.evaluation_took, None);
    assert!(!restarted.is_held(1));
}

#[test]
fn evaluator_that_cannot_start_fails_the_jobset() {
    let mut store = store_with(&[1]);
    let mut coordinator = Coordinator::new();
    let m = trigger_jobset(&mut coordinator, &mut store, "1", "1", 1500).expect("started");
    assert_eq!(stored(&store, 1).state, Some(JobsetState::EVALUATING));
    let result = evaluation_result(Some(String::from("no such program")), &Vec::new(), 3);
    assert!(result.targets.is_empty());
    let outcome = complete_jobset(&mut coordinator, &mut store, &m, result);
    assert_eq!(outcome, Err(ScheduleError::EvaluatorFailure(String::from("no such program"))));
    let done = stored(&store, 1);
    assert_eq!(done.state, Some(JobsetState::FAILED));
    assert_eq!(done.last_checked, Some(1500));
    assert_eq!(done.last_evaluated, None);
    assert_eq!(done.evaluation_took, Some(3));
}

#[test]
fn one_malformed_target_of_two_still_succeeds() {
    let mut store = store_with(&[1]);
    let mut coordinator = Coordinator::new();
    let m = trigger_jobset(&mut coordinator, &mut store, "1", "1", 100).expect("started");
    let out = b"good\tok\t/store/good.drv\nthis line is not a record\n".to_vec();
    let result = evaluation_result(None, &out, 4);
    assert!(result.failure.is_none());
    assert_eq!(result.targets.len(), 2);
    assert_eq!(
        result.targets[1],
        TargetOutcome::Malformed { record: b"this line is not a record".to_vec() }
    );
    let targets = complete_jobset(&mut coordinator, &mut store, &m, result).expect("succeeded");
    assert_eq!(targets.len(), 1);
    assert_eq!(targets[0].attr, b"good".to_vec());
    assert_eq!(stored(&store, 1).state, Some(JobsetState::SUCCEEDED));
}

#[test]
fn failed_marker_write_never_reaches_the_evaluator() {
    let store = store_with(&[1]);
    let mut coordinator = Coordinator::new();
    let j = stored(&store, 1);
    let m = coordinator.begin_schedule(&j, 50).expect("granted");
    assert!(coordinator.is_held(1));
    let next = coordinator.marker_written(&m, false);
    assert_eq!(next, Err(ScheduleError::PersistenceFailure));
    assert!(!coordinator.is_held(1));
    assert_eq!(stored(&store, 1), j);
}

#[test]
fn written_marker_hands_out_the_flake() {
    let store = store_with(&[1]);
    let mut coordinator = Coordinator::new();
    let m = coordinator.begin_schedule(&stored(&store, 1), 50).expect("granted");
    let flake = coordinator.marker_written(&m, true).expect("written");
    assert_eq!(flake, "git+https://example.org/config");
    assert!(coordinator.is_held(1));
}

#[test]
fn final_write_failure_is_reported_and_releases() {
    let mut store = store_with(&[1]);
    let mut coordinator = Coordinator::new();
    let j = stored(&store, 1);
    let m = coordinator.begin_schedule(&j, 50).expect("granted");
    let result = EvaluationResult { targets: Vec::new(), duration: 1, failure: None };
    let f = finish_evaluation(&m, &result);
    let outcome = coordinator.record_written(&f, result, false);
    assert_eq!(outcome, Err(ScheduleError::PersistenceFailure));
    assert!(!coordinator.is_held(1));
    let missing = store.update_jobset(Jobset::new(Some(9), Some(1), String::new(), String::new(), String::new()));
    assert_eq!(missing, Err(StoreError::NotFound));
}

#[test]
fn timestamps_stay_ordered_over_attempts() {
    let mut store = store_with(&[1]);
    let mut coordinator = Coordinator::new();
    let m = trigger_jobset(&mut coordinator, &mut store, "1", "1", 1000).expect("started");
    let ok = evaluation_result(None, &b"x\tok\t/o\n".to_vec(), 2);
    complete_jobset(&mut coordinator, &mut store, &m, ok).expect("succeeded");
    let m = trigger_jobset(&mut coordinator, &mut store, "1", "1", 2000).expect("started");
    assert_eq!(m.last_checked, Some(2000));
    assert_eq!(m.last_evaluated, Some(1000));
    assert_eq!(m.evaluation_took, Some(2));
    let failed = evaluation_result(Some(String::from("timed out")), &Vec::new(), 7);
    let _ = complete_jobset(&mut coordinator, &mut store, &m, failed);
    let done = stored(&store, 1);
    assert_eq!(done.state, Some(JobsetState::FAILED));
    assert_eq!(done.last_checked, Some(2000));
    assert_eq!(done.last_evaluated, Some(1000));
    assert!(done.last_evaluated.unwrap() <= done.last_checked.unwrap());
    assert_eq!(done.evaluation_took, Some(7));
}

#[test]
fn clock_stepping_back_keeps_last_checked() {
    let mut store = store_with(&[1]);
    let mut coordinator = Coordinator::new();
    let m = trigger_jobset(&mut coordinator, &mut store, "1", "1", 1000).expect("started");
    let ok = evaluation_result(None, &b"x\tok\t/o\n".to_vec(), 2);
    complete_jobset(&mut coordinator, &mut store, &m, ok).expect("succeeded");
    let m = trigger_jobset(&mut coordinator, &mut store, "1", "1", 400).expect("started");
    assert_eq!(m.last_checked, Some(1000));
}

#[test]
fn duration_present_exactly_when_checked_after_attempt() {
    let mut store = store_with(&[1]);
    let mut coordinator = Coordinator::new();
    let fresh = stored(&store, 1);
    assert_eq!(fresh.evaluation_took.is_some(), fresh.last_checked.is_some());
    let m = trigger_jobset(&mut coordinator, &mut store, "1", "1", 10).expect("started");
    let r = evaluation_result(None, &b"x\terror\tboom\n".to_vec(), 1);
    complete_jobset(&mut coordinator, &mut store, &m, r).expect("succeeded");
    let done = stored(&store, 1);
    assert_eq!(done.evaluation_took.is_some(), done.last_checked.is_some());
}

#[test]
fn invalid_identifiers_are_invalid_input() {
    let mut store = store_with(&[1]);
    let mut coordinator = Coordinator::new();
    assert_eq!(get_jobsets(&store, "abc"), Err(ScheduleError::InvalidInput));
    assert_eq!(get_jobsets(&store, ""), Err(ScheduleError::InvalidInput));
    assert_eq!(get_jobset(&store, " 1"), Err(ScheduleError::InvalidInput));
    assert_eq!(get_jobset(&store, "2147483648"), Err(ScheduleError::InvalidInput));
    assert_eq!(get_jobset(&store, "-"), Err(ScheduleError::InvalidInput));
    assert_eq!(trigger_jobset(&mut coordinator, &mut store, "x", "1", 5), Err(ScheduleError::InvalidInput));
    assert_eq!(trigger_jobset(&mut coordinator, &mut store, "1", "7", 5), Err(ScheduleError::InvalidInput));
    assert_eq!(trigger_jobset(&mut coordinator, &mut store, "2", "1", 5), Err(ScheduleError::InvalidInput));
    assert_eq!(stored(&store, 1).state, Some(JobsetState::UNKNOWN));
    assert!(!coordinator.is_held(1));
}

#[test]
fn record_without_id_is_invalid_input() {
    let mut coordinator = Coordinator::new();
    let j = Jobset::new(None, Some(1), String::new(), String::new(), String::new());
    assert_eq!(coordinator.begin_schedule(&j, 1), Err(ScheduleError::InvalidInput));
}

#[test]
fn signed_identifiers_parse() {
    let store = store_with(&[1, 1]);
    assert_eq!(get_jobset(&store, "+2").unwrap().unwrap().id, Some(2));
    assert_eq!(get_jobset(&store, "-1"), Ok(None));
    assert_eq!(get_jobset(&store, "01").unwrap().unwrap().id, Some(1));
}

#[test]
fn project_jobsets_in_id_order() {
    let store = store_with(&[1, 2, 1, 1]);
    let js = get_jobsets(&store, "1").expect("listed");
    let ids: Vec<Option<i32>> = js.iter().map(|j| j.id).collect();
    assert_eq!(ids, vec![Some(1), Some(3), Some(4)]);
    assert_eq!(get_jobsets(&store, "5").expect("listed").len(), 0);
    assert_eq!(get_jobset(&store, "3").unwrap().unwrap().name, "jobset3");
    assert_eq!(get_jobset(&store, "9"), Ok(None));
}

#[test]
fn output_records_are_read_in_order() {
    let out = b"a\tok\t/a\n\nb\terror\tattribute missing\n\tok\t/c\nd\tok\t\ne\tbad\tx\nf\tok\t/f\textra".to_vec();
    let ts = parse_output(&out);
    assert_eq!(ts.len(), 6);
    assert_eq!(ts[0], TargetOutcome::Built(BuildTarget { attr: b"a".to_vec(), output: b"/a".to_vec() }));
    assert_eq!(
        ts[1],
        TargetOutcome::Failed { attr: b"b".to_vec(), error: b"attribute missing".to_vec() }
    );
    assert_eq!(ts[2], TargetOutcome::Malformed { record: b"\tok\t/c".to_vec() });
    assert_eq!(ts[3], TargetOutcome::Malformed { record: b"d\tok\t".to_vec() });
    assert_eq!(ts[4], TargetOutcome::Malformed { record: b"e\tbad\tx".to_vec() });
    assert_eq!(ts[5], TargetOutcome::Malformed { record: b"f\tok\t/f\textra".to_vec() });
}

#[test]
fn output_without_readable_record_fails() {
    let r = evaluation_result(None, &b"garbage\n".to_vec(), 9);
    assert_eq!(r.failure, Some(String::from("the evaluator produced no readable record")));
    assert_eq!(r.duration, 9);
    let empty = evaluation_result(None, &Vec::new(), 1);
    assert!(empty.failure.is_some());
    assert!(empty.targets.is_empty());
}

#[test]
fn split_keeps_empty_pieces() {
    let parts = split_bytes(&b"a\t\tb\t".to_vec(), 9);
    assert_eq!(parts, vec![b"a".to_vec(), Vec::new(), b"b".to_vec(), Vec::new()]);
    assert_eq!(split_bytes(&Vec::new(), 9), vec![Vec::<u8>::new()]);
}

#[test]
fn dates_are_shown_in_rfc3339() {
    assert_eq!(convert_date_to_string(None), "never");
    assert_eq!(convert_date_to_string(Some(0)), "1970-01-01T00:00:00+00:00");
    assert_eq!(convert_date_to_string(Some(86_461)), "1970-01-02T00:01:01+00:00");
    assert_eq!(convert_date_to_string(Some(i64::MAX)), "out of range");
}

#[test]
fn due_jobsets_are_unchecked_or_stale() {
    let mut a = Jobset::new(Some(1), Some(1), String::new(), String::new(), String::new());
    let mut b = a.clone();
    b.id = Some(2);
    b.last_checked = Some(899);
    let mut c = a.clone();
    c.id = Some(3);
    c.last_checked = Some(900);
    let d = Jobset::new(None, Some(1), String::new(), String::new(), String::new());
    a.last_checked = None;
    assert_eq!(due_jobsets(&vec![a.clone(), b.clone(), c.clone(), d], 1000, 100), vec![1, 2]);
    let mut e = a;
    e.last_checked = Some(i64::MIN);
    assert_eq!(due_jobsets(&vec![e], i64::MAX, i64::MAX), vec![1]);
}

#[test]
fn state_names() {
    assert_eq!(JobsetState::UNKNOWN.to_string(), "UNKNOWN");
    assert_eq!(JobsetState::EVALUATING.to_string(), "EVALUATING");
    assert_eq!(JobsetState::FAILED.to_string(), "FAILED");
    assert_eq!(JobsetState::SUCCEEDED.to_string(), "SUCCEEDED");
    assert_eq!(JobsetState::QUEUED.to_string(), "QUEUED");
}

#[test]
fn store_ids_ascend_from_one() {
    let mut store = MemoryStore::new();
    assert_eq!(store.create(4, String::from("x"), String::new(), String::new()), Some(1));
    assert_eq!(store.create(4, String::from("y"), String::new(), String::new()), Some(2));
    assert_eq!(store.get_project_jobsets(4).len(), 2);
}
