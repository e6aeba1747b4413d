//! Reading the evaluator's output.
//!
//! The evaluator writes one record per line. A record has three fields
//! separated by tabs: the target's attribute path (not empty), a tag, and a
//! payload. With the tag `ok` the payload is the identifier of the target's
//! build output (not empty); with the tag `error` it is the evaluator's error
//! message for that target. Empty lines are skipped; any other line is a
//! malformed record, which fails its own target only.
use vstd::prelude::*;

use crate::runner::{target_view, target_views, BuildTarget, EvaluationResult, TargetOutcome, TargetView};

verus! {

pub const TAB: u8 = 9;

pub const NEWLINE: u8 = 10;

/// The pieces of `s` between occurrences of `sep`; there is always one more
/// piece than there are separators.
pub open spec fn split(s: Seq<u8>, sep: u8) -> Seq<Seq<u8>>
    decreases s.len(),
{
    if s.len() == 0 {
        seq![Seq::<u8>::empty()]
    } else {
        let prev = split(s.drop_last(), sep);
        if s.last() == sep {
            prev.push(Seq::<u8>::empty())
        } else {
            prev.update(prev.len() - 1, prev.last().push(s.last()))
        }
    }
}

pub open spec fn tag_ok() -> Seq<u8> {
    seq![111u8, 107u8]
}

pub open spec fn tag_error() -> Seq<u8> {
    seq![101u8, 114u8, 114u8, 111u8, 114u8]
}

/// What one non-empty line of output stands for.
pub open spec fn record_view(line: Seq<u8>) -> TargetView {
    let f = split(line, TAB);
    if f.len() == 3 && f[0].len() > 0 && f[1] == tag_ok() && f[2].len() > 0 {
        TargetView::Built(f[0], f[2])
    } else if f.len() == 3 && f[0].len() > 0 && f[1] == tag_error() {
        TargetView::Failed(f[0], f[2])
    } else {
        TargetView::Malformed(line)
    }
}

/// The targets that the given lines report, in order, empty lines skipped.
pub open spec fn lines_view(lines: Seq<Seq<u8>>) -> Seq<TargetView>
    decreases lines.len(),
{
    if lines.len() == 0 {
        Seq::empty()
    } else {
        let rest = lines_view(lines.drop_last());
        if lines.last().len() == 0 {
            rest
        } else {
            rest.push(record_view(lines.last()))
        }
    }
}

/// The targets that an evaluator's output reports.
pub open spec fn output_view(out: Seq<u8>) -> Seq<TargetView> {
    lines_view(split(out, NEWLINE))
}

/// Whether some target of the output could be read.
pub open spec fn readable(v: TargetView) -> bool {
    !(v is Malformed)
}

pub open spec fn any_readable(vs: Seq<TargetView>) -> bool {
    exists|k: int| 0 <= k < vs.len() && readable(#[trigger] vs[k])
}

/// Splits `s` at every `sep`.
pub fn split_bytes(s: &Vec<u8>, sep: u8) -> (r: Vec<Vec<u8>>)
    ensures
        r@.len() == split(s@, sep).len(),
        forall|k: int| 0 <= k < r@.len() ==> (#[trigger] r@[k])@ == split(s@, sep)[k],
{
    let mut fields: Vec<Vec<u8>> = Vec::new();
    let mut cur: Vec<u8> = Vec::new();
    let mut i: usize = 0;
    while i < s.len()
        invariant
            i <= s@.len(),
            split(s@.take(i as int), sep).len() == fields@.len() + 1,
            forall|k: int| 0 <= k < fields@.len() ==> (#[trigger] fields@[k])@ == split(s@.take(i as int), sep)[k],
            split(s@.take(i as int), sep).last() == cur@,
        decreases s@.len() - i,
    {
        let b = s[i];
        proof {
            assert(s@.take(i + 1).drop_last() =~= s@.take(i as int));
            assert(s@.take(i + 1).last() == b);
        }
        if b == sep {
            fields.push(cur);
            cur = Vec::new();
        } else {
            cur.push(b);
        }
        i = i + 1;
    }
    proof {
        assert(s@.take(s@.len() as int) =~= s@);
    }
    fields.push(cur);
    fields
}

fn is_tag(f: &Vec<u8>, tag: &[u8]) -> (r: bool)
    ensures
        r == (f@ == tag@),
{
    if f.len() != tag.len() {
        return false;
    }
    let mut i: usize = 0;
    while i < f.len()
        invariant
            f@.len() == tag@.len(),
            i <= f@.len(),
            forall|k: int| 0 <= k < i ==> f@[k] == tag@[k],
        decreases f@.len() - i,
    {
        if f[i] != tag[i] {
            return false;
        }
        i = i + 1;
    }
    proof {
        assert(f@ =~= tag@);
    }
    true
}

/// Reads one non-empty line of output.
pub fn parse_record(line: Vec<u8>) -> (r: TargetOutcome)
    ensures
        target_view(r) == record_view(line@),
{
    let mut f = split_bytes(&line, TAB);
    if f.len() == 3 && f[0].len() > 0 {
        let ok: [u8; 2] = [111u8, 107u8];
        let error: [u8; 5] = [101u8, 114u8, 114u8, 111u8, 114u8];
        proof {
            assert(ok@ =~= tag_ok());
            assert(error@ =~= tag_error());
        }
        let is_ok = is_tag(&f[1], &ok);
        let is_error = is_tag(&f[1], &error);
        if is_ok && f[2].len() > 0 {
            let output = f.pop().unwrap();
            let _tag = f.pop().unwrap();
            let attr = f.pop().unwrap();
            return TargetOutcome::Built(BuildTarget { attr, output });
        } else if is_error {
            let error = f.pop().unwrap();
            let _tag = f.pop().unwrap();
            let attr = f.pop().unwrap();
            return TargetOutcome::Failed { attr, error };
        }
    }
    TargetOutcome::Malformed { record: line }
}

/// Reads an evaluator's whole output into its targets, in order.
pub fn parse_output(out: &Vec<u8>) -> (r: Vec<TargetOutcome>)
    ensures
        target_views(r@) == output_view(out@),
{
    let mut lines = split_bytes(out, NEWLINE);
    let ghost ls = split(out@, NEWLINE);
    let ghost n = ls.len();
    let mut r: Vec<TargetOutcome> = Vec::new();
    let ghost mut i: int = 0;
    while lines.len() > 0
        invariant
            lines@.len() == n - i,
            ls.len() == n,
            0 <= i <= n,
            forall|k: int| 0 <= k < lines@.len() ==> (#[trigger] lines@[k])@ == ls[i + k],
            target_views(r@) == lines_view(ls.take(i)),
        decreases lines@.len(),
    {
        let ghost before_lines = lines@;
        let line = lines.remove(0);
        proof {
            assert forall|k: int| 0 <= k < lines@.len() implies (#[trigger] lines@[k])@ == ls[i + 1 + k] by {
                assert(lines@[k] == before_lines[k + 1]);
            }
            assert(before_lines[0]@ == ls[i as int]);
            assert(ls.take(i + 1).drop_last() =~= ls.take(i));
            assert(ls.take(i + 1).last() == line@);
        }
        if line.len() > 0 {
            let t = parse_record(line);
            let ghost before = r@;
            r.push(t);
            proof {
                assert(target_views(r@) =~= target_views(before).push(target_view(t)));
            }
        }
        proof {
            i = i + 1;
        }
    }
    proof {
        assert(ls.take(n as int) =~= ls);
    }
    r
}

/// The message of an evaluation whose output held no readable record.
pub open spec fn no_readable_output() -> Seq<char> {
    "the evaluator produced no readable record"@
}

/// The result of one run of the evaluator, from the error that kept it from
/// running (if any), its output and how long it took.
///
/// A run that could not be made fails with its error and no targets. Otherwise
/// every record of the output gives a target, and the evaluation succeeds
/// exactly when at least one record could be read: targets that failed or
/// could not be read do not fail the others.
pub fn evaluation_result(process_error: Option<String>, out: &Vec<u8>, duration: u64) -> (r: EvaluationResult)
    ensures
        r.duration == duration,
        process_error is Some ==> r.failure == process_error && r.targets@.len() == 0,
        process_error is None ==> target_views(r.targets@) == output_view(out@),
        process_error is None ==> (r.failure is None <==> any_readable(output_view(out@))),
        process_error is None && r.failure is Some ==> r.failure->0@ == no_readable_output(),
{
    if process_error.is_some() {
        return EvaluationResult { targets: Vec::new(), duration, failure: process_error };
    }
    let targets = parse_output(out);
    let ghost vs = target_views(targets@);
    let mut found = false;
    let mut i: usize = 0;
    while i < targets.len()
        invariant
            i <= targets@.len(),
            vs == target_views(targets@),
            found <==> exists|k: int| 0 <= k < i && readable(#[trigger] vs[k]),
        decreases targets@.len() - i,
    {
        let readable_here = match &targets[i] {
            TargetOutcome::Malformed { .. } => false,
            _ => true,
        };
        proof {
            assert(vs[i as int] == target_view(targets@[i as int]));
            if readable_here {
                assert(readable(vs[i as int]));
            }
        }
        found = found || readable_here;
        i = i + 1;
    }
    let failure = if found {
        None
    } else {
        Some(String::from_str("the evaluator produced no readable record"))
    };
    EvaluationResult { targets, duration, failure }
}

} // verus!
