//! The periodic driver's choice of which jobsets to evaluate.
use vstd::prelude::*;

use crate::model::Jobset;

verus! {

/// A jobset is due at `now` when it has never been checked, or when its last
/// check is older than `interval` seconds.
pub open spec fn is_due(j: Jobset, now: i64, interval: i64) -> bool {
    match j.last_checked {
        None => true,
        Some(c) => now as int - c as int > interval as int,
    }
}

/// The ids of the due jobsets among `s`, in order; records without an id are
/// left out.
pub open spec fn due_ids(s: Seq<Jobset>, now: i64, interval: i64) -> Seq<i32>
    decreases s.len(),
{
    if s.len() == 0 {
        Seq::empty()
    } else {
        let rest = due_ids(s.drop_last(), now, interval);
        match s.last().id {
            Some(id) => if is_due(s.last(), now, interval) { rest.push(id) } else { rest },
            None => rest,
        }
    }
}

/// The ids of the jobsets among `jobsets` that are due for evaluation at `now`.
pub fn due_jobsets(jobsets: &Vec<Jobset>, now: i64, interval: i64) -> (r: Vec<i32>)
    ensures
        r@ == due_ids(jobsets@, now, interval),
{
    let mut r: Vec<i32> = Vec::new();
    let mut i: usize = 0;
    while i < jobsets.len()
        invariant
            i <= jobsets@.len(),
            r@ == due_ids(jobsets@.take(i as int), now, interval),
        decreases jobsets@.len() - i,
    {
        let j = &jobsets[i];
        proof {
            assert(jobsets@.take(i + 1).drop_last() =~= jobsets@.take(i as int));
            assert(jobsets@.take(i + 1).last() == *j);
        }
        let due = match j.last_checked {
            None => true,
            Some(c) => (now as i128) - (c as i128) > interval as i128,
        };
        if let Some(id) = j.id {
            if due {
                r.push(id);
            }
        }
        i = i + 1;
    }
    proof {
        assert(jobsets@.take(i as int) =~= jobsets@);
    }
    r
}

} // verus!
