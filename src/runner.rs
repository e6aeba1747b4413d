//! Evaluation results: what one run of the configuration evaluator produced.
use vstd::prelude::*;

verus! {

/// One discovered build target: its attribute path and the identifier of its
/// build output.
#[derive(Clone, Debug, PartialEq, Eq)]
pub struct BuildTarget {
    pub attr: Vec<u8>,
    pub output: Vec<u8>,
}

/// What became of one target of an evaluation.
#[derive(Clone, Debug, PartialEq, Eq)]
pub enum TargetOutcome {
    Built(BuildTarget),
    Failed { attr: Vec<u8>, error: Vec<u8> },
    /// A record that could not be read; it is kept as it was.
    Malformed { record: Vec<u8> },
}

/// What a target outcome holds, as byte sequences.
pub enum TargetView {
    Built(Seq<u8>, Seq<u8>),
    Failed(Seq<u8>, Seq<u8>),
    Malformed(Seq<u8>),
}

pub open spec fn target_view(t: TargetOutcome) -> TargetView {
    match t {
        TargetOutcome::Built(b) => TargetView::Built(b.attr@, b.output@),
        TargetOutcome::Failed { attr, error } => TargetView::Failed(attr@, error@),
        TargetOutcome::Malformed { record } => TargetView::Malformed(record@),
    }
}

pub open spec fn target_views(ts: Seq<TargetOutcome>) -> Seq<TargetView> {
    ts.map_values(|t: TargetOutcome| target_view(t))
}

/// The outcome of one evaluation: the per-target outcomes in the order the
/// evaluator reported them, how long it took, and, when the evaluator as a
/// whole failed, why.
#[derive(Clone, Debug)]
pub struct EvaluationResult {
    pub targets: Vec<TargetOutcome>,
    pub duration: u64,
    pub failure: Option<String>,
}

/// The targets that are handed on to be built: the built ones, in order.
pub open spec fn built_targets(ts: Seq<TargetOutcome>) -> Seq<BuildTarget>
    decreases ts.len(),
{
    if ts.len() == 0 {
        Seq::empty()
    } else {
        let rest = built_targets(ts.drop_last());
        match ts.last() {
            TargetOutcome::Built(b) => rest.push(b),
            _ => rest,
        }
    }
}

/// Moves the built targets out of an evaluation's outcomes, keeping their order.
pub fn take_built_targets(targets: Vec<TargetOutcome>) -> (r: Vec<BuildTarget>)
    ensures
        r@ == built_targets(targets@),
{
    let mut r: Vec<BuildTarget> = Vec::new();
    let mut rest = targets;
    let ghost orig = targets@;
    let ghost n = targets@.len();
    while rest.len() > 0
        invariant
            rest@.len() <= n,
            orig.len() == n,
            rest@ == orig.subrange(n - rest@.len(), n as int),
            r@ == built_targets(orig.take(n - rest@.len())),
        decreases rest.len(),
    {
        let ghost i = n - rest@.len();
        let t = rest.remove(0);
        assert(orig.take(i + 1).drop_last() =~= orig.take(i));
        assert(orig.take(i + 1).last() == t);
        assert(rest@ =~= orig.subrange(i + 1, n as int));
        match t {
            TargetOutcome::Built(b) => {
                r.push(b);
            },
            _ => {},
        }
    }
    assert(orig.take(n as int) =~= orig);
    r
}

} // verus!
