//! The result aggregator: after all clone and pull tasks have finished, their
//! classified outcomes are folded, single-threaded, into five buckets, one
//! per outcome kind, beside the archived-but-local list. Each bucket keeps
//! its outcomes in arrival order, and no bucket is dropped when empty.

use vstd::prelude::*;
use vstd::seq_lib::*;
use crate::git::RemoteRepo;
use crate::outcome::{OperationOutcome, OutcomeKind};

verus! {

/// The outcomes of `outcomes` whose kind is `k`, in their original order.
pub open spec fn bucket_spec(outcomes: Seq<OperationOutcome>, k: OutcomeKind) -> Seq<
    OperationOutcome,
> {
    outcomes.filter(|o: OperationOutcome| o.kind == k)
}

/// The grouped result of one run: one bucket per outcome kind, plus the
/// archived remote repositories that still have a working copy.
pub struct SyncReport {
    pub pull_noop: Vec<OperationOutcome>,
    pub updated: Vec<OperationOutcome>,
    pub cloned: Vec<OperationOutcome>,
    pub clone_errors: Vec<OperationOutcome>,
    pub pull_errors: Vec<OperationOutcome>,
    pub archived: Vec<RemoteRepo>,
}

/// Groups every task's outcome into the bucket of its kind, keeping arrival
/// order within each bucket, and carries the archived list through unchanged.
pub fn aggregate(outcomes: Vec<OperationOutcome>, archived: Vec<RemoteRepo>) -> (r: SyncReport)
    ensures
        r.pull_noop@ == bucket_spec(outcomes@, OutcomeKind::PullNoOp),
        r.updated@ == bucket_spec(outcomes@, OutcomeKind::Updated),
        r.cloned@ == bucket_spec(outcomes@, OutcomeKind::Cloned),
        r.clone_errors@ == bucket_spec(outcomes@, OutcomeKind::CloneError),
        r.pull_errors@ == bucket_spec(outcomes@, OutcomeKind::PullError),
        r.archived@ == archived@,
{
    let ghost p_noop = |o: OperationOutcome| o.kind == OutcomeKind::PullNoOp;
    let ghost p_updated = |o: OperationOutcome| o.kind == OutcomeKind::Updated;
    let ghost p_cloned = |o: OperationOutcome| o.kind == OutcomeKind::Cloned;
    let ghost p_cerr = |o: OperationOutcome| o.kind == OutcomeKind::CloneError;
    let ghost p_perr = |o: OperationOutcome| o.kind == OutcomeKind::PullError;
    let mut pull_noop: Vec<OperationOutcome> = Vec::new();
    let mut updated: Vec<OperationOutcome> = Vec::new();
    let mut cloned: Vec<OperationOutcome> = Vec::new();
    let mut clone_errors: Vec<OperationOutcome> = Vec::new();
    let mut pull_errors: Vec<OperationOutcome> = Vec::new();
    let mut i: usize = 0;
    while i < outcomes.len()
        invariant
            i <= outcomes@.len(),
            p_noop == (|o: OperationOutcome| o.kind == OutcomeKind::PullNoOp),
            p_updated == (|o: OperationOutcome| o.kind == OutcomeKind::Updated),
            p_cloned == (|o: OperationOutcome| o.kind == OutcomeKind::Cloned),
            p_cerr == (|o: OperationOutcome| o.kind == OutcomeKind::CloneError),
            p_perr == (|o: OperationOutcome| o.kind == OutcomeKind::PullError),
            pull_noop@ == outcomes@.take(i as int).filter(p_noop),
            updated@ == outcomes@.take(i as int).filter(p_updated),
            cloned@ == outcomes@.take(i as int).filter(p_cloned),
            clone_errors@ == outcomes@.take(i as int).filter(p_cerr),
            pull_errors@ == outcomes@.take(i as int).filter(p_perr),
        decreases outcomes@.len() - i,
    {
        proof {
            assert(outcomes@.take(i + 1) =~= outcomes@.take(i as int) + seq![
                outcomes@[i as int],
            ]);
            let single = seq![outcomes@[i as int]];
            Seq::filter_distributes_over_add(outcomes@.take(i as int), single, p_noop);
            Seq::filter_distributes_over_add(outcomes@.take(i as int), single, p_updated);
            Seq::filter_distributes_over_add(outcomes@.take(i as int), single, p_cloned);
            Seq::filter_distributes_over_add(outcomes@.take(i as int), single, p_cerr);
            Seq::filter_distributes_over_add(outcomes@.take(i as int), single, p_perr);
            reveal_with_fuel(Seq::filter, 2);
            assert(single.drop_last() =~= Seq::<OperationOutcome>::empty());
        }
        let o = outcomes[i].clone();
        match o.kind {
            OutcomeKind::PullNoOp => pull_noop.push(o),
            OutcomeKind::Updated => updated.push(o),
            OutcomeKind::Cloned => cloned.push(o),
            OutcomeKind::CloneError => clone_errors.push(o),
            OutcomeKind::PullError => pull_errors.push(o),
        }
        i = i + 1;
    }
    proof {
        assert(outcomes@.take(i as int) =~= outcomes@);
    }
    SyncReport { pull_noop, updated, cloned, clone_errors, pull_errors, archived }
}

/// Every outcome lands in exactly one bucket: over all five kinds, each
/// outcome is counted once, so the buckets together give back every task's
/// result, nothing dropped and nothing doubled.
pub proof fn lemma_buckets_partition(outcomes: Seq<OperationOutcome>)
    ensures
        bucket_spec(outcomes, OutcomeKind::PullNoOp).len() + bucket_spec(
            outcomes,
            OutcomeKind::Updated,
        ).len() + bucket_spec(outcomes, OutcomeKind::Cloned).len() + bucket_spec(
            outcomes,
            OutcomeKind::CloneError,
        ).len() + bucket_spec(outcomes, OutcomeKind::PullError).len() == outcomes.len(),
    decreases outcomes.len(),
{
    reveal(Seq::filter);
    if outcomes.len() > 0 {
        lemma_buckets_partition(outcomes.drop_last());
    }
}

} // verus!
