//! The status algebra: how each composite node folds an ordered sequence of
//! child statuses into its own status. These spec functions are the
//! mathematical model that [`crate::tree::eval`] and the contracts of
//! [`crate::tree::BTNode::tick`] are stated over; the lemmas here pin down
//! the folds' characteristic properties.

use vstd::prelude::*;

use crate::status::BTStatus;
use crate::status::ParallelMode;

verus! {

/// The status of a `Sequence` node whose children would return `ss`, in
/// order: the first non-`Success` status decides, and a child list exhausted
/// with every result `Success` yields `Success` (vacuously so when empty).
pub open spec fn sequence_fold(ss: Seq<BTStatus>) -> BTStatus
    decreases ss.len(),
{
    if ss.len() == 0 {
        BTStatus::Success
    } else if ss[0] == BTStatus::Success {
        sequence_fold(ss.subrange(1, ss.len() as int))
    } else {
        ss[0]
    }
}

/// The status of a `Selector` node whose children would return `ss`, in
/// order: the first non-`Failure` status decides, and a child list exhausted
/// with every result `Failure` yields `Failure` (vacuously so when empty).
pub open spec fn selector_fold(ss: Seq<BTStatus>) -> BTStatus
    decreases ss.len(),
{
    if ss.len() == 0 {
        BTStatus::Failure
    } else if ss[0] == BTStatus::Failure {
        selector_fold(ss.subrange(1, ss.len() as int))
    } else {
        ss[0]
    }
}

/// How many statuses in `ss` equal `s`.
pub open spec fn count_status(ss: Seq<BTStatus>, s: BTStatus) -> nat
    decreases ss.len(),
{
    if ss.len() == 0 {
        0
    } else {
        count_status(ss.subrange(0, ss.len() - 1), s) + if ss[ss.len() - 1] == s {
            1nat
        } else {
            0nat
        }
    }
}

/// The verdict a `Parallel` node reaches once every child has been ticked:
/// `AllSuccess` demands as many successes as children, `AnySuccess` at least
/// one; otherwise any failure decides, and a child list that produced
/// neither the required successes nor a failure (only possible when it is
/// empty) falls back to `Running`.
pub open spec fn parallel_verdict(
    mode: ParallelMode,
    successes: nat,
    failures: nat,
    total: nat,
) -> BTStatus {
    if mode == ParallelMode::AllSuccess && successes == total {
        BTStatus::Success
    } else if mode == ParallelMode::AnySuccess && successes > 0 {
        BTStatus::Success
    } else if failures > 0 {
        BTStatus::Failure
    } else {
        BTStatus::Running
    }
}

/// The status of a `Parallel` node whose children would return `ss`: a
/// `Running` child preempts everything (the scan stops at the first one),
/// and otherwise the verdict is reached from the success and failure counts.
pub open spec fn parallel_fold(mode: ParallelMode, ss: Seq<BTStatus>) -> BTStatus {
    if ss.contains(BTStatus::Running) {
        BTStatus::Running
    } else {
        parallel_verdict(
            mode,
            count_status(ss, BTStatus::Success),
            count_status(ss, BTStatus::Failure),
            ss.len(),
        )
    }
}

/// A sequence of children that all succeed folds to `Success`.
pub proof fn lemma_sequence_fold_all_success(ss: Seq<BTStatus>)
    requires
        forall|j: int| 0 <= j < ss.len() ==> ss[j] == BTStatus::Success,
    ensures
        sequence_fold(ss) == BTStatus::Success,
    decreases ss.len(),
{
    if ss.len() > 0 {
        lemma_sequence_fold_all_success(ss.subrange(1, ss.len() as int));
    }
}

/// The first non-`Success` status in a sequence fold decides the result, and
/// the statuses after it are irrelevant: the fold equals the fold of the
/// prefix that ends at the deciding status.
pub proof fn lemma_sequence_fold_first_decides(ss: Seq<BTStatus>, k: int)
    requires
        0 <= k < ss.len(),
        ss[k] != BTStatus::Success,
        forall|j: int| 0 <= j < k ==> ss[j] == BTStatus::Success,
    ensures
        sequence_fold(ss) == ss[k],
        sequence_fold(ss) == sequence_fold(ss.take(k + 1)),
    decreases ss.len(),
{
    if k > 0 {
        lemma_sequence_fold_first_decides(ss.subrange(1, ss.len() as int), k - 1);
    }
    if k + 1 == ss.len() {
        assert(ss.take(k + 1) =~= ss);
    } else {
        lemma_sequence_fold_first_decides(ss.take(k + 1), k);
    }
}

/// A sequence of children that all fail folds a selector to `Failure`.
pub proof fn lemma_selector_fold_all_failure(ss: Seq<BTStatus>)
    requires
        forall|j: int| 0 <= j < ss.len() ==> ss[j] == BTStatus::Failure,
    ensures
        selector_fold(ss) == BTStatus::Failure,
    decreases ss.len(),
{
    if ss.len() > 0 {
        lemma_selector_fold_all_failure(ss.subrange(1, ss.len() as int));
    }
}

/// The first non-`Failure` status in a selector fold decides the result, and
/// the statuses after it are irrelevant.
pub proof fn lemma_selector_fold_first_decides(ss: Seq<BTStatus>, k: int)
    requires
        0 <= k < ss.len(),
        ss[k] != BTStatus::Failure,
        forall|j: int| 0 <= j < k ==> ss[j] == BTStatus::Failure,
    ensures
        selector_fold(ss) == ss[k],
        selector_fold(ss) == selector_fold(ss.take(k + 1)),
    decreases ss.len(),
{
    if k > 0 {
        lemma_selector_fold_first_decides(ss.subrange(1, ss.len() as int), k - 1);
    }
    if k + 1 == ss.len() {
        assert(ss.take(k + 1) =~= ss);
    } else {
        lemma_selector_fold_first_decides(ss.take(k + 1), k);
    }
}

/// Counting one more status extends the count of a prefix by whether that
/// status matches.
pub proof fn lemma_count_take_step(ss: Seq<BTStatus>, s: BTStatus, i: int)
    requires
        0 <= i < ss.len(),
    ensures
        count_status(ss.take(i + 1), s) == count_status(ss.take(i), s) + if ss[i] == s {
            1nat
        } else {
            0nat
        },
{
    assert(ss.take(i + 1).subrange(0, i) =~= ss.take(i));
    assert(ss.take(i + 1)[i] == ss[i]);
}

/// A count never exceeds the length counted over.
pub proof fn lemma_count_le_len(ss: Seq<BTStatus>, s: BTStatus)
    ensures
        count_status(ss, s) <= ss.len(),
    decreases ss.len(),
{
    if ss.len() > 0 {
        lemma_count_le_len(ss.subrange(0, ss.len() - 1), s);
    }
}

/// The count of `s` reaches the full length exactly when every status is `s`.
pub proof fn lemma_count_all(ss: Seq<BTStatus>, s: BTStatus)
    ensures
        count_status(ss, s) == ss.len() <==> (forall|j: int| 0 <= j < ss.len() ==> ss[j] == s),
    decreases ss.len(),
{
    if ss.len() > 0 {
        let prefix = ss.subrange(0, ss.len() - 1);
        lemma_count_all(prefix, s);
        lemma_count_le_len(prefix, s);
        if count_status(ss, s) == ss.len() {
            assert(count_status(prefix, s) == prefix.len());
            assert forall|j: int| 0 <= j < ss.len() implies ss[j] == s by {
                if j < ss.len() - 1 {
                    assert(prefix[j] == s);
                }
            }
        }
        if forall|j: int| 0 <= j < ss.len() ==> ss[j] == s {
            assert forall|j: int| 0 <= j < prefix.len() implies prefix[j] == s by {
                assert(prefix[j] == ss[j]);
            }
            assert(count_status(prefix, s) == prefix.len());
            assert(ss[ss.len() - 1] == s);
        }
    }
}

/// The count of `s` is positive exactly when some status is `s`.
pub proof fn lemma_count_pos(ss: Seq<BTStatus>, s: BTStatus)
    ensures
        count_status(ss, s) > 0 <==> ss.contains(s),
    decreases ss.len(),
{
    if ss.len() > 0 {
        let prefix = ss.subrange(0, ss.len() - 1);
        lemma_count_pos(prefix, s);
        if count_status(prefix, s) > 0 {
            let j = choose|j: int| 0 <= j < prefix.len() && prefix[j] == s;
            assert(ss[j] == s);
        }
        if ss.contains(s) {
            let j = choose|j: int| 0 <= j < ss.len() && ss[j] == s;
            if j < ss.len() - 1 {
                assert(prefix[j] == s);
            }
        }
    }
}

/// The characteristic property of `AllSuccess` aggregation: `Success`
/// exactly when every child status is `Success`, and `Failure` exactly when
/// some child status is `Failure` and none is `Running`.
pub proof fn lemma_parallel_fold_all_success(ss: Seq<BTStatus>)
    ensures
        parallel_fold(ParallelMode::AllSuccess, ss) == BTStatus::Success <==> (forall|j: int|
            0 <= j < ss.len() ==> ss[j] == BTStatus::Success),
        parallel_fold(ParallelMode::AllSuccess, ss) == BTStatus::Failure <==> ((exists|j: int|
            0 <= j < ss.len() && ss[j] == BTStatus::Failure) && (forall|j: int|
            0 <= j < ss.len() ==> ss[j] != BTStatus::Running)),
{
    lemma_count_all(ss, BTStatus::Success);
    lemma_count_le_len(ss, BTStatus::Success);
    lemma_count_pos(ss, BTStatus::Failure);
    lemma_count_pos(ss, BTStatus::Running);
}

/// The characteristic property of `AnySuccess` aggregation: `Success`
/// exactly when some child status is `Success` and none is `Running`, and
/// `Failure` exactly when the children are non-empty and all fail.
pub proof fn lemma_parallel_fold_any_success(ss: Seq<BTStatus>)
    ensures
        parallel_fold(ParallelMode::AnySuccess, ss) == BTStatus::Success <==> ((exists|j: int|
            0 <= j < ss.len() && ss[j] == BTStatus::Success) && (forall|j: int|
            0 <= j < ss.len() ==> ss[j] != BTStatus::Running)),
        parallel_fold(ParallelMode::AnySuccess, ss) == BTStatus::Failure <==> (ss.len() > 0
            && forall|j: int| 0 <= j < ss.len() ==> ss[j] == BTStatus::Failure),
{
    lemma_count_pos(ss, BTStatus::Success);
    lemma_count_pos(ss, BTStatus::Failure);
    lemma_count_pos(ss, BTStatus::Running);
}

/// The explicit verdict on an empty child list: vacuous `Success` under
/// `AllSuccess`, and the `Running` fallback under `AnySuccess`, which can
/// find neither a success nor a failure.
pub proof fn lemma_parallel_fold_empty()
    ensures
        parallel_fold(ParallelMode::AllSuccess, Seq::<BTStatus>::empty()) == BTStatus::Success,
        parallel_fold(ParallelMode::AnySuccess, Seq::<BTStatus>::empty()) == BTStatus::Running,
{
    assert(!Seq::<BTStatus>::empty().contains(BTStatus::Running));
}

} // verus!
