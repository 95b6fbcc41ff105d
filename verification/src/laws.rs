//! The laws of the evaluator, stated over the children of a node and the
//! pure evaluation model [`crate::tree::eval`] — the same spec function that
//! the postcondition of [`crate::tree::BTNode::tick`] pins its result to.
//! Each law holds for every tree and every assignment of leaf behaviors.

use vstd::prelude::*;

use crate::algebra::lemma_parallel_fold_all_success;
use crate::algebra::lemma_parallel_fold_any_success;
use crate::algebra::lemma_parallel_fold_empty;
use crate::algebra::lemma_selector_fold_all_failure;
use crate::algebra::lemma_selector_fold_first_decides;
use crate::algebra::lemma_sequence_fold_all_success;
use crate::algebra::lemma_sequence_fold_first_decides;
use crate::algebra::sequence_fold;
use crate::algebra::selector_fold;
use crate::status::BTStatus;
use crate::status::ParallelMode;
use crate::tree::child_statuses;
use crate::tree::children_of;
use crate::tree::eval;
use crate::tree::lemma_child_statuses_pointwise;
use crate::tree::BTNode;
use crate::tree::Behavior;

verus! {

/// Law: a `Sequence` node whose children all evaluate to `Success` evaluates
/// to `Success` (vacuously so with no children).
pub proof fn lemma_sequence_all_success<B: Behavior>(n: BTNode<B>)
    requires
        n is Sequence,
        forall|j: int| 0 <= j < children_of(n).len() ==> #[trigger] eval(children_of(n)[j])
            == BTStatus::Success,
    ensures
        eval(n) == BTStatus::Success,
{
    let cs = children_of(n);
    let ss = child_statuses(cs);
    lemma_child_statuses_pointwise(cs);
    assert forall|j: int| 0 <= j < ss.len() implies ss[j] == BTStatus::Success by {
        assert(eval(cs[j]) == BTStatus::Success);
    }
    lemma_sequence_fold_all_success(ss);
}

/// Law: the first child (in order) of a `Sequence` node that does not
/// evaluate to `Success` decides the node's status, and the children after
/// it are irrelevant: the node evaluates to the fold of the child statuses
/// that end at the deciding child.
pub proof fn lemma_sequence_first_decides<B: Behavior>(n: BTNode<B>, k: int)
    requires
        n is Sequence,
        0 <= k < children_of(n).len(),
        eval(children_of(n)[k]) != BTStatus::Success,
        forall|j: int| 0 <= j < k ==> #[trigger] eval(children_of(n)[j]) == BTStatus::Success,
    ensures
        eval(n) == eval(children_of(n)[k]),
        eval(n) == sequence_fold(child_statuses(children_of(n)).take(k + 1)),
{
    let cs = children_of(n);
    let ss = child_statuses(cs);
    lemma_child_statuses_pointwise(cs);
    assert forall|j: int| 0 <= j < k implies ss[j] == BTStatus::Success by {
        assert(eval(cs[j]) == BTStatus::Success);
    }
    lemma_sequence_fold_first_decides(ss, k);
}

/// Law: a `Selector` node whose children all evaluate to `Failure` evaluates
/// to `Failure` (vacuously so with no children).
pub proof fn lemma_selector_all_failure<B: Behavior>(n: BTNode<B>)
    requires
        n is Selector,
        forall|j: int| 0 <= j < children_of(n).len() ==> #[trigger] eval(children_of(n)[j])
            == BTStatus::Failure,
    ensures
        eval(n) == BTStatus::Failure,
{
    let cs = children_of(n);
    let ss = child_statuses(cs);
    lemma_child_statuses_pointwise(cs);
    assert forall|j: int| 0 <= j < ss.len() implies ss[j] == BTStatus::Failure by {
        assert(eval(cs[j]) == BTStatus::Failure);
    }
    lemma_selector_fold_all_failure(ss);
}

/// Law: the first child (in order) of a `Selector` node that does not
/// evaluate to `Failure` decides the node's status, and the children after
/// it are irrelevant.
pub proof fn lemma_selector_first_decides<B: Behavior>(n: BTNode<B>, k: int)
    requires
        n is Selector,
        0 <= k < children_of(n).len(),
        eval(children_of(n)[k]) != BTStatus::Failure,
        forall|j: int| 0 <= j < k ==> #[trigger] eval(children_of(n)[j]) == BTStatus::Failure,
    ensures
        eval(n) == eval(children_of(n)[k]),
        eval(n) == selector_fold(child_statuses(children_of(n)).take(k + 1)),
{
    let cs = children_of(n);
    let ss = child_statuses(cs);
    lemma_child_statuses_pointwise(cs);
    assert forall|j: int| 0 <= j < k implies ss[j] == BTStatus::Failure by {
        assert(eval(cs[j]) == BTStatus::Failure);
    }
    lemma_selector_fold_first_decides(ss, k);
}

/// Law: a `Parallel` node under `AllSuccess` evaluates to `Success` exactly
/// when every child evaluates to `Success`, and to `Failure` exactly when
/// some child evaluates to `Failure` and none to `Running`.
pub proof fn lemma_parallel_all_success<B: Behavior>(n: BTNode<B>)
    requires
        n is Parallel,
        n->Parallel_0 == ParallelMode::AllSuccess,
    ensures
        eval(n) == BTStatus::Success <==> (forall|j: int|
            0 <= j < children_of(n).len() ==> #[trigger] eval(children_of(n)[j])
                == BTStatus::Success),
        eval(n) == BTStatus::Failure <==> ((exists|j: int|
            0 <= j < children_of(n).len() && #[trigger] eval(children_of(n)[j])
                == BTStatus::Failure) && (forall|j: int|
            0 <= j < children_of(n).len() ==> #[trigger] eval(children_of(n)[j])
                != BTStatus::Running)),
{
    let cs = children_of(n);
    let ss = child_statuses(cs);
    lemma_child_statuses_pointwise(cs);
    lemma_parallel_fold_all_success(ss);
    if eval(n) == BTStatus::Success {
        assert forall|j: int| 0 <= j < cs.len() implies #[trigger] eval(cs[j])
            == BTStatus::Success by {
            assert(ss[j] == BTStatus::Success);
        }
    }
    if forall|j: int| 0 <= j < cs.len() ==> #[trigger] eval(cs[j]) == BTStatus::Success {
        assert forall|j: int| 0 <= j < ss.len() implies ss[j] == BTStatus::Success by {
            assert(eval(cs[j]) == BTStatus::Success);
        }
        assert(eval(n) == BTStatus::Success);
    }
    if eval(n) == BTStatus::Failure {
        let j0 = choose|j: int| 0 <= j < ss.len() && ss[j] == BTStatus::Failure;
        assert(eval(cs[j0]) == BTStatus::Failure);
        assert forall|j: int| 0 <= j < cs.len() implies #[trigger] eval(cs[j])
            != BTStatus::Running by {
            assert(ss[j] != BTStatus::Running);
        }
    }
    if (exists|j: int| 0 <= j < cs.len() && #[trigger] eval(cs[j]) == BTStatus::Failure) && (
    forall|j: int| 0 <= j < cs.len() ==> #[trigger] eval(cs[j]) != BTStatus::Running) {
        let j0 = choose|j: int| 0 <= j < cs.len() && eval(cs[j]) == BTStatus::Failure;
        assert(ss[j0] == BTStatus::Failure);
        assert forall|j: int| 0 <= j < ss.len() implies ss[j] != BTStatus::Running by {
            assert(eval(cs[j]) != BTStatus::Running);
        }
        assert(eval(n) == BTStatus::Failure);
    }
}

/// Law: a `Parallel` node under `AnySuccess` evaluates to `Success` exactly
/// when some child evaluates to `Success` and none to `Running`, and to
/// `Failure` exactly when it has children and all of them evaluate to
/// `Failure`.
pub proof fn lemma_parallel_any_success<B: Behavior>(n: BTNode<B>)
    requires
        n is Parallel,
        n->Parallel_0 == ParallelMode::AnySuccess,
    ensures
        eval(n) == BTStatus::Success <==> ((exists|j: int|
            0 <= j < children_of(n).len() && #[trigger] eval(children_of(n)[j])
                == BTStatus::Success) && (forall|j: int|
            0 <= j < children_of(n).len() ==> #[trigger] eval(children_of(n)[j])
                != BTStatus::Running)),
        eval(n) == BTStatus::Failure <==> (children_of(n).len() > 0 && forall|j: int|
            0 <= j < children_of(n).len() ==> #[trigger] eval(children_of(n)[j])
                == BTStatus::Failure),
{
    let cs = children_of(n);
    let ss = child_statuses(cs);
    lemma_child_statuses_pointwise(cs);
    lemma_parallel_fold_any_success(ss);
    if eval(n) == BTStatus::Success {
        let j0 = choose|j: int| 0 <= j < ss.len() && ss[j] == BTStatus::Success;
        assert(eval(cs[j0]) == BTStatus::Success);
        assert forall|j: int| 0 <= j < cs.len() implies #[trigger] eval(cs[j])
            != BTStatus::Running by {
            assert(ss[j] != BTStatus::Running);
        }
    }
    if (exists|j: int| 0 <= j < cs.len() && #[trigger] eval(cs[j]) == BTStatus::Success) && (
    forall|j: int| 0 <= j < cs.len() ==> #[trigger] eval(cs[j]) != BTStatus::Running) {
        let j0 = choose|j: int| 0 <= j < cs.len() && eval(cs[j]) == BTStatus::Success;
        assert(ss[j0] == BTStatus::Success);
        assert forall|j: int| 0 <= j < ss.len() implies ss[j] != BTStatus::Running by {
            assert(eval(cs[j]) != BTStatus::Running);
        }
        assert(eval(n) == BTStatus::Success);
    }
    if eval(n) == BTStatus::Failure {
        assert forall|j: int| 0 <= j < cs.len() implies #[trigger] eval(cs[j])
            == BTStatus::Failure by {
            assert(ss[j] == BTStatus::Failure);
        }
    }
    if children_of(n).len() > 0 && (forall|j: int|
        0 <= j < children_of(n).len() ==> #[trigger] eval(children_of(n)[j])
            == BTStatus::Failure) {
        assert forall|j: int| 0 <= j < ss.len() implies ss[j] == BTStatus::Failure by {
            assert(eval(cs[j]) == BTStatus::Failure);
        }
        assert(eval(n) == BTStatus::Failure);
    }
}

/// Law: the empty-children edge case of `Parallel` is defined deliberately:
/// under `AllSuccess` the node vacuously succeeds, while under `AnySuccess`
/// it finds neither a success nor a failure and falls back to `Running`.
pub proof fn lemma_parallel_empty<B: Behavior>(n: BTNode<B>)
    requires
        n is Parallel,
        children_of(n).len() == 0,
    ensures
        n->Parallel_0 == ParallelMode::AllSuccess ==> eval(n) == BTStatus::Success,
        n->Parallel_0 == ParallelMode::AnySuccess ==> eval(n) == BTStatus::Running,
{
    let cs = children_of(n);
    assert(child_statuses(cs) =~= Seq::<BTStatus>::empty());
    lemma_parallel_fold_empty();
}

/// Law: ticking is deterministic. `tick` never alters the tree (it takes the
/// node by shared reference), and its postcondition pins the returned status
/// to `eval` of the tree, so any two statuses returned for the same tree —
/// in particular by repeated ticks — are equal.
pub proof fn lemma_tick_deterministic<B: Behavior>(n: BTNode<B>, r1: BTStatus, r2: BTStatus)
    requires
        r1 == eval(n),
        r2 == eval(n),
    ensures
        r1 == r2,
{
}

} // verus!
