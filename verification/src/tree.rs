//! The behavior tree itself: the node variants, the capability interface for
//! leaf behaviors, the pure evaluation model `eval`, and the executable
//! `tick` whose postcondition ties the two together.

use vstd::prelude::*;

use crate::algebra::count_status;
use crate::algebra::lemma_count_take_step;
use crate::algebra::lemma_selector_fold_all_failure;
use crate::algebra::lemma_selector_fold_first_decides;
use crate::algebra::lemma_sequence_fold_all_success;
use crate::algebra::lemma_sequence_fold_first_decides;
use crate::algebra::parallel_fold;
use crate::algebra::selector_fold;
use crate::algebra::sequence_fold;
use crate::status::BTStatus;
use crate::status::ParallelMode;
use vstd::pervasive::unreached;

verus! {

/// A zero-argument leaf behavior: any callable capability that yields a
/// status when run. `spec_status` is the status the behavior stands for;
/// `run` must return exactly that status, so a verified tree evaluates to a
/// pure function of its shape and its behaviors.
pub trait Behavior {
    /// The status this behavior yields, as a mathematical value.
    spec fn spec_status(&self) -> BTStatus;

    /// Run the behavior once.
    fn run(&self) -> (status: BTStatus)
        ensures
            status == self.spec_status(),
    ;
}

/// The simplest behavior: a status stands for itself. A leaf built directly
/// from a `BTStatus` returns that status on every tick.
impl Behavior for BTStatus {
    open spec fn spec_status(&self) -> BTStatus {
        *self
    }

    fn run(&self) -> (status: BTStatus) {
        *self
    }
}

/// A node of a behavior tree over leaf behaviors of type `B`. Composite
/// nodes exclusively own their children, whose order is significant: it is
/// the evaluation and short-circuit order. Leaves hold a behavior and no
/// children.
pub enum BTNode<B> {
    /// Ticks children in order; the first non-`Success` child decides.
    Sequence(Vec<BTNode<B>>),
    /// Ticks children in order; the first non-`Failure` child decides.
    Selector(Vec<BTNode<B>>),
    /// Ticks every child, stopping only at a `Running` child, then reaches a
    /// verdict from the success and failure counts according to the mode.
    Parallel(ParallelMode, Vec<BTNode<B>>),
    /// A leaf that runs its behavior and returns the result verbatim.
    Action(B),
    /// A leaf identical in semantics to `Action`; by convention a condition
    /// is a query that is not expected to return `Running`, though nothing
    /// here enforces that.
    Condition(B),
}

/// The children of a node, in evaluation order; a leaf has none.
pub open spec fn children_of<B>(n: BTNode<B>) -> Seq<BTNode<B>> {
    match n {
        BTNode::Sequence(cs) => cs@,
        BTNode::Selector(cs) => cs@,
        BTNode::Parallel(_, cs) => cs@,
        BTNode::Action(_) => Seq::empty(),
        BTNode::Condition(_) => Seq::empty(),
    }
}

/// The statuses a sequence of sibling nodes evaluates to, pointwise and in
/// order.
pub open spec fn child_statuses<B: Behavior>(cs: Seq<BTNode<B>>) -> Seq<BTStatus>
    decreases cs,
{
    if cs.len() == 0 {
        Seq::empty()
    } else {
        child_statuses(cs.subrange(0, cs.len() - 1)).push(eval(cs[cs.len() - 1]))
    }
}

/// The status a node evaluates to: a leaf yields its behavior's status, and
/// a composite folds its children's statuses according to its combinator
/// rule.
pub open spec fn eval<B: Behavior>(n: BTNode<B>) -> BTStatus
    decreases n,
{
    match n {
        BTNode::Sequence(cs) => sequence_fold(child_statuses(cs@)),
        BTNode::Selector(cs) => selector_fold(child_statuses(cs@)),
        BTNode::Parallel(mode, cs) => parallel_fold(mode, child_statuses(cs@)),
        BTNode::Action(b) => b.spec_status(),
        BTNode::Condition(b) => b.spec_status(),
    }
}

impl<B: Behavior> BTNode<B> {
    /// Tick the node once: recursively tick children in order and fold their
    /// statuses according to this node's combinator rule. There is no
    /// failure mode distinct from returning a status, and the returned
    /// status is exactly the pure evaluation `eval` of the tree, so repeated
    /// ticks of the same tree return the same status.
    #[verifier::loop_isolation(false)]
    pub fn tick(&self) -> (status: BTStatus)
        ensures
            status == eval(*self),
        decreases *self, 1int,
    {
        match self {
            BTNode::Sequence(nodes) => {
                let ghost ss = child_statuses(nodes@);
                proof {
                    lemma_child_statuses_pointwise(nodes@);
                }
                let mut i: usize = 0;
                while i < nodes.len()
                    invariant
                        i <= nodes.len(),
                        forall|j: int| 0 <= j < i ==> ss[j] == BTStatus::Success,
                    decreases nodes.len() - i,
                {
                    proof {
                        assert(decreases_to!(*self => nodes@[i as int])) by {
                            assert(*nodes == self->Sequence_0);
                            assert(decreases_to!(*self => self->Sequence_0));
                            assert(decreases_to!(*nodes => nodes@));
                            assert(decreases_to!(nodes@ => nodes@[i as int]));
                        }
                    }
                    let s = nodes[i].tick();
                    match s {
                        BTStatus::Success => {
                            i = i + 1;
                        },
                        BTStatus::Failure => {
                            proof {
                                lemma_sequence_fold_first_decides(ss, i as int);
                            }
                            return BTStatus::Failure;
                        },
                        BTStatus::Running => {
                            proof {
                                lemma_sequence_fold_first_decides(ss, i as int);
                            }
                            return BTStatus::Running;
                        },
                    }
                }
                proof {
                    lemma_sequence_fold_all_success(ss);
                }
                BTStatus::Success
            },
            BTNode::Selector(nodes) => {
                let ghost ss = child_statuses(nodes@);
                proof {
                    lemma_child_statuses_pointwise(nodes@);
                }
                let mut i: usize = 0;
                while i < nodes.len()
                    invariant
                        i <= nodes.len(),
                        forall|j: int| 0 <= j < i ==> ss[j] == BTStatus::Failure,
                    decreases nodes.len() - i,
                {
                    proof {
                        assert(decreases_to!(*self => nodes@[i as int])) by {
                            assert(*nodes == self->Selector_0);
                            assert(decreases_to!(*self => self->Selector_0));
                            assert(decreases_to!(*nodes => nodes@));
                            assert(decreases_to!(nodes@ => nodes@[i as int]));
                        }
                    }
                    let s = nodes[i].tick();
                    match s {
                        BTStatus::Failure => {
                            i = i + 1;
                        },
                        BTStatus::Success => {
                            proof {
                                lemma_selector_fold_first_decides(ss, i as int);
                            }
                            return BTStatus::Success;
                        },
                        BTStatus::Running => {
                            proof {
                                lemma_selector_fold_first_decides(ss, i as int);
                            }
                            return BTStatus::Running;
                        },
                    }
                }
                proof {
                    lemma_selector_fold_all_failure(ss);
                }
                BTStatus::Failure
            },
            BTNode::Parallel(_, _) => self.tick_parallel(),
            BTNode::Action(behavior) => behavior.run(),
            BTNode::Condition(behavior) => behavior.run(),
        }
    }

    /// Tick a `Parallel` node: tick every child (no short-circuit on an
    /// individual success or failure), stopping the scan only at a child
    /// that returns `Running`, then reach the verdict from the success and
    /// failure counts according to the mode.
    #[verifier::loop_isolation(false)]
    fn tick_parallel(&self) -> (status: BTStatus)
        requires
            self is Parallel,
        ensures
            status == eval(*self),
        decreases *self, 0int,
    {
        match self {
            BTNode::Parallel(mode, nodes) => {
                let ghost ss = child_statuses(nodes@);
                proof {
                    lemma_child_statuses_pointwise(nodes@);
                }
                let mut success_count: usize = 0;
                let mut failure_count: usize = 0;
                let mut i: usize = 0;
                while i < nodes.len()
                    invariant
                        i <= nodes.len(),
                        forall|j: int| 0 <= j < i ==> ss[j] != BTStatus::Running,
                        success_count == count_status(ss.take(i as int), BTStatus::Success),
                        failure_count == count_status(ss.take(i as int), BTStatus::Failure),
                        success_count + failure_count == i,
                    decreases nodes.len() - i,
                {
                    proof {
                        assert(decreases_to!(*self => nodes@[i as int])) by {
                            assert(*nodes == self->Parallel_1);
                            assert(decreases_to!(*self => self->Parallel_1));
                            assert(decreases_to!(*nodes => nodes@));
                            assert(decreases_to!(nodes@ => nodes@[i as int]));
                        }
                    }
                    let s = nodes[i].tick();
                    proof {
                        lemma_count_take_step(ss, BTStatus::Success, i as int);
                        lemma_count_take_step(ss, BTStatus::Failure, i as int);
                    }
                    match s {
                        BTStatus::Success => {
                            success_count = success_count + 1;
                        },
                        BTStatus::Failure => {
                            failure_count = failure_count + 1;
                        },
                        BTStatus::Running => {
                            proof {
                                assert(ss.contains(BTStatus::Running)) by {
                                    assert(ss[i as int] == BTStatus::Running);
                                }
                            }
                            return BTStatus::Running;
                        },
                    }
                    i = i + 1;
                }
                proof {
                    assert(ss.take(i as int) =~= ss);
                    assert(!ss.contains(BTStatus::Running));
                }
                match mode {
                    ParallelMode::AllSuccess => {
                        if success_count == nodes.len() {
                            BTStatus::Success
                        } else if failure_count > 0 {
                            BTStatus::Failure
                        } else {
                            BTStatus::Running
                        }
                    },
                    ParallelMode::AnySuccess => {
                        if success_count > 0 {
                            BTStatus::Success
                        } else if failure_count > 0 {
                            BTStatus::Failure
                        } else {
                            BTStatus::Running
                        }
                    },
                }
            },
            _ => unreached(),
        }
    }
}

/// `child_statuses` is the pointwise image of `eval` over the siblings.
pub proof fn lemma_child_statuses_pointwise<B: Behavior>(cs: Seq<BTNode<B>>)
    ensures
        child_statuses(cs).len() == cs.len(),
        forall|j: int| 0 <= j < cs.len() ==> child_statuses(cs)[j] == eval(cs[j]),
    decreases cs.len(),
{
    if cs.len() > 0 {
        lemma_child_statuses_pointwise(cs.subrange(0, cs.len() - 1));
    }
}

} // verus!
