use vstd::prelude::*;

verus! {

/// The outcome of ticking a node, leaf or composite: the whole signaling
/// vocabulary of the evaluator. `Failure` is a normal outcome, not an error;
/// `Running` means the subtree has not finished and the caller should tick
/// the same tree again.
#[derive(Clone, Copy, Debug, PartialEq, Eq, Structural)]
pub enum BTStatus {
    Success,
    Failure,
    Running,
}

/// How a `Parallel` node aggregates its children's statuses: succeed only if
/// every child succeeds, or as soon as at least one child succeeds. Fixed at
/// construction.
#[derive(Clone, Copy, Debug, PartialEq, Eq, Structural)]
pub enum ParallelMode {
    AllSuccess,
    AnySuccess,
}

} // verus!
