use simple_behavior_tree::BTNode;
use simple_behavior_tree::BTStatus;
use simple_behavior_tree::ParallelMode;

// A leaf built directly from a `BTStatus` returns that status on every tick,
// which makes trees of pure, deterministic behaviors easy to write down.

#[test]
fn sequence_of_successes_succeeds() {
    let tree: BTNode<BTStatus> = BTNode::Sequence(vec![
        BTNode::Condition(BTStatus::Success),
        BTNode::Action(BTStatus::Success),
    ]);
    assert_eq!(tree.tick(), BTStatus::Success);
}

#[test]
fn sequence_fails_on_failed_condition() {
    let tree: BTNode<BTStatus> = BTNode::Sequence(vec![
        BTNode::Condition(BTStatus::Failure),
        BTNode::Action(BTStatus::Success),
    ]);
    assert_eq!(tree.tick(), BTStatus::Failure);
}

#[test]
fn sequence_pauses_on_running_action() {
    let tree: BTNode<BTStatus> = BTNode::Sequence(vec![
        BTNode::Action(BTStatus::Running),
        BTNode::Action(BTStatus::Success),
    ]);
    assert_eq!(tree.tick(), BTStatus::Running);
}

#[test]
fn empty_sequence_succeeds() {
    let tree: BTNode<BTStatus> = BTNode::Sequence(vec![]);
    assert_eq!(tree.tick(), BTStatus::Success);
}

#[test]
fn selector_recovers_with_second_action() {
    let tree: BTNode<BTStatus> = BTNode::Selector(vec![
        BTNode::Action(BTStatus::Failure),
        BTNode::Action(BTStatus::Success),
    ]);
    assert_eq!(tree.tick(), BTStatus::Success);
}

#[test]
fn selector_of_failures_fails() {
    let tree: BTNode<BTStatus> = BTNode::Selector(vec![
        BTNode::Action(BTStatus::Failure),
        BTNode::Condition(BTStatus::Failure),
        BTNode::Action(BTStatus::Failure),
    ]);
    assert_eq!(tree.tick(), BTStatus::Failure);
}

#[test]
fn selector_pauses_on_running_child() {
    let tree: BTNode<BTStatus> = BTNode::Selector(vec![
        BTNode::Action(BTStatus::Failure),
        BTNode::Action(BTStatus::Running),
        BTNode::Action(BTStatus::Success),
    ]);
    assert_eq!(tree.tick(), BTStatus::Running);
}

#[test]
fn empty_selector_fails() {
    let tree: BTNode<BTStatus> = BTNode::Selector(vec![]);
    assert_eq!(tree.tick(), BTStatus::Failure);
}

#[test]
fn parallel_any_success_succeeds() {
    let tree: BTNode<BTStatus> = BTNode::Parallel(
        ParallelMode::AnySuccess,
        vec![
            BTNode::Action(BTStatus::Success),
            BTNode::Action(BTStatus::Failure),
        ],
    );
    assert_eq!(tree.tick(), BTStatus::Success);
}

#[test]
fn parallel_all_success_fails_on_one_failure() {
    let tree: BTNode<BTStatus> = BTNode::Parallel(
        ParallelMode::AllSuccess,
        vec![
            BTNode::Action(BTStatus::Success),
            BTNode::Action(BTStatus::Failure),
        ],
    );
    assert_eq!(tree.tick(), BTStatus::Failure);
}

#[test]
fn parallel_all_success_succeeds_when_all_succeed() {
    let tree: BTNode<BTStatus> = BTNode::Parallel(
        ParallelMode::AllSuccess,
        vec![
            BTNode::Action(BTStatus::Success),
            BTNode::Condition(BTStatus::Success),
            BTNode::Action(BTStatus::Success),
        ],
    );
    assert_eq!(tree.tick(), BTStatus::Success);
}

#[test]
fn parallel_any_success_fails_when_all_fail() {
    let tree: BTNode<BTStatus> = BTNode::Parallel(
        ParallelMode::AnySuccess,
        vec![
            BTNode::Action(BTStatus::Failure),
            BTNode::Action(BTStatus::Failure),
        ],
    );
    assert_eq!(tree.tick(), BTStatus::Failure);
}

#[test]
fn parallel_running_preempts_counts() {
    // The scan continues past successes and failures but stops at the first
    // Running child, so a Running child decides even under AnySuccess with an
    // earlier success.
    let tree: BTNode<BTStatus> = BTNode::Parallel(
        ParallelMode::AnySuccess,
        vec![
            BTNode::Action(BTStatus::Success),
            BTNode::Action(BTStatus::Running),
        ],
    );
    assert_eq!(tree.tick(), BTStatus::Running);
}

#[test]
fn parallel_running_after_failure_still_preempts() {
    let tree: BTNode<BTStatus> = BTNode::Parallel(
        ParallelMode::AllSuccess,
        vec![
            BTNode::Action(BTStatus::Failure),
            BTNode::Action(BTStatus::Running),
        ],
    );
    assert_eq!(tree.tick(), BTStatus::Running);
}

#[test]
fn parallel_empty_all_success_is_success() {
    let tree: BTNode<BTStatus> = BTNode::Parallel(ParallelMode::AllSuccess, vec![]);
    assert_eq!(tree.tick(), BTStatus::Success);
}

#[test]
fn parallel_empty_any_success_is_running() {
    let tree: BTNode<BTStatus> = BTNode::Parallel(ParallelMode::AnySuccess, vec![]);
    assert_eq!(tree.tick(), BTStatus::Running);
}

#[test]
fn leaves_return_their_behavior_status_verbatim() {
    let action: BTNode<BTStatus> = BTNode::Action(BTStatus::Running);
    assert_eq!(action.tick(), BTStatus::Running);
    let condition: BTNode<BTStatus> = BTNode::Condition(BTStatus::Failure);
    assert_eq!(condition.tick(), BTStatus::Failure);
}

#[test]
fn nested_tree_evaluates_recursively() {
    let tree: BTNode<BTStatus> = BTNode::Selector(vec![
        BTNode::Sequence(vec![
            BTNode::Condition(BTStatus::Success),
            BTNode::Action(BTStatus::Failure),
        ]),
        BTNode::Sequence(vec![
            BTNode::Condition(BTStatus::Success),
            BTNode::Action(BTStatus::Success),
        ]),
    ]);
    assert_eq!(tree.tick(), BTStatus::Success);
}

#[test]
fn repeated_ticks_return_identical_results() {
    // Ticking borrows the tree immutably, so the shape cannot change, and
    // with pure leaves every tick returns the same status.
    let tree: BTNode<BTStatus> = BTNode::Selector(vec![
        BTNode::Sequence(vec![
            BTNode::Condition(BTStatus::Success),
            BTNode::Action(BTStatus::Running),
        ]),
        BTNode::Action(BTStatus::Success),
    ]);
    let first = tree.tick();
    let second = tree.tick();
    let third = tree.tick();
    assert_eq!(first, BTStatus::Running);
    assert_eq!(second, first);
    assert_eq!(third, first);
}
