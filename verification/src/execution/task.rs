//! The decisions of a query task: the transaction it opens, and how the transaction ends once the
//! task has driven its output stream.
use vstd::prelude::*;

use crate::plan::plan_node::{is_write, plan_is_write, PlanExpr};

verus! {

#[derive(Debug, Clone, Copy, PartialEq, Eq, Structural)]
pub enum TransactionMode {
    ReadOnly,
    ReadWrite,
}

/// A task whose plan writes runs in a read-write transaction, any other in a read-only one.
pub fn task_transaction_mode(plan: &PlanExpr) -> (r: TransactionMode)
    ensures
        r == if is_write(*plan) {
            TransactionMode::ReadWrite
        } else {
            TransactionMode::ReadOnly
        },
{
    if plan_is_write(plan) {
        TransactionMode::ReadWrite
    } else {
        TransactionMode::ReadOnly
    }
}

/// What happened to the output stream of a task.
#[derive(Debug, Clone, Copy, PartialEq, Eq, Structural)]
pub enum TaskEvent {
    /// Opening the root executor failed; its error went to the receiver.
    OpenFailed,
    /// An item of the stream went out to the receiver; `failed` when the item was an error.
    Delivered { failed: bool },
    /// The receiver is gone: the item could not go out.
    Undeliverable,
    /// The stream has no more items.
    Exhausted,
}

/// What the task does next.
#[derive(Debug, Clone, Copy, PartialEq, Eq, Structural)]
pub enum TaskAction {
    /// Stop, leaving the transaction as it is: the task never ran.
    Finish,
    /// Read the next item of the stream.
    Continue,
    /// Commit the transaction and stop.
    Commit,
    /// Abort the transaction and stop.
    Abort,
}

pub open spec fn step_action(event: TaskEvent) -> TaskAction {
    match event {
        TaskEvent::OpenFailed => TaskAction::Finish,
        TaskEvent::Delivered { failed } => if failed {
            TaskAction::Abort
        } else {
            TaskAction::Continue
        },
        TaskEvent::Undeliverable => TaskAction::Abort,
        TaskEvent::Exhausted => TaskAction::Commit,
    }
}

/// The action after `event`: go on after an item that went out and was no error, commit once the
/// stream is exhausted, abort after an error or when the receiver is gone, and stop without ending
/// the transaction when the stream could not be opened.
pub fn task_step(event: TaskEvent) -> (r: TaskAction)
    ensures
        r == step_action(event),
{
    match event {
        TaskEvent::OpenFailed => TaskAction::Finish,
        TaskEvent::Delivered { failed } => if failed {
            TaskAction::Abort
        } else {
            TaskAction::Continue
        },
        TaskEvent::Undeliverable => TaskAction::Abort,
        TaskEvent::Exhausted => TaskAction::Commit,
    }
}

/// How a task that meets `events` in turn ends: the first action that is not `Continue`, or
/// `None` while it goes on.
pub open spec fn run_end(events: Seq<TaskEvent>) -> Option<TaskAction>
    decreases events.len(),
{
    if events.len() == 0 {
        None
    } else if step_action(events[0]) != TaskAction::Continue {
        Some(step_action(events[0]))
    } else {
        run_end(events.drop_first())
    }
}

/// An item went out and was no error.
pub open spec fn clean_delivery(e: TaskEvent) -> bool {
    e == (TaskEvent::Delivered { failed: false })
}

/// A task commits exactly when its stream is exhausted after every item before went out without
/// an error.
pub proof fn law_commit_only_after_clean_run(events: Seq<TaskEvent>)
    ensures
        run_end(events) == Some(TaskAction::Commit) <==> exists|k: int|
            0 <= k < events.len() && #[trigger] events[k] == TaskEvent::Exhausted && forall|j: int|
                0 <= j < k ==> clean_delivery(#[trigger] events[j]),
    decreases events.len(),
{
    if events.len() > 0 {
        law_commit_only_after_clean_run(events.drop_first());
        let rest = events.drop_first();
        if run_end(events) == Some(TaskAction::Commit) {
            if step_action(events[0]) != TaskAction::Continue {
                assert(events[0] == TaskEvent::Exhausted);
            } else {
                let k = choose|k: int|
                    0 <= k < rest.len() && #[trigger] rest[k] == TaskEvent::Exhausted && forall|j: int|
                        0 <= j < k ==> clean_delivery(#[trigger] rest[j]);
                assert(events[k + 1] == TaskEvent::Exhausted);
                assert forall|j: int| 0 <= j < k + 1 implies clean_delivery(#[trigger] events[j]) by {
                    if j > 0 {
                        assert(events[j] == rest[j - 1]);
                    }
                }
            }
        }
        if exists|k: int|
            0 <= k < events.len() && #[trigger] events[k] == TaskEvent::Exhausted && forall|j: int|
                0 <= j < k ==> clean_delivery(#[trigger] events[j]) {
            let k = choose|k: int|
                0 <= k < events.len() && #[trigger] events[k] == TaskEvent::Exhausted && forall|j: int|
                    0 <= j < k ==> clean_delivery(#[trigger] events[j]);
            if k > 0 {
                assert(clean_delivery(events[0]));
                assert(rest[k - 1] == TaskEvent::Exhausted);
                assert forall|j: int| 0 <= j < k - 1 implies clean_delivery(#[trigger] rest[j]) by {
                    assert(rest[j] == events[j + 1]);
                }
            }
        }
    }
}

} // verus!
