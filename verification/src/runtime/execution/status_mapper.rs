//! From the answers of skills to the status of tasks.

use crate::a2a::{StatusModel, TaskState, TaskStatus, Timestamp};
use crate::agent::skill::{OnInputResult, OnRequestResult};
use vstd::prelude::*;

verus! {

/// A status without a message.
pub open spec fn plain_status(state: TaskState, now: Timestamp) -> StatusModel {
    StatusModel { state: state.code(), timestamp: Some(now), message: None }
}

/// A status without a message.
pub fn status_without_message(state: TaskState, now: Timestamp) -> (r: TaskStatus)
    ensures
        r@ == plain_status(state, now),
        r.message is None,
{
    TaskStatus { state: state.to_code(), timestamp: Some(now), message: None }
}

/// The state of a task after the answer to a request.
pub open spec fn request_state(result: OnRequestResult) -> TaskState {
    match result {
        OnRequestResult::Completed { .. } => TaskState::Completed,
        OnRequestResult::InputRequired { .. } => TaskState::InputRequired,
        OnRequestResult::Failed { .. } => TaskState::Failed,
        OnRequestResult::Rejected { .. } => TaskState::Rejected,
    }
}

/// The state of a task after the answer to input.
pub open spec fn input_state(result: OnInputResult) -> TaskState {
    match result {
        OnInputResult::Completed { .. } => TaskState::Completed,
        OnInputResult::InputRequired { .. } => TaskState::InputRequired,
        OnInputResult::Failed { .. } => TaskState::Failed,
    }
}

/// The state of a task after the answer to a request.
pub fn on_request_to_state(result: &OnRequestResult) -> (r: TaskState)
    ensures
        r == request_state(*result),
{
    match result {
        OnRequestResult::Completed { .. } => TaskState::Completed,
        OnRequestResult::InputRequired { .. } => TaskState::InputRequired,
        OnRequestResult::Failed { .. } => TaskState::Failed,
        OnRequestResult::Rejected { .. } => TaskState::Rejected,
    }
}

/// The state of a task after the answer to input.
pub fn on_input_to_state(result: &OnInputResult) -> (r: TaskState)
    ensures
        r == input_state(*result),
{
    match result {
        OnInputResult::Completed { .. } => TaskState::Completed,
        OnInputResult::InputRequired { .. } => TaskState::InputRequired,
        OnInputResult::Failed { .. } => TaskState::Failed,
    }
}

/// A task in this state is at its end.
pub open spec fn is_terminal(state: i32) -> bool {
    ||| state == TaskState::Completed.code()
    ||| state == TaskState::Failed.code()
    ||| state == TaskState::Canceled.code()
    ||| state == TaskState::Rejected.code()
}

/// A task in this state waits for the user and can go on.
pub open spec fn continuable(state: i32) -> bool {
    state == TaskState::InputRequired.code()
}

/// Tells whether a task with this status is at its end.
pub fn is_terminal_status(status: &TaskStatus) -> (r: bool)
    ensures
        r == is_terminal(status.state),
{
    status.state == TaskState::Completed.to_code() || status.state == TaskState::Failed.to_code()
        || status.state == TaskState::Canceled.to_code() || status.state
        == TaskState::Rejected.to_code()
}

/// Tells whether a task with this status waits for the user and can go on.
pub fn can_continue(status: &TaskStatus) -> (r: bool)
    ensures
        r == continuable(status.state),
{
    status.state == TaskState::InputRequired.to_code()
}

/// No task is both at its end and able to go on.
pub proof fn ended_tasks_do_not_go_on(state: i32)
    ensures
        !(is_terminal(state) && continuable(state)),
{
}

} // verus!
