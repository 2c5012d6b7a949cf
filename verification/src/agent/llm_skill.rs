//! Skills that a model runs by their instructions.

use crate::agent::skill::{OnInputResult, OnRequestResult, SkillSlot, WorkStatus};
use crate::errors::{AgentError, ErrorView};
use crate::json::JsonValue;
use crate::models::{Content, Event, PartModel, Role, Thread};
use vstd::prelude::*;

verus! {

/// Runs a skill with a model of type `L`, by instructions.
#[derive(Debug)]
pub struct LlmSkillHandler<L> {
    pub llm: L,
    pub instructions: String,
}

impl<L> LlmSkillHandler<L> {
    /// A handler with these instructions.
    pub fn new(llm: L, instructions: String) -> (r: LlmSkillHandler<L>)
        ensures
            r == (LlmSkillHandler { llm, instructions }),
    {
        LlmSkillHandler { llm, instructions }
    }

    /// The conversation to go on with when the user has answered: the one that was kept, with
    /// what the user said. `kept` is what reading the slot gave.
    pub fn on_input_received(kept: Result<Option<Thread>, AgentError>, content: Content) -> (r:
        Result<Thread, AgentError>)
        ensures
            match kept {
                Err(e) => r == Err::<Thread, AgentError>(e),
                Ok(None) => r matches Err(e) && e@ == (ErrorView::Internal {
                    component: "LlmSkillHandler"@,
                    reason: "slot was missing when on_input_received was called"@,
                }),
                Ok(Some(thread)) => r matches Ok(next) && next.system == thread.system
                    && next.events@ == thread.events@.push(Event { role: Role::User, content }),
            },
    {
        match kept {
            Err(e) => Err(e),
            Ok(None) => Err(
                AgentError::Internal {
                    component: "LlmSkillHandler".to_owned(),
                    reason: "slot was missing when on_input_received was called".to_owned(),
                },
            ),
            Ok(Some(thread)) => Ok(thread.add_event(Event::user(content))),
        }
    }
}

/// One text.
pub open spec fn one_text(s: Seq<char>) -> Seq<PartModel> {
    seq![PartModel::Text(s)]
}

/// The answer to a request, by how far the model has come. Where it needs input, the
/// conversation, given as JSON, is kept.
pub fn work_status_to_request_result(status: WorkStatus, thread: JsonValue) -> (r: OnRequestResult)
    ensures
        match status {
            WorkStatus::Complete { message } => r matches OnRequestResult::Completed {
                message: Some(m),
                artifacts,
            } && m@ == one_text(message@) && artifacts@.len() == 0,
            WorkStatus::NeedsInput { message } => r matches OnRequestResult::InputRequired {
                message: m,
                slot,
            } && m@ == one_text(message@) && slot.value == thread,
            WorkStatus::Failed { reason } => r matches OnRequestResult::Failed { error } && error@
                == one_text(reason@),
        },
{
    match status {
        WorkStatus::Complete { message } => OnRequestResult::Completed {
            message: Some(Content::from_text(message)),
            artifacts: Vec::new(),
        },
        WorkStatus::NeedsInput { message } => OnRequestResult::InputRequired {
            message: Content::from_text(message),
            slot: SkillSlot::new(thread),
        },
        WorkStatus::Failed { reason } => OnRequestResult::Failed {
            error: Content::from_text(reason),
        },
    }
}

/// The answer to input, by how far the model has come. Where it needs more input, the
/// conversation, given as JSON, is kept.
pub fn work_status_to_input_result(status: WorkStatus, thread: JsonValue) -> (r: OnInputResult)
    ensures
        match status {
            WorkStatus::Complete { message } => r matches OnInputResult::Completed {
                message: Some(m),
                artifacts,
            } && m@ == one_text(message@) && artifacts@.len() == 0,
            WorkStatus::NeedsInput { message } => r matches OnInputResult::InputRequired {
                message: m,
                slot,
            } && m@ == one_text(message@) && slot.value == thread,
            WorkStatus::Failed { reason } => r matches OnInputResult::Failed { error } && error@
                == one_text(reason@),
        },
{
    match status {
        WorkStatus::Complete { message } => OnInputResult::Completed {
            message: Some(Content::from_text(message)),
            artifacts: Vec::new(),
        },
        WorkStatus::NeedsInput { message } => OnInputResult::InputRequired {
            message: Content::from_text(message),
            slot: SkillSlot::new(thread),
        },
        WorkStatus::Failed { reason } => OnInputResult::Failed {
            error: Content::from_text(reason),
        },
    }
}

} // verus!
