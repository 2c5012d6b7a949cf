//! The errors of the library.

use vstd::prelude::*;

verus! {

/// Everything that can go wrong in an agent.
#[derive(Debug)]
pub enum AgentError {
    InvalidInput(String),
    ContextError(String),
    SkillSlot(String),
    TaskNotFound { task_id: String },
    SkillNotFound { skill_id: String },
    Internal { component: String, reason: String },
    InvalidTaskStateTransition { from: String, to: String },
    NotImplemented { feature: String },
    Validation { field: String, reason: String },
    Serialization { format: String, reason: String },
    LlmProvider { provider: String, message: String },
    LlmAuthentication { provider: String },
    LlmRateLimit { provider: String },
    Network(String),
    ResourceExhausted { resource: String, reason: String },
    SecurityViolation { policy: String, reason: String },
    MissingConfiguration { field: String },
    InvalidConfiguration { field: String, reason: String },
}

/// What an error says, as mathematical values.
pub enum ErrorView {
    InvalidInput(Seq<char>),
    ContextError(Seq<char>),
    SkillSlot(Seq<char>),
    TaskNotFound { task_id: Seq<char> },
    SkillNotFound { skill_id: Seq<char> },
    Internal { component: Seq<char>, reason: Seq<char> },
    InvalidTaskStateTransition { from: Seq<char>, to: Seq<char> },
    NotImplemented { feature: Seq<char> },
    Validation { field: Seq<char>, reason: Seq<char> },
    Serialization { format: Seq<char>, reason: Seq<char> },
    LlmProvider { provider: Seq<char>, message: Seq<char> },
    LlmAuthentication { provider: Seq<char> },
    LlmRateLimit { provider: Seq<char> },
    Network(Seq<char>),
    ResourceExhausted { resource: Seq<char>, reason: Seq<char> },
    SecurityViolation { policy: Seq<char>, reason: Seq<char> },
    MissingConfiguration { field: Seq<char> },
    InvalidConfiguration { field: Seq<char>, reason: Seq<char> },
}

impl View for AgentError {
    type V = ErrorView;

    open spec fn view(&self) -> ErrorView {
        match *self {
            AgentError::InvalidInput(m) => ErrorView::InvalidInput(m@),
            AgentError::ContextError(m) => ErrorView::ContextError(m@),
            AgentError::SkillSlot(m) => ErrorView::SkillSlot(m@),
            AgentError::TaskNotFound { task_id } => ErrorView::TaskNotFound { task_id: task_id@ },
            AgentError::SkillNotFound { skill_id } => ErrorView::SkillNotFound {
                skill_id: skill_id@,
            },
            AgentError::Internal { component, reason } => ErrorView::Internal {
                component: component@,
                reason: reason@,
            },
            AgentError::InvalidTaskStateTransition { from, to } =>
                ErrorView::InvalidTaskStateTransition { from: from@, to: to@ },
            AgentError::NotImplemented { feature } => ErrorView::NotImplemented {
                feature: feature@,
            },
            AgentError::Validation { field, reason } => ErrorView::Validation {
                field: field@,
                reason: reason@,
            },
            AgentError::Serialization { format, reason } => ErrorView::Serialization {
                format: format@,
                reason: reason@,
            },
            AgentError::LlmProvider { provider, message } => ErrorView::LlmProvider {
                provider: provider@,
                message: message@,
            },
            AgentError::LlmAuthentication { provider } => ErrorView::LlmAuthentication {
                provider: provider@,
            },
            AgentError::LlmRateLimit { provider } => ErrorView::LlmRateLimit {
                provider: provider@,
            },
            AgentError::Network(m) => ErrorView::Network(m@),
            AgentError::ResourceExhausted { resource, reason } => ErrorView::ResourceExhausted {
                resource: resource@,
                reason: reason@,
            },
            AgentError::SecurityViolation { policy, reason } => ErrorView::SecurityViolation {
                policy: policy@,
                reason: reason@,
            },
            AgentError::MissingConfiguration { field } => ErrorView::MissingConfiguration {
                field: field@,
            },
            AgentError::InvalidConfiguration { field, reason } => ErrorView::InvalidConfiguration {
                field: field@,
                reason: reason@,
            },
        }
    }
}

impl ErrorView {
    /// The text of the error for people.
    pub open spec fn text(self) -> Seq<char> {
        match self {
            ErrorView::InvalidInput(m) => "Invalid input: "@ + m,
            ErrorView::ContextError(m) => "Context error: "@ + m,
            ErrorView::SkillSlot(m) => "Skill slot error: "@ + m,
            ErrorView::TaskNotFound { task_id } => "Task not found: "@ + task_id,
            ErrorView::SkillNotFound { skill_id } => "Skill not found: "@ + skill_id,
            ErrorView::Internal { component, reason } => "Internal error in "@ + component + ": "@
                + reason,
            ErrorView::InvalidTaskStateTransition { from, to } =>
                "Invalid task state transition: "@ + from + " -> "@ + to,
            ErrorView::NotImplemented { feature } => "Not implemented: "@ + feature,
            ErrorView::Validation { field, reason } => "Validation failed for "@ + field + ": "@
                + reason,
            ErrorView::Serialization { format, reason } => "Serialization error in "@ + format
                + ": "@ + reason,
            ErrorView::LlmProvider { provider, message } => "LLM provider error from "@ + provider
                + ": "@ + message,
            ErrorView::LlmAuthentication { provider } => "LLM authentication failed for "@
                + provider,
            ErrorView::LlmRateLimit { provider } => "LLM rate limit exceeded for "@ + provider,
            ErrorView::Network(m) => "Network error: "@ + m,
            ErrorView::ResourceExhausted { resource, reason } => "Resource exhausted: "@ + resource
                + ": "@ + reason,
            ErrorView::SecurityViolation { policy, reason } => "Security violation of "@ + policy
                + ": "@ + reason,
            ErrorView::MissingConfiguration { field } => "Missing configuration: "@ + field,
            ErrorView::InvalidConfiguration { field, reason } => "Invalid configuration of "@
                + field + ": "@ + reason,
        }
    }
}

fn two(prefix: &str, a: &str, infix: &str, b: &str) -> (r: String)
    ensures
        r@ == prefix@ + a@ + infix@ + b@,
{
    let mut s = crate::text::concat3(prefix, a, infix);
    s.append(b);
    s
}

impl AgentError {
    /// The text of the error for people.
    pub fn to_string(&self) -> (r: String)
        ensures
            r@ == self@.text(),
    {
        match self {
            AgentError::InvalidInput(m) => crate::text::concat2("Invalid input: ", m),
            AgentError::ContextError(m) => crate::text::concat2("Context error: ", m),
            AgentError::SkillSlot(m) => crate::text::concat2("Skill slot error: ", m),
            AgentError::TaskNotFound { task_id } => crate::text::concat2(
                "Task not found: ",
                task_id,
            ),
            AgentError::SkillNotFound { skill_id } => crate::text::concat2(
                "Skill not found: ",
                skill_id,
            ),
            AgentError::Internal { component, reason } => two(
                "Internal error in ",
                component,
                ": ",
                reason,
            ),
            AgentError::InvalidTaskStateTransition { from, to } => two(
                "Invalid task state transition: ",
                from,
                " -> ",
                to,
            ),
            AgentError::NotImplemented { feature } => crate::text::concat2(
                "Not implemented: ",
                feature,
            ),
            AgentError::Validation { field, reason } => two(
                "Validation failed for ",
                field,
                ": ",
                reason,
            ),
            AgentError::Serialization { format, reason } => two(
                "Serialization error in ",
                format,
                ": ",
                reason,
            ),
            AgentError::LlmProvider { provider, message } => two(
                "LLM provider error from ",
                provider,
                ": ",
                message,
            ),
            AgentError::LlmAuthentication { provider } => crate::text::concat2(
                "LLM authentication failed for ",
                provider,
            ),
            AgentError::LlmRateLimit { provider } => crate::text::concat2(
                "LLM rate limit exceeded for ",
                provider,
            ),
            AgentError::Network(m) => crate::text::concat2("Network error: ", m),
            AgentError::ResourceExhausted { resource, reason } => two(
                "Resource exhausted: ",
                resource,
                ": ",
                reason,
            ),
            AgentError::SecurityViolation { policy, reason } => two(
                "Security violation of ",
                policy,
                ": ",
                reason,
            ),
            AgentError::MissingConfiguration { field } => crate::text::concat2(
                "Missing configuration: ",
                field,
            ),
            AgentError::InvalidConfiguration { field, reason } => two(
                "Invalid configuration of ",
                field,
                ": ",
                reason,
            ),
        }
    }
}

// ---------------------------------------------------------------------------
// Laws
// ---------------------------------------------------------------------------

/// What people are told of an error says what went wrong and names what it was about.
pub proof fn errors_say_what_went_wrong(a: Seq<char>, b: Seq<char>)
    ensures
        ErrorView::InvalidInput(a).text() == "Invalid input: "@ + a,
        ErrorView::ContextError(a).text() == "Context error: "@ + a,
        ErrorView::SkillSlot(a).text() == "Skill slot error: "@ + a,
        (ErrorView::TaskNotFound { task_id: a }).text() == "Task not found: "@ + a,
        (ErrorView::SkillNotFound { skill_id: a }).text() == "Skill not found: "@ + a,
        (ErrorView::Internal { component: a, reason: b }).text() == "Internal error in "@ + a
            + ": "@ + b,
        (ErrorView::InvalidTaskStateTransition { from: a, to: b }).text()
            == "Invalid task state transition: "@ + a + " -> "@ + b,
        (ErrorView::NotImplemented { feature: a }).text() == "Not implemented: "@ + a,
        (ErrorView::Validation { field: a, reason: b }).text() == "Validation failed for "@ + a
            + ": "@ + b,
        (ErrorView::Serialization { format: a, reason: b }).text() == "Serialization error in "@ + a
            + ": "@ + b,
        (ErrorView::LlmProvider { provider: a, message: b }).text()
            == "LLM provider error from "@ + a + ": "@ + b,
        (ErrorView::LlmAuthentication { provider: a }).text() == "LLM authentication failed for "@
            + a,
        (ErrorView::LlmRateLimit { provider: a }).text() == "LLM rate limit exceeded for "@ + a,
        ErrorView::Network(a).text() == "Network error: "@ + a,
        (ErrorView::ResourceExhausted { resource: a, reason: b }).text() == "Resource exhausted: "@
            + a + ": "@ + b,
        (ErrorView::SecurityViolation { policy: a, reason: b }).text() == "Security violation of "@
            + a + ": "@ + b,
        (ErrorView::MissingConfiguration { field: a }).text() == "Missing configuration: "@ + a,
        (ErrorView::InvalidConfiguration { field: a, reason: b }).text()
            == "Invalid configuration of "@ + a + ": "@ + b,
{
}

} // verus!
