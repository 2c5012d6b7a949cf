//! Tools that a model can call.

pub mod laws;
pub mod memory;

use crate::json::{Json, JsonValue};
use vstd::prelude::*;

verus! {

/// A call of a tool that a model asks for.
#[derive(Debug)]
pub struct ToolCall {
    pub id: String,
    pub name: String,
    pub arguments: JsonValue,
    /// The call as the provider sent it, to be sent back unchanged.
    pub provider_metadata: Option<JsonValue>,
}

/// What a tool returned.
#[derive(Debug)]
pub struct ToolResult {
    pub success: bool,
    pub data: JsonValue,
    pub error_message: Option<String>,
}

/// The answer to a call of a tool.
#[derive(Debug)]
pub struct ToolResponse {
    pub tool_call_id: String,
    pub result: ToolResult,
}

/// What a model is told of a tool.
#[derive(Debug)]
pub struct FunctionDeclaration {
    pub name: String,
    pub description: String,
    pub parameters: JsonValue,
}

/// The model of a call.
pub struct CallModel {
    pub id: Seq<char>,
    pub name: Seq<char>,
    pub arguments: Json,
    pub provider_metadata: Option<Json>,
}

/// The model of a result.
pub struct ResultModel {
    pub success: bool,
    pub data: Json,
    pub error_message: Option<Seq<char>>,
}

/// The model of an answer.
pub struct ResponseModel {
    pub tool_call_id: Seq<char>,
    pub result: ResultModel,
}

/// The model of an optional value.
pub open spec fn optional_json(v: Option<JsonValue>) -> Option<Json> {
    match v {
        Some(x) => Some(x@),
        None => None,
    }
}

/// A copy of an optional value.
pub fn copy_optional_json(v: &Option<JsonValue>) -> (r: Option<JsonValue>)
    ensures
        optional_json(r) == optional_json(*v),
{
    match v {
        Some(x) => Some(x.clone()),
        None => None,
    }
}

/// The text of an optional string.
pub open spec fn optional_chars(v: Option<String>) -> Option<Seq<char>> {
    match v {
        Some(x) => Some(x@),
        None => None,
    }
}

/// A copy of an optional string.
pub fn copy_optional_string(v: &Option<String>) -> (r: Option<String>)
    ensures
        optional_chars(r) == optional_chars(*v),
{
    match v {
        Some(x) => Some(x.clone()),
        None => None,
    }
}

impl View for ToolCall {
    type V = CallModel;

    open spec fn view(&self) -> CallModel {
        CallModel {
            id: self.id@,
            name: self.name@,
            arguments: self.arguments@,
            provider_metadata: optional_json(self.provider_metadata),
        }
    }
}

impl View for ToolResult {
    type V = ResultModel;

    open spec fn view(&self) -> ResultModel {
        ResultModel {
            success: self.success,
            data: self.data@,
            error_message: optional_chars(self.error_message),
        }
    }
}

impl View for ToolResponse {
    type V = ResponseModel;

    open spec fn view(&self) -> ResponseModel {
        ResponseModel { tool_call_id: self.tool_call_id@, result: self.result@ }
    }
}

impl ResultModel {
    /// A result with data.
    pub open spec fn success(data: Json) -> ResultModel {
        ResultModel { success: true, data, error_message: None }
    }

    /// A failure with a message.
    pub open spec fn error(message: Seq<char>) -> ResultModel {
        ResultModel { success: false, data: Json::Null, error_message: Some(message) }
    }
}

impl ToolCall {
    /// A call that did not come from a provider.
    pub fn new(id: &str, name: &str, arguments: JsonValue) -> (r: ToolCall)
        ensures
            r@ == (CallModel {
                id: id@,
                name: name@,
                arguments: arguments@,
                provider_metadata: None,
            }),
    {
        ToolCall {
            id: id.to_owned(),
            name: name.to_owned(),
            arguments,
            provider_metadata: None,
        }
    }

    /// Keeps the call as the provider sent it.
    #[must_use]
    pub fn with_provider_metadata(self, metadata: JsonValue) -> (r: ToolCall)
        ensures
            r@ == (CallModel { provider_metadata: Some(metadata@), ..self@ }),
    {
        ToolCall { provider_metadata: Some(metadata), ..self }
    }
}

impl ToolResult {
    /// A result with data.
    pub fn success(data: JsonValue) -> (r: ToolResult)
        ensures
            r@ == ResultModel::success(data@),
    {
        ToolResult { success: true, data, error_message: None }
    }

    /// A failure with a message.
    pub fn error(message: String) -> (r: ToolResult)
        ensures
            r@ == ResultModel::error(message@),
    {
        ToolResult { success: false, data: JsonValue::Null, error_message: Some(message) }
    }
}

impl Clone for ToolCall {
    fn clone(&self) -> (r: ToolCall)
        ensures
            r@ == self@,
    {
        ToolCall {
            id: self.id.clone(),
            name: self.name.clone(),
            arguments: self.arguments.clone(),
            provider_metadata: copy_optional_json(&self.provider_metadata),
        }
    }
}

impl Clone for ToolResponse {
    fn clone(&self) -> (r: ToolResponse)
        ensures
            r@ == self@,
    {
        ToolResponse {
            tool_call_id: self.tool_call_id.clone(),
            result: ToolResult {
                success: self.result.success,
                data: self.result.data.clone(),
                error_message: copy_optional_string(&self.result.error_message),
            },
        }
    }
}

} // verus!
