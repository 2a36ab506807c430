//! Chat, session and streaming data carried between the orchestrator, the
//! tool registry and the API layer, as plain values.

use vstd::prelude::*;
use crate::json::JsonValue;

verus! {

/// One chat message.
#[derive(Debug, Clone)]
pub struct Message {
    pub role: String,
    pub content: Option<String>,
    pub tool_calls: Option<Vec<ToolCall>>,
    pub tool_call_id: Option<String>,
}

/// A function call requested by the model.
#[derive(Debug, Clone)]
pub struct ToolCall {
    pub id: String,
    pub tool_type: String,
    pub function: FunctionCall,
}

/// The function name and its JSON-encoded arguments.
#[derive(Debug, Clone)]
pub struct FunctionCall {
    pub name: String,
    pub arguments: String,
}

/// A stored conversation.  The update time is carried as seconds since
/// the Unix epoch.
#[derive(Debug, Clone)]
pub struct Session {
    pub session_id: String,
    pub last_updated: i64,
    pub messages: Vec<Message>,
}

/// Reasoning options sent with a request.
#[derive(Debug, Clone)]
pub struct Reasoning {
    pub effort: Option<String>,
    pub max_tokens: Option<u32>,
    pub exclude: Option<bool>,
    pub enabled: Option<bool>,
}

/// The body of a chat-completion request.
#[derive(Debug, Clone)]
pub struct RequestBody {
    pub model: String,
    pub messages: Vec<Message>,
    pub stream: bool,
    pub reasoning: Option<Reasoning>,
    pub tools: Option<Vec<JsonValue>>,
}

/// A web citation attached to streamed content.
#[derive(Debug, Clone)]
pub struct Citation {
    pub url: String,
    pub title: String,
    pub content: Option<String>,
}

/// An annotation on streamed content.
#[derive(Debug, Clone)]
pub struct Annotation {
    pub annotation_type: String,
    pub url_citation: Option<Citation>,
}

/// One incremental update of a streamed response.
#[derive(Debug, Clone)]
pub struct Delta {
    pub content: Option<String>,
    pub annotations: Option<Vec<Annotation>>,
    pub reasoning: Option<String>,
    pub tool_calls: Option<Vec<ToolCall>>,
}

/// One choice of a streamed response.
#[derive(Debug, Clone)]
pub struct Choice {
    pub delta: Option<Delta>,
}

/// One parsed chunk of a streamed response.
#[derive(Debug, Clone)]
pub struct StreamResponse {
    pub choices: Option<Vec<Choice>>,
}

} // verus!
