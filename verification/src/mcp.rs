//! Remote tool-server protocol data, as plain values, and the
//! function-calling descriptors built from remote tools.  The protocol
//! client itself lives with the caller.

use vstd::prelude::*;
use crate::json::JsonValue;

verus! {

/// One tool offered by a remote server.
#[derive(Debug, Clone)]
pub struct McpTool {
    pub name: String,
    pub description: Option<String>,
    pub input_schema: JsonValue,
}

/// A call of a remote tool.
#[derive(Debug, Clone)]
pub struct McpToolCall {
    pub name: String,
    pub arguments: JsonValue,
}

/// The result of a remote tool call.
#[derive(Debug, Clone)]
pub struct McpToolResult {
    pub content: Vec<ToolContent>,
    pub is_error: Option<bool>,
}

/// One content block of a remote tool result.
#[derive(Debug, Clone)]
pub struct ToolContent {
    pub content_type: String,
    pub text: String,
}

/// A server's tool listing.
#[derive(Debug, Clone)]
pub struct ToolListResponse {
    pub tools: Vec<McpTool>,
}

/// A server's identity.
#[derive(Debug, Clone)]
pub struct ServerInfo {
    pub name: String,
    pub version: String,
}

/// The handshake result of a server connection.
#[derive(Debug, Clone)]
pub struct InitializeResult {
    pub protocol_version: String,
    pub server_info: ServerInfo,
    pub capabilities: ServerCapabilities,
}

/// What a server offers.
#[derive(Debug, Clone)]
pub struct ServerCapabilities {
    pub tools: Option<ToolsCapability>,
    pub resources: Option<ResourcesCapability>,
}

/// Tool support advertised by a server.
#[derive(Debug, Clone)]
pub struct ToolsCapability {
    pub list_changed: Option<bool>,
}

/// Resource support advertised by a server.
#[derive(Debug, Clone)]
pub struct ResourcesCapability {
    pub subscribe: Option<bool>,
    pub list_changed: Option<bool>,
}

/// A resource offered by a server.
#[derive(Debug, Clone)]
pub struct McpResource {
    pub uri: String,
    pub name: String,
    pub description: Option<String>,
    pub mime_type: Option<String>,
}

/// A server's resource listing.
#[derive(Debug, Clone)]
pub struct ResourceListResponse {
    pub resources: Vec<McpResource>,
}

/// The contents of one resource.
#[derive(Debug, Clone)]
pub struct ResourceContents {
    pub uri: String,
    pub mime_type: Option<String>,
    pub text: Option<String>,
    pub blob: Option<String>,
}

/// The result of reading a resource.
#[derive(Debug, Clone)]
pub struct ResourceReadResponse {
    pub contents: Vec<ResourceContents>,
}

/// A server-sent-events transport endpoint.
#[derive(Debug, Clone)]
pub struct SseTransport {
    pub url: String,
    pub headers: Vec<(String, String)>,
}

impl SseTransport {
    /// A transport for `url` with the given request headers.
    pub fn new(url: String, headers: Vec<(String, String)>) -> (r: Self)
        ensures
            r.url == url,
            r.headers == headers,
    {
        SseTransport { url, headers }
    }
}

} // verus!
