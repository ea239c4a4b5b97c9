//! Data carried between a chat front end and the agent runtime.
//!
//! The session registry itself (creating sessions, serializing their
//! operations, timestamps) lives in the hosting program; these are the
//! values it stores and exchanges, with the well-formedness rules a
//! response must satisfy.

use vstd::prelude::*;

verus! {

/// One message of a session's history.
#[derive(Clone)]
pub struct ChatMessage {
    pub id: String,
    pub content: String,
    pub sender: String,
    pub timestamp: String,
    pub message_type: String,
}

/// A request to send one message within a session.
pub struct ChatRequest {
    pub session_id: String,
    pub message: String,
}

/// The front end's view of one answered or failed turn. A well-formed
/// response carries a message exactly when it succeeded and an error
/// exactly when it failed.
pub struct ChatResponse {
    pub success: bool,
    pub message: Option<String>,
    pub error: Option<String>,
}

impl ChatResponse {
    /// A response is well formed when its fields agree with its outcome.
    pub open spec fn wf(&self) -> bool {
        &&& self.success == (self.message is Some)
        &&& self.success == (self.error is None)
    }

    /// A successful turn answering with `message`.
    pub fn succeeded(message: String) -> (r: Self)
        ensures
            r.wf(),
            r.success,
            r.message matches Some(m) && m@ == message@,
    {
        ChatResponse { success: true, message: Some(message), error: None }
    }

    /// A failed turn with the given error text.
    pub fn failed(error: String) -> (r: Self)
        ensures
            r.wf(),
            !r.success,
            r.error matches Some(e) && e@ == error@,
    {
        ChatResponse { success: false, message: None, error: Some(error) }
    }
}

/// A serializable tool listing handed to a front end.
pub struct LocalMcpTool {
    pub name: String,
    pub description: String,
}

impl LocalMcpTool {
    /// The listing of one catalog descriptor.
    pub fn of_tool(tool: &crate::mcp::McpTool) -> (r: Self)
        ensures
            r.name@ == tool@.0,
            r.description@ == tool@.1,
    {
        LocalMcpTool { name: tool.name.clone(), description: tool.description.clone() }
    }
}

} // verus!
