//! The adapter exposing one provider tool as a uniform capability.
//!
//! An adapter stores one tool descriptor and a shared handle to the client
//! that produced it; invoking it forwards to the client's dispatcher.
//! Adapters are re-derivable: given the same client and descriptor, a new
//! adapter behaves like the old one, which is what lets an agent duplicate
//! its tool list without cloning opaque capability values.

use std::sync::Arc;
use vstd::prelude::*;

verus! {

use crate::json::{scan_object, skip_ws, spec_scan_object, spec_ws_end};
use crate::mcp::{McpClient, McpTool, ToolError};
use crate::text::chars_of;

/// `args` is one JSON object, allowing surrounding whitespace.
pub open spec fn spec_valid_args(args: Seq<char>) -> bool {
    let i = spec_ws_end(args, 0);
    match spec_scan_object(args, i) {
        Some(e) => spec_ws_end(args, e) == args.len(),
        None => false,
    }
}

/// Check that `args` is one JSON object; exec twin of
/// [`spec_valid_args`].
pub fn valid_args(args: &[char]) -> (r: bool)
    ensures
        r == spec_valid_args(args@),
{
    let i = skip_ws(args, 0);
    match scan_object(args, i) {
        Some(e) => {
            let t = skip_ws(args, e);
            t == args.len()
        },
        None => false,
    }
}

/// Relies on `Arc::clone` from std: the clone is a handle to the same
/// value.
#[verifier::external_body]
pub(crate) fn share_arc<C>(c: &Arc<C>) -> (r: Arc<C>)
    ensures
        r == *c,
{
    Arc::clone(c)
}

/// A tool capability backed by an MCP client: one descriptor plus a shared
/// handle to the owning client.
pub struct McpToolAdapter<C> {
    client: Arc<C>,
    mcp_tool: McpTool,
}

impl<C: McpClient> McpToolAdapter<C> {
    /// The descriptor this adapter wraps.
    pub closed spec fn tool(&self) -> (Seq<char>, Seq<char>) {
        self.mcp_tool@
    }

    /// The client this adapter dispatches to.
    pub closed spec fn client_value(&self) -> C {
        *self.client
    }

    /// Wrap one descriptor of `client` as a capability.
    pub fn new(client: Arc<C>, mcp_tool: McpTool) -> (a: Self)
        ensures
            a.tool() == mcp_tool@,
            a.client_value() == *client,
    {
        McpToolAdapter { client, mcp_tool }
    }

    /// The tool's name.
    pub fn name(&self) -> (r: String)
        ensures
            r@ == self.tool().0,
    {
        self.mcp_tool.name.clone()
    }

    /// The tool's description.
    pub fn description(&self) -> (r: String)
        ensures
            r@ == self.tool().1,
    {
        self.mcp_tool.description.clone()
    }

    /// A new handle to the owning client.
    pub fn get_client(&self) -> (r: Arc<C>)
        ensures
            *r == self.client_value(),
    {
        share_arc(&self.client)
    }

    /// An equal copy of the wrapped descriptor.
    pub fn get_mcp_tool(&self) -> (r: McpTool)
        ensures
            r@ == self.tool(),
    {
        self.mcp_tool.duplicate()
    }

    /// A behaviorally identical adapter for the same client and
    /// descriptor.
    pub fn rederive(&self) -> (a: Self)
        ensures
            a.tool() == self.tool(),
            a.client_value() == self.client_value(),
    {
        McpToolAdapter { client: share_arc(&self.client), mcp_tool: self.mcp_tool.duplicate() }
    }

    /// Run the tool on serialized arguments: the arguments must be one JSON
    /// object, which is forwarded to the client's dispatcher under this
    /// tool's name.
    pub fn invoke(&self, args: &str) -> (r: Result<String, ToolError>)
        ensures
            spec_valid_args(args@) ==> self.client_value().call_tool_post(
                self.tool().0,
                args@,
                r,
            ),
            !spec_valid_args(args@) ==> (r matches Err(ToolError::InvalidParams(m)) && m@
                == "Tool arguments are not a JSON object"@),
    {
        let args_chars = chars_of(args);
        if valid_args(args_chars.as_slice()) {
            self.client.call_tool(self.mcp_tool.name.as_str(), args)
        } else {
            Err(ToolError::InvalidParams("Tool arguments are not a JSON object".to_owned()))
        }
    }
}

} // verus!
