//! The provider-side abstraction: what a program must offer to host tools
//! of its own behind the MCP contract.

use vstd::prelude::*;

verus! {

use crate::mcp::{ClientError, McpTool};

/// A tool host. No implementation ships with this library; the trait fixes
/// the shape an embedding program implements.
pub trait McpServer {
    /// Start serving at the given address.
    fn start(&self, address: &str) -> Result<(), ClientError>;

    /// Announce one tool to connecting clients.
    fn register_tool(&self, tool: McpTool) -> Result<(), ClientError>;

    /// Stop serving.
    fn stop(&self) -> Result<(), ClientError>;
}

} // verus!
