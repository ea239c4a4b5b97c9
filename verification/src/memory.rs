//! The minimal conversation-memory abstraction.

use vstd::prelude::*;

verus! {

use crate::mcp::ClientError;

/// A store of conversational context. No implementation ships with this
/// library; inputs and outputs are JSON text, as everywhere in the
/// runtime.
pub trait BaseMemory {
    /// Load the memory variables relevant to the given inputs.
    fn load_memory_variables(&self, inputs: &str) -> Result<String, ClientError>;

    /// Record one exchange of inputs and outputs.
    fn save_context(&self, inputs: &str, outputs: &str) -> Result<(), ClientError>;

    /// Forget everything.
    fn clear(&self) -> Result<(), ClientError>;
}

} // verus!
