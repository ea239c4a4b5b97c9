//! A tool-augmented conversational agent runtime.
//!
//! The library lets an agent decide, per turn, whether to answer directly or
//! invoke one of a dynamically registered set of tools. It provides the
//! tool-provider registry and dispatcher ([`mcp::SimpleMcpClient`]), the
//! adapter exposing a provider's tools through a uniform capability
//! interface, the agent's decide-step ([`agent::McpAgent`]), and the parser
//! that turns raw model text into a structured decision
//! ([`parser::parse_model_output`]).

pub mod adapter;
pub mod agent;
pub mod expr;
pub mod json;
pub mod mcp;
pub mod memory;
pub mod output;
pub mod parser;
pub mod server;
pub mod session;
pub mod text;
