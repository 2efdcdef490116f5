//! A debug-session protocol engine: JSON-RPC envelopes, message framing,
//! command translation and a session state machine driving a PolkaVM
//! program through a step-by-step debugger.
pub mod json;
pub mod framing;
pub mod rpc;
pub mod command;
pub mod sandbox;
pub mod session;
pub mod laws;
pub mod paths;
