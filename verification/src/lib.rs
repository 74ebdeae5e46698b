//! A verified core for a conversational system-control assistant: the
//! session's ordered message history, the streaming chat protocol decoder,
//! the tool-call extractor that turns trailing free text into a structured
//! invocation, the command dispatcher that validates and names each
//! privileged action, and the orchestrator that ties one turn together and
//! fixes the order of everything it emits.

pub mod chars;
pub mod commands;
pub mod extract;
pub mod models;
pub mod orchestrator;
pub mod session;
pub mod stream;
