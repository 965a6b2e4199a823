//! The desktop commands' own logic: their inputs and outputs, and the
//! decisions they take between the calls into the stores and the model.

pub mod error;
pub mod conversation;
pub mod mcp;
pub mod platform;
pub mod ingest;
pub mod chat;
pub mod skill;
