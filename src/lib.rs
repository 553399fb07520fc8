//! Core of a streaming chat-completion client: token budgets, event-stream
//! framing, endpoint rewriting, usage accounting and the submission state
//! machine.

pub mod text;
pub mod model;
pub mod tokens;
pub mod stream;
pub mod usage;
pub mod client;
pub mod submit;
pub mod share;
pub mod store;
