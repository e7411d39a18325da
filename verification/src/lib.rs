//! Structured architectural decisions: the verified core of Trurl.

pub mod clock;
pub mod concerns;
pub mod decision;
pub mod digest;
pub mod error;
pub mod graph;
pub mod namemap;
pub mod naming;
pub mod prompt;
pub mod prompt_text;
pub mod prompts;
pub mod render;
pub mod schema;
pub mod session;
pub mod status;
pub mod text;
pub mod token;
pub mod tools;
pub mod watch;
pub mod ws;
