pub mod context;
pub mod retry;
pub mod runner;
pub mod stream;
pub mod sub_agent;
pub mod tool_parser;
pub mod tools_step;
pub mod trace;

pub use crate::provider::ToolCall;
