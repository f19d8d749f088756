//! Verified core of the terminal coding-agent: prompt editing, list
//! navigation, goal-mode decisions, tool-call markup stripping, trace lines
//! and the parsing of user-typed provider / MCP server settings.

use vstd::prelude::*;

pub mod text;
pub mod json;
pub mod provider;
pub mod session;
pub mod string_map;
pub mod mcp;
pub mod commands;
pub mod config;
pub mod acp;
pub mod agent;
pub mod app;

verus! {

} // verus!
