//! MCP server configuration and connection status, as the `/mcp add` flow
//! builds and reports them.

use vstd::prelude::*;
use crate::string_map::StringMap;

verus! {

/// How to reach an MCP server.
#[derive(Debug, Clone, PartialEq)]
pub enum MCPServerConfig {
    /// A local command speaking MCP over stdin/stdout.
    Stdio { command: String, args: Vec<String>, env: Option<StringMap>, cwd: Option<String> },
    /// A remote server over streamable HTTP.
    Http { url: String, headers: StringMap },
    /// A remote server over server-sent events.
    Sse { url: String, headers: StringMap },
}

/// Connection state of a configured server.
#[derive(Debug, Clone, PartialEq)]
pub enum MCPServerStatus {
    Pending,
    Connecting,
    Connected,
    /// The server wants an OAuth login; the authorization URL when known.
    AuthRequired(Option<String>),
    Error(String),
    Disabled,
}

/// What a server configuration says, as the specifications see it.
pub enum ConfigModel {
    Stdio {
        command: Seq<char>,
        args: Seq<Seq<char>>,
        env: Option<Seq<(Seq<char>, Seq<char>)>>,
        cwd: Option<Seq<char>>,
    },
    Http { url: Seq<char>, headers: Seq<(Seq<char>, Seq<char>)> },
    Sse { url: Seq<char>, headers: Seq<(Seq<char>, Seq<char>)> },
}

/// The model of `c`.
pub open spec fn config_model(c: MCPServerConfig) -> ConfigModel {
    match c {
        MCPServerConfig::Stdio { command, args, env, cwd } => ConfigModel::Stdio {
            command: command@,
            args: args@.map_values(|a: String| a@),
            env: match env {
                Some(m) => Some(m@),
                None => None,
            },
            cwd: match cwd {
                Some(d) => Some(d@),
                None => None,
            },
        },
        MCPServerConfig::Http { url, headers } => ConfigModel::Http { url: url@, headers: headers@ },
        MCPServerConfig::Sse { url, headers } => ConfigModel::Sse { url: url@, headers: headers@ },
    }
}

} // verus!
