//! The settings an agent runs with, and the plan for reaching the configured
//! MCP servers.

use vstd::prelude::*;

use crate::storage::llm_provider_config::{
    opt_view, resolved_api_key_spec, resolved_base_url_spec, resolved_default_model_spec,
    ConfigError, LlmProviderConfig,
};
use crate::storage::mcp_servers_config::{name_less, McpServerConfig, McpServersConfig};
use crate::text::{clone_string_pairs, clone_strings};

verus! {

/// The resolved client settings of the agents.
#[derive(Debug, Clone)]
pub struct AgentRuntimeConfig {
    pub openai_api_key: String,
    pub openai_base_url: String,
    pub model: String,
}

impl AgentRuntimeConfig {
    /// Resolves key, endpoint and model from the provider configuration and
    /// the environment values `OPENAI_API_KEY` and `OPENAI_BASE_URL`.
    pub fn from_provider_config(
        config: &LlmProviderConfig,
        env_api_key: Option<&str>,
        env_base_url: Option<&str>,
    ) -> (r: Result<Self, ConfigError>)
        ensures
            r is Ok <==> resolved_api_key_spec(*config, opt_view(env_api_key)) is Some,
            r matches Err(e) ==> e == ConfigError::MissingApiKey,
            r matches Ok(c) ==> {
                &&& Some(c.openai_api_key@) == resolved_api_key_spec(*config, opt_view(env_api_key))
                &&& c.openai_base_url@ == resolved_base_url_spec(*config, opt_view(env_base_url))
                &&& c.model@ == resolved_default_model_spec(*config)
            },
    {
        match config.validate_resolved(env_api_key, env_base_url) {
            Ok(()) => {},
            Err(e) => return Err(e),
        }
        let openai_api_key = match config.resolved_api_key(env_api_key) {
            Ok(k) => k,
            Err(e) => return Err(e),
        };
        let openai_base_url = config.resolved_base_url(env_base_url);
        let model = config.resolved_default_model();
        Ok(AgentRuntimeConfig { openai_api_key, openai_base_url, model })
    }
}

/// What to do with one configured MCP server.
#[derive(Debug, Clone)]
pub enum McpConnection {
    /// Spawn `command` with `args` and the extra environment `env`, and speak
    /// MCP over its standard streams.
    Stdio { name: String, command: String, args: Vec<String>, env: Vec<(String, String)> },
    /// Connect to the streamable HTTP endpoint `url`.
    Http { name: String, url: String },
    /// The server is disabled.
    SkipDisabled { name: String },
    /// The server has neither a command nor a URL.
    SkipInvalid { name: String },
}

/// `c` is what the entry `name`/`server` calls for: a disabled server is
/// skipped; otherwise a command wins over a URL, missing arguments and
/// environment count as empty; with neither, the entry is invalid.
pub open spec fn connection_for(c: McpConnection, name: String, server: McpServerConfig) -> bool {
    if server.disabled {
        c == McpConnection::SkipDisabled { name }
    } else if server.command is Some {
        c matches McpConnection::Stdio { name: n, command, args, env } && n == name && command
            == server.command->0 && args@ == (match server.args {
            Some(a) => a@,
            None => Seq::empty(),
        }) && env@ == (match server.env {
            Some(e) => e@,
            None => Seq::empty(),
        })
    } else if server.url is Some {
        c == McpConnection::Http { name, url: server.url->0 }
    } else {
        c == McpConnection::SkipInvalid { name }
    }
}

fn connection_for_entry(name: &String, server: &McpServerConfig) -> (c: McpConnection)
    ensures
        connection_for(c, *name, *server),
{
    if server.disabled {
        return McpConnection::SkipDisabled { name: name.clone() };
    }
    match &server.command {
        Some(command) => {
            let args = match &server.args {
                Some(a) => clone_strings(a),
                None => Vec::new(),
            };
            let env = match &server.env {
                Some(e) => clone_string_pairs(e),
                None => Vec::new(),
            };
            McpConnection::Stdio { name: name.clone(), command: command.clone(), args, env }
        },
        None => match &server.url {
            Some(url) => McpConnection::Http { name: name.clone(), url: url.clone() },
            None => McpConnection::SkipInvalid { name: name.clone() },
        },
    }
}

/// The server a decision is about.
pub open spec fn connection_name(c: McpConnection) -> String {
    match c {
        McpConnection::Stdio { name, .. } => name,
        McpConnection::Http { name, .. } => name,
        McpConnection::SkipDisabled { name } => name,
        McpConnection::SkipInvalid { name } => name,
    }
}

/// One decision per configured server, in configuration order: for a
/// well-formed configuration, that is ascending name order, each server
/// once.
pub fn connect_mcp_servers_from_config(config: &McpServersConfig) -> (r: Vec<McpConnection>)
    ensures
        r@.len() == config.mcp_servers@.len(),
        forall|i: int| 0 <= i < r@.len() ==> connection_name(#[trigger] r@[i]) == config.mcp_servers@[i].0,
        config.well_formed() ==> forall|i: int, j: int|
            0 <= i < j < r@.len() ==> name_less(
                connection_name(#[trigger] r@[i])@,
                connection_name(#[trigger] r@[j])@,
            ),
        forall|i: int|
            0 <= i < r@.len() ==> connection_for(
                #[trigger] r@[i],
                config.mcp_servers@[i].0,
                config.mcp_servers@[i].1,
            ),
{
    let mut r: Vec<McpConnection> = Vec::new();
    let mut i: usize = 0;
    while i < config.mcp_servers.len()
        invariant
            i <= config.mcp_servers@.len(),
            r@.len() == i,
            forall|j: int|
                0 <= j < i ==> connection_for(
                    #[trigger] r@[j],
                    config.mcp_servers@[j].0,
                    config.mcp_servers@[j].1,
                ),
            forall|j: int| 0 <= j < i ==> connection_name(#[trigger] r@[j]) == config.mcp_servers@[j].0,
        decreases config.mcp_servers@.len() - i,
    {
        let entry = &config.mcp_servers[i];
        r.push(connection_for_entry(&entry.0, &entry.1));
        i = i + 1;
    }
    proof {
        if config.well_formed() {
            assert forall|i: int, j: int| 0 <= i < j < r@.len() implies name_less(
                connection_name(#[trigger] r@[i])@,
                connection_name(#[trigger] r@[j])@,
            ) by {
                assert(connection_name(r@[i]) == config.mcp_servers@[i].0);
                assert(connection_name(r@[j]) == config.mcp_servers@[j].0);
                assert(name_less(config.mcp_servers@[i].0@, config.mcp_servers@[j].0@));
            }
        }
    }
    r
}

} // verus!
