use cowork_rs::storage::mcp_servers_config::insert_entry;
use cowork_rs::agent::agent_orchestrator::{
    connect_mcp_servers_from_config, AgentRuntimeConfig, McpConnection,
};
use cowork_rs::agent::agent_preset::{default_agent_preset, DEFAULT_AGENT_MODEL};
use cowork_rs::storage::llm_provider_config::{
    non_empty_or_env, ConfigError, LlmModelConfig, LlmProviderConfig, DEFAULT_OPENAI_BASE_URL,
};
use cowork_rs::storage::mcp_servers_config::{
    load_or_init_mcp_servers_config, McpConfigLoad, McpServerConfig, McpServersConfig,
};

fn config(api_key: &str, base_url: &str, default_model: &str) -> LlmProviderConfig {
    LlmProviderConfig {
        provider_name: String::from("Test"),
        base_url: String::from(base_url),
        api_key: String::from(api_key),
        default_model: String::from(default_model),
        models: Vec::new(),
    }
}

fn server(command: Option<&str>, url: Option<&str>, disabled: bool) -> McpServerConfig {
    McpServerConfig {
        command: command.map(String::from),
        args: None,
        url: url.map(String::from),
        env: None,
        disabled,
    }
}

#[test]
fn default_provider_config_uses_openai_and_the_preset_model() {
    let c = LlmProviderConfig::default_config();
    assert_eq!(c.provider_name, "OpenAI compatible");
    assert_eq!(c.base_url, "https://api.openai.com/v1");
    assert_eq!(c.base_url, DEFAULT_OPENAI_BASE_URL);
    assert_eq!(c.api_key, "");
    assert_eq!(c.default_model, "mimo-v2.5");
    assert_eq!(c.models.len(), 1);
    assert_eq!(c.models[0].id, "mimo-v2.5");
    assert_eq!(c.models[0].display_name, "mimo-v2.5");
}

#[test]
fn non_empty_or_env_prefers_the_trimmed_value() {
    assert_eq!(non_empty_or_env("  v  ", Some("env")), Some(String::from("v")));
    assert_eq!(non_empty_or_env("   ", Some(" env ")), Some(String::from("env")));
    assert_eq!(non_empty_or_env("", Some("  ")), None);
    assert_eq!(non_empty_or_env("", None), None);
}

#[test]
fn api_key_comes_from_file_then_environment() {
    assert_eq!(config(" sk-file ", "", "").resolved_api_key(Some("sk-env")), Ok(String::from("sk-file")));
    assert_eq!(config("", "", "").resolved_api_key(Some(" sk-env ")), Ok(String::from("sk-env")));
    assert_eq!(config("  ", "", "").resolved_api_key(None), Err(ConfigError::MissingApiKey));
    assert_eq!(config("", "", "").resolved_api_key(Some("   ")), Err(ConfigError::MissingApiKey));
}

#[test]
fn base_url_falls_back_to_environment_then_openai() {
    assert_eq!(config("", " http://file/v1 ", "").resolved_base_url(Some("http://env")), "http://file/v1");
    assert_eq!(config("", "", "").resolved_base_url(Some(" http://env ")), "http://env");
    assert_eq!(config("", "  ", "").resolved_base_url(None), "https://api.openai.com/v1");
}

#[test]
fn default_model_is_trimmed_or_the_preset_model() {
    assert_eq!(config("", "", "  gpt-4o ").resolved_default_model(), "gpt-4o");
    assert_eq!(config("", "", "   ").resolved_default_model(), DEFAULT_AGENT_MODEL);
}

#[test]
fn validation_fails_only_without_an_api_key() {
    assert_eq!(config("key", "", "").validate_resolved(None, None), Ok(()));
    assert_eq!(config("", "", "").validate_resolved(Some("key"), None), Ok(()));
    assert_eq!(
        config("", "http://x", "m").validate_resolved(None, Some("http://y")),
        Err(ConfigError::MissingApiKey)
    );
}

#[test]
fn config_errors_have_their_messages() {
    assert_eq!(
        ConfigError::MissingApiKey.message(),
        "OPENAI_API_KEY is required when llm-provider.json api_key is empty"
    );
    assert_eq!(ConfigError::EmptyApiKey.message(), "LLM provider api_key cannot be empty");
    assert_eq!(ConfigError::EmptyBaseUrl.message(), "LLM provider base_url cannot be empty");
    assert_eq!(
        ConfigError::EmptyDefaultModel.message(),
        "LLM provider default_model cannot be empty"
    );
}

#[test]
fn runtime_config_resolves_all_three_settings() {
    let runtime = AgentRuntimeConfig::from_provider_config(
        &config(" sk ", "", " model-x "),
        None,
        Some("http://proxy/v1"),
    )
    .expect("key present");
    assert_eq!(runtime.openai_api_key, "sk");
    assert_eq!(runtime.openai_base_url, "http://proxy/v1");
    assert_eq!(runtime.model, "model-x");

    assert!(matches!(
        AgentRuntimeConfig::from_provider_config(&config("", "", ""), None, None),
        Err(ConfigError::MissingApiKey)
    ));
}

#[test]
fn model_entries_duplicate_exactly() {
    let m = LlmModelConfig {
        id: String::from("a"),
        display_name: String::from("A"),
    };
    let d = m.duplicate();
    assert_eq!((d.id.as_str(), d.display_name.as_str()), ("a", "A"));
}

#[test]
fn default_agent_preset_is_the_cowork_agent() {
    let preset = default_agent_preset();
    assert_eq!(preset.id, "default");
    assert_eq!(preset.name, "Cowork Agent");
    assert_eq!(preset.model, "mimo-v2.5");
    assert!(preset
        .system_instruction
        .starts_with("You are Cowork Agent, an AI assistant running as a local desktop cowork partner."));
}

#[test]
fn mcp_config_starts_empty_and_counts_every_server() {
    assert_eq!(McpServersConfig::default_config().configured_server_count(), 0);
    let c = McpServersConfig {
        mcp_servers: vec![
            (String::from("a"), server(Some("npx"), None, false)),
            (String::from("b"), server(None, Some("http://x"), true)),
        ],
    };
    assert_eq!(c.configured_server_count(), 2);
}

#[test]
fn mcp_config_load_never_overwrites_an_existing_file() {
    assert_eq!(load_or_init_mcp_servers_config(true, true), McpConfigLoad::ReadExisting);
    assert_eq!(load_or_init_mcp_servers_config(true, false), McpConfigLoad::ReadExisting);
    assert_eq!(load_or_init_mcp_servers_config(false, true), McpConfigLoad::ImportLegacy);
    assert_eq!(load_or_init_mcp_servers_config(false, false), McpConfigLoad::WriteDefault);
}

#[test]
fn connection_plan_follows_each_server_entry() {
    let mut stdio = server(Some("npx"), Some("http://ignored"), false);
    stdio.args = Some(vec![String::from("-y"), String::from("pkg")]);
    stdio.env = Some(vec![(String::from("K"), String::from("V"))]);
    let c = McpServersConfig {
        mcp_servers: vec![
            (String::from("disabled"), server(Some("npx"), None, true)),
            (String::from("files"), stdio),
            (String::from("remote"), server(None, Some("http://localhost:3000/mcp"), false)),
            (String::from("broken"), server(None, None, false)),
            (String::from("bare"), server(Some("tool"), None, false)),
        ],
    };
    let plan = connect_mcp_servers_from_config(&c);
    assert_eq!(plan.len(), 5);
    assert!(matches!(&plan[0], McpConnection::SkipDisabled { name } if name == "disabled"));
    match &plan[1] {
        McpConnection::Stdio { name, command, args, env } => {
            assert_eq!(name, "files");
            assert_eq!(command, "npx");
            assert_eq!(args, &vec![String::from("-y"), String::from("pkg")]);
            assert_eq!(env, &vec![(String::from("K"), String::from("V"))]);
        }
        other => panic!("expected a stdio connection, got {other:?}"),
    }
    assert!(matches!(&plan[2], McpConnection::Http { name, url }
        if name == "remote" && url == "http://localhost:3000/mcp"));
    assert!(matches!(&plan[3], McpConnection::SkipInvalid { name } if name == "broken"));
    assert!(matches!(&plan[4], McpConnection::Stdio { args, env, .. }
        if args.is_empty() && env.is_empty()));
}

#[test]
fn inserted_servers_are_kept_once_in_name_order() {
    let mut c = McpServersConfig::default_config();
    c.insert(String::from("zeta"), server(None, Some("http://z"), false));
    c.insert(String::from("alpha"), server(Some("a"), None, false));
    c.insert(String::from("mid"), server(None, None, false));
    c.insert(String::from("alpha"), server(Some("a2"), None, true));
    let names: Vec<&str> = c.mcp_servers.iter().map(|(n, _)| n.as_str()).collect();
    assert_eq!(names, vec!["alpha", "mid", "zeta"]);
    assert_eq!(c.mcp_servers[0].1.command.as_deref(), Some("a2"));
    assert!(c.mcp_servers[0].1.disabled);

    let plan = connect_mcp_servers_from_config(&c);
    assert!(matches!(&plan[0], McpConnection::SkipDisabled { name } if name == "alpha"));
    assert!(matches!(&plan[1], McpConnection::SkipInvalid { name } if name == "mid"));
    assert!(matches!(&plan[2], McpConnection::Http { name, .. } if name == "zeta"));
}

#[test]
fn entries_insert_like_a_map() {
    let mut env: Vec<(String, String)> = Vec::new();
    insert_entry(&mut env, String::from("PATH"), String::from("/bin"));
    insert_entry(&mut env, String::from("HOME"), String::from("/h"));
    insert_entry(&mut env, String::from("HOMES"), String::from("x"));
    insert_entry(&mut env, String::from("PATH"), String::from("/usr/bin"));
    assert_eq!(
        env,
        vec![
            (String::from("HOME"), String::from("/h")),
            (String::from("HOMES"), String::from("x")),
            (String::from("PATH"), String::from("/usr/bin")),
        ]
    );
}
