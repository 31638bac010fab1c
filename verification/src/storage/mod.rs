pub mod chat_record;
pub mod llm_provider_config;
pub mod mcp_servers_config;
