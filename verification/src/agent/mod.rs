pub mod agent;
pub mod agent_preset;
pub mod agent_orchestrator;
pub mod tool;
