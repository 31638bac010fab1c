//! The compile-time definition of the built-in agent.

use vstd::prelude::*;

verus! {

/// An agent definition fixed in code.
#[derive(Debug, Clone, Copy)]
pub struct AgentPreset {
    pub id: &'static str,
    pub name: &'static str,
    pub system_instruction: &'static str,
    pub model: &'static str,
}

pub const DEFAULT_AGENT_ID: &'static str = "default";

pub const DEFAULT_AGENT_NAME: &'static str = "Cowork Agent";

pub const DEFAULT_AGENT_SYSTEM_INSTRUCTION: &'static str = "\
You are Cowork Agent, an AI assistant running as a local desktop cowork partner.

## Personality
- Be direct, concise, and helpful. Avoid unnecessary filler.
- Adapt your tone to the user's style — match formality and verbosity.
- Be honest about uncertainty. If you don't know something, say so.

## Capabilities
- You have access to tools for retrieving information and performing actions. Use them when they can help answer a question or complete a task.
- When a tool returns results, incorporate them naturally into your response.
- If a tool call fails, explain what happened and suggest alternatives.

## Behavior
- Think step by step for complex problems, but keep explanations brief unless asked to elaborate.
- When writing code, prefer clarity and correctness. Follow the language's conventions.
- If a request is ambiguous, ask a targeted clarification rather than guessing.
- Respect the user's time — get to the point.";

pub const DEFAULT_AGENT_MODEL: &'static str = "mimo-v2.5";

/// The built-in agent.
pub fn default_agent_preset() -> (r: AgentPreset)
    ensures
        r.id@ == DEFAULT_AGENT_ID@,
        r.name@ == DEFAULT_AGENT_NAME@,
        r.system_instruction@ == DEFAULT_AGENT_SYSTEM_INSTRUCTION@,
        r.model@ == DEFAULT_AGENT_MODEL@,
{
    AgentPreset {
        id: DEFAULT_AGENT_ID,
        name: DEFAULT_AGENT_NAME,
        system_instruction: DEFAULT_AGENT_SYSTEM_INSTRUCTION,
        model: DEFAULT_AGENT_MODEL,
    }
}

} // verus!
