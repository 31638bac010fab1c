pub mod time_tool;
pub mod mcp_tool_adapter;
