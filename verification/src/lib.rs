//! Verified core of the Cowork desktop chat assistant: record filters and SQL
//! text, chat records, provider and MCP configuration, agent streaming and
//! tool-call bookkeeping, and the text helpers of the chat view.

pub mod agent;
pub mod backend;
pub mod log;
pub mod record;
pub mod storage;
pub mod text;
pub mod ui;
