//! The persisted chat records: sessions and their ordered messages.

use vstd::prelude::*;

use crate::record::record_sql::RecordSql;
use crate::record::schema::RecordSchema;
use crate::text::{push_str_chars, string_from_chars};

verus! {

pub const MESSAGE_ROLE_SYSTEM: u16 = 0;
pub const MESSAGE_ROLE_ASSISTANT: u16 = 1;
pub const MESSAGE_ROLE_USER: u16 = 2;
pub const MESSAGE_ROLE_TOOL: u16 = 3;

/// Metadata of one chat session. The sampling temperature is kept as the
/// IEEE-754 bit pattern of the number.
#[derive(Debug, Clone)]
pub struct SessionRecord {
    pub session_id: String,
    pub title: String,
    pub model: String,
    pub created_at: i64,
    pub updated_at: i64,
    pub temperature_bits: u64,
    pub top_p: i16,
    pub top_k: i16,
}

/// One message of a session, at its position `sequence`.
#[derive(Debug, Clone)]
pub struct MessageRecord {
    pub message_id: String,
    pub session_id: String,
    pub sequence: i64,
    pub role: u16,
    pub content: String,
    pub created_at: i64,
}

impl SessionRecord {
    /// An identical copy of the record.
    pub fn duplicate(&self) -> (r: Self)
        ensures
            r == *self,
    {
        SessionRecord {
            session_id: self.session_id.clone(),
            title: self.title.clone(),
            model: self.model.clone(),
            created_at: self.created_at,
            updated_at: self.updated_at,
            temperature_bits: self.temperature_bits,
            top_p: self.top_p,
            top_k: self.top_k,
        }
    }
}

impl MessageRecord {
    /// An identical copy of the record.
    pub fn duplicate(&self) -> (r: Self)
        ensures
            r == *self,
    {
        MessageRecord {
            message_id: self.message_id.clone(),
            session_id: self.session_id.clone(),
            sequence: self.sequence,
            role: self.role,
            content: self.content.clone(),
            created_at: self.created_at,
        }
    }
}

pub const SESSIONS_TABLE_SQL: &'static str = "
        CREATE TABLE IF NOT EXISTS sessions (
            session_id TEXT PRIMARY KEY,
            title TEXT NOT NULL,
            model TEXT NOT NULL,
            created_at INTEGER NOT NULL,
            updated_at INTEGER NOT NULL,
            temperature REAL NOT NULL,
            top_p INTEGER NOT NULL,
            top_k INTEGER NOT NULL
        );

        CREATE INDEX IF NOT EXISTS idx_sessions_updated_at
            ON sessions(updated_at);
        ";

pub const SESSIONS_SELECT_ALL_SQL: &'static str = "
        SELECT session_id, title, model, created_at, updated_at, temperature, top_p, top_k
        FROM sessions
        ORDER BY updated_at DESC
        ";

pub const SESSIONS_SELECT_HEAD: &'static str = "
            SELECT session_id, title, model, created_at, updated_at, temperature, top_p, top_k
            FROM sessions
            ";

pub const SESSIONS_SELECT_TAIL: &'static str = "
            ORDER BY updated_at DESC
            ";

pub const SESSIONS_UPSERT_SQL: &'static str = "
        INSERT INTO sessions (
            session_id, title, model, created_at, updated_at, temperature, top_p, top_k
        )
        VALUES (?1, ?2, ?3, ?4, ?5, ?6, ?7, ?8)
        ON CONFLICT(session_id) DO UPDATE SET
            title = excluded.title,
            model = excluded.model,
            created_at = excluded.created_at,
            updated_at = excluded.updated_at,
            temperature = excluded.temperature,
            top_p = excluded.top_p,
            top_k = excluded.top_k
        ";

pub const MESSAGES_TABLE_SQL: &'static str = "
        CREATE TABLE IF NOT EXISTS messages (
            message_id TEXT PRIMARY KEY,
            session_id TEXT NOT NULL,
            sequence INTEGER NOT NULL,
            role INTEGER NOT NULL,
            content TEXT NOT NULL,
            created_at INTEGER NOT NULL,
            FOREIGN KEY (session_id)
                REFERENCES sessions(session_id)
                ON DELETE CASCADE
        );

        CREATE INDEX IF NOT EXISTS idx_messages_session_sequence
            ON messages(session_id, sequence);
        ";

pub const MESSAGES_SELECT_ALL_SQL: &'static str = "
        SELECT message_id, session_id, sequence, role, content, created_at
        FROM messages
        ORDER BY session_id, sequence
        ";

pub const MESSAGES_SELECT_HEAD: &'static str = "
            SELECT message_id, session_id, sequence, role, content, created_at
            FROM messages
            ";

pub const MESSAGES_SELECT_TAIL: &'static str = "
            ORDER BY sequence
            ";

pub const MESSAGES_UPSERT_SQL: &'static str = "
        INSERT INTO messages (
            message_id, session_id, sequence, role, content, created_at
        )
        VALUES (?1, ?2, ?3, ?4, ?5, ?6)
        ON CONFLICT(message_id) DO UPDATE SET
            session_id = excluded.session_id,
            sequence = excluded.sequence,
            role = excluded.role,
            content = excluded.content,
            created_at = excluded.created_at
        ";

impl RecordSchema for SessionRecord {
    open spec fn table_name_spec() -> Seq<char> {
        "sessions"@
    }

    fn table_name() -> (r: &'static str) {
        "sessions"
    }

    fn create_table_sql() -> (r: &'static str)
        ensures
            r@ == SESSIONS_TABLE_SQL@,
    {
        SESSIONS_TABLE_SQL
    }
}

impl RecordSql for SessionRecord {
    open spec fn select_filtered_spec(where_clause: Seq<char>) -> Seq<char> {
        SESSIONS_SELECT_HEAD@ + where_clause + SESSIONS_SELECT_TAIL@
    }

    fn select_all_sql() -> (r: &'static str)
        ensures
            r@ == SESSIONS_SELECT_ALL_SQL@,
    {
        SESSIONS_SELECT_ALL_SQL
    }

    fn select_filtered_sql(where_clause: &str) -> (r: String) {
        let mut out: Vec<char> = Vec::new();
        push_str_chars(&mut out, SESSIONS_SELECT_HEAD);
        push_str_chars(&mut out, where_clause);
        push_str_chars(&mut out, SESSIONS_SELECT_TAIL);
        string_from_chars(out.as_slice())
    }

    fn upsert_sql() -> (r: &'static str)
        ensures
            r@ == SESSIONS_UPSERT_SQL@,
    {
        SESSIONS_UPSERT_SQL
    }
}

impl RecordSchema for MessageRecord {
    open spec fn table_name_spec() -> Seq<char> {
        "messages"@
    }

    fn table_name() -> (r: &'static str) {
        "messages"
    }

    fn create_table_sql() -> (r: &'static str)
        ensures
            r@ == MESSAGES_TABLE_SQL@,
    {
        MESSAGES_TABLE_SQL
    }
}

impl RecordSql for MessageRecord {
    open spec fn select_filtered_spec(where_clause: Seq<char>) -> Seq<char> {
        MESSAGES_SELECT_HEAD@ + where_clause + MESSAGES_SELECT_TAIL@
    }

    fn select_all_sql() -> (r: &'static str)
        ensures
            r@ == MESSAGES_SELECT_ALL_SQL@,
    {
        MESSAGES_SELECT_ALL_SQL
    }

    fn select_filtered_sql(where_clause: &str) -> (r: String) {
        let mut out: Vec<char> = Vec::new();
        push_str_chars(&mut out, MESSAGES_SELECT_HEAD);
        push_str_chars(&mut out, where_clause);
        push_str_chars(&mut out, MESSAGES_SELECT_TAIL);
        string_from_chars(out.as_slice())
    }

    fn upsert_sql() -> (r: &'static str)
        ensures
            r@ == MESSAGES_UPSERT_SQL@,
    {
        MESSAGES_UPSERT_SQL
    }
}

} // verus!
