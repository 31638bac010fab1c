//! The chat turn logic behind the desktop commands: numbering and naming,
//! the records a turn writes, and the conversation sent to the model.

use vstd::prelude::*;

use crate::agent::agent::ChatRequestMessage;
use crate::storage::llm_provider_config::LlmProviderConfig;
use crate::storage::chat_record::{
    MessageRecord, SessionRecord, MESSAGE_ROLE_ASSISTANT, MESSAGE_ROLE_USER,
};
use crate::text::{
    chars_eq, i64_dec_chars, int_dec_seq, push_all, push_str_chars, str_chars, string_from_chars,
    trim_chars, trim_seq,
};

verus! {

/// What is stored when the agent produced neither text nor a tool call.
pub const EMPTY_AGENT_RESPONSE: &'static str = "The agent returned an empty response.";

/// The title of a session that has no message yet.
pub const NEW_SESSION_TITLE: &'static str = "New session";

/// The title given to an empty tool name.
pub const UNKNOWN_TOOL_NAME: &'static str = "Unknown tool";

/// The number of characters a session title keeps from the first message.
pub const TITLE_MAX_CHARS: usize = 48;

/// The sampling settings of a new session: temperature 0.7 (as IEEE-754
/// bits), top-p 100, top-k 40.
pub const DEFAULT_TEMPERATURE_BITS: u64 = 0x3FE6_6666_6666_6666;
pub const DEFAULT_TOP_P: i16 = 100;
pub const DEFAULT_TOP_K: i16 = 40;

/// The largest sequence number among the messages, if any.
pub open spec fn max_sequence(ms: Seq<MessageRecord>) -> Option<int>
    decreases ms.len(),
{
    if ms.len() == 0 {
        None
    } else {
        match max_sequence(ms.drop_last()) {
            Some(m) => Some(if ms.last().sequence > m { ms.last().sequence as int } else { m }),
            None => Some(ms.last().sequence as int),
        }
    }
}

/// The sequence number of the next message: one past the largest, or 0.
pub open spec fn next_sequence_spec(ms: Seq<MessageRecord>) -> int {
    match max_sequence(ms) {
        Some(m) => m + 1,
        None => 0,
    }
}

proof fn lemma_max_sequence(ms: Seq<MessageRecord>)
    ensures
        max_sequence(ms) is Some <==> ms.len() > 0,
        max_sequence(ms) matches Some(m) ==> (forall|i: int|
            0 <= i < ms.len() ==> (#[trigger] ms[i]).sequence <= m) && (exists|i: int|
            0 <= i < ms.len() && (#[trigger] ms[i]).sequence == m),
    decreases ms.len(),
{
    if ms.len() > 0 {
        let d = ms.drop_last();
        lemma_max_sequence(d);
        assert forall|i: int| 0 <= i < d.len() implies #[trigger] ms[i] == d[i] by {}
        let last = ms.len() - 1;
        assert(ms[last] == ms.last());
    }
}

/// The sequence number for the next message of a session: one past the
/// largest one stored, or 0 for an empty session.
pub fn next_sequence(messages: &[MessageRecord]) -> (r: i64)
    requires
        forall|i: int| 0 <= i < messages@.len() ==> (#[trigger] messages@[i]).sequence < i64::MAX,
    ensures
        r == next_sequence_spec(messages@),
{
    let mut best: Option<i64> = None;
    let mut i: usize = 0;
    while i < messages.len()
        invariant
            i <= messages@.len(),
            best == (match max_sequence(messages@.take(i as int)) {
                Some(m) => Some(m as i64),
                None => None::<i64>,
            }),
            max_sequence(messages@.take(i as int)) matches Some(m) ==> i64::MIN <= m < i64::MAX,
            forall|j: int| 0 <= j < messages@.len() ==> (#[trigger] messages@[j]).sequence < i64::MAX,
        decreases messages@.len() - i,
    {
        let s = messages[i].sequence;
        let ghost t = messages@.take(i + 1);
        assert(t.drop_last() =~= messages@.take(i as int));
        best = match best {
            Some(b) => Some(if s > b { s } else { b }),
            None => Some(s),
        };
        i = i + 1;
    }
    assert(messages@.take(messages@.len() as int) =~= messages@);
    match best {
        Some(b) => b + 1,
        None => 0,
    }
}

/// The next sequence number is larger than every stored one.
pub proof fn next_sequence_is_fresh(ms: Seq<MessageRecord>)
    ensures
        forall|i: int| 0 <= i < ms.len() ==> (#[trigger] ms[i]).sequence < next_sequence_spec(ms),
        ms.len() == 0 ==> next_sequence_spec(ms) == 0,
{
    lemma_max_sequence(ms);
}

/// The reply of a turn is stored after the user's message: once the
/// message numbered `next_sequence_spec(ms)` is stored, the next number is
/// one past it.
pub proof fn reply_follows_user_message(ms: Seq<MessageRecord>, user: MessageRecord)
    requires
        user.sequence == next_sequence_spec(ms),
    ensures
        next_sequence_spec(ms.push(user)) == user.sequence + 1,
{
    lemma_max_sequence(ms);
    let all = ms.push(user);
    assert(all.drop_last() =~= ms);
}

/// The title a session takes from its first message: the message trimmed
/// and cut to 48 characters, or `New session` when nothing is left.
pub open spec fn title_spec(message: Seq<char>) -> Seq<char> {
    let t = trim_seq(message);
    if t.len() == 0 {
        NEW_SESSION_TITLE@
    } else if t.len() <= TITLE_MAX_CHARS {
        t
    } else {
        t.take(TITLE_MAX_CHARS as int)
    }
}

/// The session title derived from a message.
pub fn title_from_message(message: &str) -> (r: String)
    ensures
        r@ == title_spec(message@),
{
    let cs = str_chars(message);
    let t = trim_chars(cs.as_slice());
    if t.len() == 0 {
        return String::from_str(NEW_SESSION_TITLE);
    }
    let n = if t.len() <= TITLE_MAX_CHARS {
        t.len()
    } else {
        TITLE_MAX_CHARS
    };
    let mut out: Vec<char> = Vec::new();
    let mut i: usize = 0;
    while i < n
        invariant
            i <= n <= t@.len(),
            out@ == t@.take(i as int),
        decreases n - i,
    {
        out.push(t[i]);
        i = i + 1;
        assert(out@ =~= t@.take(i as int));
    }
    assert(n == t@.len() ==> t@.take(n as int) =~= t@);
    string_from_chars(out.as_slice())
}

/// A title is the start of the trimmed message: its first 48 characters,
/// or all of it when shorter; only a blank message gives `New session`.
pub proof fn title_is_start_of_message(message: Seq<char>)
    ensures
        trim_seq(message).len() > 0 ==> {
            &&& title_spec(message).len() == (if trim_seq(message).len() < TITLE_MAX_CHARS {
                trim_seq(message).len() as int
            } else {
                TITLE_MAX_CHARS as int
            })
            &&& forall|i: int|
                0 <= i < title_spec(message).len() ==> #[trigger] title_spec(message)[i]
                    == trim_seq(message)[i]
        },
        trim_seq(message).len() == 0 ==> title_spec(message) == NEW_SESSION_TITLE@,
{
}


/// A session title is never blank and never longer than 48 characters.
pub proof fn title_is_short_and_not_blank(message: Seq<char>)
    ensures
        0 < title_spec(message).len() <= TITLE_MAX_CHARS,
{
    reveal_strlit("New session");
}

/// The name shown for a tool: trimmed, or `Unknown tool` when blank.
pub open spec fn display_tool_name_spec(name: Seq<char>) -> Seq<char> {
    if trim_seq(name).len() == 0 {
        UNKNOWN_TOOL_NAME@
    } else {
        trim_seq(name)
    }
}

/// The name shown for a tool.
pub fn display_tool_name(tool_name: &str) -> (r: String)
    ensures
        r@ == display_tool_name_spec(tool_name@),
{
    let cs = str_chars(tool_name);
    let t = trim_chars(cs.as_slice());
    if t.len() == 0 {
        String::from_str(UNKNOWN_TOOL_NAME)
    } else {
        string_from_chars(t.as_slice())
    }
}

/// A tool is never shown with a blank name.
pub proof fn tool_name_is_never_blank(name: Seq<char>)
    ensures
        display_tool_name_spec(name).len() > 0,
{
    reveal_strlit("Unknown tool");
}

/// The request message a stored message turns into, if any: blank messages,
/// system and tool messages, and the placeholder for an empty agent reply
/// are left out.
pub open spec fn request_message_for(m: MessageRecord) -> Option<ChatRequestMessage> {
    if trim_seq(m.content@).len() == 0 {
        None
    } else if m.role == MESSAGE_ROLE_USER {
        Some(ChatRequestMessage::User(m.content))
    } else if m.role == MESSAGE_ROLE_ASSISTANT && trim_seq(m.content@) != EMPTY_AGENT_RESPONSE@ {
        Some(ChatRequestMessage::Assistant(m.content))
    } else {
        None
    }
}

/// The conversation sent to the model for a list of stored messages.
pub open spec fn request_messages_spec(ms: Seq<MessageRecord>) -> Seq<ChatRequestMessage>
    decreases ms.len(),
{
    if ms.len() == 0 {
        Seq::empty()
    } else {
        request_messages_spec(ms.drop_last()) + match request_message_for(ms.last()) {
            Some(r) => seq![r],
            None => Seq::empty(),
        }
    }
}

/// The conversation sent to the model: the user and assistant messages, in
/// order, without blank ones and without the empty-reply placeholder.
pub fn chat_request_messages(messages: &[MessageRecord]) -> (r: Vec<ChatRequestMessage>)
    ensures
        r@ == request_messages_spec(messages@),
{
    let empty_reply = str_chars(EMPTY_AGENT_RESPONSE);
    let mut r: Vec<ChatRequestMessage> = Vec::new();
    let mut i: usize = 0;
    while i < messages.len()
        invariant
            i <= messages@.len(),
            empty_reply@ == EMPTY_AGENT_RESPONSE@,
            r@ == request_messages_spec(messages@.take(i as int)),
        decreases messages@.len() - i,
    {
        let m = &messages[i];
        let ghost next = messages@.take(i + 1);
        assert(next.drop_last() =~= messages@.take(i as int));
        let cs = str_chars(m.content.as_str());
        let t = trim_chars(cs.as_slice());
        if t.len() != 0 {
            if m.role == MESSAGE_ROLE_USER {
                r.push(ChatRequestMessage::User(m.content.clone()));
            } else if m.role == MESSAGE_ROLE_ASSISTANT {
                if !chars_eq(t.as_slice(), empty_reply.as_slice()) {
                    r.push(ChatRequestMessage::Assistant(m.content.clone()));
                }
            }
        }
        i = i + 1;
        assert(r@ =~= request_messages_spec(next));
    }
    assert(messages@.take(messages@.len() as int) =~= messages@);
    r
}

/// `prefix-n`, the id of message `n` of a session.
pub open spec fn message_id_text(session_id: Seq<char>, sequence: int) -> Seq<char> {
    session_id + "-"@ + int_dec_seq(sequence)
}

/// `session-now`, the id of a session created at `now`.
pub open spec fn session_id_text(now: int) -> Seq<char> {
    "session-"@ + int_dec_seq(now)
}

/// The session shown at start-up and after a deletion: the first listed
/// (the session list comes most recently updated first), or `None` when no
/// session is left and a new one is to be created.
pub fn session_to_show(sessions: &[SessionRecord]) -> (r: Option<SessionRecord>)
    ensures
        sessions@.len() == 0 ==> r is None,
        sessions@.len() > 0 ==> r == Some(sessions@[0]),
{
    if sessions.len() == 0 {
        None
    } else {
        Some(sessions[0].duplicate())
    }
}


/// A new, empty session created at `now` (milliseconds) for `model`.
pub fn new_session_record(now: i64, model: &str) -> (r: SessionRecord)
    ensures
        r.session_id@ == session_id_text(now as int),
        r.title@ == NEW_SESSION_TITLE@,
        r.model@ == model@,
        r.created_at == now,
        r.updated_at == now,
        r.temperature_bits == DEFAULT_TEMPERATURE_BITS,
        r.top_p == DEFAULT_TOP_P,
        r.top_k == DEFAULT_TOP_K,
{
    let mut id: Vec<char> = Vec::new();
    push_str_chars(&mut id, "session-");
    let digits = i64_dec_chars(now);
    push_all(&mut id, digits.as_slice());
    SessionRecord {
        session_id: string_from_chars(id.as_slice()),
        title: String::from_str(NEW_SESSION_TITLE),
        model: String::from_str(model),
        created_at: now,
        updated_at: now,
        temperature_bits: DEFAULT_TEMPERATURE_BITS,
        top_p: DEFAULT_TOP_P,
        top_k: DEFAULT_TOP_K,
    }
}

/// Message `sequence` of session `session_id`.
pub fn message_record(session_id: &str, sequence: i64, role: u16, content: &str, now: i64) -> (r:
    MessageRecord)
    ensures
        r.message_id@ == message_id_text(session_id@, sequence as int),
        r.session_id@ == session_id@,
        r.sequence == sequence,
        r.role == role,
        r.content@ == content@,
        r.created_at == now,
{
    let mut id = str_chars(session_id);
    push_str_chars(&mut id, "-");
    let digits = i64_dec_chars(sequence);
    push_all(&mut id, digits.as_slice());
    MessageRecord {
        message_id: string_from_chars(id.as_slice()),
        session_id: String::from_str(session_id),
        sequence,
        role,
        content: String::from_str(content),
        created_at: now,
    }
}

/// Why a message was not sent.
#[derive(Debug, Clone, Copy, PartialEq, Eq, Structural)]
pub enum SendError {
    /// The message is blank.
    EmptyMessage,
}

impl SendError {
    /// The text the error is reported with.
    pub fn message(&self) -> (r: &'static str)
        ensures
            r@ == "message content cannot be empty"@,
    {
        "message content cannot be empty"
    }
}

/// The content of a message to send: the text trimmed, refused when blank.
pub fn validate_message_content(content: &str) -> (r: Result<String, SendError>)
    ensures
        trim_seq(content@).len() == 0 <==> r is Err,
        r matches Ok(c) ==> c@ == trim_seq(content@),
        r matches Err(e) ==> e == SendError::EmptyMessage,
{
    let cs = str_chars(content);
    let t = trim_chars(cs.as_slice());
    if t.len() == 0 {
        Err(SendError::EmptyMessage)
    } else {
        Ok(string_from_chars(t.as_slice()))
    }
}

/// What a user turn writes and sends.
#[derive(Debug)]
pub struct UserTurn {
    /// The session, retitled from the message if it was new, and touched.
    pub session: SessionRecord,
    /// The stored user message.
    pub message: MessageRecord,
    /// The conversation sent to the model, ending with the new message.
    pub request: Vec<ChatRequestMessage>,
}

/// The records of a user turn: the message `content` (already trimmed and
/// not blank) becomes the next message of the session at `now`; a session
/// still titled `New session` takes its title from it; the conversation
/// that follows is the stored one with the new message appended.
pub fn prepare_user_turn(
    session: SessionRecord,
    messages: Vec<MessageRecord>,
    content: &str,
    now: i64,
) -> (r: UserTurn)
    requires
        forall|i: int| 0 <= i < messages@.len() ==> (#[trigger] messages@[i]).sequence < i64::MAX,
    ensures
        r.session.title@ == (if session.title@ == NEW_SESSION_TITLE@ {
            title_spec(content@)
        } else {
            session.title@
        }),
        r.session.updated_at == now,
        r.session.session_id == session.session_id,
        r.session.model == session.model,
        r.session.created_at == session.created_at,
        r.session.temperature_bits == session.temperature_bits,
        r.session.top_p == session.top_p,
        r.session.top_k == session.top_k,
        r.message.sequence == next_sequence_spec(messages@),
        r.message.message_id@ == message_id_text(session.session_id@, next_sequence_spec(messages@)),
        r.message.session_id@ == session.session_id@,
        r.message.role == MESSAGE_ROLE_USER,
        r.message.content@ == content@,
        r.message.created_at == now,
        r.request@ == request_messages_spec(messages@.push(r.message)),
{
    let sequence = next_sequence(messages.as_slice());
    let message = message_record(session.session_id.as_str(), sequence, MESSAGE_ROLE_USER, content, now);
    let new_title = str_chars(NEW_SESSION_TITLE);
    let current_title = str_chars(session.title.as_str());
    let title = if chars_eq(current_title.as_slice(), new_title.as_slice()) {
        title_from_message(content)
    } else {
        session.title.clone()
    };
    let updated = SessionRecord {
        session_id: session.session_id,
        title,
        model: session.model,
        created_at: session.created_at,
        updated_at: now,
        temperature_bits: session.temperature_bits,
        top_p: session.top_p,
        top_k: session.top_k,
    };
    let mut all = messages;
    all.push(message.duplicate());
    let request = chat_request_messages(all.as_slice());
    UserTurn { session: updated, message, request }
}

/// What is stored for the agent's reply: its text; the empty-reply
/// placeholder when it is blank and no tool ran; nothing when it is blank
/// after tool calls.
pub open spec fn reply_body_spec(content: Seq<char>, tool_event_seen: bool) -> Option<Seq<char>> {
    if trim_seq(content).len() == 0 {
        if tool_event_seen {
            None
        } else {
            Some(EMPTY_AGENT_RESPONSE@)
        }
    } else {
        Some(content)
    }
}

/// The body of the assistant message stored after a reply, if any.
pub fn assistant_reply_body(content: &str, tool_event_seen: bool) -> (r: Option<String>)
    ensures
        match r {
            Some(b) => reply_body_spec(content@, tool_event_seen) == Some(b@),
            None => reply_body_spec(content@, tool_event_seen) is None,
        },
{
    let cs = str_chars(content);
    let t = trim_chars(cs.as_slice());
    if t.len() == 0 {
        if tool_event_seen {
            None
        } else {
            Some(String::from_str(EMPTY_AGENT_RESPONSE))
        }
    } else {
        Some(String::from_str(content))
    }
}


/// The settings shown by the settings view.
#[derive(Debug, Clone)]
pub struct SettingsSnapshot {
    pub provider_config: LlmProviderConfig,
    pub mcp_config_json: String,
    pub mcp_configured_server_count: usize,
    pub mcp_server_count: usize,
    pub mcp_tool_count: usize,
}

/// A message typed by the user for a session.
#[derive(Debug, Clone)]
pub struct SendMessageRequest {
    pub session_id: String,
    pub content: String,
}

/// What the frontend hears while a reply streams.
#[derive(Debug, Clone, PartialEq, Eq)]
pub enum ChatStreamEvent {
    Token { token: String },
    Completed { full_text: String },
    Error { error: String },
    Usage { summary: String },
    ToolStarted { tool_name: String, arguments: String },
    ToolCompleted { tool_name: String, result: String },
}

/// What a stream listener remembers: whether an error was already reported,
/// and whether a tool ran.
#[derive(Debug, Clone, Copy)]
pub struct StreamListener {
    pub error_sent: bool,
    pub tool_seen: bool,
}

impl StreamListener {
    /// No error reported, no tool seen.
    pub fn new() -> (r: Self)
        ensures
            !r.error_sent,
            !r.tool_seen,
    {
        StreamListener { error_sent: false, tool_seen: false }
    }

    /// A piece of text is passed on as it is.
    pub fn on_token(&self, token: &str) -> (r: ChatStreamEvent)
        ensures
            r matches ChatStreamEvent::Token { token: t } && t@ == token@,
    {
        ChatStreamEvent::Token { token: String::from_str(token) }
    }

    /// The full text is passed on when the reply completes.
    pub fn on_complete(&self, full_text: &str) -> (r: ChatStreamEvent)
        ensures
            r matches ChatStreamEvent::Completed { full_text: t } && t@ == full_text@,
    {
        ChatStreamEvent::Completed { full_text: String::from_str(full_text) }
    }

    /// Only the first error of a reply is passed on.
    pub fn on_error(&mut self, error: &str) -> (r: Option<ChatStreamEvent>)
        ensures
            final(self).error_sent,
            final(self).tool_seen == old(self).tool_seen,
            old(self).error_sent ==> r is None,
            !old(self).error_sent ==> (r matches Some(ChatStreamEvent::Error { error: e }) && e@
                == error@),
    {
        if self.error_sent {
            return None;
        }
        self.error_sent = true;
        Some(ChatStreamEvent::Error { error: String::from_str(error) })
    }

    /// A usage report is passed on as a summary line.
    pub fn on_usage(&self, summary: &str) -> (r: ChatStreamEvent)
        ensures
            r matches ChatStreamEvent::Usage { summary: t } && t@ == summary@,
    {
        ChatStreamEvent::Usage { summary: String::from_str(summary) }
    }

    /// A tool starts: it is remembered, and announced under its display name.
    pub fn on_tool_start(&mut self, tool_name: &str, arguments: &str) -> (r: ChatStreamEvent)
        ensures
            final(self).tool_seen,
            final(self).error_sent == old(self).error_sent,
            r matches ChatStreamEvent::ToolStarted { tool_name: n, arguments: a } && n@
                == display_tool_name_spec(tool_name@) && a@ == arguments@,
    {
        self.tool_seen = true;
        ChatStreamEvent::ToolStarted {
            tool_name: display_tool_name(tool_name),
            arguments: String::from_str(arguments),
        }
    }

    /// A tool finished: it is remembered, and its result announced under its
    /// display name.
    pub fn on_tool_result(&mut self, tool_name: &str, result: &str) -> (r: ChatStreamEvent)
        ensures
            final(self).tool_seen,
            final(self).error_sent == old(self).error_sent,
            r matches ChatStreamEvent::ToolCompleted { tool_name: n, result: t } && n@
                == display_tool_name_spec(tool_name@) && t@ == result@,
    {
        self.tool_seen = true;
        ChatStreamEvent::ToolCompleted {
            tool_name: display_tool_name(tool_name),
            result: String::from_str(result),
        }
    }
}

/// The error of a session that is not stored.
pub fn session_not_found_message(session_id: &str) -> (r: String)
    ensures
        r@ == "session could not be found: "@ + session_id@,
{
    crate::text::concat_str("session could not be found: ", session_id)
}

} // verus!
