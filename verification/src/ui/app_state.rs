//! The state of the desktop chat window and how each user action or stream
//! event changes it. Work on the database, the files and the agent is named
//! by the returned action; its outcome comes back through the methods that
//! take a result.

use vstd::prelude::*;

use super::chat::{
    blocks_view, chat_blocks_spec, chat_message_from_record, fresh_message, record_kind, ChatMessage,
    ChatMessageKind,
};
use super::settings::{
    config_from_form, load_more_sessions, normalized_count, normalized_visible_session_count, LlmProviderForm,
    SettingsTab, INITIAL_RECENT_SESSION_COUNT, RECENT_SESSION_PAGE_SIZE,
};
use super::transcript::{
    completed_post, failed_post, streaming_after_tool, tool_completed_post, tool_started_post,
    toggled_post, token_post, Transcript,
};
use crate::agent::agent::ChatRequestMessage;
use crate::backend::{
    next_sequence, next_sequence_spec, session_id_text, title_from_message, title_spec,
    DEFAULT_TEMPERATURE_BITS, DEFAULT_TOP_K, DEFAULT_TOP_P, EMPTY_AGENT_RESPONSE,
    NEW_SESSION_TITLE,
};
use crate::storage::chat_record::{MessageRecord, SessionRecord};
use crate::agent::agent_preset::DEFAULT_AGENT_MODEL;
use crate::storage::llm_provider_config::{
    LlmProviderConfig, DEFAULT_OPENAI_BASE_URL, DEFAULT_PROVIDER_NAME,
};
use crate::text::{chars_eq, concat_str, str_chars, string_from_chars, trim_chars, trim_seq};

verus! {

/// What the user did, or what the agent's stream reported.
#[derive(Debug)]
pub enum AppMessage {
    DraftChanged(String),
    NewSession,
    SessionSelected(String),
    DeleteSession(String),
    LoadMoreSessions,
    OpenSettings,
    CloseSettings,
    SettingsTabSelected(SettingsTab),
    LlmProviderNameChanged(String),
    LlmBaseUrlChanged(String),
    LlmApiKeyChanged(String),
    LlmDefaultModelChanged(String),
    LlmModelsChanged(String),
    ChangeLlmProviderConfig,
    CancelLlmProviderConfigChange,
    SaveLlmProviderConfig,
    ReloadLlmProviderConfig,
    /// The MCP editor's text after an edit.
    McpServersConfigEdited(String),
    ChangeMcpServersConfig,
    CancelMcpServersConfigChange,
    SaveMcpServersConfig,
    ReloadMcpServersConfig,
    /// The icon font was loaded, or failed with the given description.
    IconFontLoaded(Result<(), String>),
    /// The emoji font file was read from the given path, or not found.
    EmojiFontBytesLoaded(Result<String, String>),
    /// The emoji font from the given path was loaded, or failed.
    EmojiFontLoaded(String, Result<(), String>),
    Send,
    ChatStreamToken(String),
    ChatStreamCompleted(String),
    ChatStreamFailed(String),
    ChatStreamUsage,
    ToolCallStarted { tool_name: String, arguments: String },
    ToolCallCompleted { tool_name: String, result: String },
    ToggleToolCallDetail(usize),
    MarkdownLinkClicked,
}

/// The outside work an update calls for.
#[derive(Debug, Clone)]
pub enum AppAction {
    Nothing,
    ScrollToBottom,
    /// Start a fresh session (see `start_new_session`).
    StartNewSession,
    /// Show the session with this id (see `find_recent_session`).
    SelectSession(String),
    /// Delete the records of this session (see `after_delete`).
    DeleteSession(String),
    /// Check and store this provider configuration and hand it to the agents.
    SaveProviderConfig(LlmProviderConfig),
    /// Read the stored provider configuration back into the form.
    CancelProviderConfigChange,
    /// Read the stored provider configuration and hand it to the agents.
    ReloadProviderConfig,
    /// Store this MCP configuration text and reconnect the servers.
    SaveMcpServersConfig(String),
    /// Read the stored MCP configuration back into the editor.
    CancelMcpServersConfigChange,
    /// Reconnect the configured MCP servers.
    ReloadMcpServersConfig,
    /// Load the emoji font read from this path.
    LoadEmojiFont(String),
    /// Store the user's message as message `sequence` of the session, store
    /// the session, refresh the session list, then call `begin_reply`.
    PersistUserMessage { content: String, sequence: i64 },
    /// Store the reply as message `sequence` of the session, store the
    /// session and refresh the session list.
    StoreReply { body: String, sequence: i64 },
    /// Store the session and refresh the session list.
    TouchSession,
}

/// What follows the deletion of a session.
#[derive(Debug, Clone)]
pub enum AfterDelete {
    /// Another session was deleted: the current one stays.
    KeepCurrent,
    /// The current session was deleted: show this one.
    LoadSession(SessionRecord),
    /// The current session was deleted and none is left: start a new one.
    StartNewSession,
}

/// The MCP settings after the servers were (re)connected: the configuration
/// as text (or why it could not be shown) and the counts.
#[derive(Debug)]
pub struct McpStatus {
    pub config_json: Result<String, String>,
    pub configured_server_count: usize,
    pub server_count: usize,
    pub tool_count: usize,
}

/// The chat window.
#[derive(Debug)]
pub struct AppState {
    pub session_id: String,
    pub session_title: String,
    pub session_model: String,
    pub session_created_at: i64,
    pub next_sequence: i64,
    pub draft: String,
    pub recent_sessions: Vec<SessionRecord>,
    pub visible_session_count: usize,
    pub is_settings_open: bool,
    pub settings_tab: SettingsTab,
    pub is_icon_font_loaded: bool,
    pub is_emoji_font_loaded: bool,
    pub emoji_font_path: Option<String>,
    pub emoji_font_error: Option<String>,
    pub llm_form: LlmProviderForm,
    pub is_llm_provider_changing: bool,
    pub llm_config_status: Option<String>,
    pub mcp_config_text: String,
    pub is_mcp_config_changing: bool,
    pub mcp_config_status: Option<String>,
    pub transcript: Transcript,
    pub mcp_configured_server_count: usize,
    pub mcp_server_count: usize,
    pub mcp_tool_count: usize,
}

/// `new` is `old` with a system message saying `text` added at the end.
pub open spec fn system_message_added(old: Transcript, new: Transcript, text: Seq<char>) -> bool {
    &&& new.messages@.len() == old.messages@.len() + 1
    &&& new.messages@.drop_last() =~= old.messages@
    &&& fresh_message(new.messages@.last(), ChatMessageKind::System, "System"@, text)
    &&& new.streaming_assistant_index == old.streaming_assistant_index
    &&& new.is_waiting_for_agent == old.is_waiting_for_agent
}

/// The request message a transcript message turns into, if any: blank
/// messages, system and tool messages, and the empty-reply notice are left
/// out.
pub open spec fn transcript_request_for(m: ChatMessage) -> Option<ChatRequestMessage> {
    if trim_seq(m.body@).len() == 0 {
        None
    } else if m.kind == ChatMessageKind::User {
        Some(ChatRequestMessage::User(m.body))
    } else if m.kind == ChatMessageKind::Assistant && trim_seq(m.body@) != EMPTY_AGENT_RESPONSE@ {
        Some(ChatRequestMessage::Assistant(m.body))
    } else {
        None
    }
}

/// The conversation sent to the model for the messages shown.
pub open spec fn transcript_request_spec(ms: Seq<ChatMessage>) -> Seq<ChatRequestMessage>
    decreases ms.len(),
{
    if ms.len() == 0 {
        Seq::empty()
    } else {
        transcript_request_spec(ms.drop_last()) + match transcript_request_for(ms.last()) {
            Some(r) => seq![r],
            None => Seq::empty(),
        }
    }
}

/// The conversation sent to the model for the messages shown.
pub fn transcript_request_messages(messages: &[ChatMessage]) -> (r: Vec<ChatRequestMessage>)
    ensures
        r@ == transcript_request_spec(messages@),
{
    let empty_reply = str_chars(EMPTY_AGENT_RESPONSE);
    let mut r: Vec<ChatRequestMessage> = Vec::new();
    let mut i: usize = 0;
    while i < messages.len()
        invariant
            i <= messages@.len(),
            empty_reply@ == EMPTY_AGENT_RESPONSE@,
            r@ == transcript_request_spec(messages@.take(i as int)),
        decreases messages@.len() - i,
    {
        let m = &messages[i];
        let ghost next = messages@.take(i + 1);
        assert(next.drop_last() =~= messages@.take(i as int));
        let cs = str_chars(m.body.as_str());
        let t = trim_chars(cs.as_slice());
        if t.len() != 0 {
            match m.kind {
                ChatMessageKind::User => {
                    r.push(ChatRequestMessage::User(m.body.clone()));
                },
                ChatMessageKind::Assistant => {
                    if !chars_eq(t.as_slice(), empty_reply.as_slice()) {
                        r.push(ChatRequestMessage::Assistant(m.body.clone()));
                    }
                },
                _ => {},
            }
        }
        i = i + 1;
        assert(r@ =~= transcript_request_spec(next));
    }
    assert(messages@.take(messages@.len() as int) =~= messages@);
    r
}

/// The messages of the conversation proper: the user's and the agent's.
pub open spec fn in_conversation() -> spec_fn(ChatMessage) -> bool {
    |m: ChatMessage| m.kind == ChatMessageKind::User || m.kind == ChatMessageKind::Assistant
}

/// `r` repeats a shown message: a user turn is the body of a user message,
/// an agent turn the body of an assistant message.
pub open spec fn repeats_a_message(r: ChatRequestMessage, ms: Seq<ChatMessage>) -> bool {
    match r {
        ChatRequestMessage::User(b) => exists|i: int|
            0 <= i < ms.len() && (#[trigger] ms[i]).kind == ChatMessageKind::User && ms[i].body == b,
        ChatRequestMessage::Assistant(b) => exists|i: int|
            0 <= i < ms.len() && (#[trigger] ms[i]).kind == ChatMessageKind::Assistant && ms[i].body
                == b,
        _ => false,
    }
}

/// Only the user's and the agent's messages reach the model: the
/// conversation built from the window is the same once its tool and system
/// messages are taken out, and each of its turns repeats a user message as
/// a user turn or an assistant message as an agent turn.
pub proof fn only_the_conversation_reaches_the_model(ms: Seq<ChatMessage>)
    ensures
        transcript_request_spec(ms) == transcript_request_spec(ms.filter(in_conversation())),
        forall|k: int|
            0 <= k < transcript_request_spec(ms).len() ==> repeats_a_message(
                #[trigger] transcript_request_spec(ms)[k],
                ms,
            ),
    decreases ms.len(),
{
    reveal(Seq::filter);
    if ms.len() > 0 {
        let d = ms.drop_last();
        let last = ms.last();
        only_the_conversation_reaches_the_model(d);
        let fd = d.filter(in_conversation());
        if in_conversation()(last) {
            assert(ms.filter(in_conversation()) == fd.push(last));
            assert(fd.push(last).drop_last() =~= fd);
            assert(fd.push(last).last() == last);
        } else {
            assert(ms.filter(in_conversation()) == fd);
            assert(transcript_request_for(last) is None);
        }
        let r = transcript_request_spec(ms);
        let rd = transcript_request_spec(d);
        assert forall|k: int| 0 <= k < r.len() implies repeats_a_message(#[trigger] r[k], ms) by {
            if k < rd.len() {
                assert(r[k] == rd[k]);
                assert(repeats_a_message(rd[k], d));
                match rd[k] {
                    ChatRequestMessage::User(b) => {
                        let i = choose|i: int|
                            0 <= i < d.len() && (#[trigger] d[i]).kind == ChatMessageKind::User
                                && d[i].body == b;
                        assert(ms[i] == d[i]);
                    },
                    ChatRequestMessage::Assistant(b) => {
                        let i = choose|i: int|
                            0 <= i < d.len() && (#[trigger] d[i]).kind == ChatMessageKind::Assistant
                                && d[i].body == b;
                        assert(ms[i] == d[i]);
                    },
                    _ => {},
                }
            } else {
                assert(ms[ms.len() - 1] == last);
            }
        }
    }
}


/// The stored form of the session shown, last updated at `updated_at`.
pub open spec fn session_record_of(s: AppState, updated_at: i64) -> SessionRecord {
    SessionRecord {
        session_id: s.session_id,
        title: s.session_title,
        model: s.session_model,
        created_at: s.session_created_at,
        updated_at,
        temperature_bits: DEFAULT_TEMPERATURE_BITS,
        top_p: DEFAULT_TOP_P,
        top_k: DEFAULT_TOP_K,
    }
}

/// The first stored session with the given id.
pub open spec fn first_session_with_id(ss: Seq<SessionRecord>, id: Seq<char>) -> Option<SessionRecord>
    decreases ss.len(),
{
    if ss.len() == 0 {
        None
    } else if ss[0].session_id@ == id {
        Some(ss[0])
    } else {
        first_session_with_id(ss.drop_first(), id)
    }
}

impl AppState {
    /// The session shown, as stored with `updated_at`.
    pub fn session_record(&self, updated_at: i64) -> (r: SessionRecord)
        ensures
            r == session_record_of(*self, updated_at),
    {
        SessionRecord {
            session_id: self.session_id.clone(),
            title: self.session_title.clone(),
            model: self.session_model.clone(),
            created_at: self.session_created_at,
            updated_at,
            temperature_bits: DEFAULT_TEMPERATURE_BITS,
            top_p: DEFAULT_TOP_P,
            top_k: DEFAULT_TOP_K,
        }
    }

    /// Shows a system message saying `text`.
    pub fn push_system_message(&mut self, text: &str)
        ensures
            (*final(self) == AppState { transcript: final(self).transcript, ..*old(self) }),
            system_message_added(old(self).transcript, final(self).transcript, text@),
    {
        self.transcript.messages.push(ChatMessage::new(ChatMessageKind::System, "System", text));
        proof {
            reveal_strlit("System");
        }
    }

    /// The session list was read again: it replaces the list and the number
    /// shown is brought back in range; a failure is shown as a message.
    pub fn sessions_refreshed(&mut self, result: Result<Vec<SessionRecord>, String>)
        ensures
            match result {
                Ok(ss) => (*final(self) == AppState {
                    recent_sessions: ss,
                    visible_session_count: normalized_count(
                        old(self).visible_session_count,
                        ss@.len() as usize,
                    ),
                    ..*old(self)
                }),
                Err(e) => (*final(self) == AppState { transcript: final(self).transcript, ..*old(self) })
                    && system_message_added(
                    old(self).transcript,
                    final(self).transcript,
                    "Failed to load recent sessions: "@ + e@,
                ),
            },
    {
        match result {
            Ok(sessions) => {
                let n = sessions.len();
                self.recent_sessions = sessions;
                self.visible_session_count = normalized_visible_session_count(self.visible_session_count, n);
            },
            Err(e) => {
                let text = concat_str("Failed to load recent sessions: ", e.as_str());
                self.push_system_message(text.as_str());
            },
        }
    }

    /// The first listed session with the given id.
    pub fn find_recent_session(&self, session_id: &str) -> (r: Option<SessionRecord>)
        ensures
            r == first_session_with_id(self.recent_sessions@, session_id@),
    {
        let wanted = str_chars(session_id);
        let mut i: usize = 0;
        assert(self.recent_sessions@.skip(0) =~= self.recent_sessions@);
        while i < self.recent_sessions.len()
            invariant
                i <= self.recent_sessions@.len(),
                wanted@ == session_id@,
                first_session_with_id(self.recent_sessions@, session_id@) == first_session_with_id(
                    self.recent_sessions@.skip(i as int),
                    session_id@,
                ),
            decreases self.recent_sessions@.len() - i,
        {
            let ghost rest = self.recent_sessions@.skip(i as int);
            assert(rest.drop_first() =~= self.recent_sessions@.skip(i + 1));
            let candidate = str_chars(self.recent_sessions[i].session_id.as_str());
            if chars_eq(candidate.as_slice(), wanted.as_slice()) {
                return Some(self.recent_sessions[i].duplicate());
            }
            i = i + 1;
        }
        None
    }
}


/// `m` shows the stored message `rec`.
pub open spec fn shows_record(m: ChatMessage, rec: MessageRecord) -> bool {
    fresh_message(m, record_kind(rec.role).0, record_kind(rec.role).1, rec.content@)
}

/// `ms` shows the stored messages `recs`, one for one.
pub open spec fn shows_records(ms: Seq<ChatMessage>, recs: Seq<MessageRecord>) -> bool {
    &&& ms.len() == recs.len()
    &&& forall|i: int| 0 <= i < ms.len() ==> shows_record(#[trigger] ms[i], recs[i])
}

/// `new` is `old` with the provider settings status set to `status`, and
/// nothing else changed.
pub open spec fn llm_status_set(old: AppState, new: AppState, status: Seq<char>) -> bool {
    &&& new.llm_config_status matches Some(s) && s@ == status
    &&& (new == AppState { llm_config_status: new.llm_config_status, ..old })
}

/// `new` is `old` with the MCP settings status set to `status`, and
/// nothing else changed.
pub open spec fn mcp_status_set(old: AppState, new: AppState, status: Seq<char>) -> bool {
    &&& new.mcp_config_status matches Some(s) && s@ == status
    &&& (new == AppState { mcp_config_status: new.mcp_config_status, ..old })
}

/// `new` is `old` after the MCP servers were (re)connected with `st`: the
/// editor shows the configuration when it could be written out, the counts
/// are taken over, editing ends and the status says `done`.
pub open spec fn mcp_applied(old: AppState, new: AppState, st: McpStatus, done: Seq<char>) -> bool {
    &&& new.mcp_config_text == (match st.config_json {
        Ok(j) => j,
        Err(_) => old.mcp_config_text,
    })
    &&& new.mcp_configured_server_count == st.configured_server_count
    &&& new.mcp_server_count == st.server_count
    &&& new.mcp_tool_count == st.tool_count
    &&& !new.is_mcp_config_changing
    &&& new.mcp_config_status matches Some(s) && s@ == done
    &&& (new == AppState {
        mcp_config_text: new.mcp_config_text,
        mcp_configured_server_count: new.mcp_configured_server_count,
        mcp_server_count: new.mcp_server_count,
        mcp_tool_count: new.mcp_tool_count,
        is_mcp_config_changing: new.is_mcp_config_changing,
        mcp_config_status: new.mcp_config_status,
        ..old
    })
}

impl AppState {
    /// The window at start-up at `now` (milliseconds), for the agent's
    /// `model`: a new, empty session, the provider form (or the defaults
    /// and why the stored settings could not be read), the MCP editor (or
    /// `default_mcp_json` and why the stored configuration could not be
    /// read), and the MCP counts.
    pub fn new(
        now: i64,
        model: &str,
        form: Result<LlmProviderForm, String>,
        mcp_json: Result<String, String>,
        default_mcp_json: &str,
        mcp_configured_server_count: usize,
        mcp_server_count: usize,
        mcp_tool_count: usize,
    ) -> (r: Self)
        ensures
            r.session_id@ == session_id_text(now as int),
            r.session_title@ == NEW_SESSION_TITLE@,
            r.session_model@ == model@,
            r.session_created_at == now,
            r.next_sequence == 0,
            r.draft@ == Seq::<char>::empty(),
            r.recent_sessions@.len() == 0,
            r.visible_session_count == INITIAL_RECENT_SESSION_COUNT,
            !r.is_settings_open,
            r.settings_tab == SettingsTab::Agent,
            !r.is_icon_font_loaded,
            !r.is_emoji_font_loaded,
            r.emoji_font_path is None,
            r.emoji_font_error is None,
            match form {
                Ok(f) => r.llm_form == f && r.llm_config_status is None,
                Err(e) => {
                    &&& r.llm_form.provider_name@ == DEFAULT_PROVIDER_NAME@
                    &&& r.llm_form.base_url@ == DEFAULT_OPENAI_BASE_URL@
                    &&& r.llm_form.api_key@ == Seq::<char>::empty()
                    &&& r.llm_form.default_model@ == DEFAULT_AGENT_MODEL@
                    &&& r.llm_form.models@ == DEFAULT_AGENT_MODEL@
                    &&& r.llm_config_status matches Some(s) && s@ == "Failed to load provider config: "@ + e@
                },
            },
            !r.is_llm_provider_changing,
            match mcp_json {
                Ok(j) => r.mcp_config_text == j && r.mcp_config_status is None,
                Err(e) => r.mcp_config_text@ == default_mcp_json@ && (r.mcp_config_status matches Some(
                    s,
                ) && s@ == "Failed to load MCP config: "@ + e@),
            },
            !r.is_mcp_config_changing,
            r.transcript.messages@.len() == 0,
            r.transcript.streaming_assistant_index is None,
            !r.transcript.is_waiting_for_agent,
            r.mcp_configured_server_count == mcp_configured_server_count,
            r.mcp_server_count == mcp_server_count,
            r.mcp_tool_count == mcp_tool_count,
    {
        let session = crate::backend::new_session_record(now, model);
        let (llm_form, llm_config_status) = match form {
            Ok(f) => (f, None),
            Err(e) => {
                let defaults = LlmProviderConfig::default_config();
                let form = LlmProviderForm::from_config(&defaults);
                proof {
                    let ids = crate::ui::settings::model_ids(defaults.models@);
                    assert(ids.len() == 1);
                    assert(ids[0] == defaults.models@[0].id@);
                }
                (form, Some(concat_str("Failed to load provider config: ", e.as_str())))
            },
        };
        let (mcp_config_text, mcp_config_status) = match mcp_json {
            Ok(j) => (j, None),
            Err(e) => (
                String::from_str(default_mcp_json),
                Some(concat_str("Failed to load MCP config: ", e.as_str())),
            ),
        };
        AppState {
            session_id: session.session_id,
            session_title: session.title,
            session_model: session.model,
            session_created_at: now,
            next_sequence: 0,
            draft: String::new(),
            recent_sessions: Vec::new(),
            visible_session_count: INITIAL_RECENT_SESSION_COUNT,
            is_settings_open: false,
            settings_tab: SettingsTab::Agent,
            is_icon_font_loaded: false,
            is_emoji_font_loaded: false,
            emoji_font_path: None,
            emoji_font_error: None,
            llm_form,
            is_llm_provider_changing: false,
            llm_config_status,
            mcp_config_text,
            is_mcp_config_changing: false,
            mcp_config_status,
            transcript: Transcript::new(),
            mcp_configured_server_count,
            mcp_server_count,
            mcp_tool_count,
        }
    }

    /// The session to show at start-up: the most recently updated one.
    pub fn initial_session(&self) -> (r: Option<SessionRecord>)
        ensures
            self.recent_sessions@.len() == 0 ==> r is None,
            self.recent_sessions@.len() > 0 ==> r == Some(self.recent_sessions@[0]),
    {
        if self.recent_sessions.len() == 0 {
            None
        } else {
            Some(self.recent_sessions[0].duplicate())
        }
    }

    /// Starts a fresh session at `now`: no message, no draft, nothing
    /// streaming, the session list back to its first page. Returns the
    /// record to store.
    pub fn start_new_session(&mut self, now: i64) -> (r: SessionRecord)
        ensures
            final(self).session_id@ == session_id_text(now as int),
            final(self).session_title@ == NEW_SESSION_TITLE@,
            final(self).session_created_at == now,
            final(self).next_sequence == 0,
            final(self).draft@ == Seq::<char>::empty(),
            final(self).transcript.messages@.len() == 0,
            final(self).transcript.streaming_assistant_index is None,
            final(self).transcript.is_waiting_for_agent == old(self).transcript.is_waiting_for_agent,
            final(self).visible_session_count == INITIAL_RECENT_SESSION_COUNT,
            (*final(self) == AppState {
                session_id: final(self).session_id,
                session_title: final(self).session_title,
                session_created_at: final(self).session_created_at,
                next_sequence: final(self).next_sequence,
                draft: final(self).draft,
                transcript: final(self).transcript,
                visible_session_count: final(self).visible_session_count,
                ..*old(self)
            }),
            r == session_record_of(*final(self), now),
    {
        let fresh = crate::backend::new_session_record(now, self.session_model.as_str());
        self.session_id = fresh.session_id;
        self.session_title = fresh.title;
        self.session_created_at = now;
        self.next_sequence = 0;
        self.draft = String::new();
        self.transcript.messages = Vec::new();
        self.transcript.streaming_assistant_index = None;
        self.visible_session_count = INITIAL_RECENT_SESSION_COUNT;
        self.session_record(now)
    }

    /// Shows a stored session once its messages were read; a failed read is
    /// shown as a message and the current session stays.
    pub fn load_session(&mut self, session: SessionRecord, messages: Result<Vec<MessageRecord>, String>)
        requires
            messages matches Ok(ms) ==> forall|i: int|
                0 <= i < ms@.len() ==> (#[trigger] ms@[i]).sequence < i64::MAX,
        ensures
            match messages {
                Ok(ms) => {
                    &&& final(self).session_id == session.session_id
                    &&& final(self).session_title == session.title
                    &&& final(self).session_model == session.model
                    &&& final(self).session_created_at == session.created_at
                    &&& final(self).next_sequence == next_sequence_spec(ms@)
                    &&& final(self).draft@ == Seq::<char>::empty()
                    &&& shows_records(final(self).transcript.messages@, ms@)
                    &&& final(self).transcript.streaming_assistant_index is None
                    &&& final(self).transcript.is_waiting_for_agent == old(self).transcript.is_waiting_for_agent
                    &&& (*final(self) == AppState {
                        session_id: final(self).session_id,
                        session_title: final(self).session_title,
                        session_model: final(self).session_model,
                        session_created_at: final(self).session_created_at,
                        next_sequence: final(self).next_sequence,
                        draft: final(self).draft,
                        transcript: final(self).transcript,
                        ..*old(self)
                    })
                },
                Err(e) => (*final(self) == AppState { transcript: final(self).transcript, ..*old(self) })
                    && system_message_added(
                    old(self).transcript,
                    final(self).transcript,
                    "Failed to load session messages: "@ + e@,
                ),
            },
    {
        match messages {
            Ok(ms) => {
                let sequence = next_sequence(ms.as_slice());
                let mut shown: Vec<ChatMessage> = Vec::new();
                let mut i: usize = 0;
                while i < ms.len()
                    invariant
                        i <= ms@.len(),
                        shown@.len() == i,
                        forall|k: int| 0 <= k < i ==> shows_record(#[trigger] shown@[k], ms@[k]),
                    decreases ms@.len() - i,
                {
                    shown.push(chat_message_from_record(&ms[i]));
                    i = i + 1;
                }
                self.session_id = session.session_id;
                self.session_title = session.title;
                self.session_model = session.model;
                self.session_created_at = session.created_at;
                self.next_sequence = sequence;
                self.draft = String::new();
                self.transcript.messages = shown;
                self.transcript.streaming_assistant_index = None;
            },
            Err(e) => {
                let text = concat_str("Failed to load session messages: ", e.as_str());
                self.push_system_message(text.as_str());
            },
        }
    }

    /// Shows that the session asked for is not stored.
    pub fn report_missing_session(&mut self, session_id: &str)
        ensures
            (*final(self) == AppState { transcript: final(self).transcript, ..*old(self) }),
            system_message_added(
                old(self).transcript,
                final(self).transcript,
                "Session could not be found: "@ + session_id@,
            ),
    {
        let text = concat_str("Session could not be found: ", session_id);
        self.push_system_message(text.as_str());
    }

    /// What follows once the session `deleted_id` was deleted and the list
    /// refreshed: when it was the one shown, the first listed session is
    /// shown, or a new one started when none is left.
    pub fn after_delete(&self, deleted_id: &str) -> (r: AfterDelete)
        ensures
            deleted_id@ != self.session_id@ ==> r is KeepCurrent,
            deleted_id@ == self.session_id@ && self.recent_sessions@.len() > 0 ==> r
                == AfterDelete::LoadSession(self.recent_sessions@[0]),
            deleted_id@ == self.session_id@ && self.recent_sessions@.len() == 0 ==> r is StartNewSession,
    {
        let a = str_chars(deleted_id);
        let b = str_chars(self.session_id.as_str());
        if !chars_eq(a.as_slice(), b.as_slice()) {
            AfterDelete::KeepCurrent
        } else if self.recent_sessions.len() > 0 {
            AfterDelete::LoadSession(self.recent_sessions[0].duplicate())
        } else {
            AfterDelete::StartNewSession
        }
    }

    /// The provider settings were saved (the agent now runs `model`), or
    /// why they were not.
    pub fn provider_config_saved(&mut self, result: Result<String, String>)
        ensures
            match result {
                Ok(model) => (*final(self) == AppState {
                    session_model: model,
                    is_llm_provider_changing: false,
                    llm_config_status: final(self).llm_config_status,
                    ..*old(self)
                }) && (final(self).llm_config_status matches Some(s) && s@ == "Saved"@),
                Err(e) => llm_status_set(*old(self), *final(self), "Save failed: "@ + e@),
            },
    {
        match result {
            Ok(model) => {
                self.session_model = model;
                self.is_llm_provider_changing = false;
                self.llm_config_status = Some(String::from_str("Saved"));
            },
            Err(e) => {
                self.llm_config_status = Some(concat_str("Save failed: ", e.as_str()));
            },
        }
    }

    /// The provider settings were read again (into `form`, the agent now
    /// running `model`), or why they were not.
    pub fn provider_config_reloaded(&mut self, result: Result<(LlmProviderForm, String), String>)
        ensures
            match result {
                Ok((form, model)) => (*final(self) == AppState {
                    llm_form: form,
                    session_model: model,
                    is_llm_provider_changing: false,
                    llm_config_status: final(self).llm_config_status,
                    ..*old(self)
                }) && (final(self).llm_config_status matches Some(s) && s@ == "Reloaded"@),
                Err(e) => llm_status_set(*old(self), *final(self), "Reload failed: "@ + e@),
            },
    {
        match result {
            Ok((form, model)) => {
                self.llm_form = form;
                self.session_model = model;
                self.is_llm_provider_changing = false;
                self.llm_config_status = Some(String::from_str("Reloaded"));
            },
            Err(e) => {
                self.llm_config_status = Some(concat_str("Reload failed: ", e.as_str()));
            },
        }
    }

    /// Editing the provider settings was abandoned: the stored settings are
    /// shown again, or why they could not be read.
    pub fn provider_change_cancelled(&mut self, result: Result<LlmProviderForm, String>)
        ensures
            match result {
                Ok(form) => (*final(self) == AppState {
                    llm_form: form,
                    is_llm_provider_changing: false,
                    llm_config_status: None,
                    ..*old(self)
                }),
                Err(e) => llm_status_set(*old(self), *final(self), "Cancel failed: "@ + e@),
            },
    {
        match result {
            Ok(form) => {
                self.llm_form = form;
                self.is_llm_provider_changing = false;
                self.llm_config_status = None;
            },
            Err(e) => {
                self.llm_config_status = Some(concat_str("Cancel failed: ", e.as_str()));
            },
        }
    }

    fn apply_mcp_status(&mut self, st: McpStatus, done: &str)
        ensures
            mcp_applied(*old(self), *final(self), st, done@),
    {
        match st.config_json {
            Ok(j) => {
                self.mcp_config_text = j;
            },
            Err(e) => {
                self.mcp_config_status = Some(concat_str("Failed to show MCP config: ", e.as_str()));
            },
        }
        self.mcp_configured_server_count = st.configured_server_count;
        self.mcp_server_count = st.server_count;
        self.mcp_tool_count = st.tool_count;
        self.is_mcp_config_changing = false;
        self.mcp_config_status = Some(String::from_str(done));
    }

    /// The MCP configuration was saved and the servers reconnected, or why
    /// not.
    pub fn mcp_config_saved(&mut self, result: Result<McpStatus, String>)
        ensures
            match result {
                Ok(st) => mcp_applied(*old(self), *final(self), st, "Saved"@),
                Err(e) => mcp_status_set(*old(self), *final(self), "Save failed: "@ + e@),
            },
    {
        match result {
            Ok(st) => self.apply_mcp_status(st, "Saved"),
            Err(e) => {
                self.mcp_config_status = Some(concat_str("Save failed: ", e.as_str()));
            },
        }
    }

    /// The MCP servers were reconnected, or why not.
    pub fn mcp_config_reloaded(&mut self, result: Result<McpStatus, String>)
        ensures
            match result {
                Ok(st) => mcp_applied(*old(self), *final(self), st, "Reloaded"@),
                Err(e) => mcp_status_set(*old(self), *final(self), "Reload failed: "@ + e@),
            },
    {
        match result {
            Ok(st) => self.apply_mcp_status(st, "Reloaded"),
            Err(e) => {
                self.mcp_config_status = Some(concat_str("Reload failed: ", e.as_str()));
            },
        }
    }

    /// Editing the MCP configuration was abandoned: the stored configuration
    /// is shown again, or why it could not be read.
    pub fn mcp_change_cancelled(&mut self, result: Result<String, String>)
        ensures
            match result {
                Ok(j) => (*final(self) == AppState {
                    mcp_config_text: j,
                    is_mcp_config_changing: false,
                    mcp_config_status: None,
                    ..*old(self)
                }),
                Err(e) => mcp_status_set(*old(self), *final(self), "Cancel failed: "@ + e@),
            },
    {
        match result {
            Ok(j) => {
                self.mcp_config_text = j;
                self.is_mcp_config_changing = false;
                self.mcp_config_status = None;
            },
            Err(e) => {
                self.mcp_config_status = Some(concat_str("Cancel failed: ", e.as_str()));
            },
        }
    }

    /// The user's message is stored: the draft is cleared, a reply is
    /// awaited in a new blank placeholder, and the conversation to send is
    /// returned.
    pub fn begin_reply(&mut self) -> (r: Vec<ChatRequestMessage>)
        ensures
            r@ == transcript_request_spec(old(self).transcript.messages@),
            final(self).draft@ == Seq::<char>::empty(),
            final(self).transcript.is_waiting_for_agent,
            final(self).transcript.messages@.len() == old(self).transcript.messages@.len() + 1,
            final(self).transcript.messages@.drop_last() =~= old(self).transcript.messages@,
            fresh_message(
                final(self).transcript.messages@.last(),
                ChatMessageKind::Assistant,
                "Assistant"@,
                Seq::<char>::empty(),
            ),
            final(self).transcript.streaming_assistant_index == Some(
                old(self).transcript.messages@.len() as usize,
            ),
            (*final(self) == AppState {
                draft: final(self).draft,
                transcript: final(self).transcript,
                ..*old(self)
            }),
    {
        let request = transcript_request_messages(self.transcript.messages.as_slice());
        self.draft = String::new();
        self.transcript.is_waiting_for_agent = true;
        self.transcript.messages.push(ChatMessage::new(ChatMessageKind::Assistant, "Assistant", ""));
        proof {
            reveal_strlit("");
            assert(""@ =~= Seq::<char>::empty());
        }
        self.transcript.streaming_assistant_index = Some(self.transcript.messages.len() - 1);
        request
    }
}


/// The draft as it is sent: trimmed.
pub open spec fn sent_text(s: AppState) -> Seq<char> {
    trim_seq(s.draft@)
}

/// How an update changes the window, and what outside work it asks for.
pub open spec fn update_post(old: AppState, message: AppMessage, new: AppState, r: AppAction) -> bool {
    match message {
        AppMessage::DraftChanged(v) => (new == AppState { draft: v, ..old }) && r is Nothing,
        AppMessage::NewSession => new == old && if old.transcript.is_waiting_for_agent {
            r is Nothing
        } else {
            r is StartNewSession
        },
        AppMessage::SessionSelected(id) => new == old && if old.transcript.is_waiting_for_agent
            || id@ == old.session_id@ {
            r is Nothing
        } else {
            r == AppAction::SelectSession(id)
        },
        AppMessage::DeleteSession(id) => new == old && if old.transcript.is_waiting_for_agent {
            r is Nothing
        } else {
            r == AppAction::DeleteSession(id)
        },
        AppMessage::LoadMoreSessions => (new == AppState {
            visible_session_count: (if old.visible_session_count + RECENT_SESSION_PAGE_SIZE
                < old.recent_sessions@.len() {
                old.visible_session_count + RECENT_SESSION_PAGE_SIZE
            } else {
                old.recent_sessions@.len() as int
            }) as usize,
            ..old
        }) && r is Nothing,
        AppMessage::OpenSettings => (new == AppState { is_settings_open: true, ..old }) && r is Nothing,
        AppMessage::CloseSettings => (new == AppState { is_settings_open: false, ..old }) && r is Nothing,
        AppMessage::SettingsTabSelected(tab) => (new == AppState {
            settings_tab: tab,
            is_settings_open: true,
            ..old
        }) && r is Nothing,
        AppMessage::LlmProviderNameChanged(v) => (new == AppState {
            llm_form: LlmProviderForm { provider_name: v, ..old.llm_form },
            llm_config_status: None,
            ..old
        }) && r is Nothing,
        AppMessage::LlmBaseUrlChanged(v) => (new == AppState {
            llm_form: LlmProviderForm { base_url: v, ..old.llm_form },
            llm_config_status: None,
            ..old
        }) && r is Nothing,
        AppMessage::LlmApiKeyChanged(v) => (new == AppState {
            llm_form: LlmProviderForm { api_key: v, ..old.llm_form },
            llm_config_status: None,
            ..old
        }) && r is Nothing,
        AppMessage::LlmDefaultModelChanged(v) => (new == AppState {
            llm_form: LlmProviderForm { default_model: v, ..old.llm_form },
            llm_config_status: None,
            ..old
        }) && r is Nothing,
        AppMessage::LlmModelsChanged(v) => (new == AppState {
            llm_form: LlmProviderForm { models: v, ..old.llm_form },
            llm_config_status: None,
            ..old
        }) && r is Nothing,
        AppMessage::ChangeLlmProviderConfig => (new == AppState {
            is_llm_provider_changing: true,
            llm_config_status: None,
            ..old
        }) && r is Nothing,
        AppMessage::CancelLlmProviderConfigChange => new == old && r is CancelProviderConfigChange,
        AppMessage::SaveLlmProviderConfig => new == old && (r matches AppAction::SaveProviderConfig(c)
            && config_from_form(old.llm_form, c)),
        AppMessage::ReloadLlmProviderConfig => new == old && r is ReloadProviderConfig,
        AppMessage::McpServersConfigEdited(t) => (new == AppState {
            mcp_config_text: t,
            mcp_config_status: None,
            ..old
        }) && r is Nothing,
        AppMessage::ChangeMcpServersConfig => (new == AppState {
            is_mcp_config_changing: true,
            mcp_config_status: None,
            ..old
        }) && r is Nothing,
        AppMessage::CancelMcpServersConfigChange => new == old && r is CancelMcpServersConfigChange,
        AppMessage::SaveMcpServersConfig => new == old && r == AppAction::SaveMcpServersConfig(
            old.mcp_config_text,
        ),
        AppMessage::ReloadMcpServersConfig => new == old && r is ReloadMcpServersConfig,
        AppMessage::IconFontLoaded(res) => r is Nothing && match res {
            Ok(_) => (new == AppState { is_icon_font_loaded: true, ..old }),
            Err(e) => (new == AppState {
                is_icon_font_loaded: false,
                transcript: new.transcript,
                ..old
            }) && system_message_added(
                old.transcript,
                new.transcript,
                "Failed to load Octicons font: "@ + e@,
            ),
        },
        AppMessage::EmojiFontBytesLoaded(res) => match res {
            Ok(path) => (new == AppState {
                emoji_font_path: Some(path),
                emoji_font_error: None,
                ..old
            }) && r == AppAction::LoadEmojiFont(path),
            Err(e) => (new == AppState {
                is_emoji_font_loaded: false,
                emoji_font_path: None,
                emoji_font_error: Some(e),
                ..old
            }) && r is Nothing,
        },
        AppMessage::EmojiFontLoaded(path, res) => (new == AppState {
            is_emoji_font_loaded: res is Ok,
            emoji_font_path: Some(path),
            emoji_font_error: match res {
                Ok(_) => None,
                Err(e) => Some(e),
            },
            ..old
        }) && r is Nothing,
        AppMessage::Send => if sent_text(old).len() == 0 || old.transcript.is_waiting_for_agent {
            new == old && r is Nothing
        } else {
            &&& (new == AppState {
                transcript: new.transcript,
                session_title: new.session_title,
                next_sequence: (old.next_sequence + 1) as i64,
                ..old
            })
            &&& new.transcript.messages@.len() == old.transcript.messages@.len() + 1
            &&& new.transcript.messages@.drop_last() =~= old.transcript.messages@
            &&& fresh_message(new.transcript.messages@.last(), ChatMessageKind::User, "You"@, sent_text(old))
            &&& new.transcript.streaming_assistant_index == old.transcript.streaming_assistant_index
            &&& new.transcript.is_waiting_for_agent == old.transcript.is_waiting_for_agent
            &&& new.session_title@ == (if old.session_title@ == NEW_SESSION_TITLE@ {
                title_spec(sent_text(old))
            } else {
                old.session_title@
            })
            &&& r matches AppAction::PersistUserMessage { content, sequence } && content@ == sent_text(old)
                && sequence == old.next_sequence
        },
        AppMessage::ChatStreamToken(t) => (new == AppState { transcript: new.transcript, ..old })
            && token_post(old.transcript, new.transcript, t@) && r is ScrollToBottom,
        AppMessage::ChatStreamCompleted(full) => (new == AppState {
            transcript: new.transcript,
            next_sequence: new.next_sequence,
            ..old
        }) && match r {
            AppAction::StoreReply { body, sequence } => completed_post(
                old.transcript,
                new.transcript,
                full@,
                Some(body),
            ) && sequence == old.next_sequence && new.next_sequence == old.next_sequence + 1,
            AppAction::TouchSession => completed_post(old.transcript, new.transcript, full@, None)
                && new.next_sequence == old.next_sequence,
            _ => false,
        },
        AppMessage::ChatStreamFailed(e) => (new == AppState { transcript: new.transcript, ..old })
            && failed_post(old.transcript, new.transcript, e@) && r is Nothing,
        AppMessage::ChatStreamUsage => new == old && r is Nothing,
        AppMessage::ToolCallStarted { tool_name, arguments } => (new == AppState {
            transcript: new.transcript,
            ..old
        }) && tool_started_post(old.transcript, new.transcript, tool_name@, arguments@)
            && r is ScrollToBottom,
        AppMessage::ToolCallCompleted { tool_name, result } => (new == AppState {
            transcript: new.transcript,
            ..old
        }) && tool_completed_post(old.transcript, new.transcript, tool_name@, result)
            && r is ScrollToBottom,
        AppMessage::ToggleToolCallDetail(i) => (new == AppState { transcript: new.transcript, ..old })
            && toggled_post(old.transcript, new.transcript, i) && r is Nothing,
        AppMessage::MarkdownLinkClicked => new == old && r is Nothing,
    }
}

impl AppState {
    /// Applies a user action or stream event to the window, and names the
    /// outside work it calls for.
    pub fn update(&mut self, message: AppMessage) -> (r: AppAction)
        requires
            message is Send && sent_text(*old(self)).len() > 0
                && !old(self).transcript.is_waiting_for_agent ==> old(self).next_sequence < i64::MAX,
            message matches AppMessage::ChatStreamCompleted(full) && !(trim_seq(full@).len() == 0
                && streaming_after_tool(old(self).transcript)) ==> old(self).next_sequence < i64::MAX,
        ensures
            update_post(*old(self), message, *final(self), r),
    {
        match message {
            AppMessage::DraftChanged(v) => {
                self.draft = v;
                AppAction::Nothing
            },
            AppMessage::NewSession => {
                if self.transcript.is_waiting_for_agent {
                    AppAction::Nothing
                } else {
                    AppAction::StartNewSession
                }
            },
            AppMessage::SessionSelected(id) => {
                let a = str_chars(id.as_str());
                let b = str_chars(self.session_id.as_str());
                if self.transcript.is_waiting_for_agent || chars_eq(a.as_slice(), b.as_slice()) {
                    AppAction::Nothing
                } else {
                    AppAction::SelectSession(id)
                }
            },
            AppMessage::DeleteSession(id) => {
                if self.transcript.is_waiting_for_agent {
                    AppAction::Nothing
                } else {
                    AppAction::DeleteSession(id)
                }
            },
            AppMessage::LoadMoreSessions => {
                self.visible_session_count = load_more_sessions(
                    self.visible_session_count,
                    self.recent_sessions.len(),
                );
                AppAction::Nothing
            },
            AppMessage::OpenSettings => {
                self.is_settings_open = true;
                AppAction::Nothing
            },
            AppMessage::CloseSettings => {
                self.is_settings_open = false;
                AppAction::Nothing
            },
            AppMessage::SettingsTabSelected(tab) => {
                self.settings_tab = tab;
                self.is_settings_open = true;
                AppAction::Nothing
            },
            AppMessage::LlmProviderNameChanged(v) => {
                self.llm_form.provider_name = v;
                self.llm_config_status = None;
                AppAction::Nothing
            },
            AppMessage::LlmBaseUrlChanged(v) => {
                self.llm_form.base_url = v;
                self.llm_config_status = None;
                AppAction::Nothing
            },
            AppMessage::LlmApiKeyChanged(v) => {
                self.llm_form.api_key = v;
                self.llm_config_status = None;
                AppAction::Nothing
            },
            AppMessage::LlmDefaultModelChanged(v) => {
                self.llm_form.default_model = v;
                self.llm_config_status = None;
                AppAction::Nothing
            },
            AppMessage::LlmModelsChanged(v) => {
                self.llm_form.models = v;
                self.llm_config_status = None;
                AppAction::Nothing
            },
            AppMessage::ChangeLlmProviderConfig => {
                self.is_llm_provider_changing = true;
                self.llm_config_status = None;
                AppAction::Nothing
            },
            AppMessage::CancelLlmProviderConfigChange => AppAction::CancelProviderConfigChange,
            AppMessage::SaveLlmProviderConfig => AppAction::SaveProviderConfig(self.llm_form.to_config()),
            AppMessage::ReloadLlmProviderConfig => AppAction::ReloadProviderConfig,
            AppMessage::McpServersConfigEdited(t) => {
                self.mcp_config_text = t;
                self.mcp_config_status = None;
                AppAction::Nothing
            },
            AppMessage::ChangeMcpServersConfig => {
                self.is_mcp_config_changing = true;
                self.mcp_config_status = None;
                AppAction::Nothing
            },
            AppMessage::CancelMcpServersConfigChange => AppAction::CancelMcpServersConfigChange,
            AppMessage::SaveMcpServersConfig => AppAction::SaveMcpServersConfig(self.mcp_config_text.clone()),
            AppMessage::ReloadMcpServersConfig => AppAction::ReloadMcpServersConfig,
            AppMessage::IconFontLoaded(res) => {
                match res {
                    Ok(()) => {
                        self.is_icon_font_loaded = true;
                    },
                    Err(e) => {
                        self.is_icon_font_loaded = false;
                        let text = concat_str("Failed to load Octicons font: ", e.as_str());
                        self.push_system_message(text.as_str());
                    },
                }
                AppAction::Nothing
            },
            AppMessage::EmojiFontBytesLoaded(res) => match res {
                Ok(path) => {
                    self.emoji_font_path = Some(path.clone());
                    self.emoji_font_error = None;
                    AppAction::LoadEmojiFont(path)
                },
                Err(e) => {
                    self.is_emoji_font_loaded = false;
                    self.emoji_font_path = None;
                    self.emoji_font_error = Some(e);
                    AppAction::Nothing
                },
            },
            AppMessage::EmojiFontLoaded(path, res) => {
                self.is_emoji_font_loaded = res.is_ok();
                self.emoji_font_path = Some(path);
                self.emoji_font_error = match res {
                    Ok(()) => None,
                    Err(e) => Some(e),
                };
                AppAction::Nothing
            },
            AppMessage::Send => self.send(),
            AppMessage::ChatStreamToken(t) => {
                self.transcript.on_token(t.as_str());
                AppAction::ScrollToBottom
            },
            AppMessage::ChatStreamCompleted(full) => {
                match self.transcript.on_completed(full.as_str()) {
                    Some(body) => {
                        let sequence = self.next_sequence;
                        self.next_sequence = sequence + 1;
                        AppAction::StoreReply { body, sequence }
                    },
                    None => AppAction::TouchSession,
                }
            },
            AppMessage::ChatStreamFailed(e) => {
                self.transcript.on_failed(e.as_str());
                AppAction::Nothing
            },
            AppMessage::ChatStreamUsage => AppAction::Nothing,
            AppMessage::ToolCallStarted { tool_name, arguments } => {
                self.transcript.on_tool_started(tool_name.as_str(), arguments.as_str());
                AppAction::ScrollToBottom
            },
            AppMessage::ToolCallCompleted { tool_name, result } => {
                self.transcript.on_tool_completed(tool_name.as_str(), result);
                AppAction::ScrollToBottom
            },
            AppMessage::ToggleToolCallDetail(i) => {
                self.transcript.toggle_tool_call_detail(i);
                AppAction::Nothing
            },
            AppMessage::MarkdownLinkClicked => AppAction::Nothing,
        }
    }

    fn send(&mut self) -> (r: AppAction)
        requires
            sent_text(*old(self)).len() > 0 && !old(self).transcript.is_waiting_for_agent
                ==> old(self).next_sequence < i64::MAX,
        ensures
            update_post(*old(self), AppMessage::Send, *final(self), r),
    {
        let cs = str_chars(self.draft.as_str());
        let t = trim_chars(cs.as_slice());
        if t.len() == 0 || self.transcript.is_waiting_for_agent {
            return AppAction::Nothing;
        }
        let content = string_from_chars(t.as_slice());
        self.transcript.messages.push(ChatMessage::new(ChatMessageKind::User, "You", content.as_str()));
        let current = str_chars(self.session_title.as_str());
        let fresh = str_chars(NEW_SESSION_TITLE);
        if chars_eq(current.as_slice(), fresh.as_slice()) {
            self.session_title = title_from_message(content.as_str());
        }
        let sequence = self.next_sequence;
        self.next_sequence = sequence + 1;
        AppAction::PersistUserMessage { content, sequence }
    }
}


impl AppState {
    /// The status shown in the top bar and the settings: `Responding` while
    /// a reply is awaited, `Ready` otherwise.
    pub fn status_label(&self) -> (r: &'static str)
        ensures
            r@ == (if self.transcript.is_waiting_for_agent {
                "Responding"@
            } else {
                "Ready"@
            }),
    {
        if self.transcript.is_waiting_for_agent {
            "Responding"
        } else {
            "Ready"
        }
    }

    /// Whether the send button is enabled: no reply awaited and a draft that
    /// is not blank.
    pub fn can_send(&self) -> (r: bool)
        ensures
            r == (!self.transcript.is_waiting_for_agent && sent_text(*self).len() > 0),
    {
        let cs = str_chars(self.draft.as_str());
        !self.transcript.is_waiting_for_agent && trim_chars(cs.as_slice()).len() > 0
    }

    /// Whether the settings' save buttons are enabled: not while a reply is
    /// awaited.
    pub fn can_save_settings(&self) -> (r: bool)
        ensures
            r == !self.transcript.is_waiting_for_agent,
    {
        !self.transcript.is_waiting_for_agent
    }
}

/// A message that is sent is the last thing the following request asks:
/// after `Send` shows it, the conversation built from the window (which
/// `begin_reply` returns) ends with it as a user message.
pub proof fn sent_message_ends_the_request(old: AppState, new: AppState, r: AppAction)
    requires
        update_post(old, AppMessage::Send, new, r),
        !(r is Nothing),
    ensures
        transcript_request_spec(new.transcript.messages@).len() > 0,
        transcript_request_spec(new.transcript.messages@).last() == ChatRequestMessage::User(
            new.transcript.messages@.last().body,
        ),
        new.transcript.messages@.last().body@ == sent_text(old),
{
    crate::text::lemma_trim_idempotent(old.draft@);
    let ms = new.transcript.messages@;
    assert(ms.len() > 0);
    assert(transcript_request_for(ms.last()) == Some(ChatRequestMessage::User(ms.last().body)));
}

} // verus!
