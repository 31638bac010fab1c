use cowork_rs::agent::agent::ChatRequestMessage;
use cowork_rs::storage::chat_record::{MessageRecord, SessionRecord, MESSAGE_ROLE_ASSISTANT, MESSAGE_ROLE_USER};
use cowork_rs::ui::app_state::{AfterDelete, AppAction, AppMessage, AppState, McpStatus};
use cowork_rs::ui::chat::ChatMessageKind;
use cowork_rs::ui::settings::{LlmProviderForm, SettingsTab};

fn form() -> LlmProviderForm {
    LlmProviderForm {
        provider_name: String::from("Local"),
        base_url: String::from("http://localhost/v1"),
        api_key: String::from(""),
        default_model: String::from("m"),
        models: String::from("m"),
    }
}

fn state() -> AppState {
    AppState::new(1000, "mimo-v2.5", Ok(form()), Ok(String::from("{}")), "{}", 2, 1, 3)
}

fn session(id: &str, title: &str) -> SessionRecord {
    SessionRecord {
        session_id: String::from(id),
        title: String::from(title),
        model: String::from("m"),
        created_at: 5,
        updated_at: 6,
        temperature_bits: 0.7f64.to_bits(),
        top_p: 100,
        top_k: 40,
    }
}

fn record(sequence: i64, role: u16, content: &str) -> MessageRecord {
    MessageRecord {
        message_id: format!("x-{sequence}"),
        session_id: String::from("x"),
        sequence,
        role,
        content: String::from(content),
        created_at: 0,
    }
}

#[test]
fn the_window_starts_with_a_new_session() {
    let s = state();
    assert_eq!(s.session_id, "session-1000");
    assert_eq!(s.session_title, "New session");
    assert_eq!(s.session_model, "mimo-v2.5");
    assert_eq!(s.next_sequence, 0);
    assert_eq!(s.visible_session_count, 5);
    assert_eq!(s.settings_tab, SettingsTab::Agent);
    assert!(!s.is_settings_open);
    assert!(s.transcript.messages.is_empty());
    assert_eq!((s.mcp_configured_server_count, s.mcp_server_count, s.mcp_tool_count), (2, 1, 3));
    assert_eq!(s.llm_config_status, None);
}

#[test]
fn unreadable_settings_fall_back_to_defaults_with_a_status() {
    let s = AppState::new(
        1,
        "m",
        Err(String::from("bad json")),
        Err(String::from("missing")),
        "{\n  \"mcpServers\": {}\n}",
        0,
        0,
        0,
    );
    assert_eq!(s.llm_form.provider_name, "OpenAI compatible");
    assert_eq!(s.llm_form.models, "mimo-v2.5");
    assert_eq!(s.llm_config_status.as_deref(), Some("Failed to load provider config: bad json"));
    assert_eq!(s.mcp_config_text, "{\n  \"mcpServers\": {}\n}");
    assert_eq!(s.mcp_config_status.as_deref(), Some("Failed to load MCP config: missing"));
}

#[test]
fn sending_shows_the_message_and_asks_to_store_it() {
    let mut s = state();
    s.update(AppMessage::DraftChanged(String::from("  Plan my week  ")));
    match s.update(AppMessage::Send) {
        AppAction::PersistUserMessage { content, sequence } => {
            assert_eq!(content, "Plan my week");
            assert_eq!(sequence, 0);
        }
        other => panic!("unexpected action {other:?}"),
    }
    assert_eq!(s.session_title, "Plan my week");
    assert_eq!(s.next_sequence, 1);
    assert_eq!(s.transcript.messages.len(), 1);
    assert_eq!(s.transcript.messages[0].kind, ChatMessageKind::User);
    assert_eq!(s.draft, "  Plan my week  ");

    let request = s.begin_reply();
    assert_eq!(request.len(), 1);
    assert!(matches!(&request[0], ChatRequestMessage::User(t) if t == "Plan my week"));
    assert_eq!(s.draft, "");
    assert!(s.transcript.is_waiting_for_agent);
    assert_eq!(s.transcript.streaming_assistant_index, Some(1));
}

#[test]
fn a_blank_draft_or_a_pending_reply_sends_nothing() {
    let mut s = state();
    s.update(AppMessage::DraftChanged(String::from("   ")));
    assert!(matches!(s.update(AppMessage::Send), AppAction::Nothing));
    assert!(s.transcript.messages.is_empty());

    s.update(AppMessage::DraftChanged(String::from("hi")));
    s.update(AppMessage::Send);
    s.begin_reply();
    s.update(AppMessage::DraftChanged(String::from("again")));
    assert!(matches!(s.update(AppMessage::Send), AppAction::Nothing));
    assert!(matches!(s.update(AppMessage::NewSession), AppAction::Nothing));
    assert!(matches!(s.update(AppMessage::DeleteSession(String::from("x"))), AppAction::Nothing));
}

#[test]
fn a_completed_reply_is_stored_with_the_next_sequence() {
    let mut s = state();
    s.update(AppMessage::DraftChanged(String::from("hi")));
    s.update(AppMessage::Send);
    s.begin_reply();
    assert!(matches!(s.update(AppMessage::ChatStreamToken(String::from("Hel"))), AppAction::ScrollToBottom));
    s.update(AppMessage::ChatStreamToken(String::from("lo")));
    match s.update(AppMessage::ChatStreamCompleted(String::from("Hello"))) {
        AppAction::StoreReply { body, sequence } => {
            assert_eq!(body, "Hello");
            assert_eq!(sequence, 1);
        }
        other => panic!("unexpected action {other:?}"),
    }
    assert_eq!(s.next_sequence, 2);
    assert!(!s.transcript.is_waiting_for_agent);
    assert_eq!(s.transcript.messages[1].body, "Hello");
}

#[test]
fn a_blank_reply_after_tools_only_touches_the_session() {
    let mut s = state();
    s.update(AppMessage::DraftChanged(String::from("time?")));
    s.update(AppMessage::Send);
    s.begin_reply();
    s.update(AppMessage::ToolCallStarted {
        tool_name: String::from("get_current_time"),
        arguments: String::from("{}"),
    });
    s.update(AppMessage::ToolCallCompleted {
        tool_name: String::from("get_current_time"),
        result: String::from("now"),
    });
    assert!(matches!(
        s.update(AppMessage::ChatStreamCompleted(String::new())),
        AppAction::TouchSession
    ));
    assert_eq!(s.next_sequence, 1);
    assert_eq!(s.transcript.messages.len(), 2);
    assert_eq!(s.transcript.messages[1].kind, ChatMessageKind::Tool);
}

#[test]
fn a_failed_reply_shows_the_error() {
    let mut s = state();
    s.update(AppMessage::DraftChanged(String::from("hi")));
    s.update(AppMessage::Send);
    s.begin_reply();
    s.update(AppMessage::ChatStreamFailed(String::from("network down")));
    assert_eq!(s.transcript.messages.len(), 2);
    assert_eq!(s.transcript.messages[1].body, "Agent request failed: network down");
}

#[test]
fn settings_edits_clear_the_status_and_save_the_trimmed_form() {
    let mut s = state();
    s.update(AppMessage::SettingsTabSelected(SettingsTab::Tools));
    assert!(s.is_settings_open);
    assert_eq!(s.settings_tab, SettingsTab::Tools);
    s.update(AppMessage::ChangeLlmProviderConfig);
    assert!(s.is_llm_provider_changing);
    s.update(AppMessage::LlmApiKeyChanged(String::from("  sk-1 ")));
    s.update(AppMessage::LlmModelsChanged(String::from("a, b")));
    match s.update(AppMessage::SaveLlmProviderConfig) {
        AppAction::SaveProviderConfig(config) => {
            assert_eq!(config.api_key, "sk-1");
            assert_eq!(config.models.len(), 2);
        }
        other => panic!("unexpected action {other:?}"),
    }
    s.provider_config_saved(Err(String::from("no key")));
    assert_eq!(s.llm_config_status.as_deref(), Some("Save failed: no key"));
    assert!(s.is_llm_provider_changing);
    s.provider_config_saved(Ok(String::from("b")));
    assert_eq!(s.llm_config_status.as_deref(), Some("Saved"));
    assert_eq!(s.session_model, "b");
    assert!(!s.is_llm_provider_changing);
    s.update(AppMessage::LlmBaseUrlChanged(String::from("x")));
    assert_eq!(s.llm_config_status, None);
    s.update(AppMessage::CloseSettings);
    assert!(!s.is_settings_open);
}

#[test]
fn provider_reload_and_cancel_report_their_outcome() {
    let mut s = state();
    s.provider_config_reloaded(Ok((form(), String::from("m2"))));
    assert_eq!(s.llm_config_status.as_deref(), Some("Reloaded"));
    assert_eq!(s.session_model, "m2");
    s.provider_config_reloaded(Err(String::from("io")));
    assert_eq!(s.llm_config_status.as_deref(), Some("Reload failed: io"));
    s.provider_change_cancelled(Err(String::from("gone")));
    assert_eq!(s.llm_config_status.as_deref(), Some("Cancel failed: gone"));
    s.provider_change_cancelled(Ok(form()));
    assert_eq!(s.llm_config_status, None);
}

#[test]
fn mcp_settings_report_their_outcome() {
    let mut s = state();
    s.update(AppMessage::ChangeMcpServersConfig);
    s.update(AppMessage::McpServersConfigEdited(String::from("{\"mcpServers\":{}}")));
    assert!(matches!(s.update(AppMessage::SaveMcpServersConfig),
        AppAction::SaveMcpServersConfig(t) if t == "{\"mcpServers\":{}}"));
    s.mcp_config_saved(Ok(McpStatus {
        config_json: Ok(String::from("{}")),
        configured_server_count: 4,
        server_count: 3,
        tool_count: 9,
    }));
    assert_eq!(s.mcp_config_text, "{}");
    assert_eq!(s.mcp_config_status.as_deref(), Some("Saved"));
    assert_eq!((s.mcp_configured_server_count, s.mcp_server_count, s.mcp_tool_count), (4, 3, 9));
    assert!(!s.is_mcp_config_changing);
    s.mcp_config_reloaded(Err(String::from("bad")));
    assert_eq!(s.mcp_config_status.as_deref(), Some("Reload failed: bad"));
    s.mcp_change_cancelled(Ok(String::from("{ }")));
    assert_eq!(s.mcp_config_text, "{ }");
    assert_eq!(s.mcp_config_status, None);
}

#[test]
fn sessions_are_listed_selected_and_deleted() {
    let mut s = state();
    s.sessions_refreshed(Ok(vec![session("a", "A"), session("b", "B")]));
    assert_eq!(s.recent_sessions.len(), 2);
    assert_eq!(s.visible_session_count, 2);
    assert_eq!(s.initial_session().map(|x| x.session_id), Some(String::from("a")));
    assert!(matches!(s.update(AppMessage::SessionSelected(String::from("b"))),
        AppAction::SelectSession(id) if id == "b"));
    assert_eq!(s.find_recent_session("b").map(|x| x.title), Some(String::from("B")));
    assert!(s.find_recent_session("c").is_none());

    s.load_session(
        session("b", "B"),
        Ok(vec![record(0, MESSAGE_ROLE_USER, "q"), record(4, MESSAGE_ROLE_ASSISTANT, "a")]),
    );
    assert_eq!(s.session_id, "b");
    assert_eq!(s.next_sequence, 5);
    assert_eq!(s.transcript.messages.len(), 2);
    assert_eq!(s.transcript.messages[0].author, "You");
    assert!(matches!(s.update(AppMessage::SessionSelected(String::from("b"))), AppAction::Nothing));

    assert!(matches!(s.after_delete("a"), AfterDelete::KeepCurrent));
    assert!(matches!(s.after_delete("b"), AfterDelete::LoadSession(x) if x.session_id == "a"));
    s.sessions_refreshed(Ok(Vec::new()));
    assert!(matches!(s.after_delete("b"), AfterDelete::StartNewSession));

    s.sessions_refreshed(Err(String::from("locked")));
    assert_eq!(
        s.transcript.messages.last().map(|m| m.body.as_str()),
        Some("Failed to load recent sessions: locked")
    );
    s.report_missing_session("zz");
    assert_eq!(
        s.transcript.messages.last().map(|m| m.body.as_str()),
        Some("Session could not be found: zz")
    );
}

#[test]
fn a_new_session_clears_the_window() {
    let mut s = state();
    s.update(AppMessage::DraftChanged(String::from("hi")));
    s.update(AppMessage::Send);
    s.visible_session_count = 9;
    let stored = s.start_new_session(2000);
    assert_eq!(stored.session_id, "session-2000");
    assert_eq!(stored.updated_at, 2000);
    assert_eq!(s.session_title, "New session");
    assert_eq!(s.next_sequence, 0);
    assert!(s.transcript.messages.is_empty());
    assert_eq!(s.draft, "");
    assert_eq!(s.visible_session_count, 5);
    assert_eq!(s.session_record(7).updated_at, 7);
}

#[test]
fn load_more_shows_another_page() {
    let mut s = state();
    let many: Vec<SessionRecord> = (0..12).map(|i| session(&format!("s{i}"), "t")).collect();
    s.sessions_refreshed(Ok(many));
    assert_eq!(s.visible_session_count, 5);
    s.update(AppMessage::LoadMoreSessions);
    assert_eq!(s.visible_session_count, 10);
    s.update(AppMessage::LoadMoreSessions);
    assert_eq!(s.visible_session_count, 12);
}

#[test]
fn font_loading_is_tracked() {
    let mut s = state();
    s.update(AppMessage::IconFontLoaded(Ok(())));
    assert!(s.is_icon_font_loaded);
    s.update(AppMessage::IconFontLoaded(Err(String::from("LoadError"))));
    assert!(!s.is_icon_font_loaded);
    assert_eq!(
        s.transcript.messages.last().map(|m| m.body.as_str()),
        Some("Failed to load Octicons font: LoadError")
    );
    assert!(matches!(
        s.update(AppMessage::EmojiFontBytesLoaded(Ok(String::from("/fonts/emoji.ttf")))),
        AppAction::LoadEmojiFont(p) if p == "/fonts/emoji.ttf"
    ));
    s.update(AppMessage::EmojiFontLoaded(String::from("/fonts/emoji.ttf"), Ok(())));
    assert!(s.is_emoji_font_loaded);
    assert_eq!(s.emoji_font_error, None);
    s.update(AppMessage::EmojiFontBytesLoaded(Err(String::from("no emoji font found"))));
    assert!(!s.is_emoji_font_loaded);
    assert_eq!(s.emoji_font_path, None);
    assert_eq!(s.emoji_font_error.as_deref(), Some("no emoji font found"));
}

#[test]
fn status_and_buttons_follow_the_pending_reply() {
    let mut s = state();
    assert_eq!(s.status_label(), "Ready");
    assert!(!s.can_send());
    assert!(s.can_save_settings());
    s.update(AppMessage::DraftChanged(String::from(" hi ")));
    assert!(s.can_send());
    s.update(AppMessage::Send);
    s.begin_reply();
    assert_eq!(s.status_label(), "Responding");
    assert!(!s.can_send());
    assert!(!s.can_save_settings());
}
