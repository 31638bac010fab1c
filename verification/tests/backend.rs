use cowork_rs::backend::session_to_show;
use cowork_rs::agent::agent::ChatRequestMessage;
use cowork_rs::backend::{
    assistant_reply_body, chat_request_messages, display_tool_name, message_record,
    new_session_record, next_sequence, prepare_user_turn, session_not_found_message,
    title_from_message, validate_message_content, ChatStreamEvent, SendError, StreamListener,
    DEFAULT_TEMPERATURE_BITS, EMPTY_AGENT_RESPONSE, NEW_SESSION_TITLE,
};
use cowork_rs::storage::chat_record::{
    MessageRecord, SessionRecord, MESSAGE_ROLE_ASSISTANT, MESSAGE_ROLE_SYSTEM, MESSAGE_ROLE_TOOL,
    MESSAGE_ROLE_USER,
};

fn message(sequence: i64, role: u16, content: &str) -> MessageRecord {
    MessageRecord {
        message_id: format!("s-{sequence}"),
        session_id: String::from("s"),
        sequence,
        role,
        content: String::from(content),
        created_at: 0,
    }
}

fn session(title: &str) -> SessionRecord {
    SessionRecord {
        session_id: String::from("session-1"),
        title: String::from(title),
        model: String::from("m"),
        created_at: 10,
        updated_at: 10,
        temperature_bits: DEFAULT_TEMPERATURE_BITS,
        top_p: 100,
        top_k: 40,
    }
}

#[test]
fn next_sequence_is_one_past_the_largest() {
    assert_eq!(next_sequence(&[]), 0);
    let messages = [
        message(3, MESSAGE_ROLE_USER, "a"),
        message(7, MESSAGE_ROLE_ASSISTANT, "b"),
        message(5, MESSAGE_ROLE_USER, "c"),
    ];
    assert_eq!(next_sequence(&messages), 8);
    assert_eq!(next_sequence(&[message(-5, MESSAGE_ROLE_USER, "x")]), -4);
}

#[test]
fn title_is_the_trimmed_message_cut_to_48_characters() {
    assert_eq!(title_from_message("  Plan the week  "), "Plan the week");
    assert_eq!(title_from_message(" \n\t "), NEW_SESSION_TITLE);
    assert_eq!(title_from_message(""), "New session");
    let long = "x".repeat(60);
    assert_eq!(title_from_message(&long), "x".repeat(48));
    let accented = "é".repeat(50);
    assert_eq!(title_from_message(&accented).chars().count(), 48);
}

#[test]
fn tool_names_are_trimmed_or_unknown() {
    assert_eq!(display_tool_name("  search "), "search");
    assert_eq!(display_tool_name("   "), "Unknown tool");
}

#[test]
fn request_keeps_user_and_assistant_messages_in_order() {
    let messages = [
        message(0, MESSAGE_ROLE_SYSTEM, "system text"),
        message(1, MESSAGE_ROLE_USER, "hello"),
        message(2, MESSAGE_ROLE_ASSISTANT, "hi there"),
        message(3, MESSAGE_ROLE_TOOL, "tool output"),
        message(4, MESSAGE_ROLE_USER, "   "),
        message(5, MESSAGE_ROLE_ASSISTANT, EMPTY_AGENT_RESPONSE),
        message(6, MESSAGE_ROLE_ASSISTANT, "  The agent returned an empty response.  "),
        message(7, 9, "unknown role"),
        message(8, MESSAGE_ROLE_USER, "  bye "),
    ];
    let request = chat_request_messages(&messages);
    assert_eq!(request.len(), 3);
    assert!(matches!(&request[0], ChatRequestMessage::User(t) if t == "hello"));
    assert!(matches!(&request[1], ChatRequestMessage::Assistant(t) if t == "hi there"));
    assert!(matches!(&request[2], ChatRequestMessage::User(t) if t == "  bye "));
}

#[test]
fn new_sessions_are_titled_new_session() {
    let s = new_session_record(1_700_000_000_000, "mimo-v2.5");
    assert_eq!(s.session_id, "session-1700000000000");
    assert_eq!(s.title, "New session");
    assert_eq!(s.model, "mimo-v2.5");
    assert_eq!((s.created_at, s.updated_at), (1_700_000_000_000, 1_700_000_000_000));
    assert_eq!(f64::from_bits(s.temperature_bits), 0.7);
    assert_eq!((s.top_p, s.top_k), (100, 40));
    assert_eq!(new_session_record(-3, "m").session_id, "session--3");
}

#[test]
fn message_ids_join_session_and_sequence() {
    let m = message_record("session-9", 4, MESSAGE_ROLE_ASSISTANT, "body", 77);
    assert_eq!(m.message_id, "session-9-4");
    assert_eq!(m.session_id, "session-9");
    assert_eq!((m.sequence, m.role, m.created_at), (4, MESSAGE_ROLE_ASSISTANT, 77));
    assert_eq!(m.content, "body");
}

#[test]
fn blank_messages_are_refused() {
    assert_eq!(validate_message_content("  hi \n"), Ok(String::from("hi")));
    assert_eq!(validate_message_content(" \t "), Err(SendError::EmptyMessage));
    assert_eq!(SendError::EmptyMessage.message(), "message content cannot be empty");
}

#[test]
fn a_user_turn_titles_a_new_session_and_appends_the_message() {
    let stored = vec![
        message(0, MESSAGE_ROLE_USER, "earlier"),
        message(1, MESSAGE_ROLE_ASSISTANT, "answer"),
    ];
    let turn = prepare_user_turn(session("New session"), stored, "What is Verus?", 500);
    assert_eq!(turn.session.title, "What is Verus?");
    assert_eq!(turn.session.updated_at, 500);
    assert_eq!(turn.session.created_at, 10);
    assert_eq!(turn.session.session_id, "session-1");
    assert_eq!(turn.message.sequence, 2);
    assert_eq!(turn.message.message_id, "session-1-2");
    assert_eq!(turn.message.role, MESSAGE_ROLE_USER);
    assert_eq!(turn.message.content, "What is Verus?");
    assert_eq!(turn.message.created_at, 500);
    assert_eq!(turn.request.len(), 3);
    assert!(matches!(&turn.request[2], ChatRequestMessage::User(t) if t == "What is Verus?"));
}

#[test]
fn a_user_turn_keeps_an_existing_title() {
    let turn = prepare_user_turn(session("My plans"), Vec::new(), "hello", 1);
    assert_eq!(turn.session.title, "My plans");
    assert_eq!(turn.message.sequence, 0);
    assert_eq!(turn.request.len(), 1);
}

#[test]
fn reply_body_depends_on_text_and_tools() {
    assert_eq!(assistant_reply_body("Hi!", false), Some(String::from("Hi!")));
    assert_eq!(assistant_reply_body("  ", false), Some(String::from(EMPTY_AGENT_RESPONSE)));
    assert_eq!(assistant_reply_body("  ", true), None);
    assert_eq!(assistant_reply_body(" ok ", true), Some(String::from(" ok ")));
}

#[test]
fn the_stream_listener_reports_only_the_first_error() {
    let mut listener = StreamListener::new();
    assert!(!listener.error_sent && !listener.tool_seen);
    assert_eq!(
        listener.on_error("first"),
        Some(ChatStreamEvent::Error { error: String::from("first") })
    );
    assert_eq!(listener.on_error("second"), None);
    assert!(listener.error_sent);
}

#[test]
fn the_stream_listener_announces_tools_under_their_display_names() {
    let mut listener = StreamListener::new();
    assert_eq!(
        listener.on_tool_start(" ", "{}"),
        ChatStreamEvent::ToolStarted {
            tool_name: String::from("Unknown tool"),
            arguments: String::from("{}"),
        }
    );
    assert!(listener.tool_seen);
    assert_eq!(
        listener.on_tool_result(" clock ", "12:00"),
        ChatStreamEvent::ToolCompleted {
            tool_name: String::from("clock"),
            result: String::from("12:00"),
        }
    );
    assert_eq!(
        listener.on_token("tok"),
        ChatStreamEvent::Token { token: String::from("tok") }
    );
    assert_eq!(
        listener.on_complete("all"),
        ChatStreamEvent::Completed { full_text: String::from("all") }
    );
    assert_eq!(
        listener.on_usage("42 tokens"),
        ChatStreamEvent::Usage { summary: String::from("42 tokens") }
    );
}

#[test]
fn missing_sessions_are_named_in_the_error() {
    assert_eq!(session_not_found_message("abc"), "session could not be found: abc");
}

#[test]
fn the_reply_is_numbered_after_the_user_message() {
    let stored = vec![message(0, MESSAGE_ROLE_USER, "a"), message(3, MESSAGE_ROLE_ASSISTANT, "b")];
    let turn = prepare_user_turn(session("t"), stored.clone(), "next", 9);
    assert_eq!(turn.message.sequence, 4);
    let mut after = stored;
    after.push(turn.message);
    assert_eq!(next_sequence(&after), 5);
}

#[test]
fn a_user_turn_keeps_the_sampling_settings() {
    let mut s = session("t");
    s.temperature_bits = 1.5f64.to_bits();
    s.top_p = 7;
    s.top_k = 3;
    let turn = prepare_user_turn(s, Vec::new(), "hi", 1);
    assert_eq!(f64::from_bits(turn.session.temperature_bits), 1.5);
    assert_eq!((turn.session.top_p, turn.session.top_k), (7, 3));
}

#[test]
fn the_first_listed_session_is_shown_or_none() {
    assert!(session_to_show(&[]).is_none());
    let shown = session_to_show(&[session("a"), session("b")]).expect("a session");
    assert_eq!(shown.title, "a");
}
