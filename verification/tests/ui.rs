use cowork_rs::storage::chat_record::{MessageRecord, MESSAGE_ROLE_ASSISTANT, MESSAGE_ROLE_USER};
use cowork_rs::storage::llm_provider_config::{LlmModelConfig, LlmProviderConfig};
use cowork_rs::ui::chat::{
    chat_icon_from_name, chat_message_from_record, parse_chat_blocks, parse_icon_line, ChatIcon,
    ChatMessage, ChatMessageBlock, ChatMessageKind, Toast, ToastLevel,
};
use cowork_rs::ui::emoji::{
    contains_markdown_syntax, emoji_spans, is_emoji_character, should_render_as_plain_emoji_text,
};
use cowork_rs::ui::markdown::{
    inline_markdown_spans, is_table_row, is_table_separator, normalize_table_cell,
    parse_simple_markdown_table, split_markdown_table_segments, split_table_row, InlineStyle,
    MarkdownSegment,
};
use cowork_rs::ui::settings::{
    llm_api_key_status, load_more_sessions, normalized_visible_session_count, parse_model_list,
    LlmProviderForm, SettingsTab,
};
use cowork_rs::ui::transcript::Transcript;

fn ids(models: &[LlmModelConfig]) -> Vec<&str> {
    models.iter().map(|m| m.id.as_str()).collect()
}

#[test]
fn settings_tabs_have_titles_and_subtitles() {
    assert_eq!(SettingsTab::General.title(), "General");
    assert_eq!(SettingsTab::Storage.title(), "Storage");
    assert_eq!(SettingsTab::Agent.subtitle(), "Active compile-time preset and model parameters.");
    assert_eq!(SettingsTab::Tools.subtitle(), "Tool runtime and schema capabilities.");
}

#[test]
fn visible_session_count_stays_within_bounds() {
    assert_eq!(normalized_visible_session_count(0, 3), 3);
    assert_eq!(normalized_visible_session_count(2, 12), 5);
    assert_eq!(normalized_visible_session_count(20, 12), 12);
    assert_eq!(normalized_visible_session_count(8, 12), 8);
}

#[test]
fn load_more_adds_a_page_up_to_the_total() {
    assert_eq!(load_more_sessions(5, 20), 10);
    assert_eq!(load_more_sessions(5, 8), 8);
    assert_eq!(load_more_sessions(5, 10), 10);
    assert_eq!(load_more_sessions(12, 10), 10);
}

#[test]
fn model_list_splits_at_commas_and_line_breaks() {
    let models = parse_model_list(" gpt-4o, mimo-v2.5\n o3 ,, ", "ignored");
    assert_eq!(ids(&models), vec!["gpt-4o", "mimo-v2.5", "o3"]);
    assert!(models.iter().all(|m| m.id == m.display_name));
    assert_eq!(ids(&parse_model_list(" , \n ", " default-model ")), vec!["default-model"]);
    assert!(parse_model_list("", "  ").is_empty());
}

#[test]
fn provider_form_round_trips_a_configuration() {
    let config = LlmProviderConfig {
        provider_name: String::from("Local"),
        base_url: String::from("http://localhost:8080/v1"),
        api_key: String::from("sk-1"),
        default_model: String::from("a"),
        models: vec![
            LlmModelConfig { id: String::from("a"), display_name: String::from("A") },
            LlmModelConfig { id: String::from("b"), display_name: String::from("B") },
        ],
    };
    let form = LlmProviderForm::from_config(&config);
    assert_eq!(form.models, "a, b");
    assert_eq!(form.provider_name, "Local");

    let mut edited = form.clone();
    edited.api_key = String::from("  sk-2 ");
    edited.provider_name = String::from(" Local ");
    let saved = edited.to_config();
    assert_eq!(saved.api_key, "sk-2");
    assert_eq!(saved.provider_name, "Local");
    assert_eq!(ids(&saved.models), vec!["a", "b"]);
    assert_eq!(saved.models[0].display_name, "a");
}

#[test]
fn api_key_status_describes_where_the_key_comes_from() {
    assert_eq!(llm_api_key_status(" sk ", None), "Saved");
    assert_eq!(llm_api_key_status("", Some("sk-env")), "Using computer setting");
    assert_eq!(llm_api_key_status("  ", Some("  ")), "Missing");
    assert_eq!(llm_api_key_status("", None), "Missing");
}

#[test]
fn table_rows_and_separators_are_recognised() {
    assert!(is_table_row("| a | b |"));
    assert!(!is_table_row("a | b"));
    assert!(!is_table_row("|"));
    assert!(is_table_separator("| --- | :---: |"));
    assert!(!is_table_separator("| -- | --- |"));
    assert!(!is_table_separator("| a | --- |"));
    assert_eq!(split_table_row("| a |  b  | `c` |"), vec!["a", "b", "`c`"]);
}

#[test]
fn code_cells_lose_their_backticks() {
    assert_eq!(normalize_table_cell("  `ls -la`  "), (String::from("ls -la"), true));
    assert_eq!(normalize_table_cell(" plain "), (String::from("plain"), false));
    assert_eq!(normalize_table_cell("`"), (String::from("`"), false));
}

#[test]
fn a_table_is_parsed_from_header_separator_and_rows() {
    let lines = [
        "",
        "| Name | Value |",
        "| :--- | ---: |",
        "| `x` | 1 |",
        "not a row",
        "| y | 2 |",
    ];
    let table = parse_simple_markdown_table(&lines).expect("a table");
    assert_eq!(table.headers, vec!["Name", "Value"]);
    assert_eq!(table.rows, vec![vec!["`x`", "1"], vec!["y", "2"]]);

    assert!(parse_simple_markdown_table(&["| a |", "not a separator"]).is_none());
    assert!(parse_simple_markdown_table(&["| a |"]).is_none());
}

#[test]
fn replies_split_into_prose_and_tables() {
    let source = "Intro\n| A | B |\n|---|---|\n| 1 | 2 |\nOutro";
    let segments = split_markdown_table_segments(source).expect("holds a table");
    assert_eq!(segments.len(), 3);
    assert!(matches!(&segments[0], MarkdownSegment::Markdown(t) if t == "Intro"));
    match &segments[1] {
        MarkdownSegment::Table(table) => {
            assert_eq!(table.headers, vec!["A", "B"]);
            assert_eq!(table.rows, vec![vec!["1", "2"]]);
        }
        other => panic!("expected a table, got {other:?}"),
    }
    assert!(matches!(&segments[2], MarkdownSegment::Markdown(t) if t == "Outro"));
    assert!(split_markdown_table_segments("no table here\n| just | a row |").is_none());
}

#[test]
fn inline_spans_mark_bold_and_code() {
    let spans = inline_markdown_spans("Use **bold** and `code` now");
    let expected = vec![
        (String::from("Use "), InlineStyle::Normal),
        (String::from("bold"), InlineStyle::Bold),
        (String::from(" and "), InlineStyle::Normal),
        (String::from("code"), InlineStyle::Code),
        (String::from(" now"), InlineStyle::Normal),
    ];
    assert_eq!(spans, expected);
    assert_eq!(
        inline_markdown_spans("plain"),
        vec![(String::from("plain"), InlineStyle::Normal)]
    );
    assert!(inline_markdown_spans("").is_empty());
}

#[test]
fn emoji_text_without_markdown_is_rendered_plainly() {
    assert!(is_emoji_character('👋'));
    assert!(is_emoji_character('☀'));
    assert!(!is_emoji_character('a'));
    assert!(should_render_as_plain_emoji_text("Hello 👋"));
    assert!(!should_render_as_plain_emoji_text("**Hello** 👋"));
    assert!(!should_render_as_plain_emoji_text("Hello"));
}

#[test]
fn markdown_syntax_is_detected() {
    assert!(contains_markdown_syntax("# Title"));
    assert!(contains_markdown_syntax("text\n  - item"));
    assert!(contains_markdown_syntax("see [docs](http://x)"));
    assert!(contains_markdown_syntax("__init__"));
    assert!(contains_markdown_syntax("run `ls`"));
    assert!(!contains_markdown_syntax("snake_case is fine"));
    assert!(!contains_markdown_syntax("plain words"));
}

#[test]
fn emoji_spans_alternate_runs() {
    assert_eq!(
        emoji_spans("Hi 👋🎉!"),
        vec![
            (String::from("Hi "), false),
            (String::from("👋🎉"), true),
            (String::from("!"), false),
        ]
    );
    assert!(emoji_spans("").is_empty());
}

#[test]
fn icon_names_ignore_case_and_white_space() {
    assert_eq!(chat_icon_from_name(" Warning "), Some(ChatIcon::Alert));
    assert_eq!(chat_icon_from_name("DONE"), Some(ChatIcon::Check));
    assert_eq!(chat_icon_from_name("bolt"), Some(ChatIcon::Zap));
    assert_eq!(chat_icon_from_name("unknown"), None);
}

#[test]
fn icon_lines_take_either_marker() {
    assert_eq!(
        parse_icon_line("  [icon:rocket] Launched"),
        Some((ChatIcon::Rocket, String::from(" Launched")))
    );
    assert_eq!(parse_icon_line(":tools: running"), Some((ChatIcon::Tools, String::from(" running"))));
    assert_eq!(parse_icon_line(":nope: text"), None);
    assert_eq!(parse_icon_line("plain"), None);
}

#[test]
fn message_bodies_split_into_prose_and_icon_blocks() {
    let blocks = parse_chat_blocks("Intro line\n:check: Done it\nmore text\n");
    assert_eq!(blocks.len(), 3);
    assert!(matches!(&blocks[0], ChatMessageBlock::Markdown { source } if source == "Intro line"));
    assert!(matches!(&blocks[1], ChatMessageBlock::Icon { icon: ChatIcon::Check, source } if source == "Done it"));
    assert!(matches!(&blocks[2], ChatMessageBlock::Markdown { source } if source == "more text"));

    let empty = parse_chat_blocks("   ");
    assert_eq!(empty.len(), 1);
    assert!(matches!(&empty[0], ChatMessageBlock::Markdown { source } if source == "   "));
}

#[test]
fn tool_messages_show_progress_and_result() {
    let mut message = ChatMessage::tool_call_started("search", "{\"q\":\"x\"}");
    assert_eq!(message.kind, ChatMessageKind::Tool);
    assert_eq!(message.author, "search");
    assert_eq!(message.body, ":tools: `search` is running");
    message.complete_tool_call("search", String::from("héllo"));
    assert_eq!(message.body, ":check: `search` completed (6 chars)");
    let detail = message.tool_detail.as_ref().expect("detail");
    assert_eq!(detail.arguments, "{\"q\":\"x\"}");
    assert_eq!(detail.result.as_deref(), Some("héllo"));
}

#[test]
fn stored_messages_show_under_their_role() {
    let record = MessageRecord {
        message_id: String::from("s-0"),
        session_id: String::from("s"),
        sequence: 0,
        role: MESSAGE_ROLE_USER,
        content: String::from("hi"),
        created_at: 0,
    };
    let shown = chat_message_from_record(&record);
    assert_eq!(shown.kind, ChatMessageKind::User);
    assert_eq!(shown.author, "You");
    assert_eq!(shown.body, "hi");

    let assistant = MessageRecord { role: MESSAGE_ROLE_ASSISTANT, ..record.clone() };
    assert_eq!(chat_message_from_record(&assistant).author, "Assistant");
    let odd = MessageRecord { role: 42, ..record };
    assert_eq!(chat_message_from_record(&odd).kind, ChatMessageKind::System);
}

#[test]
fn toasts_are_labelled_by_level() {
    let toast = Toast::new(1, ToastLevel::Success, "Saved settings", 100, Some(200));
    assert_eq!(toast.label(), "Saved");
    assert_eq!(toast.message, "Saved settings");
    assert_eq!(Toast::new(2, ToastLevel::Error, "x", 0, None).label(), "Error");
}

#[test]
fn a_reply_streams_into_its_placeholder() {
    let mut t = Transcript::new();
    t.start_reply("Hello?");
    assert_eq!(t.messages.len(), 2);
    assert_eq!(t.streaming_assistant_index, Some(1));
    assert!(t.is_waiting_for_agent);
    t.on_token("Hi");
    t.on_token(" there");
    assert_eq!(t.messages[1].body, "Hi there");
    assert_eq!(t.on_completed("Hi there"), Some(String::from("Hi there")));
    assert_eq!(t.streaming_assistant_index, None);
    assert!(!t.is_waiting_for_agent);
    assert_eq!(t.messages.len(), 2);
}

#[test]
fn a_blank_reply_after_tools_is_dropped() {
    let mut t = Transcript::new();
    t.start_reply("What time is it?");
    t.on_tool_started("get_current_time", "{}");
    assert_eq!(t.messages.len(), 3);
    assert_eq!(t.messages[1].kind, ChatMessageKind::Tool);
    assert!(t.is_streaming_after_tool_message());
    t.on_tool_completed("get_current_time", String::from("2024-01-01 00:00:00 UTC"));
    assert_eq!(
        t.messages[1].tool_detail.as_ref().and_then(|d| d.result.as_deref()),
        Some("2024-01-01 00:00:00 UTC")
    );
    assert_eq!(t.on_completed("   "), None);
    assert_eq!(t.messages.len(), 2);
}

#[test]
fn a_blank_reply_without_tools_shows_the_notice() {
    let mut t = Transcript::new();
    t.start_reply("hi");
    assert_eq!(
        t.on_completed(""),
        Some(String::from("The agent returned an empty response."))
    );
    assert_eq!(t.messages[1].body, "The agent returned an empty response.");
}

#[test]
fn a_failed_reply_is_replaced_by_a_system_message() {
    let mut t = Transcript::new();
    t.start_reply("hi");
    t.on_failed("timeout");
    assert_eq!(t.messages.len(), 2);
    assert_eq!(t.messages[1].kind, ChatMessageKind::System);
    assert_eq!(t.messages[1].body, "Agent request failed: timeout");
    assert!(!t.is_waiting_for_agent);
}

#[test]
fn tool_details_toggle_open_and_closed() {
    let mut t = Transcript::new();
    t.start_reply("q");
    t.on_tool_started("tool", "{}");
    assert!(!t.messages[1].is_tool_detail_open);
    t.toggle_tool_call_detail(1);
    assert!(t.messages[1].is_tool_detail_open);
    t.toggle_tool_call_detail(1);
    assert!(!t.messages[1].is_tool_detail_open);
    t.toggle_tool_call_detail(99);
    assert_eq!(t.messages.len(), 3);
}

#[test]
fn tool_messages_in_the_transcript_carry_body_and_detail() {
    let mut t = Transcript::new();
    t.start_reply("q");
    t.on_tool_started(" search ", "{\"q\":1}");
    let started = &t.messages[1];
    assert_eq!(started.body, ":tools: `search` is running");
    let detail = started.tool_detail.as_ref().expect("detail");
    assert_eq!(detail.tool_name, "search");
    assert_eq!(detail.arguments, "{\"q\":1}");
    assert_eq!(detail.result, None);

    t.toggle_tool_call_detail(1);
    t.on_tool_completed("search", String::from("abc"));
    let done = &t.messages[1];
    assert_eq!(done.kind, ChatMessageKind::Tool);
    assert_eq!(done.author, "search");
    assert_eq!(done.body, ":check: `search` completed (3 chars)");
    assert!(done.is_tool_detail_open);
    let detail = done.tool_detail.as_ref().expect("detail");
    assert_eq!(detail.arguments, "{\"q\":1}");
    assert_eq!(detail.result.as_deref(), Some("abc"));
}

#[test]
fn a_failed_reply_message_is_by_the_system() {
    let mut t = Transcript::new();
    t.start_reply("hi");
    t.on_failed("x");
    assert_eq!(t.messages[1].author, "System");
    assert!(t.messages[1].tool_detail.is_none());
}

#[test]
fn segments_need_a_header_line() {
    assert!(split_markdown_table_segments("| a | b |").is_none());
    let segments = split_markdown_table_segments("| a |\n| --- |").expect("a table");
    assert_eq!(segments.len(), 1);
    assert!(matches!(&segments[0], MarkdownSegment::Table(_)));
}
