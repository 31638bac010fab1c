use cowork_rs::agent::agent::{
    agent_round_step, apply_stream_chunk, build_request, find_tool, merge_tool_call_chunks,
    tool_result_content, unknown_tool_message, AgentResponse, AgentStep, AgentStreamUpdate,
    ChatRequestMessage, FinishReason, StreamChoice, StreamChunk, ToolCallChunk, ToolSpec,
    MAX_TOOL_ITERATIONS,
};
use cowork_rs::agent::tool::mcp_tool_adapter::{
    extract_text, sends_arguments, tool_call_failure, tool_call_outcome,
};
use cowork_rs::agent::tool::time_tool::{days_to_ymd, format_utc_timestamp, GetCurrentTimeTool};

fn chunk(index: u32, id: Option<&str>, name: Option<&str>, arguments: Option<&str>) -> ToolCallChunk {
    ToolCallChunk {
        index,
        id: id.map(String::from),
        name: name.map(String::from),
        arguments: arguments.map(String::from),
    }
}

fn choice(content: Option<&str>, calls: Option<Vec<ToolCallChunk>>, finish: Option<FinishReason>) -> StreamChoice {
    StreamChoice {
        content: content.map(String::from),
        tool_calls: calls,
        finish_reason: finish,
    }
}

#[test]
fn tool_call_fragments_merge_by_index_in_ascending_order() {
    let chunks = vec![
        chunk(1, Some("call_b"), Some("search"), Some("{\"q\":")),
        chunk(0, Some("call_a"), Some("get_current_time"), Some("{}")),
        chunk(1, None, None, Some("\"rust\"}")),
        chunk(1, Some("call_b2"), Some("web_search"), None),
    ];
    let calls = merge_tool_call_chunks(&chunks);
    assert_eq!(calls.len(), 2);
    assert_eq!(calls[0].index, 0);
    assert_eq!(calls[0].id, "call_a");
    assert_eq!(calls[0].name, "get_current_time");
    assert_eq!(calls[0].arguments, "{}");
    assert_eq!(calls[1].index, 1);
    assert_eq!(calls[1].id, "call_b2");
    assert_eq!(calls[1].name, "web_search");
    assert_eq!(calls[1].arguments, "{\"q\":\"rust\"}");
}

#[test]
fn merging_without_ids_or_names_leaves_them_empty() {
    let calls = merge_tool_call_chunks(&[chunk(3, None, None, None)]);
    assert_eq!(calls.len(), 1);
    assert_eq!(calls[0].index, 3);
    assert_eq!((calls[0].id.as_str(), calls[0].name.as_str(), calls[0].arguments.as_str()), ("", "", ""));
    assert!(merge_tool_call_chunks(&[]).is_empty());
}

#[test]
fn stream_chunks_accumulate_text_usage_calls_and_finish_reason() {
    let mut response: AgentResponse<u32> = AgentResponse::empty();
    let updates = apply_stream_chunk(
        &mut response,
        StreamChunk {
            usage: None,
            choices: vec![choice(Some("Hel"), None, None)],
        },
    );
    assert_eq!(updates, vec![AgentStreamUpdate::Token(String::from("Hel"))]);

    let updates = apply_stream_chunk(
        &mut response,
        StreamChunk {
            usage: Some(42),
            choices: vec![
                choice(Some("lo"), Some(vec![chunk(0, Some("c"), Some("t"), None)]), None),
                choice(None, None, Some(FinishReason::ToolCalls)),
            ],
        },
    );
    assert_eq!(
        updates,
        vec![AgentStreamUpdate::Usage, AgentStreamUpdate::Token(String::from("lo"))]
    );
    assert_eq!(response.content, "Hello");
    assert_eq!(response.usage, Some(42));
    assert_eq!(response.tool_calls.len(), 1);
    assert_eq!(response.finish_reason, Some(FinishReason::ToolCalls));

    let updates = apply_stream_chunk(&mut response, StreamChunk { usage: None, choices: vec![] });
    assert!(updates.is_empty());
    assert_eq!(response.usage, Some(42));
    assert_eq!(response.finish_reason, Some(FinishReason::ToolCalls));
}

#[test]
fn a_round_that_asks_for_tools_runs_them_until_the_last_round() {
    let response = AgentResponse::<u32> {
        content: String::new(),
        finish_reason: Some(FinishReason::ToolCalls),
        usage: None,
        tool_calls: vec![chunk(0, Some("id"), Some("get_current_time"), Some("{}"))],
    };
    match agent_round_step(0, response) {
        AgentStep::RunTools { calls, then_stop } => {
            assert!(!then_stop);
            assert_eq!(calls.len(), 1);
            assert_eq!(calls[0].name, "get_current_time");
        }
        AgentStep::Finish(_) => panic!("expected tool calls"),
    }

    let last = AgentResponse::<u32> {
        content: String::new(),
        finish_reason: Some(FinishReason::ToolCalls),
        usage: None,
        tool_calls: vec![],
    };
    assert!(matches!(
        agent_round_step(MAX_TOOL_ITERATIONS - 1, last),
        AgentStep::RunTools { then_stop: true, .. }
    ));
    assert_eq!(MAX_TOOL_ITERATIONS, 10);
}

#[test]
fn any_other_finish_reason_ends_the_reply() {
    for finish in [None, Some(FinishReason::Stop), Some(FinishReason::Length)] {
        let response = AgentResponse::<u32> {
            content: String::from("done"),
            finish_reason: finish,
            usage: Some(1),
            tool_calls: vec![],
        };
        match agent_round_step(2, response) {
            AgentStep::Finish(r) => {
                assert_eq!(r.content, "done");
                assert_eq!(r.finish_reason, finish);
                assert_eq!(r.usage, Some(1));
            }
            AgentStep::RunTools { .. } => panic!("expected the reply to finish"),
        }
    }
}

#[test]
fn tool_results_and_errors_are_reported_to_the_model() {
    assert_eq!(tool_result_content(&Ok(String::from("42"))), "42");
    assert_eq!(tool_result_content(&Err(String::from("bad input"))), "Error: bad input");
    assert_eq!(unknown_tool_message("nope"), "unknown tool: nope");
}

#[test]
fn tools_are_found_by_their_first_matching_name() {
    let names = vec![String::from("a"), String::from("b"), String::from("a")];
    assert_eq!(find_tool(&names, "a"), Some(0));
    assert_eq!(find_tool(&names, "b"), Some(1));
    assert_eq!(find_tool(&names, "c"), None);
    assert_eq!(find_tool(&[], "a"), None);
}

#[test]
fn a_request_starts_with_the_system_instruction() {
    let request = build_request(
        "Be brief.",
        "model-x",
        vec![ChatRequestMessage::User(String::from("hi"))],
        vec![],
        true,
    );
    assert_eq!(request.model, "model-x");
    assert_eq!(request.messages.len(), 2);
    assert!(matches!(&request.messages[0], ChatRequestMessage::System(s) if s == "Be brief."));
    assert!(matches!(&request.messages[1], ChatRequestMessage::User(s) if s == "hi"));
    assert!(request.tools.is_none());
    assert!(request.stream);

    let with_tools = build_request(
        "s",
        "m",
        vec![],
        vec![ToolSpec {
            name: String::from("t"),
            description: String::from("d"),
            parameters_json: String::from("{}"),
        }],
        false,
    );
    assert_eq!(with_tools.messages.len(), 1);
    assert_eq!(with_tools.tools.as_ref().map(|t| t.len()), Some(1));
    assert!(!with_tools.stream);
}

#[test]
fn days_since_epoch_become_calendar_dates() {
    assert_eq!(days_to_ymd(0), (1970, 1, 1));
    assert_eq!(days_to_ymd(31), (1970, 2, 1));
    assert_eq!(days_to_ymd(11016), (2000, 2, 29));
    assert_eq!(days_to_ymd(19723), (2024, 1, 1));
    assert_eq!(days_to_ymd(19782), (2024, 2, 29));
    assert_eq!(days_to_ymd(20088), (2024, 12, 31));
}

#[test]
fn timestamps_are_formatted_in_utc() {
    assert_eq!(format_utc_timestamp(0), "1970-01-01 00:00:00 UTC");
    assert_eq!(format_utc_timestamp(1_700_000_000), "2023-11-14 22:13:20 UTC");
    assert_eq!(format_utc_timestamp(951_782_400 + 86_399), "2000-02-29 23:59:59 UTC");
}

#[test]
fn the_time_tool_describes_itself() {
    let tool = GetCurrentTimeTool;
    assert_eq!(tool.name(), "get_current_time");
    assert_eq!(
        tool.description(),
        "Get the current date and time in UTC. Returns an ISO 8601 formatted timestamp."
    );
    assert_eq!(
        tool.parameters_json(),
        r#"{"type": "object", "properties": {}, "required": []}"#
    );
}

#[test]
fn mcp_text_parts_are_joined_by_line_feeds() {
    let parts = vec![
        Some(String::from("first")),
        None,
        Some(String::from("second")),
    ];
    assert_eq!(extract_text(&parts), "first\nsecond");
    assert_eq!(extract_text(&[None, None]), "");
    assert_eq!(extract_text(&[]), "");
}

#[test]
fn blank_or_empty_object_arguments_are_not_sent() {
    assert!(!sends_arguments(""));
    assert!(!sends_arguments("  {}  "));
    assert!(sends_arguments("{\"path\": \".\"}"));
}

#[test]
fn mcp_error_replies_become_errors() {
    assert_eq!(
        tool_call_outcome(Some(true), String::from("denied")),
        Err(String::from("MCP tool error: denied"))
    );
    assert_eq!(tool_call_outcome(Some(false), String::from("ok")), Ok(String::from("ok")));
    assert_eq!(tool_call_outcome(None, String::from("ok")), Ok(String::from("ok")));
    assert_eq!(tool_call_failure("timeout"), "MCP tool call failed: timeout");
}

#[test]
fn the_last_day_number_still_converts() {
    assert_eq!(days_to_ymd(u64::MAX - 719_468), (50_505_469_855_533_109, 4, 22));
}

#[test]
fn consecutive_day_numbers_are_consecutive_dates() {
    assert_eq!(days_to_ymd(11_015), (2000, 2, 28));
    assert_eq!(days_to_ymd(11_016), (2000, 2, 29));
    assert_eq!(days_to_ymd(11_017), (2000, 3, 1));
    assert_eq!(days_to_ymd(20_088), (2024, 12, 31));
    assert_eq!(days_to_ymd(20_089), (2025, 1, 1));
    assert_eq!(days_to_ymd(10_956), (1999, 12, 31));
    assert_eq!(days_to_ymd(10_957), (2000, 1, 1));
}
