use cowork_rs::record::record_file::{temp_file_name, RecordFile};
use cowork_rs::record::record_filter::{FilterValue, RecordFilter};
use cowork_rs::record::record_operation::{filter_params, RecordError};
use cowork_rs::record::record_sql::{delete_sql, delete_statement, read_statement, RecordSql};
use cowork_rs::record::schema::RecordSchema;
use cowork_rs::storage::chat_record::{
    MessageRecord, SessionRecord, MESSAGES_SELECT_HEAD, MESSAGES_SELECT_TAIL,
    SESSIONS_SELECT_HEAD, SESSIONS_SELECT_TAIL,
};

fn is_text(value: &FilterValue, expected: &str) -> bool {
    matches!(value, FilterValue::Text(t) if t == expected)
}

#[test]
fn filters_carry_their_column_and_value() {
    let text = RecordFilter::text("session_id", "abc");
    assert_eq!(text.column, "session_id");
    assert!(is_text(&text.value, "abc"));

    let integer = RecordFilter::integer("sequence", -4);
    assert!(matches!(integer.value, FilterValue::Integer(-4)));

    let real = RecordFilter::real_bits("temperature", 0.5f64.to_bits());
    assert!(matches!(real.value, FilterValue::Real(b) if f64::from_bits(b) == 0.5));

    let null = RecordFilter::null("title");
    assert_eq!(null.column, "title");
    assert!(matches!(null.value, FilterValue::Null));
}

#[test]
fn filter_params_follow_filter_order() {
    let filters = [
        RecordFilter::integer("sequence", 7),
        RecordFilter::text("session_id", "s"),
    ];
    let params = filter_params(&filters);
    assert_eq!(params.len(), 2);
    assert!(matches!(params[0], FilterValue::Integer(7)));
    assert!(is_text(&params[1], "s"));
}

#[test]
fn read_statement_wraps_the_where_clause_in_the_select() {
    let filters = [RecordFilter::text("session_id", "session-1")];
    let statement = read_statement::<MessageRecord>(&filters).expect("one filter");
    assert_eq!(
        statement.sql,
        format!("{MESSAGES_SELECT_HEAD}WHERE session_id = ?1{MESSAGES_SELECT_TAIL}")
    );
    assert_eq!(statement.params.len(), 1);
    assert!(is_text(&statement.params[0], "session-1"));

    let sessions = read_statement::<SessionRecord>(&filters).expect("one filter");
    assert_eq!(
        sessions.sql,
        format!("{SESSIONS_SELECT_HEAD}WHERE session_id = ?1{SESSIONS_SELECT_TAIL}")
    );
}

#[test]
fn delete_statement_names_the_table() {
    let filters = [
        RecordFilter::text("session_id", "a"),
        RecordFilter::integer("sequence", 2),
    ];
    let statement = delete_statement::<MessageRecord>(&filters).expect("filters present");
    assert_eq!(
        statement.sql,
        "DELETE FROM messages WHERE session_id = ?1 AND sequence = ?2"
    );
    assert_eq!(delete_sql::<SessionRecord>("WHERE x = ?1"), "DELETE FROM sessions WHERE x = ?1");
}

#[test]
fn statements_refuse_empty_filters() {
    let none: [RecordFilter; 0] = [];
    assert!(matches!(
        read_statement::<SessionRecord>(&none),
        Err(RecordError::EmptyFilters)
    ));
    assert!(matches!(
        delete_statement::<MessageRecord>(&none),
        Err(RecordError::EmptyFilters)
    ));
    assert_eq!(RecordError::EmptyFilters.message(), "record filters cannot be empty");
}

#[test]
fn record_types_name_their_tables() {
    assert_eq!(SessionRecord::table_name(), "sessions");
    assert_eq!(MessageRecord::table_name(), "messages");
    assert!(SessionRecord::create_table_sql().contains("CREATE TABLE IF NOT EXISTS sessions"));
    assert!(MessageRecord::create_table_sql().contains("ON DELETE CASCADE"));
    assert!(SessionRecord::select_all_sql().contains("ORDER BY updated_at DESC"));
    assert!(MessageRecord::select_all_sql().contains("ORDER BY session_id, sequence"));
    assert!(SessionRecord::upsert_sql().contains("ON CONFLICT(session_id) DO UPDATE SET"));
    assert!(MessageRecord::upsert_sql().contains("VALUES (?1, ?2, ?3, ?4, ?5, ?6)"));
}

#[test]
fn record_file_keeps_its_path() {
    let file = RecordFile::open("preference/llm-provider.json");
    assert_eq!(file.path(), "preference/llm-provider.json");
}

#[test]
fn temporary_file_name_is_hidden_and_unique_per_process_and_time() {
    assert_eq!(
        temp_file_name("mcp-servers.json", 4242, 1_700_000_000_123_456_789),
        ".mcp-servers.json.4242.1700000000123456789.tmp"
    );
    assert_eq!(temp_file_name("a", 0, 0), ".a.0.0.tmp");
}

#[test]
fn duplicates_are_equal_field_by_field() {
    let value = RecordFilter::text("title", "x").value.duplicate();
    assert!(is_text(&value, "x"));
    assert!(matches!(FilterValue::Integer(3).duplicate(), FilterValue::Integer(3)));

    let session = SessionRecord {
        session_id: String::from("s"),
        title: String::from("t"),
        model: String::from("m"),
        created_at: 1,
        updated_at: 2,
        temperature_bits: 0.7f64.to_bits(),
        top_p: 100,
        top_k: 40,
    };
    let copy = session.duplicate();
    assert_eq!(copy.session_id, "s");
    assert_eq!(copy.title, "t");
    assert_eq!(copy.model, "m");
    assert_eq!((copy.created_at, copy.updated_at), (1, 2));
    assert_eq!(f64::from_bits(copy.temperature_bits), 0.7);
    assert_eq!((copy.top_p, copy.top_k), (100, 40));
}
