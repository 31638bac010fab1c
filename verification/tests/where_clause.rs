use cowork_rs::record::record_filter::RecordFilter;
use cowork_rs::record::record_operation::{build_where_clause, RecordError};

#[test]
fn where_clause_numbers_placeholders_in_order() {
    let filters = [
        RecordFilter::text("session_id", "s-1"),
        RecordFilter::integer("sequence", 3),
    ];
    let clause = build_where_clause(&filters).expect("filters present");
    assert_eq!(clause, "WHERE session_id = ?1 AND sequence = ?2");
}

#[test]
fn where_clause_refuses_empty_filters() {
    let filters: [RecordFilter; 0] = [];
    assert_eq!(build_where_clause(&filters), Err(RecordError::EmptyFilters));
}

#[test]
fn where_clause_depends_on_columns_only() {
    let first = [
        RecordFilter::text("session_id", "a"),
        RecordFilter::integer("sequence", 1),
    ];
    let second = [
        RecordFilter::text("session_id", "'; DROP TABLE sessions; --"),
        RecordFilter::integer("sequence", 99),
    ];
    assert_eq!(build_where_clause(&first), build_where_clause(&second));
}
