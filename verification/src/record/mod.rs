pub mod record_file;
pub mod record_filter;
pub mod record_operation;
pub mod schema;
pub mod record_sql;
