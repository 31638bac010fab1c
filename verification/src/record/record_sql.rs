//! The SQL text of a record type, and the statements that filtered reads and
//! deletes send to the database.

use vstd::prelude::*;

use super::record_filter::{FilterValue, RecordFilter};
use super::record_operation::{build_where_clause, filter_params, where_clause_text, RecordError};
use super::schema::RecordSchema;
use crate::text::{push_str_chars, string_from_chars};

verus! {

/// The SQL that reads and writes a record type.
pub trait RecordSql: RecordSchema + Sized {
    /// The filtered SELECT for a given WHERE clause, as text.
    spec fn select_filtered_spec(where_clause: Seq<char>) -> Seq<char>;

    /// Every row, in the type's display order.
    fn select_all_sql() -> &'static str;

    /// The rows that match `where_clause`, in the type's display order.
    fn select_filtered_sql(where_clause: &str) -> (r: String)
        ensures
            r@ == Self::select_filtered_spec(where_clause@),
    ;

    /// Insert a row, or update every column of the row with the same key.
    fn upsert_sql() -> &'static str;
}

/// `DELETE FROM table where_clause`, as text.
pub open spec fn delete_sql_text(table: Seq<char>, where_clause: Seq<char>) -> Seq<char> {
    "DELETE FROM "@ + table + " "@ + where_clause
}

/// Removes the rows of `T` that match `where_clause`.
pub fn delete_sql<T: RecordSql>(where_clause: &str) -> (r: String)
    ensures
        r@ == delete_sql_text(T::table_name_spec(), where_clause@),
{
    let mut out: Vec<char> = Vec::new();
    push_str_chars(&mut out, "DELETE FROM ");
    push_str_chars(&mut out, T::table_name());
    push_str_chars(&mut out, " ");
    push_str_chars(&mut out, where_clause);
    string_from_chars(out.as_slice())
}

/// A statement with its positional parameters.
#[derive(Debug)]
pub struct SqlStatement {
    pub sql: String,
    pub params: Vec<FilterValue>,
}

/// The parameters are the filters' values, in filter order.
pub open spec fn params_match(params: Seq<FilterValue>, filters: Seq<RecordFilter>) -> bool {
    &&& params.len() == filters.len()
    &&& forall|i: int| 0 <= i < filters.len() ==> #[trigger] params[i] == filters[i].value
}

/// The filtered read of `T`, refused when there is no filter.
pub fn read_statement<T: RecordSql>(filters: &[RecordFilter]) -> (r: Result<SqlStatement, RecordError>)
    ensures
        filters@.len() == 0 <==> r is Err,
        r matches Err(e) ==> e == RecordError::EmptyFilters,
        r matches Ok(st) ==> {
            &&& st.sql@ == T::select_filtered_spec(where_clause_text(filters@))
            &&& params_match(st.params@, filters@)
        },
{
    let where_clause = match build_where_clause(filters) {
        Ok(w) => w,
        Err(e) => return Err(e),
    };
    let sql = T::select_filtered_sql(where_clause.as_str());
    Ok(SqlStatement { sql, params: filter_params(filters) })
}

/// The filtered delete of `T`, refused when there is no filter.
pub fn delete_statement<T: RecordSql>(filters: &[RecordFilter]) -> (r: Result<SqlStatement, RecordError>)
    ensures
        filters@.len() == 0 <==> r is Err,
        r matches Err(e) ==> e == RecordError::EmptyFilters,
        r matches Ok(st) ==> {
            &&& st.sql@ == delete_sql_text(T::table_name_spec(), where_clause_text(filters@))
            &&& params_match(st.params@, filters@)
        },
{
    let where_clause = match build_where_clause(filters) {
        Ok(w) => w,
        Err(e) => return Err(e),
    };
    let sql = delete_sql::<T>(where_clause.as_str());
    Ok(SqlStatement { sql, params: filter_params(filters) })
}

} // verus!
