//! The table contract of a persisted record type.

use vstd::prelude::*;

verus! {

/// A record type stored in its own table.
pub trait RecordSchema {
    /// The table name, as text.
    spec fn table_name_spec() -> Seq<char>;

    /// The table name.
    fn table_name() -> (r: &'static str)
        ensures
            r@ == Self::table_name_spec(),
    ;

    /// The statements that create the table and its indexes when missing.
    fn create_table_sql() -> &'static str;
}

} // verus!
