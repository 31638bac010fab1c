//! WHERE clauses and parameter lists built from record filters.

use vstd::prelude::*;

use super::record_filter::{FilterValue, RecordFilter};
use crate::text::{dec_chars, dec_seq, push_all, push_str_chars, string_from_chars};

verus! {

/// Why a record operation was refused before reaching the database.
#[derive(Debug, Clone, Copy, PartialEq, Eq, Structural)]
pub enum RecordError {
    /// A filtered read or delete was asked for with no filter at all.
    EmptyFilters,
}

impl RecordError {
    /// The text the error is reported with.
    pub fn message(&self) -> (r: &'static str)
        ensures
            r@ == "record filters cannot be empty"@,
    {
        "record filters cannot be empty"
    }
}

/// `column = ?n`: the predicate of the filter at position `i`, whose
/// placeholder is numbered from one.
pub open spec fn predicate_text(column: Seq<char>, i: nat) -> Seq<char> {
    column + " = ?"@ + dec_seq(i + 1)
}

/// The predicates of the first `n` filters, joined by ` AND `.
pub open spec fn joined_predicates(filters: Seq<RecordFilter>, n: nat) -> Seq<char>
    decreases n,
{
    if n == 0 {
        Seq::empty()
    } else if n == 1 {
        predicate_text(filters[0].column@, 0)
    } else {
        joined_predicates(filters, (n - 1) as nat) + " AND "@ + predicate_text(
            filters[n - 1].column@,
            (n - 1) as nat,
        )
    }
}

/// The WHERE clause of a list of filters.
pub open spec fn where_clause_text(filters: Seq<RecordFilter>) -> Seq<char> {
    "WHERE "@ + joined_predicates(filters, filters.len())
}

proof fn lemma_joined_same_columns(f: Seq<RecordFilter>, g: Seq<RecordFilter>, n: nat)
    requires
        n <= f.len(),
        n <= g.len(),
        forall|i: int| 0 <= i < n ==> (#[trigger] f[i]).column == g[i].column,
    ensures
        joined_predicates(f, n) == joined_predicates(g, n),
    decreases n,
{
    if n > 1 {
        lemma_joined_same_columns(f, g, (n - 1) as nat);
        assert(f[n - 1].column == g[n - 1].column);
    } else if n == 1 {
        assert(f[0].column == g[0].column);
    }
}

/// Statements are parameterized: the WHERE clause depends on the filters'
/// columns only, never on the values they compare with.
pub proof fn where_clause_ignores_values(f: Seq<RecordFilter>, g: Seq<RecordFilter>)
    requires
        f.len() == g.len(),
        forall|i: int| 0 <= i < f.len() ==> (#[trigger] f[i]).column == g[i].column,
    ensures
        where_clause_text(f) == where_clause_text(g),
{
    lemma_joined_same_columns(f, g, f.len());
}

/// `WHERE c1 = ?1 AND c2 = ?2 ...`, or an error when there is no filter.
pub fn build_where_clause(filters: &[RecordFilter]) -> (r: Result<String, RecordError>)
    ensures
        filters@.len() == 0 <==> r == Err::<String, RecordError>(RecordError::EmptyFilters),
        r matches Ok(s) ==> s@ == where_clause_text(filters@),
{
    if filters.len() == 0 {
        return Err(RecordError::EmptyFilters);
    }
    let mut out: Vec<char> = Vec::new();
    let mut i: usize = 0;
    while i < filters.len()
        invariant
            i <= filters@.len(),
            out@ == joined_predicates(filters@, i as nat),
        decreases filters@.len() - i,
    {
        if i > 0 {
            push_str_chars(&mut out, " AND ");
        }
        push_str_chars(&mut out, filters[i].column);
        push_str_chars(&mut out, " = ?");
        let number = dec_chars((i as u128) + 1);
        push_all(&mut out, number.as_slice());
        i = i + 1;
        proof {
            if i == 1 {
                assert(out@ =~= joined_predicates(filters@, 1));
            } else {
                assert(out@ =~= joined_predicates(filters@, i as nat));
            }
        }
    }
    let mut clause: Vec<char> = Vec::new();
    push_str_chars(&mut clause, "WHERE ");
    push_all(&mut clause, out.as_slice());
    Ok(string_from_chars(clause.as_slice()))
}

/// The values bound to the placeholders, in filter order.
pub fn filter_params(filters: &[RecordFilter]) -> (r: Vec<FilterValue>)
    ensures
        r@.len() == filters@.len(),
        forall|i: int| 0 <= i < filters@.len() ==> #[trigger] r@[i] == filters@[i].value,
{
    let mut r: Vec<FilterValue> = Vec::new();
    let mut i: usize = 0;
    while i < filters.len()
        invariant
            i <= filters@.len(),
            r@.len() == i,
            forall|j: int| 0 <= j < i ==> #[trigger] r@[j] == filters@[j].value,
        decreases filters@.len() - i,
    {
        r.push(filters[i].value.duplicate());
        i = i + 1;
    }
    r
}

} // verus!
