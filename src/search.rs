//! The ranked full-text query sent to the store for a search.
use vstd::prelude::*;
use vstd::string::StrSliceExecFns;
use vstd::string::StringExecFns;

verus! {

/// Why a search was refused.
#[derive(Debug, Clone, Copy, PartialEq, Eq, Structural)]
pub enum QueryError {
    /// The query holds a character that would end the quoted literal.
    InvalidInput,
}

/// The lower-case form of a text.
pub uninterp spec fn lower_of(text: Seq<char>) -> Seq<char>;

/// Relies on str::to_lowercase: the result depends on the characters alone,
/// and an empty text stays empty.
#[verifier::external_body]
fn lowercase(text: &str) -> (r: String)
    ensures
        r@ == lower_of(text@),
        text@.len() == 0 ==> r@.len() == 0,
{
    text.to_lowercase()
}

/// The statement up to the address-field search term.
pub open spec fn statement_head() -> Seq<char> {
    "SELECT id, url.address AS address, search::highlight('<b>', '</b>', 1, true) AS highlight, search::score(0) * 2 + search::score(1) * 1 AS score FROM pages WHERE url.address @0@ '"@
}

/// The statement between the two search terms.
pub open spec fn statement_middle() -> Seq<char> {
    "' OR content @1@ '"@
}

/// The statement after the content-field search term: best first, ten at most.
pub open spec fn statement_tail() -> Seq<char> {
    "' ORDER BY score DESC LIMIT 10;"@
}

/// Whether a query can stand inside a single-quoted literal.
pub open spec fn quotable(q: Seq<char>) -> bool {
    forall|i: int| 0 <= i < q.len() ==> q[i] != '\'' && q[i] != '\\'
}

/// The statement that searches both fields for `q`, scoring an address
/// match twice as high as a content match.
pub open spec fn search_statement(q: Seq<char>) -> Seq<char> {
    statement_head() + q + statement_middle() + q + statement_tail()
}

/// The statement for an already case-folded query, or `InvalidInput` when
/// the query cannot be quoted.
pub fn search_statement_for(folded: &str) -> (r: Result<String, QueryError>)
    ensures
        quotable(folded@) ==> r is Ok && r.unwrap()@ == search_statement(folded@),
        !quotable(folded@) ==> r == Err::<String, QueryError>(QueryError::InvalidInput),
{
    let n = folded.unicode_len();
    let mut i: usize = 0;
    while i < n
        invariant
            n == folded@.len(),
            i <= n,
            forall|j: int| 0 <= j < i ==> folded@[j] != '\'' && folded@[j] != '\\',
        decreases n - i,
    {
        let ch = folded.get_char(i);
        if ch == '\'' || ch == '\\' {
            return Err(QueryError::InvalidInput);
        }
        i = i + 1;
    }
    let mut s = String::from_str("SELECT id, url.address AS address, search::highlight('<b>', '</b>', 1, true) AS highlight, search::score(0) * 2 + search::score(1) * 1 AS score FROM pages WHERE url.address @0@ '");
    s.append(folded);
    s.append("' OR content @1@ '");
    s.append(folded);
    s.append("' ORDER BY score DESC LIMIT 10;");
    Ok(s)
}

/// The statement for a free-text query, case-folded first.
pub fn build_search_query(query: &str) -> (r: Result<String, QueryError>)
    ensures
        quotable(lower_of(query@)) ==> r is Ok && r.unwrap()@ == search_statement(lower_of(query@)),
        !quotable(lower_of(query@)) ==> r == Err::<String, QueryError>(QueryError::InvalidInput),
{
    let folded = lowercase(query);
    search_statement_for(folded.as_str())
}

} // verus!
