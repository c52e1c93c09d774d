//! Locating the gamelog tables inside the HTML document. The HTML parse
//! itself is the `select` crate's, behind one trusted item whose result is
//! given a name; everything from the located cell texts on is verified
//! against that name.

use vstd::prelude::*;
use select::document::Document;
use select::predicate::{Attr, Name};
use crate::row::{outcome_view, rows_to_gamelogs, spec_table_outcome, wf_gamelog, Gamelog};
use crate::stat::ExtractError;

verus! {

/// The cell texts of the table with the given element id inside the HTML
/// parse of `body`: for the first element in document order whose `id`
/// attribute equals `id`, one sequence per descendant `tr` row, holding the
/// text of each of its `td` cells in order — or `None` when no such element
/// exists. HTML parsing is a function of the text alone, so this is well
/// defined; its full statement is the HTML parsing algorithm, which is why
/// it only carries a name.
pub uninterp spec fn doc_table_rows(body: Seq<char>, id: Seq<char>) -> Option<
    Seq<Seq<Seq<char>>>,
>;

/// Relies on select's `Document: From<&str>` (the html5ever parse),
/// `Document::find` with an `Attr("id", ..)` predicate (first match in
/// document order), `Node::find` with `Name("tr")` / `Name("td")`
/// (descendant elements in document order) and `Node::text` (concatenated
/// text content): together, the cell texts that `doc_table_rows` names.
///
/// The parse buffers the text in a tendril, which asserts that its byte
/// length fits 32 bits; a character is at most four bytes, so the bound on
/// the character count below keeps the call away from that assertion.
/// Select's tree conversion and `Node::text` recurse once per nesting
/// level, so a pathologically deeply nested document can still exhaust the
/// stack — a machine resource no precondition over the text can state.
#[verifier::external_body]
fn locate_table_rows(body: &str, id: &str) -> (r: Option<Vec<Vec<String>>>)
    requires
        body@.len() <= 1073741823,
    ensures
        r.deep_view() == doc_table_rows(body@, id@),
{
    let doc = Document::from(body);
    doc.find(Attr("id", id)).next().map(|table| {
        table
            .find(Name("tr"))
            .map(|row| row.find(Name("td")).map(|cell| cell.text()).collect())
            .collect()
    })
}

/// Locates the table with the given id and hands its row cell texts to a
/// `GamelogTable`; absence is recorded, not an error.
pub(crate) fn locate_gamelog_table(body: &str, id: &str) -> (t: GamelogTable)
    requires
        body@.len() <= 1073741823,
    ensures
        t.table.deep_view() == doc_table_rows(body@, id@),
{
    GamelogTable::new(locate_table_rows(body, id))
}

/// One located gamelog table — the cell texts of its rows — or its recorded
/// absence, which is a normal outcome, not an error.
pub struct GamelogTable {
    pub table: Option<Vec<Vec<String>>>,
}

impl GamelogTable {
    pub(crate) fn new(table: Option<Vec<Vec<String>>>) -> (t: GamelogTable)
        ensures
            t.table == table,
    {
        GamelogTable { table }
    }

    /// Extracts this table's gamelogs: exactly the table outcome of the held
    /// rows — `Ok(None)` iff the table is absent; otherwise each data row
    /// parsed in document order, every resulting gamelog well-formed, and a
    /// schema mismatch failing the whole table.
    pub fn gamelogs(&self) -> (r: Result<Option<Vec<Gamelog>>, ExtractError>)
        ensures
            outcome_view(r) == spec_table_outcome(self.table.deep_view()),
            self.table is None ==> r == Ok::<Option<Vec<Gamelog>>, ExtractError>(None),
            r matches Ok(o) ==> (o is Some <==> self.table is Some),
            r is Err ==> self.table is Some,
            r matches Ok(Some(v)) ==> forall|j: int|
                0 <= j < v@.len() ==> wf_gamelog(#[trigger] v@[j]@),
    {
        match &self.table {
            None => Ok(None),
            Some(rows) => match rows_to_gamelogs(rows) {
                Ok(v) => Ok(Some(v)),
                Err(e) => Err(e),
            },
        }
    }
}

} // verus!
