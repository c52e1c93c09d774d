//! The page-level entry point: a season page holds the URL it stands for
//! and the fetched HTML body, and extracts the merged season gamelogs.

use vstd::prelude::*;
use crate::html::{doc_table_rows, locate_gamelog_table};
use crate::row::{
    lemma_no_tables_no_data, merge_gamelogs, outcome_view, spec_season, spec_table_outcome,
    wf_gamelog, Gamelog,
};
use crate::stat::ExtractError;

verus! {

/// The season outcome a page body determines: the regular-season table's
/// rows and the playoff table's rows, located by their element ids, run
/// through the extraction pipeline.
pub open spec fn spec_page_outcome(body: Seq<char>) -> Result<
    Option<Seq<Seq<(Seq<char>, crate::stat::StatView)>>>,
    ExtractError,
> {
    spec_season(doc_table_rows(body, "pgl_basic"@), doc_table_rows(body, "pgl_basic_playoffs"@))
}

/// One player-season page: its URL and, once fetched, its HTML body.
pub struct SeasonPage {
    url: String,
    body: String,
}

/// The mathematical value of a `SeasonPage`.
pub struct SeasonPageView {
    pub url: Seq<char>,
    pub body: Seq<char>,
}

impl View for SeasonPage {
    type V = SeasonPageView;

    closed spec fn view(&self) -> SeasonPageView {
        SeasonPageView { url: self.url@, body: self.body@ }
    }
}

impl SeasonPage {
    /// A page handle for the given URL, with no body yet.
    pub fn new(url: String) -> (p: SeasonPage)
        ensures
            p@.url == url@,
            p@.body == Seq::<char>::empty(),
    {
        SeasonPage { url, body: String::new() }
    }

    /// The URL this page stands for; fetching it is the caller's
    /// collaborator's job.
    pub fn url(&self) -> (r: &String)
        ensures
            r@ == self@.url,
    {
        &self.url
    }

    /// Stores the fetched HTML body.
    pub fn set_body(&mut self, body: String)
        ensures
            final(self)@.url == old(self)@.url,
            final(self)@.body == body@,
    {
        self.body = body;
    }

    /// The gamelogs of the table with the given id: absent iff the document
    /// has no element with that id; otherwise exactly the extraction of the
    /// first such element's rows.
    fn find_gamelogs(body: &str, table_name: &str) -> (r: Result<
        Option<Vec<Gamelog>>,
        ExtractError,
    >)
        requires
            body@.len() <= 1073741823,
        ensures
            outcome_view(r) == spec_table_outcome(doc_table_rows(body@, table_name@)),
            r matches Ok(o) ==> (o is Some <==> doc_table_rows(body@, table_name@) is Some),
            r matches Ok(Some(v)) ==> forall|j: int|
                0 <= j < v@.len() ==> wf_gamelog(#[trigger] v@[j]@),
    {
        locate_gamelog_table(body, table_name).gamelogs()
    }

    /// Extracts the season's gamelogs from the stored body: exactly the
    /// season pipeline run on the body's two tables — the regular season
    /// table's rows first, then the playoff table's, the regular season
    /// deciding the error first. `Ok(None)` iff neither table is in the
    /// document ("no data"); a present but empty table still yields
    /// `Ok(Some(...))`; a row that breaks the schema fails the whole call.
    /// Every returned gamelog is well-formed: twenty-four pairs, names in
    /// schema order, each value of its column's kind.
    ///
    /// The body must stay under a quarter of 2^32 characters: the HTML
    /// parser buffers the text with a 32-bit byte length, and a character
    /// is at most four bytes.
    pub fn gamelogs(&self) -> (r: Result<Option<Vec<Gamelog>>, ExtractError>)
        requires
            self@.body.len() <= 1073741823,
        ensures
            outcome_view(r) == spec_page_outcome(self@.body),
            r == Ok::<Option<Vec<Gamelog>>, ExtractError>(None) <==> (doc_table_rows(
                self@.body,
                "pgl_basic"@,
            ) is None && doc_table_rows(self@.body, "pgl_basic_playoffs"@) is None),
            r matches Ok(Some(v)) ==> forall|j: int|
                0 <= j < v@.len() ==> wf_gamelog(#[trigger] v@[j]@),
    {
        let ghost dtr_r = doc_table_rows(self@.body, "pgl_basic"@);
        let ghost dtr_p = doc_table_rows(self@.body, "pgl_basic_playoffs"@);
        let reg = Self::find_gamelogs(self.body.as_str(), "pgl_basic");
        let po = Self::find_gamelogs(self.body.as_str(), "pgl_basic_playoffs");
        let ghost gr = reg;
        let ghost gp = po;
        match (reg, po) {
            (Err(e), _) => {
                proof {
                    assert(outcome_view(Err::<Option<Vec<Gamelog>>, ExtractError>(e))
                        == spec_season(dtr_r, dtr_p));
                    lemma_no_tables_no_data(dtr_r, dtr_p);
                }
                Err(e)
            },
            (_, Err(e)) => {
                proof {
                    assert(outcome_view(Err::<Option<Vec<Gamelog>>, ExtractError>(e))
                        == spec_season(dtr_r, dtr_p));
                    lemma_no_tables_no_data(dtr_r, dtr_p);
                }
                Err(e)
            },
            (Ok(a), Ok(b)) => {
                let ghost av = a;
                let ghost bv = b;
                let merged = merge_gamelogs(a, b);
                proof {
                    assert(spec_table_outcome(dtr_r) == outcome_view(gr));
                    assert(spec_table_outcome(dtr_p) == outcome_view(gp));
                    assert(outcome_view(Ok::<Option<Vec<Gamelog>>, ExtractError>(merged))
                        == spec_season(dtr_r, dtr_p));
                    lemma_no_tables_no_data(dtr_r, dtr_p);
                    if let Some(v) = &merged {
                        assert forall|j: int| 0 <= j < v@.len() implies wf_gamelog(
                            #[trigger] v@[j]@,
                        ) by {
                            match (av, bv) {
                                (Some(rvec), Some(pvec)) => {
                                    assert(crate::row::gamelogs_view(v@)
                                        == crate::row::gamelogs_view(rvec@).add(
                                        crate::row::gamelogs_view(pvec@),
                                    ));
                                    assert(crate::row::gamelogs_view(v@)[j] == v@[j]@);
                                    if j < rvec@.len() {
                                        assert(v@[j]@ == crate::row::gamelogs_view(rvec@)[j]);
                                        assert(wf_gamelog(rvec@[j]@));
                                    } else {
                                        assert(v@[j]@ == crate::row::gamelogs_view(pvec@)[j
                                            - rvec@.len()]);
                                        assert(wf_gamelog(pvec@[j - rvec@.len()]@));
                                    }
                                },
                                (Some(rvec), None) => {
                                    assert(crate::row::gamelogs_view(v@)
                                        == crate::row::gamelogs_view(rvec@));
                                    assert(crate::row::gamelogs_view(v@)[j] == v@[j]@);
                                    assert(wf_gamelog(rvec@[j]@));
                                },
                                (None, Some(pvec)) => {
                                    assert(crate::row::gamelogs_view(v@)
                                        == crate::row::gamelogs_view(pvec@));
                                    assert(crate::row::gamelogs_view(v@)[j] == v@[j]@);
                                    assert(wf_gamelog(pvec@[j]@));
                                },
                                (None, None) => {
                                    assert(false);
                                },
                            }
                        }
                    }
                }
                Ok(merged)
            },
        }
    }
}

/// Same document, same output: the season outcome that the `gamelogs`
/// contract pins down depends on the page body alone, so running one body
/// through the pipeline twice yields identical results.
pub proof fn lemma_gamelogs_deterministic(body1: Seq<char>, body2: Seq<char>)
    requires
        body1 == body2,
    ensures
        spec_page_outcome(body1) == spec_page_outcome(body2),
{
}

} // verus!
