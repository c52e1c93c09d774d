//! From raw rows of cell text to `Gamelog` records: separator columns are
//! dropped, each kept cell is coerced by its column rule, and the values are
//! zipped positionally with the fixed schema names.

use vstd::prelude::*;
use vstd::string::StringExecFns;
use crate::coerce::{coerce_cell, spec_coerce, spec_dropped, stat_matches};
use crate::stat::{ExtractError, Stat, StatView};
use crate::text::spec_trim;

verus! {

/// How many statistics one gamelog holds: thirty raw columns minus the six
/// separator columns.
pub const SCHEMA_LEN: usize = 24;

/// The raw column that the `k`-th kept (post-filter) position reads.
pub open spec fn post_to_raw(k: int) -> int {
    if k <= 2 {
        k
    } else if k <= 10 {
        k + 1
    } else if k <= 12 {
        k + 2
    } else if k <= 14 {
        k + 3
    } else if k <= 16 {
        k + 4
    } else if k <= 22 {
        k + 5
    } else {
        k + 6
    }
}

pub fn post_to_raw_col(k: usize) -> (raw: usize)
    requires
        k < 24,
    ensures
        raw as int == post_to_raw(k as int),
        raw < 30,
        !spec_dropped(raw as int),
{
    if k <= 2 {
        k
    } else if k <= 10 {
        k + 1
    } else if k <= 12 {
        k + 2
    } else if k <= 14 {
        k + 3
    } else if k <= 16 {
        k + 4
    } else if k <= 22 {
        k + 5
    } else {
        k + 6
    }
}

/// Kept columns are read in document order: the position map is strictly
/// increasing.
pub proof fn lemma_post_to_raw_monotone(k1: int, k2: int)
    requires
        0 <= k1 < k2 < 24,
    ensures
        post_to_raw(k1) < post_to_raw(k2),
{
}

/// No kept column is skipped: every non-separator raw column is read by
/// some post-filter position.
pub proof fn lemma_post_to_raw_covers(raw: int)
    requires
        0 <= raw < 30,
        !spec_dropped(raw),
    ensures
        exists|k: int| 0 <= k < 24 && #[trigger] post_to_raw(k) == raw,
{
    let k = if raw <= 2 {
        raw
    } else if raw <= 11 {
        raw - 1
    } else if raw <= 14 {
        raw - 2
    } else if raw <= 17 {
        raw - 3
    } else if raw <= 20 {
        raw - 4
    } else if raw <= 27 {
        raw - 5
    } else {
        raw - 6
    };
    assert(post_to_raw(k) == raw);
}

/// The statistic name of a kept raw column.
pub open spec fn spec_name(raw: int) -> Seq<char> {
    if raw == 0 {
        "rk"@
    } else if raw == 1 {
        "num"@
    } else if raw == 2 {
        "date"@
    } else if raw == 4 {
        "team"@
    } else if raw == 5 {
        "is_home"@
    } else if raw == 6 {
        "opp"@
    } else if raw == 7 {
        "result"@
    } else if raw == 8 {
        "started"@
    } else if raw == 9 {
        "min"@
    } else if raw == 10 {
        "fg"@
    } else if raw == 11 {
        "fga"@
    } else if raw == 13 {
        "tp"@
    } else if raw == 14 {
        "tpa"@
    } else if raw == 16 {
        "ft"@
    } else if raw == 17 {
        "fta"@
    } else if raw == 19 {
        "orb"@
    } else if raw == 20 {
        "drb"@
    } else if raw == 22 {
        "ast"@
    } else if raw == 23 {
        "stl"@
    } else if raw == 24 {
        "blk"@
    } else if raw == 25 {
        "tov"@
    } else if raw == 26 {
        "pf"@
    } else if raw == 27 {
        "pts"@
    } else {
        "margin"@
    }
}

pub fn name_for(raw: usize) -> (r: &'static str)
    requires
        raw < 30,
        !spec_dropped(raw as int),
    ensures
        r@ == spec_name(raw as int),
{
    if raw == 0 {
        "rk"
    } else if raw == 1 {
        "num"
    } else if raw == 2 {
        "date"
    } else if raw == 4 {
        "team"
    } else if raw == 5 {
        "is_home"
    } else if raw == 6 {
        "opp"
    } else if raw == 7 {
        "result"
    } else if raw == 8 {
        "started"
    } else if raw == 9 {
        "min"
    } else if raw == 10 {
        "fg"
    } else if raw == 11 {
        "fga"
    } else if raw == 13 {
        "tp"
    } else if raw == 14 {
        "tpa"
    } else if raw == 16 {
        "ft"
    } else if raw == 17 {
        "fta"
    } else if raw == 19 {
        "orb"
    } else if raw == 20 {
        "drb"
    } else if raw == 22 {
        "ast"
    } else if raw == 23 {
        "stl"
    } else if raw == 24 {
        "blk"
    } else if raw == 25 {
        "tov"
    } else if raw == 26 {
        "pf"
    } else if raw == 27 {
        "pts"
    } else {
        "margin"
    }
}

/// One game's row: an ordered sequence of (statistic name, value) pairs, in
/// schema order.
#[derive(Clone, Debug, PartialEq)]
pub struct Gamelog {
    pub pairs: Vec<(String, Stat)>,
}

impl View for Gamelog {
    type V = Seq<(Seq<char>, StatView)>;

    open spec fn view(&self) -> Seq<(Seq<char>, StatView)> {
        self.pairs@.map_values(|p: (String, Stat)| (p.0@, p.1@))
    }
}

/// The pairs of a parsed row from kept position `k` on: each kept cell is
/// trimmed, coerced by its raw column's rule, and named. The first rule
/// failure fails the whole row.
pub open spec fn spec_row_from(cells: Seq<Seq<char>>, k: int) -> Result<
    Seq<(Seq<char>, StatView)>,
    ExtractError,
>
    decreases 24 - k,
{
    if k < 0 || k >= 24 {
        Ok(Seq::empty())
    } else {
        let raw = post_to_raw(k);
        match spec_coerce(raw, spec_trim(cells[raw])) {
            Err(e) => Err(e),
            Ok(sv) => match spec_row_from(cells, k + 1) {
                Err(e) => Err(e),
                Ok(rest) => Ok(seq![(spec_name(raw), sv)].add(rest)),
            },
        }
    }
}

/// One data row: exactly thirty raw cells, the six separator columns
/// dropped, the rest coerced and zipped with the schema names.
pub open spec fn spec_parse_row(cells: Seq<Seq<char>>) -> Result<
    Seq<(Seq<char>, StatView)>,
    ExtractError,
> {
    if cells.len() != 30 {
        Err(ExtractError::UnexpectedColumnCount(cells.len() as usize))
    } else {
        spec_row_from(cells, 0)
    }
}

/// A well-formed gamelog: exactly the twenty-four schema pairs, the names in
/// lock-step with the kept columns, each value of its column's kind.
pub open spec fn wf_gamelog(g: Seq<(Seq<char>, StatView)>) -> bool {
    g.len() == 24 && forall|k: int|
        0 <= k < 24 ==> (#[trigger] g[k]).0 == spec_name(post_to_raw(k)) && stat_matches(
            post_to_raw(k),
            g[k].1,
        )
}

proof fn lemma_row_from_wf(cells: Seq<Seq<char>>, k: int)
    requires
        0 <= k <= 24,
    ensures
        spec_row_from(cells, k) matches Ok(rest) ==> rest.len() == 24 - k && forall|j: int|
            0 <= j < rest.len() ==> (#[trigger] rest[j]).0 == spec_name(post_to_raw(k + j))
                && stat_matches(post_to_raw(k + j), rest[j].1),
    decreases 24 - k,
{
    if k < 24 {
        lemma_row_from_wf(cells, k + 1);
        let raw = post_to_raw(k);
        crate::coerce::lemma_coerce_matches(raw, spec_trim(cells[raw]));
    }
}

/// Every successfully parsed row is a well-formed gamelog: the pair count
/// equals the fixed schema length, whatever the raw cells held.
pub proof fn lemma_row_schema(cells: Seq<Seq<char>>)
    ensures
        spec_parse_row(cells) matches Ok(g) ==> wf_gamelog(g),
{
    lemma_row_from_wf(cells, 0);
}

/// Parses one raw data row into a gamelog.
pub fn parse_row(cells: &Vec<String>) -> (r: Result<Gamelog, ExtractError>)
    ensures
        match spec_parse_row(cells.deep_view()) {
            Ok(g) => r matches Ok(gl) && gl@ == g,
            Err(e) => r == Err::<Gamelog, ExtractError>(e),
        },
        r matches Ok(gl) ==> wf_gamelog(gl@),
{
    let ghost cv = cells.deep_view();
    proof {
        assert(forall|i: int|
            0 <= i < cells@.len() ==> (#[trigger] cv[i]) == cells@[i]@);
    }
    if cells.len() != 30 {
        return Err(ExtractError::UnexpectedColumnCount(cells.len()));
    }
    let mut pairs: Vec<(String, Stat)> = Vec::new();
    let mut k: usize = 0;
    while k < 24
        invariant
            k <= 24,
            cells@.len() == 30,
            cv == cells.deep_view(),
            cv.len() == 30,
            forall|i: int| 0 <= i < 30 ==> (#[trigger] cv[i]) == cells@[i]@,
            pairs@.map_values(|p: (String, Stat)| (p.0@, p.1@)).len() == k,
            match spec_row_from(cv, k as int) {
                Ok(rest) => spec_row_from(cv, 0) == Ok::<_, ExtractError>(
                    pairs@.map_values(|p: (String, Stat)| (p.0@, p.1@)).add(rest),
                ),
                Err(e) => spec_row_from(cv, 0) == Err::<Seq<(Seq<char>, StatView)>, _>(e),
            },
        decreases 24 - k,
    {
        let ghost pv = pairs@.map_values(|p: (String, Stat)| (p.0@, p.1@));
        let raw = post_to_raw_col(k);
        let stat = match coerce_cell(raw, cells[raw].as_str()) {
            Ok(st) => st,
            Err(e) => {
                return Err(e);
            },
        };
        let name = String::from_str(name_for(raw));
        pairs.push((name, stat));
        proof {
            let pv2 = pairs@.map_values(|p: (String, Stat)| (p.0@, p.1@));
            assert(pv2 =~= pv.push((spec_name(raw as int), stat@)));
            match spec_row_from(cv, k + 1) {
                Ok(rest) => {
                    assert(spec_row_from(cv, k as int) == Ok::<_, ExtractError>(
                        seq![(spec_name(raw as int), stat@)].add(rest),
                    ));
                    assert(pv.add(seq![(spec_name(raw as int), stat@)].add(rest)) =~= pv2.add(
                        rest,
                    ));
                },
                Err(_) => {},
            }
        }
        k = k + 1;
    }
    proof {
        let pv = pairs@.map_values(|p: (String, Stat)| (p.0@, p.1@));
        assert(spec_row_from(cv, 24) == Ok::<Seq<(Seq<char>, StatView)>, ExtractError>(
            Seq::empty(),
        ));
        assert(pv.add(Seq::empty()) =~= pv);
        lemma_row_schema(cv);
    }
    Ok(Gamelog { pairs })
}

/// The view of a sequence of gamelogs.
pub open spec fn gamelogs_view(v: Seq<Gamelog>) -> Seq<Seq<(Seq<char>, StatView)>> {
    v.map_values(|g: Gamelog| g@)
}

/// The gamelogs of a table's rows from row `i` on (the header row is row 0
/// and is never parsed).
pub open spec fn spec_table_from(rows: Seq<Seq<Seq<char>>>, i: int) -> Result<
    Seq<Seq<(Seq<char>, StatView)>>,
    ExtractError,
>
    decreases rows.len() - i,
{
    if i < 1 || i >= rows.len() {
        Ok(Seq::empty())
    } else {
        match spec_parse_row(rows[i]) {
            Err(e) => Err(e),
            Ok(g) => match spec_table_from(rows, i + 1) {
                Err(e) => Err(e),
                Ok(rest) => Ok(seq![g].add(rest)),
            },
        }
    }
}

/// All data rows of one table: the header row is skipped, every remaining
/// row is parsed, and the first failure fails the table.
pub open spec fn spec_table(rows: Seq<Seq<Seq<char>>>) -> Result<
    Seq<Seq<(Seq<char>, StatView)>>,
    ExtractError,
> {
    spec_table_from(rows, 1)
}

/// A table with only a header row (or no rows at all) yields the empty
/// sequence of gamelogs — not an error, and not an absent table.
pub proof fn lemma_header_only_table(rows: Seq<Seq<Seq<char>>>)
    requires
        rows.len() <= 1,
    ensures
        spec_table(rows) == Ok::<Seq<Seq<(Seq<char>, StatView)>>, ExtractError>(Seq::empty()),
{
}

/// Every gamelog of a successfully extracted table is well-formed.
pub proof fn lemma_table_wf(rows: Seq<Seq<Seq<char>>>, i: int)
    ensures
        spec_table_from(rows, i) matches Ok(gs) ==> forall|j: int|
            0 <= j < gs.len() ==> wf_gamelog(#[trigger] gs[j]),
    decreases rows.len() - i,
{
    if 1 <= i < rows.len() {
        lemma_table_wf(rows, i + 1);
        lemma_row_schema(rows[i]);
    }
}

/// Parses the rows of one located table into gamelogs, skipping the header
/// row.
pub fn rows_to_gamelogs(rows: &Vec<Vec<String>>) -> (r: Result<Vec<Gamelog>, ExtractError>)
    ensures
        match spec_table(rows.deep_view()) {
            Ok(gs) => r matches Ok(v) && gamelogs_view(v@) == gs,
            Err(e) => r == Err::<Vec<Gamelog>, ExtractError>(e),
        },
        r matches Ok(v) ==> forall|j: int| 0 <= j < v@.len() ==> wf_gamelog(#[trigger] v@[j]@),
{
    let ghost rv = rows.deep_view();
    proof {
        assert(forall|i: int|
            0 <= i < rows@.len() ==> (#[trigger] rv[i]) == rows@[i].deep_view());
    }
    let mut out: Vec<Gamelog> = Vec::new();
    let n = rows.len();
    if n <= 1 {
        proof {
            assert(gamelogs_view(out@) =~= Seq::<Seq<(Seq<char>, StatView)>>::empty());
        }
        return Ok(out);
    }
    let mut i: usize = 1;
    while i < n
        invariant
            1 <= i <= n,
            n == rows@.len(),
            rv == rows.deep_view(),
            rv.len() == n,
            forall|j: int| 0 <= j < n ==> (#[trigger] rv[j]) == rows@[j].deep_view(),
            gamelogs_view(out@).len() == i - 1,
            forall|j: int| 0 <= j < out@.len() ==> wf_gamelog(#[trigger] out@[j]@),
            match spec_table_from(rv, i as int) {
                Ok(rest) => spec_table_from(rv, 1) == Ok::<_, ExtractError>(
                    gamelogs_view(out@).add(rest),
                ),
                Err(e) => spec_table_from(rv, 1) == Err::<Seq<Seq<(Seq<char>, StatView)>>, _>(e),
            },
        decreases n - i,
    {
        let ghost ov = gamelogs_view(out@);
        let g = match parse_row(&rows[i]) {
            Ok(g) => g,
            Err(e) => {
                return Err(e);
            },
        };
        out.push(g);
        proof {
            let ov2 = gamelogs_view(out@);
            assert(ov2 =~= ov.push(g@));
            match spec_table_from(rv, i + 1) {
                Ok(rest) => {
                    assert(ov.add(seq![g@].add(rest)) =~= ov2.add(rest));
                },
                Err(_) => {},
            }
        }
        i = i + 1;
    }
    proof {
        let ov = gamelogs_view(out@);
        assert(spec_table_from(rv, n as int) == Ok::<Seq<Seq<(Seq<char>, StatView)>>,
            ExtractError,
        >(Seq::empty()));
        assert(ov.add(Seq::empty()) =~= ov);
    }
    Ok(out)
}

/// The season-level merge: regular-season gamelogs first, then playoffs;
/// absent only when both tables were absent.
pub open spec fn spec_merge(
    reg: Option<Seq<Seq<(Seq<char>, StatView)>>>,
    po: Option<Seq<Seq<(Seq<char>, StatView)>>>,
) -> Option<Seq<Seq<(Seq<char>, StatView)>>> {
    match (reg, po) {
        (Option::None, Option::None) => Option::None,
        (Option::Some(r), Option::None) => Option::Some(r),
        (Option::None, Option::Some(p)) => Option::Some(p),
        (Option::Some(r), Option::Some(p)) => Option::Some(r.add(p)),
    }
}

/// Concatenates the per-table gamelogs, regular season first. The result is
/// absent exactly when both tables were absent.
pub fn merge_gamelogs(reg: Option<Vec<Gamelog>>, po: Option<Vec<Gamelog>>) -> (r: Option<
    Vec<Gamelog>,
>)
    ensures
        r is None <==> (reg is None && po is None),
        match r {
            Some(v) => spec_merge(
                match reg {
                    Some(rv) => Some(gamelogs_view(rv@)),
                    None => None,
                },
                match po {
                    Some(pv) => Some(gamelogs_view(pv@)),
                    None => None,
                },
            ) == Some(gamelogs_view(v@)),
            None => true,
        },
{
    match (reg, po) {
        (Option::None, Option::None) => Option::None,
        (Option::Some(r), Option::None) => Option::Some(r),
        (Option::None, Option::Some(p)) => Option::Some(p),
        (Option::Some(mut r), Option::Some(mut p)) => {
            let ghost rv = gamelogs_view(r@);
            let ghost pv = gamelogs_view(p@);
            r.append(&mut p);
            proof {
                assert(gamelogs_view(r@) =~= rv.add(pv));
            }
            Option::Some(r)
        },
    }
}

/// The outcome of one optionally-present table: an absent table stays
/// absent; a present table's rows are extracted, and may fail.
pub open spec fn spec_table_outcome(rows: Option<Seq<Seq<Seq<char>>>>) -> Result<
    Option<Seq<Seq<(Seq<char>, StatView)>>>,
    ExtractError,
> {
    match rows {
        Option::Some(rs) => match spec_table(rs) {
            Ok(gs) => Ok(Option::Some(gs)),
            Err(e) => Err(e),
        },
        Option::None => Ok(Option::None),
    }
}

/// The mathematical value of a season extraction result.
pub open spec fn outcome_view(r: Result<Option<Vec<Gamelog>>, ExtractError>) -> Result<
    Option<Seq<Seq<(Seq<char>, StatView)>>>,
    ExtractError,
> {
    match r {
        Ok(Option::Some(v)) => Ok(Option::Some(gamelogs_view(v@))),
        Ok(Option::None) => Ok(Option::None),
        Err(e) => Err(e),
    }
}

/// The whole pipeline after table location, as a function of the raw cell
/// texts of whichever tables are present: extract both tables (the regular
/// season decides the error first), then merge.
pub open spec fn spec_season(
    reg_rows: Option<Seq<Seq<Seq<char>>>>,
    po_rows: Option<Seq<Seq<Seq<char>>>>,
) -> Result<Option<Seq<Seq<(Seq<char>, StatView)>>>, ExtractError> {
    match (spec_table_outcome(reg_rows), spec_table_outcome(po_rows)) {
        (Err(e), _) => Err(e),
        (_, Err(e)) => Err(e),
        (Ok(a), Ok(b)) => Ok(spec_merge(a, b)),
    }
}

/// When neither table is present the season has no data — and that is the
/// only way the pipeline reports no data.
pub proof fn lemma_no_tables_no_data(
    reg_rows: Option<Seq<Seq<Seq<char>>>>,
    po_rows: Option<Seq<Seq<Seq<char>>>>,
)
    ensures
        spec_season(reg_rows, po_rows) == Ok::<Option<Seq<Seq<(Seq<char>, StatView)>>>,
            ExtractError,
        >(Option::None) <==> (reg_rows is None && po_rows is None),
{
}

} // verus!
