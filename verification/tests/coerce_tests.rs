//! Unit tests for the per-column coercion rules and row parsing.

use gamelog::coerce::coerce_cell;
use gamelog::html::GamelogTable;
use gamelog::row::{parse_row, Gamelog, SCHEMA_LEN};
use gamelog::stat::{ExtractError, GameDate, Stat};

/// A raw thirty-cell row; separator columns (3, 12, 15, 18, 21, 28) carry
/// the page's redundant values and are dropped by the extractor.
fn sample_row() -> Vec<String> {
    [
        "1",          // 0 rk
        "1",          // 1 num
        "2015-01-02", // 2 date
        "26-001",     // 3 (separator: age)
        "LAL",        // 4 team
        "",           // 5 is_home
        "DEN",        // 6 opp
        "W (12)",     // 7 result
        "",           // 8 started
        "35:20",      // 9 min
        "10",         // 10 fg
        "20",         // 11 fga
        ".500",       // 12 (separator)
        "2",          // 13 tp
        "5",          // 14 tpa
        ".400",       // 15 (separator)
        "3",          // 16 ft
        "4",          // 17 fta
        ".750",       // 18 (separator)
        "1",          // 19 orb
        "5",          // 20 drb
        "6",          // 21 (separator)
        "6",          // 22 ast
        "2",          // 23 stl
        "1",          // 24 blk
        "3",          // 25 tov
        "2",          // 26 pf
        "25",         // 27 pts
        "20.1",       // 28 (separator)
        "",           // 29 margin
    ]
    .iter()
    .map(|s| s.to_string())
    .collect()
}

fn pair(g: &Gamelog, k: usize) -> (&str, &Stat) {
    let (name, stat) = &g.pairs[k];
    (name.as_str(), stat)
}

#[test]
fn round_trip_synthetic_row() {
    let g = parse_row(&sample_row()).expect("the synthetic row must parse");
    assert_eq!(g.pairs.len(), SCHEMA_LEN);
    assert_eq!(
        pair(&g, 2),
        ("date", &Stat::Date(GameDate { year: 2015, month: 1, day: 2 }))
    );
    assert_eq!(pair(&g, 3), ("team", &Stat::Team("LAL".to_string())));
    assert_eq!(pair(&g, 4), ("is_home", &Stat::Flag(Some(true))));
    assert_eq!(pair(&g, 5), ("opp", &Stat::Team("DEN".to_string())));
    assert_eq!(pair(&g, 6), ("result", &Stat::Margin(Some(12))));
    assert_eq!(pair(&g, 8), ("min", &Stat::OptionalNumber(Some(35))));
    assert_eq!(pair(&g, 9), ("fg", &Stat::OptionalNumber(Some(10))));
    assert_eq!(pair(&g, 23), ("margin", &Stat::OptionalNumber(None)));
}

#[test]
fn schema_names_in_order() {
    let g = parse_row(&sample_row()).unwrap();
    let names: Vec<&str> = g.pairs.iter().map(|(n, _)| n.as_str()).collect();
    assert_eq!(
        names,
        vec![
            "rk", "num", "date", "team", "is_home", "opp", "result", "started", "min", "fg",
            "fga", "tp", "tpa", "ft", "fta", "orb", "drb", "ast", "stl", "blk", "tov", "pf",
            "pts", "margin"
        ]
    );
}

#[test]
fn wrong_column_count_is_fatal() {
    let mut cells = sample_row();
    cells.pop();
    assert_eq!(
        parse_row(&cells),
        Err(ExtractError::UnexpectedColumnCount(29))
    );
    let empty: Vec<String> = Vec::new();
    assert_eq!(parse_row(&empty), Err(ExtractError::UnexpectedColumnCount(0)));
    let mut long = sample_row();
    long.push("31".to_string());
    assert_eq!(parse_row(&long), Err(ExtractError::UnexpectedColumnCount(31)));
}

#[test]
fn home_marker_empty_means_home() {
    assert_eq!(coerce_cell(5, ""), Ok(Stat::Flag(Some(true))));
}

#[test]
fn home_marker_at_means_away() {
    assert_eq!(coerce_cell(5, "@"), Ok(Stat::Flag(Some(false))));
}

#[test]
fn home_marker_other_text_fails() {
    assert_eq!(coerce_cell(5, "vs"), Err(ExtractError::InvalidHomeMarker));
    assert_eq!(coerce_cell(5, "@@"), Err(ExtractError::InvalidHomeMarker));
}

#[test]
fn empty_optional_cell_is_absent_not_zero() {
    assert_eq!(coerce_cell(1, ""), Ok(Stat::OptionalNumber(None)));
    assert_eq!(coerce_cell(10, ""), Ok(Stat::OptionalNumber(None)));
    assert_eq!(coerce_cell(29, " \n "), Ok(Stat::OptionalNumber(None)));
    assert_eq!(coerce_cell(9, ""), Ok(Stat::OptionalNumber(None)));
}

#[test]
fn result_without_group_is_absent_margin() {
    assert_eq!(coerce_cell(7, "W"), Ok(Stat::Margin(None)));
    assert_eq!(coerce_cell(7, ""), Ok(Stat::Margin(None)));
    assert_eq!(coerce_cell(7, "W (OT)"), Ok(Stat::Margin(None)));
    assert_eq!(coerce_cell(7, "L ()"), Ok(Stat::Margin(None)));
}

#[test]
fn result_margin_extracts_first_group() {
    assert_eq!(coerce_cell(7, "W (12)"), Ok(Stat::Margin(Some(12))));
    assert_eq!(coerce_cell(7, "L (3)"), Ok(Stat::Margin(Some(3))));
    assert_eq!(coerce_cell(7, "(5) (7)"), Ok(Stat::Margin(Some(5))));
    assert_eq!(coerce_cell(7, "W (x) (8)"), Ok(Stat::Margin(Some(8))));
}

#[test]
fn result_margin_is_signed() {
    assert_eq!(coerce_cell(7, "L (-3)"), Ok(Stat::Margin(Some(-3))));
    assert_eq!(coerce_cell(7, "(-12)"), Ok(Stat::Margin(Some(-12))));
    assert_eq!(coerce_cell(7, "L (-)"), Ok(Stat::Margin(None)));
    assert_eq!(coerce_cell(7, "L (+3)"), Ok(Stat::Margin(None)));
}

#[test]
fn mandatory_number_rules() {
    assert_eq!(coerce_cell(0, "17"), Ok(Stat::Number(17)));
    assert_eq!(coerce_cell(0, " 17 "), Ok(Stat::Number(17)));
    assert_eq!(coerce_cell(0, ""), Err(ExtractError::InvalidNumber(0)));
    assert_eq!(coerce_cell(0, "x"), Err(ExtractError::InvalidNumber(0)));
    assert_eq!(coerce_cell(0, "9223372036854775807"), Ok(Stat::Number(i64::MAX)));
    assert_eq!(
        coerce_cell(0, "9223372036854775808"),
        Err(ExtractError::InvalidNumber(0))
    );
}

#[test]
fn optional_number_parses_signed() {
    assert_eq!(coerce_cell(29, "-3"), Ok(Stat::OptionalNumber(Some(-3))));
    assert_eq!(coerce_cell(29, "7"), Ok(Stat::OptionalNumber(Some(7))));
    assert_eq!(coerce_cell(29, "x7"), Err(ExtractError::InvalidNumber(29)));
}

#[test]
fn date_rules() {
    assert_eq!(
        coerce_cell(2, "2016-02-29"),
        Ok(Stat::Date(GameDate { year: 2016, month: 2, day: 29 }))
    );
    assert_eq!(coerce_cell(2, "2015-02-29"), Err(ExtractError::InvalidDate));
    assert_eq!(coerce_cell(2, "2015-13-01"), Err(ExtractError::InvalidDate));
    assert_eq!(coerce_cell(2, "2015-00-10"), Err(ExtractError::InvalidDate));
    assert_eq!(coerce_cell(2, "2015-1-2"), Err(ExtractError::InvalidDate));
    assert_eq!(coerce_cell(2, ""), Err(ExtractError::InvalidDate));
    assert_eq!(
        coerce_cell(2, "2000-02-29"),
        Ok(Stat::Date(GameDate { year: 2000, month: 2, day: 29 }))
    );
    assert_eq!(coerce_cell(2, "1900-02-29"), Err(ExtractError::InvalidDate));
}

#[test]
fn oversized_margin_group_is_absent() {
    assert_eq!(
        coerce_cell(7, "W (99999999999999999999)"),
        Ok(Stat::Margin(None))
    );
}

#[test]
fn minutes_rules() {
    assert_eq!(coerce_cell(9, "35:20"), Ok(Stat::OptionalNumber(Some(35))));
    assert_eq!(coerce_cell(9, "7"), Ok(Stat::OptionalNumber(Some(7))));
    assert_eq!(coerce_cell(9, ":20"), Err(ExtractError::InvalidNumber(9)));
    assert_eq!(coerce_cell(9, "ab:20"), Err(ExtractError::InvalidNumber(9)));
}

#[test]
fn started_marker_rules() {
    assert_eq!(coerce_cell(8, "1"), Ok(Stat::Flag(Some(false))));
    assert_eq!(coerce_cell(8, ""), Ok(Stat::Flag(Some(true))));
    assert_eq!(coerce_cell(8, "0"), Ok(Stat::Flag(Some(true))));
}

#[test]
fn team_cells_keep_trimmed_text() {
    assert_eq!(coerce_cell(4, "  LAL \n"), Ok(Stat::Team("LAL".to_string())));
    assert_eq!(coerce_cell(6, ""), Ok(Stat::Team("".to_string())));
}

#[test]
fn bad_cell_fails_whole_row() {
    let mut cells = sample_row();
    cells[5] = "LAL".to_string();
    assert_eq!(parse_row(&cells), Err(ExtractError::InvalidHomeMarker));
    let mut cells = sample_row();
    cells[2] = "January 2".to_string();
    assert_eq!(parse_row(&cells), Err(ExtractError::InvalidDate));
}

#[test]
fn gamelog_table_extracts_its_held_rows() {
    let header = vec!["anything".to_string()];
    let t = GamelogTable { table: Some(vec![header, sample_row()]) };
    let logs = t.gamelogs().unwrap().unwrap();
    assert_eq!(logs.len(), 1);
    assert_eq!(logs[0].pairs.len(), SCHEMA_LEN);
    let absent = GamelogTable { table: None };
    assert_eq!(absent.gamelogs(), Ok(None));
    let header_only = GamelogTable { table: Some(vec![vec!["h".to_string()]]) };
    assert_eq!(header_only.gamelogs(), Ok(Some(Vec::new())));
}

#[test]
fn separator_cells_are_ignored_whatever_they_hold() {
    let mut cells = sample_row();
    cells[3] = "anything".to_string();
    cells[12] = "at".to_string();
    cells[28] = "all".to_string();
    let g = parse_row(&cells).unwrap();
    assert_eq!(g.pairs.len(), SCHEMA_LEN);
    assert_eq!(pair(&g, 3), ("team", &Stat::Team("LAL".to_string())));
}
