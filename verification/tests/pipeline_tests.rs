//! End-to-end tests: synthetic HTML documents through the full pipeline,
//! with the real HTML parser underneath.

use gamelog::row::SCHEMA_LEN;
use gamelog::season::SeasonPage;
use gamelog::stat::{ExtractError, GameDate, Stat};

fn row_html(cells: &[&str]) -> String {
    let mut s = String::from("<tr>");
    for c in cells {
        s.push_str("<td>");
        s.push_str(c);
        s.push_str("</td>");
    }
    s.push_str("</tr>");
    s
}

fn data_row(pts: &str) -> Vec<String> {
    [
        "1", "1", "2015-01-02", "26-001", "LAL", "", "DEN", "W (12)", "1", "35:20", "10", "20",
        ".500", "2", "5", ".400", "3", "4", ".750", "1", "5", "6", "6", "2", "1", "3", "2", pts,
        "20.1", "",
    ]
    .iter()
    .map(|s| s.to_string())
    .collect()
}

fn table_html(id: &str, data_rows: &[Vec<String>]) -> String {
    let mut s = format!("<table id=\"{}\"><tr><th>header</th></tr>", id);
    for row in data_rows {
        let cells: Vec<&str> = row.iter().map(|c| c.as_str()).collect();
        s.push_str(&row_html(&cells));
    }
    s.push_str("</table>");
    s
}

fn page_with_body(body: &str) -> SeasonPage {
    let mut p = SeasonPage::new("https://example.invalid/gamelog/2015/".to_string());
    p.set_body(format!("<html><body>{}</body></html>", body));
    p
}

#[test]
fn page_without_either_table_has_no_data() {
    let p = page_with_body("<p>nothing to see</p><table id=\"other\"><tr><td>1</td></tr></table>");
    assert_eq!(p.gamelogs(), Ok(None));
}

#[test]
fn header_only_table_yields_empty_season_not_absence() {
    let p = page_with_body(&table_html("pgl_basic", &[]));
    assert_eq!(p.gamelogs(), Ok(Some(Vec::new())));
}

#[test]
fn single_row_regular_season() {
    let p = page_with_body(&table_html("pgl_basic", &[data_row("25")]));
    let logs = p.gamelogs().unwrap().unwrap();
    assert_eq!(logs.len(), 1);
    let g = &logs[0];
    assert_eq!(g.pairs.len(), SCHEMA_LEN);
    assert_eq!(g.pairs[0], ("rk".to_string(), Stat::Number(1)));
    assert_eq!(
        g.pairs[2],
        ("date".to_string(), Stat::Date(GameDate { year: 2015, month: 1, day: 2 }))
    );
    assert_eq!(g.pairs[3], ("team".to_string(), Stat::Team("LAL".to_string())));
    assert_eq!(g.pairs[6], ("result".to_string(), Stat::Margin(Some(12))));
    assert_eq!(g.pairs[7], ("started".to_string(), Stat::Flag(Some(false))));
    assert_eq!(g.pairs[8], ("min".to_string(), Stat::OptionalNumber(Some(35))));
    assert_eq!(g.pairs[22], ("pts".to_string(), Stat::OptionalNumber(Some(25))));
}

#[test]
fn regular_season_comes_before_playoffs() {
    let body = format!(
        "{}{}",
        table_html("pgl_basic", &[data_row("25"), data_row("31")]),
        table_html("pgl_basic_playoffs", &[data_row("40")])
    );
    let p = page_with_body(&body);
    let logs = p.gamelogs().unwrap().unwrap();
    assert_eq!(logs.len(), 3);
    assert_eq!(logs[0].pairs[22].1, Stat::OptionalNumber(Some(25)));
    assert_eq!(logs[1].pairs[22].1, Stat::OptionalNumber(Some(31)));
    assert_eq!(logs[2].pairs[22].1, Stat::OptionalNumber(Some(40)));
}

#[test]
fn playoffs_alone_still_yield_data() {
    let p = page_with_body(&table_html("pgl_basic_playoffs", &[data_row("18")]));
    let logs = p.gamelogs().unwrap().unwrap();
    assert_eq!(logs.len(), 1);
    assert_eq!(logs[0].pairs[22].1, Stat::OptionalNumber(Some(18)));
}

#[test]
fn short_row_fails_the_extraction() {
    let p = page_with_body(&table_html("pgl_basic", &[vec!["1".to_string(); 29]]));
    assert_eq!(p.gamelogs(), Err(ExtractError::UnexpectedColumnCount(29)));
}

#[test]
fn bad_marker_fails_the_extraction() {
    let mut row = data_row("25");
    row[5] = "home".to_string();
    let p = page_with_body(&table_html("pgl_basic", &[row]));
    assert_eq!(p.gamelogs(), Err(ExtractError::InvalidHomeMarker));
}

#[test]
fn same_document_twice_gives_identical_output() {
    let body = format!(
        "{}{}",
        table_html("pgl_basic", &[data_row("25")]),
        table_html("pgl_basic_playoffs", &[data_row("40")])
    );
    let p = page_with_body(&body);
    let first = p.gamelogs();
    let second = p.gamelogs();
    assert_eq!(first, second);
    let q = page_with_body(&body);
    assert_eq!(first, q.gamelogs());
}

#[test]
fn new_page_keeps_its_url() {
    let p = SeasonPage::new("https://example.invalid/x".to_string());
    assert_eq!(p.url().as_str(), "https://example.invalid/x");
    assert_eq!(p.gamelogs(), Ok(None));
}

#[test]
fn cell_text_is_trimmed_before_coercion() {
    let mut row = data_row("25");
    row[4] = " LAL\n".to_string();
    row[9] = " 35:20 ".to_string();
    let p = page_with_body(&table_html("pgl_basic", &[row]));
    let logs = p.gamelogs().unwrap().unwrap();
    assert_eq!(logs[0].pairs[3].1, Stat::Team("LAL".to_string()));
    assert_eq!(logs[0].pairs[8].1, Stat::OptionalNumber(Some(35)));
}
