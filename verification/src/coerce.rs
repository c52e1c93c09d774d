//! The per-column coercion rules: which raw columns are separators, and how
//! each remaining cell's (trimmed) text becomes a typed `Stat`.

use vstd::prelude::*;
use crate::stat::{ExtractError, GameDate, Stat, StatView};
use crate::stat::{days_in_month, month_days, valid_date};
use crate::text::{
    all_digits, chars_vec, digit_char, digit_val, digits_val, is_digit, parse_int_chars,
    parse_int_range, parse_nat_range, spec_parse_int, spec_trim, trim_str,
};

verus! {

/// Separator or redundant raw columns, unconditionally dropped before
/// coercion.
pub open spec fn spec_dropped(raw: int) -> bool {
    raw == 3 || raw == 12 || raw == 15 || raw == 18 || raw == 21 || raw == 28
}

pub fn dropped_column(raw: usize) -> (r: bool)
    ensures
        r == spec_dropped(raw as int),
{
    raw == 3 || raw == 12 || raw == 15 || raw == 18 || raw == 21 || raw == 28
}

/// A `YYYY-MM-DD` cell: ten characters, dashes at positions 4 and 7, digits
/// everywhere else.
pub open spec fn date_shape(s: Seq<char>) -> bool {
    s.len() == 10 && s[4] == '-' && s[7] == '-' && is_digit(s[0]) && is_digit(s[1]) && is_digit(
        s[2],
    ) && is_digit(s[3]) && is_digit(s[5]) && is_digit(s[6]) && is_digit(s[8]) && is_digit(s[9])
}

/// The date a `YYYY-MM-DD` cell denotes, if it is a valid calendar date.
pub open spec fn spec_parse_date(s: Seq<char>) -> Option<(int, int, int)> {
    if date_shape(s) {
        let y = digits_val(s.subrange(0, 4));
        let m = digits_val(s.subrange(5, 7));
        let d = digits_val(s.subrange(8, 10));
        if valid_date(y, m, d) {
            Some((y, m, d))
        } else {
            None
        }
    } else {
        None
    }
}

/// Index where the run of digits starting at `i` ends.
pub open spec fn digit_run_end(s: Seq<char>, i: int) -> int
    decreases s.len() - i,
{
    if i >= s.len() || !is_digit(s[i]) {
        i
    } else {
        digit_run_end(s, i + 1)
    }
}

/// Where a group's digits begin: right after the '(', or one further when a
/// minus sign leads the group.
pub open spec fn group_digits_start(s: Seq<char>, i: int) -> int {
    if i + 1 < s.len() && s[i + 1] == '-' {
        i + 2
    } else {
        i + 1
    }
}

/// A parenthesized integer — an optional minus sign and a nonempty run of
/// digits — starts at index `i`.
pub open spec fn group_at(s: Seq<char>, i: int) -> bool {
    0 <= i < s.len() && s[i] == '(' && {
        let j = group_digits_start(s, i);
        let e = digit_run_end(s, j);
        e > j && e < s.len() && s[e] == ')'
    }
}

/// The value of the first parenthesized signed integer at or after `i`, if
/// any; `None` also when that value does not fit in `i64`.
pub open spec fn spec_margin_from(s: Seq<char>, i: int) -> Option<int>
    decreases s.len() - i,
{
    if i >= s.len() {
        None
    } else if group_at(s, i) {
        let e = digit_run_end(s, group_digits_start(s, i));
        spec_parse_int(s.subrange(i + 1, e))
    } else {
        spec_margin_from(s, i + 1)
    }
}

/// The point differential a result string carries: the first parenthesized
/// group, read as a signed integer — 12 out of `W (12)`, -3 out of
/// `L (-3)`. Absent when no group matches.
pub open spec fn spec_margin(s: Seq<char>) -> Option<int> {
    spec_margin_from(s, 0)
}

pub proof fn lemma_margin_bounds(s: Seq<char>, i: int)
    ensures
        spec_margin_from(s, i) matches Some(v) ==> -i64::MAX <= v <= i64::MAX,
    decreases s.len() - i,
{
    if i < s.len() && !group_at(s, i) {
        lemma_margin_bounds(s, i + 1);
    }
}

/// Index of the first ':' at or after `i`, or the length if there is none.
pub open spec fn first_colon_from(s: Seq<char>, i: int) -> int
    decreases s.len() - i,
{
    if i >= s.len() {
        i
    } else if s[i] == ':' {
        i
    } else {
        first_colon_from(s, i + 1)
    }
}

/// The minutes component of an `MM:SS` cell: the text before the first ':'
/// (or all of it, if there is no ':'), parsed as an integer.
pub open spec fn spec_minutes(s: Seq<char>) -> Option<int> {
    spec_parse_int(s.subrange(0, first_colon_from(s, 0)))
}

/// The coercion rule for the (trimmed) text of the cell at raw column
/// `raw`, which must not be a separator column.
pub open spec fn spec_coerce(raw: int, s: Seq<char>) -> Result<StatView, ExtractError> {
    if raw == 0 {
        // Rank: a mandatory integer.
        match spec_parse_int(s) {
            Some(v) => Ok(StatView::Number(v)),
            None => Err(ExtractError::InvalidNumber(0)),
        }
    } else if raw == 2 {
        // Game date.
        match spec_parse_date(s) {
            Some((y, m, d)) => Ok(StatView::Date { year: y, month: m, day: d }),
            None => Err(ExtractError::InvalidDate),
        }
    } else if raw == 4 || raw == 6 {
        // Team and opponent codes: raw text.
        Ok(StatView::Team(s))
    } else if raw == 5 {
        // Home/away marker: empty means home, a literal '@' means away.
        if s.len() == 0 {
            Ok(StatView::Flag(Some(true)))
        } else if s.len() == 1 && s[0] == '@' {
            Ok(StatView::Flag(Some(false)))
        } else {
            Err(ExtractError::InvalidHomeMarker)
        }
    } else if raw == 7 {
        // Result string: only the parenthesized margin is kept.
        Ok(StatView::Margin(spec_margin(s)))
    } else if raw == 8 {
        // Started marker: "1" means the game was not started.
        if s.len() == 1 && s[0] == '1' {
            Ok(StatView::Flag(Some(false)))
        } else {
            Ok(StatView::Flag(Some(true)))
        }
    } else if raw == 9 {
        // Minutes played, `MM:SS`; empty means the player did not play.
        if s.len() == 0 {
            Ok(StatView::OptionalNumber(None))
        } else {
            match spec_minutes(s) {
                Some(v) => Ok(StatView::OptionalNumber(Some(v))),
                None => Err(ExtractError::InvalidNumber(9)),
            }
        }
    } else {
        // Game number and all box-score counts: an optional integer.
        if s.len() == 0 {
            Ok(StatView::OptionalNumber(None))
        } else {
            match spec_parse_int(s) {
                Some(v) => Ok(StatView::OptionalNumber(Some(v))),
                None => Err(ExtractError::InvalidNumber(raw as usize)),
            }
        }
    }
}

/// The variant of `Stat` each column's rule produces when it succeeds.
pub open spec fn stat_matches(raw: int, sv: StatView) -> bool {
    if raw == 0 {
        sv is Number
    } else if raw == 2 {
        sv is Date
    } else if raw == 4 || raw == 6 {
        sv is Team
    } else if raw == 5 || raw == 8 {
        sv matches StatView::Flag(Some(_))
    } else if raw == 7 {
        sv is Margin
    } else {
        sv is OptionalNumber
    }
}

pub proof fn lemma_coerce_matches(raw: int, s: Seq<char>)
    ensures
        spec_coerce(raw, s) matches Ok(sv) ==> stat_matches(raw, sv),
{
}

/// Parses a (trimmed) `YYYY-MM-DD` cell.
fn parse_date_chars(v: &Vec<char>) -> (r: Option<GameDate>)
    ensures
        match spec_parse_date(v@) {
            Some((y, m, d)) => r matches Some(g) && g.year == y && g.month == m && g.day == d,
            None => r is None,
        },
{
    if v.len() != 10 {
        return None;
    }
    if v[4] != '-' || v[7] != '-' {
        return None;
    }
    let mut k: usize = 0;
    while k < 10
        invariant
            k <= 10,
            v@.len() == 10,
            forall|j: int| 0 <= j < k && j != 4 && j != 7 ==> is_digit(#[trigger] v@[j]),
        decreases 10 - k,
    {
        if k != 4 && k != 7 && !digit_char(v[k]) {
            assert(!date_shape(v@));
            return None;
        }
        k = k + 1;
    }
    assert(date_shape(v@));
    let y = match parse_nat_range(v, 0, 4) {
        Some(n) => n,
        None => {
            proof {
                lemma_small_digits(v@.subrange(0, 4));
            }
            return None;
        },
    };
    let m = match parse_nat_range(v, 5, 7) {
        Some(n) => n,
        None => {
            proof {
                lemma_small_digits(v@.subrange(5, 7));
            }
            return None;
        },
    };
    let d = match parse_nat_range(v, 8, 10) {
        Some(n) => n,
        None => {
            proof {
                lemma_small_digits(v@.subrange(8, 10));
            }
            return None;
        },
    };
    proof {
        lemma_small_digits(v@.subrange(0, 4));
        lemma_small_digits(v@.subrange(5, 7));
        lemma_small_digits(v@.subrange(8, 10));
    }
    let yy = y as u32;
    let mm = m as u32;
    let dd = d as u32;
    if 1 <= mm && mm <= 12 && 1 <= dd && dd <= month_days(yy, mm) {
        Some(GameDate { year: yy, month: mm, day: dd })
    } else {
        None
    }
}

/// A run of at most four digits stays under 10000.
proof fn lemma_small_digits(s: Seq<char>)
    requires
        all_digits(s),
        s.len() <= 4,
    ensures
        0 <= digits_val(s),
        s.len() <= 1 ==> digits_val(s) <= 9,
        s.len() <= 2 ==> digits_val(s) <= 99,
        s.len() <= 3 ==> digits_val(s) <= 999,
        digits_val(s) <= 9999,
    decreases s.len(),
{
    if s.len() > 0 {
        assert(all_digits(s.drop_last()));
        lemma_small_digits(s.drop_last());
    }
}

/// Finds the first parenthesized group of digits, per `spec_margin`.
fn parse_margin_chars(v: &Vec<char>) -> (r: Option<i64>)
    ensures
        match spec_margin(v@) {
            Some(n) => r == Some(n as i64),
            None => r is None,
        },
{
    let n = v.len();
    let mut i: usize = 0;
    while i < n
        invariant
            i <= n,
            n == v@.len(),
            spec_margin(v@) == spec_margin_from(v@, i as int),
        decreases n - i,
    {
        if v[i] == '(' {
            let j: usize = if i + 1 < n && v[i + 1] == '-' {
                i + 2
            } else {
                i + 1
            };
            assert(j as int == group_digits_start(v@, i as int));
            let mut e: usize = j;
            while e < n && digit_char(v[e])
                invariant
                    j <= e <= n,
                    n == v@.len(),
                    digit_run_end(v@, j as int) == digit_run_end(v@, e as int),
                decreases n - e,
            {
                e = e + 1;
            }
            assert(digit_run_end(v@, j as int) == e as int);
            if e > j && e < n && v[e] == ')' {
                assert(group_at(v@, i as int));
                return parse_int_range(v, i + 1, e);
            }
            assert(!group_at(v@, i as int));
        }
        i = i + 1;
    }
    None
}

/// Parses the minutes component of a nonempty (trimmed) `MM:SS` cell.
fn parse_minutes_chars(v: &Vec<char>) -> (r: Option<i64>)
    ensures
        match spec_minutes(v@) {
            Some(n) => r == Some(n as i64),
            None => r is None,
        },
{
    let n = v.len();
    let mut i: usize = 0;
    while i < n && v[i] != ':'
        invariant
            i <= n,
            n == v@.len(),
            first_colon_from(v@, 0) == first_colon_from(v@, i as int),
        decreases n - i,
    {
        i = i + 1;
    }
    assert(first_colon_from(v@, 0) == i as int);
    parse_int_range(v, 0, i)
}

/// Applies the column rule for raw column `raw` to a cell's text. The text
/// is trimmed first; `raw` must be a kept (non-separator) column of the
/// fixed thirty-column layout.
pub fn coerce_cell(raw: usize, text: &str) -> (r: Result<Stat, ExtractError>)
    requires
        raw < 30,
        !spec_dropped(raw as int),
    ensures
        match spec_coerce(raw as int, spec_trim(text@)) {
            Ok(sv) => r matches Ok(st) && st@ == sv,
            Err(e) => r == Err::<Stat, ExtractError>(e),
        },
        r matches Ok(st) ==> stat_matches(raw as int, st@),
{
    let t = trim_str(text);
    if raw == 0 {
        let v = chars_vec(t);
        match parse_int_chars(&v) {
            Some(n) => Ok(Stat::Number(n)),
            None => Err(ExtractError::InvalidNumber(0)),
        }
    } else if raw == 2 {
        let v = chars_vec(t);
        match parse_date_chars(&v) {
            Some(g) => Ok(Stat::Date(g)),
            None => Err(ExtractError::InvalidDate),
        }
    } else if raw == 4 || raw == 6 {
        Ok(Stat::Team(String::from_str(t)))
    } else if raw == 5 {
        let v = chars_vec(t);
        if v.len() == 0 {
            Ok(Stat::Flag(Some(true)))
        } else if v.len() == 1 && v[0] == '@' {
            Ok(Stat::Flag(Some(false)))
        } else {
            Err(ExtractError::InvalidHomeMarker)
        }
    } else if raw == 7 {
        let v = chars_vec(t);
        proof {
            lemma_margin_bounds(t@, 0);
        }
        match parse_margin_chars(&v) {
            Some(n) => Ok(Stat::Margin(Some(n))),
            None => Ok(Stat::Margin(None)),
        }
    } else if raw == 8 {
        let v = chars_vec(t);
        if v.len() == 1 && v[0] == '1' {
            Ok(Stat::Flag(Some(false)))
        } else {
            Ok(Stat::Flag(Some(true)))
        }
    } else if raw == 9 {
        let v = chars_vec(t);
        if v.len() == 0 {
            Ok(Stat::OptionalNumber(None))
        } else {
            match parse_minutes_chars(&v) {
                Some(n) => Ok(Stat::OptionalNumber(Some(n))),
                None => Err(ExtractError::InvalidNumber(9)),
            }
        }
    } else {
        let v = chars_vec(t);
        if v.len() == 0 {
            Ok(Stat::OptionalNumber(None))
        } else {
            match parse_int_chars(&v) {
                Some(n) => Ok(Stat::OptionalNumber(Some(n))),
                None => Err(ExtractError::InvalidNumber(raw)),
            }
        }
    }
}

/// Raw columns whose rule yields an optional integer.
pub open spec fn optional_number_column(raw: int) -> bool {
    0 <= raw < 30 && !spec_dropped(raw) && raw != 0 && raw != 2 && raw != 4 && raw != 5 && raw != 6
        && raw != 7 && raw != 8
}

/// An empty cell at any optional-number column is absent — never zero.
pub proof fn lemma_empty_cell_absent(raw: int, s: Seq<char>)
    requires
        optional_number_column(raw),
        s.len() == 0,
    ensures
        spec_coerce(raw, s) == Ok::<StatView, ExtractError>(StatView::OptionalNumber(None)),
{
}

/// The home/away marker: empty means home, a literal `@` means away, and
/// any other text is a hard failure.
pub proof fn lemma_home_marker(s: Seq<char>)
    ensures
        s.len() == 0 ==> spec_coerce(5, s) == Ok::<StatView, ExtractError>(
            StatView::Flag(Some(true)),
        ),
        s.len() == 1 && s[0] == '@' ==> spec_coerce(5, s) == Ok::<StatView, ExtractError>(
            StatView::Flag(Some(false)),
        ),
        !(s.len() == 0 || (s.len() == 1 && s[0] == '@')) ==> spec_coerce(5, s) == Err::<
            StatView,
            ExtractError,
        >(ExtractError::InvalidHomeMarker),
{
}

/// A result string without any parenthesized group of digits yields an
/// absent margin, not a failure.
pub proof fn lemma_result_without_group(s: Seq<char>)
    requires
        forall|i: int| !group_at(s, i),
    ensures
        spec_coerce(7, s) == Ok::<StatView, ExtractError>(StatView::Margin(None)),
{
    lemma_no_group_no_margin(s, 0);
}

proof fn lemma_no_group_no_margin(s: Seq<char>, i: int)
    requires
        forall|j: int| !group_at(s, j),
    ensures
        spec_margin_from(s, i) is None,
    decreases s.len() - i,
{
    if i < s.len() {
        lemma_no_group_no_margin(s, i + 1);
    }
}

} // verus!
