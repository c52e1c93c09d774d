//! Character-level helpers shared by the cell coercion rules: trimming,
//! digit classification, and decimal integer parsing.

use vstd::prelude::*;
use vstd::string::StrSliceExecFns;

verus! {

/// Whitespace stripped from a cell's text before any rule is applied.
pub open spec fn is_ws(c: char) -> bool {
    c == ' ' || c == '\t' || c == '\n' || c == '\r'
}

pub open spec fn is_digit(c: char) -> bool {
    48 <= c as int && c as int <= 57
}

pub open spec fn digit_val(c: char) -> int {
    c as int - 48
}

pub open spec fn all_digits(s: Seq<char>) -> bool {
    forall|i: int| 0 <= i < s.len() ==> is_digit(#[trigger] s[i])
}

/// The value of a digit string read left to right.
pub open spec fn digits_val(s: Seq<char>) -> int
    decreases s.len(),
{
    if s.len() == 0 {
        0
    } else {
        digits_val(s.drop_last()) * 10 + digit_val(s.last())
    }
}

/// Unsigned decimal parse: nonempty, all digits, and the value fits in `i64`.
/// (The value of a digit string is never negative; stating the lower bound
/// here keeps it at hand wherever a parse result is used.)
pub open spec fn spec_parse_nat(s: Seq<char>) -> Option<int> {
    if s.len() > 0 && all_digits(s) && 0 <= digits_val(s) <= i64::MAX {
        Some(digits_val(s))
    } else {
        None
    }
}

/// Signed decimal parse: an optional leading '-' before the digits; the
/// magnitude must fit in `i64`.
pub open spec fn spec_parse_int(s: Seq<char>) -> Option<int> {
    if s.len() > 0 && s[0] == '-' {
        match spec_parse_nat(s.drop_first()) {
            Some(v) => Some(-v),
            None => None,
        }
    } else {
        spec_parse_nat(s)
    }
}

/// Index of the first non-whitespace character at or after `i`.
pub open spec fn trim_start_idx(s: Seq<char>, i: int) -> int
    decreases s.len() - i,
{
    if i >= s.len() {
        i
    } else if is_ws(s[i]) {
        trim_start_idx(s, i + 1)
    } else {
        i
    }
}

/// One past the last non-whitespace character strictly before `j`.
pub open spec fn trim_end_idx(s: Seq<char>, j: int) -> int
    decreases j,
{
    if j <= 0 {
        0
    } else if is_ws(s[j - 1]) {
        trim_end_idx(s, j - 1)
    } else {
        j
    }
}

/// The text with leading and trailing whitespace removed. Only the four
/// ASCII whitespace characters are stripped: a non-breaking space (as HTML's
/// `&nbsp;` decodes to) counts as content and will fail a numeric rule
/// rather than read as empty.
pub open spec fn spec_trim(s: Seq<char>) -> Seq<char> {
    let a = trim_start_idx(s, 0);
    let b = trim_end_idx(s, s.len() as int);
    if a < b {
        s.subrange(a, b)
    } else {
        Seq::empty()
    }
}

pub fn ws_char(c: char) -> (r: bool)
    ensures
        r == is_ws(c),
{
    c == ' ' || c == '\t' || c == '\n' || c == '\r'
}

pub fn digit_char(c: char) -> (r: bool)
    ensures
        r == is_digit(c),
{
    let u = c as u32;
    48 <= u && u <= 57
}

/// Trims leading and trailing whitespace from a string slice.
pub fn trim_str(s: &str) -> (r: &str)
    ensures
        r@ == spec_trim(s@),
{
    let n = s.unicode_len();
    let mut a: usize = 0;
    while a < n && ws_char(s.get_char(a))
        invariant
            a <= n,
            n == s@.len(),
            trim_start_idx(s@, 0) == trim_start_idx(s@, a as int),
        decreases n - a,
    {
        a = a + 1;
    }
    assert(trim_start_idx(s@, 0) == a as int);
    let mut b: usize = n;
    while b > a && ws_char(s.get_char(b - 1))
        invariant
            a <= b <= n,
            n == s@.len(),
            trim_end_idx(s@, n as int) == trim_end_idx(s@, b as int),
        decreases b,
    {
        b = b - 1;
    }
    if a < b {
        assert(trim_end_idx(s@, n as int) == b as int);
        s.substring_char(a, b)
    } else {
        // Only whitespace was seen: the scan from the right stopped at `a`,
        // and everything before `a` is whitespace too.
        proof {
            lemma_trim_end_le(s@, b as int);
            reveal_strlit("");
            assert(""@ =~= Seq::<char>::empty());
        }
        ""
    }
}

proof fn lemma_trim_end_le(s: Seq<char>, j: int)
    requires
        0 <= j,
    ensures
        trim_end_idx(s, j) <= j,
    decreases j,
{
    if j > 0 && is_ws(s[j - 1]) {
        lemma_trim_end_le(s, j - 1);
    }
}

/// The characters of a string slice, in order.
pub fn chars_vec(s: &str) -> (r: Vec<char>)
    ensures
        r@ == s@,
{
    let n = s.unicode_len();
    let mut r: Vec<char> = Vec::new();
    let mut i: usize = 0;
    while i < n
        invariant
            i <= n,
            n == s@.len(),
            r@ == s@.subrange(0, i as int),
        decreases n - i,
    {
        r.push(s.get_char(i));
        assert(r@ =~= s@.subrange(0, i + 1));
        i = i + 1;
    }
    assert(r@ =~= s@);
    r
}

/// Parses `v[from..to]` as an unsigned decimal number, per `spec_parse_nat`.
pub fn parse_nat_range(v: &Vec<char>, from: usize, to: usize) -> (r: Option<i64>)
    requires
        from <= to <= v@.len(),
    ensures
        match spec_parse_nat(v@.subrange(from as int, to as int)) {
            Some(n) => r == Some(n as i64),
            None => r is None,
        },
{
    let ghost s = v@.subrange(from as int, to as int);
    if from == to {
        return None;
    }
    let mut i: usize = from;
    let mut acc: u64 = 0;
    let mut ovf = false;
    while i < to
        invariant
            from <= i <= to <= v@.len(),
            s == v@.subrange(from as int, to as int),
            forall|k: int| from <= k < i ==> is_digit(#[trigger] v@[k]),
            !ovf ==> acc as int == digits_val(v@.subrange(from as int, i as int)) && acc
                <= 9223372036854775807u64,
            ovf ==> digits_val(v@.subrange(from as int, i as int)) > i64::MAX,
        decreases to - i,
    {
        let c = v[i];
        if !digit_char(c) {
            assert(s[i - from] == v@[i as int]);
            assert(!is_digit(s[i - from]));
            assert(!all_digits(s));
            return None;
        }
        let d = (c as u32 - 48) as u64;
        let ghost pre = v@.subrange(from as int, i as int);
        let ghost post = v@.subrange(from as int, i + 1);
        assert(post.drop_last() =~= pre);
        assert(post.last() == v@[i as int]);
        assert(digits_val(post) == digits_val(pre) * 10 + digit_val(v@[i as int]));
        if !ovf {
            // 922337203685477580 == i64::MAX / 10
            if acc > 922337203685477580u64 || (acc == 922337203685477580u64 && d > 7) {
                proof {
                    lemma_digits_val_nonneg(pre);
                }
                ovf = true;
            } else {
                acc = acc * 10 + d;
            }
        } else {
            proof {
                lemma_digits_val_nonneg(pre);
                assert(digits_val(pre) * 10 + digit_val(v@[i as int]) > i64::MAX) by (nonlinear_arith)
                    requires
                        digits_val(pre) > i64::MAX,
                        digit_val(v@[i as int]) >= 0,
                ;
            }
        }
        i = i + 1;
    }
    assert(v@.subrange(from as int, to as int) == s);
    if ovf {
        None
    } else {
        assert(all_digits(s));
        Some(acc as i64)
    }
}

proof fn lemma_digits_val_nonneg(s: Seq<char>)
    requires
        all_digits(s),
    ensures
        digits_val(s) >= 0,
    decreases s.len(),
{
    if s.len() > 0 {
        assert(all_digits(s.drop_last()));
        lemma_digits_val_nonneg(s.drop_last());
        assert(digits_val(s.drop_last()) * 10 >= 0) by (nonlinear_arith)
            requires
                digits_val(s.drop_last()) >= 0,
        ;
    }
}

/// Parses `v[from..to]` as a signed decimal number, per `spec_parse_int`.
pub fn parse_int_range(v: &Vec<char>, from: usize, to: usize) -> (r: Option<i64>)
    requires
        from <= to <= v@.len(),
    ensures
        match spec_parse_int(v@.subrange(from as int, to as int)) {
            Some(n) => r == Some(n as i64),
            None => r is None,
        },
{
    let ghost s = v@.subrange(from as int, to as int);
    if from < to && v[from] == '-' {
        assert(s.drop_first() =~= v@.subrange(from + 1, to as int));
        match parse_nat_range(v, from + 1, to) {
            Some(x) => {
                proof {
                    lemma_digits_val_nonneg(s.drop_first());
                }
                Some(-x)
            },
            None => None,
        }
    } else {
        parse_nat_range(v, from, to)
    }
}

/// Parses a whole character vector as a signed decimal number.
pub fn parse_int_chars(v: &Vec<char>) -> (r: Option<i64>)
    ensures
        match spec_parse_int(v@) {
            Some(n) => r == Some(n as i64),
            None => r is None,
        },
{
    let n = v.len();
    assert(v@.subrange(0, n as int) =~= v@);
    parse_int_range(v, 0, n)
}

} // verus!
