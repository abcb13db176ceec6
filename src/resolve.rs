//! Finding the statement year and the beginning and ending balances on a page.
use vstd::prelude::*;
use crate::decimal::{amount_outcome, Decimal};
use crate::error::StatementError;
use crate::extract::parse_amount_in;
use crate::text::{
    chars_of, digit_value, is_digit, is_digit_char, is_space, is_space_char, phrase_at,
    phrase_matches,
};

verus! {

/// The end of the run of whitespace that starts at `j`.
pub open spec fn space_run_end(s: Seq<char>, j: int) -> int
    decreases s.len() - j,
{
    if 0 <= j < s.len() && is_space(s[j]) {
        space_run_end(s, j + 1)
    } else {
        j
    }
}

/// A four-digit year, whitespace, the word "through" and one more whitespace
/// character start at `i`.
pub open spec fn year_at(s: Seq<char>, i: int) -> bool {
    let k = space_run_end(s, i + 4);
    0 <= i && i + 4 <= s.len() && is_digit(s[i]) && is_digit(s[i + 1]) && is_digit(s[i + 2])
        && is_digit(s[i + 3]) && k > i + 4 && phrase_at(s, k, "through"@) && k + 7 < s.len()
        && is_space(s[k + 7])
}

pub open spec fn year_value(s: Seq<char>, i: int) -> int {
    digit_value(s[i]) * 1000 + digit_value(s[i + 1]) * 100 + digit_value(s[i + 2]) * 10
        + digit_value(s[i + 3])
}

/// The first year token at or after `i`.
pub open spec fn first_year_from(s: Seq<char>, i: int) -> Option<int>
    decreases s.len() - i,
{
    if i < 0 || i >= s.len() {
        None
    } else if year_at(s, i) {
        Some(year_value(s, i))
    } else {
        first_year_from(s, i + 1)
    }
}

/// The statement year that a page names, if any.
pub open spec fn page_year(s: Seq<char>) -> Option<int> {
    first_year_from(s, 0)
}

pub open spec fn line_start(s: Seq<char>, i: int) -> bool {
    i == 0 || (0 < i <= s.len() && s[i - 1] == '\n')
}

/// The index of the line break that ends the line holding `j`, or `s.len()`.
pub open spec fn line_end(s: Seq<char>, j: int) -> int
    decreases s.len() - j,
{
    if j < 0 || j >= s.len() {
        s.len() as int
    } else if s[j] == '\n' {
        j
    } else {
        line_end(s, j + 1)
    }
}

/// The last `$` in `lo..hi`.
pub open spec fn last_dollar(s: Seq<char>, lo: int, hi: int) -> Option<int>
    decreases hi - lo,
{
    if hi <= lo {
        None
    } else if s[hi - 1] == '$' {
        Some(hi - 1)
    } else {
        last_dollar(s, lo, hi - 1)
    }
}

/// The amount text of a balance line opening at `i` with `label`: what
/// follows the line's last `$`, where some text stands between the label and
/// that `$` and some after it.
pub open spec fn balance_capture_at(s: Seq<char>, i: int, label: Seq<char>) -> Option<(int, int)> {
    if line_start(s, i) && phrase_at(s, i, label) {
        let body = i + label.len();
        let eol = line_end(s, body);
        match last_dollar(s, body + 1, eol - 1) {
            Some(p) => Some((p + 1, eol)),
            None => None,
        }
    } else {
        None
    }
}

/// The amount text of the first balance line with `label` at or after `i`.
pub open spec fn first_balance_from(s: Seq<char>, label: Seq<char>, i: int) -> Option<(int, int)>
    decreases s.len() - i,
{
    if i < 0 || i >= s.len() {
        None
    } else if balance_capture_at(s, i, label) is Some {
        balance_capture_at(s, i, label)
    } else {
        first_balance_from(s, label, i + 1)
    }
}

/// The balance that a page gives under `label`: none, or what reading its
/// amount gives.
pub open spec fn page_balance(s: Seq<char>, label: Seq<char>) -> Option<
    Result<Decimal, StatementError>,
> {
    match first_balance_from(s, label, 0) {
        None => None,
        Some((t, e)) => Some(amount_outcome(s.subrange(t, e))),
    }
}

pub open spec fn beginning_label() -> Seq<char> {
    "Beginning Balance"@
}

pub open spec fn ending_label() -> Seq<char> {
    "Ending Balance"@
}

fn space_run_end_exec(s: &Vec<char>, j: usize) -> (r: usize)
    requires
        j <= s.len(),
    ensures
        r as int == space_run_end(s@, j as int),
        j <= r <= s.len(),
{
    let mut k = j;
    while k < s.len() && is_space_char(s[k])
        invariant
            j <= k <= s.len(),
            space_run_end(s@, j as int) == space_run_end(s@, k as int),
        decreases s.len() - k,
    {
        k = k + 1;
    }
    k
}

fn year_at_exec(s: &Vec<char>, i: usize, through: &Vec<char>) -> (r: bool)
    requires
        i < s.len(),
        through@ == "through"@,
    ensures
        r == year_at(s@, i as int),
{
    if s.len() - i < 4 || !is_digit_char(s[i]) || !is_digit_char(s[i + 1]) || !is_digit_char(
        s[i + 2],
    ) || !is_digit_char(s[i + 3]) {
        return false;
    }
    let k = space_run_end_exec(s, i + 4);
    k > i + 4 && phrase_matches(s, k, through) && s.len() - k > 7 && is_space_char(s[k + 7])
}

/// The statement year named on a page: the first four-digit number that is
/// followed by whitespace, "through" and whitespace.
pub fn statement_year(page: &str) -> (r: Option<i32>)
    ensures
        match page_year(page@) {
            Some(y) => r == Some(y as i32) && 0 <= y <= 9999,
            None => r is None,
        },
{
    let s = chars_of(page);
    let through = chars_of("through");
    let mut i: usize = 0;
    while i < s.len()
        invariant
            i <= s.len(),
            s@ == page@,
            through@ == "through"@,
            first_year_from(s@, 0) == first_year_from(s@, i as int),
        decreases s.len() - i,
    {
        if year_at_exec(&s, i, &through) {
            let y = (s[i] as u32 - '0' as u32) * 1000 + (s[i + 1] as u32 - '0' as u32) * 100 + (
            s[i + 2] as u32 - '0' as u32) * 10 + (s[i + 3] as u32 - '0' as u32);
            return Some(y as i32);
        }
        i = i + 1;
    }
    None
}

fn line_end_exec(s: &Vec<char>, j: usize) -> (r: usize)
    requires
        j <= s.len(),
    ensures
        r as int == line_end(s@, j as int),
        j <= r <= s.len(),
{
    let mut k = j;
    while k < s.len() && s[k] != '\n'
        invariant
            j <= k <= s.len(),
            line_end(s@, j as int) == line_end(s@, k as int),
        decreases s.len() - k,
    {
        k = k + 1;
    }
    k
}

fn last_dollar_exec(s: &Vec<char>, lo: usize, hi: usize) -> (r: Option<usize>)
    requires
        hi <= s.len(),
    ensures
        match r {
            Some(p) => last_dollar(s@, lo as int, hi as int) == Some(p as int) && lo <= p < hi,
            None => last_dollar(s@, lo as int, hi as int) is None,
        },
{
    let mut j = hi;
    while j > lo && s[j - 1] != '$'
        invariant
            j <= hi <= s.len(),
            last_dollar(s@, lo as int, hi as int) == last_dollar(s@, lo as int, j as int),
        decreases j,
    {
        j = j - 1;
    }
    if j > lo {
        Some(j - 1)
    } else {
        None
    }
}

fn balance_capture_exec(s: &Vec<char>, i: usize, label: &Vec<char>) -> (r: Option<(usize, usize)>)
    requires
        i < s.len(),
    ensures
        match r {
            Some((t, e)) => balance_capture_at(s@, i as int, label@) == Some((t as int, e as int))
                && t <= e <= s.len(),
            None => balance_capture_at(s@, i as int, label@) is None,
        },
{
    if !(i == 0 || s[i - 1] == '\n') || !phrase_matches(s, i, label) {
        return None;
    }
    let body = i + label.len();
    let eol = line_end_exec(s, body);
    if eol - body < 2 {
        return None;
    }
    match last_dollar_exec(s, body + 1, eol - 1) {
        Some(p) => Some((p + 1, eol)),
        None => None,
    }
}

/// The balance given on a page under `label`: `None` where no line opens
/// with it, else what reading the amount after the line's last `$` gives.
pub fn find_balance(s: &Vec<char>, label: &Vec<char>) -> (r: Option<Result<Decimal, StatementError>>)
    ensures
        r == page_balance(s@, label@),
{
    let mut i: usize = 0;
    while i < s.len()
        invariant
            i <= s.len(),
            first_balance_from(s@, label@, 0) == first_balance_from(s@, label@, i as int),
        decreases s.len() - i,
    {
        match balance_capture_exec(s, i, label) {
            Some((t, e)) => {
                return Some(parse_amount_in(s, t, e));
            },
            None => {},
        }
        i = i + 1;
    }
    None
}

/// The beginning balance given on a page.
pub fn beginning_balance(page: &str) -> (r: Option<Result<Decimal, StatementError>>)
    ensures
        r == page_balance(page@, beginning_label()),
{
    let s = chars_of(page);
    let label = chars_of("Beginning Balance");
    find_balance(&s, &label)
}

/// The ending balance given on a page.
pub fn ending_balance(page: &str) -> (r: Option<Result<Decimal, StatementError>>)
    ensures
        r == page_balance(page@, ending_label()),
{
    let s = chars_of(page);
    let label = chars_of("Ending Balance");
    find_balance(&s, &label)
}

} // verus!
