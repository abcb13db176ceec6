//! Finding the entries of each category in page text.
use vstd::prelude::*;
use crate::date::Date;
use crate::decimal::{amount_outcome, clean_range, parse_numeral, Decimal};
use crate::error::StatementError;
use crate::pattern::{
    amount_search_start, amount_tail_at, date_token_at, entry_date, entry_outcome, first_amount_end,
    last_date, run_start, scan, Category, Record,
};
use crate::text::{
    blank_to_line_end, chars_of, find_phrase, is_digit_char, is_space_char,
    lemma_next_phrase_bounds,
};

verus! {

fn date_token(s: &Vec<char>, d: usize) -> (r: bool)
    ensures
        r == date_token_at(s@, d as int),
{
    d <= s.len() && s.len() - d >= 6 && is_digit_char(s[d]) && is_digit_char(s[d + 1]) && s[d
        + 2] == '/' && is_digit_char(s[d + 3]) && is_digit_char(s[d + 4]) && is_space_char(
        s[d + 5],
    )
}

fn last_date_token(s: &Vec<char>, lo: usize, hi: usize) -> (r: Option<usize>)
    requires
        hi <= s.len(),
    ensures
        match r {
            Some(d) => last_date(s@, lo as int, hi as int) == Some(d as int),
            None => last_date(s@, lo as int, hi as int) is None,
        },
{
    let mut j = hi;
    while j > lo && !date_token(s, j - 1)
        invariant
            j <= hi <= s.len(),
            last_date(s@, lo as int, hi as int) == last_date(s@, lo as int, j as int),
        decreases j,
    {
        j = j - 1;
    }
    if j > lo {
        Some(j - 1)
    } else {
        None
    }
}

proof fn lemma_last_date_is_token(s: Seq<char>, lo: int, hi: int)
    requires
        last_date(s, lo, hi) is Some,
    ensures
        date_token_at(s, last_date(s, lo, hi)->0),
    decreases hi - lo,
{
    if hi > lo && !date_token_at(s, hi - 1) {
        lemma_last_date_is_token(s, lo, hi - 1);
    }
}

fn entry_date_exec(c: Category, s: &Vec<char>, lo: usize, a: usize) -> (r: Option<usize>)
    requires
        a <= s.len(),
    ensures
        match r {
            Some(d) => entry_date(c, s@, lo as int, a as int) == Some(d as int) && date_token_at(
                s@,
                d as int,
            ),
            None => entry_date(c, s@, lo as int, a as int) is None,
        },
{
    if c.date_leads_exec() {
        if a >= 6 && a - 6 >= lo && date_token(s, a - 6) {
            Some(a - 6)
        } else {
            None
        }
    } else if a < 5 {
        None
    } else {
        let r = last_date_token(s, lo, a - 5);
        proof {
            if r is Some {
                lemma_last_date_is_token(s@, lo as int, a - 5);
            }
        }
        r
    }
}

fn amount_search_start_exec(
    c: Category,
    s: &Vec<char>,
    anchor_len: usize,
    marker: &Option<Vec<char>>,
    a: usize,
    b: usize,
) -> (r: Option<usize>)
    requires
        anchor_len == c.anchor().len(),
        match c.marker() {
            None => marker is None,
            Some(m) => marker is Some && marker->0@ == m,
        },
        a + anchor_len <= s.len(),
        b <= s.len(),
    ensures
        match r {
            Some(f) => amount_search_start(c, s@, a as int, b as int) == Some(f as int),
            None => amount_search_start(c, s@, a as int, b as int) is None,
        },
{
    let body = a + anchor_len;
    match marker {
        None => Some(body),
        Some(m) => {
            let q = find_phrase(s, m, body);
            if m.len() <= b && q <= b - m.len() {
                Some(q + m.len())
            } else {
                None
            }
        },
    }
}

fn amount_tail(s: &Vec<char>, e: usize) -> (r: bool)
    ensures
        r == amount_tail_at(s@, e as int),
{
    4 <= e && e <= s.len() && is_digit_char(s[e - 4]) && s[e - 3] == '.' && is_digit_char(
        s[e - 2],
    ) && is_digit_char(s[e - 1])
}

fn first_amount_end_exec(s: &Vec<char>, from: usize, hi: usize) -> (r: Option<usize>)
    requires
        hi <= s.len(),
    ensures
        match r {
            Some(e) => first_amount_end(s@, from as int, from + 4, hi as int) == Some(e as int)
                && from + 4 <= e <= hi,
            None => first_amount_end(s@, from as int, from + 4, hi as int) is None,
        },
{
    if hi < 4 || from > hi - 4 {
        return None;
    }
    let mut e = from + 4;
    loop
        invariant
            from + 4 <= e <= hi <= s.len(),
            first_amount_end(s@, from as int, from + 4, hi as int) == first_amount_end(
                s@,
                from as int,
                e as int,
                hi as int,
            ),
        decreases hi - e,
    {
        if amount_tail(s, e) && blank_to_line_end(s, e) {
            return Some(e);
        }
        if e >= hi {
            assert(first_amount_end(s@, from as int, e + 1, hi as int) is None);
            return None;
        }
        e = e + 1;
    }
}

fn run_start_exec(s: &Vec<char>, lo: usize, j: usize) -> (r: usize)
    requires
        j <= s.len(),
    ensures
        r as int == run_start(s@, lo as int, j as int),
        r <= j,
{
    let mut i = j;
    while i > lo && (is_digit_char(s[i - 1]) || s[i - 1] == ',')
        invariant
            i <= j <= s.len(),
            run_start(s@, lo as int, j as int) == run_start(s@, lo as int, i as int),
        decreases i,
    {
        i = i - 1;
    }
    i
}

fn two_digits(a: char, b: char) -> (r: u32)
    requires
        crate::text::is_digit(a),
        crate::text::is_digit(b),
    ensures
        r as int == crate::text::digit_value(a) * 10 + crate::text::digit_value(b),
{
    (a as u32 - '0' as u32) * 10 + (b as u32 - '0' as u32)
}

/// The amount of the token `s[t..e]`.
pub fn parse_amount_in(s: &Vec<char>, t: usize, e: usize) -> (r: Result<Decimal, StatementError>)
    requires
        t <= e <= s.len(),
    ensures
        r == amount_outcome(s@.subrange(t as int, e as int)),
{
    let cleaned = clean_range(s, t, e);
    parse_numeral(&cleaned)
}

fn entry_outcome_exec(s: &Vec<char>, year: Option<i32>, d: usize, t: usize, e: usize) -> (r:
    Result<Record, StatementError>)
    requires
        date_token_at(s@, d as int),
        t <= e <= s.len(),
    ensures
        r == entry_outcome(s@, year, d as int, t as int, e as int),
{
    let month = two_digits(s[d], s[d + 1]);
    let day = two_digits(s[d + 3], s[d + 4]);
    match Date::in_statement_year(year, month, day) {
        Err(x) => Err(x),
        Ok(date) => match parse_amount_in(s, t, e) {
            Err(x) => Err(x),
            Ok(amount) => Ok(Record { date, amount }),
        },
    }
}

/// The entries of category `c` in the characters of a page, left to right,
/// each as its record or the reason it has none.
pub fn extract_entries(c: Category, s: &Vec<char>, year: Option<i32>) -> (r: Vec<
    Result<Record, StatementError>,
>)
    ensures
        r@ == scan(c, s@, year, 0),
{
    let anchor = c.anchor_chars();
    let marker = c.marker_chars();
    let n = s.len();
    let mut out: Vec<Result<Record, StatementError>> = Vec::new();
    let mut pos: usize = 0;
    loop
        invariant
            pos <= n == s.len(),
            anchor@ == c.anchor(),
            match c.marker() {
                None => marker is None,
                Some(m) => marker is Some && marker->0@ == m,
            },
            out@ + scan(c, s@, year, pos as int) == scan(c, s@, year, 0),
        ensures
            out@ == scan(c, s@, year, 0),
        decreases n - pos,
    {
        let a = find_phrase(s, &anchor, pos);
        proof {
            lemma_next_phrase_bounds(s@, anchor@, pos as int);
        }
        if a >= n {
            proof {
                assert(scan(c, s@, year, pos as int) == Seq::<Result<Record, StatementError>>::empty());
                assert(out@ + Seq::<Result<Record, StatementError>>::empty() =~= out@);
            }
            break;
        }
        let b = find_phrase(s, &anchor, a + 1);
        proof {
            lemma_next_phrase_bounds(s@, anchor@, a + 1);
        }
        let d = entry_date_exec(c, s, pos, a);
        let from = amount_search_start_exec(c, s, anchor.len(), &marker, a, b);
        let e = match from {
            None => None,
            Some(f) => first_amount_end_exec(s, f, b),
        };
        match (d, from, e) {
            (Some(d), Some(f), Some(e)) => {
                if a < e {
                    let t = run_start_exec(s, f, e - 4);
                    let o = entry_outcome_exec(s, year, d, t, e);
                    proof {
                        let ghost rest = scan(c, s@, year, e as int);
                        assert(scan(c, s@, year, pos as int) == seq![o] + rest);
                        assert(out@.push(o) + rest =~= out@ + (seq![o] + rest));
                    }
                    out.push(o);
                    pos = e;
                } else {
                    assert(scan(c, s@, year, pos as int) == scan(c, s@, year, a + 1));
                    pos = a + 1;
                }
            },
            _ => {
                assert(scan(c, s@, year, pos as int) == scan(c, s@, year, a + 1));
                pos = a + 1;
            },
        }
    }
    out
}

/// The entries of category `c` on a page, left to right, each as its record
/// or the reason it has none. Without a statement year every entry is
/// `UnresolvedYear`.
pub fn extract(c: Category, page: &str, year: Option<i32>) -> (r: Vec<
    Result<Record, StatementError>,
>)
    ensures
        r@ == scan(c, page@, year, 0),
{
    let s = chars_of(page);
    extract_entries(c, &s, year)
}

} // verus!
