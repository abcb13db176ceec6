//! The four transaction patterns and the grammar of a transaction entry.
//!
//! An entry of a category is found by its anchor phrase. The block of an
//! anchor runs from it to the next anchor of the same category (or the end of
//! the page). The entry's date is a `MM/DD` token followed by whitespace,
//! found before the anchor and after the previous entry: right before the
//! anchor where the category's lines open with it, else the nearest one. Its
//! amount is the first amount token in the block (after the category's second
//! marker, where it has one) that closes its line: digits with optional
//! thousands commas, a point and two digits. The scan resumes after the
//! amount, or after an anchor that gave no entry.
use vstd::prelude::*;
use crate::date::{date_outcome, Date};
use crate::decimal::{amount_outcome, lemma_amount_non_negative, Decimal};
use crate::error::StatementError;
use crate::text::{
    blank_to_eol, chars_of, digit_value, is_digit, is_space, next_phrase, phrase_at,
};

verus! {

/// Whether a transaction adds money to the account or takes it out.
#[derive(Clone, Copy, Debug, PartialEq, Eq, Structural)]
pub enum TransactionKind {
    Debit,
    Credit,
}

/// The four transaction categories that statements are read for.
#[derive(Clone, Copy, Debug, PartialEq, Eq, Structural)]
pub enum Category {
    Deposit,
    DebitCardPurchase,
    OnlinePayment,
    TransferOut,
}

/// One dated amount read from a statement.
#[derive(Clone, Copy, Debug, PartialEq, Eq, Structural)]
pub struct Record {
    pub date: Date,
    pub amount: Decimal,
}

impl Category {
    /// The phrase that opens an entry of this category.
    pub open spec fn anchor(self) -> Seq<char> {
        match self {
            Category::Deposit => "Orig CO Name"@,
            Category::DebitCardPurchase => "Recurring Card Purchase"@,
            Category::OnlinePayment => "Xfer"@,
            Category::TransferOut => "Online Transfer To"@,
        }
    }

    /// A phrase that must follow the anchor, before the amount.
    pub open spec fn marker(self) -> Option<Seq<char>> {
        match self {
            Category::Deposit => Some("Descr:Payments"@),
            _ => None,
        }
    }

    /// The date token stands right before the anchor.
    pub open spec fn date_leads(self) -> bool {
        self == Category::Deposit || self == Category::DebitCardPurchase
    }

    pub open spec fn spec_kind(self) -> TransactionKind {
        if self == Category::Deposit {
            TransactionKind::Credit
        } else {
            TransactionKind::Debit
        }
    }

    #[verifier::when_used_as_spec(spec_kind)]
    pub fn kind(self) -> (r: TransactionKind)
        ensures
            r == self.spec_kind(),
    {
        match self {
            Category::Deposit => TransactionKind::Credit,
            _ => TransactionKind::Debit,
        }
    }

    pub fn anchor_chars(self) -> (r: Vec<char>)
        ensures
            r@ == self.anchor(),
    {
        match self {
            Category::Deposit => chars_of("Orig CO Name"),
            Category::DebitCardPurchase => chars_of("Recurring Card Purchase"),
            Category::OnlinePayment => chars_of("Xfer"),
            Category::TransferOut => chars_of("Online Transfer To"),
        }
    }

    pub fn marker_chars(self) -> (r: Option<Vec<char>>)
        ensures
            match self.marker() {
                None => r is None,
                Some(m) => r is Some && r->0@ == m,
            },
    {
        match self {
            Category::Deposit => Some(chars_of("Descr:Payments")),
            _ => None,
        }
    }

    pub fn date_leads_exec(self) -> (r: bool)
        ensures
            r == self.date_leads(),
    {
        match self {
            Category::Deposit => true,
            Category::DebitCardPurchase => true,
            _ => false,
        }
    }
}

/// A `MM/DD` token followed by whitespace starts at `d`.
pub open spec fn date_token_at(s: Seq<char>, d: int) -> bool {
    0 <= d && d + 6 <= s.len() && is_digit(s[d]) && is_digit(s[d + 1]) && s[d + 2] == '/'
        && is_digit(s[d + 3]) && is_digit(s[d + 4]) && is_space(s[d + 5])
}

pub open spec fn token_month(s: Seq<char>, d: int) -> int {
    digit_value(s[d]) * 10 + digit_value(s[d + 1])
}

pub open spec fn token_day(s: Seq<char>, d: int) -> int {
    digit_value(s[d + 3]) * 10 + digit_value(s[d + 4])
}

/// The last date token that starts in `lo..hi`.
pub open spec fn last_date(s: Seq<char>, lo: int, hi: int) -> Option<int>
    decreases hi - lo,
{
    if hi <= lo {
        None
    } else if date_token_at(s, hi - 1) {
        Some(hi - 1)
    } else {
        last_date(s, lo, hi - 1)
    }
}

/// The date token of the entry anchored at `a`, looked for from `lo` on.
pub open spec fn entry_date(c: Category, s: Seq<char>, lo: int, a: int) -> Option<int> {
    if c.date_leads() {
        if a - 6 >= lo && date_token_at(s, a - 6) {
            Some(a - 6)
        } else {
            None
        }
    } else {
        last_date(s, lo, a - 5)
    }
}

/// Where the amount of the entry anchored at `a` may start, given the end `b`
/// of its block.
pub open spec fn amount_search_start(c: Category, s: Seq<char>, a: int, b: int) -> Option<int> {
    let body = a + c.anchor().len();
    match c.marker() {
        None => Some(body),
        Some(m) => {
            let q = next_phrase(s, m, body);
            if q + m.len() <= b {
                Some(q + m.len())
            } else {
                None
            }
        },
    }
}

/// An amount token's fixed tail `D.DD` ends at `e`.
pub open spec fn amount_tail_at(s: Seq<char>, e: int) -> bool {
    4 <= e <= s.len() && is_digit(s[e - 4]) && s[e - 3] == '.' && is_digit(s[e - 2])
        && is_digit(s[e - 1])
}

/// The first `e` in `e0..=hi`, with room for a tail after `from`, where an
/// amount token ends its line.
pub open spec fn first_amount_end(s: Seq<char>, from: int, e0: int, hi: int) -> Option<int>
    decreases hi + 1 - e0,
{
    if e0 > hi {
        None
    } else if e0 >= from + 4 && amount_tail_at(s, e0) && blank_to_eol(s, e0) {
        Some(e0)
    } else {
        first_amount_end(s, from, e0 + 1, hi)
    }
}

pub open spec fn is_digit_or_comma(c: char) -> bool {
    is_digit(c) || c == ','
}

/// The start of the run of digits and commas that ends right before `j`,
/// not reaching below `lo`.
pub open spec fn run_start(s: Seq<char>, lo: int, j: int) -> int
    decreases j - lo,
{
    if j > lo && is_digit_or_comma(s[j - 1]) {
        run_start(s, lo, j - 1)
    } else {
        j
    }
}

/// What one entry gives: its record, or why it has none.
pub open spec fn entry_outcome(s: Seq<char>, year: Option<i32>, d: int, t: int, e: int) -> Result<
    Record,
    StatementError,
> {
    match date_outcome(year, token_month(s, d), token_day(s, d)) {
        Err(x) => Err(x),
        Ok(date) => match amount_outcome(s.subrange(t, e)) {
            Err(x) => Err(x),
            Ok(amount) => Ok(Record { date, amount }),
        },
    }
}

/// The entries of category `c` in `s` from `pos` on, left to right.
pub open spec fn scan(c: Category, s: Seq<char>, year: Option<i32>, pos: int) -> Seq<
    Result<Record, StatementError>,
>
    decreases s.len() - pos,
{
    let a = next_phrase(s, c.anchor(), pos);
    if pos < 0 || a < pos || a >= s.len() {
        Seq::empty()
    } else {
        let b = next_phrase(s, c.anchor(), a + 1);
        let d = entry_date(c, s, pos, a);
        let e = match amount_search_start(c, s, a, b) {
            None => None,
            Some(from) => first_amount_end(s, from, from + 4, b),
        };
        if d is Some && e is Some && a < e->0 <= s.len() {
            let from = amount_search_start(c, s, a, b)->0;
            let t = run_start(s, from, e->0 - 4);
            seq![entry_outcome(s, year, d->0, t, e->0)] + scan(c, s, year, e->0)
        } else {
            scan(c, s, year, a + 1)
        }
    }
}

/// The records among some entry outcomes, in order.
pub open spec fn records_of(outs: Seq<Result<Record, StatementError>>) -> Seq<Record>
    decreases outs.len(),
{
    if outs.len() == 0 {
        Seq::empty()
    } else {
        match outs.last() {
            Ok(r) => records_of(outs.drop_last()).push(r),
            Err(_) => records_of(outs.drop_last()),
        }
    }
}

pub open spec fn all_non_negative(rs: Seq<Record>) -> bool {
    forall|i: int| 0 <= i < rs.len() ==> (#[trigger] rs[i]).amount.units >= 0
}

/// Every record that a scan gives has a non-negative amount.
pub proof fn lemma_scan_non_negative(c: Category, s: Seq<char>, year: Option<i32>, pos: int)
    ensures
        forall|i: int|
            0 <= i < scan(c, s, year, pos).len() && (#[trigger] scan(c, s, year, pos)[i]) is Ok
                ==> scan(c, s, year, pos)[i]->Ok_0.amount.units >= 0,
    decreases s.len() - pos,
{
    let a = next_phrase(s, c.anchor(), pos);
    if pos < 0 || a < pos || a >= s.len() {
    } else {
        let b = next_phrase(s, c.anchor(), a + 1);
        let d = entry_date(c, s, pos, a);
        let e = match amount_search_start(c, s, a, b) {
            None => None,
            Some(from) => first_amount_end(s, from, from + 4, b),
        };
        if d is Some && e is Some && a < e->0 <= s.len() {
            let from = amount_search_start(c, s, a, b)->0;
            let t = run_start(s, from, e->0 - 4);
            lemma_scan_non_negative(c, s, year, e->0);
            lemma_amount_non_negative(s.subrange(t, e->0));
            let rest = scan(c, s, year, e->0);
            let first = entry_outcome(s, year, d->0, t, e->0);
            assert(scan(c, s, year, pos) == seq![first] + rest);
            assert forall|i: int|
                0 <= i < scan(c, s, year, pos).len() && (#[trigger] scan(c, s, year, pos)[i]) is Ok
                    implies scan(c, s, year, pos)[i]->Ok_0.amount.units >= 0 by {
                if i > 0 {
                    assert(scan(c, s, year, pos)[i] == rest[i - 1]);
                }
            }
        } else {
            lemma_scan_non_negative(c, s, year, a + 1);
        }
    }
}

/// The records among outcomes whose records are all non-negative are so too.
pub proof fn lemma_records_non_negative(outs: Seq<Result<Record, StatementError>>)
    requires
        forall|i: int|
            0 <= i < outs.len() && (#[trigger] outs[i]) is Ok ==> outs[i]->Ok_0.amount.units >= 0,
    ensures
        all_non_negative(records_of(outs)),
    decreases outs.len(),
{
    if outs.len() > 0 {
        let prev = outs.drop_last();
        assert forall|i: int| 0 <= i < prev.len() && (#[trigger] prev[i]) is Ok implies prev[i]->Ok_0.amount.units >= 0 by {
            assert(prev[i] == outs[i]);
        }
        lemma_records_non_negative(prev);
    }
}

/// The records of a page all carry non-negative amounts.
pub proof fn lemma_page_non_negative(c: Category, s: Seq<char>, year: Option<i32>)
    ensures
        all_non_negative(records_of(scan(c, s, year, 0))),
{
    lemma_scan_non_negative(c, s, year, 0);
    lemma_records_non_negative(scan(c, s, year, 0));
}

proof fn lemma_no_phrase_from(s: Seq<char>, p: Seq<char>, from: int)
    requires
        0 <= from,
        forall|i: int| 0 <= i < s.len() ==> !phrase_at(s, i, p),
    ensures
        next_phrase(s, p, from) >= s.len(),
    decreases s.len() - from,
{
    if from < s.len() {
        lemma_no_phrase_from(s, p, from + 1);
    }
}

/// Text in which the anchor phrase of a category never stands holds no
/// entry of that category: the patterns do not reach into one another.
pub proof fn lemma_no_anchor_no_entries(c: Category, s: Seq<char>, year: Option<i32>)
    requires
        forall|i: int| 0 <= i < s.len() ==> !phrase_at(s, i, c.anchor()),
    ensures
        scan(c, s, year, 0).len() == 0,
{
    lemma_no_phrase_from(s, c.anchor(), 0);
}

} // verus!
