//! The per-document accumulator: pages are scanned in order, the year and
//! balances are fixed by the first page that gives them, and transactions
//! are appended page after page.
use vstd::prelude::*;
use crate::decimal::Decimal;
use crate::error::StatementError;
use crate::extract::extract_entries;
use crate::pattern::{
    all_non_negative, lemma_page_non_negative, records_of, scan, Category, Record,
};
use crate::resolve::{
    beginning_label, ending_label, find_balance, page_balance, page_year, statement_year,
};
use crate::text::chars_of;
use crate::transaction::{
    records, DebitCardPurchase, Deposit, OnlinePayment, Transaction, TransferOut,
};

verus! {

/// An entry that was found but gave no record, and why.
#[derive(Clone, Copy, Debug, PartialEq, Eq, Structural)]
pub struct Rejection {
    pub category: Category,
    pub error: StatementError,
}

/// What has been read of one statement so far.
pub struct Statement {
    pub year: Option<i32>,
    pub beginning_balance: Option<Decimal>,
    pub ending_balance: Option<Decimal>,
    pub deposits: Vec<Deposit>,
    pub card_purchases: Vec<DebitCardPurchase>,
    pub online_payments: Vec<OnlinePayment>,
    pub transfers_out: Vec<TransferOut>,
}

/// A write-once field: the value already held, else what was found.
pub open spec fn resolve_if_absent<T>(cur: Option<T>, found: Option<T>) -> Option<T> {
    if cur is Some {
        cur
    } else {
        found
    }
}

pub open spec fn year_of_page(p: Seq<char>) -> Option<i32> {
    match page_year(p) {
        Some(y) => Some(y as i32),
        None => None,
    }
}

pub open spec fn balance_of_page(p: Seq<char>, label: Seq<char>) -> Option<Decimal> {
    match page_balance(p, label) {
        Some(Ok(v)) => Some(v),
        _ => None,
    }
}

/// The statement year once `pages` have been read.
pub open spec fn year_after(pages: Seq<Seq<char>>) -> Option<i32>
    decreases pages.len(),
{
    if pages.len() == 0 {
        None
    } else {
        resolve_if_absent(year_after(pages.drop_last()), year_of_page(pages.last()))
    }
}

/// The balance under `label` once `pages` have been read.
pub open spec fn balance_after(pages: Seq<Seq<char>>, label: Seq<char>) -> Option<Decimal>
    decreases pages.len(),
{
    if pages.len() == 0 {
        None
    } else {
        resolve_if_absent(balance_after(pages.drop_last(), label), balance_of_page(pages.last(), label))
    }
}

/// The records of category `c` on one page, dated in `year`.
pub open spec fn page_records(c: Category, p: Seq<char>, year: Option<i32>) -> Seq<Record> {
    records_of(scan(c, p, year, 0))
}

/// The records of category `c` collected from `pages`, page after page.
pub open spec fn collected(c: Category, pages: Seq<Seq<char>>) -> Seq<Record>
    decreases pages.len(),
{
    if pages.len() == 0 {
        Seq::empty()
    } else {
        collected(c, pages.drop_last()) + page_records(c, pages.last(), year_after(pages))
    }
}

pub open spec fn page_has_entries(p: Seq<char>, year: Option<i32>) -> bool {
    scan(Category::Deposit, p, year, 0).len() > 0 || scan(Category::DebitCardPurchase, p, year, 0).len()
        > 0 || scan(Category::OnlinePayment, p, year, 0).len() > 0 || scan(
        Category::TransferOut,
        p,
        year,
        0,
    ).len() > 0
}

/// Some page of `pages` holds an entry before any page named the year.
pub open spec fn lacks_year(pages: Seq<Seq<char>>) -> bool
    decreases pages.len(),
{
    if pages.len() == 0 {
        false
    } else {
        lacks_year(pages.drop_last()) || (year_after(pages) is None && page_has_entries(
            pages.last(),
            None,
        ))
    }
}

/// The rejected entries of category `c` among some outcomes, in order.
pub open spec fn rejections(c: Category, outs: Seq<Result<Record, StatementError>>) -> Seq<
    Rejection,
>
    decreases outs.len(),
{
    if outs.len() == 0 {
        Seq::empty()
    } else {
        match outs.last() {
            Ok(_) => rejections(c, outs.drop_last()),
            Err(x) => rejections(c, outs.drop_last()).push(Rejection { category: c, error: x }),
        }
    }
}

pub open spec fn page_rejections(p: Seq<char>, year: Option<i32>) -> Seq<Rejection> {
    rejections(Category::Deposit, scan(Category::Deposit, p, year, 0)) + rejections(
        Category::DebitCardPurchase,
        scan(Category::DebitCardPurchase, p, year, 0),
    ) + rejections(Category::OnlinePayment, scan(Category::OnlinePayment, p, year, 0))
        + rejections(Category::TransferOut, scan(Category::TransferOut, p, year, 0))
}

pub open spec fn page_views(pages: Seq<String>) -> Seq<Seq<char>> {
    pages.map_values(|p: String| p@)
}

/// Appends the records among `outs` to `v` and the rejections to `rejected`.
fn append_outcomes<T: Transaction>(
    c: Category,
    v: &mut Vec<T>,
    outs: &Vec<Result<Record, StatementError>>,
    rejected: &mut Vec<Rejection>,
)
    ensures
        records(final(v)@) == records(old(v)@) + records_of(outs@),
        final(rejected)@ == old(rejected)@ + rejections(c, outs@),
{
    let ghost v0 = records(v@);
    let ghost r0 = rejected@;
    let mut i: usize = 0;
    while i < outs.len()
        invariant
            i <= outs.len(),
            records(v@) == v0 + records_of(outs@.take(i as int)),
            rejected@ == r0 + rejections(c, outs@.take(i as int)),
        decreases outs.len() - i,
    {
        let o = outs[i];
        proof {
            assert(outs@.take(i + 1).drop_last() =~= outs@.take(i as int));
        }
        match o {
            Ok(r) => {
                let t = T::from_record(r);
                let ghost before = v@;
                v.push(t);
                proof {
                    assert(records(v@) =~= records(before).push(r));
                    assert(v0 + records_of(outs@.take(i as int)).push(r) =~= v0 + records_of(
                        outs@.take(i + 1),
                    ));
                }
            },
            Err(x) => {
                rejected.push(Rejection { category: c, error: x });
                proof {
                    assert(r0 + rejections(c, outs@.take(i as int)).push(
                        Rejection { category: c, error: x },
                    ) =~= r0 + rejections(c, outs@.take(i + 1)));
                }
            },
        }
        i = i + 1;
    }
    proof {
        assert(outs@.take(outs@.len() as int) =~= outs@);
    }
}

proof fn lemma_concat_non_negative(a: Seq<Record>, b: Seq<Record>)
    requires
        all_non_negative(a),
        all_non_negative(b),
    ensures
        all_non_negative(a + b),
{
    assert forall|i: int| 0 <= i < (a + b).len() implies (#[trigger] (a + b)[i]).amount.units >= 0 by {
        if i >= a.len() {
            assert((a + b)[i] == b[i - a.len()]);
        }
    }
}

impl Statement {
    /// Every transaction amount held is non-negative, as reading text
    /// guarantees.
    pub open spec fn amounts_non_negative(&self) -> bool {
        &&& all_non_negative(records(self.deposits@))
        &&& all_non_negative(records(self.card_purchases@))
        &&& all_non_negative(records(self.online_payments@))
        &&& all_non_negative(records(self.transfers_out@))
    }

    /// An empty statement, before any page is read.
    pub fn new() -> (r: Statement)
        ensures
            r.year is None,
            r.beginning_balance is None,
            r.ending_balance is None,
            r.deposits@.len() == 0,
            r.card_purchases@.len() == 0,
            r.online_payments@.len() == 0,
            r.transfers_out@.len() == 0,
            r.amounts_non_negative(),
    {
        let r = Statement {
            year: None,
            beginning_balance: None,
            ending_balance: None,
            deposits: Vec::new(),
            card_purchases: Vec::new(),
            online_payments: Vec::new(),
            transfers_out: Vec::new(),
        };
        proof {
            assert(records(r.deposits@) =~= Seq::<Record>::empty());
            assert(records(r.card_purchases@) =~= Seq::<Record>::empty());
            assert(records(r.online_payments@) =~= Seq::<Record>::empty());
            assert(records(r.transfers_out@) =~= Seq::<Record>::empty());
        }
        r
    }

    /// Reads one more page: the year and the balances that are still
    /// missing are taken from it, then its entries of every category are
    /// appended. Entries that give no record are returned. A page with
    /// entries while no page so far named the year fails with
    /// `UnresolvedYear`, and no entry of it is kept.
    pub fn scan_page(&mut self, page: &str) -> (r: Result<Vec<Rejection>, StatementError>)
        ensures
            old(self).amounts_non_negative() ==> final(self).amounts_non_negative(),
            final(self).year == resolve_if_absent(old(self).year, year_of_page(page@)),
            final(self).beginning_balance == resolve_if_absent(
                old(self).beginning_balance,
                balance_of_page(page@, beginning_label()),
            ),
            final(self).ending_balance == resolve_if_absent(
                old(self).ending_balance,
                balance_of_page(page@, ending_label()),
            ),
            ({
                let y = final(self).year;
                if y is None && page_has_entries(page@, y) {
                    &&& r == Err::<Vec<Rejection>, StatementError>(StatementError::UnresolvedYear)
                    &&& final(self).deposits@ == old(self).deposits@
                    &&& final(self).card_purchases@ == old(self).card_purchases@
                    &&& final(self).online_payments@ == old(self).online_payments@
                    &&& final(self).transfers_out@ == old(self).transfers_out@
                } else {
                    &&& r is Ok
                    &&& r->Ok_0@ == page_rejections(page@, y)
                    &&& records(final(self).deposits@) == records(old(self).deposits@)
                        + page_records(Category::Deposit, page@, y)
                    &&& records(final(self).card_purchases@) == records(
                        old(self).card_purchases@,
                    ) + page_records(Category::DebitCardPurchase, page@, y)
                    &&& records(final(self).online_payments@) == records(
                        old(self).online_payments@,
                    ) + page_records(Category::OnlinePayment, page@, y)
                    &&& records(final(self).transfers_out@) == records(old(self).transfers_out@)
                        + page_records(Category::TransferOut, page@, y)
                }
            }),
    {
        if self.year.is_none() {
            self.year = statement_year(page);
        }
        let s = chars_of(page);
        if self.beginning_balance.is_none() {
            let label = chars_of("Beginning Balance");
            self.beginning_balance = match find_balance(&s, &label) {
                Some(Ok(v)) => Some(v),
                _ => None,
            };
        }
        if self.ending_balance.is_none() {
            let label = chars_of("Ending Balance");
            self.ending_balance = match find_balance(&s, &label) {
                Some(Ok(v)) => Some(v),
                _ => None,
            };
        }
        let year = self.year;
        let deposits = extract_entries(Category::Deposit, &s, year);
        let purchases = extract_entries(Category::DebitCardPurchase, &s, year);
        let payments = extract_entries(Category::OnlinePayment, &s, year);
        let transfers = extract_entries(Category::TransferOut, &s, year);
        if year.is_none() && (deposits.len() > 0 || purchases.len() > 0 || payments.len() > 0
            || transfers.len() > 0) {
            return Err(StatementError::UnresolvedYear);
        }
        let mut rejected: Vec<Rejection> = Vec::new();
        append_outcomes(Category::Deposit, &mut self.deposits, &deposits, &mut rejected);
        append_outcomes(Category::DebitCardPurchase, &mut self.card_purchases, &purchases, &mut rejected);
        append_outcomes(Category::OnlinePayment, &mut self.online_payments, &payments, &mut rejected);
        append_outcomes(Category::TransferOut, &mut self.transfers_out, &transfers, &mut rejected);
        proof {
            assert(rejected@ =~= page_rejections(page@, year));
            if old(self).amounts_non_negative() {
                lemma_page_non_negative(Category::Deposit, page@, year);
                lemma_page_non_negative(Category::DebitCardPurchase, page@, year);
                lemma_page_non_negative(Category::OnlinePayment, page@, year);
                lemma_page_non_negative(Category::TransferOut, page@, year);
                lemma_concat_non_negative(records(old(self).deposits@), page_records(Category::Deposit, page@, year));
                lemma_concat_non_negative(records(old(self).card_purchases@), page_records(Category::DebitCardPurchase, page@, year));
                lemma_concat_non_negative(records(old(self).online_payments@), page_records(Category::OnlinePayment, page@, year));
                lemma_concat_non_negative(records(old(self).transfers_out@), page_records(Category::TransferOut, page@, year));
            }
        }
        Ok(rejected)
    }

    /// Reads a whole document, page after page. It fails with
    /// `UnresolvedYear` where some page holds an entry before any page named
    /// the year; else each field is what the pages give in order.
    pub fn from_pages(pages: &Vec<String>) -> (r: Result<Statement, StatementError>)
        ensures
            lacks_year(page_views(pages@)) ==> r == Err::<Statement, StatementError>(
                StatementError::UnresolvedYear,
            ),
            !lacks_year(page_views(pages@)) ==> r is Ok && ({
                let st = r->Ok_0;
                let pv = page_views(pages@);
                &&& st.amounts_non_negative()
                &&& st.year == year_after(pv)
                &&& st.beginning_balance == balance_after(pv, beginning_label())
                &&& st.ending_balance == balance_after(pv, ending_label())
                &&& records(st.deposits@) == collected(Category::Deposit, pv)
                &&& records(st.card_purchases@) == collected(Category::DebitCardPurchase, pv)
                &&& records(st.online_payments@) == collected(Category::OnlinePayment, pv)
                &&& records(st.transfers_out@) == collected(Category::TransferOut, pv)
            }),
    {
        let ghost pv = page_views(pages@);
        let mut st = Statement::new();
        proof {
            assert(pv.len() == pages@.len());
            assert(pv.take(0) =~= Seq::<Seq<char>>::empty());
            assert(records(st.deposits@) =~= Seq::<Record>::empty());
            assert(records(st.card_purchases@) =~= Seq::<Record>::empty());
            assert(records(st.online_payments@) =~= Seq::<Record>::empty());
            assert(records(st.transfers_out@) =~= Seq::<Record>::empty());
        }
        let mut i: usize = 0;
        while i < pages.len()
            invariant
                i <= pages.len(),
                pv == page_views(pages@),
                pv.len() == pages@.len(),
                st.amounts_non_negative(),
                !lacks_year(pv.take(i as int)),
                st.year == year_after(pv.take(i as int)),
                st.beginning_balance == balance_after(pv.take(i as int), beginning_label()),
                st.ending_balance == balance_after(pv.take(i as int), ending_label()),
                records(st.deposits@) == collected(Category::Deposit, pv.take(i as int)),
                records(st.card_purchases@) == collected(
                    Category::DebitCardPurchase,
                    pv.take(i as int),
                ),
                records(st.online_payments@) == collected(
                    Category::OnlinePayment,
                    pv.take(i as int),
                ),
                records(st.transfers_out@) == collected(Category::TransferOut, pv.take(i as int)),
            decreases pages.len() - i,
        {
            let page: &str = pages[i].as_str();
            proof {
                assert(pv.take(i + 1).drop_last() =~= pv.take(i as int));
                assert(pv.take(i + 1).last() == page@);
            }
            match st.scan_page(page) {
                Err(x) => {
                    proof {
                        lemma_lacks_year_prefix(pv, i + 1);
                    }
                    return Err(x);
                },
                Ok(_) => {},
            }
            i = i + 1;
        }
        proof {
            assert(pv.take(pages.len() as int) =~= pv);
        }
        Ok(st)
    }
}

/// Once some prefix of the pages lacks the year, the whole document does.
proof fn lemma_lacks_year_prefix(pages: Seq<Seq<char>>, k: int)
    requires
        0 <= k <= pages.len(),
        lacks_year(pages.take(k)),
    ensures
        lacks_year(pages),
    decreases pages.len(),
{
    if k == pages.len() {
        assert(pages.take(k) =~= pages);
    } else {
        assert(pages.drop_last().take(k) =~= pages.take(k));
        lemma_lacks_year_prefix(pages.drop_last(), k);
    }
}

proof fn lemma_no_year_yet(pages: Seq<Seq<char>>)
    requires
        forall|j: int| 0 <= j < pages.len() ==> year_of_page(#[trigger] pages[j]) is None,
    ensures
        year_after(pages) is None,
    decreases pages.len(),
{
    if pages.len() > 0 {
        lemma_no_year_yet(pages.drop_last());
    }
}

/// The statement year is the one named by the first page that names one:
/// later pages never change it.
pub proof fn lemma_first_year_wins(pages: Seq<Seq<char>>, i: int)
    requires
        0 <= i < pages.len(),
        year_of_page(pages[i]) is Some,
        forall|j: int| 0 <= j < i ==> year_of_page(#[trigger] pages[j]) is None,
    ensures
        year_after(pages) == year_of_page(pages[i]),
    decreases pages.len(),
{
    let prev = pages.drop_last();
    if i == pages.len() - 1 {
        assert forall|j: int| 0 <= j < prev.len() implies year_of_page(#[trigger] prev[j]) is None by {
            assert(prev[j] == pages[j]);
        }
        lemma_no_year_yet(prev);
    } else {
        assert forall|j: int| 0 <= j < i implies year_of_page(#[trigger] prev[j]) is None by {
            assert(prev[j] == pages[j]);
        }
        lemma_first_year_wins(prev, i);
    }
}

proof fn lemma_no_balance_yet(pages: Seq<Seq<char>>, label: Seq<char>)
    requires
        forall|j: int| 0 <= j < pages.len() ==> balance_of_page(#[trigger] pages[j], label) is None,
    ensures
        balance_after(pages, label) is None,
    decreases pages.len(),
{
    if pages.len() > 0 {
        lemma_no_balance_yet(pages.drop_last(), label);
    }
}

/// A balance is the one read from the first page that gives it: later pages
/// never change it.
pub proof fn lemma_first_balance_wins(pages: Seq<Seq<char>>, label: Seq<char>, i: int)
    requires
        0 <= i < pages.len(),
        balance_of_page(pages[i], label) is Some,
        forall|j: int| 0 <= j < i ==> balance_of_page(#[trigger] pages[j], label) is None,
    ensures
        balance_after(pages, label) == balance_of_page(pages[i], label),
    decreases pages.len(),
{
    let prev = pages.drop_last();
    if i == pages.len() - 1 {
        assert forall|j: int| 0 <= j < prev.len() implies balance_of_page(#[trigger] prev[j], label)
            is None by {
            assert(prev[j] == pages[j]);
        }
        lemma_no_balance_yet(prev, label);
    } else {
        assert forall|j: int| 0 <= j < i implies balance_of_page(#[trigger] prev[j], label)
            is None by {
            assert(prev[j] == pages[j]);
        }
        lemma_first_balance_wins(prev, label, i);
    }
}

/// Every page contributes its records: those of page `k`, dated in the year
/// known once that page is read, stand in the collected records right after
/// those of the pages before it, wherever the balances were found.
pub proof fn lemma_every_page_collected(c: Category, pages: Seq<Seq<char>>, k: int)
    requires
        0 <= k < pages.len(),
    ensures
        ({
            let off = collected(c, pages.take(k)).len();
            let own = page_records(c, pages[k], year_after(pages.take(k + 1)));
            &&& off + own.len() <= collected(c, pages).len()
            &&& collected(c, pages).subrange(off as int, (off + own.len()) as int) == own
        }),
    decreases pages.len(),
{
    let prev = pages.drop_last();
    let off = collected(c, pages.take(k)).len();
    let own = page_records(c, pages[k], year_after(pages.take(k + 1)));
    if k == pages.len() - 1 {
        assert(prev =~= pages.take(k));
        assert(pages.take(k + 1) =~= pages);
        assert(collected(c, pages).subrange(off as int, (off + own.len()) as int) =~= own);
    } else {
        lemma_every_page_collected(c, prev, k);
        assert(prev.take(k) =~= pages.take(k));
        assert(prev.take(k + 1) =~= pages.take(k + 1));
        assert(prev[k] == pages[k]);
        let a = collected(c, prev);
        let whole = collected(c, pages);
        assert(whole.subrange(off as int, (off + own.len()) as int) =~= a.subrange(off as int, (off + own.len()) as int));
    }
}

} // verus!
