//! Statement totals, and the cross-check of the transactions against the
//! balances.
use vstd::prelude::*;
use crate::decimal::{fits_i128, Decimal};
use crate::error::StatementError;
use crate::pattern::{all_non_negative, Record};
use crate::statement::Statement;
use crate::transaction::{records, Transaction};

verus! {

/// The exact sum of the amounts of some records, in ten-thousandths.
pub open spec fn sum_units(rs: Seq<Record>) -> int
    decreases rs.len(),
{
    if rs.len() == 0 {
        0
    } else {
        sum_units(rs.drop_last()) + rs.last().amount.units
    }
}

/// Statement-level totals. A negative `profit_or_loss` is a loss.
#[derive(Clone, Copy, Debug, PartialEq, Eq, Structural)]
pub struct Totals {
    pub revenue: Decimal,
    pub card_purchases_total: Decimal,
    pub online_payments_total: Decimal,
    pub expenses_total: Decimal,
    pub profit_or_loss: Decimal,
    pub transfers_out_total: Decimal,
}

/// The outcome of the cross-check. `mismatch` is present exactly when the
/// two net changes differ, and is their signed difference.
#[derive(Clone, Copy, Debug, PartialEq, Eq, Structural)]
pub struct Reconciliation {
    pub net_from_balances: Decimal,
    pub net_from_transactions: Decimal,
    pub mismatch: Option<Decimal>,
}

impl Totals {
    /// The category totals are sums of non-negative amounts.
    pub open spec fn wf(&self) -> bool {
        &&& self.revenue.units >= 0
        &&& self.card_purchases_total.units >= 0
        &&& self.online_payments_total.units >= 0
        &&& self.transfers_out_total.units >= 0
    }
}

proof fn lemma_sum_prefix_monotone(rs: Seq<Record>, i: int, j: int)
    requires
        all_non_negative(rs),
        0 <= i <= j <= rs.len(),
    ensures
        0 <= sum_units(rs.take(i)) <= sum_units(rs.take(j)),
    decreases j - i + j,
{
    if j > 0 {
        assert(rs.take(j).drop_last() =~= rs.take(j - 1));
        if i < j {
            lemma_sum_prefix_monotone(rs, i, j - 1);
        } else {
            lemma_sum_prefix_monotone(rs, j - 1, j - 1);
        }
    } else {
        assert(rs.take(0) =~= Seq::<Record>::empty());
    }
}

/// The exact total of the amounts of some transactions, or `None` where it
/// does not fit. No transactions total exactly zero.
pub fn total<T: Transaction>(items: &Vec<T>) -> (r: Option<Decimal>)
    requires
        all_non_negative(records(items@)),
    ensures
        items@.len() == 0 ==> r == Some(Decimal { units: 0 }),
        sum_units(records(items@)) <= i128::MAX ==> r == Some(
            Decimal { units: sum_units(records(items@)) as i128 },
        ),
        sum_units(records(items@)) > i128::MAX ==> r is None,
        sum_units(records(items@)) >= 0,
{
    let ghost rs = records(items@);
    let mut acc: i128 = 0;
    let mut i: usize = 0;
    proof {
        lemma_sum_prefix_monotone(rs, 0, rs.len() as int);
        assert(rs.take(0) =~= Seq::<Record>::empty());
        assert(rs.take(rs.len() as int) =~= rs);
    }
    while i < items.len()
        invariant
            i <= items.len(),
            rs == records(items@),
            rs.len() == items@.len(),
            all_non_negative(rs),
            acc as int == sum_units(rs.take(i as int)),
            rs.take(rs.len() as int) == rs,
        decreases items.len() - i,
    {
        let rec = items[i].to_record();
        proof {
            assert(rs.take(i + 1).drop_last() =~= rs.take(i as int));
            assert(rs[i as int] == rec);
        }
        match acc.checked_add(rec.amount.units) {
            Some(v) => {
                acc = v;
            },
            None => {
                proof {
                    lemma_sum_prefix_monotone(rs, i + 1, rs.len() as int);
                }
                return None;
            },
        }
        i = i + 1;
    }
    Some(Decimal { units: acc })
}

/// What the statement's totals are, where they all fit.
pub open spec fn totals_outcome(st: Statement) -> Result<Totals, StatementError> {
    let rev = sum_units(records(st.deposits@));
    let card = sum_units(records(st.card_purchases@));
    let online = sum_units(records(st.online_payments@));
    let transfers = sum_units(records(st.transfers_out@));
    if rev <= i128::MAX && card <= i128::MAX && online <= i128::MAX && transfers <= i128::MAX
        && card + online <= i128::MAX {
        Ok(
            Totals {
                revenue: Decimal { units: rev as i128 },
                card_purchases_total: Decimal { units: card as i128 },
                online_payments_total: Decimal { units: online as i128 },
                expenses_total: Decimal { units: (card + online) as i128 },
                profit_or_loss: Decimal { units: (rev - (card + online)) as i128 },
                transfers_out_total: Decimal { units: transfers as i128 },
            },
        )
    } else {
        Err(StatementError::AmountOutOfRange)
    }
}

/// Sums each category: revenue is the deposits, expenses the card purchases
/// and online payments, and profit (or, negative, loss) their difference.
pub fn aggregate(st: &Statement) -> (r: Result<Totals, StatementError>)
    requires
        st.amounts_non_negative(),
    ensures
        r == totals_outcome(*st),
        r is Ok ==> r->Ok_0.wf(),
{
    let revenue = total(&st.deposits);
    let card = total(&st.card_purchases);
    let online = total(&st.online_payments);
    let transfers = total(&st.transfers_out);
    match (revenue, card, online, transfers) {
        (Some(rev), Some(c), Some(o), Some(t)) => match c.checked_add(o) {
            Some(expenses) => {
                let profit = Decimal { units: rev.units - expenses.units };
                Ok(
                    Totals {
                        revenue: rev,
                        card_purchases_total: c,
                        online_payments_total: o,
                        expenses_total: expenses,
                        profit_or_loss: profit,
                        transfers_out_total: t,
                    },
                )
            },
            None => Err(StatementError::AmountOutOfRange),
        },
        _ => Err(StatementError::AmountOutOfRange),
    }
}

/// What the cross-check of balances `begin`, `end` against `t` gives.
pub open spec fn reconciliation_outcome(
    begin: Option<Decimal>,
    end: Option<Decimal>,
    t: Totals,
) -> Result<Reconciliation, StatementError> {
    if begin is None || end is None {
        Err(StatementError::MissingBalance)
    } else {
        let nb = end->0.units - begin->0.units;
        let nt = t.revenue.units - t.card_purchases_total.units - t.online_payments_total.units
            - t.transfers_out_total.units;
        if fits_i128(nb) && fits_i128(nt) && fits_i128(nb - nt) {
            Ok(
                Reconciliation {
                    net_from_balances: Decimal { units: nb as i128 },
                    net_from_transactions: Decimal { units: nt as i128 },
                    mismatch: if nb == nt {
                        None
                    } else {
                        Some(Decimal { units: (nb - nt) as i128 })
                    },
                },
            )
        } else {
            Err(StatementError::AmountOutOfRange)
        }
    }
}

/// Compares the change between the balances with the change the
/// transactions account for: revenue less card purchases, online payments
/// and transfers out. A difference is reported, never an error.
pub fn check(st: &Statement, totals: &Totals) -> (r: Result<Reconciliation, StatementError>)
    requires
        totals.wf(),
    ensures
        r == reconciliation_outcome(st.beginning_balance, st.ending_balance, *totals),
        r is Ok ==> (r->Ok_0.mismatch is None <==> r->Ok_0.net_from_balances
            == r->Ok_0.net_from_transactions),
{
    let (begin, end) = match (st.beginning_balance, st.ending_balance) {
        (Some(b), Some(e)) => (b, e),
        _ => {
            return Err(StatementError::MissingBalance);
        },
    };
    let nb = match end.checked_sub(begin) {
        Some(v) => v,
        None => {
            return Err(StatementError::AmountOutOfRange);
        },
    };
    // Each step only lowers the running value from the non-negative revenue,
    // so the result fits exactly when every step does.
    let a = totals.revenue.units - totals.card_purchases_total.units;
    let nt = match (Decimal { units: a }).checked_sub(totals.online_payments_total) {
        Some(b) => match b.checked_sub(totals.transfers_out_total) {
            Some(c) => c,
            None => {
                return Err(StatementError::AmountOutOfRange);
            },
        },
        None => {
            return Err(StatementError::AmountOutOfRange);
        },
    };
    let mismatch = if nb.units == nt.units {
        None
    } else {
        match nb.checked_sub(nt) {
            Some(m) => Some(m),
            None => {
                return Err(StatementError::AmountOutOfRange);
            },
        }
    };
    Ok(Reconciliation { net_from_balances: nb, net_from_transactions: nt, mismatch })
}

} // verus!
