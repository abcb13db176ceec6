//! The four kinds of transaction a statement is read for.
use vstd::prelude::*;
use crate::date::Date;
use crate::decimal::{amount_outcome, clean_and_parse, clean_token, Decimal};
use crate::error::StatementError;
use crate::pattern::Record;

verus! {

/// A transaction of one category: a date and a non-negative amount, whose
/// direction the category gives.
pub trait Transaction: Sized {
    spec fn record(&self) -> Record;

    fn from_record(r: Record) -> (t: Self)
        ensures
            t.record() == r,
    ;

    fn to_record(&self) -> (r: Record)
        ensures
            r == self.record(),
    ;
}

/// The records of a sequence of transactions.
pub open spec fn records<T: Transaction>(v: Seq<T>) -> Seq<Record> {
    v.map_values(|t: T| t.record())
}

/// Money paid in by a company.
#[derive(Clone, Copy, Debug, PartialEq, Eq, Structural)]
pub struct Deposit {
    pub date: Date,
    pub amount: Decimal,
}

/// A recurring purchase with the account's debit card.
#[derive(Clone, Copy, Debug, PartialEq, Eq, Structural)]
pub struct DebitCardPurchase {
    pub date: Date,
    pub amount: Decimal,
}

/// A payment made online.
#[derive(Clone, Copy, Debug, PartialEq, Eq, Structural)]
pub struct OnlinePayment {
    pub date: Date,
    pub amount: Decimal,
}

/// Money moved to another account (an owner's draw).
#[derive(Clone, Copy, Debug, PartialEq, Eq, Structural)]
pub struct TransferOut {
    pub date: Date,
    pub amount: Decimal,
}

impl Deposit {
    /// A deposit of the amount written in `raw_amount`, which is left with
    /// its separators, currency sign and whitespace taken out.
    pub fn new(date: Date, raw_amount: &mut String) -> (r: Result<Deposit, StatementError>)
        ensures
            final(raw_amount)@ == clean_token(old(raw_amount)@),
            r == (match amount_outcome(old(raw_amount)@) {
                Ok(amount) => Ok(Deposit { date, amount }),
                Err(x) => Err(x),
            }),
    {
        match clean_and_parse(raw_amount) {
            Ok(amount) => Ok(Deposit { date, amount }),
            Err(x) => Err(x),
        }
    }
}

impl DebitCardPurchase {
    /// A card purchase of the amount written in `raw_amount`, which is left
    /// with its separators, currency sign and whitespace taken out.
    pub fn new(date: Date, raw_amount: &mut String) -> (r: Result<DebitCardPurchase, StatementError>)
        ensures
            final(raw_amount)@ == clean_token(old(raw_amount)@),
            r == (match amount_outcome(old(raw_amount)@) {
                Ok(amount) => Ok(DebitCardPurchase { date, amount }),
                Err(x) => Err(x),
            }),
    {
        match clean_and_parse(raw_amount) {
            Ok(amount) => Ok(DebitCardPurchase { date, amount }),
            Err(x) => Err(x),
        }
    }
}

impl OnlinePayment {
    /// An online payment of the amount written in `raw_amount`, which is
    /// left with its separators, currency sign and whitespace taken out.
    pub fn new(date: Date, raw_amount: &mut String) -> (r: Result<OnlinePayment, StatementError>)
        ensures
            final(raw_amount)@ == clean_token(old(raw_amount)@),
            r == (match amount_outcome(old(raw_amount)@) {
                Ok(amount) => Ok(OnlinePayment { date, amount }),
                Err(x) => Err(x),
            }),
    {
        match clean_and_parse(raw_amount) {
            Ok(amount) => Ok(OnlinePayment { date, amount }),
            Err(x) => Err(x),
        }
    }
}

impl TransferOut {
    /// A transfer out of the amount written in `raw_amount`, which is left
    /// with its separators, currency sign and whitespace taken out.
    pub fn new(date: Date, raw_amount: &mut String) -> (r: Result<TransferOut, StatementError>)
        ensures
            final(raw_amount)@ == clean_token(old(raw_amount)@),
            r == (match amount_outcome(old(raw_amount)@) {
                Ok(amount) => Ok(TransferOut { date, amount }),
                Err(x) => Err(x),
            }),
    {
        match clean_and_parse(raw_amount) {
            Ok(amount) => Ok(TransferOut { date, amount }),
            Err(x) => Err(x),
        }
    }
}

impl Transaction for Deposit {
    open spec fn record(&self) -> Record {
        Record { date: self.date, amount: self.amount }
    }

    fn from_record(r: Record) -> (t: Self) {
        Deposit { date: r.date, amount: r.amount }
    }

    fn to_record(&self) -> (r: Record) {
        Record { date: self.date, amount: self.amount }
    }
}

impl Transaction for DebitCardPurchase {
    open spec fn record(&self) -> Record {
        Record { date: self.date, amount: self.amount }
    }

    fn from_record(r: Record) -> (t: Self) {
        DebitCardPurchase { date: r.date, amount: r.amount }
    }

    fn to_record(&self) -> (r: Record) {
        Record { date: self.date, amount: self.amount }
    }
}

impl Transaction for OnlinePayment {
    open spec fn record(&self) -> Record {
        Record { date: self.date, amount: self.amount }
    }

    fn from_record(r: Record) -> (t: Self) {
        OnlinePayment { date: r.date, amount: r.amount }
    }

    fn to_record(&self) -> (r: Record) {
        Record { date: self.date, amount: self.amount }
    }
}

impl Transaction for TransferOut {
    open spec fn record(&self) -> Record {
        Record { date: self.date, amount: self.amount }
    }

    fn from_record(r: Record) -> (t: Self) {
        TransferOut { date: r.date, amount: r.amount }
    }

    fn to_record(&self) -> (r: Record) {
        Record { date: self.date, amount: self.amount }
    }
}

} // verus!
