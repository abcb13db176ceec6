use statements_to_books::date::Date;
use statements_to_books::decimal::Decimal;
use statements_to_books::error::StatementError;
use statements_to_books::extract::extract;
use statements_to_books::pattern::{Category, Record, TransactionKind};

fn rec(y: i32, m: u32, d: u32, units: i128) -> Record {
    Record { date: Date { year: y, month: m, day: d }, amount: Decimal { units } }
}

#[test]
fn deposit_line_yields_one_record() {
    let page = "05/12 Orig CO Name ACME Descr:Payments ... $1,234.56";
    let got = extract(Category::Deposit, page, Some(2023));
    assert_eq!(got, vec![Ok(rec(2023, 5, 12, 12345600))]);
}

#[test]
fn card_purchase_marker_matches_only_its_own_pattern() {
    let page = "05/11 Recurring Card Purchase 05/10 Netflix.Com Card 1234 $15.49";
    assert_eq!(extract(Category::Deposit, page, Some(2023)).len(), 0);
    assert_eq!(extract(Category::OnlinePayment, page, Some(2023)).len(), 0);
    assert_eq!(extract(Category::TransferOut, page, Some(2023)).len(), 0);
    assert_eq!(
        extract(Category::DebitCardPurchase, page, Some(2023)),
        vec![Ok(rec(2023, 5, 11, 154900))]
    );
}

#[test]
fn consecutive_entries_are_not_swallowed() {
    let page = "05/01 Recurring Card Purchase 04/30 Adobe Card 1234 52.99\n\
                05/03 Recurring Card Purchase 05/02 Github Card 1234 $4.00\n\
                Total card purchases 56.99\n";
    let got = extract(Category::DebitCardPurchase, page, Some(2024));
    assert_eq!(got, vec![Ok(rec(2024, 5, 1, 529900)), Ok(rec(2024, 5, 3, 40000))]);
}

#[test]
fn entry_may_wrap_onto_a_second_line() {
    let page = "06/02 Orig CO Name:Acme Corp Orig ID:99 Desc Date:060124\n\
                CO Entry Descr:Payments Sec:CCD Trace#:1 $10,000.00\n";
    let got = extract(Category::Deposit, page, Some(2024));
    assert_eq!(got, vec![Ok(rec(2024, 6, 2, 100000000))]);
}

#[test]
fn deposit_without_its_marker_is_not_an_entry() {
    let page = "06/02 Orig CO Name:Acme Corp Refund 10.00\n";
    assert_eq!(extract(Category::Deposit, page, Some(2024)).len(), 0);
}

#[test]
fn online_payment_and_transfer_out_lines() {
    let page = "05/14 Online Payment 123 Xfer To Vendor 250.00\n\
                05/20 Online Transfer To Sav ...1234 Transaction#: 555 1,000.00\n";
    assert_eq!(
        extract(Category::OnlinePayment, page, Some(2023)),
        vec![Ok(rec(2023, 5, 14, 2500000))]
    );
    assert_eq!(
        extract(Category::TransferOut, page, Some(2023)),
        vec![Ok(rec(2023, 5, 20, 10000000))]
    );
}

#[test]
fn amount_must_close_its_line() {
    let page = "05/11 Recurring Card Purchase Card 1234 15.49 USD\n";
    assert_eq!(extract(Category::DebitCardPurchase, page, Some(2023)).len(), 0);
}

#[test]
fn invalid_month_day_is_rejected_per_entry() {
    let page = "02/30 Recurring Card Purchase Shop 9.99\n\
                03/01 Recurring Card Purchase Shop 1.00\n";
    assert_eq!(
        extract(Category::DebitCardPurchase, page, Some(2023)),
        vec![Err(StatementError::InvalidDateToken), Ok(rec(2023, 3, 1, 10000))]
    );
}

#[test]
fn entries_without_a_year_are_unresolved() {
    let page = "03/01 Recurring Card Purchase Shop 1.00\n";
    assert_eq!(
        extract(Category::DebitCardPurchase, page, None),
        vec![Err(StatementError::UnresolvedYear)]
    );
}

#[test]
fn categories_know_their_direction() {
    assert_eq!(Category::Deposit.kind(), TransactionKind::Credit);
    assert_eq!(Category::DebitCardPurchase.kind(), TransactionKind::Debit);
    assert_eq!(Category::OnlinePayment.kind(), TransactionKind::Debit);
    assert_eq!(Category::TransferOut.kind(), TransactionKind::Debit);
}
