use statements_to_books::date::Date;
use statements_to_books::decimal::Decimal;
use statements_to_books::error::StatementError;
use statements_to_books::pattern::Category;
use statements_to_books::reconcile::{aggregate, check, total, Reconciliation, Totals};
use statements_to_books::resolve::{beginning_balance, ending_balance, statement_year};
use statements_to_books::statement::{Rejection, Statement};
use statements_to_books::transaction::Deposit;

fn dec(units: i128) -> Decimal {
    Decimal { units }
}

#[test]
fn year_and_balances_are_read_from_a_page() {
    let page = "Chase Business\nMay 01, 2023 through May 31, 2023\n\
                Beginning Balance  $1,500.00\nEnding Balance 12 $2,000.25\r\n";
    assert_eq!(statement_year(page), Some(2023));
    assert_eq!(beginning_balance(page), Some(Ok(dec(15000000))));
    assert_eq!(ending_balance(page), Some(Ok(dec(20002500))));
    assert_eq!(statement_year("2023 thru"), None);
    assert_eq!(beginning_balance("Balance $1.00"), None);
    assert_eq!(beginning_balance("Beginning Balance $n/a"), Some(Err(StatementError::MalformedAmount)));
}

#[test]
fn first_page_naming_the_year_wins() {
    let pages = vec![
        String::from("Statement 2022 through 2022\n"),
        String::from("nothing here\n"),
        String::from("Statement 2023 through 2023\n"),
    ];
    let st = Statement::from_pages(&pages).unwrap();
    assert_eq!(st.year, Some(2022));
}

#[test]
fn every_page_contributes_its_transactions() {
    let pages = vec![
        String::from("January 1, 2023 through January 31, 2023\nBeginning Balance $100.00\nEnding Balance $50.00\n"),
        String::from("summary\n"),
        String::from("more summary\n"),
        String::from("01/15 Recurring Card Purchase 01/14 Shop Card 1 $50.00\n"),
    ];
    let st = Statement::from_pages(&pages).unwrap();
    assert_eq!(st.beginning_balance, Some(dec(1000000)));
    assert_eq!(st.ending_balance, Some(dec(500000)));
    assert_eq!(st.card_purchases.len(), 1);
    assert_eq!(st.card_purchases[0].date, Date { year: 2023, month: 1, day: 15 });
    assert_eq!(st.card_purchases[0].amount, dec(500000));
}

#[test]
fn entries_before_the_year_fail_the_document() {
    let pages = vec![
        String::from("01/15 Recurring Card Purchase Shop 5.00\n"),
        String::from("January 1, 2023 through January 31, 2023\n"),
    ];
    assert_eq!(Statement::from_pages(&pages).err(), Some(StatementError::UnresolvedYear));
}

#[test]
fn scanning_a_page_reports_rejected_entries() {
    let mut st = Statement::new();
    let page = "2023 through 2023\n02/30 Recurring Card Purchase Shop 9.99\n\
                03/01 Orig CO Name Acme Descr:Payments 100.00\n";
    let rejected = st.scan_page(page).unwrap();
    assert_eq!(
        rejected,
        vec![Rejection { category: Category::DebitCardPurchase, error: StatementError::InvalidDateToken }]
    );
    assert_eq!(st.deposits.len(), 1);
    assert_eq!(st.card_purchases.len(), 0);
    assert_eq!(st.year, Some(2023));
}

#[test]
fn empty_category_totals_zero() {
    let none: Vec<Deposit> = Vec::new();
    assert_eq!(total(&none), Some(dec(0)));
    let st = Statement::new();
    let t = aggregate(&st).unwrap();
    assert_eq!(t.revenue, dec(0));
    assert_eq!(t.card_purchases_total, dec(0));
    assert_eq!(t.online_payments_total, dec(0));
    assert_eq!(t.expenses_total, dec(0));
    assert_eq!(t.profit_or_loss, dec(0));
    assert_eq!(t.transfers_out_total, dec(0));
}

#[test]
fn aggregate_sums_each_category() {
    let pages = vec![String::from(
        "2023 through 2023\n\
         05/01 Orig CO Name A Descr:Payments 300.00\n\
         05/02 Orig CO Name B Descr:Payments 1,200.50\n\
         05/03 Recurring Card Purchase Shop 100.25\n\
         05/04 Web Xfer To Vendor 400.00\n\
         05/05 Online Transfer To Sav 1234 250.00\n",
    )];
    let st = Statement::from_pages(&pages).unwrap();
    let t = aggregate(&st).unwrap();
    assert_eq!(t.revenue, dec(15005000));
    assert_eq!(t.card_purchases_total, dec(1002500));
    assert_eq!(t.online_payments_total, dec(4000000));
    assert_eq!(t.expenses_total, dec(5002500));
    assert_eq!(t.profit_or_loss, dec(10002500));
    assert_eq!(t.transfers_out_total, dec(2500000));
}

#[test]
fn loss_is_negative() {
    let pages = vec![String::from(
        "2023 through 2023\n05/03 Recurring Card Purchase Shop 100.25\n",
    )];
    let st = Statement::from_pages(&pages).unwrap();
    let t = aggregate(&st).unwrap();
    assert_eq!(t.profit_or_loss, dec(-1002500));
}

fn totals(rev: i128, card: i128, online: i128, transfers: i128) -> Totals {
    Totals {
        revenue: dec(rev),
        card_purchases_total: dec(card),
        online_payments_total: dec(online),
        expenses_total: dec(card + online),
        profit_or_loss: dec(rev - card - online),
        transfers_out_total: dec(transfers),
    }
}

#[test]
fn reconciliation_match() {
    let mut st = Statement::new();
    st.beginning_balance = Some(dec(1000000));
    st.ending_balance = Some(dec(1500000));
    let r = check(&st, &totals(2000000, 1000000, 500000, 0)).unwrap();
    assert_eq!(
        r,
        Reconciliation { net_from_balances: dec(500000), net_from_transactions: dec(500000), mismatch: None }
    );
}

#[test]
fn reconciliation_mismatch() {
    let mut st = Statement::new();
    st.beginning_balance = Some(dec(1000000));
    st.ending_balance = Some(dec(2000000));
    let r = check(&st, &totals(500000, 100000, 0, 0)).unwrap();
    assert_eq!(
        r,
        Reconciliation {
            net_from_balances: dec(1000000),
            net_from_transactions: dec(400000),
            mismatch: Some(dec(600000)),
        }
    );
}

#[test]
fn reconciliation_needs_both_balances() {
    let mut st = Statement::new();
    st.beginning_balance = Some(dec(1000000));
    assert_eq!(check(&st, &totals(0, 0, 0, 0)), Err(StatementError::MissingBalance));
}

#[test]
fn reconciliation_out_of_range() {
    let mut st = Statement::new();
    st.beginning_balance = Some(dec(0));
    st.ending_balance = Some(dec(i128::MAX));
    let t = Totals {
        revenue: dec(0),
        card_purchases_total: dec(i128::MAX),
        online_payments_total: dec(1),
        expenses_total: dec(0),
        profit_or_loss: dec(0),
        transfers_out_total: dec(0),
    };
    // Both net changes fit, their difference does not.
    assert_eq!(check(&st, &t), Err(StatementError::AmountOutOfRange));
}
