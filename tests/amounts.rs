use statements_to_books::date::Date;
use statements_to_books::decimal::{parse_amount, Decimal};
use statements_to_books::error::StatementError;
use statements_to_books::transaction::{DebitCardPurchase, Deposit, OnlinePayment, TransferOut};

#[test]
fn amount_with_sign_and_separator_is_exact() {
    assert_eq!(parse_amount("$12,345.67"), Ok(Decimal { units: 123456700 }));
}

#[test]
fn amount_with_thousands_separator_is_exact() {
    assert_eq!(parse_amount("1,000.00"), Ok(Decimal { units: 10000000 }));
}

#[test]
fn amount_below_one_is_exact() {
    assert_eq!(parse_amount("0.50"), Ok(Decimal { units: 5000 }));
}

#[test]
fn amount_with_surrounding_whitespace_and_four_places() {
    assert_eq!(parse_amount("  $7.1234 \r"), Ok(Decimal { units: 71234 }));
    assert_eq!(parse_amount("42"), Ok(Decimal { units: 420000 }));
}

#[test]
fn malformed_amounts_are_rejected() {
    assert_eq!(parse_amount(""), Err(StatementError::MalformedAmount));
    assert_eq!(parse_amount("$"), Err(StatementError::MalformedAmount));
    assert_eq!(parse_amount("12.34.56"), Err(StatementError::MalformedAmount));
    assert_eq!(parse_amount("1.23456"), Err(StatementError::MalformedAmount));
    assert_eq!(parse_amount(".50"), Err(StatementError::MalformedAmount));
    assert_eq!(parse_amount("5."), Err(StatementError::MalformedAmount));
    assert_eq!(parse_amount("-5.00"), Err(StatementError::MalformedAmount));
    assert_eq!(parse_amount("12a.00"), Err(StatementError::MalformedAmount));
}

#[test]
fn amount_beyond_the_representable_range() {
    let big = "1".repeat(40);
    assert_eq!(parse_amount(&big), Err(StatementError::AmountOutOfRange));
    // The largest whole part that fits, with and without room for the fraction.
    assert_eq!(
        parse_amount("17014118346046923173168730371588410.5727"),
        Ok(Decimal { units: i128::MAX })
    );
    assert_eq!(
        parse_amount("17014118346046923173168730371588410.5728"),
        Err(StatementError::AmountOutOfRange)
    );
}

#[test]
fn constructors_clean_the_raw_amount_in_place() {
    let date = Date::new(2023, 5, 12).unwrap();
    let mut raw = String::from("$1,234.56");
    let d = Deposit::new(date, &mut raw).unwrap();
    assert_eq!(raw, "1234.56");
    assert_eq!(d.amount, Decimal { units: 12345600 });
    assert_eq!(d.date, date);

    let mut raw = String::from("15.49");
    let p = DebitCardPurchase::new(date, &mut raw).unwrap();
    assert_eq!(p.amount, Decimal { units: 154900 });

    let mut raw = String::from(" 2,000.00 ");
    let o = OnlinePayment::new(date, &mut raw).unwrap();
    assert_eq!(raw, "2000.00");
    assert_eq!(o.amount, Decimal { units: 20000000 });

    let mut raw = String::from("x1.00");
    assert_eq!(TransferOut::new(date, &mut raw), Err(StatementError::MalformedAmount));
    assert_eq!(raw, "x1.00");
}

#[test]
fn calendar_dates_follow_the_gregorian_rules() {
    assert_eq!(Date::new(2024, 2, 29), Some(Date { year: 2024, month: 2, day: 29 }));
    assert_eq!(Date::new(2023, 2, 29), None);
    assert_eq!(Date::new(1900, 2, 29), None);
    assert_eq!(Date::new(2000, 2, 29), Some(Date { year: 2000, month: 2, day: 29 }));
    assert_eq!(Date::new(2023, 4, 31), None);
    assert_eq!(Date::new(2023, 13, 1), None);
    assert_eq!(Date::new(2023, 0, 1), None);
    assert_eq!(Date::new(2023, 1, 0), None);
    assert_eq!(Date::new(262143, 1, 1), None);
    assert_eq!(Date::new(262142, 12, 31), Some(Date { year: 262142, month: 12, day: 31 }));
}

#[test]
fn dating_a_line_needs_the_statement_year() {
    assert_eq!(Date::in_statement_year(None, 5, 12), Err(StatementError::UnresolvedYear));
    assert_eq!(Date::in_statement_year(Some(2023), 2, 30), Err(StatementError::InvalidDateToken));
    assert_eq!(
        Date::in_statement_year(Some(2023), 5, 12),
        Ok(Date { year: 2023, month: 5, day: 12 })
    );
}
