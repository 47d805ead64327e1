use ledger_core::date::{add_months, date_le_exec, Date};
use ledger_core::domain::{account_type_from_str, AccountType};

fn date(year: u32, month: u32, day: u32) -> Date {
    Date { year, month, day }
}

#[test]
fn add_months_stays_within_the_year() {
    assert_eq!(add_months(&date(2024, 1, 15), 1), date(2024, 2, 15));
    assert_eq!(add_months(&date(2024, 5, 31), 0), date(2024, 5, 31));
}

#[test]
fn add_months_rolls_over_year_ends() {
    assert_eq!(add_months(&date(2024, 11, 1), 3), date(2025, 2, 1));
    assert_eq!(add_months(&date(2024, 12, 31), 1), date(2025, 1, 31));
    assert_eq!(add_months(&date(2024, 1, 1), 24), date(2026, 1, 1));
}

#[test]
fn date_order_is_by_year_month_day() {
    assert!(date_le_exec(&date(2024, 3, 10), &date(2024, 3, 10)));
    assert!(date_le_exec(&date(2024, 3, 10), &date(2024, 3, 11)));
    assert!(date_le_exec(&date(2024, 3, 31), &date(2024, 4, 1)));
    assert!(date_le_exec(&date(2024, 12, 31), &date(2025, 1, 1)));
    assert!(!date_le_exec(&date(2025, 1, 1), &date(2024, 12, 31)));
    assert!(!date_le_exec(&date(2024, 4, 1), &date(2024, 3, 31)));
}

#[test]
fn account_type_round_trips_through_column_text() {
    assert_eq!(AccountType::Checking.as_str(), "checking");
    assert_eq!(AccountType::Savings.as_str(), "savings");
    assert_eq!(account_type_from_str("checking"), Some(AccountType::Checking));
    assert_eq!(account_type_from_str("savings"), Some(AccountType::Savings));
    assert_eq!(account_type_from_str("money-market"), None);
    assert_eq!(account_type_from_str(""), None);
}
