use ledger_core::date::Date;
use ledger_core::domain::{Account, AccountType, Error, Loan, LoanState, Vault};
use ledger_core::service::{FixedCalendar, NewService, Service};

fn date(year: u32, month: u32, day: u32) -> Date {
    Date { year, month, day }
}

fn service_at(today: Date) -> Service<FixedCalendar> {
    Service::new(NewService {
        accounts: vec![Account {
            id: 7,
            user_id: 1,
            account_type: AccountType::Checking,
            balance: 1_000_000,
            is_open: true,
        }],
        vaults: vec![Vault { name: "loans".to_string(), balance: 500_000 }],
        bank_transactions: Vec::new(),
        account_transactions: Vec::new(),
        loans: Vec::new(),
        loan_payments: Vec::new(),
        calendar: FixedCalendar { today },
    })
}

fn sample_loan() -> Loan {
    Loan {
        id: 42,
        user_id: 1,
        vault_name: "loans".to_string(),
        orig_principal: 120_000,
        balance: 120_000,
        accrued_interest: 0,
        interest_rate: 1_200,
        payment_frequency: 1,
        issue_date: date(2024, 1, 1),
        maturity_date: date(2024, 12, 1),
        state: LoanState::Active,
    }
}

#[test]
fn accrue_computes_flat_monthly_interest() {
    // 1200.00 at 12% a year accrues 12.00 for one month.
    let mut s = service_at(date(2024, 1, 1));
    s.loans.push(sample_loan());
    let loan = sample_loan();
    let updated = s.accrue(&loan).unwrap();
    assert_eq!(updated.accrued_interest, 1_200);
    assert_eq!(s.loans[0].accrued_interest, 1_200);
}

#[test]
fn accrue_on_missing_loan_is_record_not_found() {
    let mut s = service_at(date(2024, 1, 1));
    let loan = sample_loan();
    assert_eq!(s.accrue(&loan), Err(Error::RecordNotFound));
}

#[test]
fn create_next_loan_payment_advances_from_issue_date() {
    let mut s = service_at(date(2024, 1, 1));
    s.loans.push(sample_loan());
    let mut loan = sample_loan();
    loan.accrued_interest = 1_200;
    let p = s.create_next_loan_payment(&loan).unwrap();
    assert_eq!(p.due_date, date(2024, 2, 1));
    assert_eq!(p.interest_due, 1_200);
    // Eleven whole months remain to maturity: 1200.00 over 11 periods.
    assert_eq!(p.principal_due, 120_000 / 11);
    assert_eq!(p.loan_id, 42);
    assert_eq!(p.principal_transaction_id, None);
    assert_eq!(p.interest_transaction_id, None);
}

#[test]
fn create_past_maturity_is_invalid_date() {
    let mut s = service_at(date(2024, 1, 1));
    let mut loan = sample_loan();
    loan.maturity_date = date(2024, 1, 20);
    let r = s.create_next_loan_payment(&loan);
    assert_eq!(r, Err(Error::InvalidDate));
    assert!(s.loan_payments.is_empty());
}

#[test]
fn get_next_loan_payment_is_idempotent_on_due_date() {
    let mut s = service_at(date(2024, 1, 1));
    s.loans.push(sample_loan());
    let loan = sample_loan();
    let first = s.get_next_loan_payment(&loan).unwrap();
    assert_eq!(first.due_date, date(2024, 2, 1));
    assert_eq!(s.loan_payments.len(), 1);

    // A second call must not schedule anything new nor move the due date;
    // it only refreshes the dues from the loan record handed in.
    let mut refreshed_loan = sample_loan();
    refreshed_loan.accrued_interest = 1_200;
    let second = s.get_next_loan_payment(&refreshed_loan).unwrap();
    assert_eq!(s.loan_payments.len(), 1);
    assert_eq!(second.due_date, first.due_date);
    assert_eq!(second.id, first.id);
    assert_eq!(second.interest_due, 1_200);
}

#[test]
fn update_loan_payment_refreshes_dues_and_keeps_due_date() {
    let mut s = service_at(date(2024, 1, 1));
    s.loans.push(sample_loan());
    let loan = sample_loan();
    let p = s.get_next_loan_payment(&loan).unwrap();

    let mut later = sample_loan();
    later.accrued_interest = 777;
    let updated = s.update_loan_payment(&later, p.id).unwrap();
    assert_eq!(updated.due_date, p.due_date);
    assert_eq!(updated.interest_due, 777);
}

#[test]
fn update_missing_payment_is_record_not_found() {
    let mut s = service_at(date(2024, 1, 1));
    let loan = sample_loan();
    assert_eq!(s.update_loan_payment(&loan, 5), Err(Error::RecordNotFound));
}

#[test]
fn schedule_advances_by_frequency_until_maturity() {
    // Issue 2024-10-01, monthly payments, maturity 2024-12-01: two
    // payments fit, then scheduling fails with InvalidDate.
    let mut s = service_at(date(2024, 10, 1));
    let mut loan = sample_loan();
    loan.issue_date = date(2024, 10, 1);
    loan.maturity_date = date(2024, 12, 1);
    loan.balance = 20_000;
    s.loans.push(loan.clone());

    let p1 = s.get_next_loan_payment(&loan).unwrap();
    assert_eq!(p1.due_date, date(2024, 11, 1));
    s.pay_loan_payment_due(p1.id, 7).unwrap();
    let loan = s.loans[0].clone();

    let p2 = s.get_next_loan_payment(&loan).unwrap();
    assert_eq!(p2.due_date, date(2024, 12, 1));
    assert!(p1.due_date.year < p2.due_date.year
        || (p1.due_date.year == p2.due_date.year && p1.due_date.month < p2.due_date.month));
    s.pay_loan_payment_due(p2.id, 7).unwrap();
    let loan = s.loans[0].clone();

    // The next due date, 2025-01-01, would pass maturity.
    assert_eq!(s.get_next_loan_payment(&loan), Err(Error::InvalidDate));
    assert_eq!(s.loan_payments.len(), 2);
}

#[test]
fn paying_a_quarter_schedule_steps_by_three_months() {
    let mut s = service_at(date(2024, 1, 1));
    let mut loan = sample_loan();
    loan.payment_frequency = 3;
    s.loans.push(loan.clone());
    let p1 = s.get_next_loan_payment(&loan).unwrap();
    assert_eq!(p1.due_date, date(2024, 4, 1));
    s.pay_loan_payment_due(p1.id, 7).unwrap();
    let loan = s.loans[0].clone();
    let p2 = s.get_next_loan_payment(&loan).unwrap();
    assert_eq!(p2.due_date, date(2024, 7, 1));
}
