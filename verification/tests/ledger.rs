use ledger_core::date::Date;
use ledger_core::domain::{
    Account, AccountTransaction, AccountType, BankTransaction, BankTransactionType, Error, Loan,
    LoanPayment, LoanState, Vault,
};
use ledger_core::service::{Calendar, FixedCalendar, NewService, Service};

fn date(year: u32, month: u32, day: u32) -> Date {
    Date { year, month, day }
}

fn account(id: u64, balance: u64) -> Account {
    Account { id, user_id: 1, account_type: AccountType::Checking, balance, is_open: true }
}

fn vault(name: &str, balance: i128) -> Vault {
    Vault { name: name.to_string(), balance }
}

fn service_with(accounts: Vec<Account>, vaults: Vec<Vault>, today: Date) -> Service<FixedCalendar> {
    Service::new(NewService {
        accounts,
        vaults,
        bank_transactions: Vec::new(),
        account_transactions: Vec::new(),
        loans: Vec::new(),
        loan_payments: Vec::new(),
        calendar: FixedCalendar { today },
    })
}

#[test]
fn deposit_grows_account_vault_and_audit_trail() {
    let mut s = service_with(vec![account(7, 0)], vec![vault("main", 10_000)], date(2024, 1, 1));
    let r = s.deposit(7, "main", 5_000).unwrap();
    assert_eq!(r.balance, 5_000);
    assert_eq!(s.accounts[0].balance, 5_000);
    assert_eq!(s.vaults[0].balance, 15_000);
    assert_eq!(s.bank_transactions.len(), 1);
    let t = &s.bank_transactions[0];
    assert_eq!(t.id, 0);
    assert_eq!(t.account_id, 7);
    assert_eq!(t.vault_name, "main");
    assert_eq!(t.transaction_type, BankTransactionType::Deposit);
    assert_eq!(t.amount, 5_000);
    assert_eq!(t.timestamp, date(2024, 1, 1));
}

#[test]
fn deposit_into_missing_account_is_record_not_found() {
    let mut s = service_with(vec![account(7, 0)], vec![vault("main", 0)], date(2024, 1, 1));
    assert_eq!(s.deposit(8, "main", 5_000), Err(Error::RecordNotFound));
    assert_eq!(s.accounts[0].balance, 0);
    assert_eq!(s.vaults[0].balance, 0);
    assert!(s.bank_transactions.is_empty());
}

#[test]
fn deposit_into_missing_vault_is_record_not_found() {
    let mut s = service_with(vec![account(7, 0)], vec![vault("main", 0)], date(2024, 1, 1));
    assert_eq!(s.deposit(7, "reserve", 5_000), Err(Error::RecordNotFound));
    assert!(s.bank_transactions.is_empty());
}

#[test]
fn withdraw_shrinks_account_and_vault() {
    let mut s = service_with(vec![account(7, 5_000)], vec![vault("main", 9_000)], date(2024, 3, 5));
    let r = s.withdraw(7, "main", 2_000).unwrap();
    assert_eq!(r.balance, 3_000);
    assert_eq!(s.accounts[0].balance, 3_000);
    assert_eq!(s.vaults[0].balance, 7_000);
    assert_eq!(s.bank_transactions.len(), 1);
    assert_eq!(s.bank_transactions[0].transaction_type, BankTransactionType::Withdraw);
    assert_eq!(s.bank_transactions[0].amount, 2_000);
}

#[test]
fn withdraw_more_than_balance_fails_without_writes() {
    let mut s = service_with(vec![account(7, 3_000)], vec![vault("main", 9_000)], date(2024, 3, 5));
    assert_eq!(s.withdraw(7, "main", 5_000), Err(Error::InadequateFunds));
    assert_eq!(s.accounts[0].balance, 3_000);
    assert_eq!(s.vaults[0].balance, 9_000);
    assert!(s.bank_transactions.is_empty());
}

#[test]
fn send_funds_is_zero_sum() {
    let mut s = service_with(
        vec![account(1, 5_000), account(2, 200)],
        vec![],
        date(2024, 6, 1),
    );
    let t = s.send_funds(1, 2, 1_000).unwrap();
    assert_eq!(
        t,
        AccountTransaction { id: 0, sender_id: 1, receiver_id: 2, amount: 1_000 }
    );
    assert_eq!(s.accounts[0].balance, 4_000);
    assert_eq!(s.accounts[1].balance, 1_200);
    assert_eq!(s.accounts[0].balance + s.accounts[1].balance, 5_200);
    assert_eq!(s.account_transactions.len(), 1);
}

#[test]
fn send_funds_to_oneself_changes_nothing_but_records_the_transfer() {
    let mut s = service_with(vec![account(1, 5_000)], vec![], date(2024, 6, 1));
    s.send_funds(1, 1, 1_000).unwrap();
    assert_eq!(s.accounts[0].balance, 5_000);
    assert_eq!(s.account_transactions.len(), 1);
}

#[test]
fn send_funds_without_cover_fails_without_writes() {
    let mut s = service_with(
        vec![account(1, 500), account(2, 0)],
        vec![],
        date(2024, 6, 1),
    );
    assert_eq!(s.send_funds(1, 2, 1_000), Err(Error::InadequateFunds));
    assert_eq!(s.accounts[0].balance, 500);
    assert_eq!(s.accounts[1].balance, 0);
    assert!(s.account_transactions.is_empty());
}

#[test]
fn send_funds_to_missing_receiver_is_record_not_found() {
    let mut s = service_with(vec![account(1, 5_000)], vec![], date(2024, 6, 1));
    assert_eq!(s.send_funds(1, 9, 1_000), Err(Error::RecordNotFound));
    assert_eq!(s.accounts[0].balance, 5_000);
}

fn sample_loan() -> Loan {
    Loan {
        id: 42,
        user_id: 1,
        vault_name: "loans".to_string(),
        orig_principal: 120_000,
        balance: 120_000,
        accrued_interest: 0,
        interest_rate: 1_200,
        payment_frequency: 1,
        issue_date: Date { year: 2024, month: 1, day: 1 },
        maturity_date: Date { year: 2024, month: 12, day: 1 },
        state: LoanState::Active,
    }
}

#[test]
fn disburse_loan_moves_principal_from_vault_to_account() {
    let mut s = service_with(vec![account(7, 0)], vec![vault("loans", 100_000)], date(2024, 1, 1));
    let loan = sample_loan();
    s.disburse_loan(&loan, 7).unwrap();
    assert_eq!(s.accounts[0].balance, 120_000);
    // The vault is drawn down even past zero.
    assert_eq!(s.vaults[0].balance, -20_000);
}

#[test]
fn disburse_loan_without_vault_is_record_not_found() {
    let mut s = service_with(vec![account(7, 0)], vec![], date(2024, 1, 1));
    let loan = sample_loan();
    assert_eq!(s.disburse_loan(&loan, 7), Err(Error::RecordNotFound));
    assert_eq!(s.accounts[0].balance, 0);
}

#[test]
fn pay_loan_payment_due_settles_payment_and_moves_funds() {
    let mut s = service_with(vec![account(7, 50_000)], vec![vault("loans", 0)], date(2024, 2, 1));
    s.loans.push(sample_loan());
    s.loan_payments.push(LoanPayment {
        id: 0,
        loan_id: 42,
        principal_due: 10_000,
        interest_due: 1_200,
        due_date: Date { year: 2024, month: 2, day: 1 },
        principal_transaction_id: None,
        interest_transaction_id: None,
    });
    let p = s.pay_loan_payment_due(0, 7).unwrap();
    assert_eq!(p.principal_transaction_id, Some(0));
    assert_eq!(p.interest_transaction_id, Some(1));
    assert_eq!(s.bank_transactions.len(), 2);
    assert_eq!(s.bank_transactions[0].transaction_type, BankTransactionType::PrincipalRepayment);
    assert_eq!(s.bank_transactions[0].amount, 10_000);
    assert_eq!(s.bank_transactions[1].transaction_type, BankTransactionType::InterestRepayment);
    assert_eq!(s.bank_transactions[1].amount, 1_200);
    assert_eq!(s.accounts[0].balance, 50_000 - 11_200);
    assert_eq!(s.vaults[0].balance, 11_200);
    // The balance shrinks by exactly principal plus interest; the loan
    // stays active while it is not yet zero.
    assert_eq!(s.loans[0].balance, 120_000 - 11_200);
    assert_eq!(s.loans[0].state, LoanState::Active);
}

#[test]
fn pay_final_payment_transitions_loan_to_paid() {
    let mut s = service_with(vec![account(7, 50_000)], vec![vault("loans", 0)], date(2024, 11, 1));
    let mut loan = sample_loan();
    loan.balance = 11_200;
    s.loans.push(loan);
    s.loan_payments.push(LoanPayment {
        id: 0,
        loan_id: 42,
        principal_due: 10_000,
        interest_due: 1_200,
        due_date: Date { year: 2024, month: 11, day: 1 },
        principal_transaction_id: None,
        interest_transaction_id: None,
    });
    s.pay_loan_payment_due(0, 7).unwrap();
    assert_eq!(s.loans[0].balance, 0);
    assert_eq!(s.loans[0].state, LoanState::Paid);
}

#[test]
fn pay_without_cover_fails_without_writes() {
    let mut s = service_with(vec![account(7, 1_000)], vec![vault("loans", 0)], date(2024, 2, 1));
    s.loans.push(sample_loan());
    s.loan_payments.push(LoanPayment {
        id: 0,
        loan_id: 42,
        principal_due: 10_000,
        interest_due: 1_200,
        due_date: Date { year: 2024, month: 2, day: 1 },
        principal_transaction_id: None,
        interest_transaction_id: None,
    });
    assert_eq!(s.pay_loan_payment_due(0, 7), Err(Error::InadequateFunds));
    assert_eq!(s.accounts[0].balance, 1_000);
    assert_eq!(s.vaults[0].balance, 0);
    assert_eq!(s.loans[0].balance, 120_000);
    assert!(s.bank_transactions.is_empty());
    assert_eq!(s.loan_payments[0].principal_transaction_id, None);
}

#[test]
fn pay_missing_payment_is_record_not_found() {
    let mut s = service_with(vec![account(7, 1_000)], vec![vault("loans", 0)], date(2024, 2, 1));
    assert_eq!(s.pay_loan_payment_due(3, 7), Err(Error::RecordNotFound));
}
