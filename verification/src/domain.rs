//! The persisted entities of the ledger, modelled as plain values.
//!
//! Monetary amounts are exact decimals with two fractional digits and are
//! carried as integer cents (`Money`); balances can therefore never hold a
//! rounding error and an account or loan balance is non-negative by type.
//! A vault balance may run negative (disbursing a loan draws the vault
//! down without a floor), so it is a signed wide integer.

use vstd::prelude::*;
use crate::date::{Date, date_valid, month_index, MAX_FREQUENCY};

verus! {

/// Entity key: repositories hand out dense integer ids.
pub type Id = u64;

/// A monetary amount in cents (two-fractional-digit decimal), never negative.
pub type Money = u64;

/// Interest rates are quoted in basis points (hundredths of a percent).
pub const BASIS_POINTS: u64 = 10000;

/// Flat monthly accrual divides the annual rate by twelve.
pub const MONTHS_PER_YEAR: u64 = 12;

/// Denominator of the monthly accrual formula: basis points times months.
pub const ACCRUAL_DENOMINATOR: u64 = BASIS_POINTS * MONTHS_PER_YEAR;

/// Kind of account a customer holds.
#[derive(Clone, Copy, PartialEq, Eq, Structural, Debug)]
pub enum AccountType {
    Checking,
    Savings,
}

/// Audit classification of a vault-touching movement.
#[derive(Clone, Copy, PartialEq, Eq, Structural, Debug)]
pub enum BankTransactionType {
    Deposit,
    Withdraw,
    PrincipalRepayment,
    InterestRepayment,
}

/// Lifecycle of a loan: it is disbursed `Active` and becomes `Paid` exactly
/// when its balance reaches zero.
#[derive(Clone, Copy, PartialEq, Eq, Structural, Debug)]
pub enum LoanState {
    Active,
    Paid,
}

/// Why a service operation failed.  Callers can tell business-rule
/// violations (`InadequateFunds`, `InvalidDate`) from a missing row
/// (`RecordNotFound`) and from a storage-layer failure (`Storage`).
#[derive(Clone, Copy, PartialEq, Eq, Structural, Debug)]
pub enum Error {
    InadequateFunds,
    InvalidDate,
    RecordNotFound,
    Storage,
}

/// A customer account.
#[derive(Clone, Copy, PartialEq, Eq, Structural, Debug)]
pub struct Account {
    pub id: Id,
    pub user_id: Id,
    pub account_type: AccountType,
    pub balance: Money,
    pub is_open: bool,
}

/// A named pool of bank-side funds backing a class of accounts and loans.
#[derive(Clone, PartialEq, Debug)]
pub struct Vault {
    pub name: String,
    pub balance: i128,
}

/// Immutable audit record of a movement between an account and a vault.
#[derive(Clone, PartialEq, Debug)]
pub struct BankTransaction {
    pub id: Id,
    pub account_id: Id,
    pub vault_name: String,
    pub transaction_type: BankTransactionType,
    pub amount: Money,
    pub timestamp: Date,
}

/// Immutable record of a peer-to-peer transfer.
#[derive(Clone, Copy, PartialEq, Eq, Structural, Debug)]
pub struct AccountTransaction {
    pub id: Id,
    pub sender_id: Id,
    pub receiver_id: Id,
    pub amount: Money,
}

/// A loan: principal drawn from a vault, repaid on a monthly schedule.
#[derive(Clone, PartialEq, Debug)]
pub struct Loan {
    pub id: Id,
    pub user_id: Id,
    pub vault_name: String,
    pub orig_principal: Money,
    pub balance: Money,
    pub accrued_interest: Money,
    /// Annual interest rate in basis points.
    pub interest_rate: u64,
    /// Months between scheduled payments.
    pub payment_frequency: u32,
    pub issue_date: Date,
    pub maturity_date: Date,
    pub state: LoanState,
}

/// One scheduled payment of a loan.  The two transaction ids are set
/// together, once, when the payment is applied; a payment with both ids
/// present counts as paid.
#[derive(Clone, Copy, PartialEq, Eq, Debug)]
pub struct LoanPayment {
    pub id: Id,
    pub loan_id: Id,
    pub principal_due: Money,
    pub interest_due: Money,
    pub due_date: Date,
    pub principal_transaction_id: Option<Id>,
    pub interest_transaction_id: Option<Id>,
}

/// A payment is settled once both audit transactions are linked to it.
pub open spec fn payment_is_paid(p: LoanPayment) -> bool {
    p.principal_transaction_id is Some && p.interest_transaction_id is Some
}

/// A well-formed loan: schedule frequency and rate in range, dates valid.
/// The rate bound (at most 100% per month) keeps accrual within `Money`.
pub open spec fn loan_valid(l: Loan) -> bool {
    &&& 1 <= l.payment_frequency <= MAX_FREQUENCY
    &&& l.interest_rate <= ACCRUAL_DENOMINATOR
    &&& date_valid(l.issue_date)
    &&& date_valid(l.maturity_date)
}

/// Whole months left from `today` to the loan's maturity (zero if past it).
pub open spec fn spec_remaining_months(l: Loan, today: Date) -> int {
    if month_index(today) <= month_index(l.maturity_date) {
        month_index(l.maturity_date) - month_index(today)
    } else {
        0
    }
}

/// Number of schedule periods left before maturity, never less than one.
pub open spec fn spec_remaining_periods(l: Loan, today: Date) -> int {
    let p = spec_remaining_months(l, today) / (l.payment_frequency as int);
    if p < 1 {
        1
    } else {
        p
    }
}

/// The amortization rule for the principal component of the next payment:
/// the remaining balance spread evenly over the remaining schedule periods
/// (integer division on cents).
pub open spec fn spec_principal_due(l: Loan, today: Date) -> Money {
    (l.balance as int / spec_remaining_periods(l, today)) as Money
}

/// Flat monthly interest accrual: balance times the annual rate, divided by
/// basis points and by twelve months, rounded down to a cent.
pub open spec fn spec_monthly_interest(l: Loan) -> Money {
    ((l.balance * l.interest_rate) / ACCRUAL_DENOMINATOR as int) as Money
}

impl Loan {
    /// Principal component of the next scheduled payment as of `today`.
    pub fn principal_due(&self, today: Date) -> (r: Money)
        requires
            loan_valid(*self),
            date_valid(today),
        ensures
            r == spec_principal_due(*self, today),
            r <= self.balance,
    {
        let today_idx: u64 = today.year as u64 * 12 + (today.month as u64 - 1);
        let maturity_idx: u64 = self.maturity_date.year as u64 * 12 + (self.maturity_date.month
            as u64 - 1);
        let remaining: u64 = if today_idx <= maturity_idx {
            maturity_idx - today_idx
        } else {
            0
        };
        let mut periods: u64 = remaining / self.payment_frequency as u64;
        if periods < 1 {
            periods = 1;
        }
        assert(periods == spec_remaining_periods(*self, today));
        let due = self.balance / periods;
        proof {
            lemma_div_within(self.balance as int, periods as int);
        }
        due
    }

    /// An owned copy of the loan record, field for field.
    pub fn duplicate(&self) -> (r: Loan)
        ensures
            r == *self,
    {
        Loan {
            id: self.id,
            user_id: self.user_id,
            vault_name: self.vault_name.clone(),
            orig_principal: self.orig_principal,
            balance: self.balance,
            accrued_interest: self.accrued_interest,
            interest_rate: self.interest_rate,
            payment_frequency: self.payment_frequency,
            issue_date: self.issue_date,
            maturity_date: self.maturity_date,
            state: self.state,
        }
    }

    /// One month's interest on the current balance at the loan's rate.
    pub fn monthly_interest(&self) -> (r: Money)
        requires
            loan_valid(*self),
        ensures
            r == spec_monthly_interest(*self),
            r <= self.balance,
    {
        proof {
            assert(self.balance * self.interest_rate <= u64::MAX * (ACCRUAL_DENOMINATOR as int))
                by (nonlinear_arith)
                requires
                    self.balance <= u64::MAX,
                    self.interest_rate <= ACCRUAL_DENOMINATOR,
            {
            }
        }
        let product: u128 = self.balance as u128 * self.interest_rate as u128;
        let interest: u128 = product / ACCRUAL_DENOMINATOR as u128;
        proof {
            lemma_accrual_bounded(self.balance as int, self.interest_rate as int);
        }
        interest as u64
    }
}

/// Dividing a non-negative amount by a positive period count cannot grow it.
proof fn lemma_div_within(balance: int, periods: int)
    requires
        0 <= balance,
        1 <= periods,
    ensures
        0 <= balance / periods <= balance,
{
    assert(0 <= balance / periods <= balance) by (nonlinear_arith)
        requires
            0 <= balance,
            1 <= periods,
    {
    }
}

/// With the rate capped at `ACCRUAL_DENOMINATOR`, one month's interest is
/// at most the balance itself.
proof fn lemma_accrual_bounded(balance: int, rate: int)
    requires
        0 <= balance,
        0 <= rate <= ACCRUAL_DENOMINATOR,
    ensures
        0 <= (balance * rate) / (ACCRUAL_DENOMINATOR as int) <= balance,
{
    assert(0 <= (balance * rate) / (ACCRUAL_DENOMINATOR as int) <= balance) by (nonlinear_arith)
        requires
            0 <= balance,
            0 <= rate <= ACCRUAL_DENOMINATOR,
    {
    }
}

impl AccountType {
    /// Storage-column text for the account type.
    pub fn as_str(&self) -> (r: &'static str)
        ensures
            *self is Checking ==> r@ == "checking"@,
            *self is Savings ==> r@ == "savings"@,
    {
        match self {
            AccountType::Checking => "checking",
            AccountType::Savings => "savings",
        }
    }
}

/// The account type named by a storage-column text, if any.
pub open spec fn spec_account_type_from_str(s: Seq<char>) -> Option<AccountType> {
    if s == "checking"@ {
        Some(AccountType::Checking)
    } else if s == "savings"@ {
        Some(AccountType::Savings)
    } else {
        None
    }
}

/// Parses a storage-column text back into an account type; the inverse of
/// `AccountType::as_str`.
pub fn account_type_from_str(s: &str) -> (r: Option<AccountType>)
    ensures
        r == spec_account_type_from_str(s@),
{
    let key = s.to_string();
    if key == "checking".to_string() {
        Some(AccountType::Checking)
    } else if key == "savings".to_string() {
        Some(AccountType::Savings)
    } else {
        None
    }
}

} // verus!
