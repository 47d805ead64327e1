//! The transactional service layer.
//!
//! `Service` owns the persisted state of the bank — accounts, vaults, the
//! immutable audit trails, loans and their payment schedules — and every
//! operation on it is all-or-nothing: the contract of each method pins the
//! whole state after the call, and on every error path the state is exactly
//! what it was before.
//!
//! The current date is an injected capability (`Calendar`), never a hidden
//! global clock, so schedule arithmetic is deterministic under test.

use vstd::prelude::*;
use crate::date::{
    Date, date_valid, date_le, spec_add_months, date_le_exec, add_months,
    lemma_add_months_shape, lemma_month_index_bounds_year,
};
use crate::domain::{
    Id, Money, Account, Vault, BankTransaction, AccountTransaction, Loan, LoanPayment,
    BankTransactionType, LoanState, Error, payment_is_paid, loan_valid,
    spec_principal_due, spec_monthly_interest,
};

verus! {

/// Position of the first pending (not yet paid) payment of the loan at or
/// after position `i`, or -1 when there is none.
pub open spec fn first_unpaid_from(s: Seq<LoanPayment>, loan_id: Id, i: int) -> int
    decreases s.len() - i,
{
    if i < 0 || i >= s.len() {
        -1
    } else if s[i].loan_id == loan_id && !payment_is_paid(s[i]) {
        i
    } else {
        first_unpaid_from(s, loan_id, i + 1)
    }
}

/// Position of the last settled payment of the loan before position `i`,
/// or -1 when there is none.
pub open spec fn last_paid_before(s: Seq<LoanPayment>, loan_id: Id, i: int) -> int
    decreases i,
{
    if i <= 0 || i > s.len() {
        -1
    } else if s[i - 1].loan_id == loan_id && payment_is_paid(s[i - 1]) {
        i - 1
    } else {
        last_paid_before(s, loan_id, i - 1)
    }
}

/// When the first-pending search succeeds, it lands on a pending payment
/// of the sought loan.
pub proof fn lemma_first_unpaid_props(s: Seq<LoanPayment>, loan_id: Id, i: int)
    requires
        0 <= i <= s.len(),
        first_unpaid_from(s, loan_id, i) >= 0,
    ensures
        ({
            let f = first_unpaid_from(s, loan_id, i);
            &&& i <= f < s.len()
            &&& s[f].loan_id == loan_id
            &&& !payment_is_paid(s[f])
        }),
    decreases s.len() - i,
{
    if i < s.len() && !(s[i].loan_id == loan_id && !payment_is_paid(s[i])) {
        lemma_first_unpaid_props(s, loan_id, i + 1);
    }
}

/// When the last-settled search succeeds, it lands on a settled payment
/// of the sought loan.
pub proof fn lemma_last_paid_props(s: Seq<LoanPayment>, loan_id: Id, i: int)
    requires
        0 <= i <= s.len(),
        last_paid_before(s, loan_id, i) >= 0,
    ensures
        ({
            let l = last_paid_before(s, loan_id, i);
            &&& 0 <= l < i
            &&& s[l].loan_id == loan_id
            &&& payment_is_paid(s[l])
        }),
    decreases i,
{
    if i > 0 && !(s[i - 1].loan_id == loan_id && payment_is_paid(s[i - 1])) {
        lemma_last_paid_props(s, loan_id, i - 1);
    }
}

/// Injected clock capability: tells the service what day it is.
pub trait Calendar: Sized {
    /// The date the calendar will answer with.
    spec fn spec_current_date(&self) -> Date;

    /// Returns the current date.
    fn current_date(&self) -> (d: Date)
        ensures
            d == self.spec_current_date(),
    ;
}

/// A calendar pinned to one date, for deterministic schedules and tests.
#[derive(Clone, Copy, PartialEq, Eq, Structural, Debug)]
pub struct FixedCalendar {
    pub today: Date,
}

impl Calendar for FixedCalendar {
    open spec fn spec_current_date(&self) -> Date {
        self.today
    }

    fn current_date(&self) -> (d: Date) {
        self.today
    }
}

/// The state a `Service` is built from.
pub struct NewService<C: Calendar> {
    pub accounts: Vec<Account>,
    pub vaults: Vec<Vault>,
    pub bank_transactions: Vec<BankTransaction>,
    pub account_transactions: Vec<AccountTransaction>,
    pub loans: Vec<Loan>,
    pub loan_payments: Vec<LoanPayment>,
    pub calendar: C,
}

/// The service layer over the bank's persisted entities.
pub struct Service<C: Calendar> {
    pub accounts: Vec<Account>,
    pub vaults: Vec<Vault>,
    pub bank_transactions: Vec<BankTransaction>,
    pub account_transactions: Vec<AccountTransaction>,
    pub loans: Vec<Loan>,
    pub loan_payments: Vec<LoanPayment>,
    pub calendar: C,
}

impl<C: Calendar> Service<C> {
    /// No two accounts share an id.
    pub open spec fn accounts_unique(self) -> bool {
        forall|i: int, j: int|
            0 <= i < j < self.accounts@.len() ==> self.accounts@[i].id != self.accounts@[j].id
    }

    /// No two vaults share a name.
    pub open spec fn vaults_unique(self) -> bool {
        forall|i: int, j: int|
            0 <= i < j < self.vaults@.len() ==> self.vaults@[i].name@ != self.vaults@[j].name@
    }

    /// No two loans share an id, and every stored loan is well formed.
    pub open spec fn loans_ok(self) -> bool {
        &&& forall|i: int, j: int|
            0 <= i < j < self.loans@.len() ==> self.loans@[i].id != self.loans@[j].id
        &&& forall|i: int| 0 <= i < self.loans@.len() ==> loan_valid(#[trigger] self.loans@[i])
    }

    /// Audit records carry their position as id: ids are dense and stable.
    pub open spec fn audit_indexed(self) -> bool {
        &&& forall|i: int|
            0 <= i < self.bank_transactions@.len() ==> (#[trigger] self.bank_transactions@[i]).id
                == i
        &&& forall|i: int|
            0 <= i < self.account_transactions@.len()
                ==> (#[trigger] self.account_transactions@[i]).id == i
    }

    /// Scheduled payments carry their position as id and a valid due date.
    pub open spec fn payments_ok(self) -> bool {
        &&& forall|i: int|
            0 <= i < self.loan_payments@.len() ==> (#[trigger] self.loan_payments@[i]).id == i
        &&& forall|i: int|
            0 <= i < self.loan_payments@.len() ==> date_valid(
                (#[trigger] self.loan_payments@[i]).due_date,
            )
    }

    /// The service's data invariant: entity keys are unique, audit records
    /// and payments are densely indexed, loans are well formed and the
    /// calendar answers with a valid date.
    pub open spec fn wf(self) -> bool {
        &&& self.accounts_unique()
        &&& self.vaults_unique()
        &&& self.loans_ok()
        &&& self.audit_indexed()
        &&& self.payments_ok()
        &&& date_valid(self.calendar.spec_current_date())
    }

    /// Some stored account carries this id.
    pub open spec fn has_account(self, id: Id) -> bool {
        exists|i: int| 0 <= i < self.accounts@.len() && self.accounts@[i].id == id
    }

    /// Position of the account with this id (unique under `wf`).
    pub open spec fn account_index(self, id: Id) -> int {
        choose|i: int| 0 <= i < self.accounts@.len() && self.accounts@[i].id == id
    }

    /// The stored account with this id.
    pub open spec fn account_of(self, id: Id) -> Account {
        self.accounts@[self.account_index(id)]
    }

    /// Some stored vault carries this name.
    pub open spec fn has_vault(self, name: Seq<char>) -> bool {
        exists|i: int| 0 <= i < self.vaults@.len() && self.vaults@[i].name@ == name
    }

    /// Position of the vault with this name (unique under `wf`).
    pub open spec fn vault_index(self, name: Seq<char>) -> int {
        choose|i: int| 0 <= i < self.vaults@.len() && self.vaults@[i].name@ == name
    }

    /// The stored vault with this name.
    pub open spec fn vault_of(self, name: Seq<char>) -> Vault {
        self.vaults@[self.vault_index(name)]
    }

    /// Some stored loan carries this id.
    pub open spec fn has_loan(self, id: Id) -> bool {
        exists|i: int| 0 <= i < self.loans@.len() && self.loans@[i].id == id
    }

    /// Position of the loan with this id (unique under `wf`).
    pub open spec fn loan_index(self, id: Id) -> int {
        choose|i: int| 0 <= i < self.loans@.len() && self.loans@[i].id == id
    }

    /// The stored loan with this id.
    pub open spec fn loan_of(self, id: Id) -> Loan {
        self.loans@[self.loan_index(id)]
    }

    /// The two states hold exactly the same data.
    pub open spec fn unchanged(self, post: Self) -> bool {
        &&& post.accounts@ == self.accounts@
        &&& post.vaults@ == self.vaults@
        &&& post.bank_transactions@ == self.bank_transactions@
        &&& post.account_transactions@ == self.account_transactions@
        &&& post.loans@ == self.loans@
        &&& post.loan_payments@ == self.loan_payments@
        &&& post.calendar == self.calendar
    }

    /// An account position that carries the sought id is the spec index.
    proof fn lemma_account_index_is(self, id: Id, i: int)
        requires
            self.accounts_unique(),
            0 <= i < self.accounts@.len(),
            self.accounts@[i].id == id,
        ensures
            self.has_account(id),
            self.account_index(id) == i,
    {
        assert(self.has_account(id));
        let k = self.account_index(id);
        if k != i {
            assert(self.accounts@[i].id != self.accounts@[k].id);
        }
    }

    /// A vault position that carries the sought name is the spec index.
    proof fn lemma_vault_index_is(self, name: Seq<char>, i: int)
        requires
            self.vaults_unique(),
            0 <= i < self.vaults@.len(),
            self.vaults@[i].name@ == name,
        ensures
            self.has_vault(name),
            self.vault_index(name) == i,
    {
        assert(self.has_vault(name));
        let k = self.vault_index(name);
        if k != i {
            assert(self.vaults@[i].name@ != self.vaults@[k].name@);
        }
    }

    /// A loan position that carries the sought id is the spec index.
    proof fn lemma_loan_index_is(self, id: Id, i: int)
        requires
            self.loans_ok(),
            0 <= i < self.loans@.len(),
            self.loans@[i].id == id,
        ensures
            self.has_loan(id),
            self.loan_index(id) == i,
    {
        assert(self.has_loan(id));
        let k = self.loan_index(id);
        if k != i {
            assert(self.loans@[i].id != self.loans@[k].id);
        }
    }

    /// Looks up the position of the account with this id.
    fn find_account_index(&self, id: Id) -> (r: Option<usize>)
        requires
            self.accounts_unique(),
        ensures
            match r {
                Some(i) => self.has_account(id) && self.account_index(id) == i
                    && i < self.accounts@.len(),
                None => !self.has_account(id),
            },
    {
        let n = self.accounts.len();
        let mut i: usize = 0;
        while i < n
            invariant
                n == self.accounts@.len(),
                i <= n,
                self.accounts_unique(),
                forall|j: int| 0 <= j < i ==> self.accounts@[j].id != id,
            decreases n - i,
        {
            if self.accounts[i].id == id {
                proof {
                    self.lemma_account_index_is(id, i as int);
                }
                return Some(i);
            }
            i += 1;
        }
        None
    }

    /// Looks up the position of the vault with this name.
    fn find_vault_index(&self, name: &str) -> (r: Option<usize>)
        requires
            self.vaults_unique(),
        ensures
            match r {
                Some(i) => self.has_vault(name@) && self.vault_index(name@) == i
                    && i < self.vaults@.len(),
                None => !self.has_vault(name@),
            },
    {
        let key = name.to_string();
        let n = self.vaults.len();
        let mut i: usize = 0;
        while i < n
            invariant
                n == self.vaults@.len(),
                i <= n,
                key@ == name@,
                self.vaults_unique(),
                forall|j: int| 0 <= j < i ==> self.vaults@[j].name@ != name@,
            decreases n - i,
        {
            if self.vaults[i].name == key {
                proof {
                    self.lemma_vault_index_is(name@, i as int);
                }
                return Some(i);
            }
            i += 1;
        }
        None
    }

    /// Looks up the position of the loan with this id.
    fn find_loan_index(&self, id: Id) -> (r: Option<usize>)
        requires
            self.loans_ok(),
        ensures
            match r {
                Some(i) => self.has_loan(id) && self.loan_index(id) == i && i < self.loans@.len(),
                None => !self.has_loan(id),
            },
    {
        let n = self.loans.len();
        let mut i: usize = 0;
        while i < n
            invariant
                n == self.loans@.len(),
                i <= n,
                self.loans_ok(),
                forall|j: int| 0 <= j < i ==> self.loans@[j].id != id,
            decreases n - i,
        {
            if self.loans[i].id == id {
                proof {
                    self.lemma_loan_index_is(id, i as int);
                }
                return Some(i);
            }
            i += 1;
        }
        None
    }

    /// Assembles the service over its initial state.
    pub fn new(v: NewService<C>) -> (s: Service<C>)
        ensures
            s.accounts@ == v.accounts@,
            s.vaults@ == v.vaults@,
            s.bank_transactions@ == v.bank_transactions@,
            s.account_transactions@ == v.account_transactions@,
            s.loans@ == v.loans@,
            s.loan_payments@ == v.loan_payments@,
            s.calendar == v.calendar,
    {
        Service {
            accounts: v.accounts,
            vaults: v.vaults,
            bank_transactions: v.bank_transactions,
            account_transactions: v.account_transactions,
            loans: v.loans,
            loan_payments: v.loan_payments,
            calendar: v.calendar,
        }
    }

    /// What the audit trail looks like after recording one movement: one
    /// record appended, id dense, every earlier record untouched.
    pub open spec fn bank_txn_recorded(
        pre: Seq<BankTransaction>,
        post: Seq<BankTransaction>,
        account_id: Id,
        vault_name: Seq<char>,
        tt: BankTransactionType,
        amount: Money,
        ts: Date,
    ) -> bool {
        &&& post.len() == pre.len() + 1
        &&& forall|i: int| 0 <= i < pre.len() ==> post[i] == pre[i]
        &&& post.last().id == pre.len()
        &&& post.last().account_id == account_id
        &&& post.last().vault_name@ == vault_name
        &&& post.last().transaction_type == tt
        &&& post.last().amount == amount
        &&& post.last().timestamp == ts
    }

    /// Everything a successful deposit changes, and nothing else: the
    /// account and the vault each grow by `amount`, one `Deposit` audit
    /// record is appended, and `r` is the updated account.
    pub open spec fn deposit_effect(
        pre: Self,
        post: Self,
        account_id: Id,
        vault_name: Seq<char>,
        amount: Money,
        r: Account,
    ) -> bool {
        let ai = pre.account_index(account_id);
        let vi = pre.vault_index(vault_name);
        let a0 = pre.accounts@[ai];
        let v0 = pre.vaults@[vi];
        &&& r == (Account { balance: (a0.balance + amount) as Money, ..a0 })
        &&& post.accounts@ == pre.accounts@.update(ai, r)
        &&& post.vaults@ == pre.vaults@.update(
            vi,
            (Vault { balance: (v0.balance + amount) as i128, ..v0 }),
        )
        &&& Self::bank_txn_recorded(
            pre.bank_transactions@,
            post.bank_transactions@,
            account_id,
            vault_name,
            BankTransactionType::Deposit,
            amount,
            pre.calendar.spec_current_date(),
        )
        &&& post.account_transactions@ == pre.account_transactions@
        &&& post.loans@ == pre.loans@
        &&& post.loan_payments@ == pre.loan_payments@
        &&& post.calendar == pre.calendar
    }

    /// Deposits `amount` into an account, backed by the named vault.
    /// Atomically records a `Deposit` audit entry and grows the account and
    /// the vault by `amount`; a deposit cannot fail on funds.
    pub fn deposit(&mut self, account_id: Id, vault_name: &str, amount: Money) -> (r: Result<
        Account,
        Error,
    >)
        requires
            old(self).wf(),
            amount > 0,
            old(self).has_account(account_id) ==> old(self).account_of(account_id).balance
                + amount <= u64::MAX,
            old(self).has_vault(vault_name@) ==> old(self).vault_of(vault_name@).balance + amount
                <= i128::MAX,
        ensures
            final(self).wf(),
            old(self).has_account(account_id) && old(self).has_vault(vault_name@) ==> (r matches
                Ok(a) && Self::deposit_effect(
                *old(self),
                *final(self),
                account_id,
                vault_name@,
                amount,
                a,
            )),
            !(old(self).has_account(account_id) && old(self).has_vault(vault_name@)) ==> r
                == Err::<Account, Error>(Error::RecordNotFound) && old(self).unchanged(
                *final(self),
            ),
    {
        let ai = match self.find_account_index(account_id) {
            Some(i) => i,
            None => {
                return Err(Error::RecordNotFound);
            },
        };
        let vi = match self.find_vault_index(vault_name) {
            Some(i) => i,
            None => {
                return Err(Error::RecordNotFound);
            },
        };
        let today = self.calendar.current_date();
        let txn_id = self.bank_transactions.len() as u64;
        self.bank_transactions.push(
            BankTransaction {
                id: txn_id,
                account_id,
                vault_name: vault_name.to_string(),
                transaction_type: BankTransactionType::Deposit,
                amount,
                timestamp: today,
            },
        );
        let a0 = self.accounts[ai];
        let updated = Account { balance: a0.balance + amount, ..a0 };
        self.accounts[ai] = updated;
        let v0_balance = self.vaults[vi].balance;
        self.vaults[vi].balance = v0_balance + amount as i128;
        Ok(updated)
    }

    /// Everything a successful withdrawal changes, and nothing else: the
    /// account and the vault each shrink by `amount`, one `Withdraw` audit
    /// record is appended, and `r` is the updated account.
    pub open spec fn withdraw_effect(
        pre: Self,
        post: Self,
        account_id: Id,
        vault_name: Seq<char>,
        amount: Money,
        r: Account,
    ) -> bool {
        let ai = pre.account_index(account_id);
        let vi = pre.vault_index(vault_name);
        let a0 = pre.accounts@[ai];
        let v0 = pre.vaults@[vi];
        &&& r == (Account { balance: (a0.balance - amount) as Money, ..a0 })
        &&& post.accounts@ == pre.accounts@.update(ai, r)
        &&& post.vaults@ == pre.vaults@.update(
            vi,
            (Vault { balance: (v0.balance - amount) as i128, ..v0 }),
        )
        &&& Self::bank_txn_recorded(
            pre.bank_transactions@,
            post.bank_transactions@,
            account_id,
            vault_name,
            BankTransactionType::Withdraw,
            amount,
            pre.calendar.spec_current_date(),
        )
        &&& post.account_transactions@ == pre.account_transactions@
        &&& post.loans@ == pre.loans@
        &&& post.loan_payments@ == pre.loan_payments@
        &&& post.calendar == pre.calendar
    }

    /// Withdraws `amount` from an account, drawing down the named vault.
    /// Fails with `InadequateFunds`, before any write, when the account
    /// balance is short; otherwise atomically records a `Withdraw` audit
    /// entry and shrinks the account and the vault by `amount`.
    pub fn withdraw(&mut self, account_id: Id, vault_name: &str, amount: Money) -> (r: Result<
        Account,
        Error,
    >)
        requires
            old(self).wf(),
            amount > 0,
            old(self).has_vault(vault_name@) ==> old(self).vault_of(vault_name@).balance - amount
                >= i128::MIN,
        ensures
            final(self).wf(),
            !old(self).has_account(account_id) ==> r == Err::<Account, Error>(
                Error::RecordNotFound,
            ) && old(self).unchanged(*final(self)),
            old(self).has_account(account_id) && old(self).account_of(account_id).balance < amount
                ==> r == Err::<Account, Error>(Error::InadequateFunds) && old(self).unchanged(
                *final(self),
            ),
            old(self).has_account(account_id) && old(self).account_of(account_id).balance >= amount
                && !old(self).has_vault(vault_name@) ==> r == Err::<Account, Error>(
                Error::RecordNotFound,
            ) && old(self).unchanged(*final(self)),
            old(self).has_account(account_id) && old(self).account_of(account_id).balance >= amount
                && old(self).has_vault(vault_name@) ==> (r matches Ok(a)
                && Self::withdraw_effect(
                *old(self),
                *final(self),
                account_id,
                vault_name@,
                amount,
                a,
            )),
    {
        let ai = match self.find_account_index(account_id) {
            Some(i) => i,
            None => {
                return Err(Error::RecordNotFound);
            },
        };
        let a0 = self.accounts[ai];
        if a0.balance < amount {
            return Err(Error::InadequateFunds);
        }
        let vi = match self.find_vault_index(vault_name) {
            Some(i) => i,
            None => {
                return Err(Error::RecordNotFound);
            },
        };
        let today = self.calendar.current_date();
        let txn_id = self.bank_transactions.len() as u64;
        self.bank_transactions.push(
            BankTransaction {
                id: txn_id,
                account_id,
                vault_name: vault_name.to_string(),
                transaction_type: BankTransactionType::Withdraw,
                amount,
                timestamp: today,
            },
        );
        let updated = Account { balance: a0.balance - amount, ..a0 };
        self.accounts[ai] = updated;
        let v0_balance = self.vaults[vi].balance;
        self.vaults[vi].balance = v0_balance - amount as i128;
        Ok(updated)
    }

    /// Everything a successful peer transfer changes, and nothing else:
    /// the receiver grows and the sender shrinks by `amount` (applied in
    /// that order, so a transfer to oneself is a no-op), and one transfer
    /// record is appended; `r` is that record.
    pub open spec fn send_effect(
        pre: Self,
        post: Self,
        sender_id: Id,
        receiver_id: Id,
        amount: Money,
        r: AccountTransaction,
    ) -> bool {
        let si = pre.account_index(sender_id);
        let ri = pre.account_index(receiver_id);
        let r0 = pre.accounts@[ri];
        let mid = pre.accounts@.update(
            ri,
            Account { balance: (r0.balance + amount) as Money, ..r0 },
        );
        let s1 = mid[si];
        &&& r == (AccountTransaction {
            id: pre.account_transactions@.len() as Id,
            sender_id,
            receiver_id,
            amount,
        })
        &&& post.accounts@ == mid.update(
            si,
            (Account { balance: (s1.balance - amount) as Money, ..s1 }),
        )
        &&& post.account_transactions@ == pre.account_transactions@.push(r)
        &&& post.bank_transactions@ == pre.bank_transactions@
        &&& post.vaults@ == pre.vaults@
        &&& post.loans@ == pre.loans@
        &&& post.loan_payments@ == pre.loan_payments@
        &&& post.calendar == pre.calendar
    }

    /// Moves `amount` from one account to another.  Fails with
    /// `InadequateFunds`, before any write, when the sender is short;
    /// otherwise atomically records the transfer and moves the funds.
    /// Zero-sum: the two balances together are what they were.
    pub fn send_funds(&mut self, sender_id: Id, receiver_id: Id, amount: Money) -> (r: Result<
        AccountTransaction,
        Error,
    >)
        requires
            old(self).wf(),
            amount > 0,
            old(self).has_account(receiver_id) ==> old(self).account_of(receiver_id).balance
                + amount <= u64::MAX,
        ensures
            final(self).wf(),
            !old(self).has_account(sender_id) ==> r == Err::<AccountTransaction, Error>(
                Error::RecordNotFound,
            ) && old(self).unchanged(*final(self)),
            old(self).has_account(sender_id) && old(self).account_of(sender_id).balance < amount
                ==> r == Err::<AccountTransaction, Error>(Error::InadequateFunds) && old(
                self,
            ).unchanged(*final(self)),
            old(self).has_account(sender_id) && old(self).account_of(sender_id).balance >= amount
                && !old(self).has_account(receiver_id) ==> r == Err::<AccountTransaction, Error>(
                Error::RecordNotFound,
            ) && old(self).unchanged(*final(self)),
            old(self).has_account(sender_id) && old(self).account_of(sender_id).balance >= amount
                && old(self).has_account(receiver_id) ==> (r matches Ok(t)
                && Self::send_effect(*old(self), *final(self), sender_id, receiver_id, amount, t)),
            // Conservation: a successful transfer leaves the two balances'
            // sum unchanged.
            old(self).has_account(sender_id) && old(self).account_of(sender_id).balance >= amount
                && old(self).has_account(receiver_id) ==> final(self).account_of(sender_id).balance
                + final(self).account_of(receiver_id).balance == old(self).account_of(
                sender_id,
            ).balance + old(self).account_of(receiver_id).balance,
    {
        let si = match self.find_account_index(sender_id) {
            Some(i) => i,
            None => {
                return Err(Error::RecordNotFound);
            },
        };
        let s0 = self.accounts[si];
        if s0.balance < amount {
            return Err(Error::InadequateFunds);
        }
        let ri = match self.find_account_index(receiver_id) {
            Some(i) => i,
            None => {
                return Err(Error::RecordNotFound);
            },
        };
        let t = AccountTransaction {
            id: self.account_transactions.len() as u64,
            sender_id,
            receiver_id,
            amount,
        };
        self.account_transactions.push(t);
        let r0 = self.accounts[ri];
        self.accounts[ri] = Account { balance: r0.balance + amount, ..r0 };
        let s1 = self.accounts[si];
        self.accounts[si] = Account { balance: s1.balance - amount, ..s1 };
        proof {
            let pre = *old(self);
            let post = *self;
            pre.lemma_account_index_is(sender_id, si as int);
            pre.lemma_account_index_is(receiver_id, ri as int);
            post.lemma_account_index_is(sender_id, si as int);
            post.lemma_account_index_is(receiver_id, ri as int);
        }
        Ok(t)
    }

    /// Disburses a loan: atomically draws the loan's original principal
    /// out of the loan's vault and credits it to the borrower's account.
    /// Validating that the account belongs to the borrower is the caller's
    /// responsibility.
    pub fn disburse_loan(&mut self, loan: &Loan, account_id: Id) -> (r: Result<(), Error>)
        requires
            old(self).wf(),
            old(self).has_account(account_id) ==> old(self).account_of(account_id).balance
                + loan.orig_principal <= u64::MAX,
            old(self).has_vault(loan.vault_name@) ==> old(self).vault_of(
                loan.vault_name@,
            ).balance - loan.orig_principal >= i128::MIN,
        ensures
            final(self).wf(),
            !(old(self).has_vault(loan.vault_name@) && old(self).has_account(account_id)) ==> r
                == Err::<(), Error>(Error::RecordNotFound) && old(self).unchanged(*final(self)),
            old(self).has_vault(loan.vault_name@) && old(self).has_account(account_id) ==> {
                let vi = old(self).vault_index(loan.vault_name@);
                let ai = old(self).account_index(account_id);
                let v0 = old(self).vaults@[vi];
                let a0 = old(self).accounts@[ai];
                &&& r == Ok::<(), Error>(())
                &&& final(self).vaults@ == old(self).vaults@.update(
                    vi,
                    (Vault { balance: (v0.balance - loan.orig_principal) as i128, ..v0 }),
                )
                &&& final(self).accounts@ == old(self).accounts@.update(
                    ai,
                    (Account { balance: (a0.balance + loan.orig_principal) as Money, ..a0 }),
                )
                &&& final(self).bank_transactions@ == old(self).bank_transactions@
                &&& final(self).account_transactions@ == old(self).account_transactions@
                &&& final(self).loans@ == old(self).loans@
                &&& final(self).loan_payments@ == old(self).loan_payments@
                &&& final(self).calendar == old(self).calendar
            },
    {
        let vi = match self.find_vault_index(loan.vault_name.as_str()) {
            Some(i) => i,
            None => {
                return Err(Error::RecordNotFound);
            },
        };
        let ai = match self.find_account_index(account_id) {
            Some(i) => i,
            None => {
                return Err(Error::RecordNotFound);
            },
        };
        let v0_balance = self.vaults[vi].balance;
        self.vaults[vi].balance = v0_balance - loan.orig_principal as i128;
        let a0 = self.accounts[ai];
        self.accounts[ai] = Account { balance: a0.balance + loan.orig_principal, ..a0 };
        Ok(())
    }

    /// Looks up the position of the loan's first pending payment.
    fn find_first_unpaid_index(&self, loan_id: Id) -> (r: Option<usize>)
        ensures
            ({
                let f = first_unpaid_from(self.loan_payments@, loan_id, 0);
                match r {
                    Some(i) => f == i && i < self.loan_payments@.len(),
                    None => f == -1,
                }
            }),
    {
        let n = self.loan_payments.len();
        let mut i: usize = 0;
        while i < n
            invariant
                n == self.loan_payments@.len(),
                i <= n,
                first_unpaid_from(self.loan_payments@, loan_id, 0) == first_unpaid_from(
                    self.loan_payments@,
                    loan_id,
                    i as int,
                ),
            decreases n - i,
        {
            let p = &self.loan_payments[i];
            if p.loan_id == loan_id && (p.principal_transaction_id.is_none()
                || p.interest_transaction_id.is_none()) {
                return Some(i);
            }
            i += 1;
        }
        None
    }

    /// Looks up the position of the loan's most recent settled payment.
    fn find_last_paid_index(&self, loan_id: Id) -> (r: Option<usize>)
        ensures
            ({
                let l = last_paid_before(
                    self.loan_payments@,
                    loan_id,
                    self.loan_payments@.len() as int,
                );
                match r {
                    Some(i) => l == i && i < self.loan_payments@.len(),
                    None => l == -1,
                }
            }),
    {
        let n = self.loan_payments.len();
        let mut i: usize = n;
        while i > 0
            invariant
                n == self.loan_payments@.len(),
                i <= n,
                last_paid_before(self.loan_payments@, loan_id, n as int) == last_paid_before(
                    self.loan_payments@,
                    loan_id,
                    i as int,
                ),
            decreases i,
        {
            let p = &self.loan_payments[i - 1];
            if p.loan_id == loan_id && p.principal_transaction_id.is_some()
                && p.interest_transaction_id.is_some() {
                return Some(i - 1);
            }
            i -= 1;
        }
        None
    }

    /// Due date of the loan's next scheduled payment: the last settled
    /// payment's due date — or the issue date, when nothing was settled
    /// yet — advanced by the loan's payment frequency in months.
    pub open spec fn next_due_date(pre: Self, loan: Loan) -> Date {
        let li = last_paid_before(pre.loan_payments@, loan.id, pre.loan_payments@.len() as int);
        let base = if li >= 0 {
            pre.loan_payments@[li].due_date
        } else {
            loan.issue_date
        };
        spec_add_months(base, loan.payment_frequency as int)
    }

    /// The payment record a successful schedule step appends: dense id,
    /// principal per the amortization rule at the current date, interest
    /// as currently accrued, not yet settled.
    pub open spec fn created_payment(pre: Self, loan: Loan) -> LoanPayment {
        LoanPayment {
            id: pre.loan_payments@.len() as Id,
            loan_id: loan.id,
            principal_due: spec_principal_due(loan, pre.calendar.spec_current_date()),
            interest_due: loan.accrued_interest,
            due_date: Self::next_due_date(pre, loan),
            principal_transaction_id: None,
            interest_transaction_id: None,
        }
    }

    /// Schedules the loan's next payment.  The due date advances from the
    /// last settled payment (or from the issue date) by the payment
    /// frequency; a due date past the loan's maturity is refused with
    /// `InvalidDate` and nothing is written.
    pub fn create_next_loan_payment(&mut self, loan: &Loan) -> (r: Result<LoanPayment, Error>)
        requires
            old(self).wf(),
            loan_valid(*loan),
        ensures
            final(self).wf(),
            !date_le(Self::next_due_date(*old(self), *loan), loan.maturity_date) ==> r == Err::<
                LoanPayment,
                Error,
            >(Error::InvalidDate) && old(self).unchanged(*final(self)),
            date_le(Self::next_due_date(*old(self), *loan), loan.maturity_date) ==> {
                let p = Self::created_payment(*old(self), *loan);
                &&& r == Ok::<LoanPayment, Error>(p)
                &&& final(self).loan_payments@ == old(self).loan_payments@.push(p)
                &&& !payment_is_paid(p)
                &&& date_le(p.due_date, loan.maturity_date)
                &&& final(self).accounts@ == old(self).accounts@
                &&& final(self).vaults@ == old(self).vaults@
                &&& final(self).bank_transactions@ == old(self).bank_transactions@
                &&& final(self).account_transactions@ == old(self).account_transactions@
                &&& final(self).loans@ == old(self).loans@
                &&& final(self).calendar == old(self).calendar
            },
    {
        let today = self.calendar.current_date();
        let base: Date = match self.find_last_paid_index(loan.id) {
            Some(i) => self.loan_payments[i].due_date,
            None => loan.issue_date,
        };
        proof {
            lemma_add_months_shape(base, loan.payment_frequency as int);
        }
        let due = add_months(&base, loan.payment_frequency);
        if !date_le_exec(&due, &loan.maturity_date) {
            return Err(Error::InvalidDate);
        }
        proof {
            lemma_month_index_bounds_year(due, loan.maturity_date);
        }
        let principal_due = loan.principal_due(today);
        let p = LoanPayment {
            id: self.loan_payments.len() as u64,
            loan_id: loan.id,
            principal_due,
            interest_due: loan.accrued_interest,
            due_date: due,
            principal_transaction_id: None,
            interest_transaction_id: None,
        };
        self.loan_payments.push(p);
        Ok(p)
    }

    /// The payment as `update_loan_payment` leaves it: dues recomputed
    /// from the loan at the current date, everything else untouched.
    pub open spec fn refreshed_payment(pre: Self, loan: Loan, pid: int) -> LoanPayment {
        LoanPayment {
            principal_due: spec_principal_due(loan, pre.calendar.spec_current_date()),
            interest_due: loan.accrued_interest,
            ..pre.loan_payments@[pid]
        }
    }

    /// Recomputes and persists the dues of an existing payment record:
    /// principal per the amortization rule at the current date, interest as
    /// currently accrued.  The due date is not touched.
    pub fn update_loan_payment(&mut self, loan: &Loan, loan_payment_id: Id) -> (r: Result<
        LoanPayment,
        Error,
    >)
        requires
            old(self).wf(),
            loan_valid(*loan),
        ensures
            final(self).wf(),
            loan_payment_id >= old(self).loan_payments@.len() ==> r == Err::<LoanPayment, Error>(
                Error::RecordNotFound,
            ) && old(self).unchanged(*final(self)),
            loan_payment_id < old(self).loan_payments@.len() ==> {
                let p = Self::refreshed_payment(*old(self), *loan, loan_payment_id as int);
                &&& r == Ok::<LoanPayment, Error>(p)
                &&& p.due_date == old(self).loan_payments@[loan_payment_id as int].due_date
                &&& final(self).loan_payments@ == old(self).loan_payments@.update(
                    loan_payment_id as int,
                    p,
                )
                &&& final(self).accounts@ == old(self).accounts@
                &&& final(self).vaults@ == old(self).vaults@
                &&& final(self).bank_transactions@ == old(self).bank_transactions@
                &&& final(self).account_transactions@ == old(self).account_transactions@
                &&& final(self).loans@ == old(self).loans@
                &&& final(self).calendar == old(self).calendar
            },
    {
        let n = self.loan_payments.len();
        if loan_payment_id >= n as u64 {
            return Err(Error::RecordNotFound);
        }
        let i = loan_payment_id as usize;
        let today = self.calendar.current_date();
        let principal_due = loan.principal_due(today);
        let p0 = self.loan_payments[i];
        let p = LoanPayment { principal_due, interest_due: loan.accrued_interest, ..p0 };
        self.loan_payments[i] = p;
        Ok(p)
    }

    /// What `get_next_loan_payment` does.  When the loan has a pending
    /// payment, its dues are refreshed in place and its due date is left
    /// alone; when none is pending, the next payment is scheduled, unless
    /// its due date would pass maturity.  Nothing else changes.
    pub open spec fn get_next_effect(
        pre: Self,
        post: Self,
        loan: Loan,
        r: Result<LoanPayment, Error>,
    ) -> bool {
        let f = first_unpaid_from(pre.loan_payments@, loan.id, 0);
        if f >= 0 {
            let p = Self::refreshed_payment(pre, loan, f);
            &&& r == Ok::<LoanPayment, Error>(p)
            &&& p.due_date == pre.loan_payments@[f].due_date
            &&& !payment_is_paid(p)
            &&& post.loan_payments@ == pre.loan_payments@.update(f, p)
            &&& post.accounts@ == pre.accounts@
            &&& post.vaults@ == pre.vaults@
            &&& post.bank_transactions@ == pre.bank_transactions@
            &&& post.account_transactions@ == pre.account_transactions@
            &&& post.loans@ == pre.loans@
            &&& post.calendar == pre.calendar
        } else if date_le(Self::next_due_date(pre, loan), loan.maturity_date) {
            let p = Self::created_payment(pre, loan);
            &&& r == Ok::<LoanPayment, Error>(p)
            &&& !payment_is_paid(p)
            &&& p.loan_id == loan.id
            &&& post.loan_payments@ == pre.loan_payments@.push(p)
            &&& post.accounts@ == pre.accounts@
            &&& post.vaults@ == pre.vaults@
            &&& post.bank_transactions@ == pre.bank_transactions@
            &&& post.account_transactions@ == pre.account_transactions@
            &&& post.loans@ == pre.loans@
            &&& post.calendar == pre.calendar
        } else {
            r == Err::<LoanPayment, Error>(Error::InvalidDate) && pre.unchanged(post)
        }
    }

    /// Idempotent schedule accessor.  When the loan has a pending payment,
    /// its dues are refreshed and its due date is left alone; only when
    /// none is pending is the next payment scheduled.
    pub fn get_next_loan_payment(&mut self, loan: &Loan) -> (r: Result<LoanPayment, Error>)
        requires
            old(self).wf(),
            loan_valid(*loan),
        ensures
            final(self).wf(),
            Self::get_next_effect(*old(self), *final(self), *loan, r),
    {
        match self.find_first_unpaid_index(loan.id) {
            Some(i) => {
                proof {
                    lemma_first_unpaid_props(self.loan_payments@, loan.id, 0);
                }
                let pid = self.loan_payments[i].id;
                self.update_loan_payment(loan, pid)
            },
            None => self.create_next_loan_payment(loan),
        }
    }

    /// Accrues one flat month of interest on the loan: sets the stored
    /// loan's accrued interest to balance times the annual rate over
    /// twelve months (computed from the loan record handed in), and
    /// returns the updated loan.
    pub fn accrue(&mut self, loan: &Loan) -> (r: Result<Loan, Error>)
        requires
            old(self).wf(),
            loan_valid(*loan),
        ensures
            final(self).wf(),
            !old(self).has_loan(loan.id) ==> r == Err::<Loan, Error>(Error::RecordNotFound) && old(
                self,
            ).unchanged(*final(self)),
            old(self).has_loan(loan.id) ==> {
                let li = old(self).loan_index(loan.id);
                let l0 = old(self).loans@[li];
                let l1 = Loan { accrued_interest: spec_monthly_interest(*loan), ..l0 };
                &&& r == Ok::<Loan, Error>(l1)
                &&& final(self).loans@ == old(self).loans@.update(li, l1)
                &&& final(self).accounts@ == old(self).accounts@
                &&& final(self).vaults@ == old(self).vaults@
                &&& final(self).bank_transactions@ == old(self).bank_transactions@
                &&& final(self).account_transactions@ == old(self).account_transactions@
                &&& final(self).loan_payments@ == old(self).loan_payments@
                &&& final(self).calendar == old(self).calendar
            },
    {
        let interest = loan.monthly_interest();
        let li = match self.find_loan_index(loan.id) {
            Some(i) => i,
            None => {
                return Err(Error::RecordNotFound);
            },
        };
        self.loans[li].accrued_interest = interest;
        let updated = self.loans[li].duplicate();
        Ok(updated)
    }

    /// The lookups a payment application must complete: the payment, its
    /// loan, the paying account and the loan's vault.
    pub open spec fn pay_lookups_ok(self, loan_payment_id: Id, account_id: Id) -> bool {
        &&& loan_payment_id < self.loan_payments@.len()
        &&& self.has_loan(self.loan_payments@[loan_payment_id as int].loan_id)
        &&& self.has_account(account_id)
        &&& self.has_vault(
            self.loan_of(self.loan_payments@[loan_payment_id as int].loan_id).vault_name@,
        )
    }

    /// Principal plus interest owed under a payment record.
    pub open spec fn pay_total(self, loan_payment_id: Id) -> int {
        self.loan_payments@[loan_payment_id as int].principal_due + self.loan_payments@[
            loan_payment_id as int].interest_due
    }

    /// Everything a successful payment application changes, and nothing
    /// else: two audit records (principal then interest repayment), the
    /// account down and the vault up by the total, the loan's balance down
    /// by the total with the `Active` to `Paid` transition exactly on zero,
    /// and the payment stamped with both audit ids; `r` is the stamped
    /// payment.
    pub open spec fn pay_effect(
        pre: Self,
        post: Self,
        loan_payment_id: Id,
        account_id: Id,
        r: LoanPayment,
    ) -> bool {
        let p0 = pre.loan_payments@[loan_payment_id as int];
        let li = pre.loan_index(p0.loan_id);
        let l0 = pre.loans@[li];
        let ai = pre.account_index(account_id);
        let a0 = pre.accounts@[ai];
        let vi = pre.vault_index(l0.vault_name@);
        let v0 = pre.vaults@[vi];
        let total = p0.principal_due + p0.interest_due;
        let n = pre.bank_transactions@.len() as int;
        let new_balance = (l0.balance - total) as Money;
        let ts = pre.calendar.spec_current_date();
        &&& Self::bank_txn_recorded(
            pre.bank_transactions@,
            post.bank_transactions@.take(n + 1),
            account_id,
            l0.vault_name@,
            BankTransactionType::PrincipalRepayment,
            p0.principal_due,
            ts,
        )
        &&& Self::bank_txn_recorded(
            post.bank_transactions@.take(n + 1),
            post.bank_transactions@,
            account_id,
            l0.vault_name@,
            BankTransactionType::InterestRepayment,
            p0.interest_due,
            ts,
        )
        &&& post.accounts@ == pre.accounts@.update(
            ai,
            (Account { balance: (a0.balance - total) as Money, ..a0 }),
        )
        &&& post.vaults@ == pre.vaults@.update(
            vi,
            (Vault { balance: (v0.balance + total) as i128, ..v0 }),
        )
        &&& post.loans@ == pre.loans@.update(
            li,
            (Loan {
                balance: new_balance,
                state: if new_balance == 0 {
                    LoanState::Paid
                } else {
                    l0.state
                },
                ..l0
            }),
        )
        &&& r == (LoanPayment {
            principal_transaction_id: Some(n as Id),
            interest_transaction_id: Some((n + 1) as Id),
            ..p0
        })
        &&& post.loan_payments@ == pre.loan_payments@.update(loan_payment_id as int, r)
        &&& post.account_transactions@ == pre.account_transactions@
        &&& post.calendar == pre.calendar
    }

    /// Applies a due payment from an account.  Atomically: records a
    /// principal-repayment and an interest-repayment audit entry, moves
    /// principal plus interest from the account into the loan's vault,
    /// reduces the loan's balance by exactly that total, stamps the
    /// payment with both audit ids, and transitions the loan to `Paid`
    /// exactly when the resulting balance is zero.
    pub fn pay_loan_payment_due(&mut self, loan_payment_id: Id, account_id: Id) -> (r: Result<
        LoanPayment,
        Error,
    >)
        requires
            old(self).wf(),
            loan_payment_id < old(self).loan_payments@.len() ==> old(self).pay_total(
                loan_payment_id,
            ) <= u64::MAX,
            old(self).pay_lookups_ok(loan_payment_id, account_id) ==> {
                let loan_id = old(self).loan_payments@[loan_payment_id as int].loan_id;
                &&& old(self).loan_of(loan_id).balance >= old(self).pay_total(loan_payment_id)
                &&& old(self).vault_of(old(self).loan_of(loan_id).vault_name@).balance + old(
                    self,
                ).pay_total(loan_payment_id) <= i128::MAX
            },
        ensures
            final(self).wf(),
            !old(self).pay_lookups_ok(loan_payment_id, account_id) ==> r == Err::<
                LoanPayment,
                Error,
            >(Error::RecordNotFound) && old(self).unchanged(*final(self)),
            old(self).pay_lookups_ok(loan_payment_id, account_id) && old(self).account_of(
                account_id,
            ).balance < old(self).pay_total(loan_payment_id) ==> r == Err::<LoanPayment, Error>(
                Error::InadequateFunds,
            ) && old(self).unchanged(*final(self)),
            old(self).pay_lookups_ok(loan_payment_id, account_id) && old(self).account_of(
                account_id,
            ).balance >= old(self).pay_total(loan_payment_id) ==> (r matches Ok(p)
                && Self::pay_effect(*old(self), *final(self), loan_payment_id, account_id, p)),
            // The loan's balance shrinks by exactly principal plus
            // interest, and an `Active` loan becomes `Paid` exactly when
            // the resulting balance is zero.
            old(self).pay_lookups_ok(loan_payment_id, account_id) && old(self).account_of(
                account_id,
            ).balance >= old(self).pay_total(loan_payment_id) ==> {
                let loan_id = old(self).loan_payments@[loan_payment_id as int].loan_id;
                let l0 = old(self).loan_of(loan_id);
                let l1 = final(self).loan_of(loan_id);
                &&& final(self).has_loan(loan_id)
                &&& l1.balance == l0.balance - old(self).pay_total(loan_payment_id)
                &&& (l0.state is Active ==> ((l1.state is Paid) <==> l1.balance == 0))
            },
    {
        let n_payments = self.loan_payments.len();
        if loan_payment_id >= n_payments as u64 {
            return Err(Error::RecordNotFound);
        }
        let pi = loan_payment_id as usize;
        let p0 = self.loan_payments[pi];
        let li = match self.find_loan_index(p0.loan_id) {
            Some(i) => i,
            None => {
                return Err(Error::RecordNotFound);
            },
        };
        let ai = match self.find_account_index(account_id) {
            Some(i) => i,
            None => {
                return Err(Error::RecordNotFound);
            },
        };
        let vault_name_1 = self.loans[li].vault_name.clone();
        let vi = match self.find_vault_index(vault_name_1.as_str()) {
            Some(i) => i,
            None => {
                return Err(Error::RecordNotFound);
            },
        };
        let total = p0.principal_due + p0.interest_due;
        let a0 = self.accounts[ai];
        if a0.balance < total {
            return Err(Error::InadequateFunds);
        }
        let today = self.calendar.current_date();
        let n = self.bank_transactions.len() as u64;
        let vault_name_2 = self.loans[li].vault_name.clone();
        self.bank_transactions.push(
            BankTransaction {
                id: n,
                account_id,
                vault_name: vault_name_1,
                transaction_type: BankTransactionType::PrincipalRepayment,
                amount: p0.principal_due,
                timestamp: today,
            },
        );
        let n2 = self.bank_transactions.len() as u64;
        self.bank_transactions.push(
            BankTransaction {
                id: n2,
                account_id,
                vault_name: vault_name_2,
                transaction_type: BankTransactionType::InterestRepayment,
                amount: p0.interest_due,
                timestamp: today,
            },
        );
        self.accounts[ai] = Account { balance: a0.balance - total, ..a0 };
        let v0_balance = self.vaults[vi].balance;
        self.vaults[vi].balance = v0_balance + total as i128;
        let l0 = &self.loans[li];
        let new_balance = l0.balance - total;
        let l1 = Loan {
            id: l0.id,
            user_id: l0.user_id,
            vault_name: l0.vault_name.clone(),
            orig_principal: l0.orig_principal,
            balance: new_balance,
            accrued_interest: l0.accrued_interest,
            interest_rate: l0.interest_rate,
            payment_frequency: l0.payment_frequency,
            issue_date: l0.issue_date,
            maturity_date: l0.maturity_date,
            state: if new_balance == 0 {
                LoanState::Paid
            } else {
                l0.state
            },
        };
        self.loans[li] = l1;
        let p1 = LoanPayment {
            principal_transaction_id: Some(n),
            interest_transaction_id: Some(n2),
            ..p0
        };
        self.loan_payments[pi] = p1;
        proof {
            let pre = *old(self);
            let post = *self;
            post.lemma_loan_index_is(p0.loan_id, li as int);
        }
        Ok(p1)
    }
}

} // verus!
