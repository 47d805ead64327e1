//! Cross-operation laws of the service, proved from the operations'
//! contracts alone.

use vstd::prelude::*;
use crate::date::{date_valid, date_lt, spec_add_months, MAX_FREQUENCY, lemma_add_months_strictly_later, lemma_date_lt_trans};
use crate::domain::{Id, Account, Money, BankTransaction, BankTransactionType, LoanPayment, Loan, loan_valid, payment_is_paid};
use crate::service::{Service, Calendar, first_unpaid_from, last_paid_before, lemma_first_unpaid_props, lemma_last_paid_props};

verus! {

/// The first-pending search finds no pending payment of the loan before
/// the position it answers with, and none at all when it answers -1.
proof fn lemma_first_unpaid_none_before(s: Seq<LoanPayment>, loan_id: Id, i: int, j: int)
    requires
        0 <= i <= j < s.len(),
        first_unpaid_from(s, loan_id, i) < 0 || j < first_unpaid_from(s, loan_id, i),
    ensures
        !(s[j].loan_id == loan_id && !payment_is_paid(s[j])),
    decreases j - i,
{
    if i < j {
        if !(s[i].loan_id == loan_id && !payment_is_paid(s[i])) {
            lemma_first_unpaid_none_before(s, loan_id, i + 1, j);
        }
    }
}

/// A position that holds a pending payment of the loan, with no pending
/// payment of the loan before it, is where the first-pending search lands.
proof fn lemma_first_unpaid_is(s: Seq<LoanPayment>, loan_id: Id, i: int, f: int)
    requires
        0 <= i <= f < s.len(),
        s[f].loan_id == loan_id && !payment_is_paid(s[f]),
        forall|j: int| i <= j < f ==> !((#[trigger] s[j]).loan_id == loan_id && !payment_is_paid(s[j])),
    ensures
        first_unpaid_from(s, loan_id, i) == f,
    decreases f - i,
{
    if i < f {
        lemma_first_unpaid_is(s, loan_id, i + 1, f);
    }
}

/// Calling `get_next_loan_payment` twice, with no payment applied in
/// between, yields the same due date both times: the second call only
/// refreshes the dues of the payment the first call returned.
pub proof fn lemma_get_next_idempotent_due_date<C: Calendar>(
    s0: Service<C>,
    s1: Service<C>,
    s2: Service<C>,
    loan: Loan,
    r1: LoanPayment,
    r2: LoanPayment,
)
    requires
        Service::get_next_effect(s0, s1, loan, Ok(r1)),
        Service::get_next_effect(s1, s2, loan, Ok(r2)),
    ensures
        r2.due_date == r1.due_date,
        r2.id == r1.id,
        r2.loan_id == r1.loan_id,
{
    let ps0 = s0.loan_payments@;
    let ps1 = s1.loan_payments@;
    let f0 = first_unpaid_from(ps0, loan.id, 0);
    if f0 >= 0 {
        lemma_first_unpaid_props(ps0, loan.id, 0);
        assert(ps1 == ps0.update(f0, r1));
        assert forall|j: int| 0 <= j < f0 implies !((#[trigger] ps1[j]).loan_id == loan.id
            && !payment_is_paid(ps1[j])) by {
            lemma_first_unpaid_none_before(ps0, loan.id, 0, j);
        }
        lemma_first_unpaid_is(ps1, loan.id, 0, f0);
        assert(first_unpaid_from(ps1, loan.id, 0) == f0);
        assert(r2.due_date == ps1[f0].due_date);
    } else {
        let n0 = ps0.len() as int;
        assert(ps1 == ps0.push(r1));
        assert(ps1[n0] == r1);
        assert forall|j: int| 0 <= j < n0 implies !((#[trigger] ps1[j]).loan_id == loan.id
            && !payment_is_paid(ps1[j])) by {
            lemma_first_unpaid_none_before(ps0, loan.id, 0, j);
        }
        lemma_first_unpaid_is(ps1, loan.id, 0, n0);
        assert(first_unpaid_from(ps1, loan.id, 0) == n0);
        assert(r2.due_date == ps1[n0].due_date);
    }
}

/// Between two positions of a schedule whose consecutive due dates each
/// advance by the payment frequency, the later due date is strictly later.
proof fn lemma_schedule_step(ps: Seq<LoanPayment>, freq: u32, i: int, j: int)
    requires
        1 <= freq <= MAX_FREQUENCY,
        forall|k: int| 0 <= k < ps.len() ==> date_valid((#[trigger] ps[k]).due_date),
        forall|k: int|
            0 <= k < ps.len() - 1 ==> ps[k + 1].due_date == spec_add_months(
                (#[trigger] ps[k]).due_date,
                freq as int,
            ),
        0 <= i < j < ps.len(),
    ensures
        date_lt(ps[i].due_date, ps[j].due_date),
    decreases j - i,
{
    lemma_add_months_strictly_later(ps[j - 1].due_date, freq as int);
    assert(ps[(j - 1) + 1].due_date == spec_add_months(ps[j - 1].due_date, freq as int));
    if i < j - 1 {
        lemma_schedule_step(ps, freq, i, j - 1);
        lemma_date_lt_trans(ps[i].due_date, ps[j - 1].due_date, ps[j].due_date);
    }
}

/// Across consecutive scheduled payments, each advanced from the one
/// before by the loan's payment frequency in months, due dates strictly
/// increase.
pub proof fn lemma_schedule_due_dates_increase(ps: Seq<LoanPayment>, freq: u32)
    requires
        1 <= freq <= MAX_FREQUENCY,
        forall|k: int| 0 <= k < ps.len() ==> date_valid((#[trigger] ps[k]).due_date),
        forall|k: int|
            0 <= k < ps.len() - 1 ==> ps[k + 1].due_date == spec_add_months(
                (#[trigger] ps[k]).due_date,
                freq as int,
            ),
    ensures
        forall|i: int, j: int| 0 <= i < j < ps.len() ==> date_lt(
            (#[trigger] ps[i]).due_date,
            (#[trigger] ps[j]).due_date,
        ),
{
    assert forall|i: int, j: int| 0 <= i < j < ps.len() implies date_lt(
        (#[trigger] ps[i]).due_date,
        (#[trigger] ps[j]).due_date,
    ) by {
        lemma_schedule_step(ps, freq, i, j);
    }
}

/// A position that holds a settled payment of the loan, with no settled
/// payment of the loan at or after the next position, is where the
/// last-settled search lands.
proof fn lemma_last_paid_is(s: Seq<LoanPayment>, loan_id: Id, l: int, i: int)
    requires
        0 <= l < i <= s.len(),
        s[l].loan_id == loan_id && payment_is_paid(s[l]),
        forall|j: int|
            l < j < i ==> !((#[trigger] s[j]).loan_id == loan_id && payment_is_paid(s[j])),
    ensures
        last_paid_before(s, loan_id, i) == l,
    decreases i,
{
    if l < i - 1 {
        lemma_last_paid_is(s, loan_id, l, i - 1);
    }
}

/// Applying a payment makes it the loan's last settled payment, provided
/// no later schedule entry of the loan was already settled.  Together with
/// the schedule step this is what drives due dates forward: the next
/// payment scheduled after this one advances from its due date.
pub proof fn lemma_pay_sets_last_paid<C: Calendar>(
    s0: Service<C>,
    s1: Service<C>,
    loan_payment_id: Id,
    account_id: Id,
    p: LoanPayment,
)
    requires
        s0.wf(),
        s0.pay_lookups_ok(loan_payment_id, account_id),
        Service::pay_effect(s0, s1, loan_payment_id, account_id, p),
        forall|j: int|
            loan_payment_id < j < s0.loan_payments@.len() ==> !((#[trigger] s0.loan_payments@[j]).loan_id
                == s0.loan_payments@[loan_payment_id as int].loan_id && payment_is_paid(
                s0.loan_payments@[j],
            )),
    ensures
        last_paid_before(
            s1.loan_payments@,
            s0.loan_payments@[loan_payment_id as int].loan_id,
            s1.loan_payments@.len() as int,
        ) == loan_payment_id,
{
    let loan_id = s0.loan_payments@[loan_payment_id as int].loan_id;
    let ps1 = s1.loan_payments@;
    let pid = loan_payment_id as int;
    assert(ps1 == s0.loan_payments@.update(pid, p));
    assert(ps1[pid].loan_id == loan_id && payment_is_paid(ps1[pid]));
    assert forall|j: int| pid < j < ps1.len() implies !((#[trigger] ps1[j]).loan_id == loan_id
        && payment_is_paid(ps1[j])) by {
        assert(ps1[j] == s0.loan_payments@[j]);
    }
    lemma_last_paid_is(ps1, loan_id, pid, ps1.len() as int);
}

/// Signed contribution of one audit record to its vault's balance: a
/// withdrawal draws the vault down, every other movement feeds it.
pub open spec fn txn_vault_delta(t: BankTransaction) -> int {
    match t.transaction_type {
        BankTransactionType::Withdraw => -(t.amount as int),
        _ => t.amount as int,
    }
}

/// Sum of the contributions the first `n` audit records make to the named
/// vault.
pub open spec fn vault_delta_sum(s: Seq<BankTransaction>, name: Seq<char>, n: int) -> int
    decreases n,
{
    if n <= 0 || n > s.len() {
        0
    } else {
        vault_delta_sum(s, name, n - 1) + if s[n - 1].vault_name@ == name {
            txn_vault_delta(s[n - 1])
        } else {
            0
        }
    }
}

/// Audit trails that agree record for record contribute the same sum.
proof fn lemma_vault_delta_sum_congruent(
    s0: Seq<BankTransaction>,
    s1: Seq<BankTransaction>,
    name: Seq<char>,
    n: int,
)
    requires
        0 <= n <= s0.len(),
        n <= s1.len(),
        forall|i: int| 0 <= i < n ==> s0[i] == s1[i],
    ensures
        vault_delta_sum(s0, name, n) == vault_delta_sum(s1, name, n),
    decreases n,
{
    if n > 0 {
        lemma_vault_delta_sum_congruent(s0, s1, name, n - 1);
    }
}

/// Conservation under deposits: a successful deposit grows both the vault
/// and the vault's audit-trail sum by the deposited amount, so the two
/// move in step.
pub proof fn lemma_deposit_conserves_vault<C: Calendar>(
    s0: Service<C>,
    s1: Service<C>,
    account_id: Id,
    name: Seq<char>,
    amount: Money,
    a: Account,
)
    requires
        s0.wf(),
        s0.has_account(account_id),
        s0.has_vault(name),
        s0.vault_of(name).balance + amount <= i128::MAX,
        Service::deposit_effect(s0, s1, account_id, name, amount, a),
    ensures
        vault_delta_sum(s1.bank_transactions@, name, s1.bank_transactions@.len() as int)
            == vault_delta_sum(s0.bank_transactions@, name, s0.bank_transactions@.len() as int)
            + amount,
        s1.vaults@[s0.vault_index(name)].balance == s0.vault_of(name).balance + amount,
{
    let n0 = s0.bank_transactions@.len() as int;
    lemma_vault_delta_sum_congruent(s1.bank_transactions@, s0.bank_transactions@, name, n0);
    assert(s1.bank_transactions@[n0] == s1.bank_transactions@.last());
    assert(vault_delta_sum(s1.bank_transactions@, name, n0 + 1) == vault_delta_sum(
        s1.bank_transactions@,
        name,
        n0,
    ) + txn_vault_delta(s1.bank_transactions@[n0]));
}

/// Conservation under withdrawals: a successful withdrawal shrinks both
/// the vault and the vault's audit-trail sum by the withdrawn amount.
pub proof fn lemma_withdraw_conserves_vault<C: Calendar>(
    s0: Service<C>,
    s1: Service<C>,
    account_id: Id,
    name: Seq<char>,
    amount: Money,
    a: Account,
)
    requires
        s0.wf(),
        s0.has_account(account_id),
        s0.has_vault(name),
        s0.vault_of(name).balance - amount >= i128::MIN,
        Service::withdraw_effect(s0, s1, account_id, name, amount, a),
    ensures
        vault_delta_sum(s1.bank_transactions@, name, s1.bank_transactions@.len() as int)
            == vault_delta_sum(s0.bank_transactions@, name, s0.bank_transactions@.len() as int)
            - amount,
        s1.vaults@[s0.vault_index(name)].balance == s0.vault_of(name).balance - amount,
{
    let n0 = s0.bank_transactions@.len() as int;
    lemma_vault_delta_sum_congruent(s1.bank_transactions@, s0.bank_transactions@, name, n0);
    assert(s1.bank_transactions@[n0] == s1.bank_transactions@.last());
    assert(vault_delta_sum(s1.bank_transactions@, name, n0 + 1) == vault_delta_sum(
        s1.bank_transactions@,
        name,
        n0,
    ) + txn_vault_delta(s1.bank_transactions@[n0]));
}

/// The next payment a schedule step would create is due exactly one
/// payment frequency after the loan's last settled payment, and strictly
/// after it.
pub proof fn lemma_next_due_after_last_paid<C: Calendar>(s: Service<C>, loan: Loan)
    requires
        s.wf(),
        loan_valid(loan),
        last_paid_before(s.loan_payments@, loan.id, s.loan_payments@.len() as int) >= 0,
    ensures
        ({
            let l = last_paid_before(s.loan_payments@, loan.id, s.loan_payments@.len() as int);
            &&& Service::next_due_date(s, loan) == spec_add_months(
                s.loan_payments@[l].due_date,
                loan.payment_frequency as int,
            )
            &&& date_lt(s.loan_payments@[l].due_date, Service::next_due_date(s, loan))
        }),
{
    let n = s.loan_payments@.len() as int;
    let l = last_paid_before(s.loan_payments@, loan.id, n);
    lemma_last_paid_props(s.loan_payments@, loan.id, n);
    lemma_add_months_strictly_later(s.loan_payments@[l].due_date, loan.payment_frequency as int);
}

} // verus!
