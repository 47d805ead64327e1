//! Transactional core of a ledger / loan-servicing backend.
//!
//! The library models the bank's persisted entities (accounts, vaults,
//! audit transactions, loans, payment schedules) as plain values and
//! verifies the service layer that mutates them: deposits, withdrawals,
//! peer transfers, loan disbursement, interest accrual, payment-schedule
//! generation and payment application.  Every multi-entity mutation is
//! all-or-nothing: either the operation succeeds and the contract pins
//! each changed entity, or it fails and the state is unchanged.

pub mod date;
pub mod domain;
pub mod service;
pub mod laws;
