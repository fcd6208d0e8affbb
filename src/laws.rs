//! Properties of the transition table that hold for every account.
use vstd::prelude::*;

use crate::client::{after_spec, apply_spec, client_inv, ClientView, LedgerError};
use crate::process::route_spec;
use crate::transaction::{Transaction, TransactionEnum};

verus! {

/// Every transaction, applied or refused, keeps the account invariants:
/// `total == available + held`, balances are not negative, and every
/// disputed id names a deposit or withdrawal of the history.
pub proof fn lemma_invariant_kept(c: ClientView, tx_id: u32, kind: TransactionEnum, amount: u64)
    requires
        client_inv(c),
    ensures
        client_inv(after_spec(c, tx_id, kind, amount)),
{
}

/// A frozen account refuses every transaction with `AccountFrozen`, and
/// stays frozen; a chargeback that goes through freezes the account.
pub proof fn lemma_frozen_is_final(c: ClientView, tx_id: u32, kind: TransactionEnum, amount: u64)
    ensures
        c.frozen ==> apply_spec(c, tx_id, kind, amount) == Err::<ClientView, LedgerError>(
            LedgerError::AccountFrozen,
        ),
        c.frozen ==> after_spec(c, tx_id, kind, amount) == c,
        c.frozen ==> after_spec(c, tx_id, kind, amount).frozen,
{
}

/// Resolving or charging back a transaction that is not under dispute
/// fails with `NotDisputed` and changes nothing.
pub proof fn lemma_resolve_needs_dispute(c: ClientView, tx_id: u32, amount: u64)
    requires
        !c.frozen,
        !c.disputed.contains(tx_id),
    ensures
        apply_spec(c, tx_id, TransactionEnum::Resolve, amount) == Err::<ClientView, LedgerError>(
            LedgerError::NotDisputed,
        ),
        apply_spec(c, tx_id, TransactionEnum::Chargeback, amount) == Err::<
            ClientView,
            LedgerError,
        >(LedgerError::NotDisputed),
        after_spec(c, tx_id, TransactionEnum::Resolve, amount) == c,
        after_spec(c, tx_id, TransactionEnum::Chargeback, amount) == c,
{
}

/// Disputing the same transaction a second time fails with
/// `AlreadyDisputed` and changes nothing.
pub proof fn lemma_dispute_twice(c: ClientView, tx_id: u32, a1: u64, a2: u64)
    requires
        apply_spec(c, tx_id, TransactionEnum::Dispute, a1) is Ok,
    ensures
        ({
            let d = after_spec(c, tx_id, TransactionEnum::Dispute, a1);
            &&& apply_spec(d, tx_id, TransactionEnum::Dispute, a2) == Err::<
                ClientView,
                LedgerError,
            >(LedgerError::AlreadyDisputed)
            &&& after_spec(d, tx_id, TransactionEnum::Dispute, a2) == d
        }),
{
}

/// A deposit followed by a withdrawal of the same amount brings
/// `available`, `held` and `total` back to where they were.
pub proof fn lemma_deposit_then_withdraw(c: ClientView, t1: u32, t2: u32, amount: u64)
    requires
        client_inv(c),
        !c.frozen,
        c.total + amount <= u64::MAX,
    ensures
        ({
            let d = after_spec(c, t1, TransactionEnum::Deposit, amount);
            let w = after_spec(d, t2, TransactionEnum::Withdrawal, amount);
            &&& apply_spec(d, t2, TransactionEnum::Withdrawal, amount) is Ok
            &&& w.available == c.available
            &&& w.held == c.held
            &&& w.total == c.total
        }),
{
}

/// A withdrawal of more than is available, a dispute of an unknown
/// transaction, and a dispute of more than is available each fail and
/// change nothing.
pub proof fn lemma_refusals(c: ClientView, tx_id: u32, amount: u64)
    requires
        !c.frozen,
    ensures
        amount > c.available ==> apply_spec(c, tx_id, TransactionEnum::Withdrawal, amount) == Err::<
            ClientView,
            LedgerError,
        >(LedgerError::InsufficientFunds),
        !c.history.contains_key(tx_id) ==> apply_spec(c, tx_id, TransactionEnum::Dispute, amount)
            == Err::<ClientView, LedgerError>(LedgerError::UnknownTransaction),
        c.history.contains_key(tx_id) && !c.disputed.contains(tx_id) && c.history[tx_id].1
            > c.available ==> apply_spec(c, tx_id, TransactionEnum::Dispute, amount) == Err::<
            ClientView,
            LedgerError,
        >(LedgerError::InsufficientFunds),
        apply_spec(c, tx_id, TransactionEnum::Withdrawal, amount) is Err ==> after_spec(
            c,
            tx_id,
            TransactionEnum::Withdrawal,
            amount,
        ) == c,
        apply_spec(c, tx_id, TransactionEnum::Dispute, amount) is Err ==> after_spec(
            c,
            tx_id,
            TransactionEnum::Dispute,
            amount,
        ) == c,
{
}

/// A transaction touches only the account of its own client: every other
/// account keeps its state, and no account disappears.
pub proof fn lemma_accounts_independent(accounts: Map<u16, ClientView>, tx: Transaction, k: u16)
    ensures
        route_spec(accounts, tx).contains_key(tx.client_id),
        accounts.contains_key(k) ==> route_spec(accounts, tx).contains_key(k),
        k != tx.client_id ==> (route_spec(accounts, tx).contains_key(k) == accounts.contains_key(k)),
        k != tx.client_id && accounts.contains_key(k) ==> route_spec(accounts, tx)[k]
            == accounts[k],
{
}

} // verus!
