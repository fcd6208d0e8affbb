use std::collections::HashMap;
use vstd::prelude::*;

use crate::disputed::{empty_set, set_contains, set_insert, set_remove, set_u32_items};
use crate::transaction::TransactionEnum;

verus! {

broadcast use vstd::std_specs::hash::group_hash_axioms;

/// Why a transaction was refused. A refused transaction leaves the account
/// exactly as it was.
#[derive(Clone, Copy, Debug, PartialEq, Eq, Structural)]
pub enum LedgerError {
    /// The account was frozen by an earlier chargeback.
    AccountFrozen,
    /// Fewer funds are available than the transaction needs.
    InsufficientFunds,
    /// The referenced transaction is not in the account's history.
    UnknownTransaction,
    /// The referenced transaction is already under dispute.
    AlreadyDisputed,
    /// The referenced transaction is not under dispute.
    NotDisputed,
    /// The deposit would take the total past what a `u64` can count.
    BalanceOverflow,
}

/// The abstract state of one account.
pub struct ClientView {
    pub available: int,
    pub held: int,
    pub total: int,
    /// Every deposit and withdrawal applied, by transaction id.
    pub history: Map<u32, (TransactionEnum, u64)>,
    /// The transactions currently under dispute.
    pub disputed: Set<u32>,
    pub frozen: bool,
}

/// The state of an account that has seen nothing yet.
pub open spec fn empty_client() -> ClientView {
    ClientView {
        available: 0,
        held: 0,
        total: 0,
        history: Map::empty(),
        disputed: Set::empty(),
        frozen: false,
    }
}

/// The invariants every account keeps between transactions.
pub open spec fn client_inv(c: ClientView) -> bool {
    &&& 0 <= c.available
    &&& 0 <= c.held
    &&& c.total == c.available + c.held
    &&& c.total <= u64::MAX
    &&& forall|id: u32| #[trigger] c.disputed.contains(id) ==> c.history.contains_key(id)
    &&& forall|id: u32| #[trigger]
        c.history.contains_key(id) ==> (c.history[id].0 == TransactionEnum::Deposit
            || c.history[id].0 == TransactionEnum::Withdrawal)
}

/// The transition table: the account after one transaction, or the reason
/// it is refused.
pub open spec fn apply_spec(c: ClientView, tx_id: u32, kind: TransactionEnum, amount: u64) -> Result<
    ClientView,
    LedgerError,
> {
    if c.frozen {
        Err(LedgerError::AccountFrozen)
    } else {
        match kind {
            TransactionEnum::Deposit => {
                if c.total + amount > u64::MAX {
                    Err(LedgerError::BalanceOverflow)
                } else {
                    Ok(
                        ClientView {
                            available: c.available + amount,
                            total: c.available + amount + c.held,
                            history: c.history.insert(tx_id, (kind, amount)),
                            ..c
                        },
                    )
                }
            },
            TransactionEnum::Withdrawal => {
                if c.available < amount {
                    Err(LedgerError::InsufficientFunds)
                } else {
                    Ok(
                        ClientView {
                            available: c.available - amount,
                            total: c.available - amount + c.held,
                            history: c.history.insert(tx_id, (kind, amount)),
                            ..c
                        },
                    )
                }
            },
            TransactionEnum::Dispute => {
                if !c.history.contains_key(tx_id) {
                    Err(LedgerError::UnknownTransaction)
                } else if c.disputed.contains(tx_id) {
                    Err(LedgerError::AlreadyDisputed)
                } else if c.available < c.history[tx_id].1 {
                    Err(LedgerError::InsufficientFunds)
                } else {
                    let v = c.history[tx_id].1;
                    Ok(
                        ClientView {
                            available: c.available - v,
                            held: c.held + v,
                            disputed: c.disputed.insert(tx_id),
                            ..c
                        },
                    )
                }
            },
            TransactionEnum::Resolve => {
                if !c.disputed.contains(tx_id) {
                    Err(LedgerError::NotDisputed)
                } else if c.history[tx_id].1 <= c.held {
                    let v = c.history[tx_id].1;
                    Ok(
                        ClientView {
                            available: c.available + v,
                            held: c.held - v,
                            disputed: c.disputed.remove(tx_id),
                            ..c
                        },
                    )
                } else {
                    Ok(c)
                }
            },
            TransactionEnum::Chargeback => {
                if !c.disputed.contains(tx_id) {
                    Err(LedgerError::NotDisputed)
                } else if c.history[tx_id].1 <= c.held {
                    let v = c.history[tx_id].1;
                    Ok(
                        ClientView {
                            held: c.held - v,
                            total: c.total - v,
                            disputed: c.disputed.remove(tx_id),
                            frozen: true,
                            ..c
                        },
                    )
                } else {
                    Ok(c)
                }
            },
        }
    }
}

/// The account after a transaction: the new state, or the old one when the
/// transaction is refused.
pub open spec fn after_spec(c: ClientView, tx_id: u32, kind: TransactionEnum, amount: u64) -> ClientView {
    match apply_spec(c, tx_id, kind, amount) {
        Ok(n) => n,
        Err(_) => c,
    }
}

/// One client's account: balances, history, disputes and the frozen flag.
pub struct Client {
    balance_available: u64,
    balance_held: u64,
    balance_total: u64,
    transactions: HashMap<u32, (TransactionEnum, u64)>,
    disputed_tx: tinyset::SetU32,
    frozen: bool,
}

impl View for Client {
    type V = ClientView;

    closed spec fn view(&self) -> ClientView {
        ClientView {
            available: self.balance_available as int,
            held: self.balance_held as int,
            total: self.balance_total as int,
            history: self.transactions@,
            disputed: set_u32_items(self.disputed_tx),
            frozen: self.frozen,
        }
    }
}

impl Client {
    /// The account invariants hold.
    pub open spec fn wf(&self) -> bool {
        client_inv(self@)
    }

    /// Opens an account on its first transaction.
    ///
    /// A deposit opens it with that amount; any other kind opens it with
    /// zero balances. Either way the transaction then goes through the same
    /// rules as on an existing account, so the state is that of an empty
    /// account after the transaction.
    pub fn new(tx_id: u32, tx_type: TransactionEnum, tx_amount: u64) -> (r: Client)
        ensures
            r.wf(),
            r@ == after_spec(empty_client(), tx_id, tx_type, tx_amount),
            tx_type == TransactionEnum::Deposit ==> r@.available == tx_amount && r@.held == 0
                && r@.total == tx_amount,
    {
        let mut client = Client::default();
        let _ = client.process_tx(tx_id, tx_type, tx_amount);
        client
    }

    /// Fails with `AccountFrozen` when the account is frozen.
    pub fn account_frozen(&self, tx_id: u32) -> (r: Result<bool, LedgerError>)
        ensures
            r == (if self@.frozen {
                Err::<bool, LedgerError>(LedgerError::AccountFrozen)
            } else {
                Ok(false)
            }),
    {
        if self.frozen {
            Err(LedgerError::AccountFrozen)
        } else {
            Ok(false)
        }
    }

    /// Records a deposit or withdrawal in the history.
    fn chain_tx(&mut self, tx_id: u32, tx_type: TransactionEnum, tx_amount: u64)
        ensures
            final(self)@ == (ClientView {
                history: old(self)@.history.insert(tx_id, (tx_type, tx_amount)),
                ..old(self)@
            }),
    {
        self.transactions.insert(tx_id, (tx_type, tx_amount));
    }

    /// Succeeds when at least `tx_amount` is available.
    pub fn sufficient_funds(&self, tx_amount: u64) -> (r: Result<(), LedgerError>)
        ensures
            r == (if self@.available >= tx_amount {
                Ok::<(), LedgerError>(())
            } else {
                Err(LedgerError::InsufficientFunds)
            }),
    {
        if self.balance_available >= tx_amount {
            Ok(())
        } else {
            Err(LedgerError::InsufficientFunds)
        }
    }

    /// Succeeds when the dispute status of `tx_id` is `status`; otherwise
    /// fails with `AlreadyDisputed` (when an undisputed one was wanted) or
    /// `NotDisputed`.
    pub fn disputed_status(&self, tx_id: u32, status: bool) -> (r: Result<(), LedgerError>)
        ensures
            r == (if self@.disputed.contains(tx_id) == status {
                Ok::<(), LedgerError>(())
            } else if status {
                Err(LedgerError::NotDisputed)
            } else {
                Err(LedgerError::AlreadyDisputed)
            }),
    {
        if set_contains(&self.disputed_tx, tx_id) == status {
            Ok(())
        } else if status {
            Err(LedgerError::NotDisputed)
        } else {
            Err(LedgerError::AlreadyDisputed)
        }
    }

    /// The amount of a deposit or withdrawal in the history, or
    /// `UnknownTransaction`.
    pub fn get_tx_val(&self, tx_id: u32) -> (r: Result<u64, LedgerError>)
        ensures
            r == (if self@.history.contains_key(tx_id) {
                Ok::<u64, LedgerError>(self@.history[tx_id].1)
            } else {
                Err(LedgerError::UnknownTransaction)
            }),
    {
        match self.transactions.get(&tx_id) {
            Some(entry) => Ok(entry.1),
            None => Err(LedgerError::UnknownTransaction),
        }
    }

    /// Applies one transaction to the account.
    ///
    /// On success the account moves to the state the transition table
    /// gives; on failure it is left unchanged. A frozen account refuses
    /// everything and stays frozen.
    pub fn process_tx(&mut self, tx_id: u32, tx_type: TransactionEnum, tx_amount: u64) -> (r: Result<
        (),
        LedgerError,
    >)
        requires
            old(self).wf(),
        ensures
            final(self).wf(),
            match apply_spec(old(self)@, tx_id, tx_type, tx_amount) {
                Ok(n) => r is Ok && final(self)@ == n,
                Err(e) => r == Err::<(), LedgerError>(e) && final(self)@ == old(self)@,
            },
            old(self)@.frozen ==> final(self)@.frozen,
    {
        match self.account_frozen(tx_id) {
            Err(e) => return Err(e),
            Ok(_) => {},
        }
        match tx_type {
            TransactionEnum::Deposit => {
                if tx_amount > u64::MAX - self.balance_total {
                    return Err(LedgerError::BalanceOverflow);
                }
                self.balance_available = self.balance_available + tx_amount;
                self.balance_total = self.balance_available + self.balance_held;
                self.chain_tx(tx_id, tx_type, tx_amount);
            },
            TransactionEnum::Withdrawal => {
                match self.sufficient_funds(tx_amount) {
                    Err(e) => return Err(e),
                    Ok(_) => {},
                }
                self.balance_available = self.balance_available - tx_amount;
                self.balance_total = self.balance_available + self.balance_held;
                self.chain_tx(tx_id, tx_type, tx_amount);
            },
            TransactionEnum::Dispute => {
                let disputed_val = match self.get_tx_val(tx_id) {
                    Err(e) => return Err(e),
                    Ok(v) => v,
                };
                match self.disputed_status(tx_id, false) {
                    Err(e) => return Err(e),
                    Ok(_) => {},
                }
                match self.sufficient_funds(disputed_val) {
                    Err(e) => return Err(e),
                    Ok(_) => {},
                }
                self.balance_available = self.balance_available - disputed_val;
                self.balance_held = self.balance_held + disputed_val;
                set_insert(&mut self.disputed_tx, tx_id);
            },
            TransactionEnum::Resolve => {
                match self.disputed_status(tx_id, true) {
                    Err(e) => return Err(e),
                    Ok(_) => {},
                }
                let disputed_val = match self.get_tx_val(tx_id) {
                    Err(e) => return Err(e),
                    Ok(v) => v,
                };
                if disputed_val <= self.balance_held {
                    self.balance_available = self.balance_available + disputed_val;
                    self.balance_held = self.balance_held - disputed_val;
                    set_remove(&mut self.disputed_tx, tx_id);
                }
            },
            TransactionEnum::Chargeback => {
                match self.disputed_status(tx_id, true) {
                    Err(e) => return Err(e),
                    Ok(_) => {},
                }
                let disputed_val = match self.get_tx_val(tx_id) {
                    Err(e) => return Err(e),
                    Ok(v) => v,
                };
                if disputed_val <= self.balance_held {
                    self.frozen = true;
                    self.balance_held = self.balance_held - disputed_val;
                    self.balance_total = self.balance_total - disputed_val;
                    set_remove(&mut self.disputed_tx, tx_id);
                }
            },
        }
        Ok(())
    }
}

impl Client {
    /// The output row of this account, reported under `client_id`: the id,
    /// the three balances with four fractional digits, and whether it is
    /// frozen.
    pub fn get_info(&self, client_id: u16) -> (r: Vec<Vec<u8>>)
        requires
            self.wf(),
        ensures
            r.deep_view() == crate::record::row_spec(
                (crate::process::Snapshot {
                    client_id,
                    available: self@.available as u64,
                    held: self@.held as u64,
                    total: self@.total as u64,
                    frozen: self@.frozen,
                }),
            ),
    {
        let s = self.snapshot(client_id);
        crate::record::format_row(&s)
    }

    /// The final balances of this account, reported under `client_id`.
    pub fn snapshot(&self, client_id: u16) -> (r: crate::process::Snapshot)
        ensures
            crate::process::snapshot_of(r, client_id, self@),
    {
        crate::process::Snapshot {
            client_id,
            available: self.balance_available,
            held: self.balance_held,
            total: self.balance_total,
            frozen: self.frozen,
        }
    }
}

impl Default for Client {
    /// An account with nothing in it.
    fn default() -> (r: Client)
        ensures
            r@ == empty_client(),
            r.wf(),
    {
        let r = Client {
            balance_available: 0,
            balance_held: 0,
            balance_total: 0,
            transactions: HashMap::new(),
            disputed_tx: empty_set(),
            frozen: false,
        };
        proof {
            assert(r@.history =~= Map::<u32, (TransactionEnum, u64)>::empty());
        }
        r
    }
}

} // verus!
