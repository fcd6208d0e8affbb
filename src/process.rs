use std::collections::HashMap;
use vstd::prelude::*;

use crate::client::{after_spec, apply_spec, empty_client, Client, ClientView, LedgerError};
use crate::transaction::Transaction;

verus! {

broadcast use vstd::std_specs::hash::group_hash_axioms;

/// The final balances of one account.
#[derive(Clone, Copy, Debug, PartialEq, Eq, Structural)]
pub struct Snapshot {
    pub client_id: u16,
    pub available: u64,
    pub held: u64,
    pub total: u64,
    pub frozen: bool,
}

/// Whether `s` reports account `id` in state `c`.
pub open spec fn snapshot_of(s: Snapshot, id: u16, c: ClientView) -> bool {
    &&& s.client_id == id
    &&& s.available == c.available
    &&& s.held == c.held
    &&& s.total == c.total
    &&& s.frozen == c.frozen
}

/// The accounts after the transaction `tx`: the account it names is opened
/// when missing, and then takes the transaction (or keeps its state when
/// the transaction is refused).
pub open spec fn route_spec(accounts: Map<u16, ClientView>, tx: Transaction) -> Map<u16, ClientView> {
    let base = if accounts.contains_key(tx.client_id) {
        accounts[tx.client_id]
    } else {
        empty_client()
    };
    accounts.insert(tx.client_id, after_spec(base, tx.tx_id, tx.tx_type, tx.tx_amount))
}

/// The accounts after the transactions `txs`, applied in order.
pub open spec fn route_all(accounts: Map<u16, ClientView>, txs: Seq<Transaction>) -> Map<
    u16,
    ClientView,
>
    decreases txs.len(),
{
    if txs.len() == 0 {
        accounts
    } else {
        route_spec(route_all(accounts, txs.drop_last()), txs.last())
    }
}

/// The ledger registry: one account per client id, owned by a single
/// worker that applies transactions in the order they arrive.
pub struct ProcessTransactionsTask {
    clients: HashMap<u16, Client>,
    /// Client ids in the order their accounts were opened.
    order: Vec<u16>,
}

impl ProcessTransactionsTask {
    /// The accounts, by client id.
    pub closed spec fn accounts(&self) -> Map<u16, ClientView> {
        Map::new(|k: u16| self.clients@.contains_key(k), |k: u16| self.clients@[k]@)
    }

    /// The client ids, in the order their accounts were opened.
    pub closed spec fn client_ids(&self) -> Seq<u16> {
        self.order@
    }

    /// Each account keeps its invariants, and the ids list each account once.
    pub closed spec fn wf(&self) -> bool {
        &&& forall|k: u16| #[trigger] self.clients@.contains_key(k) ==> self.clients@[k].wf()
        &&& self.order@.no_duplicates()
        &&& forall|k: u16| #[trigger] self.clients@.contains_key(k) <==> self.order@.contains(k)
    }

    /// What callers may rely on of a well-formed registry.
    pub proof fn lemma_wf(&self)
        requires
            self.wf(),
        ensures
            self.client_ids().no_duplicates(),
            forall|k: u16| #[trigger]
                self.accounts().contains_key(k) <==> self.client_ids().contains(k),
            forall|k: u16| #[trigger]
                self.accounts().contains_key(k) ==> super::client::client_inv(self.accounts()[k]),
    {
    }

    /// A registry with no accounts.
    pub fn new() -> (r: ProcessTransactionsTask)
        ensures
            r.wf(),
            r.accounts() == Map::<u16, ClientView>::empty(),
            r.client_ids() == Seq::<u16>::empty(),
    {
        let r = ProcessTransactionsTask { clients: HashMap::new(), order: Vec::new() };
        assert(r.accounts() =~= Map::<u16, ClientView>::empty());
        r
    }

    /// Routes one transaction to its client's account, opening the account
    /// on the client's first transaction, and applies it there.
    ///
    /// A refused transaction leaves every account as it was (a new account
    /// is still opened) and does not stop later ones.
    pub fn process_tx(&mut self, tx: Transaction) -> (r: Result<(), LedgerError>)
        requires
            old(self).wf(),
        ensures
            final(self).wf(),
            final(self).accounts() == route_spec(old(self).accounts(), tx),
            ({
                let base = if old(self).accounts().contains_key(tx.client_id) {
                    old(self).accounts()[tx.client_id]
                } else {
                    empty_client()
                };
                match apply_spec(base, tx.tx_id, tx.tx_type, tx.tx_amount) {
                    Ok(_) => r is Ok,
                    Err(e) => r == Err::<(), LedgerError>(e),
                }
            }),
            final(self).client_ids() == (if old(self).accounts().contains_key(tx.client_id) {
                old(self).client_ids()
            } else {
                old(self).client_ids().push(tx.client_id)
            }),
    {
        let id = tx.client_id;
        let ghost old_clients = self.clients@;
        let mut client = match self.clients.remove(&id) {
            Some(c) => c,
            None => {
                proof {
                    assert(!self.order@.contains(id));
                }
                self.order.push(id);
                Client::default()
            },
        };
        let r = client.process_tx(tx.tx_id, tx.tx_type, tx.tx_amount);
        self.clients.insert(id, client);
        proof {
            assert(self.clients@ =~= old_clients.insert(id, client));
            assert(self.accounts() =~= route_spec(old(self).accounts(), tx));
            let o = old(self).order@;
            let n = self.order@;
            assert(n == o || (n == o.push(id) && !o.contains(id)));
            assert forall|k: u16| #[trigger]
                self.clients@.contains_key(k) <==> self.order@.contains(k) by {
                if k != id {
                    if o.contains(k) {
                        let i = choose|i: int| 0 <= i < o.len() && o[i] == k;
                        assert(n[i] == k);
                    }
                    if n.contains(k) {
                        let i = choose|i: int| 0 <= i < n.len() && n[i] == k;
                        assert(o[i] == k);
                    }
                } else {
                    if n == o {
                        assert(old_clients.contains_key(id));
                    } else {
                        assert(n[n.len() - 1] == id);
                    }
                }
            }
            assert(n.no_duplicates()) by {
                if n != o {
                    assert forall|i: int, j: int|
                        0 <= i < n.len() && 0 <= j < n.len() && i != j implies n[i] != n[j] by {
                        if i < o.len() && j < o.len() {
                        } else if i < o.len() {
                            assert(o.contains(o[i]));
                        } else {
                            assert(o.contains(o[j]));
                        }
                    }
                }
            }
        }
        r
    }

    /// Applies the transactions in the order given, then reports one
    /// snapshot per account. A refused transaction is dropped and the rest
    /// still apply.
    pub fn run(&mut self, txs: &Vec<Transaction>) -> (r: Vec<Snapshot>)
        requires
            old(self).wf(),
        ensures
            final(self).wf(),
            final(self).accounts() == route_all(old(self).accounts(), txs@),
            r@.len() == final(self).client_ids().len(),
            forall|i: int|
                0 <= i < r@.len() ==> snapshot_of(
                    #[trigger] r@[i],
                    final(self).client_ids()[i],
                    final(self).accounts()[final(self).client_ids()[i]],
                ),
    {
        let mut i: usize = 0;
        while i < txs.len()
            invariant
                self.wf(),
                0 <= i <= txs@.len(),
                self.accounts() == route_all(old(self).accounts(), txs@.take(i as int)),
            decreases txs@.len() - i,
        {
            let _ = self.process_tx(txs[i]);
            proof {
                assert(txs@.take(i + 1).drop_last() =~= txs@.take(i as int));
            }
            i = i + 1;
        }
        assert(txs@.take(txs@.len() as int) =~= txs@);
        self.send_acccount_balances()
    }

    /// One snapshot per account, in the order the accounts were opened.
    pub fn send_acccount_balances(&self) -> (r: Vec<Snapshot>)
        requires
            self.wf(),
        ensures
            r@.len() == self.client_ids().len(),
            forall|i: int|
                0 <= i < r@.len() ==> snapshot_of(
                    #[trigger] r@[i],
                    self.client_ids()[i],
                    self.accounts()[self.client_ids()[i]],
                ),
    {
        let mut out: Vec<Snapshot> = Vec::new();
        let mut i: usize = 0;
        while i < self.order.len()
            invariant
                self.wf(),
                0 <= i <= self.order@.len(),
                out@.len() == i,
                forall|j: int|
                    0 <= j < i ==> snapshot_of(
                        #[trigger] out@[j],
                        self.order@[j],
                        self.accounts()[self.order@[j]],
                    ),
            decreases self.order@.len() - i,
        {
            let id = self.order[i];
            assert(self.order@.contains(id));
            match self.clients.get(&id) {
                Some(c) => {
                    out.push(c.snapshot(id));
                },
                None => {
                    assert(false);
                },
            }
            i = i + 1;
        }
        out
    }
}

} // verus!
