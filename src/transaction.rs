use vstd::prelude::*;

verus! {

/// The five kinds of transaction an account can receive.
#[derive(Clone, Copy, Debug, PartialEq, Eq, Structural)]
pub enum TransactionEnum {
    Deposit,
    Withdrawal,
    Dispute,
    Resolve,
    Chargeback,
}

/// One input event.
///
/// `tx_amount` is in ten-thousandths of a unit; it is zero for the kinds
/// that only reference an earlier transaction.
#[derive(Clone, Copy, Debug, PartialEq, Eq, Structural)]
pub struct Transaction {
    pub tx_type: TransactionEnum,
    pub client_id: u16,
    pub tx_id: u32,
    pub tx_amount: u64,
}

} // verus!
