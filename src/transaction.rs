use crate::amount::Amount;
use vstd::prelude::*;

verus! {

/// The kind of an input record.
#[derive(Clone, Copy, Debug, PartialEq, Eq, Structural)]
pub enum TransactionType {
    Deposit,
    Withdrawal,
    Dispute,
    Resolve,
    Chargeback,
}

impl TransactionType {
    /// Deposits and withdrawals carry their own amount and are kept for
    /// later reference; the other kinds refer back to one of them.
    pub open spec fn carries_amount(self) -> bool {
        self is Deposit || self is Withdrawal
    }
}

/// One decoded input record.
#[derive(Clone, Copy, Debug, PartialEq, Eq, Structural)]
pub struct Transaction {
    pub transaction_type: TransactionType,
    pub client: u16,
    pub tx: u32,
    pub amount: Option<Amount>,
}

impl Transaction {
    /// A deposit or withdrawal has an amount; any amount present is in range.
    pub open spec fn wf(self) -> bool {
        &&& self.transaction_type.carries_amount() ==> self.amount is Some
        &&& self.amount matches Some(a) ==> a.wf()
    }
}

/// Why a record could not be applied.
#[derive(Clone, Copy, Debug, PartialEq, Eq, Structural)]
pub enum TransactionError {
    /// A withdrawal exceeds the available funds.
    NotEnoughFunds,
    /// A dispute, resolve or chargeback names an unknown transaction.
    RefferencedTransactionDoesNotExist,
    /// A resolve or chargeback names a transaction that is not disputed.
    RefferencedTransactionIsNotDisputed,
    /// A dispute names a transaction that is already disputed.
    RefferencedTransactionIsDisputed,
    /// The account was charged back and accepts nothing more.
    AccountLocked,
    /// A balance would leave the representable range.
    Overflow,
}

pub open spec fn error_text(e: TransactionError) -> Seq<char> {
    match e {
        TransactionError::NotEnoughFunds => "Not enough funds to process transaction"@,
        TransactionError::RefferencedTransactionIsDisputed =>
            "The referenced transaction is already disputed"@,
        TransactionError::RefferencedTransactionDoesNotExist =>
            "The referenced transaction does not yet exist"@,
        TransactionError::RefferencedTransactionIsNotDisputed =>
            "The referenced transaction is not disputed"@,
        TransactionError::AccountLocked => "The Account is locked after a chargeback"@,
        TransactionError::Overflow => "A balance would exceed the representable range"@,
    }
}

impl TransactionError {
    /// A sentence that describes the error to a person.
    pub fn message(&self) -> (r: &'static str)
        ensures
            r@ == error_text(*self),
    {
        match self {
            TransactionError::NotEnoughFunds => "Not enough funds to process transaction",
            TransactionError::RefferencedTransactionIsDisputed =>
                "The referenced transaction is already disputed",
            TransactionError::RefferencedTransactionDoesNotExist =>
                "The referenced transaction does not yet exist",
            TransactionError::RefferencedTransactionIsNotDisputed =>
                "The referenced transaction is not disputed",
            TransactionError::AccountLocked => "The Account is locked after a chargeback",
            TransactionError::Overflow => "A balance would exceed the representable range",
        }
    }
}

/// A deposit or withdrawal kept so that later records can refer to it.
#[derive(Clone, Copy, Debug, PartialEq, Eq, Structural)]
pub struct PersistedTransaction {
    pub disputed: bool,
    pub transaction: Transaction,
}

impl PersistedTransaction {
    pub fn new(t: Transaction) -> (r: PersistedTransaction)
        ensures
            r == (PersistedTransaction { disputed: false, transaction: t }),
    {
        PersistedTransaction { disputed: false, transaction: t }
    }

    pub fn is_disputed(&self) -> (r: bool)
        ensures
            r == self.disputed,
    {
        self.disputed
    }

    pub fn set_disputed(&mut self)
        ensures
            *final(self) == (PersistedTransaction { disputed: true, ..*old(self) }),
    {
        self.disputed = true;
    }

    pub fn set_not_disputed(&mut self)
        ensures
            *final(self) == (PersistedTransaction { disputed: false, ..*old(self) }),
    {
        self.disputed = false;
    }
}

} // verus!
