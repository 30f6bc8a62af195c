use crate::amount::{in_range, Amount};
use crate::transaction::TransactionError;
use vstd::prelude::*;

verus! {

/// The balances of an account, as numbers of ten-thousandths.
pub struct Balances {
    pub available: int,
    pub held: int,
    pub locked: bool,
}

impl Balances {
    /// The balances of an account that has seen no transaction.
    pub open spec fn fresh() -> Balances {
        Balances { available: 0, held: 0, locked: false }
    }

    pub open spec fn total(self) -> int {
        self.available + self.held
    }

    /// Available, held and their total all lie in the representable range.
    pub open spec fn wf(self) -> bool {
        in_range(self.available) && in_range(self.held) && in_range(self.total())
    }

    /// The unlocked balances `available`, `held`, or `Overflow` when one of
    /// them or their total is out of range.
    pub open spec fn checked(available: int, held: int, locked: bool) -> Result<
        Balances,
        TransactionError,
    > {
        let b = Balances { available, held, locked };
        if b.wf() {
            Ok(b)
        } else {
            Err(TransactionError::Overflow)
        }
    }

    /// What one account-level operation of `amount` ten-thousandths does.
    pub open spec fn step(self, kind: AccountTransactionType, amount: int) -> Result<
        Balances,
        TransactionError,
    > {
        if self.locked {
            Err(TransactionError::AccountLocked)
        } else {
            match kind {
                AccountTransactionType::Deposit => Balances::checked(
                    self.available + amount,
                    self.held,
                    false,
                ),
                AccountTransactionType::Withdrawal => if self.available >= amount {
                    Balances::checked(self.available - amount, self.held, false)
                } else {
                    Err(TransactionError::NotEnoughFunds)
                },
                AccountTransactionType::AddHold => Balances::checked(
                    self.available - amount,
                    self.held + amount,
                    false,
                ),
                AccountTransactionType::NegHold => Balances::checked(
                    self.available + amount,
                    self.held - amount,
                    false,
                ),
                AccountTransactionType::Chargeback => Balances::checked(
                    self.available,
                    self.held - amount,
                    true,
                ),
            }
        }
    }
}

/// An operation on one account.
#[derive(Clone, Copy, Debug, PartialEq, Eq, Structural)]
pub enum AccountTransactionType {
    Deposit,
    Withdrawal,
    AddHold,
    NegHold,
    Chargeback,
}

/// An account-level operation together with its amount.
#[derive(Clone, Copy, Debug, PartialEq, Eq, Structural)]
pub struct AccountTransaction {
    pub transaction_type: AccountTransactionType,
    pub amount: Amount,
}

impl AccountTransaction {
    pub fn new(transaction_type: AccountTransactionType, amount: Amount) -> (r: AccountTransaction)
        ensures
            r.transaction_type == transaction_type,
            r.amount == amount,
    {
        AccountTransaction { transaction_type, amount }
    }
}

/// The ledger cell of one client.
#[derive(Clone, Copy, Debug)]
pub struct Account {
    pub client: u16,
    available: Amount,
    held: Amount,
    locked: bool,
}

impl View for Account {
    type V = Balances;

    closed spec fn view(&self) -> Balances {
        Balances { available: self.available@, held: self.held@, locked: self.locked }
    }
}

impl Account {
    pub open spec fn wf(self) -> bool {
        self@.wf()
    }

    /// The client the account belongs to.
    pub closed spec fn client_id(self) -> u16 {
        self.client
    }

    pub fn new(client_id: u16) -> (r: Account)
        ensures
            r.client_id() == client_id,
            r@ == Balances::fresh(),
            r.wf(),
    {
        Account { client: client_id, available: Amount::zero(), held: Amount::zero(), locked: false }
    }

    pub fn get_available(&self) -> (r: Amount)
        ensures
            r@ == self@.available,
    {
        self.available
    }

    pub fn get_held(&self) -> (r: Amount)
        ensures
            r@ == self@.held,
    {
        self.held
    }

    pub fn is_locked(&self) -> (r: bool)
        ensures
            r == self@.locked,
    {
        self.locked
    }

    /// `available + held`.
    pub fn total(&self) -> (r: Amount)
        requires
            self.wf(),
        ensures
            r@ == self@.total(),
            r.wf(),
    {
        match self.available.checked_add(self.held) {
            Some(t) => t,
            None => {
                proof {
                    assert(false);
                }
                Amount::zero()
            },
        }
    }

    /// Applies one operation. On success the balances are those of
    /// `Balances::step`; on failure the account is left as it was.
    pub fn apply(&mut self, transaction: AccountTransaction) -> (r: Result<(), TransactionError>)
        requires
            old(self).wf(),
            transaction.amount.wf(),
        ensures
            final(self).wf(),
            final(self).client_id() == old(self).client_id(),
            match old(self)@.step(transaction.transaction_type, transaction.amount@) {
                Ok(b) => r == Ok::<(), TransactionError>(()) && final(self)@ == b,
                Err(e) => r == Err::<(), TransactionError>(e) && final(self)@ == old(self)@,
            },
    {
        if self.locked {
            return Err(TransactionError::AccountLocked);
        }
        let amount = transaction.amount;
        let (available, held, locked) = match transaction.transaction_type {
            AccountTransactionType::Deposit => (self.available.checked_add(amount), Some(self.held), false),
            AccountTransactionType::Withdrawal => {
                if !self.available.ge(&amount) {
                    return Err(TransactionError::NotEnoughFunds);
                }
                (self.available.checked_sub(amount), Some(self.held), false)
            },
            AccountTransactionType::AddHold => (
                self.available.checked_sub(amount),
                self.held.checked_add(amount),
                false,
            ),
            AccountTransactionType::NegHold => (
                self.available.checked_add(amount),
                self.held.checked_sub(amount),
                false,
            ),
            AccountTransactionType::Chargeback => (Some(self.available), self.held.checked_sub(amount), true),
        };
        match (available, held) {
            (Some(a), Some(h)) => {
                if a.checked_add(h).is_none() {
                    return Err(TransactionError::Overflow);
                }
                self.available = a;
                self.held = h;
                self.locked = locked;
                Ok(())
            },
            _ => Err(TransactionError::Overflow),
        }
    }
}

} // verus!
