use crate::account::{Account, AccountTransaction, AccountTransactionType, Balances};
use crate::amount::Amount;
use crate::transaction::{PersistedTransaction, Transaction, TransactionError, TransactionType};
use std::collections::HashMap;
use vstd::prelude::*;

verus! {

broadcast use vstd::std_specs::hash::group_hash_axioms;

/// The state of a run: the balances of each client seen so far, and every
/// deposit and withdrawal kept for later reference.
pub struct Ledger {
    pub accounts: Map<u16, Balances>,
    pub persisted: Map<u32, PersistedTransaction>,
}

/// The account-level operation that a record of kind `kind` turns into.
pub open spec fn account_kind(kind: TransactionType) -> AccountTransactionType {
    match kind {
        TransactionType::Deposit => AccountTransactionType::Deposit,
        TransactionType::Withdrawal => AccountTransactionType::Withdrawal,
        TransactionType::Dispute => AccountTransactionType::AddHold,
        TransactionType::Resolve => AccountTransactionType::NegHold,
        TransactionType::Chargeback => AccountTransactionType::Chargeback,
    }
}

impl Ledger {
    pub open spec fn empty() -> Ledger {
        Ledger { accounts: Map::empty(), persisted: Map::empty() }
    }

    /// The balances of `client`; those of a fresh account if it has none yet.
    pub open spec fn balances_of(self, client: u16) -> Balances {
        if self.accounts.contains_key(client) {
            self.accounts[client]
        } else {
            Balances::fresh()
        }
    }

    /// Every kept record is a deposit or withdrawal with an amount in range,
    /// and every account's balances are in range.
    pub open spec fn wf(self) -> bool {
        &&& forall|k: u32| #[trigger]
            self.persisted.contains_key(k) ==> {
                let t = self.persisted[k].transaction;
                t.transaction_type.carries_amount() && t.wf()
            }
        &&& forall|c: u16| #[trigger] self.accounts.contains_key(c) ==> self.accounts[c].wf()
    }

    /// The amount, in ten-thousandths, that record `t` moves: its own for a
    /// deposit or withdrawal, that of the record it names otherwise.
    pub open spec fn amount_of(self, t: Transaction) -> int {
        if t.transaction_type.carries_amount() {
            t.amount->Some_0@
        } else {
            self.persisted[t.tx].transaction.amount->Some_0@
        }
    }

    /// The kept records after the dispute bookkeeping of `t`, or the error
    /// that stops `t` there.
    pub open spec fn mark(self, t: Transaction) -> Result<
        Map<u32, PersistedTransaction>,
        TransactionError,
    > {
        let p = self.persisted[t.tx];
        match t.transaction_type {
            TransactionType::Deposit | TransactionType::Withdrawal => Ok(
                self.persisted.insert(t.tx, PersistedTransaction { disputed: false, transaction: t }),
            ),
            TransactionType::Dispute => if p.disputed {
                Err(TransactionError::RefferencedTransactionIsDisputed)
            } else {
                Ok(self.persisted.insert(t.tx, PersistedTransaction { disputed: true, ..p }))
            },
            _ => if !p.disputed {
                Err(TransactionError::RefferencedTransactionIsNotDisputed)
            } else {
                Ok(self.persisted.insert(t.tx, PersistedTransaction { disputed: false, ..p }))
            },
        }
    }

    /// The ledger after record `t`, and whether `t` was applied.
    ///
    /// A record that names an unknown transaction changes nothing. A
    /// deposit or withdrawal is kept before its account is touched, so it
    /// stays kept when the account refuses it; a failed dispute, resolve
    /// or chargeback leaves the kept records as they were. Once the
    /// bookkeeping succeeded the client's account exists, and the
    /// account-level operation either succeeds or leaves it unchanged.
    pub open spec fn step(self, t: Transaction) -> (Ledger, Result<(), TransactionError>) {
        if !t.transaction_type.carries_amount() && !self.persisted.contains_key(t.tx) {
            (self, Err(TransactionError::RefferencedTransactionDoesNotExist))
        } else {
            match self.mark(t) {
                Err(e) => (self, Err(e)),
                Ok(persisted) => {
                    let before = self.balances_of(t.client);
                    match before.step(account_kind(t.transaction_type), self.amount_of(t)) {
                        Ok(after) => (
                            Ledger { accounts: self.accounts.insert(t.client, after), persisted },
                            Ok(()),
                        ),
                        Err(e) => (
                            Ledger { accounts: self.accounts.insert(t.client, before), persisted },
                            Err(e),
                        ),
                    }
                },
            }
        }
    }
}

/// The ledger after the records `ts`, applied in order from `l`.
pub open spec fn replay(l: Ledger, ts: Seq<Transaction>) -> Ledger
    decreases ts.len(),
{
    if ts.len() == 0 {
        l
    } else {
        replay(l, ts.drop_last()).step(ts.last()).0
    }
}

/// Replays records against per-client accounts.
pub struct TransactionProcessor {
    bank: HashMap<u16, Account>,
    transactions: HashMap<u32, PersistedTransaction>,
    /// The clients in the order their accounts were opened.
    clients: Vec<u16>,
}

impl View for TransactionProcessor {
    type V = Ledger;

    closed spec fn view(&self) -> Ledger {
        Ledger {
            accounts: self.bank@.map_values(|a: Account| a@),
            persisted: self.transactions@,
        }
    }
}

impl TransactionProcessor {
    pub closed spec fn wf(self) -> bool {
        &&& self@.wf()
        &&& forall|c: u16| #[trigger]
            self.bank@.contains_key(c) ==> self.bank@[c].client_id() == c
        &&& self.clients@.no_duplicates()
        &&& forall|c: u16|
            #![trigger self.bank@.contains_key(c)]
            #![trigger self.clients@.contains(c)]
            self.bank@.contains_key(c) <==> self.clients@.contains(c)
    }

    /// The clients in the order their accounts were opened.
    pub closed spec fn client_order(self) -> Seq<u16> {
        self.clients@
    }

    pub fn new() -> (r: TransactionProcessor)
        ensures
            r.wf(),
            r@ == Ledger::empty(),
    {
        let r = TransactionProcessor {
            bank: HashMap::new(),
            transactions: HashMap::new(),
            clients: Vec::new(),
        };
        assert(r@.accounts =~= Map::empty());
        r
    }

    /// The account-level operation for `transaction`, with the amount taken
    /// from the transaction it names where it carries none of its own.
    fn to_account_transaction(&self, transaction: &Transaction) -> (r: Result<
        AccountTransaction,
        TransactionError,
    >)
        requires
            self.wf(),
            transaction.wf(),
        ensures
            r is Err <==> !transaction.transaction_type.carries_amount()
                && !self@.persisted.contains_key(transaction.tx),
            r matches Err(e) ==> e == TransactionError::RefferencedTransactionDoesNotExist,
            r matches Ok(at) ==> {
                &&& at.transaction_type == account_kind(transaction.transaction_type)
                &&& at.amount@ == self@.amount_of(*transaction)
                &&& at.amount.wf()
            },
    {
        let kind = match transaction.transaction_type {
            TransactionType::Deposit => AccountTransactionType::Deposit,
            TransactionType::Withdrawal => AccountTransactionType::Withdrawal,
            TransactionType::Dispute => AccountTransactionType::AddHold,
            TransactionType::Resolve => AccountTransactionType::NegHold,
            TransactionType::Chargeback => AccountTransactionType::Chargeback,
        };
        let amount: Amount = match transaction.transaction_type {
            TransactionType::Deposit | TransactionType::Withdrawal => match transaction.amount {
                Some(a) => a,
                None => {
                    proof {
                        assert(false);
                    }
                    Amount::zero()
                },
            },
            _ => match self.transactions.get(&transaction.tx) {
                None => {
                    return Err(TransactionError::RefferencedTransactionDoesNotExist);
                },
                Some(referenced) => match referenced.transaction.amount {
                    Some(a) => a,
                    None => {
                        proof {
                            assert(self@.persisted.contains_key(transaction.tx));
                            assert(false);
                        }
                        Amount::zero()
                    },
                },
            },
        };
        Ok(AccountTransaction::new(kind, amount))
    }

    /// Applies one record. The ledger moves exactly as `Ledger::step` says,
    /// and the result is the one it gives.
    pub fn apply(&mut self, transaction: Transaction) -> (r: Result<(), TransactionError>)
        requires
            old(self).wf(),
            transaction.wf(),
        ensures
            final(self).wf(),
            (final(self)@, r) == old(self)@.step(transaction),
    {
        let account_transaction = match self.to_account_transaction(&transaction) {
            Ok(at) => at,
            Err(e) => {
                return Err(e);
            },
        };
        let ghost before = self@;
        match transaction.transaction_type {
            TransactionType::Deposit | TransactionType::Withdrawal => {
                self.transactions.insert(transaction.tx, PersistedTransaction::new(transaction));
            },
            TransactionType::Dispute => {
                let mut p = match self.transactions.get(&transaction.tx) {
                    Some(p) => *p,
                    None => {
                        return Err(TransactionError::RefferencedTransactionDoesNotExist);
                    },
                };
                if p.is_disputed() {
                    return Err(TransactionError::RefferencedTransactionIsDisputed);
                }
                p.set_disputed();
                self.transactions.insert(transaction.tx, p);
            },
            TransactionType::Resolve | TransactionType::Chargeback => {
                let mut p = match self.transactions.get(&transaction.tx) {
                    Some(p) => *p,
                    None => {
                        return Err(TransactionError::RefferencedTransactionDoesNotExist);
                    },
                };
                if !p.is_disputed() {
                    return Err(TransactionError::RefferencedTransactionIsNotDisputed);
                }
                p.set_not_disputed();
                self.transactions.insert(transaction.tx, p);
            },
        }
        assert(before.mark(transaction) == Ok::<_, TransactionError>(self.transactions@));
        let client = transaction.client;
        let ghost old_clients = self.clients@;
        let mut account = match self.bank.get(&client) {
            Some(a) => {
                assert(before.accounts.contains_key(client));
                *a
            },
            None => {
                self.clients.push(client);
                assert(self.clients@ == old_clients.push(client));
                assert(self.clients@.last() == client);
                Account::new(client)
            },
        };
        assert(account@ == before.balances_of(client));
        let r = account.apply(account_transaction);
        let ghost old_bank = self.bank@;
        self.bank.insert(client, account);
        assert(self.bank@.map_values(|a: Account| a@) =~= old_bank.map_values(
            |a: Account| a@,
        ).insert(client, account@));
        assert forall|c: u16| self.bank@.contains_key(c) <==> #[trigger] self.clients@.contains(c) by {
            if c != client {
                assert(old_bank.contains_key(c) == self.bank@.contains_key(c));
                if old_clients.contains(c) {
                    let i = choose|i: int| 0 <= i < old_clients.len() && old_clients[i] == c;
                    assert(self.clients@[i] == c);
                }
                if self.clients@.contains(c) {
                    let i = choose|i: int| 0 <= i < self.clients@.len() && self.clients@[i] == c;
                    assert(old_clients[i] == c);
                }
            }
        }
        r
    }

    /// The account of `client`, if one was opened.
    pub fn account(&self, client: u16) -> (r: Option<Account>)
        requires
            self.wf(),
        ensures
            r is Some <==> self@.accounts.contains_key(client),
            r matches Some(a) ==> a@ == self@.accounts[client] && a.client_id() == client,
    {
        match self.bank.get(&client) {
            Some(a) => Some(*a),
            None => None,
        }
    }

    /// The number of deposits and withdrawals kept for reference.
    pub fn transaction_count(&self) -> (r: usize)
        ensures
            r == self@.persisted.len(),
    {
        self.transactions.len()
    }

    /// Every account, in the order the accounts were opened.
    pub fn accounts(&self) -> (r: Vec<Account>)
        requires
            self.wf(),
        ensures
            r@.len() == self.client_order().len(),
            forall|i: int|
                0 <= i < r@.len() ==> {
                    &&& #[trigger] r@[i].client_id() == self.client_order()[i]
                    &&& r@[i]@ == self@.accounts[self.client_order()[i]]
                },
            self.client_order().no_duplicates(),
            forall|c: u16|
                self@.accounts.contains_key(c) <==> #[trigger] self.client_order().contains(c),
    {
        let mut r: Vec<Account> = Vec::new();
        let mut i: usize = 0;
        while i < self.clients.len()
            invariant
                self.wf(),
                i <= self.clients@.len(),
                r@.len() == i,
                forall|j: int|
                    0 <= j < i ==> {
                        &&& #[trigger] r@[j].client_id() == self.clients@[j]
                        &&& r@[j]@ == self@.accounts[self.clients@[j]]
                    },
            decreases self.clients@.len() - i,
        {
            let c = self.clients[i];
            assert(self.clients@.contains(c));
            match self.bank.get(&c) {
                Some(a) => {
                    assert(self.bank@.contains_key(c));
                    assert(self@.accounts[c] == a@);
                    r.push(*a);
                    assert(r@[i as int] == *a);
                },
                None => {
                    assert(false);
                },
            }
            i = i + 1;
        }
        r
    }

    /// Applies `records` one after another, in order, going on after a
    /// record that fails; returns the result of each.
    pub fn apply_all(&mut self, records: &Vec<Transaction>) -> (r: Vec<Result<(), TransactionError>>)
        requires
            old(self).wf(),
            forall|i: int| 0 <= i < records@.len() ==> (#[trigger] records@[i]).wf(),
        ensures
            final(self).wf(),
            final(self)@ == replay(old(self)@, records@),
            r@.len() == records@.len(),
            forall|i: int|
                0 <= i < records@.len() ==> #[trigger] r@[i] == replay(
                    old(self)@,
                    records@.take(i),
                ).step(records@[i]).1,
    {
        let ghost start = self@;
        let mut results: Vec<Result<(), TransactionError>> = Vec::new();
        let mut i: usize = 0;
        while i < records.len()
            invariant
                self.wf(),
                i <= records@.len(),
                forall|j: int| 0 <= j < records@.len() ==> (#[trigger] records@[j]).wf(),
                self@ == replay(start, records@.take(i as int)),
                results@.len() == i,
                forall|j: int|
                    0 <= j < i ==> #[trigger] results@[j] == replay(start, records@.take(j)).step(
                        records@[j],
                    ).1,
            decreases records@.len() - i,
        {
            let ghost prefix = records@.take(i as int);
            let res = self.apply(records[i]);
            results.push(res);
            assert(records@.take(i + 1).drop_last() =~= prefix);
            assert(records@.take(i + 1).last() == records@[i as int]);
            i = i + 1;
        }
        assert(records@.take(records@.len() as int) =~= records@);
        results
    }
}

} // verus!
