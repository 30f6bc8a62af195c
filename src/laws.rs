use crate::account::Balances;
use crate::amount::in_range;
use crate::processor::{replay, Ledger};
use crate::transaction::{Transaction, TransactionError, TransactionType};
use vstd::prelude::*;

verus! {

/// The sum, in ten-thousandths, of the amounts that `ts` carry.
pub open spec fn sum_of_amounts(ts: Seq<Transaction>) -> int
    decreases ts.len(),
{
    if ts.len() == 0 {
        0
    } else {
        sum_of_amounts(ts.drop_last()) + ts.last().amount->Some_0@
    }
}

/// Each of `ts` is a well-formed deposit to `client`.
pub open spec fn deposits_to(ts: Seq<Transaction>, client: u16) -> bool {
    forall|i: int|
        0 <= i < ts.len() ==> {
            &&& (#[trigger] ts[i]).transaction_type == TransactionType::Deposit
            &&& ts[i].client == client
            &&& ts[i].wf()
        }
}

/// Each of `ts` is a well-formed deposit or withdrawal, and no deposit
/// carries a negative amount.
pub open spec fn plain_funds_moves(ts: Seq<Transaction>) -> bool {
    forall|i: int|
        0 <= i < ts.len() ==> {
            &&& (#[trigger] ts[i]).wf()
            &&& ts[i].transaction_type.carries_amount()
            &&& ts[i].transaction_type == TransactionType::Deposit ==> ts[i].amount->Some_0@ >= 0
        }
}

/// No account of `l` has a negative available balance.
pub open spec fn all_available_non_negative(l: Ledger) -> bool {
    forall|c: u16| #[trigger] l.accounts.contains_key(c) ==> l.accounts[c].available >= 0
}

/// A well-formed record keeps the ledger well formed.
pub proof fn lemma_step_keeps_wf(l: Ledger, t: Transaction)
    requires
        l.wf(),
        t.wf(),
    ensures
        l.step(t).0.wf(),
{
    let r = l.step(t).0;
    if t.transaction_type.carries_amount() || l.persisted.contains_key(t.tx) {
        assert forall|k: u32| #[trigger] r.persisted.contains_key(k) implies {
            let u = r.persisted[k].transaction;
            u.transaction_type.carries_amount() && u.wf()
        } by {
            if k != t.tx {
                assert(l.persisted.contains_key(k));
            }
        }
        assert forall|c: u16| #[trigger] r.accounts.contains_key(c) implies r.accounts[c].wf() by {
            if c != t.client {
                assert(l.accounts.contains_key(c));
            }
        }
    }
}

/// Replaying deposits to one client from an empty ledger leaves that
/// client with the sum of the amounts available and nothing held, as long
/// as the running sum never leaves the representable range.
pub proof fn lemma_deposits_sum(ts: Seq<Transaction>, client: u16)
    requires
        deposits_to(ts, client),
        forall|k: int| 0 <= k <= ts.len() ==> in_range(#[trigger] sum_of_amounts(ts.take(k))),
    ensures
        replay(Ledger::empty(), ts).balances_of(client) == (Balances {
            available: sum_of_amounts(ts),
            held: 0,
            locked: false,
        }),
        replay(Ledger::empty(), ts).wf(),
    decreases ts.len(),
{
    if ts.len() > 0 {
        let prefix = ts.drop_last();
        assert(ts.take(ts.len() as int) =~= ts);
        assert forall|k: int| 0 <= k <= prefix.len() implies in_range(
            #[trigger] sum_of_amounts(prefix.take(k)),
        ) by {
            assert(prefix.take(k) =~= ts.take(k));
        }
        assert forall|i: int| 0 <= i < prefix.len() implies {
            &&& (#[trigger] prefix[i]).transaction_type == TransactionType::Deposit
            &&& prefix[i].client == client
            &&& prefix[i].wf()
        } by {
            assert(prefix[i] == ts[i]);
        }
        lemma_deposits_sum(prefix, client);
        let t = ts.last();
        assert(t == ts[ts.len() - 1]);
        lemma_step_keeps_wf(replay(Ledger::empty(), prefix), t);
    } else {
        assert(Ledger::empty().wf());
    }
}

/// A deposit of a non-negative amount, or any withdrawal, never makes an
/// available balance negative: a withdrawal larger than what is available
/// is refused.
pub proof fn lemma_funds_move_keeps_available_non_negative(l: Ledger, t: Transaction)
    requires
        l.wf(),
        t.wf(),
        t.transaction_type.carries_amount(),
        t.transaction_type == TransactionType::Deposit ==> t.amount->Some_0@ >= 0,
        all_available_non_negative(l),
    ensures
        all_available_non_negative(l.step(t).0),
        l.step(t).0.balances_of(t.client).available >= 0,
{
    let r = l.step(t).0;
    assert forall|c: u16| #[trigger] r.accounts.contains_key(c) implies r.accounts[c].available
        >= 0 by {
        if c != t.client {
            assert(l.accounts.contains_key(c));
        }
    }
}

/// Replaying only deposits of non-negative amounts and withdrawals from an
/// empty ledger never makes an available balance negative, at any point.
pub proof fn lemma_plain_replay_available_non_negative(ts: Seq<Transaction>)
    requires
        plain_funds_moves(ts),
    ensures
        all_available_non_negative(replay(Ledger::empty(), ts)),
        replay(Ledger::empty(), ts).wf(),
    decreases ts.len(),
{
    if ts.len() > 0 {
        let prefix = ts.drop_last();
        assert forall|i: int| 0 <= i < prefix.len() implies {
            &&& (#[trigger] prefix[i]).wf()
            &&& prefix[i].transaction_type.carries_amount()
            &&& prefix[i].transaction_type == TransactionType::Deposit ==> prefix[i].amount->Some_0@
                >= 0
        } by {
            assert(prefix[i] == ts[i]);
        }
        lemma_plain_replay_available_non_negative(prefix);
        let t = ts.last();
        assert(t == ts[ts.len() - 1]);
        lemma_step_keeps_wf(replay(Ledger::empty(), prefix), t);
        lemma_funds_move_keeps_available_non_negative(replay(Ledger::empty(), prefix), t);
    } else {
        assert(Ledger::empty().wf());
    }
}

/// A dispute that succeeds, followed by a resolve of the same transaction,
/// succeeds and leaves every balance and every kept record as before the
/// dispute.
pub proof fn lemma_dispute_resolve_round_trip(l: Ledger, client: u16, tx: u32)
    requires
        l.wf(),
        l.step(
            Transaction {
                transaction_type: TransactionType::Dispute,
                client,
                tx,
                amount: None,
            },
        ).1 is Ok,
    ensures
        ({
            let d = Transaction { transaction_type: TransactionType::Dispute, client, tx, amount: None };
            let r = Transaction { transaction_type: TransactionType::Resolve, client, tx, amount: None };
            let after = l.step(d).0.step(r);
            &&& after.1 is Ok
            &&& after.0.persisted == l.persisted
            &&& forall|c: u16| #[trigger] after.0.balances_of(c) == l.balances_of(c)
        }),
{
    let d = Transaction { transaction_type: TransactionType::Dispute, client, tx, amount: None };
    let r = Transaction { transaction_type: TransactionType::Resolve, client, tx, amount: None };
    let mid = l.step(d).0;
    let after = mid.step(r).0;
    assert(mid.persisted[tx].transaction == l.persisted[tx].transaction);
    assert(after.persisted =~= l.persisted);
}

/// Once an account is locked, every further record for its client fails
/// and changes no balance; it fails with `AccountLocked` unless it names a
/// transaction that is unknown or in the wrong dispute state.
pub proof fn lemma_locked_account_is_terminal(l: Ledger, t: Transaction)
    requires
        l.wf(),
        t.wf(),
        l.accounts.contains_key(t.client),
        l.accounts[t.client].locked,
    ensures
        l.step(t).1 is Err,
        forall|c: u16| #[trigger] l.step(t).0.balances_of(c) == l.balances_of(c),
        (t.transaction_type.carries_amount() || (l.persisted.contains_key(t.tx) && l.mark(t) is Ok))
            ==> l.step(t).1 == Err::<(), TransactionError>(TransactionError::AccountLocked),
{
}

/// A dispute that names an unknown transaction, or one already disputed,
/// fails and leaves the whole ledger unchanged.
pub proof fn lemma_failed_dispute_changes_nothing(l: Ledger, client: u16, tx: u32)
    requires
        !l.persisted.contains_key(tx) || l.persisted[tx].disputed,
    ensures
        ({
            let d = Transaction { transaction_type: TransactionType::Dispute, client, tx, amount: None };
            &&& l.step(d).0 == l
            &&& l.step(d).1 == Err::<(), TransactionError>(
                if l.persisted.contains_key(tx) {
                    TransactionError::RefferencedTransactionIsDisputed
                } else {
                    TransactionError::RefferencedTransactionDoesNotExist
                },
            )
        }),
{
}

/// After an account is locked, any further records, for any clients, leave
/// its balances as they are, and every one of them for its client fails.
pub proof fn lemma_locked_account_stays_frozen(l: Ledger, ts: Seq<Transaction>, client: u16)
    requires
        l.wf(),
        forall|i: int| 0 <= i < ts.len() ==> (#[trigger] ts[i]).wf(),
        l.accounts.contains_key(client),
        l.accounts[client].locked,
    ensures
        replay(l, ts).wf(),
        replay(l, ts).accounts.contains_key(client),
        replay(l, ts).balances_of(client) == l.balances_of(client),
        forall|i: int|
            0 <= i < ts.len() && ts[i].client == client ==> (#[trigger] replay(l, ts.take(i)).step(
                ts[i],
            )).1 is Err,
    decreases ts.len(),
{
    if ts.len() > 0 {
        let prefix = ts.drop_last();
        assert forall|i: int| 0 <= i < prefix.len() implies (#[trigger] prefix[i]).wf() by {
            assert(prefix[i] == ts[i]);
        }
        lemma_locked_account_stays_frozen(l, prefix, client);
        let mid = replay(l, prefix);
        let t = ts.last();
        assert(t == ts[ts.len() - 1]);
        lemma_step_keeps_wf(mid, t);
        if t.client == client {
            lemma_locked_account_is_terminal(mid, t);
        }
        assert forall|i: int| 0 <= i < ts.len() && ts[i].client == client implies (
        #[trigger] replay(l, ts.take(i)).step(ts[i])).1 is Err by {
            if i < prefix.len() {
                assert(ts.take(i) =~= prefix.take(i));
                assert(ts[i] == prefix[i]);
            } else {
                assert(ts.take(i) =~= prefix);
            }
        }
    }
}

} // verus!
