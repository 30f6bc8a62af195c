use rust_decimal::Decimal;
use std::str::FromStr;
use transaction_processor::account::{Account, AccountTransaction, AccountTransactionType};
use transaction_processor::amount::Amount;
use transaction_processor::processor::TransactionProcessor;
use transaction_processor::transaction::{
    PersistedTransaction, Transaction, TransactionError, TransactionType,
};

fn amount(d: Decimal) -> Amount {
    Amount::from_parts(d.mantissa(), d.scale()).unwrap()
}

fn dec(s: &str) -> Amount {
    amount(Decimal::from_str(s).unwrap())
}

fn record(kind: TransactionType, client: u16, tx: u32, value: Option<&str>) -> Transaction {
    Transaction {
        transaction_type: kind,
        client,
        tx,
        amount: value.map(dec),
    }
}

#[test]
fn apply_one() {
    let mut engine = TransactionProcessor::new();
    let trans = Transaction {
        transaction_type: TransactionType::Deposit,
        client: 1,
        tx: 1,
        amount: Some(amount(Decimal::from(1))),
    };
    let _ = engine.apply(trans);
    let account = engine.account(1);
    assert!(account.is_some());
    assert!(account.unwrap().get_available() == amount(Decimal::from(1)));
    assert!(account.unwrap().get_held() == amount(Decimal::from(0)));
    let trans_count = engine.transaction_count();
    assert!(trans_count == 1);
}

#[test]
fn dispute_transaction() {
    let mut engine = TransactionProcessor::new();
    let trans = Transaction {
        transaction_type: TransactionType::Deposit,
        client: 1,
        tx: 1,
        amount: Some(amount(Decimal::from(1))),
    };
    let dispute = Transaction {
        transaction_type: TransactionType::Dispute,
        client: 1,
        tx: 1,
        amount: None,
    };
    engine.apply(trans).expect("could not deposit funds");
    engine
        .apply(dispute)
        .expect("could not dispute transaction");
    let account = engine.account(1);
    println!("{:?}", account);
    assert!(account.is_some());
    assert_eq!(account.unwrap().get_available(), amount(Decimal::from(0)));
    assert_eq!(account.unwrap().get_held(), amount(Decimal::from(1)));
}

#[test]
fn chargeback_locks() {
    let mut engine = TransactionProcessor::new();
    let trans = Transaction {
        transaction_type: TransactionType::Deposit,
        client: 1,
        tx: 1,
        amount: Some(amount(Decimal::from(1))),
    };
    let dispute = Transaction {
        transaction_type: TransactionType::Dispute,
        client: 1,
        tx: 1,
        amount: None,
    };
    let chargeback = Transaction {
        transaction_type: TransactionType::Chargeback,
        client: 1,
        tx: 1,
        amount: None,
    };
    let tran_two = Transaction {
        transaction_type: TransactionType::Deposit,
        client: 1,
        tx: 1,
        amount: Some(amount(Decimal::from(1))),
    };
    engine.apply(trans).expect("could not deposit funds");
    engine
        .apply(dispute)
        .expect("could not dispute transaction");
    engine
        .apply(chargeback)
        .expect("chargeback can't go through");
    let rejects = match engine.apply(tran_two) {
        Err(TransactionError::AccountLocked) => true,
        _ => false,
    };
    assert!(rejects);
}

#[test]
fn deposit_one_scenario() {
    let mut engine = TransactionProcessor::new();
    assert_eq!(
        engine.apply(record(TransactionType::Deposit, 1, 1, Some("1.00"))),
        Ok(())
    );
    let account = engine.account(1).unwrap();
    assert_eq!(account.get_available(), dec("1.00"));
    assert_eq!(account.get_held(), dec("0.00"));
    assert!(!account.is_locked());
    assert_eq!(account.get_available().units(), 10000);
}

#[test]
fn deposit_then_dispute_scenario() {
    let mut engine = TransactionProcessor::new();
    engine
        .apply(record(TransactionType::Deposit, 1, 1, Some("1.00")))
        .unwrap();
    engine
        .apply(record(TransactionType::Dispute, 1, 1, None))
        .unwrap();
    let account = engine.account(1).unwrap();
    assert_eq!(account.get_available().units(), 0);
    assert_eq!(account.get_held().units(), 10000);
    assert_eq!(account.total().units(), 10000);
}

#[test]
fn chargeback_then_deposit_scenario() {
    let mut engine = TransactionProcessor::new();
    assert_eq!(engine.apply(record(TransactionType::Deposit, 1, 1, Some("1.00"))), Ok(()));
    assert_eq!(engine.apply(record(TransactionType::Dispute, 1, 1, None)), Ok(()));
    assert_eq!(engine.apply(record(TransactionType::Chargeback, 1, 1, None)), Ok(()));
    let account = engine.account(1).unwrap();
    assert!(account.is_locked());
    assert_eq!(account.get_available().units(), 0);
    assert_eq!(account.get_held().units(), 0);
    assert_eq!(
        engine.apply(record(TransactionType::Deposit, 1, 2, Some("1.00"))),
        Err(TransactionError::AccountLocked)
    );
    let account = engine.account(1).unwrap();
    assert!(account.is_locked());
    assert_eq!(account.get_available().units(), 0);
    assert_eq!(account.get_held().units(), 0);
}

#[test]
fn withdrawal_exceeding_available_fails() {
    let mut engine = TransactionProcessor::new();
    engine
        .apply(record(TransactionType::Deposit, 7, 1, Some("3.00")))
        .unwrap();
    assert_eq!(
        engine.apply(record(TransactionType::Withdrawal, 7, 2, Some("5.00"))),
        Err(TransactionError::NotEnoughFunds)
    );
    assert_eq!(engine.account(7).unwrap().get_available(), dec("3.00"));
    // The refused withdrawal is still kept for reference.
    assert_eq!(engine.transaction_count(), 2);
}

#[test]
fn withdrawal_within_available_succeeds() {
    let mut engine = TransactionProcessor::new();
    engine
        .apply(record(TransactionType::Deposit, 2, 1, Some("3.5")))
        .unwrap();
    engine
        .apply(record(TransactionType::Withdrawal, 2, 2, Some("1.25")))
        .unwrap();
    assert_eq!(engine.account(2).unwrap().get_available().units(), 22500);
}

#[test]
fn withdrawal_on_new_client_opens_empty_account() {
    let mut engine = TransactionProcessor::new();
    assert_eq!(
        engine.apply(record(TransactionType::Withdrawal, 4, 1, Some("1"))),
        Err(TransactionError::NotEnoughFunds)
    );
    let account = engine.account(4).unwrap();
    assert_eq!(account.get_available().units(), 0);
    assert_eq!(account.get_held().units(), 0);
}

#[test]
fn deposits_sum_to_available() {
    let mut engine = TransactionProcessor::new();
    let values = ["1.5", "2.25", "0.0001", "10"];
    for (i, v) in values.iter().enumerate() {
        engine
            .apply(record(TransactionType::Deposit, 3, i as u32 + 1, Some(v)))
            .unwrap();
    }
    let account = engine.account(3).unwrap();
    assert_eq!(account.get_available(), dec("13.7501"));
    assert_eq!(account.get_held().units(), 0);
}

#[test]
fn plain_sequence_keeps_available_non_negative() {
    let mut engine = TransactionProcessor::new();
    let steps = [
        (TransactionType::Deposit, "2"),
        (TransactionType::Withdrawal, "1.5"),
        (TransactionType::Withdrawal, "1"),
        (TransactionType::Deposit, "0.25"),
        (TransactionType::Withdrawal, "0.75"),
        (TransactionType::Withdrawal, "0.75"),
    ];
    for (i, (kind, v)) in steps.iter().enumerate() {
        let _ = engine.apply(record(*kind, 5, i as u32 + 1, Some(v)));
        assert!(engine.account(5).unwrap().get_available().units() >= 0);
    }
    assert_eq!(engine.account(5).unwrap().get_available(), dec("0"));
}

#[test]
fn dispute_then_resolve_restores_balances() {
    let mut engine = TransactionProcessor::new();
    engine
        .apply(record(TransactionType::Deposit, 1, 1, Some("4.20")))
        .unwrap();
    engine
        .apply(record(TransactionType::Deposit, 1, 2, Some("1.10")))
        .unwrap();
    let before = engine.account(1).unwrap();
    engine
        .apply(record(TransactionType::Dispute, 1, 1, None))
        .unwrap();
    assert_eq!(engine.account(1).unwrap().get_held(), dec("4.20"));
    engine
        .apply(record(TransactionType::Resolve, 1, 1, None))
        .unwrap();
    let after = engine.account(1).unwrap();
    assert_eq!(after.get_available(), before.get_available());
    assert_eq!(after.get_held(), before.get_held());
    assert_eq!(
        engine.apply(record(TransactionType::Resolve, 1, 1, None)),
        Err(TransactionError::RefferencedTransactionIsNotDisputed)
    );
}

#[test]
fn locked_account_refuses_everything() {
    let mut engine = TransactionProcessor::new();
    engine.apply(record(TransactionType::Deposit, 1, 1, Some("5"))).unwrap();
    engine.apply(record(TransactionType::Deposit, 1, 2, Some("3"))).unwrap();
    engine.apply(record(TransactionType::Dispute, 1, 1, None)).unwrap();
    engine.apply(record(TransactionType::Chargeback, 1, 1, None)).unwrap();
    let locked = engine.account(1).unwrap();
    assert!(locked.is_locked());
    assert_eq!(locked.get_available(), dec("3"));
    let attempts = [
        record(TransactionType::Deposit, 1, 3, Some("1")),
        record(TransactionType::Withdrawal, 1, 4, Some("1")),
        record(TransactionType::Dispute, 1, 2, None),
    ];
    for t in attempts.iter() {
        assert_eq!(engine.apply(*t), Err(TransactionError::AccountLocked));
        let now = engine.account(1).unwrap();
        assert_eq!(now.get_available(), locked.get_available());
        assert_eq!(now.get_held(), locked.get_held());
        assert!(now.is_locked());
    }
}

#[test]
fn dispute_unknown_or_repeated_fails() {
    let mut engine = TransactionProcessor::new();
    engine.apply(record(TransactionType::Deposit, 1, 1, Some("2"))).unwrap();
    assert_eq!(
        engine.apply(record(TransactionType::Dispute, 1, 9, None)),
        Err(TransactionError::RefferencedTransactionDoesNotExist)
    );
    assert_eq!(engine.account(1).unwrap().get_available(), dec("2"));
    engine.apply(record(TransactionType::Dispute, 1, 1, None)).unwrap();
    assert_eq!(
        engine.apply(record(TransactionType::Dispute, 1, 1, None)),
        Err(TransactionError::RefferencedTransactionIsDisputed)
    );
    let account = engine.account(1).unwrap();
    assert_eq!(account.get_available().units(), 0);
    assert_eq!(account.get_held(), dec("2"));
}

#[test]
fn resolve_and_chargeback_of_unknown_fail() {
    let mut engine = TransactionProcessor::new();
    assert_eq!(
        engine.apply(record(TransactionType::Resolve, 1, 1, None)),
        Err(TransactionError::RefferencedTransactionDoesNotExist)
    );
    assert_eq!(
        engine.apply(record(TransactionType::Chargeback, 1, 1, None)),
        Err(TransactionError::RefferencedTransactionDoesNotExist)
    );
    assert!(engine.account(1).is_none());
    engine.apply(record(TransactionType::Deposit, 1, 1, Some("2"))).unwrap();
    assert_eq!(
        engine.apply(record(TransactionType::Chargeback, 1, 1, None)),
        Err(TransactionError::RefferencedTransactionIsNotDisputed)
    );
}

#[test]
fn dispute_after_withdrawal_may_go_negative() {
    let mut engine = TransactionProcessor::new();
    engine.apply(record(TransactionType::Deposit, 1, 1, Some("5"))).unwrap();
    engine.apply(record(TransactionType::Withdrawal, 1, 2, Some("4"))).unwrap();
    engine.apply(record(TransactionType::Dispute, 1, 1, None)).unwrap();
    let account = engine.account(1).unwrap();
    assert_eq!(account.get_available(), dec("-4"));
    assert_eq!(account.get_held(), dec("5"));
    assert_eq!(account.total(), dec("1"));
}

#[test]
fn deposit_beyond_range_overflows() {
    let mut engine = TransactionProcessor::new();
    let big = Amount::from_units(79228162514264337593543950335).unwrap();
    let t = Transaction {
        transaction_type: TransactionType::Deposit,
        client: 1,
        tx: 1,
        amount: Some(big),
    };
    assert_eq!(engine.apply(t), Ok(()));
    let t2 = Transaction { tx: 2, amount: Some(dec("0.0001")), ..t };
    assert_eq!(engine.apply(t2), Err(TransactionError::Overflow));
    assert_eq!(engine.account(1).unwrap().get_available(), big);
}

#[test]
fn accounts_in_opening_order() {
    let mut engine = TransactionProcessor::new();
    engine.apply(record(TransactionType::Deposit, 9, 1, Some("1"))).unwrap();
    engine.apply(record(TransactionType::Deposit, 2, 2, Some("2"))).unwrap();
    engine.apply(record(TransactionType::Deposit, 9, 3, Some("3"))).unwrap();
    let all = engine.accounts();
    assert_eq!(all.len(), 2);
    assert_eq!(all[0].client, 9);
    assert_eq!(all[0].get_available(), dec("4"));
    assert_eq!(all[1].client, 2);
    assert_eq!(all[1].get_available(), dec("2"));
}

#[test]
fn amount_from_parts() {
    assert_eq!(Amount::from_parts(125, 2).unwrap().units(), 12500);
    assert_eq!(Amount::from_parts(-125, 2).unwrap().units(), -12500);
    assert_eq!(Amount::from_parts(12345, 4).unwrap().units(), 12345);
    assert_eq!(Amount::from_parts(1230000, 6).unwrap().units(), 12300);
    assert!(Amount::from_parts(123456, 5).is_none());
    assert_eq!(Amount::from_parts(0, 200).unwrap().units(), 0);
    assert!(Amount::from_parts(7, 200).is_none());
    assert!(Amount::from_parts(79228162514264337593543950335, 0).is_none());
    assert_eq!(dec("-0.5").units(), -5000);
}

#[test]
fn amount_arithmetic() {
    let a = dec("1.5");
    let b = dec("0.25");
    assert_eq!(a.checked_add(b), Some(dec("1.75")));
    assert_eq!(a.checked_sub(b), Some(dec("1.25")));
    assert!(a.ge(&b));
    assert!(!b.ge(&a));
    let max = Amount::from_units(79228162514264337593543950335).unwrap();
    assert_eq!(max.checked_add(b), None);
    assert!(Amount::from_units(79228162514264337593543950336).is_none());
    assert_eq!(Amount::zero().units(), 0);
}

#[test]
fn account_level_operations() {
    let mut account = Account::new(3);
    assert_eq!(account.client, 3);
    let op = |k, v| AccountTransaction::new(k, dec(v));
    assert_eq!(account.apply(op(AccountTransactionType::Deposit, "10")), Ok(()));
    assert_eq!(account.apply(op(AccountTransactionType::AddHold, "4")), Ok(()));
    assert_eq!(account.get_available(), dec("6"));
    assert_eq!(account.get_held(), dec("4"));
    assert_eq!(account.apply(op(AccountTransactionType::NegHold, "1")), Ok(()));
    assert_eq!(account.get_available(), dec("7"));
    assert_eq!(account.get_held(), dec("3"));
    assert_eq!(
        account.apply(op(AccountTransactionType::Withdrawal, "8")),
        Err(TransactionError::NotEnoughFunds)
    );
    assert_eq!(account.apply(op(AccountTransactionType::Chargeback, "3")), Ok(()));
    assert!(account.is_locked());
    assert_eq!(account.get_available(), dec("7"));
    assert_eq!(account.get_held(), dec("0"));
    assert_eq!(
        account.apply(op(AccountTransactionType::Deposit, "1")),
        Err(TransactionError::AccountLocked)
    );
}

#[test]
fn persisted_transaction_flags() {
    let mut p = PersistedTransaction::new(record(TransactionType::Deposit, 1, 1, Some("1")));
    assert!(!p.is_disputed());
    p.set_disputed();
    assert!(p.is_disputed());
    p.set_not_disputed();
    assert!(!p.is_disputed());
}

#[test]
fn error_messages() {
    assert_eq!(
        TransactionError::NotEnoughFunds.message(),
        "Not enough funds to process transaction"
    );
    assert_eq!(
        TransactionError::AccountLocked.message(),
        "The Account is locked after a chargeback"
    );
    assert_eq!(
        TransactionError::RefferencedTransactionDoesNotExist.message(),
        "The referenced transaction does not yet exist"
    );
}

#[test]
fn apply_all_reports_each_record() {
    let mut engine = TransactionProcessor::new();
    let records = vec![
        record(TransactionType::Deposit, 1, 1, Some("2")),
        record(TransactionType::Withdrawal, 1, 2, Some("5")),
        record(TransactionType::Dispute, 1, 1, None),
        record(TransactionType::Dispute, 1, 1, None),
        record(TransactionType::Resolve, 1, 1, None),
        record(TransactionType::Deposit, 2, 3, Some("0.5")),
    ];
    let results = engine.apply_all(&records);
    assert_eq!(
        results,
        vec![
            Ok(()),
            Err(TransactionError::NotEnoughFunds),
            Ok(()),
            Err(TransactionError::RefferencedTransactionIsDisputed),
            Ok(()),
            Ok(()),
        ]
    );
    assert_eq!(engine.account(1).unwrap().get_available(), dec("2"));
    assert_eq!(engine.account(1).unwrap().get_held(), dec("0"));
    assert_eq!(engine.account(2).unwrap().get_available(), dec("0.5"));
    assert_eq!(engine.transaction_count(), 3);
}
