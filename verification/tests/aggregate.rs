//! Aggregate behavior: applying events, deciding commands, and the derived
//! fold with its fail-fast error handling.

use eventsourcing::Aggregate;
use eventsourcing::AggregateState;
use eventsourcing::Kind;
use eventsourcing::bank::Account;
use eventsourcing::bank::AccountData;
use eventsourcing::bank::BankCommand;
use eventsourcing::bank::BankEvent;

#[test]
fn apply_increments_generation() {
    let s0 = AccountData { balance: 0, generation: 0 };
    let s1 = Account::apply_event(&s0, &BankEvent::FundsDeposited { amount: 10 }).unwrap();
    assert_eq!(s1.generation, 1);
    let s2 = Account::apply_event(&s1, &BankEvent::FundsWithdrawn { amount: 4 }).unwrap();
    assert_eq!(s2.generation, 2);
    assert_eq!(s2.balance, 6);
    assert_eq!(s2.generation(), 2);
}

#[test]
fn decide_deposit_yields_deposited_event() {
    let s0 = AccountData { balance: 800, generation: 1 };
    let evts = Account::handle_command(&s0, &BankCommand::DepositFunds { amount: 500 }).unwrap();
    assert_eq!(evts.len(), 1);
    assert_eq!(evts[0], BankEvent::FundsDeposited { amount: 500 });
}

#[test]
fn end_to_end_deposit_scenario() {
    let s0 = AccountData { balance: 800, generation: 1 };
    let evts = Account::handle_command(&s0, &BankCommand::DepositFunds { amount: 500 }).unwrap();
    assert_eq!(evts, vec![BankEvent::FundsDeposited { amount: 500 }]);
    let s1 = Account::apply_event(&s0, &evts[0]).unwrap();
    assert_eq!(s1, AccountData { balance: 1300, generation: 2 });
}

#[test]
fn apply_all_folds_left_to_right() {
    let s0 = AccountData { balance: 800, generation: 1 };
    let evts = vec![
        BankEvent::FundsDeposited { amount: 500 },
        BankEvent::FundsWithdrawn { amount: 300 },
        BankEvent::FundsDeposited { amount: 1 },
    ];
    let s3 = Account::apply_all(&s0, &evts).unwrap();
    assert_eq!(s3, AccountData { balance: 1001, generation: 4 });
}

#[test]
fn apply_all_of_no_events_is_the_same_state() {
    let s0 = AccountData { balance: 42, generation: 7 };
    let s1 = Account::apply_all(&s0, &[]).unwrap();
    assert_eq!(s1, s0);
}

#[test]
fn apply_all_fails_fast_at_first_failing_event() {
    let s0 = AccountData { balance: 100, generation: 0 };
    let evts = vec![
        BankEvent::FundsDeposited { amount: 50 },
        BankEvent::FundsWithdrawn { amount: 1000 },
        BankEvent::FundsDeposited { amount: 1 },
    ];
    let err = Account::apply_all(&s0, &evts).unwrap_err();
    assert!(matches!(err.kind, Kind::ApplicationFailure(_)));
    assert_eq!(err.message(), "insufficient funds");
}

#[test]
fn withdrawal_below_zero_is_an_application_failure() {
    let s0 = AccountData { balance: 10, generation: 0 };
    let err = Account::apply_event(&s0, &BankEvent::FundsWithdrawn { amount: 11 }).unwrap_err();
    assert!(matches!(err.kind, Kind::ApplicationFailure(_)));
    assert_eq!(err.message(), "insufficient funds");
}

#[test]
fn deposit_overflowing_the_balance_is_an_application_failure() {
    let s0 = AccountData { balance: u32::MAX - 1, generation: 0 };
    let err = Account::apply_event(&s0, &BankEvent::FundsDeposited { amount: 2 }).unwrap_err();
    assert!(matches!(err.kind, Kind::ApplicationFailure(_)));
    assert_eq!(err.message(), "balance overflow");
}

#[test]
fn exhausted_generation_counter_is_an_application_failure() {
    let s0 = AccountData { balance: 0, generation: u64::MAX };
    let err = Account::apply_event(&s0, &BankEvent::FundsDeposited { amount: 1 }).unwrap_err();
    assert!(matches!(err.kind, Kind::ApplicationFailure(_)));
    assert_eq!(err.message(), "generation counter exhausted");
}
