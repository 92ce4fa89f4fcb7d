//! Event store behavior: appends, queries with their inclusive bounds, the
//! remote store client's computations, and dispatch with partial failures.

use eventsourcing::Aggregate;
use eventsourcing::Dispatcher;
use eventsourcing::Error;
use eventsourcing::Event;
use eventsourcing::Kind;
use eventsourcing::bank::Account;
use eventsourcing::bank::AccountData;
use eventsourcing::bank::AccountDispatcher;
use eventsourcing::bank::BankCommand;
use eventsourcing::bank::BankEvent;
use eventsourcing::cloudevents::CloudEvent;
use eventsourcing::eventstore::EventStore;
use eventsourcing::eventstore::MemoryEventStore;
use eventsourcing::eventstore::OrgEventStore;

const DEPOSITED: &str = "bankevent.fundsdeposited";

#[test]
fn append_records_every_event_with_distinct_ids() {
    let mut store: MemoryEventStore<BankEvent> = MemoryEventStore::new();
    let n = 5u32;
    let mut ids = Vec::new();
    for k in 0..n {
        let env = store.append(BankEvent::FundsDeposited { amount: k }, "account").unwrap();
        assert_eq!(env.data, BankEvent::FundsDeposited { amount: k });
        assert_eq!(env.event_type, DEPOSITED);
        assert_eq!(env.event_id.len(), 36);
        ids.push(env.event_id);
    }
    for a in 0..ids.len() {
        for b in 0..a {
            assert_ne!(ids[a], ids[b]);
        }
    }
    let all = store.get_all(DEPOSITED).unwrap();
    assert_eq!(all.len(), n as usize);
    for k in 0..n {
        assert_eq!(all[k as usize].data, BankEvent::FundsDeposited { amount: k });
    }
}

#[test]
fn append_with_metadata_rejects_a_duplicate_id() {
    let mut store: MemoryEventStore<BankEvent> = MemoryEventStore::new();
    let e = BankEvent::FundsDeposited { amount: 1 };
    store.append_with_metadata(e, "id-1".to_owned(), 10).unwrap();
    let err = store.append_with_metadata(e, "id-1".to_owned(), 11).unwrap_err();
    assert!(matches!(err.kind, Kind::StoreFailure(_)));
    assert_eq!(err.message(), "duplicate event id");
    let all = store.get_all(DEPOSITED).unwrap();
    assert_eq!(all.len(), 1);
}

#[test]
fn queries_filter_by_type_in_append_order() {
    let mut store: MemoryEventStore<BankEvent> = MemoryEventStore::new();
    store.append_with_metadata(BankEvent::FundsDeposited { amount: 1 }, "a".to_owned(), 1).unwrap();
    store.append_with_metadata(BankEvent::FundsWithdrawn { amount: 2 }, "b".to_owned(), 2).unwrap();
    store.append_with_metadata(BankEvent::FundsDeposited { amount: 3 }, "c".to_owned(), 3).unwrap();
    let deposits = store.get_all(DEPOSITED).unwrap();
    assert_eq!(deposits.len(), 2);
    assert_eq!(deposits[0].data, BankEvent::FundsDeposited { amount: 1 });
    assert_eq!(deposits[1].data, BankEvent::FundsDeposited { amount: 3 });
    let withdrawals = store.get_all("bankevent.fundswithdrawn").unwrap();
    assert_eq!(withdrawals.len(), 1);
    let none = store.get_all("bankevent.other").unwrap();
    assert!(none.is_empty());
}

#[test]
fn range_query_includes_both_ends_and_excludes_one_past_the_end() {
    let mut store: MemoryEventStore<BankEvent> = MemoryEventStore::new();
    let e = BankEvent::FundsDeposited { amount: 7 };
    store.append_with_metadata(e, "at-start".to_owned(), 100).unwrap();
    store.append_with_metadata(e, "inside".to_owned(), 150).unwrap();
    store.append_with_metadata(e, "at-end".to_owned(), 200).unwrap();
    store.append_with_metadata(e, "one-past".to_owned(), 201).unwrap();
    store.append_with_metadata(e, "before".to_owned(), 99).unwrap();
    let ranged = store.get_range(DEPOSITED, 100, 200).unwrap();
    assert_eq!(ranged.len(), 3);
    assert_eq!(ranged[0].event_id, "at-start");
    assert_eq!(ranged[1].event_id, "inside");
    assert_eq!(ranged[2].event_id, "at-end");
    let from = store.get_from(DEPOSITED, 200).unwrap();
    assert_eq!(from.len(), 2);
    assert_eq!(from[0].event_id, "at-end");
    assert_eq!(from[1].event_id, "one-past");
}

#[test]
fn dispatch_through_memory_store_wraps_the_event() {
    let mut store: MemoryEventStore<BankEvent> = MemoryEventStore::new();
    let s0 = AccountData { balance: 800, generation: 1 };
    let cmd = BankCommand::DepositFunds { amount: 500 };
    let results = AccountDispatcher::dispatch(&s0, &cmd, &mut store, "account");
    assert_eq!(results.len(), 1);
    let env = results.into_iter().next().unwrap().unwrap();
    assert_eq!(env.data, BankEvent::FundsDeposited { amount: 500 });
    assert_eq!(env.data.data_json(), "{\"type\":\"bankevent.fundsdeposited\",\"amount\":500}");
    assert_eq!(env.event_type, DEPOSITED);
    assert_eq!(env.content_type, "application/json");
    assert_eq!(env.cloud_events_version, "1.0");
}

/// An aggregate whose deposit decision yields two events, to observe
/// per-event dispatch outcomes. Only the executable surface matters here;
/// the specification members are never called at runtime.
struct DoubleDeposit;

impl Aggregate for DoubleDeposit {
    type Event = BankEvent;
    type Command = BankCommand;
    type State = AccountData;

    fn apply_event_spec(
        _state: AccountData,
        _evt: BankEvent,
    ) -> Result<AccountData, vstd::prelude::Seq<char>> {
        unreachable!()
    }

    fn handle_command_spec(
        _state: AccountData,
        _cmd: BankCommand,
    ) -> Result<vstd::prelude::Seq<BankEvent>, vstd::prelude::Seq<char>> {
        unreachable!()
    }

    fn lemma_apply_event_generation(_state: AccountData, _evt: BankEvent) {}

    fn apply_event(state: &AccountData, _evt: &BankEvent) -> Result<AccountData, Error> {
        Ok(AccountData { balance: state.balance, generation: state.generation + 1 })
    }

    fn handle_command(_state: &AccountData, cmd: &BankCommand) -> Result<Vec<BankEvent>, Error> {
        match *cmd {
            BankCommand::DepositFunds { amount } => Ok(vec![
                BankEvent::FundsDeposited { amount },
                BankEvent::FundsDeposited { amount },
            ]),
            BankCommand::WithdrawFunds { .. } => Err(Error {
                kind: Kind::CommandFailure("withdrawals are not accepted".to_owned()),
            }),
        }
    }
}

struct DoubleDispatcher;

impl Dispatcher for DoubleDispatcher {
    type Command = BankCommand;
    type Event = BankEvent;
    type State = AccountData;
    type Aggregate = DoubleDeposit;
}

/// A store that accepts a fixed number of appends and fails afterwards.
struct FlakyStore {
    remaining: u32,
}

impl EventStore<BankEvent> for FlakyStore {
    fn append(&mut self, evt: BankEvent, _stream: &str) -> Result<CloudEvent<BankEvent>, Error> {
        if self.remaining == 0 {
            return Err(Error { kind: Kind::StoreFailure("backend unavailable".to_owned()) });
        }
        self.remaining -= 1;
        Ok(CloudEvent {
            cloud_events_version: "1.0".to_owned(),
            event_type: evt.event_type().to_owned(),
            event_type_version: evt.event_type_version().to_owned(),
            source: evt.event_source().to_owned(),
            event_id: format!("fixed-{}", self.remaining),
            event_time: 0,
            content_type: "application/json".to_owned(),
            data: evt,
        })
    }
}

#[test]
fn dispatch_reports_each_append_outcome_independently() {
    let mut store = FlakyStore { remaining: 1 };
    let s0 = AccountData { balance: 0, generation: 0 };
    let cmd = BankCommand::DepositFunds { amount: 9 };
    let results = DoubleDispatcher::dispatch(&s0, &cmd, &mut store, "account");
    assert_eq!(results.len(), 2);
    assert!(results[0].is_ok());
    assert!(matches!(&results[1], Err(e) if matches!(e.kind, Kind::StoreFailure(_))));
}

#[test]
fn dispatch_of_a_rejected_command_reports_the_single_failure() {
    let mut store = FlakyStore { remaining: 10 };
    let s0 = AccountData { balance: 0, generation: 0 };
    let cmd = BankCommand::WithdrawFunds { amount: 1 };
    let results = DoubleDispatcher::dispatch(&s0, &cmd, &mut store, "account");
    assert_eq!(results.len(), 1);
    let err = results.into_iter().next().unwrap().unwrap_err();
    assert!(matches!(err.kind, Kind::CommandFailure(_)));
    assert_eq!(err.message(), "withdrawals are not accepted");
    assert_eq!(store.remaining, 10);
}

#[test]
fn stream_url_is_derived_from_host_port_and_stream() {
    let store = OrgEventStore::new("events.example.org", 8080);
    assert_eq!(store.build_stream_url("payments"), "http://events.example.org:8080/streams/payments");
    let default_store = OrgEventStore::default();
    assert_eq!(default_store.build_stream_url("account"), "http://localhost:2113/streams/account");
}

#[test]
fn only_a_created_status_acknowledges_a_post() {
    assert!(OrgEventStore::interpret_post_status(201).is_ok());
    let err = OrgEventStore::interpret_post_status(500).unwrap_err();
    assert!(matches!(err.kind, Kind::StoreFailure(_)));
    assert_eq!(err.message(), "Failed to post to event store (500)");
    let err = OrgEventStore::interpret_post_status(200).unwrap_err();
    assert_eq!(err.message(), "Failed to post to event store (200)");
}
