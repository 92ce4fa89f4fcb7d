//! Payload codec behavior: JSON payload text, its exact shape, and the
//! lossless round trip back to the event.

use eventsourcing::Event;
use eventsourcing::bank::BankEvent;
use eventsourcing::decimal::parse_decimal_u32;
use eventsourcing::decimal::u32_to_decimal;

#[test]
fn deposited_payload_has_exact_shape() {
    let e = BankEvent::FundsDeposited { amount: 500 };
    assert_eq!(e.data_json(), "{\"type\":\"bankevent.fundsdeposited\",\"amount\":500}");
}

#[test]
fn withdrawn_payload_has_exact_shape() {
    let e = BankEvent::FundsWithdrawn { amount: 0 };
    assert_eq!(e.data_json(), "{\"type\":\"bankevent.fundswithdrawn\",\"amount\":0}");
}

#[test]
fn payload_round_trips_to_equal_event() {
    let cases = vec![
        BankEvent::FundsDeposited { amount: 0 },
        BankEvent::FundsDeposited { amount: 500 },
        BankEvent::FundsDeposited { amount: u32::MAX },
        BankEvent::FundsWithdrawn { amount: 1 },
        BankEvent::FundsWithdrawn { amount: 1000000 },
    ];
    for e in cases {
        let text = e.data_json();
        let back = BankEvent::from_data_json(&text).unwrap();
        assert_eq!(back, e);
    }
}

#[test]
fn malformed_payloads_are_rejected() {
    assert!(BankEvent::from_data_json("").is_none());
    assert!(BankEvent::from_data_json("{}").is_none());
    assert!(BankEvent::from_data_json("{\"type\":\"bankevent.fundsdeposited\",\"amount\":}").is_none());
    assert!(BankEvent::from_data_json("{\"type\":\"bankevent.fundsdeposited\",\"amount\":12").is_none());
    assert!(BankEvent::from_data_json("{\"type\":\"bankevent.fundsdeposited\",\"amount\":007}").is_none());
    assert!(BankEvent::from_data_json("{\"type\":\"bankevent.fundsdeposited\",\"amount\":4294967296}").is_none());
    assert!(BankEvent::from_data_json("{\"type\":\"bankevent.fundsstolen\",\"amount\":12}").is_none());
    assert!(BankEvent::from_data_json("{\"type\":\"bankevent.fundsdeposited\",\"amount\":12}}").is_none());
}

#[test]
fn event_metadata_is_stable() {
    let d = BankEvent::FundsDeposited { amount: 1 };
    let w = BankEvent::FundsWithdrawn { amount: 1 };
    assert_eq!(d.event_type(), "bankevent.fundsdeposited");
    assert_eq!(w.event_type(), "bankevent.fundswithdrawn");
    assert_eq!(d.event_type_version(), "1.0");
    assert_eq!(d.event_source(), "events://github.com/pholactery/eventsourcing/samples/bank");
}

#[test]
fn decimal_text_round_trips() {
    for n in [0u32, 1, 9, 10, 99, 100, 2113, 4294967295] {
        let text = u32_to_decimal(n);
        let v = parse_decimal_u32(&text, 0, text.len()).unwrap();
        assert_eq!(v, n);
    }
    assert_eq!(u32_to_decimal(0), "0");
    assert_eq!(u32_to_decimal(2113), "2113");
}

#[test]
fn non_canonical_decimals_are_rejected() {
    let text = "0123";
    assert!(parse_decimal_u32(text, 0, text.len()).is_none());
    let empty = "";
    assert!(parse_decimal_u32(empty, 0, 0).is_none());
    let big = "4294967296";
    assert!(parse_decimal_u32(big, 0, big.len()).is_none());
    let max = "4294967295";
    assert_eq!(parse_decimal_u32(max, 0, max.len()), Some(u32::MAX));
}
