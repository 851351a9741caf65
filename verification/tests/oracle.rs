use simple_oracle::http::{HttpError, HTTP_DEFAULT_ENDPOINT};
use simple_oracle::json::{json_input_is_within_limits, JsonDocument, JsonField, JsonMember, JsonNumber};
use simple_oracle::pallet::{Call, Config, DispatchError, Error, Event, Origin, Pallet};
use simple_oracle::validation::{InvalidTransaction, TransactionSource};
use simple_oracle::worker::{WorkerAction, WorkerError, WorkerEvent};

fn config(max_prices: u32) -> Config {
    Config { unsigned_interval: 128, unsigned_priority: 1 << 20, max_prices, max_endpoint_length: 64 }
}

fn number(integer: u64, fraction: u64, fraction_length: u32) -> JsonNumber {
    JsonNumber { integer, fraction, fraction_length, exponent: 0, negative: false }
}

#[test]
fn parse_price_reads_cents() {
    assert_eq!(Pallet::parse_price(r#"{"USD": 6536.92}"#), Some(653692));
    assert_eq!(Pallet::parse_price(r#"{"USD":6294.68}"#), Some(629468));
    assert_eq!(Pallet::parse_price(r#"{"USD": 5}"#), Some(500));
}

#[test]
fn parse_price_cuts_fraction_to_cents() {
    assert_eq!(Pallet::parse_price(r#"{"USD": 6294.6789}"#), Some(629467));
    assert_eq!(Pallet::parse_price(r#"{"USD": 0.5}"#), Some(50));
    assert_eq!(Pallet::parse_price(r#"{"USD":65.5}"#), Some(6550));
    assert_eq!(Pallet::parse_price(r#"{"USD": 0.1234567891}"#), Some(12));
}

#[test]
fn parse_price_reads_exponent_and_sign() {
    assert_eq!(Pallet::parse_price(r#"{"USD": 1e2}"#), Some(10000));
    assert_eq!(Pallet::parse_price(r#"{"USD": 1.5E-1}"#), Some(15));
    assert_eq!(Pallet::parse_price(r#"{"USD": 123e-4}"#), Some(1));
    assert_eq!(Pallet::parse_price(r#"{"USD": 2.5e+1}"#), Some(2500));
    assert_eq!(Pallet::parse_price(r#"{"USD": 7e-30}"#), Some(0));
    assert_eq!(Pallet::parse_price(r#"{"USD": -1.00}"#), None);
    assert_eq!(Pallet::parse_price(r#"{"USD": -0}"#), Some(0));
}

#[test]
fn parse_price_takes_first_usd_member() {
    assert_eq!(Pallet::parse_price(r#"{"EUR": 1.00, "USD": 2.50, "USD": 3.00}"#), Some(250));
}

#[test]
fn parse_price_rejects_other_shapes() {
    assert_eq!(Pallet::parse_price(r#"{"EUR": 1.00}"#), None);
    assert_eq!(Pallet::parse_price(r#"{"USD": "12.00"}"#), None);
    assert_eq!(Pallet::parse_price(r#"[1, 2]"#), None);
    assert_eq!(Pallet::parse_price("not json"), None);
    assert_eq!(Pallet::parse_price(""), None);
}

#[test]
fn parse_price_refuses_overflow() {
    // The cents do not fit a u32.
    assert_eq!(Pallet::parse_price(r#"{"USD": 50000000.00}"#), None);
    assert_eq!(Pallet::parse_price(r#"{"USD": 12345678901}"#), None);
    assert_eq!(Pallet::parse_price(r#"{"USD": 1e10}"#), None);
    // Digit runs the parser could overflow on are refused before parsing.
    assert_eq!(Pallet::parse_price(r#"{"USD": 12345678901234567890}"#), None);
    assert_eq!(Pallet::parse_price(r#"{"USD": 123456789012345678901}"#), None);
    assert_eq!(Pallet::parse_price(r#"{"USD": 1e1234567890}"#), None);
    assert_eq!(Pallet::parse_price(r#"{"USD": 1e9999999999}"#), None);
    assert!(json_input_is_within_limits("1234567890123456789"));
    assert!(!json_input_is_within_limits("123456789012345678901"));
    assert!(json_input_is_within_limits("1e123456789"));
    assert!(json_input_is_within_limits("1e1234567890"));
    assert!(!json_input_is_within_limits("1e9999999999"));
    assert!(!json_input_is_within_limits("1E-9999999999"));
    assert!(json_input_is_within_limits("1-1234567890"));
}

#[test]
fn price_from_number_and_document() {
    assert_eq!(Pallet::price_from_number(&number(8, 123, 3)), Some(812));
    assert_eq!(Pallet::price_from_number(&number(1, 0, 22)), Some(100));
    assert_eq!(Pallet::price_from_number(&number(42_949_672, 95, 2)), Some(u32::MAX));
    assert_eq!(Pallet::price_from_number(&number(42_949_673, 0, 0)), None);
    let negative = JsonNumber { negative: true, ..number(3, 0, 0) };
    assert_eq!(Pallet::price_from_number(&negative), None);
    let big_exponent = JsonNumber { exponent: i32::MAX, ..number(0, 0, 0) };
    assert_eq!(Pallet::price_from_number(&big_exponent), Some(0));
    let tiny = JsonNumber { exponent: i32::MIN, ..number(u64::MAX, u64::MAX, u32::MAX) };
    assert_eq!(Pallet::price_from_number(&tiny), Some(0));
    let doc = JsonDocument::Object(vec![
        JsonMember { key: vec!['B', 'T', 'C'], value: JsonField::Number(number(1, 0, 0)) },
        JsonMember { key: vec!['U', 'S', 'D'], value: JsonField::Number(number(7, 5, 2)) },
    ]);
    assert_eq!(Pallet::price_from_document(&doc), Some(705));
    assert_eq!(Pallet::price_from_document(&JsonDocument::Other), None);
    let other = JsonDocument::Object(vec![JsonMember { key: vec!['U', 'S', 'D'], value: JsonField::Other }]);
    assert_eq!(Pallet::usd_number_of(&other), None);
}

#[test]
fn genesis_is_empty() {
    let p = Pallet::new(config(3));
    assert!(p.prices().is_empty());
    assert_eq!(p.price(), 0);
    assert_eq!(p.next_unsigned_at(), 0);
    assert!(p.http_endpoint().is_empty());
    assert_eq!(p.average_price(), None);
}

#[test]
fn submit_price_fills_ring_buffer() {
    let mut p = Pallet::new(config(3));
    for price in [1u32, 2, 3] {
        assert_eq!(p.submit_price(Origin::Root, price), Ok(()));
    }
    assert_eq!(p.prices(), &vec![1, 2, 3]);
    assert_eq!(p.average_price(), Some(2));
    // Full: the oldest price makes room.
    assert_eq!(p.submit_price(Origin::Root, 4), Ok(()));
    assert_eq!(p.prices(), &vec![2, 3, 4]);
    assert_eq!(p.price(), 4);
    assert_eq!(p.average_price(), Some(3));
    match p.events().last() {
        Some(Event::NewPrice { price, average, maybe_who }) => {
            assert_eq!((*price, *average, *maybe_who), (4, 3, None));
        }
        _ => panic!("no NewPrice event"),
    }
    assert_eq!(p.events().len(), 4);
}

#[test]
fn submit_price_needs_root() {
    let mut p = Pallet::new(config(3));
    assert_eq!(p.submit_price(Origin::Signed(7), 10), Err(DispatchError::BadOrigin));
    assert_eq!(p.submit_price(Origin::Unsigned, 10), Err(DispatchError::BadOrigin));
    assert!(p.prices().is_empty());
    assert!(p.events().is_empty());
}

#[test]
fn average_of_large_prices() {
    let mut p = Pallet::new(config(4));
    p.submit_price(Origin::Root, u32::MAX).unwrap();
    p.submit_price(Origin::Root, u32::MAX).unwrap();
    assert_eq!(p.average_price(), Some(u32::MAX));
    p.submit_price(Origin::Root, 0).unwrap();
    assert_eq!(p.average_price(), Some(2_863_311_530));
}

#[test]
fn ring_buffer_keeps_last_two() {
    let mut p = Pallet::new(config(2));
    for price in [10u32, 20, 31] {
        p.submit_price(Origin::Root, price).unwrap();
    }
    assert_eq!(p.prices(), &vec![20, 31]);
    assert_eq!(p.average_price(), Some(25));
}

#[test]
fn add_price_records_who() {
    let mut p = Pallet::new(config(2));
    p.add_price(Some(9), 70);
    match p.events().last() {
        Some(Event::NewPrice { price, average, maybe_who }) => {
            assert_eq!((*price, *average, *maybe_who), (70, 70, Some(9)));
        }
        _ => panic!("no NewPrice event"),
    }
}

#[test]
fn set_endpoint_stores_and_reports() {
    let mut p = Pallet::new(config(3));
    assert_eq!(p.http_endpoint_str(), HTTP_DEFAULT_ENDPOINT);
    let url = b"https://example.com/price".to_vec();
    assert_eq!(p.set_endpoint(Origin::Root, url.clone()), Ok(()));
    assert_eq!(p.http_endpoint(), &url);
    assert_eq!(p.http_endpoint_str(), "https://example.com/price");
    match p.events().last() {
        Some(Event::NewHttpEndpoint { endpoint }) => assert_eq!(endpoint, &url),
        _ => panic!("no NewHttpEndpoint event"),
    }
}

#[test]
fn set_endpoint_errors() {
    let mut p = Pallet::new(config(3));
    assert_eq!(p.set_endpoint(Origin::Signed(1), b"x".to_vec()), Err(DispatchError::BadOrigin));
    assert_eq!(
        p.set_endpoint(Origin::Root, vec![b'a'; 65]),
        Err(DispatchError::Module(Error::TooLongHttpEndpoint))
    );
    assert!(p.http_endpoint().is_empty());
    assert_eq!(p.set_endpoint(Origin::Root, vec![b'a'; 64]), Ok(()));
}

#[test]
fn invalid_utf8_endpoint_falls_back_to_default() {
    let mut p = Pallet::new(config(3));
    p.set_endpoint(Origin::Root, vec![0xff, 0xfe]).unwrap();
    assert_eq!(p.http_endpoint_str(), HTTP_DEFAULT_ENDPOINT);
    p.set_endpoint(Origin::Root, Vec::new()).unwrap();
    assert_eq!(p.http_endpoint_str(), HTTP_DEFAULT_ENDPOINT);
}

#[test]
fn submit_price_unsigned_sets_next_slot() {
    let mut p = Pallet::new(config(3));
    p.set_block_number(10);
    assert_eq!(p.submit_price_unsigned(Origin::Root, 10, 5), Err(DispatchError::BadOrigin));
    assert_eq!(p.submit_price_unsigned(Origin::Unsigned, 10, 5), Ok(()));
    assert_eq!(p.next_unsigned_at(), 138);
    assert_eq!(p.prices(), &vec![5]);
}

#[test]
fn validate_unsigned_rejects_other_calls() {
    let p = Pallet::new(config(3));
    let call = Call::SubmitPrice { price: 1 };
    assert_eq!(p.validate_unsigned(TransactionSource::External, &call).unwrap_err(), InvalidTransaction::Call);
    let call = Call::SetEndpoint { new_endpoint: vec![] };
    assert_eq!(p.validate_unsigned(TransactionSource::Local, &call).unwrap_err(), InvalidTransaction::Call);
}

#[test]
fn validate_unsigned_stale_and_future() {
    let mut p = Pallet::new(config(3));
    p.set_block_number(10);
    p.submit_price_unsigned(Origin::Unsigned, 10, 100).unwrap();
    p.set_block_number(200);
    let stale = Call::SubmitPriceUnsigned { block_number: 137, price: 100 };
    assert_eq!(p.validate_unsigned(TransactionSource::External, &stale).unwrap_err(), InvalidTransaction::Stale);
    let future = Call::SubmitPriceUnsigned { block_number: 201, price: 100 };
    assert_eq!(p.validate_unsigned(TransactionSource::External, &future).unwrap_err(), InvalidTransaction::Future);
    let ok = Call::SubmitPriceUnsigned { block_number: 138, price: 100 };
    assert!(p.validate_unsigned(TransactionSource::External, &ok).is_ok());
}

#[test]
fn validate_unsigned_priority_and_tag() {
    let mut p = Pallet::new(config(3));
    p.submit_price(Origin::Root, 100).unwrap();
    p.set_block_number(5);
    let v = p.validate_transaction_parameters(&5, &130).unwrap();
    assert_eq!(v.priority, (1 << 20) + 30);
    assert_eq!(v.longevity, 5);
    assert!(v.propagate);
    assert!(v.requires.is_empty());
    let mut tag = vec![21u8 << 2];
    tag.extend_from_slice(b"ExampleOffchainWorker");
    tag.extend_from_slice(&0u32.to_le_bytes());
    assert_eq!(v.provides, vec![tag]);
    let below = p.validate_transaction_parameters(&5, &70).unwrap();
    assert_eq!(below.priority, (1 << 20) + 30);
}

#[test]
fn priority_without_prices_is_base() {
    let p = Pallet::new(config(3));
    let v = p.validate_transaction_parameters(&0, &1000).unwrap();
    assert_eq!(v.priority, 1 << 20);
}

#[test]
fn price_from_response_cases() {
    assert_eq!(Pallet::price_from_response(200, br#"{"USD": 12.34}"#), Ok(1234));
    assert_eq!(Pallet::price_from_response(404, br#"{"USD": 12.34}"#), Err(HttpError::Unknown));
    assert_eq!(Pallet::price_from_response(200, &[0xff, 0x00]), Err(HttpError::Unknown));
    assert_eq!(Pallet::price_from_response(200, b"{}"), Err(HttpError::Unknown));
}

#[test]
fn worker_steps() {
    let mut p = Pallet::new(config(3));
    p.set_block_number(10);
    p.submit_price_unsigned(Origin::Unsigned, 10, 1).unwrap();
    match p.fetch_price_and_send_raw_unsigned(WorkerEvent::Started { block_number: 20 }) {
        WorkerAction::Finish(Err(e)) => {
            assert_eq!(e, WorkerError::TooEarly);
            assert_eq!(e.message(), "Too early to send unsigned transaction");
        }
        _ => panic!("expected TooEarly"),
    }
    assert!(matches!(
        p.fetch_price_and_send_raw_unsigned(WorkerEvent::Started { block_number: 138 }),
        WorkerAction::FetchPrice
    ));
    match p.fetch_price_and_send_raw_unsigned(WorkerEvent::PriceFetched { block_number: 138, result: Ok(42) }) {
        WorkerAction::SubmitUnsigned(Call::SubmitPriceUnsigned { block_number, price }) => {
            assert_eq!((block_number, price), (138, 42));
        }
        _ => panic!("expected a submission"),
    }
    assert!(matches!(
        p.fetch_price_and_send_raw_unsigned(WorkerEvent::PriceFetched { block_number: 138, result: Err(HttpError::IoError) }),
        WorkerAction::Finish(Err(WorkerError::FetchFailed))
    ));
    assert!(matches!(
        p.fetch_price_and_send_raw_unsigned(WorkerEvent::Submitted { result: Err(()) }),
        WorkerAction::Finish(Err(WorkerError::SubmitFailed))
    ));
    assert!(matches!(
        p.fetch_price_and_send_raw_unsigned(WorkerEvent::Submitted { result: Ok(()) }),
        WorkerAction::Finish(Ok(()))
    ));
    assert_eq!(WorkerError::FetchFailed.message(), "Failed to fetch price");
    assert_eq!(WorkerError::SubmitFailed.message(), "Unable to submit unsigned transaction.");
}

#[test]
fn unsigned_once_per_interval_scenario() {
    let mut p = Pallet::new(config(3));
    p.set_block_number(50);
    p.submit_price_unsigned(Origin::Unsigned, 50, 10).unwrap();
    for now in [50u32, 100, 177, 178, 500] {
        p.set_block_number(now);
        let call = Call::SubmitPriceUnsigned { block_number: 177, price: 10 };
        assert_eq!(p.validate_unsigned(TransactionSource::External, &call).unwrap_err(), InvalidTransaction::Stale);
    }
}

#[test]
fn long_digit_runs_in_strings_are_read() {
    assert_eq!(Pallet::parse_price(r#"{"USD": 5, "id": "12345678901234567890"}"#), Some(500));
    assert_eq!(Pallet::parse_price(r#"{"id": "99999999999999999999e99999999999", "USD": 1.25}"#), Some(125));
    assert_eq!(Pallet::parse_price(r#"{"a\"1234567890123456789012": 1, "USD": 2}"#), Some(200));
    assert!(json_input_is_within_limits(r#""12345678901234567890""#));
    assert!(json_input_is_within_limits(r#""\"12345678901234567890""#));
    assert!(!json_input_is_within_limits(r#""\\"123456789012345678901"#));
}

#[test]
fn number_runs_are_limited_by_value() {
    // Up to u64::MAX in integer and fraction parts.
    assert!(json_input_is_within_limits("18446744073709551615"));
    assert!(!json_input_is_within_limits("18446744073709551616"));
    assert!(json_input_is_within_limits("0.00000000000000000000000001"));
    assert_eq!(Pallet::parse_price(r#"{"USD": 1.00000000000000000000000001}"#), Some(100));
    // Up to i32::MAX in an exponent.
    assert!(json_input_is_within_limits("1e2147483647"));
    assert!(!json_input_is_within_limits("1e2147483648"));
    assert!(!json_input_is_within_limits("1e-2147483648"));
    assert_eq!(Pallet::parse_price(r#"{"USD": 1e-2147483647}"#), Some(0));
}

#[test]
fn unsigned_submission_matches_root_submission() {
    let mut a = Pallet::new(config(3));
    let mut b = Pallet::new(config(3));
    a.set_block_number(7);
    b.set_block_number(7);
    a.submit_price(Origin::Root, 42).unwrap();
    b.submit_price_unsigned(Origin::Unsigned, 3, 42).unwrap();
    assert_eq!(a.prices(), b.prices());
    assert_eq!(a.price(), b.price());
    assert_eq!(a.next_unsigned_at(), 0);
    assert_eq!(b.next_unsigned_at(), 135);
}
