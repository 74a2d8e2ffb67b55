use std::collections::HashSet;
use std::time::{Duration, SystemTime, UNIX_EPOCH};
use timeflake::flake::random_from_bytes;
use timeflake::{Timeflake, TimeflakeError};

#[test]
fn parse_test() {
    let flake = Timeflake::from_values(Duration::from_millis(424242), Some(242424)).unwrap();
    let flake2 = Timeflake::parse(&flake.to_string()).unwrap();

    assert_eq!(flake.timestamp.as_millis(), 424242);
    assert_eq!(flake.random, 242424);
    assert_eq!(flake.timestamp, flake2.timestamp);
    assert_eq!(flake.random, flake2.random);
}

#[test]
fn example() {
    let time = SystemTime::now().duration_since(UNIX_EPOCH).unwrap();
    println!("{}", Timeflake::random().unwrap().to_string());
    println!("{}", Timeflake::from_values(time, Some(0)).unwrap().to_string());
    println!("{}", Timeflake::from_values(time, None).unwrap().to_string());
    println!("{}", Timeflake::from_values(time, None).unwrap().to_string());
}

#[test]
fn concrete_encoding() {
    let flake = Timeflake::from_values(Duration::from_millis(424242), Some(242424)).unwrap();
    assert_eq!(flake.as_u128(), (424242u128 << 80) | 242424);
    assert_eq!(flake.to_string(), "00000006-7932-0000-0000-00000003b2f8");
    let back = Timeflake::parse(&flake.to_string()).unwrap();
    assert_eq!(back.timestamp.as_millis(), 424242);
    assert_eq!(back.random, 242424);
}

#[test]
fn text_round_trip_at_the_limits() {
    let max_millis = (1u64 << 48) - 1;
    let max_random = (1u128 << 80) - 1;
    for (ms, r) in [(0u64, 0u128), (max_millis, max_random), (1, max_random), (max_millis, 0)] {
        let flake = Timeflake::from_values(Duration::from_millis(ms), Some(r)).unwrap();
        let back = Timeflake::parse(&flake.to_string()).unwrap();
        assert_eq!(back.timestamp.as_millis(), ms as u128);
        assert_eq!(back.random, r);
    }
    let top = Timeflake::from_values(Duration::from_millis(max_millis), Some(max_random)).unwrap();
    assert_eq!(top.to_string(), "ffffffff-ffff-ffff-ffff-ffffffffffff");
    assert_eq!(top.as_u128(), u128::MAX);
}

#[test]
fn integer_round_trip() {
    let flake = Timeflake::from_values(Duration::from_millis(1_650_000_000_123), Some(0xABCD_EF01_2345_6789_ABCD)).unwrap();
    let back = Timeflake::from_u128(flake.as_u128());
    assert_eq!(back.timestamp.as_millis(), 1_650_000_000_123);
    assert_eq!(back.random, 0xABCD_EF01_2345_6789_ABCD);
}

#[test]
fn explicit_construction_is_deterministic() {
    let a = Timeflake::from_values(Duration::from_millis(987654321), Some(123456789)).unwrap();
    let b = Timeflake::from_values(Duration::from_millis(987654321), Some(123456789)).unwrap();
    assert_eq!(a.as_u128(), b.as_u128());
    assert_eq!(a.to_string(), b.to_string());
}

#[test]
fn oversized_random_is_masked() {
    let flake = Timeflake::from_values(Duration::from_millis(5), Some(u128::MAX)).unwrap();
    assert_eq!(flake.random, (1u128 << 80) - 1);
    assert_eq!(flake.as_u128(), (5u128 << 80) | ((1u128 << 80) - 1));
}

#[test]
fn oversized_timestamp_is_truncated() {
    let flake = Timeflake::from_values(Duration::from_millis((1u64 << 48) + 7), Some(3)).unwrap();
    assert_eq!(flake.as_u128(), (7u128 << 80) | 3);
}

#[test]
fn random_payloads_do_not_repeat() {
    let time = Duration::from_millis(1_000);
    let mut seen = HashSet::new();
    for _ in 0..1000 {
        let flake = Timeflake::from_values(time, None).unwrap();
        assert!(flake.random < (1u128 << 80));
        assert_eq!(flake.timestamp, time);
        assert!(seen.insert(flake.random));
    }
    let mut generated = HashSet::new();
    for _ in 0..1000 {
        assert!(generated.insert(Timeflake::random().unwrap().random));
    }
}

#[test]
fn earlier_timestamps_encode_lower() {
    let early = Timeflake::from_values(Duration::from_millis(1000), Some((1u128 << 80) - 1)).unwrap();
    let late = Timeflake::from_values(Duration::from_millis(1001), Some(0)).unwrap();
    assert!(early.as_u128() < late.as_u128());
    assert!(early.to_string() < late.to_string());
}

#[test]
fn malformed_text_is_rejected() {
    for text in ["not-a-valid-id", "", "0000000g-7932-0000-0000-00000003b2f8", "00000006+7932-0000-0000-00000003b2f8"] {
        match Timeflake::parse(text) {
            Err(TimeflakeError::MalformedData { msg }) => assert!(!msg.is_empty()),
            other => panic!("{:?} gave {:?}", text, other),
        }
    }
}

#[test]
fn other_uuid_forms_are_accepted() {
    let simple = Timeflake::parse("0000000679320000000000000003B2F8").unwrap();
    assert_eq!(simple.timestamp.as_millis(), 424242);
    assert_eq!(simple.random, 242424);
    let braced = Timeflake::parse("{00000006-7932-0000-0000-00000003b2f8}").unwrap();
    assert_eq!(braced.timestamp.as_millis(), 424242);
    assert_eq!(braced.random, 242424);
    let urn = Timeflake::parse("URN:uuid:00000006-7932-0000-0000-00000003b2f8").unwrap();
    assert_eq!(urn.timestamp.as_millis(), 424242);
    assert_eq!(urn.random, 242424);
    assert!(Timeflake::parse("[00000006-7932-0000-0000-00000003b2f8]").is_err());
}

#[test]
fn payload_from_bytes_is_little_endian() {
    assert_eq!(random_from_bytes([1, 0, 0, 0, 0, 0, 0, 0, 0, 0]), 1);
    assert_eq!(random_from_bytes([0, 0, 0, 0, 0, 0, 0, 0, 0, 0x80]), 1u128 << 79);
    assert_eq!(random_from_bytes([0xff; 10]), (1u128 << 80) - 1);
    assert_eq!(random_from_bytes([0x34, 0x12, 0, 0, 0, 0, 0, 0, 0, 0]), 0x1234);
}

#[test]
fn draw_outcome_decides_payload_or_error() {
    let t = Duration::from_millis(77);
    let ok = Timeflake::from_draw(t, Ok([0x34, 0x12, 0, 0, 0, 0, 0, 0, 0, 0x01])).unwrap();
    assert_eq!(ok.timestamp.as_millis(), 77);
    assert_eq!(ok.random, 0x1234 | (1u128 << 72));
    match Timeflake::from_draw(t, Err("source unavailable".to_string())) {
        Err(TimeflakeError::RNGError { msg }) => assert_eq!(msg, "source unavailable"),
        other => panic!("unexpected {:?}", other),
    }
}

#[test]
fn clock_reading_decides_time_or_error() {
    match Timeflake::from_clock(Err("second time provided was later than self".to_string())) {
        Err(TimeflakeError::SystemTimeError { msg }) => {
            assert_eq!(msg, "second time provided was later than self")
        }
        other => panic!("unexpected {:?}", other),
    }
    let flake = Timeflake::from_clock(Ok(Duration::new(1_700_000_000, 123_456_789))).unwrap();
    assert_eq!(flake.timestamp, Duration::from_millis(1_700_000_000_123));
    assert!(flake.random < (1u128 << 80));
}

#[test]
fn timestamps_are_kept_to_whole_milliseconds() {
    let flake = Timeflake::from_values(Duration::new(5, 999_999), Some(1)).unwrap();
    assert_eq!(flake.timestamp, Duration::from_millis(5000));
    let back = Timeflake::parse(&flake.to_string()).unwrap();
    assert_eq!(back.timestamp, flake.timestamp);
}

#[test]
fn distinct_draws_give_distinct_payloads() {
    let a = random_from_bytes([1, 2, 3, 4, 5, 6, 7, 8, 9, 10]);
    let b = random_from_bytes([1, 2, 3, 4, 5, 6, 7, 8, 9, 11]);
    assert_ne!(a, b);
    assert_eq!(a, random_from_bytes([1, 2, 3, 4, 5, 6, 7, 8, 9, 10]));
}
