use staten::handler::{begin, conclude, plan, HandlerStep, Outcome, WriteFailure};
use staten::packet::{parse_packet, AirQualityPacket, ParseFailure};
use staten::reading::{stamp, TimestampedReading};

fn clock() -> u64 {
    chrono::Utc::now().timestamp_nanos_opt().unwrap() as u64
}

#[test]
fn valid_message_leads_to_a_write_of_its_value() {
    let body = br#"{"pm25":106,"wifi":{"ssid":"X","ip":"1.2.3.4","rssi":-59}}"#;
    assert_eq!(parse_packet(body), Ok(AirQualityPacket { pm25: 106 }));
    match begin(body) {
        HandlerStep::Write(reading) => assert_eq!(reading.pm25, 106),
        HandlerStep::Done(outcome) => panic!("no write: {:?}", outcome),
    }
}

#[test]
fn message_without_field_is_reported_and_not_written() {
    assert_eq!(
        begin(br#"{"wifi":{}}"#),
        HandlerStep::Done(Outcome::ParseFailed(ParseFailure::MissingField))
    );
}

#[test]
fn message_that_is_no_json_is_not_written() {
    assert_eq!(begin(b"not json"), HandlerStep::Done(Outcome::ParseFailed(ParseFailure::Malformed)));
}

#[test]
fn message_with_text_field_is_not_written() {
    assert_eq!(
        begin(br#"{"pm25":"high"}"#),
        HandlerStep::Done(Outcome::ParseFailed(ParseFailure::NotAnInteger))
    );
}

#[test]
fn reading_is_stamped_within_the_handling() {
    let before = clock();
    let step = begin(br#"{"pm25":42}"#);
    let after = clock();
    match step {
        HandlerStep::Write(reading) => {
            assert_eq!(reading.pm25, 42);
            assert!(before <= reading.time && reading.time <= after);
        }
        HandlerStep::Done(outcome) => panic!("no write: {:?}", outcome),
    }
}

#[test]
fn time_in_the_payload_is_not_used() {
    let before = clock();
    match begin(br#"{"pm25":9,"time":12345,"timestamp":"1999-01-01T00:00:00Z"}"#) {
        HandlerStep::Write(reading) => assert!(reading.time >= before),
        HandlerStep::Done(outcome) => panic!("no write: {:?}", outcome),
    }
}

#[test]
fn plan_stamps_a_packet_with_the_clock() {
    assert_eq!(
        plan(Ok(AirQualityPacket { pm25: 42 }), Some(1_700_000_000_000_000_000)),
        HandlerStep::Write(TimestampedReading { pm25: 42, time: 1_700_000_000_000_000_000 })
    );
    assert_eq!(
        plan(Ok(AirQualityPacket { pm25: -1 }), Some(0)),
        HandlerStep::Write(TimestampedReading { pm25: -1, time: 0 })
    );
    assert_eq!(
        plan(Ok(AirQualityPacket { pm25: 1 }), Some(i64::MAX)),
        HandlerStep::Write(TimestampedReading { pm25: 1, time: 9_223_372_036_854_775_807 })
    );
}

#[test]
fn plan_without_an_instant_fails_the_write() {
    assert_eq!(
        plan(Ok(AirQualityPacket { pm25: 42 }), None),
        HandlerStep::Done(Outcome::WriteFailed(WriteFailure::Clock))
    );
    assert_eq!(
        plan(Ok(AirQualityPacket { pm25: 42 }), Some(-1)),
        HandlerStep::Done(Outcome::WriteFailed(WriteFailure::Clock))
    );
}

#[test]
fn plan_passes_each_parse_failure_on() {
    for failure in [ParseFailure::Malformed, ParseFailure::MissingField, ParseFailure::NotAnInteger] {
        assert_eq!(plan(Err(failure), Some(5)), HandlerStep::Done(Outcome::ParseFailed(failure)));
        assert_eq!(plan(Err(failure), None), HandlerStep::Done(Outcome::ParseFailed(failure)));
    }
}

#[test]
fn stamp_keeps_value_and_instant() {
    assert_eq!(
        stamp(AirQualityPacket { pm25: 7 }, Some(99)),
        Some(TimestampedReading { pm25: 7, time: 99 })
    );
    assert_eq!(stamp(AirQualityPacket { pm25: 7 }, Some(i64::MIN)), None);
    assert_eq!(stamp(AirQualityPacket { pm25: 7 }, None), None);
}

#[test]
fn accepted_write_is_a_success_with_the_value() {
    let reading = TimestampedReading { pm25: 106, time: 1 };
    assert_eq!(conclude(&reading, true), Outcome::Stored(106));
}

#[test]
fn unreachable_store_is_reported_and_the_next_message_is_handled() {
    let first = match begin(br#"{"pm25":10}"#) {
        HandlerStep::Write(reading) => conclude(&reading, false),
        HandlerStep::Done(outcome) => outcome,
    };
    assert_eq!(first, Outcome::WriteFailed(WriteFailure::Store));
    let second = match begin(br#"{"pm25":11}"#) {
        HandlerStep::Write(reading) => conclude(&reading, true),
        HandlerStep::Done(outcome) => outcome,
    };
    assert_eq!(second, Outcome::Stored(11));
}

#[test]
fn writes_equal_valid_messages_in_a_mixed_run() {
    let bodies: Vec<&[u8]> = vec![
        br#"{"pm25":1}"#,
        b"not json",
        br#"{"pm25":2,"wifi":{}}"#,
        br#"{"wifi":{}}"#,
        br#"{"pm25":"3"}"#,
        br#"{"pm25":4}"#,
    ];
    let mut stored: Vec<i32> = Vec::new();
    let mut failed = 0;
    for body in bodies {
        match begin(body) {
            HandlerStep::Write(reading) => match conclude(&reading, true) {
                Outcome::Stored(pm25) => stored.push(pm25),
                other => panic!("write failed: {:?}", other),
            },
            HandlerStep::Done(Outcome::ParseFailed(_)) => failed += 1,
            HandlerStep::Done(other) => panic!("unexpected: {:?}", other),
        }
    }
    assert_eq!(stored, vec![1, 2, 4]);
    assert_eq!(failed, 3);
}

#[test]
fn thousand_messages_are_all_written() {
    let mut steps: Vec<HandlerStep> = Vec::new();
    let mut n: i32 = 0;
    while n < 1000 {
        let body = format!("{{\"pm25\":{}}}", n);
        steps.push(begin(body.as_bytes()));
        n += 1;
    }
    let mut stored = 0;
    for (i, step) in steps.iter().enumerate() {
        match step {
            HandlerStep::Write(reading) => {
                assert_eq!(reading.pm25, i as i32);
                assert_eq!(conclude(reading, true), Outcome::Stored(i as i32));
                stored += 1;
            }
            HandlerStep::Done(outcome) => panic!("no write: {:?}", outcome),
        }
    }
    assert_eq!(stored, 1000);
}

#[test]
fn failed_write_leaves_a_later_reading_untouched() {
    let a = TimestampedReading { pm25: 1, time: 10 };
    let b = TimestampedReading { pm25: 2, time: 20 };
    assert_eq!(conclude(&a, false), Outcome::WriteFailed(WriteFailure::Store));
    assert_eq!(conclude(&b, true), Outcome::Stored(2));
    assert_eq!(b, TimestampedReading { pm25: 2, time: 20 });
}

#[test]
fn clock_before_the_epoch_fails_the_write_and_nothing_else() {
    assert_eq!(
        plan(Ok(AirQualityPacket { pm25: 5 }), Some(-1_000_000_000)),
        HandlerStep::Done(Outcome::WriteFailed(WriteFailure::Clock))
    );
    assert_eq!(
        plan(Ok(AirQualityPacket { pm25: 6 }), Some(1)),
        HandlerStep::Write(TimestampedReading { pm25: 6, time: 1 })
    );
}

#[test]
fn other_members_change_neither_value_nor_write() {
    let bare = begin(br#"{"pm25":33}"#);
    let full = begin(br#"{"wifi":{"ssid":"X","rssi":-59},"pm25":33,"uptime":12}"#);
    match (bare, full) {
        (HandlerStep::Write(a), HandlerStep::Write(b)) => {
            assert_eq!(a.pm25, 33);
            assert_eq!(b.pm25, 33);
            assert_eq!(conclude(&a, true), conclude(&b, true));
        }
        other => panic!("no write: {:?}", other),
    }
}
