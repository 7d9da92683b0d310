use ilc::binary::read_event;
use ilc::{Binary, Context, Decode, Encode, Event, IlcError, Time, Type};

fn context() -> Context {
    Context { timezone: 0, override_date: None, channel: None }
}

fn text(s: &str) -> String {
    s.to_string()
}

fn samples() -> Vec<Event> {
    let time = Time { timestamp: 1454502840, offset: -3600 };
    let early = Time { timestamp: -86401, offset: 86399 };
    vec![
        Event { ty: Type::Msg { from: text("a"), content: text("hi  all") }, time, channel: None },
        Event {
            ty: Type::Action { from: text("a"), content: text("") },
            time,
            channel: Some(text("#c")),
        },
        Event { ty: Type::Join { nick: text("a"), mask: None }, time, channel: Some(text("#c")) },
        Event {
            ty: Type::Join { nick: text("a"), mask: Some(text("a@h")) },
            time: early,
            channel: None,
        },
        Event {
            ty: Type::Part { nick: text("a"), mask: Some(text("a@h")), reason: Some(text("bye")) },
            time,
            channel: Some(text("#c")),
        },
        Event { ty: Type::Part { nick: text("a"), mask: None, reason: None }, time, channel: None },
        Event {
            ty: Type::Quit { nick: text("\u{e9}\u{1f600}"), mask: None, reason: Some(text("")) },
            time,
            channel: None,
        },
        Event {
            ty: Type::Nick { old_nick: text("a"), new_nick: text("b") },
            time: Time { timestamp: i64::MIN, offset: i32::MIN },
            channel: None,
        },
        Event {
            ty: Type::Notice { from: text("a"), content: text("x".repeat(70000).as_str()) },
            time: Time { timestamp: i64::MAX, offset: i32::MAX },
            channel: None,
        },
        Event { ty: Type::Disconnect, time, channel: Some(text("")) },
    ]
}

fn record(event: &Event) -> Vec<u8> {
    let mut out = Vec::new();
    assert_eq!(Binary.encode(&context(), &mut out, event), Ok(()));
    out
}

#[test]
fn every_kind_of_event_comes_back_from_its_record() {
    for event in samples() {
        let bytes = record(&event);
        assert_eq!(Binary.decode(&context(), &bytes), vec![Ok(event)]);
    }
}

#[test]
fn records_in_a_row_come_back_in_order() {
    let mut out = Vec::new();
    for event in samples() {
        assert_eq!(Binary.encode(&context(), &mut out, &event), Ok(()));
    }
    let expected: Vec<Result<Event, IlcError>> = samples().into_iter().map(Ok).collect();
    assert_eq!(Binary.decode(&context(), &out), expected);
}

#[test]
fn record_has_the_fixed_layout() {
    let event = Event {
        ty: Type::Join { nick: text("al"), mask: None },
        time: Time { timestamp: 0x0102, offset: -2 },
        channel: Some(text("#\u{e9}")),
    };
    let expected: Vec<u8> = vec![
        0x02, 0x01, 0, 0, 0, 0, 0, 0, // timestamp
        0xfe, 0xff, 0xff, 0xff, // offset
        2,    // kind
        1, 3, 0, 0, 0, b'#', 0xc3, 0xa9, // channel
        1, 2, 0, 0, 0, b'a', b'l', // nick
        0,    // mask
        0,    // unused
    ];
    assert_eq!(record(&event), expected);
}

#[test]
fn binary_record_is_appended_to_what_is_there() {
    let mut out = vec![9u8, 9];
    let event = Event {
        ty: Type::Disconnect,
        time: Time { timestamp: 0, offset: 0 },
        channel: None,
    };
    assert_eq!(Binary.encode(&context(), &mut out, &event), Ok(()));
    assert_eq!(out, vec![9, 9, 0, 0, 0, 0, 0, 0, 0, 0, 0, 0, 0, 0, 7, 0, 0, 0, 0]);
}

#[test]
fn binary_empty_stream_has_no_items() {
    assert_eq!(Binary.decode(&context(), b""), vec![]);
}

#[test]
fn record_cut_short_is_an_error() {
    let bytes = record(&samples()[4]);
    let mut len = 1;
    while len < bytes.len() {
        assert_eq!(Binary.decode(&context(), &bytes[..len]), vec![Err(IlcError::BinaryDecode)]);
        len += 1;
    }
}

#[test]
fn binary_error_ends_the_sequence() {
    let first = samples()[0].clone();
    let mut bytes = record(&first);
    bytes.extend_from_slice(&[1, 2, 3]);
    bytes.extend_from_slice(&record(&first));
    assert_eq!(Binary.decode(&context(), &bytes), vec![Ok(first), Err(IlcError::BinaryDecode)]);
}

#[test]
fn unknown_kind_is_an_error() {
    let mut bytes = record(&samples()[9]);
    bytes[12] = 8;
    assert_eq!(Binary.decode(&context(), &bytes), vec![Err(IlcError::BinaryDecode)]);
}

#[test]
fn field_out_of_place_is_an_error() {
    // A disconnect with a text in its first place.
    let bytes = vec![0, 0, 0, 0, 0, 0, 0, 0, 0, 0, 0, 0, 7, 0, 1, 1, 0, 0, 0, b'x', 0, 0];
    assert_eq!(Binary.decode(&context(), &bytes), vec![Err(IlcError::BinaryDecode)]);
    // A message without its content.
    let bytes = vec![0, 0, 0, 0, 0, 0, 0, 0, 0, 0, 0, 0, 0, 0, 1, 1, 0, 0, 0, b'x', 0, 0];
    assert_eq!(Binary.decode(&context(), &bytes), vec![Err(IlcError::BinaryDecode)]);
    // A join with a text in the place it does not use.
    let bytes =
        vec![0, 0, 0, 0, 0, 0, 0, 0, 0, 0, 0, 0, 2, 0, 1, 1, 0, 0, 0, b'x', 0, 1, 0, 0, 0, 0];
    assert_eq!(Binary.decode(&context(), &bytes), vec![Err(IlcError::BinaryDecode)]);
}

#[test]
fn binary_text_that_is_not_utf8_is_an_error() {
    let bytes = vec![0, 0, 0, 0, 0, 0, 0, 0, 0, 0, 0, 0, 7, 1, 1, 0, 0, 0, 0xff, 0, 0, 0];
    assert_eq!(Binary.decode(&context(), &bytes), vec![Err(IlcError::BinaryDecode)]);
}

#[test]
fn mark_other_than_zero_or_one_is_an_error() {
    let bytes = vec![0, 0, 0, 0, 0, 0, 0, 0, 0, 0, 0, 0, 7, 2, 0, 0, 0];
    assert_eq!(Binary.decode(&context(), &bytes), vec![Err(IlcError::BinaryDecode)]);
}

#[test]
fn length_beyond_the_input_is_an_error() {
    let bytes =
        vec![0, 0, 0, 0, 0, 0, 0, 0, 0, 0, 0, 0, 7, 1, 0xff, 0xff, 0xff, 0xff, b'x', 0, 0, 0];
    assert_eq!(Binary.decode(&context(), &bytes), vec![Err(IlcError::BinaryDecode)]);
}

#[test]
fn binary_record_is_read_at_a_position() {
    let event = samples()[2].clone();
    let mut bytes = vec![7u8; 5];
    bytes.extend_from_slice(&record(&event));
    let end = bytes.len();
    bytes.extend_from_slice(&[1, 2, 3]);
    assert_eq!(read_event(&bytes, 5), Some((event, end)));
    assert_eq!(read_event(&bytes, end), None);
    assert_eq!(read_event(&bytes, bytes.len()), None);
}
