use ilc::irssi::{classify, decode_line, lacking, read_record, render, settle, Record, Shape};
use ilc::text::tokenize;
use ilc::{Context, Date, Decode, Encode, Event, Field, IlcError, Irssi, Iter, Time, Type};

const NOON: i64 = 1454502840;
const STAMP: &str = "2016-02-03 12:34:00";

fn day() -> Date {
    Date { year: 2016, month: 2, day: 3 }
}

fn context() -> Context {
    Context { timezone: 0, override_date: Some(day()), channel: None }
}

fn undated() -> Context {
    Context { timezone: 0, override_date: None, channel: None }
}

fn at_noon() -> Time {
    Time { timestamp: NOON, offset: 0 }
}

fn chars(text: &str) -> Vec<char> {
    text.chars().collect()
}

fn text(s: &str) -> String {
    s.to_string()
}

fn event(ty: Type, channel: Option<&str>) -> Event {
    Event { ty, time: at_noon(), channel: channel.map(text) }
}

fn msg(from: &str, content: &str) -> Type {
    Type::Msg { from: text(from), content: text(content) }
}

fn shape(line: &str) -> Shape {
    classify(&tokenize(&chars(line)).0)
}

fn written(event: &Event) -> String {
    let mut out = Vec::new();
    assert_eq!(Irssi.encode(&undated(), &mut out, event), Ok(()));
    String::from_utf8(out).unwrap()
}

#[test]
fn join_line_is_decoded() {
    let line = "12:34 -!- alice (alice@host) has joined #chan\n";
    let items = Irssi.decode(&context(), line.as_bytes());
    assert_eq!(
        items,
        vec![Ok(Event {
            ty: Type::Join { nick: text("alice"), mask: Some(text("alice@host")) },
            time: at_noon(),
            channel: Some(text("#chan")),
        })]
    );
}

#[test]
fn join_line_without_line_feed_is_decoded() {
    let line = "12:34 -!- alice [alice@host] has joined #chan";
    let items = Irssi.decode(&context(), line.as_bytes());
    assert_eq!(
        items,
        vec![Ok(Event {
            ty: Type::Join { nick: text("alice"), mask: Some(text("alice@host")) },
            time: at_noon(),
            channel: Some(text("#chan")),
        })]
    );
}

#[test]
fn message_line_is_decoded_by_its_own_date() {
    let items = Irssi.decode(&undated(), b"2015-01-01 12:34:56\tbob\thi\n");
    assert_eq!(
        items,
        vec![Ok(Event {
            ty: msg("bob", "hi"),
            time: Time { timestamp: 1420115696, offset: 0 },
            channel: None,
        })]
    );
}

#[test]
fn date_of_the_context_does_not_change_a_dated_line() {
    let items = Irssi.decode(&context(), b"2015-01-01 12:34:56\tbob\thi\n");
    assert_eq!(items[0].as_ref().unwrap().time.timestamp, 1420115696);
}

#[test]
fn time_is_taken_west_of_utc() {
    let context = Context { timezone: 3600, override_date: Some(day()), channel: None };
    let log = "2016-02-03 12:34:00 alice hi\n12:34 -!- a (a@h) has joined #c\n";
    let items = Irssi.decode(&context, log.as_bytes());
    assert_eq!(
        items,
        vec![
            Ok(Event {
                ty: msg("alice", "hi"),
                time: Time { timestamp: NOON + 3600, offset: 3600 },
                channel: None,
            }),
            Ok(Event {
                ty: Type::Join { nick: text("a"), mask: Some(text("a@h")) },
                time: Time { timestamp: NOON + 3600, offset: 3600 },
                channel: Some(text("#c")),
            }),
        ]
    );
}

#[test]
fn empty_input_has_no_items() {
    assert_eq!(Irssi.decode(&context(), b""), vec![]);
    let context = context();
    let mut pass = Iter::new(&context, b"");
    assert_eq!(pass.next(), None);
    assert_eq!(pass.next(), None);
    assert_eq!(pass.consumed(), 0);
}

#[test]
fn unknown_lines_are_skipped() {
    let log = "\nhello\n12:34 bob\n2016-02-03 12:34:00 alice hi\nbye\n";
    let items = Irssi.decode(&context(), log.as_bytes());
    assert_eq!(items, vec![Ok(event(msg("alice", "hi"), None))]);
    assert_eq!(Irssi.decode(&context(), b"hello\n"), vec![]);
    assert_eq!(Irssi.decode(&context(), b"hello there\n"), vec![]);
    assert_eq!(Irssi.decode(&context(), b"\n\n\n"), vec![]);
}

#[test]
fn unknown_line_is_skipped_in_the_same_pull() {
    let context = undated();
    let mut pass = Iter::new(&context, b"hello\n2015-01-01 12:34:56\tbob\thi\n");
    let first = pass.next().unwrap().unwrap();
    assert_eq!(first.ty, msg("bob", "hi"));
    assert_eq!(pass.next(), None);
}

#[test]
fn line_of_spaces_has_the_shape_of_a_message_without_a_time() {
    assert_eq!(shape("   "), Shape::Msg);
    assert_eq!(Irssi.decode(&context(), b"   \n"), vec![Err(IlcError::TimeParse(text(" ")))]);
}

#[test]
fn unknown_line_leaves_the_date() {
    let mut date = Some(day());
    assert_eq!(decode_line(&undated(), &mut date, b"hello"), None);
    assert_eq!(date, Some(day()));
}

#[test]
fn banner_gives_the_date() {
    let log = "--- Log opened Wed Feb 03 10:00:00 2016\n12:34 -!- a (a@h) has quit (bye)\n";
    let items = Irssi.decode(&undated(), log.as_bytes());
    assert_eq!(
        items,
        vec![Ok(event(
            Type::Quit { nick: text("a"), mask: Some(text("a@h")), reason: Some(text("bye")) },
            None
        ))]
    );
}

#[test]
fn later_banner_replaces_the_date() {
    let log = "--- Log opened Tue Feb 02 10:00:00 2016\n12:34 -!- a (a@h) has quit\n\
               --- Log opened Wed Feb 03 10:00:00 2016\n12:34 -!- a (a@h) has quit\n";
    let items = Irssi.decode(&undated(), log.as_bytes());
    assert_eq!(items.len(), 2);
    assert_eq!(items[0].as_ref().unwrap().time.timestamp, NOON - 86400);
    assert_eq!(items[1].as_ref().unwrap().time.timestamp, NOON);
}

#[test]
fn context_date_goes_before_the_banner() {
    let log = "--- Log opened Tue Feb 02 10:00:00 2016\n12:34 -!- a (a@h) has quit\n";
    let items = Irssi.decode(&context(), log.as_bytes());
    assert_eq!(items[0].as_ref().unwrap().time, at_noon());
}

#[test]
fn line_without_a_date_is_an_error() {
    let items = Irssi.decode(&undated(), b"12:34 -!- a (a@h) has quit\n");
    assert_eq!(items, vec![Err(IlcError::TimeParse(text("12:34")))]);
}

#[test]
fn line_with_a_bad_time_is_an_error_and_the_pass_goes_on() {
    let log = "2016-02-03 12:99:00 alice hi\n2016-02-30 12:34:00 alice hi\n\
               12:34 alice hi\n2016-02-03 12:34:00 alice hi\n";
    let items = Irssi.decode(&context(), log.as_bytes());
    assert_eq!(
        items,
        vec![
            Err(IlcError::TimeParse(text("2016-02-03 12:99:00"))),
            Err(IlcError::TimeParse(text("2016-02-30 12:34:00"))),
            Err(IlcError::TimeParse(text("12:34 alice"))),
            Ok(event(msg("alice", "hi"), None)),
        ]
    );
}

#[test]
fn banner_with_a_bad_date_is_an_error_and_clears_the_date() {
    let log = "--- Log opened Wed Feb 03 10:00:00 2016\n\
               --- Log opened Wed Foo 03 10:00:00 2016\n12:34 -!- a (a@h) has quit\n";
    let items = Irssi.decode(&undated(), log.as_bytes());
    assert_eq!(
        items,
        vec![
            Err(IlcError::TimeParse(text("Wed Foo 03 2016"))),
            Err(IlcError::TimeParse(text("12:34"))),
        ]
    );
}

#[test]
fn banner_with_a_wrong_weekday_is_an_error() {
    let items = Irssi.decode(&undated(), b"--- Log opened Mon Feb 03 10:00:00 2016\n");
    assert_eq!(items, vec![Err(IlcError::TimeParse(text("Mon Feb 03 2016")))]);
}

#[test]
fn opening_banner_is_no_item() {
    let items = Irssi.decode(&undated(), b"--- Log opened Wed Feb 03 10:00:00 2016\n");
    assert_eq!(items, vec![]);
}

#[test]
fn closing_banner_is_a_disconnect() {
    let context = Context { timezone: 0, override_date: None, channel: Some(text("#chan")) };
    let items = Irssi.decode(&context, b"--- Log closed Wed Feb 03 23:59:58 2016\n");
    assert_eq!(
        items,
        vec![Ok(Event {
            ty: Type::Disconnect,
            time: Time { timestamp: 1454543998, offset: 0 },
            channel: Some(text("#chan")),
        })]
    );
}

#[test]
fn closing_banner_does_not_set_the_date() {
    let log = "--- Log closed Wed Feb 03 23:59:58 2016\n12:34 -!- a (a@h) has quit\n";
    let items = Irssi.decode(&undated(), log.as_bytes());
    assert_eq!(items.len(), 2);
    assert!(items[0].is_ok());
    assert_eq!(items[1], Err(IlcError::TimeParse(text("12:34"))));
}

#[test]
fn part_line_is_decoded() {
    let items = Irssi.decode(&context(), b"12:34 -!- bob [bob@host] has left #chan [bye  now]\n");
    assert_eq!(
        items,
        vec![Ok(event(
            Type::Part {
                nick: text("bob"),
                mask: Some(text("bob@host")),
                reason: Some(text("bye  now")),
            },
            Some("#chan"),
        ))]
    );
}

#[test]
fn part_line_without_reason_has_an_empty_reason() {
    let items = Irssi.decode(&context(), b"12:34 -!- bob [bob@host] has left #chan\n");
    assert_eq!(
        items,
        vec![Ok(event(
            Type::Part { nick: text("bob"), mask: Some(text("bob@host")), reason: Some(text("")) },
            Some("#chan"),
        ))]
    );
}

#[test]
fn quit_line_is_decoded() {
    let context = Context { timezone: 0, override_date: Some(day()), channel: Some(text("#c")) };
    let items = Irssi.decode(&context, b"12:34 -!- bob [bob@host] has quit [[Ping] timeout]\n");
    assert_eq!(
        items,
        vec![Ok(event(
            Type::Quit {
                nick: text("bob"),
                mask: Some(text("bob@host")),
                reason: Some(text("[Ping] timeout")),
            },
            Some("#c"),
        ))]
    );
}

#[test]
fn notice_line_is_decoded() {
    let items = Irssi.decode(&undated(), b"2016-02-03 12:34:00\t--\tNotice(bob): look  here\n");
    assert_eq!(
        items,
        vec![Ok(event(Type::Notice { from: text("bob"), content: text("look  here") }, None))]
    );
}

#[test]
fn notice_without_a_sender_is_malformed() {
    let log = "2016-02-03 12:34:00 -- Notice(b look\n2016-02-03 12:34:00 -- Notice(): x\n";
    let items = Irssi.decode(&undated(), log.as_bytes());
    assert_eq!(
        items,
        vec![
            Err(IlcError::Parse(text("Notice(b"))),
            Ok(event(Type::Notice { from: text(""), content: text("x") }, None)),
        ]
    );
}

#[test]
fn nick_line_is_decoded() {
    let context = Context { timezone: 0, override_date: None, channel: Some(text("#ops")) };
    let items = Irssi.decode(&context, b"2015-01-01 12:34:56\t--\talice is now known as bob\n");
    assert_eq!(
        items,
        vec![Ok(Event {
            ty: Type::Nick { old_nick: text("alice"), new_nick: text("bob") },
            time: Time { timestamp: 1420115696, offset: 0 },
            channel: Some(text("#ops")),
        })]
    );
    let items = Irssi.decode(&undated(), b"2016-02-03 12:34:00 -- You are now known as rob\n");
    assert_eq!(
        items,
        vec![Ok(event(Type::Nick { old_nick: text("You"), new_nick: text("rob") }, None))]
    );
}

#[test]
fn action_line_is_decoded() {
    let items = Irssi.decode(&undated(), b"2015-01-01 12:34:56\t *\tbob waves  hi\n");
    assert_eq!(
        items,
        vec![Ok(Event {
            ty: Type::Action { from: text("bob"), content: text("waves  hi") },
            time: Time { timestamp: 1420115696, offset: 0 },
            channel: None,
        })]
    );
}

#[test]
fn message_without_a_body_is_decoded() {
    let items = Irssi.decode(&undated(), b"2016-02-03 12:34:00 bob\n");
    assert_eq!(items, vec![Ok(event(msg("bob", ""), None))]);
}

#[test]
fn shapes_are_tried_in_order() {
    assert_eq!(shape("--- Log opened Wed Feb 03 10:00:00 2016"), Shape::Opened);
    assert_eq!(shape("--- Log closed Wed Feb 03 10:00:00 2016"), Shape::Closed);
    assert_eq!(shape("--- Log opened Wed Feb 03 10:00:00"), Shape::Msg);
    assert_eq!(shape("12:34 -!- a b has joined #c"), Shape::Join);
    assert_eq!(shape("12:34 -!- a b has joined #c now"), Shape::Msg);
    assert_eq!(shape("12:34 -!- a b has left #c"), Shape::Part);
    assert_eq!(shape("12:34 -!- a b has left #c for good"), Shape::Part);
    assert_eq!(shape("12:34 -!- a b has left"), Shape::Msg);
    assert_eq!(shape("12:34 -!- a b has quit"), Shape::Quit);
    assert_eq!(shape("12:34 -!- a b has quit for good"), Shape::Quit);
    assert_eq!(shape("d 12:34 -- Notice(a): b"), Shape::Notice);
    assert_eq!(shape("d 12:34 -- Notice("), Shape::Notice);
    assert_eq!(shape("12:34 -- Notice(a): b"), Shape::Msg);
    assert_eq!(shape("d 12:34 -- a is now known as b"), Shape::Nick);
    assert_eq!(shape("d 12:34 -- a are now known as b"), Shape::Nick);
    assert_eq!(shape("d 12:34 -- a was now known as b"), Shape::Msg);
    assert_eq!(shape("12:34 -- a is now known as b"), Shape::Msg);
    assert_eq!(shape("d 12:34  * a b"), Shape::Action);
    assert_eq!(shape("d 12:34 * a b"), Shape::Msg);
    assert_eq!(shape("d 12:34 a"), Shape::Msg);
    assert_eq!(shape("12:34 a"), Shape::Unknown);
    assert_eq!(shape("12:34"), Shape::Unknown);
    assert_eq!(shape(""), Shape::Unknown);
}

#[test]
fn record_holds_the_fields_of_the_line() {
    assert_eq!(
        read_record(&chars("--- Log opened Wed Feb 03 10:00:00 2016")),
        Record::Opened { date: text("Wed Feb 03 2016") }
    );
    assert_eq!(
        read_record(&chars("--- Log closed Wed Feb 03 10:00:00 2016")),
        Record::Closed { date: text("Wed Feb 03 2016"), clock: text("10:00:00") }
    );
    assert_eq!(
        read_record(&chars("2016-02-03 12:34:00 bob\tone \t two")),
        Record::Entry {
            date: Some(text("2016-02-03")),
            clock: text("12:34:00"),
            ty: msg("bob", "one \t two"),
            channel: None,
        }
    );
    assert_eq!(
        read_record(&chars("12:34 -!- bob (b@h) has joined #c")),
        Record::Entry {
            date: None,
            clock: text("12:34"),
            ty: Type::Join { nick: text("bob"), mask: Some(text("b@h")) },
            channel: Some(text("#c")),
        }
    );
    assert_eq!(read_record(&chars("12:34 bob")), Record::Unknown);
    assert_eq!(
        read_record(&chars("d 12:34 -- Notice(")),
        Record::Malformed { field: text("Notice(") }
    );
}

#[test]
fn record_is_settled_against_the_date_in_force() {
    let mut date = None;
    let record = Record::Opened { date: text("Wed Feb 03 2016") };
    assert_eq!(settle(&undated(), &mut date, record), None);
    assert_eq!(date, Some(day()));
    let record =
        Record::Entry { date: None, clock: text("12:34"), ty: Type::Disconnect, channel: None };
    assert_eq!(settle(&undated(), &mut date, record), Some(Ok(event(Type::Disconnect, None))));
    let record = Record::Entry {
        date: Some(text("2015-01-01")),
        clock: text("12:34:56"),
        ty: Type::Disconnect,
        channel: None,
    };
    let settled = settle(&undated(), &mut date, record).unwrap().unwrap();
    assert_eq!(settled.time, Time { timestamp: 1420115696, offset: 0 });
    let record = Record::Malformed { field: text("x") };
    assert_eq!(settle(&undated(), &mut date, record), Some(Err(IlcError::Parse(text("x")))));
    assert_eq!(settle(&undated(), &mut date, Record::Unknown), None);
    assert_eq!(date, Some(day()));
}

#[test]
fn channel_of_the_context_is_used_where_the_line_names_none() {
    let context = Context { timezone: 0, override_date: Some(day()), channel: Some(text("#ops")) };
    let log = "2015-01-01 12:34:56\tbob\thi\n12:34 -!- alice (a@h) has joined #chan\n";
    let items = Irssi.decode(&context, log.as_bytes());
    assert_eq!(items[0].as_ref().unwrap().ty, msg("bob", "hi"));
    assert_eq!(items[0].as_ref().unwrap().channel, Some(text("#ops")));
    assert_eq!(items[1].as_ref().unwrap().channel, Some(text("#chan")));
    let items = Irssi.decode(&undated(), b"2015-01-01 12:34:56\tbob\thi\n");
    assert_eq!(items[0].as_ref().unwrap().channel, None);
}

#[test]
fn bytes_that_are_not_utf8_are_replaced() {
    let items = Irssi.decode(&undated(), b"2015-01-01 12:34:56\tbob\t\xff\n");
    assert_eq!(
        items,
        vec![Ok(Event {
            ty: msg("bob", "\u{fffd}"),
            time: Time { timestamp: 1420115696, offset: 0 },
            channel: None,
        })]
    );
    let items = Irssi.decode(&undated(), b"2016-02-03 12:34:00 al\xffce h\xc3\xa9 \xc3\n");
    assert_eq!(items, vec![Ok(event(msg("al\u{fffd}ce", "h\u{e9} \u{fffd}"), None))]);
}

#[test]
fn pass_hands_out_items_one_by_one() {
    let context = undated();
    let log = b"junk\n2016-02-03 12:34:00 a one\n\n2016-02-03 12:34:00 b two\njunk";
    let mut pass = Iter::new(&context, log);
    assert_eq!(pass.next(), Some(Ok(event(msg("a", "one"), None))));
    assert_eq!(pass.next(), Some(Ok(event(msg("b", "two"), None))));
    assert_eq!(pass.next(), None);
    assert_eq!(pass.next(), None);
}

#[test]
fn pull_reads_one_line_and_no_further() {
    let context = undated();
    let first = "2016-02-03 12:34:00 a one\n";
    let second = "2016-02-03 12:34:00 b two\n";
    let log = format!("{}{}", first, second);
    let mut pass = Iter::new(&context, log.as_bytes());
    assert_eq!(pass.consumed(), 0);
    assert!(pass.next().is_some());
    assert_eq!(pass.consumed(), first.len());
    assert!(pass.next().is_some());
    assert_eq!(pass.consumed(), log.len());
    assert_eq!(pass.next(), None);
    assert_eq!(pass.consumed(), log.len());
}

#[test]
fn pull_reads_past_the_lines_that_come_to_nothing() {
    let context = undated();
    let log = "junk\n\n2016-02-03 12:34:00 a one\nmore junk\n2016-02-03 12:34:00 b two";
    let mut pass = Iter::new(&context, log.as_bytes());
    assert!(pass.next().is_some());
    assert_eq!(pass.consumed(), "junk\n\n2016-02-03 12:34:00 a one\n".len());
    assert!(pass.next().is_some());
    assert_eq!(pass.consumed(), log.len());
}

#[test]
fn spacing_of_a_message_survives() {
    let line = "2015-01-01 12:34:56\tbob\ta  b   c\n";
    let items = Irssi.decode(&undated(), line.as_bytes());
    let decoded = items[0].clone().unwrap();
    assert_eq!(decoded.ty, msg("bob", "a  b   c"));
    assert_eq!(decoded.channel, None);
    let mut output = Vec::new();
    assert_eq!(Irssi.encode(&undated(), &mut output, &decoded), Ok(()));
    assert!(output.ends_with(b"\tbob\ta  b   c\n"));
    assert_eq!(output, line.as_bytes().to_vec());
}

#[test]
fn spacing_at_the_end_of_a_message_survives() {
    let line = "2016-02-03 12:34:00 alice hello   world \t !  \n";
    let items = Irssi.decode(&undated(), line.as_bytes());
    let decoded = items[0].clone().unwrap();
    assert_eq!(decoded.ty, msg("alice", "hello   world \t !  "));
    let again = written(&decoded);
    assert_eq!(again, "2016-02-03 12:34:00\talice\thello   world \t !  \n");
    assert_eq!(Irssi.decode(&undated(), again.as_bytes()), vec![Ok(decoded)]);
}

#[test]
fn message_action_and_notice_come_back_from_their_lines() {
    let context = Context { timezone: -3600, override_date: None, channel: Some(text("#c")) };
    let time = Time { timestamp: 1420115696, offset: -3600 };
    let kinds = vec![
        msg("bob", "hi  there"),
        msg("bob", ""),
        msg("*", "x"),
        Type::Action { from: text("bob"), content: text("waves  hi") },
        Type::Action { from: text("bob"), content: text("") },
        Type::Notice { from: text("bob"), content: text("look \t here ") },
    ];
    for ty in kinds {
        let event = Event { ty, time, channel: Some(text("#c")) };
        let mut buf = Vec::new();
        assert_eq!(Irssi.encode(&context, &mut buf, &event), Ok(()));
        assert_eq!(Irssi.decode(&context, &buf), vec![Ok(event)]);
    }
}

#[test]
fn every_kind_is_written_as_its_line() {
    assert_eq!(written(&event(msg("a", "hi all"), None)), format!("{}\ta\thi all\n", STAMP));
    assert_eq!(
        written(&event(Type::Action { from: text("a"), content: text("waves") }, None)),
        format!("{}\t *\ta waves\n", STAMP)
    );
    assert_eq!(
        written(&event(Type::Join { nick: text("a"), mask: Some(text("a@h")) }, Some("#c"))),
        format!("{}\t-->\ta (a@h) has joined #c\n", STAMP)
    );
    assert_eq!(
        written(&event(
            Type::Part { nick: text("a"), mask: Some(text("a@h")), reason: Some(text("bye")) },
            Some("#c")
        )),
        format!("{}\t<--\ta (a@h) has left #c (bye)\n", STAMP)
    );
    assert_eq!(
        written(&event(
            Type::Part { nick: text("a"), mask: Some(text("a@h")), reason: Some(text("")) },
            Some("#c")
        )),
        format!("{}\t<--\ta (a@h) has left #c\n", STAMP)
    );
    assert_eq!(
        written(&event(
            Type::Part { nick: text("a"), mask: Some(text("a@h")), reason: None },
            Some("#c")
        )),
        format!("{}\t<--\ta (a@h) has left #c\n", STAMP)
    );
    assert_eq!(
        written(&event(
            Type::Quit { nick: text("a"), mask: Some(text("a@h")), reason: Some(text("gone")) },
            None
        )),
        format!("{}\t<--\ta (a@h) has quit (gone)\n", STAMP)
    );
    assert_eq!(
        written(&event(
            Type::Quit { nick: text("a"), mask: Some(text("a@h")), reason: None },
            None
        )),
        format!("{}\t<--\ta (a@h) has quit\n", STAMP)
    );
    assert_eq!(
        written(&event(Type::Notice { from: text("a"), content: text("look") }, None)),
        format!("{}\t--\tNotice(a): look\n", STAMP)
    );
    assert_eq!(
        written(&event(Type::Disconnect, None)),
        format!("{}\t--\tirc: disconnected from server\n", STAMP)
    );
}

#[test]
fn record_is_appended_to_what_is_there() {
    let mut out = b"before\n".to_vec();
    let first = event(msg("a", "one"), None);
    assert_eq!(Irssi.encode(&context(), &mut out, &first), Ok(()));
    assert_eq!(Irssi.encode(&context(), &mut out, &event(Type::Disconnect, None)), Ok(()));
    assert_eq!(
        String::from_utf8(out).unwrap(),
        format!("before\n{}\ta\tone\n{}\t--\tirc: disconnected from server\n", STAMP, STAMP)
    );
}

#[test]
fn time_is_written_by_the_clock_of_the_context() {
    let context = Context { timezone: -7200, override_date: None, channel: None };
    let mut out = Vec::new();
    assert_eq!(Irssi.encode(&context, &mut out, &event(Type::Disconnect, None)), Ok(()));
    assert_eq!(
        String::from_utf8(out).unwrap(),
        "2016-02-03 14:34:00\t--\tirc: disconnected from server\n"
    );
}

#[test]
fn change_of_nick_is_written_as_nothing() {
    let mut out = b"kept".to_vec();
    let nick = event(Type::Nick { old_nick: text("a"), new_nick: text("b") }, None);
    assert_eq!(Irssi.encode(&context(), &mut out, &nick), Ok(()));
    assert_eq!(out, b"kept".to_vec());
    assert_eq!(render(&nick, "12:34"), Ok(text("")));
}

#[test]
fn join_without_mask_is_refused() {
    let mut out = b"kept".to_vec();
    let join = event(Type::Join { nick: text("a"), mask: None }, Some("#c"));
    assert_eq!(
        Irssi.encode(&context(), &mut out, &join),
        Err(IlcError::MissingRequiredField(Field::Mask))
    );
    assert_eq!(out, b"kept".to_vec());
    assert_eq!(render(&join, "12:34"), Err(IlcError::MissingRequiredField(Field::Mask)));
    assert_eq!(lacking(&join), Some(Field::Mask));
}

#[test]
fn join_without_channel_is_refused() {
    let mut out = Vec::new();
    let join = event(Type::Join { nick: text("a"), mask: Some(text("a@h")) }, None);
    assert_eq!(
        Irssi.encode(&context(), &mut out, &join),
        Err(IlcError::MissingRequiredField(Field::Channel))
    );
    assert!(out.is_empty());
}

#[test]
fn part_and_quit_without_mask_are_refused() {
    let mut out = Vec::new();
    let part = event(Type::Part { nick: text("a"), mask: None, reason: None }, None);
    assert_eq!(
        Irssi.encode(&context(), &mut out, &part),
        Err(IlcError::MissingRequiredField(Field::Mask))
    );
    let part = event(Type::Part { nick: text("a"), mask: Some(text("m")), reason: None }, None);
    assert_eq!(
        Irssi.encode(&context(), &mut out, &part),
        Err(IlcError::MissingRequiredField(Field::Channel))
    );
    let quit = event(Type::Quit { nick: text("a"), mask: None, reason: None }, None);
    assert_eq!(
        Irssi.encode(&context(), &mut out, &quit),
        Err(IlcError::MissingRequiredField(Field::Mask))
    );
    assert!(out.is_empty());
    assert_eq!(lacking(&event(Type::Disconnect, None)), None);
}

#[test]
fn missing_field_goes_before_a_time_that_cannot_be_shown() {
    let context = Context { timezone: 90000, override_date: None, channel: None };
    let mut out = Vec::new();
    let join = event(Type::Join { nick: text("a"), mask: None }, Some("#c"));
    assert_eq!(
        Irssi.encode(&context, &mut out, &join),
        Err(IlcError::MissingRequiredField(Field::Mask))
    );
}

#[test]
fn time_that_cannot_be_shown_is_an_error() {
    let mut out = b"kept".to_vec();
    let late =
        Event { ty: Type::Disconnect, time: Time { timestamp: i64::MAX, offset: 0 }, channel: None };
    assert_eq!(
        Irssi.encode(&context(), &mut out, &late),
        Err(IlcError::TimeParse(text("%Y-%m-%d %H:%M:%S")))
    );
    let context = Context { timezone: 86400, override_date: None, channel: None };
    assert_eq!(
        Irssi.encode(&context, &mut out, &event(Type::Disconnect, None)),
        Err(IlcError::TimeParse(text("%Y-%m-%d %H:%M:%S")))
    );
    assert_eq!(out, b"kept".to_vec());
}
