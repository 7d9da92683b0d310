//! The binary dialect: every event as one record of fixed layout.
//!
//! A record holds, in this order: the timestamp (8 bytes) and the offset
//! (4 bytes), both little-endian in two's complement; one byte for the kind
//! of event; and four optional texts: the channel and up to three fields of
//! the event. An optional text is the byte 0, or the byte 1 followed by the
//! length of the text in bytes (4 bytes, little-endian) and the text in
//! UTF-8. Records follow each other with nothing in between. Nothing of an
//! event is left out, so every kind of event can be written and read back.

use vstd::prelude::*;
use vstd::bytes::{
    lemma_auto_spec_u32_to_from_le_bytes, lemma_auto_spec_u64_to_from_le_bytes,
    spec_u32_from_le_bytes, spec_u32_to_le_bytes, spec_u64_from_le_bytes, spec_u64_to_le_bytes,
    u32_from_le_bytes, u32_to_le_bytes, u64_from_le_bytes, u64_to_le_bytes,
};
use vstd::slice::slice_subrange;
use vstd::utf8::{
    decode_utf8, encode_utf8, encode_utf8_decode_utf8, encode_utf8_valid_utf8, valid_utf8,
};
use crate::context::{Context, ContextView};
use crate::error::{ErrorView, IlcError};
use crate::event::{text_of, Event, EventView, Time, TypeView};
use crate::format::{item_views, Decode, Encode};
use crate::frame::{
    assemble, frame_fits, frame_of, lend, places, slot_fits, slots_of, slots_round_trip,
    str_of, type_of, value_of, width_of, Frame, Slots,
};
use crate::text::{append, text_from_utf8};

verus! {

/// The bytes of an optional text.
pub open spec fn slot_bytes(slot: Option<Seq<char>>) -> Seq<u8> {
    match slot {
        None => seq![0u8],
        Some(text) => seq![1u8] + spec_u32_to_le_bytes(encode_utf8(text).len() as u32)
            + encode_utf8(text),
    }
}

/// The bytes of a record.
pub open spec fn frame_bytes(frame: Frame) -> Seq<u8> {
    spec_u64_to_le_bytes(frame.time.timestamp as u64) + spec_u32_to_le_bytes(
        frame.time.offset as u32,
    ) + seq![frame.slots.tag] + slot_bytes(frame.channel) + slot_bytes(frame.slots.first)
        + slot_bytes(frame.slots.second) + slot_bytes(frame.slots.third)
}

/// Whether every text of the event is short enough to be written.
pub open spec fn event_fits(event: EventView) -> bool {
    frame_fits(frame_of(event))
}

/// The record of an event.
pub open spec fn event_bytes(event: EventView) -> Seq<u8> {
    frame_bytes(frame_of(event))
}

/// The optional text at the head of `bytes` and the number of bytes that it
/// takes, or `None` where `bytes` does not begin with one: it is cut short,
/// its first byte is neither 0 nor 1, or the text is not UTF-8.
pub open spec fn slot_read(bytes: Seq<u8>) -> Option<(Option<Seq<char>>, int)> {
    if bytes.len() < 1 {
        None
    } else if bytes[0] == 0 {
        Some((None, 1))
    } else if bytes[0] != 1 || bytes.len() < 5 {
        None
    } else {
        let n = spec_u32_from_le_bytes(bytes.subrange(1, 5)) as int;
        if bytes.len() < 5 + n || !valid_utf8(bytes.subrange(5, 5 + n)) {
            None
        } else {
            Some((Some(decode_utf8(bytes.subrange(5, 5 + n))), 5 + n))
        }
    }
}

/// The fields of the record at the head of `bytes` and the number of bytes
/// that it takes, or `None` where `bytes` is cut short or one of the
/// optional texts cannot be read.
pub open spec fn frame_read(bytes: Seq<u8>) -> Option<(Frame, int)> {
    let channel = slot_read(bytes.skip(13));
    let at1 = 13 + width_of(channel);
    let first = slot_read(bytes.skip(at1));
    let at2 = at1 + width_of(first);
    let second = slot_read(bytes.skip(at2));
    let at3 = at2 + width_of(second);
    let third = slot_read(bytes.skip(at3));
    if bytes.len() < 13 || channel is None || first is None || second is None || third is None {
        None
    } else {
        Some(
            (
                Frame {
                    time: Time {
                        timestamp: spec_u64_from_le_bytes(bytes.subrange(0, 8)) as i64,
                        offset: spec_u32_from_le_bytes(bytes.subrange(8, 12)) as i32,
                    },
                    channel: value_of(channel),
                    slots: Slots {
                        tag: bytes[12],
                        first: value_of(first),
                        second: value_of(second),
                        third: value_of(third),
                    },
                },
                at3 + width_of(third),
            ),
        )
    }
}

/// The event at the head of `bytes` and the number of bytes that its record
/// takes, or `None` where `bytes` does not begin with the record of an event.
pub open spec fn event_read(bytes: Seq<u8>) -> Option<(EventView, int)> {
    match frame_read(bytes) {
        Some((frame, n)) => match type_of(frame.slots) {
            Some(ty) => Some((EventView { ty, time: frame.time, channel: frame.channel }, n)),
            None => None,
        },
        None => None,
    }
}

/// The items of a stream of records: an event for every record, in order.
/// Bytes that are no record are one error, which ends the sequence, since
/// nothing tells where the next record would begin.
pub open spec fn records(bytes: Seq<u8>) -> Seq<Result<EventView, ErrorView>>
    decreases bytes.len(),
{
    if bytes.len() == 0 {
        Seq::empty()
    } else {
        match event_read(bytes) {
            Some((event, n)) => if 0 < n <= bytes.len() {
                seq![Ok(event)] + records(bytes.skip(n))
            } else {
                seq![Err(ErrorView::BinaryDecode)]
            },
            None => seq![Err(ErrorView::BinaryDecode)],
        }
    }
}

/// An optional text that was written is read back as it was, whatever
/// follows it.
pub proof fn slot_round_trip(slot: Option<Seq<char>>, more: Seq<u8>)
    requires
        slot_fits(slot),
    ensures
        slot_read(slot_bytes(slot) + more) == Some((slot, slot_bytes(slot).len() as int)),
{
    let bytes = slot_bytes(slot) + more;
    match slot {
        None => {},
        Some(text) => {
            let body = encode_utf8(text);
            let n = body.len() as u32;
            lemma_auto_spec_u32_to_from_le_bytes();
            encode_utf8_valid_utf8(text);
            encode_utf8_decode_utf8(text);
            assert(spec_u32_to_le_bytes(n).len() == 4);
            assert(bytes.subrange(1, 5) =~= spec_u32_to_le_bytes(n));
            assert(bytes.subrange(5, 5 + n) =~= body);
        },
    }
}

/// The timestamp and the offset come back from their bytes.
proof fn numbers_round_trip(timestamp: i64, offset: i32)
    ensures
        spec_u64_to_le_bytes(timestamp as u64).len() == 8,
        spec_u32_to_le_bytes(offset as u32).len() == 4,
        spec_u64_from_le_bytes(spec_u64_to_le_bytes(timestamp as u64)) as i64 == timestamp,
        spec_u32_from_le_bytes(spec_u32_to_le_bytes(offset as u32)) as i32 == offset,
{
    lemma_auto_spec_u64_to_from_le_bytes();
    lemma_auto_spec_u32_to_from_le_bytes();
    assert((timestamp as u64) as i64 == timestamp) by (bit_vector);
    assert((offset as u32) as i32 == offset) by (bit_vector);
}

/// Where the parts of a sequence made of six lie in it.
proof fn parts(
    head: Seq<u8>,
    s0: Seq<u8>,
    s1: Seq<u8>,
    s2: Seq<u8>,
    s3: Seq<u8>,
    more: Seq<u8>,
)
    ensures
        ({
            let bytes = head + s0 + s1 + s2 + s3 + more;
            &&& bytes.subrange(0, head.len() as int) == head
            &&& bytes.skip(head.len() as int) == s0 + (s1 + s2 + s3 + more)
            &&& bytes.skip(head.len() + s0.len() as int) == s1 + (s2 + s3 + more)
            &&& bytes.skip(head.len() + s0.len() + s1.len() as int) == s2 + (s3 + more)
            &&& bytes.skip(head.len() + s0.len() + s1.len() + s2.len() as int) == s3 + more
        }),
{
    let bytes = head + s0 + s1 + s2 + s3 + more;
    assert(bytes.subrange(0, head.len() as int) =~= head);
    assert(bytes.skip(head.len() as int) =~= s0 + (s1 + s2 + s3 + more));
    assert(bytes.skip(head.len() + s0.len() as int) =~= s1 + (s2 + s3 + more));
    assert(bytes.skip(head.len() + s0.len() + s1.len() as int) =~= s2 + (s3 + more));
    assert(bytes.skip(head.len() + s0.len() + s1.len() + s2.len() as int) =~= s3 + more);
}

/// The fields of a record that was written are read back as they were,
/// whatever follows the record.
pub proof fn frame_round_trip(frame: Frame, more: Seq<u8>)
    requires
        frame_fits(frame),
    ensures
        frame_read(frame_bytes(frame) + more) == Some((frame, frame_bytes(frame).len() as int)),
        frame_bytes(frame).len() >= 17,
{
    let stamp = spec_u64_to_le_bytes(frame.time.timestamp as u64);
    let shift = spec_u32_to_le_bytes(frame.time.offset as u32);
    let head = stamp + shift + seq![frame.slots.tag];
    let s0 = slot_bytes(frame.channel);
    let s1 = slot_bytes(frame.slots.first);
    let s2 = slot_bytes(frame.slots.second);
    let s3 = slot_bytes(frame.slots.third);
    let bytes = frame_bytes(frame) + more;
    numbers_round_trip(frame.time.timestamp, frame.time.offset);
    parts(head, s0, s1, s2, s3, more);
    assert(head.len() == 13);
    assert(bytes == head + s0 + s1 + s2 + s3 + more);
    assert(bytes.subrange(0, 8) == stamp && bytes.subrange(8, 12) == shift && bytes[12]
        == frame.slots.tag) by {
        assert(head.subrange(0, 8) =~= stamp);
        assert(head.subrange(8, 12) =~= shift);
        assert(bytes.subrange(0, 13).subrange(0, 8) =~= bytes.subrange(0, 8));
        assert(bytes.subrange(0, 13).subrange(8, 12) =~= bytes.subrange(8, 12));
        assert(bytes.subrange(0, 13)[12] == bytes[12]);
    }
    slot_round_trip(frame.channel, s1 + s2 + s3 + more);
    slot_round_trip(frame.slots.first, s2 + s3 + more);
    slot_round_trip(frame.slots.second, s3 + more);
    slot_round_trip(frame.slots.third, more);
    assert(s0.len() >= 1 && s1.len() >= 1 && s2.len() >= 1 && s3.len() >= 1) by {
        slot_width(frame.channel);
        slot_width(frame.slots.first);
        slot_width(frame.slots.second);
        slot_width(frame.slots.third);
    }
    assert(frame_bytes(frame).len() == 13 + s0.len() + s1.len() + s2.len() + s3.len());
}

/// An optional text takes at least one byte.
proof fn slot_width(slot: Option<Seq<char>>)
    ensures
        slot_bytes(slot).len() >= 1,
{
}

/// A record that was written is read back as the event it was written
/// for, whatever follows it.
pub proof fn event_round_trip(event: EventView, more: Seq<u8>)
    requires
        event_fits(event),
    ensures
        event_read(event_bytes(event) + more) == Some((event, event_bytes(event).len() as int)),
        event_bytes(event).len() >= 17,
{
    frame_round_trip(frame_of(event), more);
    slots_round_trip(event.ty);
}

/// Round trip: the records of events, written one after another, are read
/// back as those events, equal in every field, and what follows them is
/// read as if it stood alone.
pub proof fn round_trip(event: EventView, more: Seq<u8>)
    requires
        event_fits(event),
    ensures
        records(event_bytes(event) + more) == seq![Ok::<EventView, ErrorView>(event)] + records(
            more,
        ),
        records(event_bytes(event)) == seq![Ok::<EventView, ErrorView>(event)],
{
    event_round_trip(event, more);
    let bytes = event_bytes(event) + more;
    assert(bytes.skip(event_bytes(event).len() as int) =~= more);
    event_round_trip(event, Seq::empty());
    assert(event_bytes(event) + Seq::<u8>::empty() =~= event_bytes(event));
    assert(event_bytes(event).skip(event_bytes(event).len() as int) =~= Seq::<u8>::empty());
    assert(records(Seq::<u8>::empty()).len() == 0);
    assert(records(event_bytes(event)) =~= seq![Ok::<EventView, ErrorView>(event)]);
}

/// Appends an optional text. Returns `false`, with `out` in no particular
/// state, where the text is too long.
fn write_slot(out: &mut Vec<u8>, slot: Option<&str>) -> (r: bool)
    ensures
        r == slot_fits(str_of(slot)),
        r ==> final(out)@ == old(out)@ + slot_bytes(str_of(slot)),
{
    match slot {
        None => {
            out.push(0);
            proof {
                assert(out@ =~= old(out)@ + slot_bytes(str_of(slot)));
            }
            true
        },
        Some(text) => {
            let body = text.as_bytes();
            if body.len() > 0xFFFF_FFFF {
                return false;
            }
            out.push(1);
            let width = u32_to_le_bytes(body.len() as u32);
            append(out, width.as_slice());
            append(out, body);
            proof {
                assert(out@ =~= old(out)@ + slot_bytes(str_of(slot)));
            }
            true
        },
    }
}

/// Reads the optional text that begins at `at`. Returns it with the
/// position after it.
fn read_slot(input: &[u8], at: usize) -> (r: Option<(Option<String>, usize)>)
    requires
        at <= input@.len(),
    ensures
        match slot_read(input@.skip(at as int)) {
            Some((slot, n)) => r matches Some((text, next)) && text_of(text) == slot && next == at
                + n && next <= input@.len(),
            None => r is None,
        },
{
    let ghost bytes = input@.skip(at as int);
    let len: usize = input.len();
    if at >= len {
        return None;
    }
    let mark: u8 = input[at];
    proof {
        assert(bytes[0] == mark);
    }
    if mark == 0 {
        return Some((None, at + 1));
    }
    if mark != 1 || len - at < 5 {
        return None;
    }
    let n: usize = u32_from_le_bytes(slice_subrange(input, at + 1, at + 5)) as usize;
    proof {
        assert(input@.subrange(at + 1, at + 5) =~= bytes.subrange(1, 5));
    }
    if len - at - 5 < n {
        return None;
    }
    let body = slice_subrange(input, at + 5, at + 5 + n);
    proof {
        assert(body@ =~= bytes.subrange(5, 5 + n));
    }
    match text_from_utf8(body) {
        Some(text) => Some((Some(text), at + 5 + n)),
        None => None,
    }
}

/// Reads the record that begins at `at`. Returns its event with the
/// position after it, or `None` where no record begins there.
pub fn read_event(input: &[u8], at: usize) -> (r: Option<(Event, usize)>)
    requires
        at <= input@.len(),
    ensures
        match event_read(input@.skip(at as int)) {
            Some((event, n)) => r matches Some((e, next)) && e@ == event && next == at + n && at
                < next <= input@.len(),
            None => r is None,
        },
{
    let ghost bytes = input@.skip(at as int);
    if input.len() - at < 13 {
        return None;
    }
    let timestamp = u64_from_le_bytes(slice_subrange(input, at, at + 8)) as i64;
    let offset = u32_from_le_bytes(slice_subrange(input, at + 8, at + 12)) as i32;
    let tag: u8 = input[at + 12];
    proof {
        assert(input@.subrange(at as int, at + 8) =~= bytes.subrange(0, 8));
        assert(input@.subrange(at + 8, at + 12) =~= bytes.subrange(8, 12));
        assert(bytes[12] == tag);
        assert(input@.skip(at + 13) =~= bytes.skip(13));
    }
    let (channel, at1) = match read_slot(input, at + 13) {
        Some(read) => read,
        None => {
            return None;
        },
    };
    proof {
        assert(input@.skip(at1 as int) =~= bytes.skip(at1 - at));
    }
    let (first, at2) = match read_slot(input, at1) {
        Some(read) => read,
        None => {
            return None;
        },
    };
    proof {
        assert(input@.skip(at2 as int) =~= bytes.skip(at2 - at));
    }
    let (second, at3) = match read_slot(input, at2) {
        Some(read) => read,
        None => {
            return None;
        },
    };
    proof {
        assert(input@.skip(at3 as int) =~= bytes.skip(at3 - at));
    }
    let (third, at4) = match read_slot(input, at3) {
        Some(read) => read,
        None => {
            return None;
        },
    };
    match assemble(tag, first, second, third) {
        Some(ty) => Some((Event { ty, time: Time { timestamp, offset }, channel }, at4)),
        None => None,
    }
}

/// Writes the record of `event` at the end of `out`. Returns `false`, with
/// `out` in no particular state, where a text of the event is too long.
fn write_event(out: &mut Vec<u8>, event: &Event) -> (r: bool)
    ensures
        r == event_fits(event@),
        r ==> final(out)@ == old(out)@ + event_bytes(event@),
{
    let ghost slots = slots_of(event.ty@);
    let stamp = u64_to_le_bytes(event.time.timestamp as u64);
    let shift = u32_to_le_bytes(event.time.offset as u32);
    append(out, stamp.as_slice());
    append(out, shift.as_slice());
    let (tag, first, second, third) = places(&event.ty);
    out.push(tag);
    let ghost head = out@;
    proof {
        assert(head =~= old(out)@ + (spec_u64_to_le_bytes(event.time.timestamp as u64)
            + spec_u32_to_le_bytes(event.time.offset as u32) + seq![slots.tag]));
    }
    if !write_slot(out, lend(&event.channel)) {
        return false;
    }
    if !write_slot(out, first) {
        return false;
    }
    if !write_slot(out, second) {
        return false;
    }
    if !write_slot(out, third) {
        return false;
    }
    proof {
        assert(out@ =~= old(out)@ + event_bytes(event@));
    }
    true
}

/// The binary dialect.
#[derive(Clone, Copy, Debug, PartialEq, Eq, Structural)]
pub struct Binary;

impl Decode for Binary {
    open spec fn decoded(&self, context: ContextView, input: Seq<u8>) -> Seq<
        Result<EventView, ErrorView>,
    > {
        records(input)
    }

    proof fn empty_input(&self, context: ContextView) {
    }

    fn decode(&self, context: &Context, input: &[u8]) -> (r: Vec<Result<Event, IlcError>>) {
        let mut out: Vec<Result<Event, IlcError>> = Vec::new();
        let mut at: usize = 0;
        proof {
            assert(input@.skip(0) =~= input@);
            assert(item_views(out@) + records(input@) =~= records(input@));
        }
        while at < input.len()
            invariant
                at <= input@.len(),
                item_views(out@) + records(input@.skip(at as int)) == records(input@),
            decreases input@.len() - at,
        {
            let ghost before = item_views(out@);
            let ghost bytes = input@.skip(at as int);
            match read_event(input, at) {
                Some((event, next)) => {
                    proof {
                        assert(bytes.skip(next - at) =~= input@.skip(next as int));
                        assert(item_views(out@.push(Ok(event))) =~= before + seq![
                            Ok::<EventView, ErrorView>(event@),
                        ]);
                        assert((before + seq![Ok::<EventView, ErrorView>(event@)]) + records(
                            input@.skip(next as int),
                        ) =~= before + (seq![Ok::<EventView, ErrorView>(event@)] + records(
                            input@.skip(next as int),
                        )));
                    }
                    out.push(Ok(event));
                    at = next;
                },
                None => {
                    proof {
                        assert(item_views(out@.push(Err(IlcError::BinaryDecode))) =~= before
                            + seq![Err::<EventView, ErrorView>(ErrorView::BinaryDecode)]);
                    }
                    out.push(Err(IlcError::BinaryDecode));
                    return out;
                },
            }
        }
        proof {
            assert(records(input@.skip(at as int)).len() == 0);
            assert(item_views(out@) + records(input@.skip(at as int)) =~= item_views(out@));
        }
        out
    }
}

impl Encode for Binary {
    open spec fn represents(&self, ty: TypeView) -> bool {
        true
    }

    open spec fn encoded(&self, context: ContextView, event: EventView) -> Result<
        Seq<u8>,
        ErrorView,
    > {
        if event_fits(event) {
            Ok(event_bytes(event))
        } else {
            Err(ErrorView::BinaryEncode)
        }
    }

    proof fn lossy_is_silent(&self, context: ContextView, event: EventView) {
    }

    fn encode(&self, context: &Context, output: &mut Vec<u8>, event: &Event) -> (r: Result<
        (),
        IlcError,
    >) {
        let mut record: Vec<u8> = Vec::new();
        if write_event(&mut record, event) {
            append(output, record.as_slice());
            proof {
                assert(record@ =~= event_bytes(event@));
            }
            Ok(())
        } else {
            Err(IlcError::BinaryEncode)
        }
    }
}

/// What was written is read back: an event that the dialect can write
/// comes back from its record as the one item of the log, equal in every
/// field, whatever its kind.
pub proof fn written_is_read(context: ContextView, event: EventView)
    requires
        Binary.encoded(context, event) is Ok,
    ensures
        Binary.decoded(context, Binary.encoded(context, event)->Ok_0) == seq![
            Ok::<EventView, ErrorView>(event),
        ],
{
    round_trip(event, Seq::empty());
}

} // verus!
