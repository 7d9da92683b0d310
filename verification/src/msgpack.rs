//! The structured dialect: every event as one MessagePack array.
//!
//! A record is an array of seven values: the timestamp, the offset and the
//! number of the kind of event, each an integer; then the channel and the
//! three places for the fields of the event, each a string or nil. Every
//! value is written and read by `rmp`, in the encoding that MessagePack
//! lays down. The schema is checked here, and a value of another type than
//! the schema asks for is an error, never read as something else.

use vstd::prelude::*;
use vstd::utf8::{
    decode_utf8, encode_utf8, encode_utf8_decode_utf8, encode_utf8_valid_utf8, valid_utf8,
};
use crate::context::{Context, ContextView};
use crate::error::{ErrorView, IlcError};
use crate::event::{text_of, Event, EventView, Time, TypeView};
use crate::format::{item_views, Decode, Encode};
use crate::frame::{
    assemble, fits, frame_fits, frame_of, lend, places, slot_fits, slots_round_trip, str_of,
    type_of, Frame, Slots,
};

verus! {

/// The number that two bytes stand for, the first byte counting most.
pub open spec fn be16(b1: u8, b0: u8) -> int {
    b1 * 0x100 + b0
}

/// The number that four bytes stand for, the first byte counting most.
pub open spec fn be32(b3: u8, b2: u8, b1: u8, b0: u8) -> int {
    b3 * 0x100_0000 + b2 * 0x1_0000 + b1 * 0x100 + b0
}

/// A length in two bytes, the first byte counting most.
pub open spec fn be16_bytes(n: int) -> Seq<u8> {
    seq![(n / 0x100) as u8, (n % 0x100) as u8]
}

/// A length in four bytes, the first byte counting most.
pub open spec fn be32_bytes(n: int) -> Seq<u8> {
    seq![
        (n / 0x100_0000) as u8,
        (n / 0x1_0000 % 0x100) as u8,
        (n / 0x100 % 0x100) as u8,
        (n % 0x100) as u8,
    ]
}

/// The head of an array of `len` values in MessagePack: one byte for fewer
/// than 16 values, else a mark and the length in two or in four bytes.
#[verifier::opaque]
pub open spec fn array_head(len: u32) -> Seq<u8> {
    if len < 16 {
        seq![(0x90 + len) as u8]
    } else if len < 0x1_0000 {
        seq![0xdcu8] + be16_bytes(len as int)
    } else {
        seq![0xddu8] + be32_bytes(len as int)
    }
}

/// The head of a string of `len` bytes in MessagePack: one byte for fewer
/// than 32 bytes, else a mark and the length in one, two or four bytes.
pub open spec fn str_head(len: int) -> Seq<u8> {
    if len < 32 {
        seq![(0xa0 + len) as u8]
    } else if len < 0x100 {
        seq![0xd9u8, len as u8]
    } else if len < 0x1_0000 {
        seq![0xdau8] + be16_bytes(len)
    } else {
        seq![0xdbu8] + be32_bytes(len)
    }
}

/// The number that eight bytes stand for, the first byte counting most.
pub open spec fn be64(b: Seq<u8>) -> int {
    be32(b[0], b[1], b[2], b[3]) * 0x1_0000_0000 + be32(b[4], b[5], b[6], b[7])
}

/// A number in eight bytes, the first byte counting most.
pub open spec fn be64_bytes(n: int) -> Seq<u8> {
    be32_bytes(n / 0x1_0000_0000) + be32_bytes(n % 0x1_0000_0000)
}

/// The number that `n`, below `span`, stands for in two's complement.
pub open spec fn signed(n: int, span: int) -> int {
    if 2 * n >= span {
        n - span
    } else {
        n
    }
}

/// A signed integer in MessagePack, in the shortest form that holds it: one
/// byte from -32 to 127; else a mark and the number in one, two, four or
/// eight bytes, in two's complement where it is negative.
#[verifier::opaque]
pub open spec fn int_bytes(value: i64) -> Seq<u8> {
    if -32 <= value < 0 {
        seq![(0x100 + value) as u8]
    } else if -0x80 <= value < -32 {
        seq![0xd0u8, (0x100 + value) as u8]
    } else if -0x8000 <= value < -0x80 {
        seq![0xd1u8] + be16_bytes(0x1_0000 + value)
    } else if -0x8000_0000 <= value < -0x8000 {
        seq![0xd2u8] + be32_bytes(0x1_0000_0000 + value)
    } else if value < -0x8000_0000 {
        seq![0xd3u8] + be64_bytes(0x1_0000_0000_0000_0000 + value)
    } else if value < 0x80 {
        seq![value as u8]
    } else if value < 0x100 {
        seq![0xccu8, value as u8]
    } else if value < 0x1_0000 {
        seq![0xcdu8] + be16_bytes(value as int)
    } else if value < 0x1_0000_0000 {
        seq![0xceu8] + be32_bytes(value as int)
    } else {
        seq![0xcfu8] + be64_bytes(value as int)
    }
}

/// A string in MessagePack: its head, then the text in UTF-8.
#[verifier::opaque]
pub open spec fn str_bytes(text: Seq<char>) -> Seq<u8> {
    str_head(encode_utf8(text).len() as int) + encode_utf8(text)
}

/// The length in the head of an array at the start of `bytes`, with the
/// number of bytes that the head takes; where `bytes` does not begin with
/// the head of an array, the error as `rmp` words it: no first byte, a
/// first byte that opens something else, or a length that is cut short.
#[verifier::opaque]
pub open spec fn array_head_read(bytes: Seq<u8>) -> Result<(u32, int), Seq<char>> {
    if bytes.len() < 1 {
        Err("failed to read MessagePack marker"@)
    } else if 0x90 <= bytes[0] <= 0x9f {
        Ok(((bytes[0] - 0x90) as u32, 1))
    } else if bytes[0] == 0xdc {
        if bytes.len() < 3 {
            Err("failed to read MessagePack data"@)
        } else {
            Ok((be16(bytes[1], bytes[2]) as u32, 3))
        }
    } else if bytes[0] == 0xdd {
        if bytes.len() < 5 {
            Err("failed to read MessagePack data"@)
        } else {
            Ok((be32(bytes[1], bytes[2], bytes[3], bytes[4]) as u32, 5))
        }
    } else {
        Err("the type decoded isn't match with the expected one"@)
    }
}

/// The length in the head of a string at the start of `bytes`, with the
/// number of bytes that the head takes; `None` where `bytes` does not begin
/// with the head of a string.
pub open spec fn str_head_read(bytes: Seq<u8>) -> Option<(int, int)> {
    if bytes.len() < 1 {
        None
    } else if 0xa0 <= bytes[0] <= 0xbf {
        Some((bytes[0] - 0xa0, 1))
    } else if bytes[0] == 0xd9 && bytes.len() >= 2 {
        Some((bytes[1] as int, 2))
    } else if bytes[0] == 0xda && bytes.len() >= 3 {
        Some((be16(bytes[1], bytes[2]), 3))
    } else if bytes[0] == 0xdb && bytes.len() >= 5 {
        Some((be32(bytes[1], bytes[2], bytes[3], bytes[4]), 5))
    } else {
        None
    }
}

/// The integer at the start of `bytes`, of whatever width and signed or
/// not, with the number of bytes that it takes; where `bytes` does not
/// begin with an integer that an `i64` can hold, the error as `rmp` words
/// it: no first byte, a first byte that opens something else, a number that
/// is cut short, or one too large.
#[verifier::opaque]
pub open spec fn int_read(bytes: Seq<u8>) -> Result<(i64, int), Seq<char>> {
    if bytes.len() < 1 {
        Err("failed to read MessagePack marker"@)
    } else if bytes[0] < 0x80 {
        Ok((bytes[0] as i64, 1))
    } else if bytes[0] >= 0xe0 {
        Ok(((bytes[0] - 0x100) as i64, 1))
    } else if !(0xcc <= bytes[0] <= 0xd3) {
        Err("the type decoded isn't match with the expected one"@)
    } else if bytes.len() < 1 + int_width(bytes[0]) {
        Err("failed to read MessagePack data"@)
    } else if bytes[0] == 0xcc {
        Ok((bytes[1] as i64, 2))
    } else if bytes[0] == 0xcd {
        Ok((be16(bytes[1], bytes[2]) as i64, 3))
    } else if bytes[0] == 0xce {
        Ok((be32(bytes[1], bytes[2], bytes[3], bytes[4]) as i64, 5))
    } else if bytes[0] == 0xcf {
        if be64(bytes.subrange(1, 9)) > i64::MAX {
            Err("out of range integral type conversion attempted"@)
        } else {
            Ok((be64(bytes.subrange(1, 9)) as i64, 9))
        }
    } else if bytes[0] == 0xd0 {
        Ok((signed(bytes[1] as int, 0x100) as i64, 2))
    } else if bytes[0] == 0xd1 {
        Ok((signed(be16(bytes[1], bytes[2]), 0x1_0000) as i64, 3))
    } else if bytes[0] == 0xd2 {
        Ok((signed(be32(bytes[1], bytes[2], bytes[3], bytes[4]), 0x1_0000_0000) as i64, 5))
    } else {
        Ok((signed(be64(bytes.subrange(1, 9)), 0x1_0000_0000_0000_0000) as i64, 9))
    }
}

/// The number of bytes that follow the mark of an integer.
pub open spec fn int_width(mark: u8) -> int {
    if mark == 0xcc || mark == 0xd0 {
        1
    } else if mark == 0xcd || mark == 0xd1 {
        2
    } else if mark == 0xce || mark == 0xd2 {
        4
    } else {
        8
    }
}

/// The string at the start of `bytes`, with the number of bytes that it
/// takes; where `bytes` does not begin with the head of a string, as many
/// bytes as the head says do not follow, or they are not UTF-8, the error as
/// `rmp` words it.
#[verifier::opaque]
pub open spec fn str_read(bytes: Seq<u8>) -> Result<(Seq<char>, int), Seq<char>> {
    match str_head_read(bytes) {
        Some((len, n)) => if bytes.len() - n >= len && valid_utf8(bytes.subrange(n, n + len)) {
            Ok((decode_utf8(bytes.subrange(n, n + len)), n + len))
        } else {
            Err("error while decoding string"@)
        },
        None => Err("error while decoding string"@),
    }
}

/// Calls `rmp::encode::write_array_len` on `out`: the head of an array of
/// `len` values is appended. Writing to a `Vec` does not fail.
#[verifier::external_body]
fn put_array_len(out: &mut Vec<u8>, len: u32)
    ensures
        final(out)@ == old(out)@ + array_head(len),
{
    let _ = rmp::encode::write_array_len(out, len);
}

/// Calls `rmp::encode::write_sint` on `out`: the integer is appended in its
/// shortest form. Writing to a `Vec` does not fail.
#[verifier::external_body]
fn put_int(out: &mut Vec<u8>, value: i64)
    ensures
        final(out)@ == old(out)@ + int_bytes(value),
{
    let _ = rmp::encode::write_sint(out, value);
}

/// Calls `rmp::encode::write_str` on `out`: the head of a string and the
/// text in UTF-8 are appended. The text must be short enough for its length
/// in bytes to be a `u32`, which is what `rmp` writes it as. Writing to a
/// `Vec` does not fail.
#[verifier::external_body]
fn put_str(out: &mut Vec<u8>, text: &str)
    requires
        fits(text@),
    ensures
        final(out)@ == old(out)@ + str_bytes(text@),
{
    let _ = rmp::encode::write_str(out, text);
}

/// Calls `rmp::decode::read_array_len` on the bytes from `at` on. Returns
/// the length in the head of the array that begins there, with the position
/// after the head, or the error as `rmp` words it.
#[verifier::external_body]
fn take_array_len(input: &[u8], at: usize) -> (r: Result<(u32, usize), String>)
    requires
        at <= input@.len(),
    ensures
        match array_head_read(input@.skip(at as int)) {
            Ok((len, n)) => r matches Ok((l, next)) && l == len && next == at + n,
            Err(text) => r matches Err(t) && t@ == text,
        },
        r matches Ok((_, next)) ==> at < next <= input@.len(),
{
    let mut rest = &input[at..];
    match rmp::decode::read_array_len(&mut rest) {
        Ok(len) => Ok((len, input.len() - rest.len())),
        Err(error) => Err(format!("{}", error)),
    }
}

/// Calls `rmp::decode::read_int` for an `i64` on the bytes from `at` on.
/// Returns the integer that begins there, with the position after it, or
/// the error as `rmp` words it.
#[verifier::external_body]
fn take_int(input: &[u8], at: usize) -> (r: Result<(i64, usize), String>)
    requires
        at <= input@.len(),
    ensures
        match int_read(input@.skip(at as int)) {
            Ok((value, n)) => r matches Ok((v, next)) && v == value && next == at + n,
            Err(text) => r matches Err(t) && t@ == text,
        },
        r matches Ok((_, next)) ==> at < next <= input@.len(),
{
    let mut rest = &input[at..];
    match rmp::decode::read_int::<i64, &[u8]>(&mut rest) {
        Ok(value) => Ok((value, input.len() - rest.len())),
        Err(error) => Err(format!("{}", error)),
    }
}

/// Calls `rmp::decode::read_str_from_slice` on the bytes from `at` on.
/// Returns the string that begins there, with the position after it, or the
/// error as `rmp` words it.
#[verifier::external_body]
fn take_str(input: &[u8], at: usize) -> (r: Result<(String, usize), String>)
    requires
        at <= input@.len(),
    ensures
        match str_read(input@.skip(at as int)) {
            Ok((text, n)) => r matches Ok((s, next)) && s@ == text && next == at + n,
            Err(text) => r matches Err(t) && t@ == text,
        },
        r matches Ok((_, next)) ==> at < next <= input@.len(),
{
    match rmp::decode::read_str_from_slice(&input[at..]) {
        Ok((text, rest)) => Ok((text.to_owned(), input.len() - rest.len())),
        Err(error) => Err(format!("{}", error)),
    }
}

/// The bytes of an optional text: nil, which is the one byte `0xc0`, or a string.
pub open spec fn text_bytes(slot: Option<Seq<char>>) -> Seq<u8> {
    match slot {
        None => seq![0xc0u8],
        Some(text) => str_bytes(text),
    }
}

/// The bytes of a record.
pub open spec fn frame_bytes(frame: Frame) -> Seq<u8> {
    array_head(7) + int_bytes(frame.time.timestamp) + int_bytes(frame.time.offset as i64)
        + int_bytes(frame.slots.tag as i64) + text_bytes(frame.channel) + text_bytes(
        frame.slots.first,
    ) + text_bytes(frame.slots.second) + text_bytes(frame.slots.third)
}

/// What was read.
pub open spec fn got<T>(read: Result<(T, int), Seq<char>>) -> T {
    match read {
        Ok((value, _)) => value,
        Err(_) => arbitrary(),
    }
}

/// The number of bytes that were read.
pub open spec fn taken<T>(read: Result<(T, int), Seq<char>>) -> int {
    match read {
        Ok((_, n)) => n,
        Err(_) => 0,
    }
}

/// Why nothing was read.
pub open spec fn failure<T>(read: Result<(T, int), Seq<char>>) -> Seq<char> {
    match read {
        Ok(_) => Seq::empty(),
        Err(text) => text,
    }
}

/// The optional text at the head of `bytes`, with the number of bytes that
/// it takes: nothing where the first byte is `0xc0`, else a string; where
/// `bytes` begins with neither, the error of reading a string.
pub open spec fn text_read(bytes: Seq<u8>) -> Result<(Option<Seq<char>>, int), Seq<char>> {
    if bytes.len() >= 1 && bytes[0] == 0xc0 {
        Ok((None, 1))
    } else {
        match str_read(bytes) {
            Ok((text, n)) => Ok((Some(text), n)),
            Err(text) => Err(text),
        }
    }
}

/// The fields of the record at the head of `bytes`, with the number of
/// bytes that it takes. The values are read in their order, and the first
/// that is not as the schema asks for is the error: a head that is not that
/// of an array of seven values, a value of another type than asked for, an
/// offset or a number of the kind that is out of range.
pub open spec fn frame_read(bytes: Seq<u8>) -> Result<(Frame, int), Seq<char>> {
    let head = array_head_read(bytes);
    let at1 = taken(head);
    let timestamp = int_read(bytes.skip(at1));
    let at2 = at1 + taken(timestamp);
    let offset = int_read(bytes.skip(at2));
    let at3 = at2 + taken(offset);
    let tag = int_read(bytes.skip(at3));
    let at4 = at3 + taken(tag);
    let channel = text_read(bytes.skip(at4));
    let at5 = at4 + taken(channel);
    let first = text_read(bytes.skip(at5));
    let at6 = at5 + taken(first);
    let second = text_read(bytes.skip(at6));
    let at7 = at6 + taken(second);
    let third = text_read(bytes.skip(at7));
    if head is Err {
        Err(failure(head))
    } else if got(head) != 7 {
        Err("an array of seven values is expected"@)
    } else if timestamp is Err {
        Err(failure(timestamp))
    } else if offset is Err {
        Err(failure(offset))
    } else if !(i32::MIN <= got(offset) <= i32::MAX) {
        Err("the offset is out of range"@)
    } else if tag is Err {
        Err(failure(tag))
    } else if !(0 <= got(tag) <= u8::MAX) {
        Err("the kind is out of range"@)
    } else if channel is Err {
        Err(failure(channel))
    } else if first is Err {
        Err(failure(first))
    } else if second is Err {
        Err(failure(second))
    } else if third is Err {
        Err(failure(third))
    } else {
        Ok(
            (
                Frame {
                    time: Time { timestamp: got(timestamp), offset: got(offset) as i32 },
                    channel: got(channel),
                    slots: Slots {
                        tag: got(tag) as u8,
                        first: got(first),
                        second: got(second),
                        third: got(third),
                    },
                },
                at7 + taken(third),
            ),
        )
    }
}

/// The event at the head of `bytes`, with the number of bytes that its
/// record takes; where `bytes` does not begin with the record of an event,
/// what is wrong with it.
pub open spec fn event_read(bytes: Seq<u8>) -> Result<(EventView, int), Seq<char>> {
    match frame_read(bytes) {
        Ok((frame, n)) => match type_of(frame.slots) {
            Some(ty) => Ok((EventView { ty, time: frame.time, channel: frame.channel }, n)),
            None => Err("the fields do not fit the kind"@),
        },
        Err(text) => Err(text),
    }
}

/// The items of a stream of records: an event for every record, in order.
/// Bytes that are no record are one error, which ends the sequence.
pub open spec fn records(bytes: Seq<u8>) -> Seq<Result<EventView, ErrorView>>
    decreases bytes.len(),
{
    if bytes.len() == 0 {
        Seq::empty()
    } else {
        match event_read(bytes) {
            Ok((event, n)) => if 0 < n <= bytes.len() {
                seq![Ok(event)] + records(bytes.skip(n))
            } else {
                seq![Ok(event)]
            },
            Err(text) => seq![Err(ErrorView::StructuredDecode(text))],
        }
    }
}

/// Two bytes give back the number they were made from.
proof fn be16_round_trip(n: int)
    requires
        0 <= n < 0x1_0000,
    ensures
        be16_bytes(n).len() == 2,
        be16(be16_bytes(n)[0], be16_bytes(n)[1]) == n,
{
}

/// Four bytes give back the number they were made from.
proof fn be32_round_trip(n: int)
    requires
        0 <= n < 0x1_0000_0000,
    ensures
        be32_bytes(n).len() == 4,
        be32(be32_bytes(n)[0], be32_bytes(n)[1], be32_bytes(n)[2], be32_bytes(n)[3]) == n,
{
}

/// Eight bytes give back the number they were made from.
proof fn be64_round_trip(n: int)
    requires
        0 <= n < 0x1_0000_0000_0000_0000,
    ensures
        be64_bytes(n).len() == 8,
        be64(be64_bytes(n)) == n,
{
    be32_round_trip(n / 0x1_0000_0000);
    be32_round_trip(n % 0x1_0000_0000);
    let b = be64_bytes(n);
    let high = be32_bytes(n / 0x1_0000_0000);
    let low = be32_bytes(n % 0x1_0000_0000);
    assert(b[0] == high[0] && b[1] == high[1] && b[2] == high[2] && b[3] == high[3]);
    assert(b[4] == low[0] && b[5] == low[1] && b[6] == low[2] && b[7] == low[3]);
}

/// An integer that was written is read back as it was, whatever follows it.
pub proof fn int_round_trip(value: i64, more: Seq<u8>)
    ensures
        int_read(int_bytes(value) + more) == Ok::<(i64, int), Seq<char>>(
            (value, int_bytes(value).len() as int),
        ),
        int_bytes(value).len() >= 1,
{
    reveal(int_bytes);
    reveal(int_read);
    let own = int_bytes(value);
    let bytes = own + more;
    if -0x8000 <= value < -0x80 {
        be16_round_trip(0x1_0000 + value);
        assert(bytes[1] == be16_bytes(0x1_0000 + value)[0]);
        assert(bytes[2] == be16_bytes(0x1_0000 + value)[1]);
    } else if -0x8000_0000 <= value < -0x8000 {
        let data = be32_bytes(0x1_0000_0000 + value);
        be32_round_trip(0x1_0000_0000 + value);
        assert(bytes[1] == data[0] && bytes[2] == data[1] && bytes[3] == data[2] && bytes[4]
            == data[3]);
    } else if value < -0x8000_0000 {
        let data = be64_bytes(0x1_0000_0000_0000_0000 + value);
        be64_round_trip(0x1_0000_0000_0000_0000 + value);
        assert(bytes.subrange(1, 9) =~= data);
    } else if 0x100 <= value < 0x1_0000 {
        be16_round_trip(value as int);
        assert(bytes[1] == be16_bytes(value as int)[0]);
        assert(bytes[2] == be16_bytes(value as int)[1]);
    } else if 0x1_0000 <= value < 0x1_0000_0000 {
        let data = be32_bytes(value as int);
        be32_round_trip(value as int);
        assert(bytes[1] == data[0] && bytes[2] == data[1] && bytes[3] == data[2] && bytes[4]
            == data[3]);
    } else if value >= 0x1_0000_0000 {
        let data = be64_bytes(value as int);
        be64_round_trip(value as int);
        assert(bytes.subrange(1, 9) =~= data);
    } else {
        assert(bytes[0] == own[0]);
        if own.len() > 1 {
            assert(bytes[1] == own[1]);
        }
    }
}

/// A string that was written is read back as it was, whatever follows it;
/// and it does not begin with the byte that stands for nil.
pub proof fn str_round_trip(text: Seq<char>, more: Seq<u8>)
    requires
        fits(text),
    ensures
        str_read(str_bytes(text) + more) == Ok::<(Seq<char>, int), Seq<char>>(
            (text, str_bytes(text).len() as int),
        ),
        str_bytes(text).len() >= 1,
        str_bytes(text)[0] != 0xc0,
{
    reveal(str_bytes);
    reveal(str_read);
    let body = encode_utf8(text);
    let len = body.len() as int;
    let head = str_head(len);
    let bytes = str_bytes(text) + more;
    encode_utf8_valid_utf8(text);
    encode_utf8_decode_utf8(text);
    if 0x100 <= len < 0x1_0000 {
        be16_round_trip(len);
        assert(bytes[1] == be16_bytes(len)[0] && bytes[2] == be16_bytes(len)[1]);
    } else if len >= 0x1_0000 {
        let data = be32_bytes(len);
        be32_round_trip(len);
        assert(bytes[1] == data[0] && bytes[2] == data[1] && bytes[3] == data[2] && bytes[4]
            == data[3]);
    } else if len >= 32 {
        assert(bytes[1] == head[1]);
    }
    assert(bytes[0] == head[0]);
    assert(str_head_read(bytes) == Some((len, head.len() as int)));
    assert(bytes.subrange(head.len() as int, head.len() + len) =~= body);
}

/// An optional text that was written is read back as it was, whatever
/// follows it.
pub proof fn text_round_trip(slot: Option<Seq<char>>, more: Seq<u8>)
    requires
        slot_fits(slot),
    ensures
        text_read(text_bytes(slot) + more) == Ok::<(Option<Seq<char>>, int), Seq<char>>(
            (slot, text_bytes(slot).len() as int),
        ),
        text_bytes(slot).len() >= 1,
{
    match slot {
        None => {},
        Some(text) => {
            str_round_trip(text, more);
            assert((str_bytes(text) + more)[0] == str_bytes(text)[0]);
        },
    }
}

/// What follows a part of a sequence begins where the part ends.
proof fn after(bytes: Seq<u8>, at: int, part: Seq<u8>, tail: Seq<u8>)
    requires
        0 <= at <= bytes.len(),
        bytes.skip(at) == part + tail,
    ensures
        at + part.len() <= bytes.len(),
        bytes.skip(at + part.len()) == tail,
{
    assert(bytes.skip(at).len() == part.len() + tail.len());
    assert(bytes.skip(at + part.len()) =~= bytes.skip(at).skip(part.len() as int));
    assert((part + tail).skip(part.len() as int) =~= tail);
}

/// Sequences are joined in any grouping.
proof fn regroup(a: Seq<u8>, b: Seq<u8>, c: Seq<u8>)
    ensures
        (a + b) + c == a + (b + c),
{
    assert((a + b) + c =~= a + (b + c));
}

/// Each value of a record that was written is read back, at the place where
/// the value before it ends.
proof fn values_round_trip(frame: Frame, more: Seq<u8>)
    requires
        frame_fits(frame),
    ensures
        ({
            let bytes = frame_bytes(frame) + more;
            let n1 = int_bytes(frame.time.timestamp).len() as int;
            let n2 = int_bytes(frame.time.offset as i64).len() as int;
            let n3 = int_bytes(frame.slots.tag as i64).len() as int;
            let n4 = text_bytes(frame.channel).len() as int;
            let n5 = text_bytes(frame.slots.first).len() as int;
            let n6 = text_bytes(frame.slots.second).len() as int;
            let n7 = text_bytes(frame.slots.third).len() as int;
            &&& n1 >= 1 && n2 >= 1 && n3 >= 1 && n4 >= 1 && n5 >= 1 && n6 >= 1 && n7 >= 1
            &&& frame_bytes(frame).len() == 1 + n1 + n2 + n3 + n4 + n5 + n6 + n7
            &&& array_head_read(bytes) == Ok::<(u32, int), Seq<char>>((7u32, 1))
            &&& int_read(bytes.skip(1)) == Ok::<(i64, int), Seq<char>>(
                (frame.time.timestamp, n1),
            )
            &&& int_read(bytes.skip(1 + n1)) == Ok::<(i64, int), Seq<char>>(
                (frame.time.offset as i64, n2),
            )
            &&& int_read(bytes.skip(1 + n1 + n2)) == Ok::<(i64, int), Seq<char>>(
                (frame.slots.tag as i64, n3),
            )
            &&& text_read(bytes.skip(1 + n1 + n2 + n3)) == Ok::<
                (Option<Seq<char>>, int),
                Seq<char>,
            >((frame.channel, n4))
            &&& text_read(bytes.skip(1 + n1 + n2 + n3 + n4)) == Ok::<
                (Option<Seq<char>>, int),
                Seq<char>,
            >((frame.slots.first, n5))
            &&& text_read(bytes.skip(1 + n1 + n2 + n3 + n4 + n5)) == Ok::<
                (Option<Seq<char>>, int),
                Seq<char>,
            >((frame.slots.second, n6))
            &&& text_read(bytes.skip(1 + n1 + n2 + n3 + n4 + n5 + n6)) == Ok::<
                (Option<Seq<char>>, int),
                Seq<char>,
            >((frame.slots.third, n7))
        }),
{
    let s0 = array_head(7);
    let s1 = int_bytes(frame.time.timestamp);
    let s2 = int_bytes(frame.time.offset as i64);
    let s3 = int_bytes(frame.slots.tag as i64);
    let s4 = text_bytes(frame.channel);
    let s5 = text_bytes(frame.slots.first);
    let s6 = text_bytes(frame.slots.second);
    let s7 = text_bytes(frame.slots.third);
    let t7 = s7 + more;
    let t6 = s6 + t7;
    let t5 = s5 + t6;
    let t4 = s4 + t5;
    let t3 = s3 + t4;
    let t2 = s2 + t3;
    let t1 = s1 + t2;
    let bytes = frame_bytes(frame) + more;
    assert(bytes == s0 + t1) by {
        regroup(s0 + s1 + s2 + s3 + s4 + s5 + s6, s7, more);
        regroup(s0 + s1 + s2 + s3 + s4 + s5, s6, t7);
        regroup(s0 + s1 + s2 + s3 + s4, s5, t6);
        regroup(s0 + s1 + s2 + s3, s4, t5);
        regroup(s0 + s1 + s2, s3, t4);
        regroup(s0 + s1, s2, t3);
        regroup(s0, s1, t2);
    }
    assert(array_head_read(bytes) == Ok::<(u32, int), Seq<char>>((7u32, 1)) && s0.len() == 1) by {
        reveal(array_head);
        reveal(array_head_read);
        assert(bytes[0] == s0[0]);
    }
    assert(bytes.skip(0) =~= bytes);
    after(bytes, 0, s0, t1);
    int_round_trip(frame.time.timestamp, t2);
    after(bytes, 1, s1, t2);
    let at2: int = 1 + s1.len() as int;
    int_round_trip(frame.time.offset as i64, t3);
    after(bytes, at2, s2, t3);
    let at3: int = at2 + s2.len();
    int_round_trip(frame.slots.tag as i64, t4);
    after(bytes, at3, s3, t4);
    let at4: int = at3 + s3.len();
    text_round_trip(frame.channel, t5);
    after(bytes, at4, s4, t5);
    let at5: int = at4 + s4.len();
    text_round_trip(frame.slots.first, t6);
    after(bytes, at5, s5, t6);
    let at6: int = at5 + s5.len();
    text_round_trip(frame.slots.second, t7);
    after(bytes, at6, s6, t7);
    text_round_trip(frame.slots.third, more);
    assert(frame_bytes(frame).len() == s0.len() + s1.len() + s2.len() + s3.len() + s4.len()
        + s5.len() + s6.len() + s7.len());
}

/// The fields of a record that was written are read back as they were,
/// whatever follows the record.
pub proof fn frame_round_trip(frame: Frame, more: Seq<u8>)
    requires
        frame_fits(frame),
    ensures
        frame_read(frame_bytes(frame) + more) == Ok::<(Frame, int), Seq<char>>(
            (frame, frame_bytes(frame).len() as int),
        ),
        frame_bytes(frame).len() >= 8,
{
    values_round_trip(frame, more);
}

/// A record that was written is read back as the event it was written
/// for, whatever follows it.
pub proof fn event_round_trip(event: EventView, more: Seq<u8>)
    requires
        frame_fits(frame_of(event)),
    ensures
        event_read(frame_bytes(frame_of(event)) + more) == Ok::<(EventView, int), Seq<char>>(
            (event, frame_bytes(frame_of(event)).len() as int),
        ),
        frame_bytes(frame_of(event)).len() >= 8,
{
    frame_round_trip(frame_of(event), more);
    slots_round_trip(event.ty);
}

/// Round trip: the records of events, written one after another, are read
/// back as those events, equal in every field, and what follows them is
/// read as if it stood alone.
pub proof fn round_trip(event: EventView, more: Seq<u8>)
    requires
        frame_fits(frame_of(event)),
    ensures
        records(frame_bytes(frame_of(event)) + more) == seq![
            Ok::<EventView, ErrorView>(event),
        ] + records(more),
        records(frame_bytes(frame_of(event))) == seq![Ok::<EventView, ErrorView>(event)],
{
    let own = frame_bytes(frame_of(event));
    event_round_trip(event, more);
    assert((own + more).skip(own.len() as int) =~= more);
    event_round_trip(event, Seq::empty());
    assert(own + Seq::<u8>::empty() =~= own);
    assert(own.skip(own.len() as int) =~= Seq::<u8>::empty());
    assert(records(Seq::<u8>::empty()).len() == 0);
    assert(records(own) =~= seq![Ok::<EventView, ErrorView>(event)]);
}

/// Appends an optional text: nil or a string.
fn put_text(out: &mut Vec<u8>, slot: Option<&str>)
    requires
        slot_fits(str_of(slot)),
    ensures
        final(out)@ == old(out)@ + text_bytes(str_of(slot)),
{
    match slot {
        None => {
            out.push(0xc0);
            proof {
                assert(out@ =~= old(out)@ + seq![0xc0u8]);
            }
        },
        Some(text) => {
            put_str(out, text);
        },
    }
}

/// Reads the optional text that begins at `at`. Returns it with the
/// position after it.
fn take_text(input: &[u8], at: usize) -> (r: Result<(Option<String>, usize), String>)
    requires
        at <= input@.len(),
    ensures
        match text_read(input@.skip(at as int)) {
            Ok((slot, n)) => r matches Ok((text, next)) && text_of(text) == slot && next == at + n
                && at < next <= input@.len(),
            Err(text) => r matches Err(t) && t@ == text,
        },
{
    if at < input.len() && input[at] == 0xc0 {
        Ok((None, at + 1))
    } else {
        match take_str(input, at) {
            Ok((text, next)) => Ok((Some(text), next)),
            Err(text) => Err(text),
        }
    }
}

/// Whether the text, if there is one, is short enough to be written.
fn short_enough(slot: Option<&str>) -> (r: bool)
    ensures
        r == slot_fits(str_of(slot)),
{
    match slot {
        None => true,
        Some(text) => text.as_bytes().len() <= 0xFFFF_FFFF,
    }
}

/// Reads the record that begins at `at`. Returns its event with the
/// position after it, or what is wrong with the bytes there.
pub fn read_event(input: &[u8], at: usize) -> (r: Result<(Event, usize), String>)
    requires
        at <= input@.len(),
    ensures
        match event_read(input@.skip(at as int)) {
            Ok((event, n)) => r matches Ok((e, next)) && e@ == event && next == at + n && at
                < next <= input@.len(),
            Err(text) => r matches Err(t) && t@ == text,
        },
{
    let ghost bytes = input@.skip(at as int);
    let (len, at1) = match take_array_len(input, at) {
        Ok(read) => read,
        Err(text) => {
            return Err(text);
        },
    };
    if len != 7 {
        return Err("an array of seven values is expected".to_owned());
    }
    proof {
        assert(input@.skip(at1 as int) =~= bytes.skip(at1 - at));
    }
    let (timestamp, at2) = match take_int(input, at1) {
        Ok(read) => read,
        Err(text) => {
            return Err(text);
        },
    };
    proof {
        assert(input@.skip(at2 as int) =~= bytes.skip(at2 - at));
    }
    let (offset, at3) = match take_int(input, at2) {
        Ok(read) => read,
        Err(text) => {
            return Err(text);
        },
    };
    if offset < -0x8000_0000 || offset > 0x7FFF_FFFF {
        return Err("the offset is out of range".to_owned());
    }
    proof {
        assert(input@.skip(at3 as int) =~= bytes.skip(at3 - at));
    }
    let (tag, at4) = match take_int(input, at3) {
        Ok(read) => read,
        Err(text) => {
            return Err(text);
        },
    };
    if tag < 0 || tag > 255 {
        return Err("the kind is out of range".to_owned());
    }
    proof {
        assert(input@.skip(at4 as int) =~= bytes.skip(at4 - at));
    }
    let (channel, at5) = match take_text(input, at4) {
        Ok(read) => read,
        Err(text) => {
            return Err(text);
        },
    };
    proof {
        assert(input@.skip(at5 as int) =~= bytes.skip(at5 - at));
    }
    let (first, at6) = match take_text(input, at5) {
        Ok(read) => read,
        Err(text) => {
            return Err(text);
        },
    };
    proof {
        assert(input@.skip(at6 as int) =~= bytes.skip(at6 - at));
    }
    let (second, at7) = match take_text(input, at6) {
        Ok(read) => read,
        Err(text) => {
            return Err(text);
        },
    };
    proof {
        assert(input@.skip(at7 as int) =~= bytes.skip(at7 - at));
    }
    let (third, at8) = match take_text(input, at7) {
        Ok(read) => read,
        Err(text) => {
            return Err(text);
        },
    };
    match assemble(tag as u8, first, second, third) {
        Some(ty) => Ok(
            (Event { ty, time: Time { timestamp, offset: offset as i32 }, channel }, at8),
        ),
        None => Err("the fields do not fit the kind".to_owned()),
    }
}

/// The structured dialect.
#[derive(Clone, Copy, Debug, PartialEq, Eq, Structural)]
pub struct Msgpack;

impl Decode for Msgpack {
    open spec fn decoded(&self, context: ContextView, input: Seq<u8>) -> Seq<
        Result<EventView, ErrorView>,
    > {
        records(input)
    }

    proof fn empty_input(&self, context: ContextView) {
    }

    fn decode(&self, context: &Context, input: &[u8]) -> (r: Vec<Result<Event, IlcError>>) {
        let mut out: Vec<Result<Event, IlcError>> = Vec::new();
        let mut at: usize = 0;
        proof {
            assert(input@.skip(0) =~= input@);
            assert(item_views(out@) + records(input@) =~= records(input@));
        }
        while at < input.len()
            invariant
                at <= input@.len(),
                item_views(out@) + records(input@.skip(at as int)) == records(input@),
            decreases input@.len() - at,
        {
            let ghost before = item_views(out@);
            let ghost bytes = input@.skip(at as int);
            match read_event(input, at) {
                Ok((event, next)) => {
                    proof {
                        assert(bytes.skip(next - at) =~= input@.skip(next as int));
                        assert(item_views(out@.push(Ok(event))) =~= before + seq![
                            Ok::<EventView, ErrorView>(event@),
                        ]);
                        assert((before + seq![Ok::<EventView, ErrorView>(event@)]) + records(
                            input@.skip(next as int),
                        ) =~= before + (seq![Ok::<EventView, ErrorView>(event@)] + records(
                            input@.skip(next as int),
                        )));
                    }
                    out.push(Ok(event));
                    at = next;
                },
                Err(text) => {
                    proof {
                        assert(item_views(out@.push(Err(IlcError::StructuredDecode(text))))
                            =~= before + seq![
                            Err::<EventView, ErrorView>(ErrorView::StructuredDecode(text@)),
                        ]);
                    }
                    out.push(Err(IlcError::StructuredDecode(text)));
                    return out;
                },
            }
        }
        proof {
            assert(records(input@.skip(at as int)).len() == 0);
            assert(item_views(out@) + records(input@.skip(at as int)) =~= item_views(out@));
        }
        out
    }
}

impl Encode for Msgpack {
    open spec fn represents(&self, ty: TypeView) -> bool {
        true
    }

    open spec fn encoded(&self, context: ContextView, event: EventView) -> Result<
        Seq<u8>,
        ErrorView,
    > {
        if frame_fits(frame_of(event)) {
            Ok(frame_bytes(frame_of(event)))
        } else {
            Err(ErrorView::StructuredEncode("a text is too long for a string"@))
        }
    }

    proof fn lossy_is_silent(&self, context: ContextView, event: EventView) {
    }

    fn encode(&self, context: &Context, output: &mut Vec<u8>, event: &Event) -> (r: Result<
        (),
        IlcError,
    >) {
        let (tag, first, second, third) = places(&event.ty);
        let channel = lend(&event.channel);
        if !(short_enough(channel) && short_enough(first) && short_enough(second) && short_enough(
            third,
        )) {
            return Err(IlcError::StructuredEncode("a text is too long for a string".to_owned()));
        }
        put_array_len(output, 7);
        put_int(output, event.time.timestamp);
        put_int(output, event.time.offset as i64);
        put_int(output, tag as i64);
        put_text(output, channel);
        put_text(output, first);
        put_text(output, second);
        put_text(output, third);
        proof {
            assert(output@ =~= old(output)@ + frame_bytes(frame_of(event@)));
        }
        Ok(())
    }
}

/// What was written is read back: an event that the dialect can write
/// comes back from its record as the one item of the log, equal in every
/// field, whatever its kind.
pub proof fn written_is_read(context: ContextView, event: EventView)
    requires
        Msgpack.encoded(context, event) is Ok,
    ensures
        Msgpack.decoded(context, Msgpack.encoded(context, event)->Ok_0) == seq![
            Ok::<EventView, ErrorView>(event),
        ],
{
    round_trip(event, Seq::empty());
}

} // verus!
