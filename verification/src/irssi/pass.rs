//! A pass over the lines of a log: each line is read, its time is
//! resolved against the date in force, and what it comes to is handed out.

use vstd::prelude::*;
use vstd::slice::slice_subrange;
use vstd::string::StringExecFns;
use vstd::utf8::{decode_utf8, valid_utf8};
use crate::context::{Context, ContextView, Date};
use crate::error::{ErrorView, IlcError};
use crate::event::{text_of, Event, EventView, Time, Type, TypeView};
use crate::format::item_view;
use crate::irssi::parse::{read_record, record_of, shape_of, Record, RecordView, Shape};
use crate::text::{lossy, lossy_chars, words};
use crate::time::{date_read, moment, read_date};

verus! {

/// The first of two optional values that is there.
pub open spec fn either<T>(first: Option<T>, second: Option<T>) -> Option<T> {
    if first is Some {
        first
    } else {
        second
    }
}

/// The event of kind `ty` at `time`; without a time, the error that names
/// the text `clock` that gave none.
pub open spec fn stamped(
    time: Option<Time>,
    clock: Seq<char>,
    ty: TypeView,
    channel: Option<Seq<char>>,
) -> Result<EventView, ErrorView> {
    match time {
        Some(time) => Ok(EventView { ty, time, channel }),
        None => Err(ErrorView::TimeParse(clock)),
    }
}

/// What one line adds to the sequence, and the date that the lines after it go by.
pub struct Step {
    pub item: Option<Result<EventView, ErrorView>>,
    pub day: Option<Date>,
}

/// What the record `record` comes to, when `day` is the date of the banner
/// last seen.
///
/// A line that opens with its date and its time is dated by them. A line
/// with the time of day alone is dated by the context's date where it has
/// one, else by the banner. The channel of a line is its own where it names
/// one, else the context's. A banner that opens a log sets the date, and is
/// an error where its date cannot be read. A line whose time cannot be
/// resolved is an error, which holds the text that gave no time.
pub open spec fn settled(context: ContextView, day: Option<Date>, record: RecordView) -> Step {
    match record {
        RecordView::Opened { date } => {
            let found = date_read(date, "%a %b %e %Y"@);
            Step {
                item: if found is Some {
                    None
                } else {
                    Some(Err(ErrorView::TimeParse(date)))
                },
                day: found,
            }
        },
        RecordView::Closed { date, clock } => Step {
            item: Some(
                stamped(
                    moment(
                        context.timezone,
                        either(context.override_date, date_read(date, "%a %b %e %Y"@)),
                        clock,
                        "%T"@,
                    ),
                    clock,
                    TypeView::Disconnect,
                    context.channel,
                ),
            ),
            day,
        },
        RecordView::Entry { date, clock, ty, channel } => Step {
            item: Some(
                match date {
                    Some(own) => stamped(
                        moment(context.timezone, date_read(own, "%Y-%m-%d"@), clock, "%H:%M:%S"@),
                        own + " "@ + clock,
                        ty,
                        either(channel, context.channel),
                    ),
                    None => stamped(
                        moment(
                            context.timezone,
                            either(context.override_date, day),
                            clock,
                            "%H:%M"@,
                        ),
                        clock,
                        ty,
                        either(channel, context.channel),
                    ),
                },
            ),
            day,
        },
        RecordView::Malformed { field } => Step { item: Some(Err(ErrorView::Parse(field))), day },
        RecordView::Unknown => Step { item: None, day },
    }
}

/// What the line `line` comes to: its bytes are read as text, the text as a
/// record, and the record is settled.
pub open spec fn line_step(context: ContextView, day: Option<Date>, line: Seq<u8>) -> Step {
    settled(context, day, record_of(lossy(line)))
}

/// A line of none of the known shapes adds nothing to the sequence, neither
/// an event nor an error, and leaves the date as it was.
pub proof fn unknown_line_is_skipped(context: ContextView, day: Option<Date>, text: Seq<char>)
    requires
        shape_of(words(text)) == Shape::Unknown,
    ensures
        settled(context, day, record_of(text)).item is None,
        settled(context, day, record_of(text)).day == day,
{
}

/// A copy of an optional text.
fn copy_of(text: &Option<String>) -> (r: Option<String>)
    ensures
        text_of(r) == text_of(*text),
{
    match text {
        Some(s) => Some(s.clone()),
        None => None,
    }
}

/// The event of kind `ty` at `time`, or the error for the text `clock` that gave no time.
fn stamp(time: Option<Time>, clock: String, ty: Type, channel: Option<String>) -> (r: Result<
    Event,
    IlcError,
>)
    ensures
        item_view(r) == stamped(time, clock@, ty@, text_of(channel)),
{
    match time {
        Some(time) => Ok(Event { ty, time, channel }),
        None => Err(IlcError::TimeParse(clock)),
    }
}

/// Settles a record: resolves its time against the date in force and gives
/// it its channel. `day` is the date of the banner last seen, and is set by
/// a banner that opens a log.
pub fn settle(context: &Context, day: &mut Option<Date>, record: Record) -> (r: Option<
    Result<Event, IlcError>,
>)
    ensures
        match r {
            Some(item) => settled(context@, *old(day), record@).item == Some(item_view(item)),
            None => settled(context@, *old(day), record@).item is None,
        },
        *final(day) == settled(context@, *old(day), record@).day,
{
    match record {
        Record::Opened { date } => {
            let found = read_date(date.as_str(), "%a %b %e %Y");
            *day = found;
            match found {
                Some(_) => None,
                None => Some(Err(IlcError::TimeParse(date))),
            }
        },
        Record::Closed { date, clock } => {
            let own = match context.override_date {
                Some(d) => Some(d),
                None => read_date(date.as_str(), "%a %b %e %Y"),
            };
            let time = Time::from_format(context.timezone, own, clock.as_str(), "%T");
            Some(stamp(time, clock, Type::Disconnect, copy_of(&context.channel)))
        },
        Record::Entry { date, clock, ty, channel } => {
            let channel = match channel {
                Some(c) => Some(c),
                None => copy_of(&context.channel),
            };
            match date {
                Some(own) => {
                    let on = read_date(own.as_str(), "%Y-%m-%d");
                    let time = Time::from_format(context.timezone, on, clock.as_str(), "%H:%M:%S");
                    let mut text = own;
                    text.append(" ");
                    text.append(clock.as_str());
                    Some(stamp(time, text, ty, channel))
                },
                None => {
                    let on = match context.override_date {
                        Some(d) => Some(d),
                        None => *day,
                    };
                    let time = Time::from_format(context.timezone, on, clock.as_str(), "%H:%M");
                    Some(stamp(time, clock, ty, channel))
                },
            }
        },
        Record::Malformed { field } => Some(Err(IlcError::Parse(field))),
        Record::Unknown => None,
    }
}

/// Decodes one line, without its line feed. Returns the event or the error
/// that the line comes to, or `None` where it comes to nothing. A line in
/// UTF-8 is read as the text that it encodes.
pub fn decode_line(context: &Context, day: &mut Option<Date>, line: &[u8]) -> (r: Option<
    Result<Event, IlcError>,
>)
    ensures
        match r {
            Some(item) => line_step(context@, *old(day), line@).item == Some(item_view(item)),
            None => line_step(context@, *old(day), line@).item is None,
        },
        *final(day) == line_step(context@, *old(day), line@).day,
        shape_of(words(lossy(line@))) == Shape::Unknown ==> r is None && *final(day) == *old(day),
        valid_utf8(line@) ==> line_step(context@, *old(day), line@) == settled(
            context@,
            *old(day),
            record_of(decode_utf8(line@)),
        ),
{
    let text = lossy_chars(line);
    let record = read_record(text.as_slice());
    settle(context, day, record)
}

/// The index of the first line feed of `input` at or after `from`, or the
/// length of `input` if there is none.
pub open spec fn line_end(input: Seq<u8>, from: int) -> int
    decreases input.len() - from,
{
    if from >= input.len() {
        input.len() as int
    } else if input[from] == 10 {
        from
    } else {
        line_end(input, from + 1)
    }
}

/// The items of the lines of `input` from the position `from` on, when `day`
/// is the date of the banner last seen. A line ends with a line feed or with
/// the input. An error does not end the sequence: the lines after it are
/// read as if it had not been there.
pub open spec fn items(context: ContextView, input: Seq<u8>, from: int, day: Option<Date>) -> Seq<
    Result<EventView, ErrorView>,
>
    decreases input.len() - from,
{
    if from < 0 || from >= input.len() {
        Seq::empty()
    } else {
        let end = line_end(input, from);
        if from <= end < input.len() {
            let step = line_step(context, day, input.subrange(from, end));
            match step.item {
                Some(item) => seq![item] + items(context, input, end + 1, step.day),
                None => items(context, input, end + 1, step.day),
            }
        } else {
            match line_step(context, day, input.skip(from)).item {
                Some(item) => seq![item],
                None => Seq::empty(),
            }
        }
    }
}

/// `line_end` lies between `from` and the end of the input.
pub proof fn line_end_bounds(input: Seq<u8>, from: int)
    requires
        0 <= from <= input.len(),
    ensures
        from <= line_end(input, from) <= input.len(),
        line_end(input, from) < input.len() ==> input[line_end(input, from)] == 10,
        forall|i: int| from <= i < line_end(input, from) ==> input[i] != 10,
    decreases input.len() - from,
{
    if from < input.len() && input[from] != 10 {
        line_end_bounds(input, from + 1);
    }
}

/// A position with a line feed, or the end of the input, and no line feed
/// before it, is `line_end`.
pub proof fn line_end_at(input: Seq<u8>, from: int, end: int)
    requires
        0 <= from <= end <= input.len(),
        end < input.len() ==> input[end] == 10,
        forall|i: int| from <= i < end ==> input[i] != 10,
    ensures
        line_end(input, from) == end,
    decreases end - from,
{
    if from < end {
        line_end_at(input, from + 1, end);
    }
}

/// What precedes a position does not matter to the items from it on.
pub proof fn items_from(
    context: ContextView,
    before: Seq<u8>,
    input: Seq<u8>,
    from: int,
    day: Option<Date>,
)
    requires
        0 <= from <= input.len(),
    ensures
        items(context, before + input, before.len() + from, day) == items(
            context,
            input,
            from,
            day,
        ),
    decreases input.len() - from,
{
    let whole = before + input;
    let shift = before.len() as int;
    if from < input.len() {
        let end = line_end(input, from);
        line_end_bounds(input, from);
        assert forall|i: int| shift + from <= i < shift + end implies whole[i] != 10 by {
            assert(whole[i] == input[i - shift]);
        }
        if end < input.len() {
            assert(whole[shift + end] == input[end]);
        }
        line_end_at(whole, shift + from, shift + end);
        if end < input.len() {
            assert(whole.subrange(shift + from, shift + end) =~= input.subrange(from, end));
            let next = line_step(context, day, input.subrange(from, end)).day;
            items_from(context, before, input, end + 1, next);
        } else {
            assert(whole.skip(shift + from) =~= input.skip(from));
        }
    }
}

/// The items of a log are what its first line comes to, then the items of
/// the rest, read by the date that the first line leaves in force. So a
/// first line that comes to nothing leaves the items of the rest.
pub proof fn first_line(context: ContextView, day: Option<Date>, line: Seq<u8>, more: Seq<u8>)
    requires
        forall|i: int| 0 <= i < line.len() ==> line[i] != 10,
    ensures
        items(context, line + seq![10u8] + more, 0, day) == (match line_step(
            context,
            day,
            line,
        ).item {
            Some(item) => seq![item] + items(context, more, 0, line_step(context, day, line).day),
            None => items(context, more, 0, line_step(context, day, line).day),
        }),
{
    let head = line + seq![10u8];
    let input = head + more;
    let end = line.len() as int;
    assert forall|i: int| 0 <= i < end implies input[i] != 10 by {
        assert(input[i] == line[i]);
    }
    line_end_at(input, 0, end);
    assert(input.subrange(0, end) =~= line);
    items_from(context, head, more, 0, line_step(context, day, line).day);
}

/// A log that is one line without a line feed holds what that line comes to.
pub proof fn last_line(context: ContextView, day: Option<Date>, line: Seq<u8>)
    requires
        line.len() > 0,
        forall|i: int| 0 <= i < line.len() ==> line[i] != 10,
    ensures
        items(context, line, 0, day) == (match line_step(context, day, line).item {
            Some(item) => seq![item],
            None => Seq::empty(),
        }),
{
    line_end_at(line, 0, line.len() as int);
    assert(line.skip(0) =~= line);
}

/// Finds the end of the line that starts at `from`.
fn find_line_end(input: &[u8], from: usize) -> (r: usize)
    requires
        from <= input@.len(),
    ensures
        r == line_end(input@, from as int),
        from <= r <= input@.len(),
{
    let mut i: usize = from;
    while i < input.len() && input[i] != 10
        invariant
            from <= i <= input@.len(),
            line_end(input@, from as int) == line_end(input@, i as int),
        decreases input@.len() - i,
    {
        i = i + 1;
    }
    i
}

/// Where the pull that starts at `from` stops reading: after the first line
/// that comes to an item, its line feed included, or at the end of the
/// input where no line comes to one. A pull reads no further.
pub open spec fn pull_end(context: ContextView, input: Seq<u8>, from: int, day: Option<Date>) -> int
    decreases input.len() - from,
{
    if from < 0 || from >= input.len() {
        input.len() as int
    } else {
        let end = line_end(input, from);
        if from <= end < input.len() {
            let step = line_step(context, day, input.subrange(from, end));
            if step.item is Some {
                end + 1
            } else {
                pull_end(context, input, end + 1, step.day)
            }
        } else {
            input.len() as int
        }
    }
}

/// The date in force after the pull that starts at `from`.
pub open spec fn pull_day(context: ContextView, input: Seq<u8>, from: int, day: Option<Date>)
    -> Option<Date>
    decreases input.len() - from,
{
    if from < 0 || from >= input.len() {
        day
    } else {
        let end = line_end(input, from);
        if from <= end < input.len() {
            let step = line_step(context, day, input.subrange(from, end));
            if step.item is Some {
                step.day
            } else {
                pull_day(context, input, end + 1, step.day)
            }
        } else {
            line_step(context, day, input.skip(from)).day
        }
    }
}

/// A pull takes one line where the first line comes to an item: it stops
/// right after that line and its line feed, and what follows is unread.
pub proof fn pull_takes_one_line(
    context: ContextView,
    day: Option<Date>,
    line: Seq<u8>,
    more: Seq<u8>,
)
    requires
        forall|i: int| 0 <= i < line.len() ==> line[i] != 10,
    ensures
        line_step(context, day, line).item is Some ==> pull_end(
            context,
            line + seq![10u8] + more,
            0,
            day,
        ) == line.len() + 1,
{
    let input = line + seq![10u8] + more;
    let end = line.len() as int;
    assert forall|i: int| 0 <= i < end implies input[i] != 10 by {
        assert(input[i] == line[i]);
    }
    line_end_at(input, 0, end);
    assert(input.subrange(0, end) =~= line);
}

/// A pass over the lines of one log, which hands out its items one by one.
pub struct Iter<'a> {
    context: &'a Context,
    input: &'a [u8],
    at: usize,
    day: Option<Date>,
}

impl<'a> Iter<'a> {
    #[verifier::type_invariant]
    closed spec fn within(&self) -> bool {
        self.at <= self.input@.len()
    }

    /// The log that is read.
    pub closed spec fn input(&self) -> Seq<u8> {
        self.input@
    }

    /// The context that it is read in.
    pub closed spec fn context(&self) -> ContextView {
        self.context@
    }

    /// How many bytes of the log have been read: the start of the next line.
    pub closed spec fn position(&self) -> int {
        self.at as int
    }

    /// The date of the banner last seen.
    pub closed spec fn day(&self) -> Option<Date> {
        self.day
    }

    /// The items that are still to come: those of the lines not yet read.
    pub open spec fn remaining(&self) -> Seq<Result<EventView, ErrorView>> {
        items(self.context(), self.input(), self.position(), self.day())
    }

    /// A pass that starts at the first line of `input`, with no banner seen.
    pub fn new(context: &'a Context, input: &'a [u8]) -> (r: Iter<'a>)
        ensures
            r.input() == input@,
            r.context() == context@,
            r.position() == 0,
            r.day() is None,
    {
        Iter { context, input, at: 0, day: None }
    }

    /// The number of bytes of the log that have been read.
    pub fn consumed(&self) -> (r: usize)
        ensures
            r == self.position(),
            r <= self.input().len(),
    {
        proof {
            use_type_invariant(self);
        }
        self.at
    }

    /// The next item: lines are read until one comes to an event or an
    /// error, and no further. `None` when the log holds no more items.
    pub fn next(&mut self) -> (r: Option<Result<Event, IlcError>>)
        ensures
            match r {
                Some(item) => old(self).remaining() == seq![item_view(item)]
                    + final(self).remaining(),
                None => old(self).remaining().len() == 0 && final(self).remaining().len() == 0,
            },
            final(self).input() == old(self).input(),
            final(self).context() == old(self).context(),
            final(self).position() == pull_end(
                old(self).context(),
                old(self).input(),
                old(self).position(),
                old(self).day(),
            ),
            final(self).day() == pull_day(
                old(self).context(),
                old(self).input(),
                old(self).position(),
                old(self).day(),
            ),
    {
        proof {
            use_type_invariant(&*self);
        }
        while self.at < self.input.len()
            invariant
                self.input == old(self).input,
                self.context == old(self).context,
                self.at <= self.input@.len(),
                self.remaining() == old(self).remaining(),
                pull_end(self.context@, self.input@, self.at as int, self.day) == pull_end(
                    old(self).context@,
                    old(self).input@,
                    old(self).at as int,
                    old(self).day,
                ),
                pull_day(self.context@, self.input@, self.at as int, self.day) == pull_day(
                    old(self).context@,
                    old(self).input@,
                    old(self).at as int,
                    old(self).day,
                ),
            decreases self.input@.len() - self.at,
        {
            let end = find_line_end(self.input, self.at);
            let line = slice_subrange(self.input, self.at, end);
            let mut day = self.day;
            let item = decode_line(self.context, &mut day, line);
            proof {
                line_end_bounds(self.input@, self.at as int);
                if end == self.input@.len() {
                    assert(line@ =~= self.input@.skip(self.at as int));
                }
            }
            self.day = day;
            self.at = if end < self.input.len() {
                end + 1
            } else {
                end
            };
            match item {
                Some(item) => {
                    return Some(item);
                },
                None => {},
            }
        }
        None
    }
}

} // verus!
