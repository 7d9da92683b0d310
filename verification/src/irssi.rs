//! The line-oriented dialect of the irssi client.
//!
//! A message, an action, a notice and a change of nick open with their date
//! and their time. The lines of the server about who joined, left or quit
//! open with the time of day alone; their date comes from the context, or
//! from the banner that opens a log. Every line is written with its date and
//! its time. A line that cannot be read is an error, and the lines after it
//! are read all the same.

pub mod parse;
pub mod pass;
pub mod render;

pub use parse::{classify, read_record, Record, Shape};
pub use pass::{decode_line, settle, Iter};
pub use render::{lacking, render};

use vstd::prelude::*;
use crate::context::{Context, ContextView};
use crate::error::{ErrorView, IlcError};
use crate::event::{Event, EventView, Type, TypeView};
use crate::format::{item_view, item_views, Decode, Encode};
use crate::text::{
    append, first_word, is_space, plain, rejoin_is_rest, rest, words, words_and_gaps,
};
use parse::{record_of, shape_of, RecordView};
use pass::items;
use render::{has_line, record_bytes, rendered};

verus! {

/// The irssi dialect.
#[derive(Clone, Copy, Debug, PartialEq, Eq, Structural)]
pub struct Irssi;

impl Decode for Irssi {
    open spec fn decoded(&self, context: ContextView, input: Seq<u8>) -> Seq<
        Result<EventView, ErrorView>,
    > {
        items(context, input, 0, None)
    }

    proof fn empty_input(&self, context: ContextView) {
    }

    fn decode(&self, context: &Context, input: &[u8]) -> (r: Vec<Result<Event, IlcError>>) {
        let mut it = Iter::new(context, input);
        let mut out: Vec<Result<Event, IlcError>> = Vec::new();
        loop
            invariant
                item_views(out@) + it.remaining() == items(context@, input@, 0, None),
            ensures
                item_views(out@) == items(context@, input@, 0, None),
            decreases it.remaining().len(),
        {
            match it.next() {
                Some(item) => {
                    proof {
                        assert(item_views(out@.push(item)) =~= item_views(out@) + seq![
                            item_view(item),
                        ]);
                    }
                    out.push(item);
                },
                None => {
                    break ;
                },
            }
        }
        out
    }
}

impl Encode for Irssi {
    open spec fn represents(&self, ty: TypeView) -> bool {
        has_line(ty)
    }

    open spec fn encoded(&self, context: ContextView, event: EventView) -> Result<
        Seq<u8>,
        ErrorView,
    > {
        record_bytes(context, event)
    }

    proof fn lossy_is_silent(&self, context: ContextView, event: EventView) {
    }

    fn encode(&self, context: &Context, output: &mut Vec<u8>, event: &Event) -> (r: Result<
        (),
        IlcError,
    >) {
        if let Type::Nick { .. } = &event.ty {
            proof {
                assert(output@ =~= old(output)@ + Seq::<u8>::empty());
            }
            return Ok(());
        }
        match lacking(event) {
            Some(field) => {
                return Err(IlcError::MissingRequiredField(field));
            },
            None => {},
        }
        let clock = match event.time.with_format(context.timezone, "%Y-%m-%d %H:%M:%S") {
            Some(clock) => clock,
            None => {
                return Err(IlcError::TimeParse("%Y-%m-%d %H:%M:%S".to_owned()));
            },
        };
        match render(event, clock.as_str()) {
            Ok(line) => {
                append(output, line.as_str().as_bytes());
                Ok(())
            },
            Err(error) => Err(error),
        }
    }
}

/// Spacing survives: the body of a message that was read from the line
/// `text` is the end of that line, with every whitespace character in its
/// place, and the line written for the message ends with that same body and
/// a line feed.
pub proof fn message_keeps_spacing(text: Seq<char>, event: EventView, clock: Seq<char>)
    requires
        shape_of(words(text)) == Shape::Msg,
        record_of(text) matches RecordView::Entry { ty, .. } && event.ty == ty,
    ensures
        event.ty matches TypeView::Msg { from, content } && from == words(text)[2] && content
            == rest(text, 3),
        rest(text, 3).len() <= text.len(),
        text.skip(text.len() - rest(text, 3).len()) == rest(text, 3),
        rendered(event, clock) == clock + "\t"@ + words(text)[2] + "\t"@ + rest(text, 3) + "\n"@,
{
    rejoin_is_rest(text, 3);
}

/// Whether the line written for `event` under the date `date` and the
/// time `clock` is one that is read back as it was written: the event is a
/// message, an action or a notice; date, time and sender hold no
/// whitespace; the date is not the `---` of a banner and the time not the
/// `-!-` of a line of the server; and the sender of a message is not empty
/// and not `--`.
pub open spec fn reads_back(event: EventView, date: Seq<char>, clock: Seq<char>) -> bool {
    &&& plain(date) && plain(clock)
    &&& date != "---"@ && clock != "-!-"@
    &&& match event.ty {
        TypeView::Msg { from, content } => plain(from) && from.len() > 0 && from != "--"@,
        TypeView::Action { from, content } => plain(from),
        TypeView::Notice { from, content } => plain(from),
        _ => false,
    }
}

/// What is written is read back: the line of a message, an action or a
/// notice, read again, says the date and the time that it was written
/// under and the event that it was written for, with its sender and every
/// character of its body.
pub proof fn written_line_is_read(event: EventView, date: Seq<char>, clock: Seq<char>)
    requires
        reads_back(event, date, clock),
    ensures
        record_of(rendered(event, date + " "@ + clock).drop_last()) == (RecordView::Entry {
            date: Some(date),
            clock,
            ty: event.ty,
            channel: None,
        }),
{
    reveal_strlit(" ");
    reveal_strlit("\t");
    reveal_strlit("\n");
    reveal_strlit("---");
    reveal_strlit("-!-");
    reveal_strlit("--");
    reveal_strlit("*");
    let line = rendered(event, date + " "@ + clock).drop_last();
    match event.ty {
        TypeView::Msg { from, content } => {
            let t2 = from + seq!['\t'] + content;
            let t1 = clock + seq!['\t'] + t2;
            assert(line =~= date + seq![' '] + t1);
            first_word(date, ' ', t1, 2);
            first_word(clock, '\t', t2, 1);
            first_word(from, '\t', content, 0);
            let w = words(line);
            assert(w =~= seq![date, clock, from] + words(content));
            words_and_gaps(content);
            assert(w[0] == date && w[1] == clock && w[2] == from);
            assert(shape_of(w) == Shape::Msg);
        },
        TypeView::Action { from, content } => {
            reveal_strlit("\t *\t");
            let t4 = from + seq![' '] + content;
            let t3 = seq!['*'] + seq!['\t'] + t4;
            let t2 = Seq::<char>::empty() + seq![' '] + t3;
            let t1 = clock + seq!['\t'] + t2;
            assert(line =~= date + seq![' '] + t1);
            first_word(date, ' ', t1, 4);
            first_word(clock, '\t', t2, 3);
            first_word(Seq::<char>::empty(), ' ', t3, 2);
            first_word(seq!['*'], '\t', t4, 1);
            first_word(from, ' ', content, 0);
            let w = words(line);
            assert(w =~= seq![date, clock, Seq::<char>::empty(), seq!['*'], from] + words(
                content,
            ));
            words_and_gaps(content);
            assert(w[0] == date && w[1] == clock && w[2].len() == 0 && w[4] == from);
            assert(w[3] =~= "*"@);
            assert(shape_of(w) == Shape::Action);
        },
        TypeView::Notice { from, content } => {
            reveal_strlit("\t--\tNotice(");
            reveal_strlit("Notice(");
            reveal_strlit("): ");
            let label = "Notice("@ + from + seq![')', ':'];
            let t3 = label + seq![' '] + content;
            let t2 = "--"@ + seq!['\t'] + t3;
            let t1 = clock + seq!['\t'] + t2;
            assert(line =~= date + seq![' '] + t1);
            assert(plain(label)) by {
                assert forall|i: int| 0 <= i < label.len() implies !is_space(
                    #[trigger] label[i],
                ) by {
                    if i >= 7 && i < 7 + from.len() {
                        assert(label[i] == from[i - 7]);
                    }
                }
            }
            first_word(date, ' ', t1, 3);
            first_word(clock, '\t', t2, 2);
            first_word("--"@, '\t', t3, 1);
            first_word(label, ' ', content, 0);
            let w = words(line);
            assert(w =~= seq![date, clock, "--"@, label] + words(content));
            words_and_gaps(content);
            assert(w[0] == date && w[1] == clock && w[2] == "--"@ && w[3] == label);
            assert("Notice("@.is_prefix_of(label));
            assert(label.subrange(7, label.len() - 2) =~= from);
            assert(shape_of(w) == Shape::Notice);
        },
        _ => {},
    }
}

} // verus!
