//! The line that is written for an event.

use vstd::prelude::*;
use vstd::string::StringExecFns;
use vstd::utf8::encode_utf8;
use crate::context::ContextView;
use crate::error::{ErrorView, Field, IlcError};
use crate::event::{text_of, Event, EventView, Type, TypeView};
use crate::time::instant_shown;

verus! {

/// The field that the rendering of `event` cannot do without and `event`
/// lacks, if there is one: the mask of who joined, left or quit, then the
/// channel that was joined or left.
pub open spec fn missing(event: EventView) -> Option<Field> {
    match event.ty {
        TypeView::Join { nick, mask } => if mask is None {
            Some(Field::Mask)
        } else if event.channel is None {
            Some(Field::Channel)
        } else {
            None
        },
        TypeView::Part { nick, mask, reason } => if mask is None {
            Some(Field::Mask)
        } else if event.channel is None {
            Some(Field::Channel)
        } else {
            None
        },
        TypeView::Quit { nick, mask, reason } => if mask is None {
            Some(Field::Mask)
        } else {
            None
        },
        _ => None,
    }
}

/// A reason in brackets after a space; nothing where there is no reason or an empty one.
pub open spec fn reason_shown(reason: Option<Seq<char>>) -> Seq<char> {
    match reason {
        Some(text) => if text.len() > 0 {
            " ("@ + text + ")"@
        } else {
            Seq::empty()
        },
        None => Seq::empty(),
    }
}

/// The line that stands for `event`, with `clock` as the text of its date
/// and time.
/// A change of nick has no line. Texts go into the line as they are.
pub open spec fn rendered(event: EventView, clock: Seq<char>) -> Seq<char> {
    match event.ty {
        TypeView::Msg { from, content } => clock + "\t"@ + from + "\t"@ + content + "\n"@,
        TypeView::Action { from, content } => clock + "\t *\t"@ + from + " "@ + content + "\n"@,
        TypeView::Join { nick, mask } => clock + "\t-->\t"@ + nick + " ("@ + mask->0
            + ") has joined "@ + event.channel->0 + "\n"@,
        TypeView::Part { nick, mask, reason } => clock + "\t<--\t"@ + nick + " ("@ + mask->0
            + ") has left "@ + event.channel->0 + reason_shown(reason) + "\n"@,
        TypeView::Quit { nick, mask, reason } => clock + "\t<--\t"@ + nick + " ("@ + mask->0
            + ") has quit"@ + reason_shown(reason) + "\n"@,
        TypeView::Nick { old_nick, new_nick } => Seq::empty(),
        TypeView::Notice { from, content } => clock + "\t--\tNotice("@ + from + "): "@ + content
            + "\n"@,
        TypeView::Disconnect => clock + "\t--\tirc: disconnected from server\n"@,
    }
}

/// Appends a reason in brackets, if there is one and it is not empty.
fn show_reason(line: &mut String, reason: &Option<String>)
    ensures
        final(line)@ == old(line)@ + reason_shown(text_of(*reason)),
{
    match reason {
        Some(text) => {
            if !text.as_str().is_empty() {
                line.append(" (");
                line.append(text.as_str());
                line.append(")");
                proof {
                    assert(line@ =~= old(line)@ + (" ("@ + text@ + ")"@));
                }
            } else {
                proof {
                    assert(line@ =~= old(line)@ + Seq::<char>::empty());
                }
            }
        },
        None => {
            proof {
                assert(line@ =~= old(line)@ + Seq::<char>::empty());
            }
        },
    }
}

/// Writes the line of `event`, with `clock` as the text of its date and time. An
/// event that lacks a field which its line always shows is an error, and
/// nothing is made up in the field's place.
pub fn render(event: &Event, clock: &str) -> (r: Result<String, IlcError>)
    ensures
        match missing(event@) {
            Some(field) => r is Err && r->Err_0@ == ErrorView::MissingRequiredField(field),
            None => r is Ok && r->Ok_0@ == rendered(event@, clock@),
        },
{
    let mut line = String::new();
    match &event.ty {
        Type::Msg { from, content } => {
            line.append(clock);
            line.append("\t");
            line.append(from.as_str());
            line.append("\t");
            line.append(content.as_str());
            line.append("\n");
        },
        Type::Action { from, content } => {
            line.append(clock);
            line.append("\t *\t");
            line.append(from.as_str());
            line.append(" ");
            line.append(content.as_str());
            line.append("\n");
        },
        Type::Join { nick, mask } => {
            let mask = match mask {
                Some(mask) => mask,
                None => {
                    return Err(IlcError::MissingRequiredField(Field::Mask));
                },
            };
            let channel = match &event.channel {
                Some(channel) => channel,
                None => {
                    return Err(IlcError::MissingRequiredField(Field::Channel));
                },
            };
            line.append(clock);
            line.append("\t-->\t");
            line.append(nick.as_str());
            line.append(" (");
            line.append(mask.as_str());
            line.append(") has joined ");
            line.append(channel.as_str());
            line.append("\n");
        },
        Type::Part { nick, mask, reason } => {
            let mask = match mask {
                Some(mask) => mask,
                None => {
                    return Err(IlcError::MissingRequiredField(Field::Mask));
                },
            };
            let channel = match &event.channel {
                Some(channel) => channel,
                None => {
                    return Err(IlcError::MissingRequiredField(Field::Channel));
                },
            };
            line.append(clock);
            line.append("\t<--\t");
            line.append(nick.as_str());
            line.append(" (");
            line.append(mask.as_str());
            line.append(") has left ");
            line.append(channel.as_str());
            show_reason(&mut line, reason);
            line.append("\n");
        },
        Type::Quit { nick, mask, reason } => {
            let mask = match mask {
                Some(mask) => mask,
                None => {
                    return Err(IlcError::MissingRequiredField(Field::Mask));
                },
            };
            line.append(clock);
            line.append("\t<--\t");
            line.append(nick.as_str());
            line.append(" (");
            line.append(mask.as_str());
            line.append(") has quit");
            show_reason(&mut line, reason);
            line.append("\n");
        },
        Type::Nick { old_nick, new_nick } => {},
        Type::Notice { from, content } => {
            line.append(clock);
            line.append("\t--\tNotice(");
            line.append(from.as_str());
            line.append("): ");
            line.append(content.as_str());
            line.append("\n");
        },
        Type::Disconnect => {
            line.append(clock);
            line.append("\t--\tirc: disconnected from server\n");
        },
    }
    proof {
        assert(line@ =~= rendered(event@, clock@));
    }
    Ok(line)
}

/// Finds the field that the line of `event` needs and `event` lacks.
pub fn lacking(event: &Event) -> (r: Option<Field>)
    ensures
        r == missing(event@),
{
    match &event.ty {
        Type::Join { nick, mask } => {
            if mask.is_none() {
                Some(Field::Mask)
            } else if event.channel.is_none() {
                Some(Field::Channel)
            } else {
                None
            }
        },
        Type::Part { nick, mask, reason } => {
            if mask.is_none() {
                Some(Field::Mask)
            } else if event.channel.is_none() {
                Some(Field::Channel)
            } else {
                None
            }
        },
        Type::Quit { nick, mask, reason } => {
            if mask.is_none() {
                Some(Field::Mask)
            } else {
                None
            }
        },
        _ => None,
    }
}

/// Whether the dialect has a line for events of kind `ty`: for all but a change of nick.
pub open spec fn has_line(ty: TypeView) -> bool {
    !(ty is Nick)
}

/// The record of `event`: nothing for a kind without a line; else an error
/// where a field is missing or the time cannot be shown; else the line, as
/// UTF-8, with the date and the time shown by the context's clock.
pub open spec fn record_bytes(context: ContextView, event: EventView) -> Result<
    Seq<u8>,
    ErrorView,
> {
    if !has_line(event.ty) {
        Ok(Seq::empty())
    } else if missing(event) is Some {
        Err(ErrorView::MissingRequiredField(missing(event)->0))
    } else {
        match instant_shown(context.timezone, event.time.timestamp, "%Y-%m-%d %H:%M:%S"@) {
            Some(clock) => Ok(encode_utf8(rendered(event, clock))),
            None => Err(ErrorView::TimeParse("%Y-%m-%d %H:%M:%S"@)),
        }
    }
}

/// A line with a field that is missing is refused whatever else holds of
/// the event: nothing is written in the field's place.
pub proof fn missing_field_is_refused(context: ContextView, event: EventView)
    requires
        has_line(event.ty),
        missing(event) is Some,
    ensures
        record_bytes(context, event) == Err::<Seq<u8>, ErrorView>(
            ErrorView::MissingRequiredField(missing(event)->0),
        ),
{
}

} // verus!
