//! The canonical event: what one line of a log means, whatever dialect it came from.

use vstd::prelude::*;

verus! {

/// An absolute instant, with the offset it was resolved against.
#[derive(Clone, Copy, Debug, PartialEq, Eq, Structural)]
pub struct Time {
    /// Seconds since the Unix epoch, in UTC.
    pub timestamp: i64,
    /// Seconds west of UTC of the local time this instant was read from.
    pub offset: i32,
}

/// What happened, with the fields that are meaningful for it.
#[derive(Clone, Debug, PartialEq, Eq)]
pub enum Type {
    Msg { from: String, content: String },
    Action { from: String, content: String },
    Join { nick: String, mask: Option<String> },
    Part { nick: String, mask: Option<String>, reason: Option<String> },
    Quit { nick: String, mask: Option<String>, reason: Option<String> },
    Nick { old_nick: String, new_nick: String },
    Notice { from: String, content: String },
    Disconnect,
}

/// One event of a log.
#[derive(Clone, Debug, PartialEq, Eq)]
pub struct Event {
    pub ty: Type,
    pub time: Time,
    /// Absent when the dialect records no channel per line and none was supplied.
    pub channel: Option<String>,
}

/// The text of an optional string.
pub open spec fn text_of(s: Option<String>) -> Option<Seq<char>> {
    match s {
        Some(t) => Some(t@),
        None => None,
    }
}

/// The mathematical value of a [`Type`]: the same variants over sequences of characters.
pub enum TypeView {
    Msg { from: Seq<char>, content: Seq<char> },
    Action { from: Seq<char>, content: Seq<char> },
    Join { nick: Seq<char>, mask: Option<Seq<char>> },
    Part { nick: Seq<char>, mask: Option<Seq<char>>, reason: Option<Seq<char>> },
    Quit { nick: Seq<char>, mask: Option<Seq<char>>, reason: Option<Seq<char>> },
    Nick { old_nick: Seq<char>, new_nick: Seq<char> },
    Notice { from: Seq<char>, content: Seq<char> },
    Disconnect,
}

/// The mathematical value of an [`Event`].
pub struct EventView {
    pub ty: TypeView,
    pub time: Time,
    pub channel: Option<Seq<char>>,
}

impl View for Type {
    type V = TypeView;

    open spec fn view(&self) -> TypeView {
        match *self {
            Type::Msg { from, content } => TypeView::Msg { from: from@, content: content@ },
            Type::Action { from, content } => TypeView::Action { from: from@, content: content@ },
            Type::Join { nick, mask } => TypeView::Join { nick: nick@, mask: text_of(mask) },
            Type::Part { nick, mask, reason } => TypeView::Part {
                nick: nick@,
                mask: text_of(mask),
                reason: text_of(reason),
            },
            Type::Quit { nick, mask, reason } => TypeView::Quit {
                nick: nick@,
                mask: text_of(mask),
                reason: text_of(reason),
            },
            Type::Nick { old_nick, new_nick } => TypeView::Nick {
                old_nick: old_nick@,
                new_nick: new_nick@,
            },
            Type::Notice { from, content } => TypeView::Notice { from: from@, content: content@ },
            Type::Disconnect => TypeView::Disconnect,
        }
    }
}

impl View for Event {
    type V = EventView;

    open spec fn view(&self) -> EventView {
        EventView { ty: self.ty@, time: self.time, channel: text_of(self.channel) }
    }
}

} // verus!
