//! The fields of an event laid out as a record: the same places for every
//! kind of event, so that a record has one layout whatever it holds.

use vstd::prelude::*;
use vstd::utf8::encode_utf8;
use crate::event::{text_of, EventView, Time, Type, TypeView};

verus! {

/// Whether the text is short enough for its length to be written in 4 bytes.
pub open spec fn fits(text: Seq<char>) -> bool {
    encode_utf8(text).len() <= u32::MAX
}

/// Whether the text, if there is one, is short enough to be written.
pub open spec fn slot_fits(slot: Option<Seq<char>>) -> bool {
    slot matches Some(text) ==> fits(text)
}

/// The kind of an event as a number, and its fields in the three places of a record.
pub struct Slots {
    pub tag: u8,
    pub first: Option<Seq<char>>,
    pub second: Option<Seq<char>>,
    pub third: Option<Seq<char>>,
}

/// Where the fields of each kind of event go.
pub open spec fn slots_of(ty: TypeView) -> Slots {
    match ty {
        TypeView::Msg { from, content } => Slots {
            tag: 0,
            first: Some(from),
            second: Some(content),
            third: None,
        },
        TypeView::Action { from, content } => Slots {
            tag: 1,
            first: Some(from),
            second: Some(content),
            third: None,
        },
        TypeView::Join { nick, mask } => Slots {
            tag: 2,
            first: Some(nick),
            second: mask,
            third: None,
        },
        TypeView::Part { nick, mask, reason } => Slots {
            tag: 3,
            first: Some(nick),
            second: mask,
            third: reason,
        },
        TypeView::Quit { nick, mask, reason } => Slots {
            tag: 4,
            first: Some(nick),
            second: mask,
            third: reason,
        },
        TypeView::Nick { old_nick, new_nick } => Slots {
            tag: 5,
            first: Some(old_nick),
            second: Some(new_nick),
            third: None,
        },
        TypeView::Notice { from, content } => Slots {
            tag: 6,
            first: Some(from),
            second: Some(content),
            third: None,
        },
        TypeView::Disconnect => Slots { tag: 7, first: None, second: None, third: None },
    }
}

/// The event that has its fields in these places, if the number names a
/// kind, every field of that kind that must be there is there, and every
/// place that the kind does not use is empty.
pub open spec fn type_of(slots: Slots) -> Option<TypeView> {
    let Slots { tag, first, second, third } = slots;
    if tag == 0 && first is Some && second is Some && third is None {
        Some(TypeView::Msg { from: first->0, content: second->0 })
    } else if tag == 1 && first is Some && second is Some && third is None {
        Some(TypeView::Action { from: first->0, content: second->0 })
    } else if tag == 2 && first is Some && third is None {
        Some(TypeView::Join { nick: first->0, mask: second })
    } else if tag == 3 && first is Some {
        Some(TypeView::Part { nick: first->0, mask: second, reason: third })
    } else if tag == 4 && first is Some {
        Some(TypeView::Quit { nick: first->0, mask: second, reason: third })
    } else if tag == 5 && first is Some && second is Some && third is None {
        Some(TypeView::Nick { old_nick: first->0, new_nick: second->0 })
    } else if tag == 6 && first is Some && second is Some && third is None {
        Some(TypeView::Notice { from: first->0, content: second->0 })
    } else if tag == 7 && first is None && second is None && third is None {
        Some(TypeView::Disconnect)
    } else {
        None
    }
}

/// The fields of a record.
pub struct Frame {
    pub time: Time,
    pub channel: Option<Seq<char>>,
    pub slots: Slots,
}

/// The fields of the record of an event.
pub open spec fn frame_of(event: EventView) -> Frame {
    Frame { time: event.time, channel: event.channel, slots: slots_of(event.ty) }
}

/// Whether every text of the record is short enough to be written.
pub open spec fn frame_fits(frame: Frame) -> bool {
    slot_fits(frame.channel) && slot_fits(frame.slots.first) && slot_fits(frame.slots.second)
        && slot_fits(frame.slots.third)
}

/// The places of an event give the event back.
pub proof fn slots_round_trip(ty: TypeView)
    ensures
        type_of(slots_of(ty)) == Some(ty),
{
}

/// The text of an optional borrowed string.
pub open spec fn str_of(text: Option<&str>) -> Option<Seq<char>> {
    match text {
        Some(t) => Some(t@),
        None => None,
    }
}

/// Lends the text of an optional string.
pub fn lend(text: &Option<String>) -> (r: Option<&str>)
    ensures
        str_of(r) == text_of(*text),
{
    match text {
        Some(t) => Some(t.as_str()),
        None => None,
    }
}

/// Puts fields that were read into the event of the kind that `tag` names.
pub fn assemble(tag: u8, first: Option<String>, second: Option<String>, third: Option<String>) -> (r:
    Option<Type>)
    ensures
        match type_of(
            Slots { tag, first: text_of(first), second: text_of(second), third: text_of(third) },
        ) {
            Some(ty) => r matches Some(t) && t@ == ty,
            None => r is None,
        },
{
    match first {
        None => {
            if tag == 7 && second.is_none() && third.is_none() {
                Some(Type::Disconnect)
            } else {
                None
            }
        },
        Some(a) => {
            if tag == 3 {
                Some(Type::Part { nick: a, mask: second, reason: third })
            } else if tag == 4 {
                Some(Type::Quit { nick: a, mask: second, reason: third })
            } else if third.is_some() {
                None
            } else if tag == 2 {
                Some(Type::Join { nick: a, mask: second })
            } else {
                match second {
                    None => None,
                    Some(b) => {
                        if tag == 0 {
                            Some(Type::Msg { from: a, content: b })
                        } else if tag == 1 {
                            Some(Type::Action { from: a, content: b })
                        } else if tag == 5 {
                            Some(Type::Nick { old_nick: a, new_nick: b })
                        } else if tag == 6 {
                            Some(Type::Notice { from: a, content: b })
                        } else {
                            None
                        }
                    },
                }
            }
        },
    }
}

/// Takes an event apart: the number of its kind and its fields in their places.
pub fn places(ty: &Type) -> (r: (u8, Option<&str>, Option<&str>, Option<&str>))
    ensures
        slots_of(ty@) == (Slots {
            tag: r.0,
            first: str_of(r.1),
            second: str_of(r.2),
            third: str_of(r.3),
        }),
{
    match ty {
        Type::Msg { from, content } => (0, Some(from.as_str()), Some(content.as_str()), None),
        Type::Action { from, content } => (1, Some(from.as_str()), Some(content.as_str()), None),
        Type::Join { nick, mask } => (2, Some(nick.as_str()), lend(mask), None),
        Type::Part { nick, mask, reason } => (3, Some(nick.as_str()), lend(mask), lend(reason)),
        Type::Quit { nick, mask, reason } => (4, Some(nick.as_str()), lend(mask), lend(reason)),
        Type::Nick { old_nick, new_nick } => (
            5,
            Some(old_nick.as_str()),
            Some(new_nick.as_str()),
            None,
        ),
        Type::Notice { from, content } => (6, Some(from.as_str()), Some(content.as_str()), None),
        Type::Disconnect => (7, None, None, None),
    }
}

/// What was read.
pub open spec fn value_of<T>(read: Option<(T, int)>) -> T {
    match read {
        Some((value, _)) => value,
        None => arbitrary(),
    }
}

/// The number of bytes that were read.
pub open spec fn width_of<T>(read: Option<(T, int)>) -> int {
    match read {
        Some((_, n)) => n,
        None => 0,
    }
}

} // verus!
