//! Read-only configuration handed to every decoder and encoder.

use vstd::prelude::*;
use crate::event::text_of;

verus! {

/// A calendar date, as year, month and day of the month. Whether the
/// calendar has such a day is found out when a time is resolved on it.
#[derive(Clone, Copy, Debug, PartialEq, Eq, Structural)]
pub struct Date {
    pub year: i32,
    pub month: u32,
    pub day: u32,
}

/// What a conversion is told from outside the log itself.
#[derive(Clone, Debug, PartialEq, Eq)]
pub struct Context {
    /// Offset of the log's local time, in seconds west of UTC.
    pub timezone: i32,
    /// The date of the log, for dialects whose lines carry the time of day only.
    pub override_date: Option<Date>,
    /// The channel of the log, for dialects whose lines name none.
    pub channel: Option<String>,
}

/// The mathematical value of a [`Context`].
pub struct ContextView {
    pub timezone: i32,
    pub override_date: Option<Date>,
    pub channel: Option<Seq<char>>,
}

impl View for Context {
    type V = ContextView;

    open spec fn view(&self) -> ContextView {
        ContextView {
            timezone: self.timezone,
            override_date: self.override_date,
            channel: text_of(self.channel),
        }
    }
}

} // verus!
