//! The dialects as one closed set, and the names they go by.

use vstd::prelude::*;
use crate::binary::Binary;
use crate::context::{Context, ContextView};
use crate::error::{ErrorView, IlcError};
use crate::event::{Event, EventView, TypeView};
use crate::format::{Decode, Dummy, Encode};
use crate::irssi::Irssi;
use crate::msgpack::Msgpack;

verus! {

/// One of the dialects.
#[derive(Clone, Copy, Debug, PartialEq, Eq, Structural)]
pub enum Dialect {
    Irssi,
    Binary,
    Msgpack,
    Dummy,
}

/// The dialect that goes by `name`, if one does. The structured dialect
/// goes by the name of its encoding as well.
pub open spec fn named(name: Seq<char>) -> Option<Dialect> {
    if name == "irssi"@ {
        Some(Dialect::Irssi)
    } else if name == "binary"@ {
        Some(Dialect::Binary)
    } else if name == "structured"@ || name == "msgpack"@ {
        Some(Dialect::Msgpack)
    } else if name == "dummy"@ {
        Some(Dialect::Dummy)
    } else {
        None
    }
}

/// Whether two texts are the same.
fn same(a: &str, b: &str) -> (r: bool)
    ensures
        r == (a@ == b@),
{
    let n: usize = a.unicode_len();
    if b.unicode_len() != n {
        return false;
    }
    let mut i: usize = 0;
    while i < n
        invariant
            n == a@.len(),
            n == b@.len(),
            0 <= i <= n,
            forall|j: int| 0 <= j < i ==> a@[j] == b@[j],
        decreases n - i,
    {
        if a.get_char(i) != b.get_char(i) {
            return false;
        }
        i = i + 1;
    }
    proof {
        assert(a@ =~= b@);
    }
    true
}

impl Dialect {
    /// Looks a dialect up by its name. A name that no dialect goes by is
    /// for the caller to report.
    pub fn from_name(name: &str) -> (r: Option<Dialect>)
        ensures
            r == named(name@),
    {
        if same(name, "irssi") {
            Some(Dialect::Irssi)
        } else if same(name, "binary") {
            Some(Dialect::Binary)
        } else if same(name, "structured") || same(name, "msgpack") {
            Some(Dialect::Msgpack)
        } else if same(name, "dummy") {
            Some(Dialect::Dummy)
        } else {
            None
        }
    }
}

impl Decode for Dialect {
    open spec fn decoded(&self, context: ContextView, input: Seq<u8>) -> Seq<
        Result<EventView, ErrorView>,
    > {
        match *self {
            Dialect::Irssi => Irssi.decoded(context, input),
            Dialect::Binary => Binary.decoded(context, input),
            Dialect::Msgpack => Msgpack.decoded(context, input),
            Dialect::Dummy => Dummy.decoded(context, input),
        }
    }

    proof fn empty_input(&self, context: ContextView) {
        Irssi.empty_input(context);
        Binary.empty_input(context);
        Msgpack.empty_input(context);
        Dummy.empty_input(context);
    }

    fn decode(&self, context: &Context, input: &[u8]) -> (r: Vec<Result<Event, IlcError>>) {
        match self {
            Dialect::Irssi => Irssi.decode(context, input),
            Dialect::Binary => Binary.decode(context, input),
            Dialect::Msgpack => Msgpack.decode(context, input),
            Dialect::Dummy => Dummy.decode(context, input),
        }
    }
}

impl Encode for Dialect {
    open spec fn represents(&self, ty: TypeView) -> bool {
        match *self {
            Dialect::Irssi => Irssi.represents(ty),
            Dialect::Binary => Binary.represents(ty),
            Dialect::Msgpack => Msgpack.represents(ty),
            Dialect::Dummy => Dummy.represents(ty),
        }
    }

    open spec fn encoded(&self, context: ContextView, event: EventView) -> Result<
        Seq<u8>,
        ErrorView,
    > {
        match *self {
            Dialect::Irssi => Irssi.encoded(context, event),
            Dialect::Binary => Binary.encoded(context, event),
            Dialect::Msgpack => Msgpack.encoded(context, event),
            Dialect::Dummy => Dummy.encoded(context, event),
        }
    }

    proof fn lossy_is_silent(&self, context: ContextView, event: EventView) {
        Irssi.lossy_is_silent(context, event);
        Binary.lossy_is_silent(context, event);
        Msgpack.lossy_is_silent(context, event);
        Dummy.lossy_is_silent(context, event);
    }

    fn encode(&self, context: &Context, output: &mut Vec<u8>, event: &Event) -> (r: Result<
        (),
        IlcError,
    >) {
        match self {
            Dialect::Irssi => Irssi.encode(context, output, event),
            Dialect::Binary => Binary.encode(context, output, event),
            Dialect::Msgpack => Msgpack.encode(context, output, event),
            Dialect::Dummy => Dummy.encode(context, output, event),
        }
    }
}

} // verus!
