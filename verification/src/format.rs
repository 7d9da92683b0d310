//! What every dialect offers: reading a log into events, and writing one
//! event as a record.

use vstd::prelude::*;
use crate::context::{Context, ContextView};
use crate::error::{ErrorView, IlcError};
use crate::event::{Event, EventView, TypeView};

pub use crate::text::{rejoin, strip_one};

verus! {

/// The mathematical value of one decoded item.
pub open spec fn item_view(item: Result<Event, IlcError>) -> Result<EventView, ErrorView> {
    match item {
        Ok(event) => Ok(event@),
        Err(error) => Err(error@),
    }
}

/// The mathematical values of a list of decoded items.
pub open spec fn item_views(items: Seq<Result<Event, IlcError>>) -> Seq<
    Result<EventView, ErrorView>,
> {
    Seq::new(items.len(), |i: int| item_view(items[i]))
}

/// A dialect that can be read.
pub trait Decode {
    /// The items that the dialect reads from `input`: an event for each
    /// record that it understands, an error for each record that has a known
    /// shape but cannot be read, and nothing for the others.
    spec fn decoded(&self, context: ContextView, input: Seq<u8>) -> Seq<
        Result<EventView, ErrorView>,
    >;

    /// An empty input holds no item, and is no error.
    proof fn empty_input(&self, context: ContextView)
        ensures
            self.decoded(context, Seq::empty()) == Seq::<Result<EventView, ErrorView>>::empty(),
    ;

    /// Reads all of `input`.
    fn decode(&self, context: &Context, input: &[u8]) -> (r: Vec<Result<Event, IlcError>>)
        ensures
            item_views(r@) == self.decoded(context@, input@),
    ;
}

/// A dialect that can be written.
pub trait Encode {
    /// Whether the dialect has a rendering for events of this kind.
    spec fn represents(&self, ty: TypeView) -> bool;

    /// The bytes of the record that stands for `event`, or the reason why
    /// there is none.
    spec fn encoded(&self, context: ContextView, event: EventView) -> Result<Seq<u8>, ErrorView>;

    /// An event of a kind that the dialect cannot render is written as
    /// nothing at all, and that is no error.
    proof fn lossy_is_silent(&self, context: ContextView, event: EventView)
        ensures
            !self.represents(event.ty) ==> self.encoded(context, event) == Ok::<Seq<u8>, ErrorView>(
                Seq::empty(),
            ),
    ;

    /// Appends the record of `event` to `output`. Where there is none,
    /// `output` is left as it was.
    fn encode(&self, context: &Context, output: &mut Vec<u8>, event: &Event) -> (r: Result<
        (),
        IlcError,
    >)
        ensures
            match self.encoded(context@, event@) {
                Ok(bytes) => r is Ok && final(output)@ == old(output)@ + bytes,
                Err(error) => r is Err && r->Err_0@ == error && final(output)@ == old(output)@,
            },
    ;
}

/// The dialect that holds nothing: it reads no event from any input and
/// writes nothing for any event.
#[derive(Clone, Copy, Debug, PartialEq, Eq, Structural)]
pub struct Dummy;

impl Decode for Dummy {
    open spec fn decoded(&self, context: ContextView, input: Seq<u8>) -> Seq<
        Result<EventView, ErrorView>,
    > {
        Seq::empty()
    }

    proof fn empty_input(&self, context: ContextView) {
    }

    fn decode(&self, context: &Context, input: &[u8]) -> (r: Vec<Result<Event, IlcError>>) {
        let out: Vec<Result<Event, IlcError>> = Vec::new();
        proof {
            assert(item_views(out@) =~= Seq::empty());
        }
        out
    }
}

impl Encode for Dummy {
    open spec fn represents(&self, ty: TypeView) -> bool {
        false
    }

    open spec fn encoded(&self, context: ContextView, event: EventView) -> Result<
        Seq<u8>,
        ErrorView,
    > {
        Ok(Seq::empty())
    }

    proof fn lossy_is_silent(&self, context: ContextView, event: EventView) {
    }

    fn encode(&self, context: &Context, output: &mut Vec<u8>, event: &Event) -> (r: Result<
        (),
        IlcError,
    >) {
        proof {
            assert(output@ =~= old(output)@ + Seq::<u8>::empty());
        }
        Ok(())
    }
}

} // verus!
