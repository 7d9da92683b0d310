//! Conversion of IRC logs between on-disk dialects.
//!
//! Every dialect is read into one canonical event model and written from
//! it. A decoder turns the bytes of a log into a sequence of events; an
//! encoder renders one event as the bytes of one record.
//!
//! A record that a dialect does not know is passed over. A record of a
//! known shape that cannot be read is an error in the sequence: in the
//! line-oriented dialect the lines after it are still read; in the binary
//! and the structured dialect it ends the sequence, since nothing tells
//! where the next record would begin. An event of a kind that a dialect
//! cannot render is written as nothing, and that is no error; an event that
//! lacks a field which its rendering always shows is refused.

pub mod binary;
pub mod context;
pub mod dialect;
pub mod error;
pub mod event;
pub mod format;
pub mod frame;
pub mod irssi;
pub mod msgpack;
pub mod text;
pub mod time;

pub use binary::Binary;
pub use context::{Context, Date};
pub use dialect::Dialect;
pub use error::{Field, IlcError};
pub use event::{Event, Time, Type};
pub use format::{Decode, Dummy, Encode};
pub use irssi::{Irssi, Iter};
pub use msgpack::Msgpack;
