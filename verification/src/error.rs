//! The ways a conversion can fail.

use vstd::prelude::*;

verus! {

/// A field that a dialect's rendering cannot do without.
#[derive(Clone, Copy, Debug, PartialEq, Eq, Structural)]
pub enum Field {
    Mask,
    Channel,
}

/// Why a record could not be decoded or an event could not be encoded.
#[derive(Clone, Debug, PartialEq, Eq)]
pub enum IlcError {
    /// A record had a known shape but a field of it could not be read; holds the field's text.
    Parse(String),
    /// A time could not be read or rendered; holds the text or the pattern concerned.
    TimeParse(String),
    /// A binary record is cut short or holds a value outside its frame.
    BinaryDecode,
    /// An event has a field too long for the binary frame.
    BinaryEncode,
    /// A structured record does not follow the schema; holds what was wrong with it.
    StructuredDecode(String),
    /// An event has a field that the structured format cannot hold; holds
    /// what was wrong with it.
    StructuredEncode(String),
    /// The stream underneath failed; holds its message.
    Io(String),
    /// The event lacks a field that the dialect always shows.
    MissingRequiredField(Field),
}

/// The mathematical value of an [`IlcError`].
pub enum ErrorView {
    Parse(Seq<char>),
    TimeParse(Seq<char>),
    BinaryDecode,
    BinaryEncode,
    StructuredDecode(Seq<char>),
    StructuredEncode(Seq<char>),
    Io(Seq<char>),
    MissingRequiredField(Field),
}

impl View for IlcError {
    type V = ErrorView;

    open spec fn view(&self) -> ErrorView {
        match *self {
            IlcError::Parse(s) => ErrorView::Parse(s@),
            IlcError::TimeParse(s) => ErrorView::TimeParse(s@),
            IlcError::BinaryDecode => ErrorView::BinaryDecode,
            IlcError::BinaryEncode => ErrorView::BinaryEncode,
            IlcError::StructuredDecode(s) => ErrorView::StructuredDecode(s@),
            IlcError::StructuredEncode(s) => ErrorView::StructuredEncode(s@),
            IlcError::Io(s) => ErrorView::Io(s@),
            IlcError::MissingRequiredField(f) => ErrorView::MissingRequiredField(f),
        }
    }
}

/// The one-line description of each kind of error.
pub open spec fn description_of(e: ErrorView) -> Seq<char> {
    match e {
        ErrorView::Parse(_) => "error while parsing"@,
        ErrorView::TimeParse(_) => "error while parsing time strings"@,
        ErrorView::BinaryDecode => "error while decoding from binary"@,
        ErrorView::BinaryEncode => "error while encoding to binary"@,
        ErrorView::StructuredDecode(_) => "error while decoding from msgpack"@,
        ErrorView::StructuredEncode(_) => "error while encoding to msgpack"@,
        ErrorView::Io(_) => "error during input/output"@,
        ErrorView::MissingRequiredField(_) => "required field is not present"@,
    }
}

/// The text that lies behind an error, for the kinds that carry one.
pub open spec fn cause_of(e: ErrorView) -> Option<Seq<char>> {
    match e {
        ErrorView::Parse(_) => None,
        ErrorView::TimeParse(s) => Some(s),
        ErrorView::BinaryDecode => None,
        ErrorView::BinaryEncode => None,
        ErrorView::StructuredDecode(s) => Some(s),
        ErrorView::StructuredEncode(s) => Some(s),
        ErrorView::Io(s) => Some(s),
        ErrorView::MissingRequiredField(_) => None,
    }
}

impl IlcError {
    /// A short description of the kind of error.
    pub fn description(&self) -> (r: &'static str)
        ensures
            r@ == description_of(self@),
    {
        match self {
            IlcError::Parse(_) => "error while parsing",
            IlcError::TimeParse(_) => "error while parsing time strings",
            IlcError::BinaryDecode => "error while decoding from binary",
            IlcError::BinaryEncode => "error while encoding to binary",
            IlcError::StructuredDecode(_) => "error while decoding from msgpack",
            IlcError::StructuredEncode(_) => "error while encoding to msgpack",
            IlcError::Io(_) => "error during input/output",
            IlcError::MissingRequiredField(_) => "required field is not present",
        }
    }

    /// The text behind the error: the time text that did not parse, what
    /// was wrong with a structured record or with an event that was to
    /// become one, or the message of the stream that failed. The other
    /// kinds have none.
    pub fn cause(&self) -> (r: Option<&String>)
        ensures
            match r {
                Some(s) => cause_of(self@) == Some(s@),
                None => cause_of(self@) is None,
            },
    {
        match self {
            IlcError::Parse(_) => None,
            IlcError::TimeParse(s) => Some(s),
            IlcError::BinaryDecode => None,
            IlcError::BinaryEncode => None,
            IlcError::StructuredDecode(s) => Some(s),
            IlcError::StructuredEncode(s) => Some(s),
            IlcError::Io(s) => Some(s),
            IlcError::MissingRequiredField(_) => None,
        }
    }

    /// The description as an owned string, for display.
    pub fn to_string(&self) -> (r: String)
        ensures
            r@ == description_of(self@),
    {
        self.description().to_owned()
    }
}

} // verus!
