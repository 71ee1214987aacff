//! The failures that the protocol layer reports.

use vstd::prelude::*;

verus! {

/// What went wrong.
#[derive(Debug, Clone, PartialEq, Eq)]
pub enum ErrorCode {
    /// The player answered a request with this error text.
    MpvError(String),
    /// A line from the player was not well-formed JSON.
    JsonParseError(String),
    /// The channel to the player failed.
    ConnectError(String),
    /// A field of an event had another type than the protocol gives it.
    JsonContainsUnexptectedType,
    /// A reply arrived that answers no outstanding request.
    UnexpectedResult,
    /// A line was neither a reply nor an event.
    UnexpectedValue,
    /// A field that a structured value must have was absent.
    MissingValue,
    /// A value has no counterpart on the other side of the wire.
    UnsupportedType,
    ValueDoesNotContainBool,
    ValueDoesNotContainF64,
    ValueDoesNotContainHashMap,
    ValueDoesNotContainPlaylist,
    ValueDoesNotContainString,
    ValueDoesNotContainUsize,
}

/// Mathematical model of an [`ErrorCode`].
pub enum ErrorView {
    MpvError(Seq<char>),
    JsonParseError(Seq<char>),
    ConnectError(Seq<char>),
    JsonContainsUnexptectedType,
    UnexpectedResult,
    UnexpectedValue,
    MissingValue,
    UnsupportedType,
    ValueDoesNotContainBool,
    ValueDoesNotContainF64,
    ValueDoesNotContainHashMap,
    ValueDoesNotContainPlaylist,
    ValueDoesNotContainString,
    ValueDoesNotContainUsize,
}

impl View for ErrorCode {
    type V = ErrorView;

    open spec fn view(&self) -> ErrorView {
        match self {
            ErrorCode::MpvError(msg) => ErrorView::MpvError(msg@),
            ErrorCode::JsonParseError(msg) => ErrorView::JsonParseError(msg@),
            ErrorCode::ConnectError(msg) => ErrorView::ConnectError(msg@),
            ErrorCode::JsonContainsUnexptectedType => ErrorView::JsonContainsUnexptectedType,
            ErrorCode::UnexpectedResult => ErrorView::UnexpectedResult,
            ErrorCode::UnexpectedValue => ErrorView::UnexpectedValue,
            ErrorCode::MissingValue => ErrorView::MissingValue,
            ErrorCode::UnsupportedType => ErrorView::UnsupportedType,
            ErrorCode::ValueDoesNotContainBool => ErrorView::ValueDoesNotContainBool,
            ErrorCode::ValueDoesNotContainF64 => ErrorView::ValueDoesNotContainF64,
            ErrorCode::ValueDoesNotContainHashMap => ErrorView::ValueDoesNotContainHashMap,
            ErrorCode::ValueDoesNotContainPlaylist => ErrorView::ValueDoesNotContainPlaylist,
            ErrorCode::ValueDoesNotContainString => ErrorView::ValueDoesNotContainString,
            ErrorCode::ValueDoesNotContainUsize => ErrorView::ValueDoesNotContainUsize,
        }
    }
}

/// An error of the protocol layer; it is handed to the caller by value.
#[derive(Debug, Clone, PartialEq, Eq)]
pub struct Error(pub ErrorCode);

impl View for Error {
    type V = ErrorView;

    open spec fn view(&self) -> ErrorView {
        self.0@
    }
}

/// The text that describes an error.
pub open spec fn message_of(e: ErrorView) -> Seq<char> {
    match e {
        ErrorView::ConnectError(msg) => "ConnectError: "@ + msg,
        ErrorView::JsonParseError(msg) => "JsonParseError: "@ + msg,
        ErrorView::MpvError(msg) => "MpvError: "@ + msg,
        ErrorView::JsonContainsUnexptectedType => "Mpv sent a value with an unexpected type"@,
        ErrorView::UnexpectedResult => "Unexpected result received"@,
        ErrorView::UnexpectedValue => "Unexpected value received"@,
        ErrorView::MissingValue => "Missing value"@,
        ErrorView::UnsupportedType => "Unsupported type received"@,
        ErrorView::ValueDoesNotContainBool => "The received value is not of type 'std::bool'"@,
        ErrorView::ValueDoesNotContainF64 => "The received value is not of type 'std::f64'"@,
        ErrorView::ValueDoesNotContainHashMap => "The received value is not of type 'std::collections::HashMap'"@,
        ErrorView::ValueDoesNotContainPlaylist => "The received value is not of type 'mpvipc::Playlist'"@,
        ErrorView::ValueDoesNotContainString => "The received value is not of type 'std::string::String'"@,
        ErrorView::ValueDoesNotContainUsize => "The received value is not of type 'std::usize'"@,
    }
}

impl ErrorCode {
    /// Renders the error as text.
    pub fn message(&self) -> (text: String)
        ensures
            text@ == message_of(self@),
    {
        match self {
            ErrorCode::ConnectError(msg) => String::from_str("ConnectError: ").concat(msg.as_str()),
            ErrorCode::JsonParseError(msg) => String::from_str("JsonParseError: ").concat(
                msg.as_str(),
            ),
            ErrorCode::MpvError(msg) => String::from_str("MpvError: ").concat(msg.as_str()),
            ErrorCode::JsonContainsUnexptectedType => String::from_str(
                "Mpv sent a value with an unexpected type",
            ),
            ErrorCode::UnexpectedResult => String::from_str("Unexpected result received"),
            ErrorCode::UnexpectedValue => String::from_str("Unexpected value received"),
            ErrorCode::MissingValue => String::from_str("Missing value"),
            ErrorCode::UnsupportedType => String::from_str("Unsupported type received"),
            ErrorCode::ValueDoesNotContainBool => String::from_str(
                "The received value is not of type 'std::bool'",
            ),
            ErrorCode::ValueDoesNotContainF64 => String::from_str(
                "The received value is not of type 'std::f64'",
            ),
            ErrorCode::ValueDoesNotContainHashMap => String::from_str(
                "The received value is not of type 'std::collections::HashMap'",
            ),
            ErrorCode::ValueDoesNotContainPlaylist => String::from_str(
                "The received value is not of type 'mpvipc::Playlist'",
            ),
            ErrorCode::ValueDoesNotContainString => String::from_str(
                "The received value is not of type 'std::string::String'",
            ),
            ErrorCode::ValueDoesNotContainUsize => String::from_str(
                "The received value is not of type 'std::usize'",
            ),
        }
    }
}

impl Error {
    /// Renders the error as text: the text of its code.
    pub fn message(&self) -> (text: String)
        ensures
            text@ == message_of(self@),
    {
        self.0.message()
    }
}

} // verus!
