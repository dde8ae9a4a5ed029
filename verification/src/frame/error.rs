//! What can go wrong while decoding or encoding, one type for each layer of
//! the format. An outer error holds the error of the layer below, so that a
//! failure names the element it happened in.

use super::action::ActionType;
use super::header::FrameType;
use super::typed_data::TypedDataType;
use super::varint::VarintError;
use vstd::prelude::*;
use vstd::string::StringExecFns;

verus! {

/// `std::io::Error`, taken as it is: nothing here looks inside one.
#[verifier::external_type_specification]
#[verifier::external_body]
pub struct ExIoError(std::io::Error);

#[derive(Debug, Clone, Copy, PartialEq, Eq, Structural)]
pub enum FrameHeaderError {
    InsufficientBytes,
    InvalidFrameType(u8),
    InvalidStreamId(VarintError),
    InvalidFrameId(VarintError),
}

#[derive(Debug, PartialEq, Eq)]
pub enum StringError {
    InsufficientBytes,
    InvalidSize(VarintError),
    Utf8Error(String),
}

#[derive(Debug, Clone, Copy, PartialEq, Eq, Structural)]
pub enum Ipv4Error {
    InsufficientBytes,
}

#[derive(Debug, Clone, Copy, PartialEq, Eq, Structural)]
pub enum Ipv6Error {
    InsufficientBytes,
}

#[derive(Debug, PartialEq, Eq)]
pub enum TypedDataError {
    InsufficientBytes,
    InvalidType(u8),
    InvalidString(StringError),
    NumberConversionError(TypedDataType, u64),
    NumberParsingError(TypedDataType, VarintError),
    InvalidIpv4(Ipv4Error),
    InvalidIpv6(Ipv6Error),
    NotSupported,
}

#[derive(Debug, PartialEq, Eq)]
pub enum ActionError {
    InsufficientBytes,
    InvalidActionType(u8),
    InvalidActionScope(u8),
    InvalidNumberOfArgs(ActionType, u8, u8),
    InvalidSetVarActionVarName(StringError),
    InvalidSetVarActionVarValue(TypedDataError),
    InvalidUnsetVarActionVarName(StringError),
}

#[derive(Debug, PartialEq, Eq)]
pub enum ListOfActionsError {
    InvalidAction(ActionError),
}

#[derive(Debug, PartialEq, Eq)]
pub enum ListOfMessagesError {
    InsufficientBytes,
    InvalidMessageName(StringError),
    InvalidKVListName(StringError),
    InvalidKVListValue(TypedDataError),
}

#[derive(Debug, PartialEq, Eq)]
pub enum KVListError {
    InsufficientBytes,
    InvalidKVListName(StringError),
    InvalidKVListValue(TypedDataError),
}

#[derive(Debug, PartialEq, Eq)]
pub enum FramePayloadError {
    InsufficientBytes,
    InvalidKVList(KVListError),
    InvalidListOfMessages(ListOfMessagesError),
    InvalidListOfActions(ListOfActionsError),
    NotSupported(FrameType),
}

#[derive(Debug, PartialEq, Eq)]
pub enum FrameError {
    InsufficientBytes,
    InvalidFrameHeader(FrameHeaderError),
    InvalidFramePayload(FramePayloadError),
}

#[derive(Debug)]
pub enum Error {
    /// Not enough data is available to decode a frame.
    Incomplete,
    /// The length prefix and the bytes that follow it disagree.
    InvalidCursor { expected: usize, remaining: usize },
    /// The frame is one fragment of a payload; only whole payloads are taken.
    FragmentedModeNotSupported,
    /// The value or the frame is one that is never encoded.
    NotSupported,
    /// The peer asked to end the connection.
    Disconnect,
    /// The frame is complete but does not decode.
    InvalidFrame(FrameError),
    /// The transport failed.
    IO(std::io::Error),
    Other(String),
    /// No error at all.
    Empty,
}

pub enum StringErrorView {
    InsufficientBytes,
    InvalidSize(VarintError),
    Utf8Error(Seq<char>),
}

pub enum TypedDataErrorView {
    InsufficientBytes,
    InvalidType(u8),
    InvalidString(StringErrorView),
    NumberConversionError(TypedDataType, u64),
    NumberParsingError(TypedDataType, VarintError),
    InvalidIpv4(Ipv4Error),
    InvalidIpv6(Ipv6Error),
    NotSupported,
}

pub enum ActionErrorView {
    InsufficientBytes,
    InvalidActionType(u8),
    InvalidActionScope(u8),
    InvalidNumberOfArgs(ActionType, u8, u8),
    InvalidSetVarActionVarName(StringErrorView),
    InvalidSetVarActionVarValue(TypedDataErrorView),
    InvalidUnsetVarActionVarName(StringErrorView),
}

pub enum ListOfActionsErrorView {
    InvalidAction(ActionErrorView),
}

pub enum ListOfMessagesErrorView {
    InsufficientBytes,
    InvalidMessageName(StringErrorView),
    InvalidKVListName(StringErrorView),
    InvalidKVListValue(TypedDataErrorView),
}

pub enum KVListErrorView {
    InsufficientBytes,
    InvalidKVListName(StringErrorView),
    InvalidKVListValue(TypedDataErrorView),
}

pub enum FramePayloadErrorView {
    InsufficientBytes,
    InvalidKVList(KVListErrorView),
    InvalidListOfMessages(ListOfMessagesErrorView),
    InvalidListOfActions(ListOfActionsErrorView),
    NotSupported(FrameType),
}

pub enum FrameErrorView {
    InsufficientBytes,
    InvalidFrameHeader(FrameHeaderError),
    InvalidFramePayload(FramePayloadErrorView),
}

pub enum ErrorView {
    Incomplete,
    InvalidCursor { expected: usize, remaining: usize },
    FragmentedModeNotSupported,
    NotSupported,
    Disconnect,
    InvalidFrame(FrameErrorView),
    IO(std::io::Error),
    Other(Seq<char>),
    Empty,
}

impl View for StringError {
    type V = StringErrorView;

    open spec fn view(&self) -> StringErrorView {
        match *self {
            StringError::InsufficientBytes => StringErrorView::InsufficientBytes,
            StringError::InvalidSize(e) => StringErrorView::InvalidSize(e),
            StringError::Utf8Error(m) => StringErrorView::Utf8Error(m@),
        }
    }
}

impl View for TypedDataError {
    type V = TypedDataErrorView;

    open spec fn view(&self) -> TypedDataErrorView {
        match *self {
            TypedDataError::InsufficientBytes => TypedDataErrorView::InsufficientBytes,
            TypedDataError::InvalidType(t) => TypedDataErrorView::InvalidType(t),
            TypedDataError::InvalidString(e) => TypedDataErrorView::InvalidString(e@),
            TypedDataError::NumberConversionError(t, n) => TypedDataErrorView::NumberConversionError(
                t,
                n,
            ),
            TypedDataError::NumberParsingError(t, e) => TypedDataErrorView::NumberParsingError(t, e),
            TypedDataError::InvalidIpv4(e) => TypedDataErrorView::InvalidIpv4(e),
            TypedDataError::InvalidIpv6(e) => TypedDataErrorView::InvalidIpv6(e),
            TypedDataError::NotSupported => TypedDataErrorView::NotSupported,
        }
    }
}

impl View for ActionError {
    type V = ActionErrorView;

    open spec fn view(&self) -> ActionErrorView {
        match *self {
            ActionError::InsufficientBytes => ActionErrorView::InsufficientBytes,
            ActionError::InvalidActionType(t) => ActionErrorView::InvalidActionType(t),
            ActionError::InvalidActionScope(s) => ActionErrorView::InvalidActionScope(s),
            ActionError::InvalidNumberOfArgs(t, got, want) => ActionErrorView::InvalidNumberOfArgs(
                t,
                got,
                want,
            ),
            ActionError::InvalidSetVarActionVarName(e) => ActionErrorView::InvalidSetVarActionVarName(
                e@,
            ),
            ActionError::InvalidSetVarActionVarValue(e) => ActionErrorView::InvalidSetVarActionVarValue(
                e@,
            ),
            ActionError::InvalidUnsetVarActionVarName(e) => ActionErrorView::InvalidUnsetVarActionVarName(
                e@,
            ),
        }
    }
}

impl View for ListOfActionsError {
    type V = ListOfActionsErrorView;

    open spec fn view(&self) -> ListOfActionsErrorView {
        match *self {
            ListOfActionsError::InvalidAction(e) => ListOfActionsErrorView::InvalidAction(e@),
        }
    }
}

impl View for ListOfMessagesError {
    type V = ListOfMessagesErrorView;

    open spec fn view(&self) -> ListOfMessagesErrorView {
        match *self {
            ListOfMessagesError::InsufficientBytes => ListOfMessagesErrorView::InsufficientBytes,
            ListOfMessagesError::InvalidMessageName(e) => ListOfMessagesErrorView::InvalidMessageName(
                e@,
            ),
            ListOfMessagesError::InvalidKVListName(e) => ListOfMessagesErrorView::InvalidKVListName(
                e@,
            ),
            ListOfMessagesError::InvalidKVListValue(e) => ListOfMessagesErrorView::InvalidKVListValue(
                e@,
            ),
        }
    }
}

impl View for KVListError {
    type V = KVListErrorView;

    open spec fn view(&self) -> KVListErrorView {
        match *self {
            KVListError::InsufficientBytes => KVListErrorView::InsufficientBytes,
            KVListError::InvalidKVListName(e) => KVListErrorView::InvalidKVListName(e@),
            KVListError::InvalidKVListValue(e) => KVListErrorView::InvalidKVListValue(e@),
        }
    }
}

impl View for FramePayloadError {
    type V = FramePayloadErrorView;

    open spec fn view(&self) -> FramePayloadErrorView {
        match *self {
            FramePayloadError::InsufficientBytes => FramePayloadErrorView::InsufficientBytes,
            FramePayloadError::InvalidKVList(e) => FramePayloadErrorView::InvalidKVList(e@),
            FramePayloadError::InvalidListOfMessages(e) => FramePayloadErrorView::InvalidListOfMessages(
                e@,
            ),
            FramePayloadError::InvalidListOfActions(e) => FramePayloadErrorView::InvalidListOfActions(
                e@,
            ),
            FramePayloadError::NotSupported(t) => FramePayloadErrorView::NotSupported(t),
        }
    }
}

impl View for FrameError {
    type V = FrameErrorView;

    open spec fn view(&self) -> FrameErrorView {
        match *self {
            FrameError::InsufficientBytes => FrameErrorView::InsufficientBytes,
            FrameError::InvalidFrameHeader(e) => FrameErrorView::InvalidFrameHeader(e),
            FrameError::InvalidFramePayload(e) => FrameErrorView::InvalidFramePayload(e@),
        }
    }
}

impl View for Error {
    type V = ErrorView;

    open spec fn view(&self) -> ErrorView {
        match *self {
            Error::Incomplete => ErrorView::Incomplete,
            Error::InvalidCursor { expected, remaining } => ErrorView::InvalidCursor {
                expected,
                remaining,
            },
            Error::FragmentedModeNotSupported => ErrorView::FragmentedModeNotSupported,
            Error::NotSupported => ErrorView::NotSupported,
            Error::Disconnect => ErrorView::Disconnect,
            Error::InvalidFrame(e) => ErrorView::InvalidFrame(e@),
            Error::IO(e) => ErrorView::IO(e),
            Error::Other(m) => ErrorView::Other(m@),
            Error::Empty => ErrorView::Empty,
        }
    }
}

impl From<String> for Error {
    fn from(src: String) -> (e: Error) {
        Error::Other(src)
    }
}

impl vstd::std_specs::convert::FromSpecImpl<String> for Error {
    open spec fn obeys_from_spec() -> bool {
        true
    }

    open spec fn from_spec(src: String) -> Error {
        Error::Other(src)
    }
}

impl From<&str> for Error {
    fn from(src: &str) -> (e: Error)
        ensures
            e@ == ErrorView::Other(src@),
    {
        Error::Other(String::from_str(src))
    }
}

/// What the conversion from a string slice gives is stated on `from`
/// itself: the error holds a string of its own, which no specification
/// function can name.
impl vstd::std_specs::convert::FromSpecImpl<&str> for Error {
    open spec fn obeys_from_spec() -> bool {
        false
    }

    open spec fn from_spec(src: &str) -> Error {
        Error::Empty
    }
}

impl From<std::io::Error> for Error {
    fn from(err: std::io::Error) -> (e: Error) {
        Error::IO(err)
    }
}

impl vstd::std_specs::convert::FromSpecImpl<std::io::Error> for Error {
    open spec fn obeys_from_spec() -> bool {
        true
    }

    open spec fn from_spec(err: std::io::Error) -> Error {
        Error::IO(err)
    }
}

/// A result with the view of its error, where what it holds needs none.
pub open spec fn err_view<T, E: View>(r: Result<T, E>) -> Result<T, E::V> {
    match r {
        Ok(v) => Ok(v),
        Err(e) => Err(e@),
    }
}

/// The view of a result: the view of what it holds.
pub open spec fn result_view<T: View, E: View>(r: Result<T, E>) -> Result<T::V, E::V> {
    match r {
        Ok(v) => Ok(v@),
        Err(e) => Err(e@),
    }
}

} // verus!
