//! Errors, and the names of the format's kinds, as text for a log.

use super::action::ActionType;
use super::error::{
    ActionError, ActionErrorView, Error, ErrorView, FrameError, FrameErrorView,
    FrameHeaderError, FramePayloadError, FramePayloadErrorView, Ipv4Error, Ipv6Error,
    KVListError, KVListErrorView, ListOfActionsError, ListOfActionsErrorView,
    ListOfMessagesError, ListOfMessagesErrorView, StringError, StringErrorView, TypedDataError,
    TypedDataErrorView,
};
use super::header::FrameType;
use super::typed_data::TypedDataType;
use super::varint::VarintError;
use crate::render::{ascii_chars, ascii_string, decimal_bytes, lemma_decimal_ascii, push_decimal};
use vstd::prelude::*;
use vstd::string::StringExecFns;

verus! {

/// A number in base 10, as characters.
pub open spec fn decimal_text(n: nat) -> Seq<char> {
    ascii_chars(decimal_bytes(n))
}

/// A number in base 10.
pub fn decimal_string(n: u64) -> (s: String)
    ensures
        s@ == decimal_text(n as nat),
{
    let mut digits: Vec<u8> = Vec::new();
    push_decimal(&mut digits, n);
    proof {
        lemma_decimal_ascii(n as nat);
    }
    ascii_string(&digits)
}

/// `head`, then `tail`.
fn joined(head: &str, tail: &str) -> (s: String)
    ensures
        s@ == head@ + tail@,
{
    let mut s = String::from_str(head);
    s.append(tail);
    s
}

impl FrameType {
    /// The name of the type.
    pub open spec fn spec_name(self) -> Seq<char> {
        match self {
            FrameType::UNSET => "UNSET"@,
            FrameType::HAPROXY_HELLO => "HAPROXY_HELLO"@,
            FrameType::HAPROXY_DISCONNECT => "HAPROXY_DISCONNECT"@,
            FrameType::NOTIFY => "NOTIFY"@,
            FrameType::AGENT_HELLO => "AGENT_HELLO"@,
            FrameType::AGENT_DISCONNECT => "AGENT_DISCONNECT"@,
            FrameType::ACK => "ACK"@,
        }
    }

    /// The name of the type.
    pub fn to_string(&self) -> (s: String)
        ensures
            s@ == self.spec_name(),
    {
        String::from_str(
            match self {
                FrameType::UNSET => "UNSET",
                FrameType::HAPROXY_HELLO => "HAPROXY_HELLO",
                FrameType::HAPROXY_DISCONNECT => "HAPROXY_DISCONNECT",
                FrameType::NOTIFY => "NOTIFY",
                FrameType::AGENT_HELLO => "AGENT_HELLO",
                FrameType::AGENT_DISCONNECT => "AGENT_DISCONNECT",
                FrameType::ACK => "ACK",
            },
        )
    }
}

impl ActionType {
    /// The name of the kind of action.
    pub open spec fn spec_name(self) -> Seq<char> {
        match self {
            ActionType::SET_VAR => "SET_VAR"@,
            ActionType::UNSET_VAR => "UNSET_VAR"@,
        }
    }

    /// The name of the kind of action.
    pub fn to_string(&self) -> (s: String)
        ensures
            s@ == self.spec_name(),
    {
        String::from_str(
            match self {
                ActionType::SET_VAR => "SET_VAR",
                ActionType::UNSET_VAR => "UNSET_VAR",
            },
        )
    }
}

impl TypedDataType {
    /// The name of the type.
    pub open spec fn spec_name(self) -> Seq<char> {
        match self {
            TypedDataType::NULL => "NULL"@,
            TypedDataType::BOOL => "BOOL"@,
            TypedDataType::INT32 => "INT32"@,
            TypedDataType::UINT32 => "UINT32"@,
            TypedDataType::INT64 => "INT64"@,
            TypedDataType::UINT64 => "UINT64"@,
            TypedDataType::IPV4 => "IPV4"@,
            TypedDataType::IPV6 => "IPV6"@,
            TypedDataType::STRING => "STRING"@,
            TypedDataType::BINARY => "BINARY"@,
        }
    }

    /// The name of the type.
    pub fn to_string(&self) -> (s: String)
        ensures
            s@ == self.spec_name(),
    {
        String::from_str(
            match self {
                TypedDataType::NULL => "NULL",
                TypedDataType::BOOL => "BOOL",
                TypedDataType::INT32 => "INT32",
                TypedDataType::UINT32 => "UINT32",
                TypedDataType::INT64 => "INT64",
                TypedDataType::UINT64 => "UINT64",
                TypedDataType::IPV4 => "IPV4",
                TypedDataType::IPV6 => "IPV6",
                TypedDataType::STRING => "STRING",
                TypedDataType::BINARY => "BINARY",
            },
        )
    }
}

impl VarintError {
    pub open spec fn spec_text(self) -> Seq<char> {
        "VarintError::InsufficientBytes"@
    }

    /// The error as text.
    pub fn to_string(&self) -> (s: String)
        ensures
            s@ == self.spec_text(),
    {
        String::from_str("VarintError::InsufficientBytes")
    }
}

impl Ipv4Error {
    pub open spec fn spec_text(self) -> Seq<char> {
        "Ipv4Error::InsufficientBytes"@
    }

    /// The error as text.
    pub fn to_string(&self) -> (s: String)
        ensures
            s@ == self.spec_text(),
    {
        String::from_str("Ipv4Error::InsufficientBytes")
    }
}

impl Ipv6Error {
    pub open spec fn spec_text(self) -> Seq<char> {
        "Ipv4Error::InsufficientBytes"@
    }

    /// The error as text.
    pub fn to_string(&self) -> (s: String)
        ensures
            s@ == self.spec_text(),
    {
        String::from_str("Ipv4Error::InsufficientBytes")
    }
}

impl FrameHeaderError {
    pub open spec fn spec_text(self) -> Seq<char> {
        match self {
            FrameHeaderError::InsufficientBytes => "FrameHeaderError::InsufficientBytes"@,
            FrameHeaderError::InvalidFrameType(t) => "InvalidFrameType "@ + decimal_text(t as nat),
            FrameHeaderError::InvalidStreamId(e) => "InvalidStreamId "@ + e.spec_text(),
            FrameHeaderError::InvalidFrameId(e) => "InvalidStreamId "@ + e.spec_text(),
        }
    }

    /// The error as text.
    pub fn to_string(&self) -> (s: String)
        ensures
            s@ == self.spec_text(),
    {
        match self {
            FrameHeaderError::InsufficientBytes => String::from_str(
                "FrameHeaderError::InsufficientBytes",
            ),
            FrameHeaderError::InvalidFrameType(t) => joined(
                "InvalidFrameType ",
                decimal_string(*t as u64).as_str(),
            ),
            FrameHeaderError::InvalidStreamId(e) => joined(
                "InvalidStreamId ",
                e.to_string().as_str(),
            ),
            FrameHeaderError::InvalidFrameId(e) => joined(
                "InvalidStreamId ",
                e.to_string().as_str(),
            ),
        }
    }
}

impl StringErrorView {
    pub open spec fn text(self) -> Seq<char> {
        match self {
            StringErrorView::InsufficientBytes => "StringError::InsufficientBytes"@,
            StringErrorView::InvalidSize(e) => "StringError::InvalidSize "@ + e.spec_text(),
            StringErrorView::Utf8Error(m) => "StringError::Utf8Error "@ + m,
        }
    }
}

impl StringError {
    /// The error as text.
    pub fn to_string(&self) -> (s: String)
        ensures
            s@ == self@.text(),
    {
        match self {
            StringError::InsufficientBytes => String::from_str("StringError::InsufficientBytes"),
            StringError::InvalidSize(e) => joined(
                "StringError::InvalidSize ",
                e.to_string().as_str(),
            ),
            StringError::Utf8Error(m) => joined("StringError::Utf8Error ", m.as_str()),
        }
    }
}

/// A kind and what came with it, in brackets with a comma between.
pub open spec fn pair_text(kind: TypedDataType, second: Seq<char>) -> Seq<char> {
    "("@ + kind.spec_name() + ", "@ + second + ")"@
}

fn pair_string(kind: &TypedDataType, second: &str) -> (s: String)
    ensures
        s@ == pair_text(*kind, second@),
{
    let mut s = String::from_str("(");
    s.append(kind.to_string().as_str());
    s.append(", ");
    s.append(second);
    s.append(")");
    s
}

impl TypedDataErrorView {
    pub open spec fn text(self) -> Seq<char> {
        match self {
            TypedDataErrorView::InsufficientBytes => "TypedDataError::InsufficientBytes"@,
            TypedDataErrorView::InvalidType(t) => "TypedDataError::InvalidType "@ + decimal_text(
                t as nat,
            ),
            TypedDataErrorView::InvalidString(e) => "TypedDataError::InvalidString "@ + e.text(),
            TypedDataErrorView::InvalidIpv4(e) => "TypedDataError::InvalidIpv4 "@ + e.spec_text(),
            TypedDataErrorView::InvalidIpv6(e) => "TypedDataError::InvalidIpv6 "@ + e.spec_text(),
            TypedDataErrorView::NotSupported => "TypedDataError::NotSupported"@,
            TypedDataErrorView::NumberConversionError(t, n) =>
                "TypedDataError::NumberConversionError "@ + pair_text(t, decimal_text(n as nat)),
            TypedDataErrorView::NumberParsingError(t, e) => "TypedDataError::InvalidIpv6 "@
                + pair_text(t, e.spec_text()),
        }
    }
}

impl TypedDataError {
    /// The error as text.
    pub fn to_string(&self) -> (s: String)
        ensures
            s@ == self@.text(),
    {
        match self {
            TypedDataError::InsufficientBytes => String::from_str(
                "TypedDataError::InsufficientBytes",
            ),
            TypedDataError::InvalidType(t) => joined(
                "TypedDataError::InvalidType ",
                decimal_string(*t as u64).as_str(),
            ),
            TypedDataError::InvalidString(e) => joined(
                "TypedDataError::InvalidString ",
                e.to_string().as_str(),
            ),
            TypedDataError::InvalidIpv4(e) => joined(
                "TypedDataError::InvalidIpv4 ",
                e.to_string().as_str(),
            ),
            TypedDataError::InvalidIpv6(e) => joined(
                "TypedDataError::InvalidIpv6 ",
                e.to_string().as_str(),
            ),
            TypedDataError::NotSupported => String::from_str("TypedDataError::NotSupported"),
            TypedDataError::NumberConversionError(t, n) => joined(
                "TypedDataError::NumberConversionError ",
                pair_string(t, decimal_string(*n).as_str()).as_str(),
            ),
            TypedDataError::NumberParsingError(t, e) => joined(
                "TypedDataError::InvalidIpv6 ",
                pair_string(t, e.to_string().as_str()).as_str(),
            ),
        }
    }
}

/// What is said of a wrong number of arguments: the kind of action, then
/// the third and the second thing that the error holds.
pub open spec fn args_text(kind: ActionType, second: u8, third: u8) -> Seq<char> {
    "ActionError::InvalidNumberOfArgs "@ + kind.spec_name() + ", got "@ + decimal_text(
        third as nat,
    ) + " expected "@ + decimal_text(second as nat)
}

impl ActionErrorView {
    pub open spec fn text(self) -> Seq<char> {
        match self {
            ActionErrorView::InsufficientBytes => "ActionError::InsufficientBytes"@,
            ActionErrorView::InvalidActionType(t) => "ActionError::InvalidActionType "@
                + decimal_text(t as nat),
            ActionErrorView::InvalidActionScope(t) => "ActionError::InvalidActionScope "@
                + decimal_text(t as nat),
            ActionErrorView::InvalidNumberOfArgs(kind, second, third) => args_text(
                kind,
                second,
                third,
            ),
            ActionErrorView::InvalidSetVarActionVarName(e) =>
                "ActionError::InvalidSetVarActionVarName "@ + e.text(),
            ActionErrorView::InvalidSetVarActionVarValue(e) =>
                "ActionError::InvalidSetVarActionVarValue "@ + e.text(),
            ActionErrorView::InvalidUnsetVarActionVarName(e) =>
                "ActionError::InvalidUnsetVarActionVarName "@ + e.text(),
        }
    }
}

impl ActionError {
    /// The error as text.
    pub fn to_string(&self) -> (s: String)
        ensures
            s@ == self@.text(),
    {
        match self {
            ActionError::InsufficientBytes => String::from_str("ActionError::InsufficientBytes"),
            ActionError::InvalidActionType(t) => joined(
                "ActionError::InvalidActionType ",
                decimal_string(*t as u64).as_str(),
            ),
            ActionError::InvalidActionScope(t) => joined(
                "ActionError::InvalidActionScope ",
                decimal_string(*t as u64).as_str(),
            ),
            ActionError::InvalidNumberOfArgs(kind, second, third) => {
                let mut s = String::from_str("ActionError::InvalidNumberOfArgs ");
                s.append(kind.to_string().as_str());
                s.append(", got ");
                s.append(decimal_string(*third as u64).as_str());
                s.append(" expected ");
                s.append(decimal_string(*second as u64).as_str());
                s
            },
            ActionError::InvalidSetVarActionVarName(e) => joined(
                "ActionError::InvalidSetVarActionVarName ",
                e.to_string().as_str(),
            ),
            ActionError::InvalidSetVarActionVarValue(e) => joined(
                "ActionError::InvalidSetVarActionVarValue ",
                e.to_string().as_str(),
            ),
            ActionError::InvalidUnsetVarActionVarName(e) => joined(
                "ActionError::InvalidUnsetVarActionVarName ",
                e.to_string().as_str(),
            ),
        }
    }
}

impl ListOfActionsErrorView {
    pub open spec fn text(self) -> Seq<char> {
        match self {
            ListOfActionsErrorView::InvalidAction(e) => "ListOfActions::InvalidAction "@
                + e.text(),
        }
    }
}

impl ListOfActionsError {
    /// The error as text.
    pub fn to_string(&self) -> (s: String)
        ensures
            s@ == self@.text(),
    {
        match self {
            ListOfActionsError::InvalidAction(e) => joined(
                "ListOfActions::InvalidAction ",
                e.to_string().as_str(),
            ),
        }
    }
}

impl ListOfMessagesErrorView {
    pub open spec fn text(self) -> Seq<char> {
        match self {
            ListOfMessagesErrorView::InsufficientBytes => "ListOfMessages::InsufficientBytes"@,
            ListOfMessagesErrorView::InvalidKVListName(e) =>
                "ListOfMessages::InvalidKVListName "@ + e.text(),
            ListOfMessagesErrorView::InvalidKVListValue(e) =>
                "ListOfMessages::InvalidKVListValue "@ + e.text(),
            ListOfMessagesErrorView::InvalidMessageName(e) =>
                "ListOfMessages::InvalidMessageName "@ + e.text(),
        }
    }
}

impl ListOfMessagesError {
    /// The error as text.
    pub fn to_string(&self) -> (s: String)
        ensures
            s@ == self@.text(),
    {
        match self {
            ListOfMessagesError::InsufficientBytes => String::from_str(
                "ListOfMessages::InsufficientBytes",
            ),
            ListOfMessagesError::InvalidKVListName(e) => joined(
                "ListOfMessages::InvalidKVListName ",
                e.to_string().as_str(),
            ),
            ListOfMessagesError::InvalidKVListValue(e) => joined(
                "ListOfMessages::InvalidKVListValue ",
                e.to_string().as_str(),
            ),
            ListOfMessagesError::InvalidMessageName(e) => joined(
                "ListOfMessages::InvalidMessageName ",
                e.to_string().as_str(),
            ),
        }
    }
}

impl KVListErrorView {
    pub open spec fn text(self) -> Seq<char> {
        match self {
            KVListErrorView::InsufficientBytes => "KVListError::InsufficientBytes"@,
            KVListErrorView::InvalidKVListName(e) => "InvalidKVListName "@ + e.text(),
            KVListErrorView::InvalidKVListValue(e) => "InvalidKVListValue "@ + e.text(),
        }
    }
}

impl KVListError {
    /// The error as text.
    pub fn to_string(&self) -> (s: String)
        ensures
            s@ == self@.text(),
    {
        match self {
            KVListError::InsufficientBytes => String::from_str("KVListError::InsufficientBytes"),
            KVListError::InvalidKVListName(e) => joined(
                "InvalidKVListName ",
                e.to_string().as_str(),
            ),
            KVListError::InvalidKVListValue(e) => joined(
                "InvalidKVListValue ",
                e.to_string().as_str(),
            ),
        }
    }
}

impl FramePayloadErrorView {
    pub open spec fn text(self) -> Seq<char> {
        match self {
            FramePayloadErrorView::InsufficientBytes => "FramePayload::InsufficientBytes"@,
            FramePayloadErrorView::InvalidKVList(e) => "FramePayload::InvalidKVList "@ + e.text(),
            FramePayloadErrorView::NotSupported(t) => "NotSupported "@ + t.spec_name(),
            FramePayloadErrorView::InvalidListOfMessages(e) =>
                "FramePayload::InvalidListOfMessages "@ + e.text(),
            FramePayloadErrorView::InvalidListOfActions(e) =>
                "FramePayload::InvalidListOfActions "@ + e.text(),
        }
    }
}

impl FramePayloadError {
    /// The error as text.
    pub fn to_string(&self) -> (s: String)
        ensures
            s@ == self@.text(),
    {
        match self {
            FramePayloadError::InsufficientBytes => String::from_str(
                "FramePayload::InsufficientBytes",
            ),
            FramePayloadError::InvalidKVList(e) => joined(
                "FramePayload::InvalidKVList ",
                e.to_string().as_str(),
            ),
            FramePayloadError::NotSupported(t) => joined("NotSupported ", t.to_string().as_str()),
            FramePayloadError::InvalidListOfMessages(e) => joined(
                "FramePayload::InvalidListOfMessages ",
                e.to_string().as_str(),
            ),
            FramePayloadError::InvalidListOfActions(e) => joined(
                "FramePayload::InvalidListOfActions ",
                e.to_string().as_str(),
            ),
        }
    }
}

impl FrameErrorView {
    pub open spec fn text(self) -> Seq<char> {
        match self {
            FrameErrorView::InsufficientBytes => "FrameError::InsufficientBytes"@,
            FrameErrorView::InvalidFrameHeader(e) => "InvalidFrameHeader "@ + e.spec_text(),
            FrameErrorView::InvalidFramePayload(e) => "InvalidFramePayload "@ + e.text(),
        }
    }
}

impl FrameError {
    /// The error as text.
    pub fn to_string(&self) -> (s: String)
        ensures
            s@ == self@.text(),
    {
        match self {
            FrameError::InsufficientBytes => String::from_str("FrameError::InsufficientBytes"),
            FrameError::InvalidFrameHeader(e) => joined(
                "InvalidFrameHeader ",
                e.to_string().as_str(),
            ),
            FrameError::InvalidFramePayload(e) => joined(
                "InvalidFramePayload ",
                e.to_string().as_str(),
            ),
        }
    }
}

/// `std::io::Error` as text, as its `Display` writes it. Nothing is said
/// of the text: it may come from the operating system.
#[verifier::external_body]
fn io_error_string(e: &std::io::Error) -> String {
    e.to_string()
}

impl ErrorView {
    /// The error as text. Of a failure of the transport this says nothing:
    /// that text is the transport's own.
    pub open spec fn text(self) -> Seq<char> {
        match self {
            ErrorView::Incomplete => "stream ended early"@,
            ErrorView::InvalidCursor { expected, remaining } => "InvalidCursor expected: "@
                + decimal_text(expected as nat) + ", remaining: "@ + decimal_text(
                remaining as nat,
            ),
            ErrorView::FragmentedModeNotSupported => "FragmentedModeNotSupported"@,
            ErrorView::NotSupported => "NotSupported"@,
            ErrorView::Disconnect => "Disconnect"@,
            ErrorView::InvalidFrame(e) => "InvalidFrame "@ + e.text(),
            ErrorView::IO(_) => Seq::empty(),
            ErrorView::Other(m) => m,
            ErrorView::Empty => "<none>"@,
        }
    }
}

impl Error {
    /// The error as text.
    pub fn to_string(&self) -> (s: String)
        ensures
            !(self is IO) ==> s@ == self@.text(),
    {
        match self {
            Error::Incomplete => String::from_str("stream ended early"),
            Error::InvalidCursor { expected, remaining } => {
                let mut s = String::from_str("InvalidCursor expected: ");
                s.append(decimal_string(*expected as u64).as_str());
                s.append(", remaining: ");
                s.append(decimal_string(*remaining as u64).as_str());
                s
            },
            Error::FragmentedModeNotSupported => String::from_str("FragmentedModeNotSupported"),
            Error::NotSupported => String::from_str("NotSupported"),
            Error::Disconnect => String::from_str("Disconnect"),
            Error::InvalidFrame(e) => joined("InvalidFrame ", e.to_string().as_str()),
            Error::IO(e) => io_error_string(e),
            Error::Other(m) => m.clone(),
            Error::Empty => String::from_str("<none>"),
        }
    }
}

} // verus!
