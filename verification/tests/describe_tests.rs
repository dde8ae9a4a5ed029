use haproxy_spoa_rust::frame::{
    ActionError, ActionType, Error, FrameError, FrameHeaderError, FramePayloadError, FrameType,
    Ipv4Error, Ipv6Error, KVListError, ListOfActionsError, ListOfMessagesError, StringError,
    TypedDataError, TypedDataType, VarintError,
};

#[test]
fn names_of_kinds() {
    assert_eq!(FrameType::UNSET.to_string(), "UNSET");
    assert_eq!(FrameType::HAPROXY_HELLO.to_string(), "HAPROXY_HELLO");
    assert_eq!(FrameType::HAPROXY_DISCONNECT.to_string(), "HAPROXY_DISCONNECT");
    assert_eq!(FrameType::NOTIFY.to_string(), "NOTIFY");
    assert_eq!(FrameType::AGENT_HELLO.to_string(), "AGENT_HELLO");
    assert_eq!(FrameType::AGENT_DISCONNECT.to_string(), "AGENT_DISCONNECT");
    assert_eq!(FrameType::ACK.to_string(), "ACK");
    assert_eq!(ActionType::SET_VAR.to_string(), "SET_VAR");
    assert_eq!(ActionType::UNSET_VAR.to_string(), "UNSET_VAR");
    assert_eq!(TypedDataType::NULL.to_string(), "NULL");
    assert_eq!(TypedDataType::UINT64.to_string(), "UINT64");
    assert_eq!(TypedDataType::BINARY.to_string(), "BINARY");
}

#[test]
fn error_texts() {
    assert_eq!(Error::Incomplete.to_string(), "stream ended early");
    assert_eq!(
        Error::InvalidCursor { expected: 7, remaining: 120 }.to_string(),
        "InvalidCursor expected: 7, remaining: 120"
    );
    assert_eq!(Error::FragmentedModeNotSupported.to_string(), "FragmentedModeNotSupported");
    assert_eq!(Error::NotSupported.to_string(), "NotSupported");
    assert_eq!(Error::Disconnect.to_string(), "Disconnect");
    assert_eq!(Error::Empty.to_string(), "<none>");
    assert_eq!(Error::Other("why".to_string()).to_string(), "why");
    let io = std::io::Error::new(std::io::ErrorKind::Other, "broken pipe, say");
    assert_eq!(Error::IO(io).to_string(), "broken pipe, say");
    assert_eq!(
        Error::InvalidFrame(FrameError::InvalidFrameHeader(FrameHeaderError::InvalidFrameType(
            200
        )))
        .to_string(),
        "InvalidFrame InvalidFrameHeader InvalidFrameType 200"
    );
    assert_eq!(FrameError::InsufficientBytes.to_string(), "FrameError::InsufficientBytes");
    assert_eq!(
        FrameHeaderError::InsufficientBytes.to_string(),
        "FrameHeaderError::InsufficientBytes"
    );
    assert_eq!(
        FrameHeaderError::InvalidStreamId(VarintError::InsufficientBytes).to_string(),
        "InvalidStreamId VarintError::InsufficientBytes"
    );
    assert_eq!(
        FrameHeaderError::InvalidFrameId(VarintError::InsufficientBytes).to_string(),
        "InvalidStreamId VarintError::InsufficientBytes"
    );
    assert_eq!(
        FrameError::InvalidFramePayload(FramePayloadError::NotSupported(FrameType::UNSET))
            .to_string(),
        "InvalidFramePayload NotSupported UNSET"
    );
    assert_eq!(
        FramePayloadError::InsufficientBytes.to_string(),
        "FramePayload::InsufficientBytes"
    );
    assert_eq!(
        FramePayloadError::InvalidKVList(KVListError::InsufficientBytes).to_string(),
        "FramePayload::InvalidKVList KVListError::InsufficientBytes"
    );
    assert_eq!(
        FramePayloadError::InvalidListOfMessages(ListOfMessagesError::InsufficientBytes)
            .to_string(),
        "FramePayload::InvalidListOfMessages ListOfMessages::InsufficientBytes"
    );
    assert_eq!(
        FramePayloadError::InvalidListOfActions(ListOfActionsError::InvalidAction(
            ActionError::InsufficientBytes
        ))
        .to_string(),
        "FramePayload::InvalidListOfActions ListOfActions::InvalidAction ActionError::InsufficientBytes"
    );
    assert_eq!(
        KVListError::InvalidKVListName(StringError::InsufficientBytes).to_string(),
        "InvalidKVListName StringError::InsufficientBytes"
    );
    assert_eq!(
        KVListError::InvalidKVListValue(TypedDataError::NotSupported).to_string(),
        "InvalidKVListValue TypedDataError::NotSupported"
    );
    assert_eq!(
        ListOfMessagesError::InvalidMessageName(StringError::Utf8Error("bad".to_string()))
            .to_string(),
        "ListOfMessages::InvalidMessageName StringError::Utf8Error bad"
    );
    assert_eq!(
        ListOfMessagesError::InvalidKVListName(StringError::InvalidSize(
            VarintError::InsufficientBytes
        ))
        .to_string(),
        "ListOfMessages::InvalidKVListName StringError::InvalidSize VarintError::InsufficientBytes"
    );
    assert_eq!(
        ListOfMessagesError::InvalidKVListValue(TypedDataError::InvalidType(12)).to_string(),
        "ListOfMessages::InvalidKVListValue TypedDataError::InvalidType 12"
    );
}

#[test]
fn typed_data_and_action_error_texts() {
    assert_eq!(
        TypedDataError::InsufficientBytes.to_string(),
        "TypedDataError::InsufficientBytes"
    );
    assert_eq!(
        TypedDataError::InvalidString(StringError::InsufficientBytes).to_string(),
        "TypedDataError::InvalidString StringError::InsufficientBytes"
    );
    assert_eq!(
        TypedDataError::InvalidIpv4(Ipv4Error::InsufficientBytes).to_string(),
        "TypedDataError::InvalidIpv4 Ipv4Error::InsufficientBytes"
    );
    assert_eq!(
        TypedDataError::InvalidIpv6(Ipv6Error::InsufficientBytes).to_string(),
        "TypedDataError::InvalidIpv6 Ipv4Error::InsufficientBytes"
    );
    assert_eq!(
        TypedDataError::NumberConversionError(TypedDataType::INT32, u64::MAX).to_string(),
        "TypedDataError::NumberConversionError (INT32, 18446744073709551615)"
    );
    assert_eq!(
        TypedDataError::NumberParsingError(TypedDataType::UINT32, VarintError::InsufficientBytes)
            .to_string(),
        "TypedDataError::InvalidIpv6 (UINT32, VarintError::InsufficientBytes)"
    );
    assert_eq!(ActionError::InsufficientBytes.to_string(), "ActionError::InsufficientBytes");
    assert_eq!(
        ActionError::InvalidActionType(0).to_string(),
        "ActionError::InvalidActionType 0"
    );
    assert_eq!(
        ActionError::InvalidActionScope(255).to_string(),
        "ActionError::InvalidActionScope 255"
    );
    assert_eq!(
        ActionError::InvalidNumberOfArgs(ActionType::SET_VAR, 9, 3).to_string(),
        "ActionError::InvalidNumberOfArgs SET_VAR, got 3 expected 9"
    );
    assert_eq!(
        ActionError::InvalidSetVarActionVarName(StringError::InsufficientBytes).to_string(),
        "ActionError::InvalidSetVarActionVarName StringError::InsufficientBytes"
    );
    assert_eq!(
        ActionError::InvalidSetVarActionVarValue(TypedDataError::NotSupported).to_string(),
        "ActionError::InvalidSetVarActionVarValue TypedDataError::NotSupported"
    );
    assert_eq!(
        ActionError::InvalidUnsetVarActionVarName(StringError::InsufficientBytes).to_string(),
        "ActionError::InvalidUnsetVarActionVarName StringError::InsufficientBytes"
    );
}
