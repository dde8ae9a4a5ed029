use bytes::BytesMut;
use haproxy_spoa_rust::frame::{
    parse_action, parse_action_scope, parse_action_type, parse_frame_header, parse_frame_payload,
    parse_kv_list, parse_list_of_actions, parse_list_of_messages, write_action,
    write_frame_header, write_kv_list, write_list_of_actions, Action, ActionError, ActionType,
    ActionVarScope, Error, Frame, FrameError, FrameFlags, FrameHeader, FrameHeaderError,
    FramePayloadError, FrameType, KVList, KVListError, ListOfActionsError, ListOfMessagesError,
    StringError, TypedData, TypedDataError, VarintError,
};
use std::io::Cursor;

fn header(frame_type: FrameType, stream_id: u64, frame_id: u64) -> FrameHeader {
    FrameHeader {
        frame_type,
        flags: FrameFlags::new(true, false),
        stream_id,
        frame_id,
    }
}

fn written(frame: &Frame) -> Vec<u8> {
    let mut dst = BytesMut::new();
    frame.write_to(&mut dst).unwrap();
    dst[..].to_vec()
}

fn parsed(bytes: &[u8]) -> Result<Frame, Error> {
    let mut src = Cursor::new(bytes);
    Frame::parse(&mut src)
}

fn pair(k: &str, v: TypedData) -> (String, TypedData) {
    (k.to_string(), v)
}

#[test]
fn flags_bits() {
    assert_eq!(FrameFlags::new(true, false).val(), 1);
    assert_eq!(FrameFlags::new(false, true).val(), 2);
    assert_eq!(FrameFlags::new(true, true).val(), 3);
    assert_eq!(FrameFlags::new(false, false).val(), 0);
    assert!(FrameFlags(0xffff_fffd).is_fin());
    assert!(!FrameFlags(0xffff_fffd).is_abort());
    assert!(!FrameFlags(0xffff_fffe).is_fin());
    assert!(FrameFlags(0xffff_fffe).is_abort());
}

#[test]
fn reply_header_keeps_the_identifiers() {
    let inbound = FrameHeader {
        frame_type: FrameType::NOTIFY,
        flags: FrameFlags(0xffff_fffe),
        stream_id: 77,
        frame_id: u64::MAX,
    };
    let reply = inbound.reply_header(&FrameType::ACK);
    assert_eq!(reply.stream_id, 77);
    assert_eq!(reply.frame_id, u64::MAX);
    assert_eq!(reply.frame_type, FrameType::ACK);
    assert_eq!(reply.flags.val(), 1);
    assert!(reply.flags.is_fin());
    assert!(!reply.flags.is_abort());
}

#[test]
fn frame_type_codes() {
    let all = [
        (FrameType::UNSET, 0u8),
        (FrameType::HAPROXY_HELLO, 1),
        (FrameType::HAPROXY_DISCONNECT, 2),
        (FrameType::NOTIFY, 3),
        (FrameType::AGENT_HELLO, 101),
        (FrameType::AGENT_DISCONNECT, 102),
        (FrameType::ACK, 103),
    ];
    for (t, code) in all {
        assert_eq!(t.code(), code);
        assert_eq!(u8::from(t), code);
        assert_eq!(FrameType::from_code(code), Some(t));
        assert_eq!(FrameType::try_from(code), Ok(t));
        let mut dst = BytesMut::new();
        t.write_to(&mut dst).unwrap();
        assert_eq!(&dst[..], &[code]);
    }
    assert_eq!(FrameType::from_code(4), None);
    assert_eq!(FrameType::from_code(100), None);
    assert_eq!(FrameType::try_from(104u8), Err(104));
    assert_eq!(ActionType::try_from(1u8), Ok(ActionType::SET_VAR));
    assert_eq!(ActionType::try_from(0u8), Err(0));
    assert_eq!(u8::from(ActionType::UNSET_VAR), 2);
    assert_eq!(ActionVarScope::try_from(4u8), Ok(ActionVarScope::RESPONSE));
    assert_eq!(ActionVarScope::try_from(5u8), Err(5));
    assert_eq!(u8::from(ActionVarScope::TRANSACTION), 2);
}

#[test]
fn header_on_the_wire() {
    let h = FrameHeader {
        frame_type: FrameType::ACK,
        flags: FrameFlags(0x0102_0304),
        stream_id: 2,
        frame_id: 300,
    };
    let mut dst = BytesMut::new();
    write_frame_header(&mut dst, &h).unwrap();
    assert_eq!(&dst[..], &[0x67, 0x01, 0x02, 0x03, 0x04, 0x02, 0xfc, 0x03]);
    let mut bytes = dst[..].to_vec();
    bytes.push(0x99);
    let mut src = Cursor::new(&bytes[..]);
    assert_eq!(parse_frame_header(&mut src), Ok(h));
    assert_eq!(src.position(), 8);
}

#[test]
fn header_errors() {
    let cases: Vec<(Vec<u8>, FrameHeaderError, u64)> = vec![
        (vec![], FrameHeaderError::InsufficientBytes, 0),
        (vec![0x04, 0, 0, 0, 1, 0, 0], FrameHeaderError::InvalidFrameType(4), 1),
        (vec![0x01, 0, 0, 0], FrameHeaderError::InsufficientBytes, 1),
        (
            vec![0x01, 0, 0, 0, 1],
            FrameHeaderError::InvalidStreamId(VarintError::InsufficientBytes),
            5,
        ),
        (
            vec![0x01, 0, 0, 0, 1, 0xf0],
            FrameHeaderError::InvalidStreamId(VarintError::InsufficientBytes),
            6,
        ),
        (
            vec![0x01, 0, 0, 0, 1, 0x05],
            FrameHeaderError::InvalidFrameId(VarintError::InsufficientBytes),
            6,
        ),
    ];
    for (bytes, error, position) in cases {
        let mut src = Cursor::new(&bytes[..]);
        assert_eq!(parse_frame_header(&mut src), Err(error));
        assert_eq!(src.position(), position);
    }
}

#[test]
fn check_finds_whole_frames() {
    let frame = [0u8, 0, 0, 7, 0x67, 0, 0, 0, 1, 2, 1];
    let mut src = Cursor::new(&frame[..]);
    assert!(Frame::check(&mut src).is_ok());
    assert_eq!(src.position(), 11);

    let mut two = frame.to_vec();
    two.extend_from_slice(&frame);
    let mut src = Cursor::new(&two[..]);
    assert!(Frame::check(&mut src).is_ok());
    assert_eq!(src.position(), 11);
    assert!(Frame::check(&mut src).is_ok());
    assert_eq!(src.position(), 22);
    assert!(matches!(Frame::check(&mut src), Err(Error::Incomplete)));
    assert_eq!(src.position(), 22);

    for cut in 0..4 {
        let mut src = Cursor::new(&frame[..cut]);
        assert!(matches!(Frame::check(&mut src), Err(Error::Incomplete)));
        assert_eq!(src.position(), 0);
    }
    for cut in 4..11 {
        let mut src = Cursor::new(&frame[..cut]);
        assert!(matches!(Frame::check(&mut src), Err(Error::Incomplete)));
        assert_eq!(src.position(), 4);
    }
    let empty = [0u8, 0, 0, 0];
    let mut src = Cursor::new(&empty[..]);
    assert!(Frame::check(&mut src).is_ok());
    assert_eq!(src.position(), 4);
}

#[test]
fn parse_refuses_what_is_not_one_whole_frame() {
    assert!(matches!(parsed(&[]), Err(Error::Incomplete)));
    assert!(matches!(parsed(&[0, 0, 0]), Err(Error::Incomplete)));
    assert!(matches!(
        parsed(&[0, 0, 0, 7, 0x67, 0, 0, 0, 1, 2]),
        Err(Error::InvalidCursor { expected: 7, remaining: 6 })
    ));
    assert!(matches!(
        parsed(&[0, 0, 0, 7, 0x67, 0, 0, 0, 1, 2, 1, 0]),
        Err(Error::InvalidCursor { expected: 7, remaining: 8 })
    ));
    assert!(matches!(
        parsed(&[0, 0, 0, 0]),
        Err(Error::InvalidFrame(FrameError::InvalidFrameHeader(
            FrameHeaderError::InsufficientBytes
        )))
    ));
}

#[test]
fn parse_refuses_fragments() {
    assert!(matches!(
        parsed(&[0, 0, 0, 7, 0x67, 0, 0, 0, 0, 2, 1]),
        Err(Error::FragmentedModeNotSupported)
    ));
    assert!(matches!(
        parsed(&[0, 0, 0, 7, 0x67, 0, 0, 0, 2, 2, 1]),
        Err(Error::FragmentedModeNotSupported)
    ));
    assert!(parsed(&[0, 0, 0, 7, 0x67, 0xff, 0xff, 0xff, 0xff, 2, 1]).is_ok());
}

#[test]
fn parse_reports_the_layer_that_failed() {
    assert!(matches!(
        parsed(&[0, 0, 0, 7, 0x09, 0, 0, 0, 1, 2, 1]),
        Err(Error::InvalidFrame(FrameError::InvalidFrameHeader(
            FrameHeaderError::InvalidFrameType(9)
        )))
    ));
    assert!(matches!(
        parsed(&[0, 0, 0, 7, 0x00, 0, 0, 0, 1, 2, 1]),
        Err(Error::InvalidFrame(FrameError::InvalidFramePayload(
            FramePayloadError::NotSupported(FrameType::UNSET)
        )))
    ));
    assert!(matches!(
        parsed(&[0, 0, 0, 7, 0x66, 0, 0, 0, 1, 2, 1]),
        Err(Error::InvalidFrame(FrameError::InvalidFramePayload(
            FramePayloadError::NotSupported(FrameType::AGENT_DISCONNECT)
        )))
    ));
    assert!(matches!(
        parsed(&[0, 0, 0, 9, 0x01, 0, 0, 0, 1, 0, 0, 0x01, 0x61]),
        Err(Error::InvalidFrame(FrameError::InvalidFramePayload(
            FramePayloadError::InvalidKVList(KVListError::InvalidKVListValue(
                TypedDataError::InsufficientBytes
            ))
        )))
    ));
    assert!(matches!(
        parsed(&[0, 0, 0, 8, 0x02, 0, 0, 0, 1, 0, 0, 0x05]),
        Err(Error::InvalidFrame(FrameError::InvalidFramePayload(
            FramePayloadError::InvalidKVList(KVListError::InvalidKVListName(
                StringError::InsufficientBytes
            ))
        )))
    ));
    assert!(matches!(
        parsed(&[0, 0, 0, 9, 0x03, 0, 0, 0, 1, 0, 0, 0x01, 0x6d]),
        Err(Error::InvalidFrame(FrameError::InvalidFramePayload(
            FramePayloadError::InvalidListOfMessages(ListOfMessagesError::InsufficientBytes)
        )))
    ));
    assert!(matches!(
        parsed(&[0, 0, 0, 8, 0x67, 0, 0, 0, 1, 0, 0, 0x07]),
        Err(Error::InvalidFrame(FrameError::InvalidFramePayload(
            FramePayloadError::InvalidListOfActions(ListOfActionsError::InvalidAction(
                ActionError::InvalidActionType(7)
            ))
        )))
    ));
}

#[test]
fn disconnect_frame_parses() {
    let mut body = vec![0x02u8, 0, 0, 0, 1, 0, 0];
    body.extend_from_slice(&[0x0b]);
    body.extend_from_slice(b"status-code");
    body.extend_from_slice(&[0x03, 0x00]);
    body.extend_from_slice(&[0x07]);
    body.extend_from_slice(b"message");
    body.extend_from_slice(&[0x08, 0x06]);
    body.extend_from_slice(b"normal");
    let mut bytes = (body.len() as u32).to_be_bytes().to_vec();
    bytes.extend_from_slice(&body);
    match parsed(&bytes) {
        Ok(Frame::HAProxyDisconnect { header, content }) => {
            assert_eq!(header.frame_type, FrameType::HAPROXY_DISCONNECT);
            assert_eq!(
                content,
                vec![
                    pair("status-code", TypedData::UINT32(0)),
                    pair("message", TypedData::STRING("normal".to_string())),
                ]
            );
        }
        other => panic!("not a disconnect: {:?}", other),
    }
}

#[test]
fn kv_list_keeps_order_and_repeats() {
    let list: KVList = vec![
        pair("tag", TypedData::STRING("a".to_string())),
        pair("", TypedData::UINT32(1)),
        pair("tag", TypedData::STRING("b".to_string())),
        pair("", TypedData::BOOL(true)),
        pair("tag", TypedData::STRING("a".to_string())),
    ];
    let mut dst = BytesMut::new();
    write_kv_list(&mut dst, &list).unwrap();
    assert_eq!(
        &dst[..],
        &[
            3, b't', b'a', b'g', 8, 1, b'a', 0, 3, 1, 3, b't', b'a', b'g', 8, 1, b'b', 0, 0x11,
            3, b't', b'a', b'g', 8, 1, b'a'
        ]
    );
    let mut src = Cursor::new(&dst[..]);
    assert_eq!(parse_kv_list(&mut src), Ok(list));
    assert_eq!(src.position() as usize, dst.len());
    let nothing: [u8; 0] = [];
    let mut src = Cursor::new(&nothing[..]);
    assert_eq!(parse_kv_list(&mut src), Ok(vec![]));
}

#[test]
fn kv_list_stops_at_a_binary() {
    let list: KVList = vec![
        pair("a", TypedData::NULL),
        pair("b", TypedData::BINARY(vec![1, 2])),
        pair("c", TypedData::NULL),
    ];
    let mut dst = BytesMut::new();
    assert!(matches!(write_kv_list(&mut dst, &list), Err(Error::NotSupported)));
    assert_eq!(&dst[..], &[1, b'a', 0, 1, b'b', 9]);
}

#[test]
fn messages_keep_order() {
    let mut bytes = vec![];
    bytes.extend_from_slice(&[2, b'm', b'1', 2, 1, b'a', 0x11, 0, 3, 7]);
    bytes.extend_from_slice(&[2, b'm', b'2', 0]);
    bytes.extend_from_slice(&[2, b'm', b'1', 1, 1, b'z', 0]);
    let mut src = Cursor::new(&bytes[..]);
    assert_eq!(
        parse_list_of_messages(&mut src),
        Ok(vec![
            (
                "m1".to_string(),
                vec![pair("a", TypedData::BOOL(true)), pair("", TypedData::UINT32(7))]
            ),
            ("m2".to_string(), vec![]),
            ("m1".to_string(), vec![pair("z", TypedData::NULL)]),
        ])
    );
    assert_eq!(src.position() as usize, bytes.len());
}

#[test]
fn messages_errors() {
    let cases: Vec<(Vec<u8>, ListOfMessagesError)> = vec![
        (
            vec![0x05, b'm'],
            ListOfMessagesError::InvalidMessageName(StringError::InsufficientBytes),
        ),
        (vec![0x01, b'm'], ListOfMessagesError::InsufficientBytes),
        (
            vec![0x01, b'm', 0x01],
            ListOfMessagesError::InvalidKVListName(StringError::InvalidSize(
                VarintError::InsufficientBytes,
            )),
        ),
        (
            vec![0x01, b'm', 0x01, 0x01, b'k'],
            ListOfMessagesError::InvalidKVListValue(TypedDataError::InsufficientBytes),
        ),
        (
            vec![0x01, b'm', 0x02, 0x01, b'k', 0x00],
            ListOfMessagesError::InvalidKVListName(StringError::InvalidSize(
                VarintError::InsufficientBytes,
            )),
        ),
        (
            vec![0x01, b'm', 0x01, 0x01, b'k', 0x09],
            ListOfMessagesError::InvalidKVListValue(TypedDataError::NotSupported),
        ),
    ];
    for (bytes, error) in cases {
        let mut src = Cursor::new(&bytes[..]);
        assert_eq!(parse_list_of_messages(&mut src), Err(error));
    }
}

#[test]
fn actions_on_the_wire() {
    let set = Action::SetVar {
        scope: ActionVarScope::REQUEST,
        name: "traceparent".to_string(),
        value: TypedData::STRING("00-ab".to_string()),
    };
    let unset = Action::UnsetVar {
        scope: ActionVarScope::SESSION,
        name: "x".to_string(),
    };
    let mut dst = BytesMut::new();
    write_action(&mut dst, &set).unwrap();
    let mut expected = vec![1u8, 3, 3, 11];
    expected.extend_from_slice(b"traceparent");
    expected.extend_from_slice(&[8, 5]);
    expected.extend_from_slice(b"00-ab");
    assert_eq!(&dst[..], &expected[..]);
    let mut dst = BytesMut::new();
    write_action(&mut dst, &unset).unwrap();
    assert_eq!(&dst[..], &[2, 2, 1, 1, b'x']);

    let list = vec![set.clone(), unset.clone(), set.clone()];
    let mut dst = BytesMut::new();
    write_list_of_actions(&mut dst, &list).unwrap();
    let mut src = Cursor::new(&dst[..]);
    assert_eq!(parse_list_of_actions(&mut src), Ok(list));
    assert_eq!(src.position() as usize, dst.len());

    let mut src = Cursor::new(&expected[..]);
    assert_eq!(parse_action(&mut src), Ok(set));
}

#[test]
fn action_errors() {
    let cases: Vec<(Vec<u8>, ActionError)> = vec![
        (vec![], ActionError::InsufficientBytes),
        (vec![0], ActionError::InvalidActionType(0)),
        (vec![3, 3], ActionError::InvalidActionType(3)),
        (vec![1], ActionError::InsufficientBytes),
        (
            vec![1, 2, 0],
            ActionError::InvalidNumberOfArgs(ActionType::SET_VAR, 2, 3),
        ),
        (
            vec![2, 3, 0],
            ActionError::InvalidNumberOfArgs(ActionType::SET_VAR, 3, 2),
        ),
        (vec![1, 3], ActionError::InsufficientBytes),
        (vec![1, 3, 5], ActionError::InvalidActionScope(5)),
        (
            vec![1, 3, 0, 4, b'a'],
            ActionError::InvalidSetVarActionVarName(StringError::InsufficientBytes),
        ),
        (
            vec![2, 2, 0, 4, b'a'],
            ActionError::InvalidUnsetVarActionVarName(StringError::InsufficientBytes),
        ),
        (
            vec![1, 3, 0, 1, b'a', 0x0c],
            ActionError::InvalidSetVarActionVarValue(TypedDataError::InvalidType(0x0c)),
        ),
    ];
    for (bytes, error) in cases {
        let mut src = Cursor::new(&bytes[..]);
        assert_eq!(parse_action(&mut src), Err(error));
    }
    let one = [2u8];
    let mut src = Cursor::new(&one[..]);
    assert_eq!(parse_action_type(&mut src), Ok(ActionType::UNSET_VAR));
    assert_eq!(parse_action_type(&mut src), Err(ActionError::InsufficientBytes));
    let scopes = [4u8, 9];
    let mut src = Cursor::new(&scopes[..]);
    assert_eq!(parse_action_scope(&mut src), Ok(ActionVarScope::RESPONSE));
    assert_eq!(parse_action_scope(&mut src), Err(ActionError::InvalidActionScope(9)));
    assert_eq!(parse_action_scope(&mut src), Err(ActionError::InsufficientBytes));
    let bad = [1u8, 3, 0, 1, b'a', 0, 9];
    let mut src = Cursor::new(&bad[..]);
    assert_eq!(
        parse_list_of_actions(&mut src),
        Err(ListOfActionsError::InvalidAction(ActionError::InvalidActionType(9)))
    );
}

#[test]
fn payload_follows_the_type() {
    let kv = [1u8, b'k', 0];
    for (t, is) in [
        (FrameType::HAPROXY_HELLO, 0),
        (FrameType::HAPROXY_DISCONNECT, 1),
        (FrameType::AGENT_HELLO, 2),
    ] {
        let mut src = Cursor::new(&kv[..]);
        let h = header(t, 1, 2);
        match parse_frame_payload(&mut src, &h).unwrap() {
            Frame::HAProxyHello { header, content } if is == 0 => {
                assert_eq!(header, h);
                assert_eq!(content, vec![pair("k", TypedData::NULL)]);
            }
            Frame::HAProxyDisconnect { header, content } if is == 1 => {
                assert_eq!(header, h);
                assert_eq!(content, vec![pair("k", TypedData::NULL)]);
            }
            Frame::AgentHello { header, content } if is == 2 => {
                assert_eq!(header, h);
                assert_eq!(content, vec![pair("k", TypedData::NULL)]);
            }
            other => panic!("wrong frame for {:?}: {:?}", t, other),
        }
    }
    let mut src = Cursor::new(&kv[..]);
    assert_eq!(
        parse_frame_payload(&mut src, &header(FrameType::UNSET, 1, 2)).unwrap_err(),
        FramePayloadError::NotSupported(FrameType::UNSET)
    );
    assert_eq!(src.position(), 0);
}

#[test]
fn written_frames_come_back() {
    let hello = Frame::AgentHello {
        header: header(FrameType::AGENT_HELLO, 0, 0),
        content: vec![
            pair("version", TypedData::STRING("2.0".to_string())),
            pair("max-frame-size", TypedData::UINT32(16380)),
            pair("capabilities", TypedData::STRING("pipelining".to_string())),
            pair("version", TypedData::STRING("again".to_string())),
            pair("offset", TypedData::INT32(i32::MIN)),
        ],
    };
    let ack = Frame::Ack {
        header: header(FrameType::ACK, 1 << 40, 12345),
        actions: vec![
            Action::SetVar {
                scope: ActionVarScope::REQUEST,
                name: "b".to_string(),
                value: TypedData::INT64(-5),
            },
            Action::UnsetVar {
                scope: ActionVarScope::PROCESS,
                name: "a".to_string(),
            },
            Action::SetVar {
                scope: ActionVarScope::TRANSACTION,
                name: "b".to_string(),
                value: TypedData::IPV4([1, 2, 3, 4]),
            },
            Action::SetVar {
                scope: ActionVarScope::RESPONSE,
                name: "n".to_string(),
                value: TypedData::INT32(-1),
            },
        ],
    };
    for frame in [hello, ack] {
        let bytes = written(&frame);
        let announced = u32::from_be_bytes([bytes[0], bytes[1], bytes[2], bytes[3]]) as usize;
        assert_eq!(announced, bytes.len() - 4);
        match (parsed(&bytes).unwrap(), frame) {
            (
                Frame::AgentHello { header: h1, content: c1 },
                Frame::AgentHello { header: h2, content: c2 },
            ) => {
                assert_eq!(h1, h2);
                assert_eq!(c1, c2);
            }
            (
                Frame::Ack { header: h1, actions: a1 },
                Frame::Ack { header: h2, actions: a2 },
            ) => {
                assert_eq!(h1, h2);
                assert_eq!(a1, a2);
            }
            (back, sent) => panic!("{:?} came back as {:?}", sent, back),
        }
    }
}

#[test]
fn only_two_kinds_of_frame_are_written() {
    let refused = vec![
        Frame::HAProxyHello { header: header(FrameType::HAPROXY_HELLO, 0, 0), content: vec![] },
        Frame::HAProxyDisconnect {
            header: header(FrameType::HAPROXY_DISCONNECT, 0, 0),
            content: vec![],
        },
        Frame::Notify { header: header(FrameType::NOTIFY, 0, 0), messages: vec![] },
        Frame::AgentDisconnect { header: header(FrameType::AGENT_DISCONNECT, 0, 0) },
        Frame::AgentHello {
            header: header(FrameType::AGENT_HELLO, 0, 0),
            content: vec![pair("k", TypedData::BINARY(vec![]))],
        },
        Frame::Ack {
            header: header(FrameType::ACK, 0, 0),
            actions: vec![Action::SetVar {
                scope: ActionVarScope::REQUEST,
                name: "k".to_string(),
                value: TypedData::BINARY(vec![1]),
            }],
        },
    ];
    for frame in refused {
        let mut dst = BytesMut::new();
        dst.extend_from_slice(&[0xaa, 0xbb]);
        assert!(matches!(frame.write_to(&mut dst), Err(Error::NotSupported)));
        assert_eq!(&dst[..], &[0xaa, 0xbb]);
    }
}

#[test]
fn frame_header_of_each_kind() {
    let h = header(FrameType::NOTIFY, 9, 8);
    assert_eq!(Frame::Notify { header: h, messages: vec![] }.frame_header(), &h);
    assert_eq!(Frame::AgentDisconnect { header: h }.frame_header(), &h);
    assert_eq!(Frame::Ack { header: h, actions: vec![] }.frame_header(), &h);
    assert_eq!(Frame::AgentHello { header: h, content: vec![] }.frame_header(), &h);
    assert_eq!(Frame::HAProxyHello { header: h, content: vec![] }.frame_header(), &h);
    assert_eq!(Frame::HAProxyDisconnect { header: h, content: vec![] }.frame_header(), &h);
}
