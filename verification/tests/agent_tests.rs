use bytes::BytesMut;
use haproxy_spoa_rust::agent::{
    after_error, handle_frame, handle_notify, hello_content, ConnectionState, Next, Reaction,
};
use haproxy_spoa_rust::connection::{end_of_stream, scan, EndOfStream, Scan};
use haproxy_spoa_rust::frame::{
    Action, ActionVarScope, Error, Frame, FrameError, FrameFlags, FrameHeader, FrameHeaderError,
    FrameType, TypedData,
};
use haproxy_spoa_rust::registry::SpanTable;

fn header(frame_type: FrameType) -> FrameHeader {
    FrameHeader { frame_type, flags: FrameFlags(0xff), stream_id: 42, frame_id: 7 }
}

fn hello() -> Frame {
    Frame::HAProxyHello { header: header(FrameType::HAPROXY_HELLO), content: vec![] }
}

fn notify() -> Frame {
    Frame::Notify { header: header(FrameType::NOTIFY), messages: vec![] }
}

fn disconnect() -> Frame {
    Frame::HAProxyDisconnect { header: header(FrameType::HAPROXY_DISCONNECT), content: vec![] }
}

#[test]
fn greeting_is_answered_once() {
    match handle_frame(ConnectionState::AwaitingHello, &hello()) {
        (ConnectionState::Running, Ok(Reaction::Reply(Frame::AgentHello { header, content }))) => {
            assert_eq!(header.frame_type, FrameType::AGENT_HELLO);
            assert_eq!(header.stream_id, 42);
            assert_eq!(header.frame_id, 7);
            assert!(header.flags.is_fin());
            assert!(!header.flags.is_abort());
            assert_eq!(
                content,
                vec![
                    ("version".to_string(), TypedData::STRING("2.0".to_string())),
                    ("max-frame-size".to_string(), TypedData::UINT32(16380)),
                    ("capabilities".to_string(), TypedData::STRING("pipelining".to_string())),
                ]
            );
            assert_eq!(content, hello_content());
        }
        other => panic!("unexpected: {:?}", other),
    }
    assert!(matches!(
        handle_frame(ConnectionState::Running, &hello()),
        (ConnectionState::Running, Err(Error::NotSupported))
    ));
}

#[test]
fn greeting_on_the_wire() {
    let reply = match handle_frame(ConnectionState::AwaitingHello, &hello()) {
        (_, Ok(Reaction::Reply(frame))) => frame,
        other => panic!("unexpected: {:?}", other),
    };
    let mut dst = BytesMut::new();
    reply.write_to(&mut dst).unwrap();
    let mut expected = vec![0u8, 0, 0, 0x40, 0x65, 0, 0, 0, 1, 42, 7];
    expected.extend_from_slice(&[7]);
    expected.extend_from_slice(b"version");
    expected.extend_from_slice(&[8, 3]);
    expected.extend_from_slice(b"2.0");
    expected.extend_from_slice(&[14]);
    expected.extend_from_slice(b"max-frame-size");
    expected.extend_from_slice(&[3, 0xfc, 0xf0, 0x06]);
    expected.extend_from_slice(&[12]);
    expected.extend_from_slice(b"capabilities");
    expected.extend_from_slice(&[8, 10]);
    expected.extend_from_slice(b"pipelining");
    assert_eq!(&dst[..], &expected[..]);
}

#[test]
fn notifications_are_answered_while_running() {
    assert!(matches!(
        handle_frame(ConnectionState::Running, &notify()),
        (ConnectionState::Running, Ok(Reaction::Notify))
    ));
    assert!(matches!(
        handle_frame(ConnectionState::AwaitingHello, &notify()),
        (ConnectionState::AwaitingHello, Err(Error::NotSupported))
    ));
    assert!(matches!(
        handle_frame(ConnectionState::Terminated, &notify()),
        (ConnectionState::Terminated, Err(Error::NotSupported))
    ));
}

#[test]
fn goodbye_ends_the_connection() {
    for state in [
        ConnectionState::AwaitingHello,
        ConnectionState::Running,
        ConnectionState::Terminated,
    ] {
        assert!(matches!(
            handle_frame(state, &disconnect()),
            (ConnectionState::Terminated, Err(Error::Disconnect))
        ));
    }
    for frame in [hello(), notify()] {
        assert!(matches!(
            handle_frame(ConnectionState::Terminated, &frame),
            (ConnectionState::Terminated, Err(Error::NotSupported))
        ));
    }
}

#[test]
fn which_errors_end_a_connection() {
    let io = std::io::Error::new(std::io::ErrorKind::BrokenPipe, "gone");
    assert_eq!(after_error(&Error::IO(io)), Next::Stop);
    assert_eq!(after_error(&Error::Disconnect), Next::Stop);
    let others = vec![
        Error::Incomplete,
        Error::InvalidCursor { expected: 1, remaining: 2 },
        Error::FragmentedModeNotSupported,
        Error::NotSupported,
        Error::InvalidFrame(FrameError::InsufficientBytes),
        Error::Other("x".to_string()),
        Error::Empty,
    ];
    for e in others {
        assert_eq!(after_error(&e), Next::Continue);
    }
}

#[test]
fn other_frames_are_passed_over() {
    let others = vec![
        Frame::AgentHello { header: header(FrameType::AGENT_HELLO), content: vec![] },
        Frame::AgentDisconnect { header: header(FrameType::AGENT_DISCONNECT) },
        Frame::Ack { header: header(FrameType::ACK), actions: vec![] },
    ];
    for frame in others {
        for state in [ConnectionState::AwaitingHello, ConnectionState::Running] {
            let (after, reaction) = handle_frame(state, &frame);
            assert_eq!(after, state);
            assert!(matches!(reaction, Err(Error::NotSupported)));
        }
    }
}

#[test]
fn acknowledgements() {
    let inbound = header(FrameType::NOTIFY);
    match handle_notify(&inbound, None) {
        Frame::Ack { header, actions } => {
            assert_eq!(header.frame_type, FrameType::ACK);
            assert_eq!(header.stream_id, 42);
            assert_eq!(header.frame_id, 7);
            assert_eq!(header.flags.val(), 1);
            assert!(actions.is_empty());
        }
        other => panic!("unexpected: {:?}", other),
    }
    let action = Action::UnsetVar { scope: ActionVarScope::REQUEST, name: "x".to_string() };
    match handle_notify(&inbound, Some(vec![action.clone()])) {
        Frame::Ack { header, actions } => {
            assert_eq!(header.stream_id, 42);
            assert_eq!(header.frame_id, 7);
            assert!(header.flags.is_fin());
            assert!(!header.flags.is_abort());
            assert_eq!(actions, vec![action]);
        }
        other => panic!("unexpected: {:?}", other),
    }
    let mut dst = BytesMut::new();
    handle_notify(&inbound, Some(vec![])).write_to(&mut dst).unwrap();
    assert_eq!(&dst[..], &[0, 0, 0, 7, 0x67, 0, 0, 0, 1, 42, 7]);
}

#[test]
fn scanning_a_buffer() {
    let ack = [0u8, 0, 0, 7, 0x67, 0, 0, 0, 1, 2, 1];
    for cut in 0..ack.len() {
        assert!(matches!(scan(&ack[..cut]), Scan::Incomplete));
    }
    match scan(&ack) {
        Scan::Complete { len: 11, frame: Ok(Frame::Ack { header, actions }) } => {
            assert_eq!(header.stream_id, 2);
            assert_eq!(header.frame_id, 1);
            assert!(actions.is_empty());
        }
        other => panic!("unexpected: {:?}", other),
    }
    let mut more = ack.to_vec();
    more.extend_from_slice(&[0, 0, 0]);
    assert!(matches!(scan(&more), Scan::Complete { len: 11, frame: Ok(_) }));
    let bad = [0u8, 0, 0, 2, 0x63, 0x00, 0xff, 0xff];
    match scan(&bad) {
        Scan::Complete {
            len: 6,
            frame:
                Err(Error::InvalidFrame(FrameError::InvalidFrameHeader(
                    FrameHeaderError::InvalidFrameType(0x63),
                ))),
        } => {}
        other => panic!("unexpected: {:?}", other),
    }
    let fragment = [0u8, 0, 0, 7, 0x67, 0, 0, 0, 0, 2, 1, 9];
    assert!(matches!(
        scan(&fragment),
        Scan::Complete { len: 11, frame: Err(Error::FragmentedModeNotSupported) }
    ));
}

#[test]
fn errors_from_other_values() {
    assert!(matches!(Error::from("why"), Error::Other(m) if m == "why"));
    assert!(matches!(Error::from("why".to_string()), Error::Other(m) if m == "why"));
    let io = std::io::Error::new(std::io::ErrorKind::UnexpectedEof, "eof");
    assert!(matches!(Error::from(io), Error::IO(e) if e.kind() == std::io::ErrorKind::UnexpectedEof));
}

#[test]
fn end_of_a_stream() {
    assert_eq!(end_of_stream(0), EndOfStream::Clean);
    assert_eq!(end_of_stream(1), EndOfStream::Premature);
    assert_eq!(end_of_stream(usize::MAX), EndOfStream::Premature);
}

#[test]
fn span_table_keeps_one_span_under_a_key() {
    let mut table: SpanTable<u32> = SpanTable::new();
    assert_eq!(table.len(), 0);
    assert!(!table.contains("a"));
    assert_eq!(table.insert("a".to_string(), 1), None);
    assert_eq!(table.insert("b".to_string(), 2), None);
    assert_eq!(table.len(), 2);
    assert_eq!(table.insert("a".to_string(), 3), Some(1));
    assert_eq!(table.len(), 2);
    assert!(table.contains("a"));
    assert!(table.contains("b"));
    assert!(!table.contains("A"));
    assert_eq!(table.remove("c"), None);
    assert_eq!(table.remove("a"), Some(3));
    assert_eq!(table.remove("a"), None);
    assert_eq!(table.len(), 1);
    assert_eq!(table.remove("b"), Some(2));
    assert_eq!(table.len(), 0);
}
