use bytes::BytesMut;
use haproxy_spoa_rust::connection::write_frame;
use haproxy_spoa_rust::frame::{
    action_len, actions_len, frame_header_len, kv_list_len, string_len, typed_data_len,
    varint_len, write_action, write_frame_header, write_kv_list, write_list_of_actions,
    write_string, write_typed_data, write_varint, Action, ActionVarScope, Error, Frame,
    FrameFlags, FrameHeader, FrameType, KVList, TypedData,
};

fn header() -> FrameHeader {
    FrameHeader {
        frame_type: FrameType::ACK,
        flags: FrameFlags::new(true, false),
        stream_id: 1 << 33,
        frame_id: 239,
    }
}

fn values() -> Vec<TypedData> {
    vec![
        TypedData::NULL,
        TypedData::BOOL(true),
        TypedData::INT32(-1),
        TypedData::INT32(7),
        TypedData::UINT32(u32::MAX),
        TypedData::INT64(i64::MIN),
        TypedData::UINT64(240),
        TypedData::IPV4([1, 2, 3, 4]),
        TypedData::IPV6([9; 16]),
        TypedData::STRING("caf\u{e9}".to_string()),
        TypedData::STRING("y".repeat(5000)),
        TypedData::BINARY(vec![1, 2, 3]),
    ]
}

#[test]
fn lengths_are_those_of_what_is_written() {
    for v in [0u64, 239, 240, 2287, 2288, 1 << 32, u64::MAX] {
        let mut dst = BytesMut::new();
        write_varint(&mut dst, v).unwrap();
        assert_eq!(varint_len(v), dst.len());
    }
    for s in ["", "a", "caf\u{e9}"] {
        let mut dst = BytesMut::new();
        write_string(&mut dst, &s.to_string()).unwrap();
        assert_eq!(string_len(&s.to_string()), Some(dst.len()));
    }
    for v in values() {
        let mut dst = BytesMut::new();
        let _ = write_typed_data(&mut dst, &v);
        assert_eq!(typed_data_len(&v), Some(dst.len()));
    }
    let mut dst = BytesMut::new();
    write_frame_header(&mut dst, &header()).unwrap();
    assert_eq!(frame_header_len(&header()), dst.len());
    assert_eq!(dst.len(), 12);
}

#[test]
fn lengths_of_lists_end_where_writing_ends() {
    let list: KVList = values()
        .into_iter()
        .enumerate()
        .map(|(i, v)| (format!("k{}", i), v))
        .chain([("after".to_string(), TypedData::NULL)])
        .collect();
    let mut dst = BytesMut::new();
    assert!(write_kv_list(&mut dst, &list).is_err());
    assert_eq!(kv_list_len(&list), Some(dst.len()));
    let open: KVList = list.iter().take(11).cloned().collect();
    let mut dst = BytesMut::new();
    write_kv_list(&mut dst, &open).unwrap();
    assert_eq!(kv_list_len(&open), Some(dst.len()));
    assert_eq!(kv_list_len(&vec![]), Some(0));

    let actions: Vec<Action> = values()
        .into_iter()
        .map(|v| Action::SetVar {
            scope: ActionVarScope::SESSION,
            name: "n".to_string(),
            value: v,
        })
        .chain([Action::UnsetVar { scope: ActionVarScope::SESSION, name: "n".to_string() }])
        .collect();
    for a in &actions {
        let mut dst = BytesMut::new();
        let _ = write_action(&mut dst, a);
        assert_eq!(action_len(a), Some(dst.len()));
    }
    let mut dst = BytesMut::new();
    assert!(write_list_of_actions(&mut dst, &actions).is_err());
    assert_eq!(actions_len(&actions), Some(dst.len()));
}

#[test]
fn body_length_is_what_the_prefix_says() {
    let ack = Frame::Ack {
        header: header(),
        actions: vec![Action::SetVar {
            scope: ActionVarScope::REQUEST,
            name: "traceparent".to_string(),
            value: TypedData::STRING("00-ab".to_string()),
        }],
    };
    let mut dst = BytesMut::new();
    dst.extend_from_slice(&[1, 2, 3]);
    write_frame(&ack, &mut dst).unwrap();
    let announced = u32::from_be_bytes([dst[3], dst[4], dst[5], dst[6]]) as usize;
    assert_eq!(announced, dst.len() - 7);
    assert_eq!(ack.body_len(), Some(announced));
    let mut same = BytesMut::new();
    ack.write_to(&mut same).unwrap();
    assert_eq!(&dst[3..], &same[..]);
    assert_eq!(Frame::Notify { header: header(), messages: vec![] }.body_len(), Some(0));
}

#[test]
fn write_frame_refuses_and_leaves_the_buffer() {
    let refused = vec![
        Frame::Notify { header: header(), messages: vec![] },
        Frame::AgentDisconnect { header: header() },
        Frame::AgentHello {
            header: header(),
            content: vec![("k".to_string(), TypedData::BINARY(vec![]))],
        },
    ];
    for frame in refused {
        let mut dst = BytesMut::new();
        dst.extend_from_slice(&[5]);
        assert!(matches!(write_frame(&frame, &mut dst), Err(Error::NotSupported)));
        assert_eq!(&dst[..], &[5]);
    }
}
