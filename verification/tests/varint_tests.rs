use bytes::BytesMut;
use haproxy_spoa_rust::frame::{parse_varint, write_varint, VarintError};
use std::io::Cursor;

fn encode(v: u64) -> Vec<u8> {
    let mut dst = BytesMut::new();
    write_varint(&mut dst, v).unwrap();
    dst[..].to_vec()
}

fn decode(bytes: &[u8]) -> (Result<u64, VarintError>, usize) {
    let mut src = Cursor::new(bytes);
    let r = parse_varint(&mut src);
    (r, src.position() as usize)
}

#[test]
fn varint_edges() {
    assert_eq!(encode(239), vec![0xef]);
    assert_eq!(encode(240), vec![0xf0, 0x00]);
    let bytes = encode(1u64 << 32);
    assert_eq!(bytes, vec![0xf0, 0xf1, 0xfe, 0xfe, 0x7e]);
    assert_eq!(decode(&bytes), (Ok(1u64 << 32), bytes.len()));
}

#[test]
fn varint_exact_encodings() {
    assert_eq!(encode(0), vec![0x00]);
    assert_eq!(encode(255), vec![0xff, 0x00]);
    assert_eq!(encode(256), vec![0xf0, 0x01]);
    assert_eq!(encode(2287), vec![0xff, 0x7f]);
    assert_eq!(encode(2288), vec![0xf0, 0x80, 0x00]);
    assert_eq!(encode(16380), vec![0xfc, 0xf0, 0x06]);
    assert_eq!(
        encode(u64::MAX),
        vec![0xff, 0xf0, 0xfe, 0xfe, 0xfe, 0xfe, 0xfe, 0xfe, 0xfe, 0x0e]
    );
}

#[test]
fn varint_round_trips_and_reads_what_was_written() {
    let values = [
        0u64,
        1,
        239,
        240,
        241,
        2287,
        2288,
        16380,
        65535,
        1 << 20,
        (1 << 32) - 1,
        1 << 32,
        (1 << 63) - 1,
        1 << 63,
        u64::MAX - 1,
        u64::MAX,
    ];
    for v in values {
        let mut bytes = encode(v);
        let written = bytes.len();
        assert!(written >= 1 && written <= 10);
        if v < 240 {
            assert_eq!(written, 1);
        }
        bytes.extend_from_slice(&[0xaa, 0xbb]);
        assert_eq!(decode(&bytes), (Ok(v), written));
    }
}

#[test]
fn varint_appends_to_what_is_there() {
    let mut dst = BytesMut::new();
    dst.extend_from_slice(&[1, 2, 3]);
    write_varint(&mut dst, 240).unwrap();
    assert_eq!(&dst[..], &[1, 2, 3, 0xf0, 0x00]);
}

#[test]
fn varint_insufficient_bytes() {
    assert_eq!(decode(&[]), (Err(VarintError::InsufficientBytes), 0));
    assert_eq!(decode(&[0xf0]), (Err(VarintError::InsufficientBytes), 1));
    assert_eq!(decode(&[0xf0, 0x80]), (Err(VarintError::InsufficientBytes), 2));
    assert_eq!(decode(&[0xff, 0xff, 0xff]), (Err(VarintError::InsufficientBytes), 3));
}

#[test]
fn varint_stops_at_first_byte_below_128() {
    assert_eq!(decode(&[0xef, 0xff]), (Ok(239), 1));
    assert_eq!(decode(&[0xf0, 0x00, 0xff]), (Ok(240), 2));
    assert_eq!(decode(&[0xf0, 0x80, 0x00, 0x01]), (Ok(2288), 3));
}

#[test]
fn varint_too_long_wraps() {
    let mut bytes = vec![0xffu8; 13];
    bytes.push(0x7f);
    assert_eq!(decode(&bytes), (Ok(1161999626690365679), 14));
    let mut longer = vec![0xf0u8];
    longer.extend_from_slice(&[0x80u8; 300]);
    longer.push(0x00);
    let (r, used) = decode(&longer);
    assert!(r.is_ok());
    assert_eq!(used, 302);
}
