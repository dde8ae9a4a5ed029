use bytes::BytesMut;
use haproxy_spoa_rust::frame::{
    parse_string, parse_typed_data, write_string, write_typed_data, Error, Ipv4Error, Ipv6Error,
    StringError, TypedData, TypedDataError, TypedDataType, VarintError,
};
use std::io::Cursor;

fn encode(v: &TypedData) -> Vec<u8> {
    let mut dst = BytesMut::new();
    write_typed_data(&mut dst, v).unwrap();
    dst[..].to_vec()
}

fn decode(bytes: &[u8]) -> (Result<TypedData, TypedDataError>, usize) {
    let mut src = Cursor::new(bytes);
    let r = parse_typed_data(&mut src);
    (r, src.position() as usize)
}

fn samples() -> Vec<TypedData> {
    vec![
        TypedData::NULL,
        TypedData::BOOL(true),
        TypedData::BOOL(false),
        TypedData::INT32(0),
        TypedData::INT32(5),
        TypedData::INT32(-5),
        TypedData::INT32(i32::MIN),
        TypedData::INT32(i32::MAX),
        TypedData::UINT32(0),
        TypedData::UINT32(16380),
        TypedData::UINT32(u32::MAX),
        TypedData::INT64(0),
        TypedData::INT64(-1),
        TypedData::INT64(i64::MIN),
        TypedData::INT64(i64::MAX),
        TypedData::UINT64(0),
        TypedData::UINT64(u64::MAX),
        TypedData::IPV4([192, 168, 0, 1]),
        TypedData::IPV6([0x20, 0x01, 0x0d, 0xb8, 0, 0, 0, 0, 0, 0, 0, 0, 0, 0, 0, 1]),
        TypedData::STRING("".to_string()),
        TypedData::STRING("2.0".to_string()),
        TypedData::STRING("h\u{e9}llo \u{20ac} \u{1f600}".to_string()),
        TypedData::STRING("x".repeat(300)),
    ]
}

#[test]
fn typed_data_round_trips() {
    for v in samples() {
        let mut bytes = encode(&v);
        let written = bytes.len();
        bytes.extend_from_slice(&[0xde, 0xad]);
        assert_eq!(decode(&bytes), (Ok(v), written));
    }
}

#[test]
fn typed_data_exact_encodings() {
    assert_eq!(encode(&TypedData::NULL), vec![0x00]);
    assert_eq!(encode(&TypedData::BOOL(true)), vec![0x11]);
    assert_eq!(encode(&TypedData::BOOL(false)), vec![0x01]);
    assert_eq!(encode(&TypedData::INT32(5)), vec![0x02, 0x05]);
    assert_eq!(encode(&TypedData::UINT32(16380)), vec![0x03, 0xfc, 0xf0, 0x06]);
    assert_eq!(
        encode(&TypedData::INT64(-1)),
        vec![0x04, 0xff, 0xf0, 0xfe, 0xfe, 0xfe, 0xfe, 0xfe, 0xfe, 0xfe, 0x0e]
    );
    assert_eq!(encode(&TypedData::UINT64(240)), vec![0x05, 0xf0, 0x00]);
    assert_eq!(encode(&TypedData::IPV4([10, 0, 0, 7])), vec![0x06, 10, 0, 0, 7]);
    let v6 = [1u8, 2, 3, 4, 5, 6, 7, 8, 9, 10, 11, 12, 13, 14, 15, 16];
    let mut expected = vec![0x07];
    expected.extend_from_slice(&v6);
    assert_eq!(encode(&TypedData::IPV6(v6)), expected);
    assert_eq!(
        encode(&TypedData::STRING("2.0".to_string())),
        vec![0x08, 0x03, 0x32, 0x2e, 0x30]
    );
}

#[test]
fn negative_int32_comes_back() {
    let bytes = encode(&TypedData::INT32(-1));
    assert_eq!(bytes, vec![0x02, 0xff, 0xf0, 0xfe, 0xfe, 0x7e]);
    assert_eq!(decode(&bytes), (Ok(TypedData::INT32(-1)), bytes.len()));
    for n in [i32::MIN, i32::MIN + 1, -2147, -240, -239, -1, 0, 1, i32::MAX] {
        let bytes = encode(&TypedData::INT32(n));
        assert!(bytes.len() <= 6);
        assert_eq!(decode(&bytes), (Ok(TypedData::INT32(n)), bytes.len()));
    }
    // The same bits under the other tag are the unsigned number.
    let mut unsigned = encode(&TypedData::INT32(i32::MIN));
    unsigned[0] = 0x03;
    assert_eq!(decode(&unsigned), (Ok(TypedData::UINT32(1 << 31)), unsigned.len()));
}

#[test]
fn binary_is_refused_both_ways() {
    let mut dst = BytesMut::new();
    dst.extend_from_slice(&[7]);
    let r = write_typed_data(&mut dst, &TypedData::BINARY(vec![1, 2, 3]));
    assert!(matches!(r, Err(Error::NotSupported)));
    assert_eq!(&dst[..], &[7, 0x09]);
    assert_eq!(decode(&[0x09, 0x01, 0x00]), (Err(TypedDataError::NotSupported), 1));
}

#[test]
fn typed_data_tag_flags() {
    assert_eq!(decode(&[0x11]), (Ok(TypedData::BOOL(true)), 1));
    assert_eq!(decode(&[0x01]), (Ok(TypedData::BOOL(false)), 1));
    assert_eq!(decode(&[0x21]), (Ok(TypedData::BOOL(false)), 1));
    assert_eq!(decode(&[0xf1]), (Ok(TypedData::BOOL(true)), 1));
    assert_eq!(decode(&[0xf0]), (Ok(TypedData::NULL), 1));
    assert_eq!(decode(&[0x35, 0x07]), (Ok(TypedData::UINT64(7)), 2));
}

#[test]
fn typed_data_errors() {
    assert_eq!(decode(&[]), (Err(TypedDataError::InsufficientBytes), 0));
    assert_eq!(decode(&[0x0a]), (Err(TypedDataError::InvalidType(0x0a)), 1));
    assert_eq!(decode(&[0x1f, 0x00]), (Err(TypedDataError::InvalidType(0x1f)), 1));
    assert_eq!(
        decode(&[0x02]),
        (
            Err(TypedDataError::NumberParsingError(
                TypedDataType::INT32,
                VarintError::InsufficientBytes
            )),
            1
        )
    );
    assert_eq!(
        decode(&[0x03, 0xf0]),
        (
            Err(TypedDataError::NumberParsingError(
                TypedDataType::UINT32,
                VarintError::InsufficientBytes
            )),
            2
        )
    );
    assert_eq!(
        decode(&[0x04, 0xf0]),
        (
            Err(TypedDataError::NumberParsingError(
                TypedDataType::INT64,
                VarintError::InsufficientBytes
            )),
            2
        )
    );
    assert_eq!(
        decode(&[0x05]),
        (
            Err(TypedDataError::NumberParsingError(
                TypedDataType::UINT64,
                VarintError::InsufficientBytes
            )),
            1
        )
    );
    assert_eq!(
        decode(&[0x03, 0xf0, 0xf1, 0xfe, 0xfe, 0x7e]),
        (
            Err(TypedDataError::NumberConversionError(TypedDataType::UINT32, 1 << 32)),
            6
        )
    );
    // 2^32 is one more than 32 bits hold, under either tag.
    assert_eq!(
        decode(&[0x02, 0xf0, 0xf1, 0xfe, 0xfe, 0x7e]),
        (
            Err(TypedDataError::NumberConversionError(TypedDataType::INT32, 1 << 32)),
            6
        )
    );
    let mut dst = BytesMut::new();
    write_typed_data(&mut dst, &TypedData::UINT64(u64::MAX)).unwrap();
    let mut as_int32 = dst[..].to_vec();
    as_int32[0] = 0x02;
    assert_eq!(
        decode(&as_int32),
        (
            Err(TypedDataError::NumberConversionError(TypedDataType::INT32, u64::MAX)),
            as_int32.len()
        )
    );
    let mut dst = BytesMut::new();
    write_typed_data(&mut dst, &TypedData::UINT64(1 << 31)).unwrap();
    let mut as_int32 = dst[..].to_vec();
    as_int32[0] = 0x02;
    assert_eq!(decode(&as_int32), (Ok(TypedData::INT32(i32::MIN)), as_int32.len()));
    assert_eq!(
        decode(&[0x06, 1, 2, 3]),
        (Err(TypedDataError::InvalidIpv4(Ipv4Error::InsufficientBytes)), 1)
    );
    assert_eq!(
        decode(&[0x07, 1, 2, 3, 4, 5, 6, 7, 8, 9, 10, 11, 12, 13, 14, 15]),
        (Err(TypedDataError::InvalidIpv6(Ipv6Error::InsufficientBytes)), 1)
    );
    assert_eq!(
        decode(&[0x08, 0x05, 0x61]),
        (
            Err(TypedDataError::InvalidString(StringError::InsufficientBytes)),
            2
        )
    );
    assert_eq!(
        decode(&[0x08]),
        (
            Err(TypedDataError::InvalidString(StringError::InvalidSize(
                VarintError::InsufficientBytes
            ))),
            1
        )
    );
}

#[test]
fn strings_on_the_wire() {
    let mut dst = BytesMut::new();
    write_string(&mut dst, &"version".to_string()).unwrap();
    assert_eq!(&dst[..], &[0x07, 0x76, 0x65, 0x72, 0x73, 0x69, 0x6f, 0x6e]);
    let mut src = Cursor::new(&dst[..]);
    assert_eq!(parse_string(&mut src), Ok("version".to_string()));
    assert_eq!(src.position(), 8);

    let empty = [0x00u8, 0x41];
    let mut src = Cursor::new(&empty[..]);
    assert_eq!(parse_string(&mut src), Ok(String::new()));
    assert_eq!(src.position(), 1);

    let long = "\u{e9}".repeat(200);
    let mut dst = BytesMut::new();
    write_string(&mut dst, &long).unwrap();
    assert_eq!(&dst[..2], &[0xf0, 0x0a]);
    assert_eq!(dst.len(), 2 + 400);
    let mut src = Cursor::new(&dst[..]);
    assert_eq!(parse_string(&mut src), Ok(long));
}

#[test]
fn string_that_is_not_utf8() {
    let bytes = [0x02u8, 0xc3, 0x28, 0x41];
    let mut src = Cursor::new(&bytes[..]);
    let expected = std::str::from_utf8(&[0xc3, 0x28]).unwrap_err().to_string();
    assert_eq!(parse_string(&mut src), Err(StringError::Utf8Error(expected)));
    assert_eq!(src.position(), 3);
    assert_eq!(
        decode(&[0x08, 0x01, 0xff]).0,
        Err(TypedDataError::InvalidString(StringError::Utf8Error(
            std::str::from_utf8(&[0xff]).unwrap_err().to_string()
        )))
    );
}

#[test]
fn values_as_text() {
    assert_eq!(TypedData::NULL.to_string(), "<null>");
    assert_eq!(TypedData::BOOL(true).to_string(), "true");
    assert_eq!(TypedData::BOOL(false).to_string(), "false");
    assert_eq!(TypedData::INT32(-42).to_string(), "-42");
    assert_eq!(TypedData::INT32(i32::MIN).to_string(), "-2147483648");
    assert_eq!(TypedData::UINT32(0).to_string(), "0");
    assert_eq!(TypedData::UINT32(16380).to_string(), "16380");
    assert_eq!(TypedData::INT64(i64::MIN).to_string(), "-9223372036854775808");
    assert_eq!(TypedData::INT64(i64::MAX).to_string(), "9223372036854775807");
    assert_eq!(TypedData::UINT64(u64::MAX).to_string(), "18446744073709551615");
    assert_eq!(TypedData::STRING("GET".to_string()).to_string(), "GET");
    assert_eq!(TypedData::BINARY(vec![1]).to_string(), "<bin>");
    assert_eq!(TypedData::IPV4([192, 168, 0, 1]).to_string(), "192.168.0.1");
    assert_eq!(TypedData::IPV4([0, 0, 0, 0]).to_string(), "0.0.0.0");
    assert_eq!(TypedData::IPV4([255, 255, 255, 255]).to_string(), "255.255.255.255");
}

fn v6(groups: [u16; 8]) -> TypedData {
    let mut a = [0u8; 16];
    for i in 0..8 {
        a[2 * i] = (groups[i] >> 8) as u8;
        a[2 * i + 1] = (groups[i] & 0xff) as u8;
    }
    TypedData::IPV6(a)
}

#[test]
fn ipv6_as_text() {
    assert_eq!(v6([0, 0, 0, 0, 0, 0, 0, 0]).to_string(), "::");
    assert_eq!(v6([0, 0, 0, 0, 0, 0, 0, 1]).to_string(), "::1");
    assert_eq!(v6([0x2001, 0xdb8, 0, 0, 0, 0, 0, 1]).to_string(), "2001:db8::1");
    assert_eq!(v6([1, 0, 0, 2, 0, 0, 0, 3]).to_string(), "1:0:0:2::3");
    assert_eq!(v6([1, 0, 2, 3, 4, 5, 6, 7]).to_string(), "1:0:2:3:4:5:6:7");
    assert_eq!(v6([1, 0, 0, 2, 3, 0, 0, 4]).to_string(), "1::2:3:0:0:4");
    assert_eq!(v6([1, 2, 3, 4, 5, 6, 0, 0]).to_string(), "1:2:3:4:5:6::");
    assert_eq!(v6([0, 0, 1, 2, 3, 4, 5, 6]).to_string(), "::1:2:3:4:5:6");
    assert_eq!(
        v6([0xfe80, 0, 0, 0, 0xabcd, 0xef01, 0x10, 0xffff]).to_string(),
        "fe80::abcd:ef01:10:ffff"
    );
    assert_eq!(v6([1, 2, 3, 4, 5, 6, 7, 8]).to_string(), "1:2:3:4:5:6:7:8");
    assert_eq!(v6([0, 0, 0, 0, 0, 0xffff, 0x0102, 0x0304]).to_string(), "::ffff:1.2.3.4");
    assert_eq!(v6([0, 0, 0, 0, 0, 0, 0x0102, 0x0304]).to_string(), "::102:304");
}

#[test]
fn type_codes() {
    assert_eq!(TypedDataType::from_code(8), Some(TypedDataType::STRING));
    assert_eq!(TypedDataType::from_code(10), None);
    assert_eq!(TypedDataType::BINARY.code(), 9);
    assert_eq!(u8::from(TypedDataType::IPV6), 7);
    assert_eq!(TypedDataType::try_from(2u8), Ok(TypedDataType::INT32));
    assert_eq!(TypedDataType::try_from(200u8), Err(200u8));
    for code in 0u8..=9 {
        assert_eq!(TypedDataType::from_code(code).unwrap().code(), code);
    }
}
