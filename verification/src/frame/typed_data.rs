//! Typed values: a tag byte, then a body whose shape the tag decides.
//!
//! The low nibble of the tag is the type's code. The high nibble carries
//! flags, of which only one is used: bit 4 is the value of a boolean.

use super::buf::{get_u8, max_written, put_slice, put_u8, remaining, unread, written};
use super::error::{
    result_view, Error, Ipv4Error, Ipv6Error, TypedDataError, TypedDataErrorView,
};
use super::text::{
    lemma_parse_string_used, lemma_string_round_trip, parse_string, spec_parse_string,
    string_bytes, write_string,
};
use super::varint::{
    lemma_parse_varint_used, lemma_varint_round_trip, parse_varint, spec_parse_varint,
    two_pow_64, varint_bytes, write_varint,
};
use bytes::BytesMut;
use std::io::Cursor;
use crate::render::{
    all_ascii, ascii_chars, ascii_string, decimal_bytes, ipv4_bytes, ipv6_bytes,
    lemma_decimal_ascii, lemma_ipv4_ascii, lemma_ipv6_ascii, lemma_signed_decimal_ascii,
    push_decimal, push_ipv4, push_ipv6, push_signed_decimal, signed_decimal_bytes,
};
use vstd::prelude::*;
use vstd::string::StringExecFns;
use vstd::utf8::encode_utf8;

verus! {

#[derive(Debug, Clone, Copy, PartialEq, Eq, Structural)]
pub enum TypedDataType {
    NULL,
    BOOL,
    INT32,
    UINT32,
    INT64,
    UINT64,
    IPV4,
    IPV6,
    STRING,
    BINARY,
}

impl TypedDataType {
    /// The code that stands for the type in a tag's low nibble.
    pub open spec fn spec_code(self) -> u8 {
        match self {
            TypedDataType::NULL => 0,
            TypedDataType::BOOL => 1,
            TypedDataType::INT32 => 2,
            TypedDataType::UINT32 => 3,
            TypedDataType::INT64 => 4,
            TypedDataType::UINT64 => 5,
            TypedDataType::IPV4 => 6,
            TypedDataType::IPV6 => 7,
            TypedDataType::STRING => 8,
            TypedDataType::BINARY => 9,
        }
    }

    /// The type that a code stands for, if any.
    pub open spec fn spec_from_code(code: u8) -> Option<TypedDataType> {
        if code == 0 {
            Some(TypedDataType::NULL)
        } else if code == 1 {
            Some(TypedDataType::BOOL)
        } else if code == 2 {
            Some(TypedDataType::INT32)
        } else if code == 3 {
            Some(TypedDataType::UINT32)
        } else if code == 4 {
            Some(TypedDataType::INT64)
        } else if code == 5 {
            Some(TypedDataType::UINT64)
        } else if code == 6 {
            Some(TypedDataType::IPV4)
        } else if code == 7 {
            Some(TypedDataType::IPV6)
        } else if code == 8 {
            Some(TypedDataType::STRING)
        } else if code == 9 {
            Some(TypedDataType::BINARY)
        } else {
            None
        }
    }

    /// The code that stands for the type.
    pub fn code(self) -> (c: u8)
        ensures
            c == self.spec_code(),
    {
        match self {
            TypedDataType::NULL => 0,
            TypedDataType::BOOL => 1,
            TypedDataType::INT32 => 2,
            TypedDataType::UINT32 => 3,
            TypedDataType::INT64 => 4,
            TypedDataType::UINT64 => 5,
            TypedDataType::IPV4 => 6,
            TypedDataType::IPV6 => 7,
            TypedDataType::STRING => 8,
            TypedDataType::BINARY => 9,
        }
    }

    /// The type that a code stands for: `None` for a code above 9.
    pub fn from_code(code: u8) -> (t: Option<TypedDataType>)
        ensures
            t == TypedDataType::spec_from_code(code),
    {
        match code {
            0 => Some(TypedDataType::NULL),
            1 => Some(TypedDataType::BOOL),
            2 => Some(TypedDataType::INT32),
            3 => Some(TypedDataType::UINT32),
            4 => Some(TypedDataType::INT64),
            5 => Some(TypedDataType::UINT64),
            6 => Some(TypedDataType::IPV4),
            7 => Some(TypedDataType::IPV6),
            8 => Some(TypedDataType::STRING),
            9 => Some(TypedDataType::BINARY),
            _ => None,
        }
    }
}

impl From<TypedDataType> for u8 {
    fn from(v: TypedDataType) -> (c: u8) {
        v.code()
    }
}

impl vstd::std_specs::convert::FromSpecImpl<TypedDataType> for u8 {
    open spec fn obeys_from_spec() -> bool {
        true
    }

    open spec fn from_spec(v: TypedDataType) -> u8 {
        v.spec_code()
    }
}

impl TryFrom<u8> for TypedDataType {
    /// The byte that stands for nothing.
    type Error = u8;

    fn try_from(code: u8) -> (r: Result<TypedDataType, u8>) {
        match TypedDataType::from_code(code) {
            Some(v) => Ok(v),
            None => Err(code),
        }
    }
}

impl vstd::std_specs::convert::TryFromSpecImpl<u8> for TypedDataType {
    open spec fn obeys_try_from_spec() -> bool {
        true
    }

    open spec fn try_from_spec(code: u8) -> Result<TypedDataType, u8> {
        match TypedDataType::spec_from_code(code) {
            Some(v) => Ok(v),
            None => Err(code),
        }
    }
}

/// A typed value. An address is held as its octets, in network order.
#[derive(Debug, Clone, PartialEq)]
pub enum TypedData {
    NULL,
    BOOL(bool),
    INT32(i32),
    UINT32(u32),
    INT64(i64),
    UINT64(u64),
    IPV4([u8; 4]),
    IPV6([u8; 16]),
    STRING(String),
    BINARY(Vec<u8>),
}

pub enum TypedDataView {
    NULL,
    BOOL(bool),
    INT32(i32),
    UINT32(u32),
    INT64(i64),
    UINT64(u64),
    IPV4(Seq<u8>),
    IPV6(Seq<u8>),
    STRING(Seq<char>),
    BINARY(Seq<u8>),
}

impl View for TypedData {
    type V = TypedDataView;

    open spec fn view(&self) -> TypedDataView {
        match *self {
            TypedData::NULL => TypedDataView::NULL,
            TypedData::BOOL(b) => TypedDataView::BOOL(b),
            TypedData::INT32(n) => TypedDataView::INT32(n),
            TypedData::UINT32(n) => TypedDataView::UINT32(n),
            TypedData::INT64(n) => TypedDataView::INT64(n),
            TypedData::UINT64(n) => TypedDataView::UINT64(n),
            TypedData::IPV4(a) => TypedDataView::IPV4(a@),
            TypedData::IPV6(a) => TypedDataView::IPV6(a@),
            TypedData::STRING(s) => TypedDataView::STRING(s@),
            TypedData::BINARY(b) => TypedDataView::BINARY(b@),
        }
    }
}

impl DeepView for TypedData {
    type V = TypedDataView;

    open spec fn deep_view(&self) -> TypedDataView {
        self@
    }
}

impl TypedDataView {
    /// What holds of the view of every value in memory: an address has its
    /// four or sixteen octets, and the UTF-8 form of a string has a length
    /// that a machine word can hold.
    pub open spec fn wf(self) -> bool {
        match self {
            TypedDataView::IPV4(a) => a.len() == 4,
            TypedDataView::IPV6(a) => a.len() == 16,
            TypedDataView::STRING(s) => encode_utf8(s).len() <= usize::MAX,
            _ => true,
        }
    }

    /// Whether the value can be encoded: every value but a `BINARY` can.
    pub open spec fn encodable(self) -> bool {
        !(self is BINARY)
    }
}

/// A value as text: a string as it is, an address in its usual form, a
/// number in base 10, a boolean as `true` or `false`, a null as `<null>`
/// and a binary as `<bin>`.
pub open spec fn typed_data_text(v: TypedDataView) -> Seq<char> {
    match v {
        TypedDataView::NULL => "<null>"@,
        TypedDataView::BOOL(b) => if b {
            "true"@
        } else {
            "false"@
        },
        TypedDataView::INT32(n) => ascii_chars(signed_decimal_bytes(n as int)),
        TypedDataView::UINT32(n) => ascii_chars(decimal_bytes(n as nat)),
        TypedDataView::INT64(n) => ascii_chars(signed_decimal_bytes(n as int)),
        TypedDataView::UINT64(n) => ascii_chars(decimal_bytes(n as nat)),
        TypedDataView::IPV4(a) => ascii_chars(ipv4_bytes(a)),
        TypedDataView::IPV6(a) => ascii_chars(ipv6_bytes(a)),
        TypedDataView::STRING(s) => s,
        TypedDataView::BINARY(_) => "<bin>"@,
    }
}

impl TypedData {
    /// The value as text.
    pub fn to_string(&self) -> (s: String)
        ensures
            s@ == typed_data_text(self@),
    {
        let mut out: Vec<u8> = Vec::new();
        match self {
            TypedData::NULL => {
                return String::from_str("<null>");
            },
            TypedData::BOOL(b) => {
                return if *b {
                    String::from_str("true")
                } else {
                    String::from_str("false")
                };
            },
            TypedData::INT32(n) => {
                push_signed_decimal(&mut out, *n as i64);
            },
            TypedData::UINT32(n) => {
                push_decimal(&mut out, *n as u64);
            },
            TypedData::INT64(n) => {
                push_signed_decimal(&mut out, *n);
            },
            TypedData::UINT64(n) => {
                push_decimal(&mut out, *n);
            },
            TypedData::IPV4(a) => {
                push_ipv4(&mut out, a.as_slice());
            },
            TypedData::IPV6(a) => {
                push_ipv6(&mut out, a);
            },
            TypedData::STRING(s) => {
                return s.clone();
            },
            TypedData::BINARY(_) => {
                return String::from_str("<bin>");
            },
        }
        proof {
            lemma_text_ascii(self@);
            assert(out@ =~= typed_data_text_bytes(self@));
        }
        ascii_string(&out)
    }
}

/// The ASCII bytes of a value's text, where the value is a number or an
/// address.
pub open spec fn typed_data_text_bytes(v: TypedDataView) -> Seq<u8> {
    match v {
        TypedDataView::INT32(n) => signed_decimal_bytes(n as int),
        TypedDataView::UINT32(n) => decimal_bytes(n as nat),
        TypedDataView::INT64(n) => signed_decimal_bytes(n as int),
        TypedDataView::UINT64(n) => decimal_bytes(n as nat),
        TypedDataView::IPV4(a) => ipv4_bytes(a),
        TypedDataView::IPV6(a) => ipv6_bytes(a),
        _ => Seq::empty(),
    }
}

proof fn lemma_text_ascii(v: TypedDataView)
    requires
        v.wf(),
    ensures
        all_ascii(typed_data_text_bytes(v)),
{
    match v {
        TypedDataView::INT32(n) => lemma_signed_decimal_ascii(n as int),
        TypedDataView::UINT32(n) => lemma_decimal_ascii(n as nat),
        TypedDataView::INT64(n) => lemma_signed_decimal_ascii(n as int),
        TypedDataView::UINT64(n) => lemma_decimal_ascii(n as nat),
        TypedDataView::IPV4(a) => lemma_ipv4_ascii(a),
        TypedDataView::IPV6(a) => lemma_ipv6_ascii(a),
        _ => {},
    }
}

/// Two to the power 32.
pub open spec fn two_pow_32() -> nat {
    0x1_0000_0000
}

/// The unsigned 32-bit number with the bits of a signed one.
pub open spec fn i32_bits(n: i32) -> u32 {
    if n >= 0 {
        n as u32
    } else {
        (n + two_pow_32()) as u32
    }
}

/// The signed 32-bit number with the bits of an unsigned one.
pub open spec fn u32_as_signed(n: u32) -> i32 {
    if n <= i32::MAX {
        n as i32
    } else {
        (n - two_pow_32()) as i32
    }
}

/// The unsigned 64-bit number with the bits of a signed one, the sign
/// extended.
pub open spec fn signed_as_u64(n: int) -> u64 {
    if n >= 0 {
        n as u64
    } else {
        (n + two_pow_64()) as u64
    }
}

/// The signed 64-bit number with the bits of an unsigned one.
pub open spec fn u64_as_signed(n: u64) -> i64 {
    if n <= i64::MAX {
        n as i64
    } else {
        (n - two_pow_64()) as i64
    }
}

/// The encoding of a value. A signed number is written as the unsigned
/// number with the same bits, of 32 bits for an `INT32` and of 64 for an
/// `INT64`. Of a `BINARY`, which cannot be encoded, only the tag is
/// written.
pub open spec fn typed_data_bytes(v: TypedDataView) -> Seq<u8> {
    match v {
        TypedDataView::NULL => seq![0u8],
        TypedDataView::BOOL(b) => seq![if b { 0x11u8 } else { 0x01u8 }],
        TypedDataView::INT32(n) => seq![2u8] + varint_bytes(i32_bits(n) as u64),
        TypedDataView::UINT32(n) => seq![3u8] + varint_bytes(n as u64),
        TypedDataView::INT64(n) => seq![4u8] + varint_bytes(signed_as_u64(n as int)),
        TypedDataView::UINT64(n) => seq![5u8] + varint_bytes(n),
        TypedDataView::IPV4(a) => seq![6u8] + a,
        TypedDataView::IPV6(a) => seq![7u8] + a,
        TypedDataView::STRING(s) => seq![8u8] + string_bytes(s),
        TypedDataView::BINARY(_) => seq![9u8],
    }
}

/// The value that a decoded number stands for under a numeric type. For
/// an `INT32` and a `UINT32` a number that 32 bits cannot hold is refused.
/// For an `INT32` and an `INT64` the number is taken as two's complement,
/// of 32 and of 64 bits.
pub open spec fn number_value(kind: TypedDataType, raw: u64) -> Result<
    TypedDataView,
    TypedDataErrorView,
> {
    match kind {
        TypedDataType::INT32 => if raw <= u32::MAX {
            Ok(TypedDataView::INT32(u32_as_signed(raw as u32)))
        } else {
            Err(TypedDataErrorView::NumberConversionError(TypedDataType::INT32, raw))
        },
        TypedDataType::UINT32 => if raw <= u32::MAX {
            Ok(TypedDataView::UINT32(raw as u32))
        } else {
            Err(TypedDataErrorView::NumberConversionError(TypedDataType::UINT32, raw))
        },
        TypedDataType::INT64 => Ok(TypedDataView::INT64(u64_as_signed(raw))),
        _ => Ok(TypedDataView::UINT64(raw)),
    }
}

/// What decoding makes of a numeric body, which follows the tag.
pub open spec fn spec_parse_number(kind: TypedDataType, body: Seq<u8>) -> (
    Result<TypedDataView, TypedDataErrorView>,
    nat,
) {
    let n = spec_parse_varint(body);
    match n.0 {
        Err(e) => (Err(TypedDataErrorView::NumberParsingError(kind, e)), n.1 + 1),
        Ok(raw) => (number_value(kind, raw), n.1 + 1),
    }
}

/// What decoding makes of the bytes `s`: the value or the error, and how
/// many bytes it reads.
pub open spec fn spec_parse_typed_data(s: Seq<u8>) -> (
    Result<TypedDataView, TypedDataErrorView>,
    nat,
) {
    if s.len() == 0 {
        (Err(TypedDataErrorView::InsufficientBytes), 0)
    } else {
        let tag = s[0];
        let body = s.skip(1);
        match TypedDataType::spec_from_code(tag % 16) {
            None => (Err(TypedDataErrorView::InvalidType(tag)), 1),
            Some(TypedDataType::NULL) => (Ok(TypedDataView::NULL), 1),
            Some(TypedDataType::BOOL) => (Ok(TypedDataView::BOOL(tag / 16 % 2 == 1)), 1),
            Some(TypedDataType::IPV4) => if body.len() < 4 {
                (Err(TypedDataErrorView::InvalidIpv4(Ipv4Error::InsufficientBytes)), 1)
            } else {
                (Ok(TypedDataView::IPV4(body.take(4))), 5)
            },
            Some(TypedDataType::IPV6) => if body.len() < 16 {
                (Err(TypedDataErrorView::InvalidIpv6(Ipv6Error::InsufficientBytes)), 1)
            } else {
                (Ok(TypedDataView::IPV6(body.take(16))), 17)
            },
            Some(TypedDataType::STRING) => {
                let text = spec_parse_string(body);
                match text.0 {
                    Ok(t) => (Ok(TypedDataView::STRING(t)), text.1 + 1),
                    Err(e) => (Err(TypedDataErrorView::InvalidString(e)), text.1 + 1),
                }
            },
            Some(TypedDataType::BINARY) => (Err(TypedDataErrorView::NotSupported), 1),
            Some(kind) => spec_parse_number(kind, body),
        }
    }
}

/// Decoding never reads more than there is, and reads at least one byte of
/// a non-empty input.
pub proof fn lemma_parse_typed_data_used(s: Seq<u8>)
    ensures
        spec_parse_typed_data(s).1 <= s.len(),
        s.len() > 0 ==> spec_parse_typed_data(s).1 >= 1,
{
    if s.len() > 0 {
        lemma_parse_varint_used(s.skip(1));
        lemma_parse_string_used(s.skip(1));
    }
}

/// Decoding undoes encoding, whatever follows the encoded bytes, and reads
/// exactly the bytes that encoding wrote: for every value but a `BINARY`.
pub proof fn lemma_typed_data_round_trip(v: TypedDataView, rest: Seq<u8>)
    requires
        v.wf(),
        v.encodable(),
    ensures
        spec_parse_typed_data(typed_data_bytes(v) + rest) == (
            Ok::<TypedDataView, TypedDataErrorView>(v),
            typed_data_bytes(v).len(),
        ),
{
    let s = typed_data_bytes(v) + rest;
    let body = s.skip(1);
    match v {
        TypedDataView::NULL => {},
        TypedDataView::BOOL(b) => {},
        TypedDataView::INT32(n) => {
            assert(body =~= varint_bytes(i32_bits(n) as u64) + rest);
            lemma_varint_round_trip(i32_bits(n) as u64, rest);
            assert(u32_as_signed(i32_bits(n)) == n);
        },
        TypedDataView::UINT32(n) => {
            assert(body =~= varint_bytes(n as u64) + rest);
            lemma_varint_round_trip(n as u64, rest);
        },
        TypedDataView::INT64(n) => {
            assert(body =~= varint_bytes(signed_as_u64(n as int)) + rest);
            lemma_varint_round_trip(signed_as_u64(n as int), rest);
        },
        TypedDataView::UINT64(n) => {
            assert(body =~= varint_bytes(n) + rest);
            lemma_varint_round_trip(n, rest);
        },
        TypedDataView::IPV4(a) => {
            assert(body =~= a + rest);
            assert(body.take(4) =~= a);
        },
        TypedDataView::IPV6(a) => {
            assert(body =~= a + rest);
            assert(body.take(16) =~= a);
        },
        TypedDataView::STRING(t) => {
            assert(body =~= string_bytes(t) + rest);
            lemma_string_round_trip(t, rest);
        },
        TypedDataView::BINARY(_) => {},
    }
}

/// Reads `N` octets into an array.
fn read_octets<const N: usize>(src: &mut Cursor<&[u8]>) -> (a: [u8; N])
    requires
        unread(*old(src)).len() >= N,
    ensures
        a@ == unread(*old(src)).take(N as int),
        unread(*final(src)) == unread(*old(src)).skip(N as int),
{
    let ghost s0 = unread(*src);
    let mut a: [u8; N] = [0u8; N];
    let mut i: usize = 0;
    assert(s0.skip(0) =~= s0);
    while i < N
        invariant
            i <= N,
            s0.len() >= N,
            unread(*src) == s0.skip(i as int),
            a@.len() == N,
            forall|k: int| 0 <= k < i ==> a@[k] == s0[k],
        decreases N - i,
    {
        let b: u8 = get_u8(src);
        a[i] = b;
        assert(s0.skip(i as int).skip(1) =~= s0.skip(i as int + 1));
        i = i + 1;
    }
    assert(a@ =~= s0.take(N as int));
    a
}

/// Decodes one typed value from the front of `src`.
///
/// Fails with `InsufficientBytes` on an empty input, `InvalidType` on a
/// code above 9, `NotSupported` on a `BINARY`, and with the error of the
/// body where that does not decode.
pub fn parse_typed_data(src: &mut Cursor<&[u8]>) -> (r: Result<TypedData, TypedDataError>)
    ensures
        result_view(r) == spec_parse_typed_data(unread(*old(src))).0,
        unread(*final(src)) == unread(*old(src)).skip(
            spec_parse_typed_data(unread(*old(src))).1 as int,
        ),
{
    let ghost s0 = unread(*src);
    if remaining(src) < 1 {
        assert(s0.skip(0) =~= s0);
        return Err(TypedDataError::InsufficientBytes);
    }
    let raw: u8 = get_u8(src);
    assert(raw & 0x0F == raw % 16) by (bit_vector);
    assert((raw & 0x10 == 0x10) == (raw / 16 % 2 == 1)) by (bit_vector);
    let kind = match TypedDataType::from_code(raw & 0x0F) {
        Some(kind) => kind,
        None => {
            return Err(TypedDataError::InvalidType(raw));
        },
    };
    let ghost body = s0.skip(1);
    proof {
        lemma_parse_varint_used(body);
        lemma_parse_string_used(body);
    }
    match kind {
        TypedDataType::NULL => Ok(TypedData::NULL),
        TypedDataType::BOOL => Ok(TypedData::BOOL(raw & 0x10 == 0x10)),
        TypedDataType::INT32 => {
            let n = parse_varint(src);
            assert(body.skip(spec_parse_varint(body).1 as int) =~= s0.skip(
                spec_parse_varint(body).1 as int + 1,
            ));
            match n {
                Err(e) => Err(TypedDataError::NumberParsingError(TypedDataType::INT32, e)),
                Ok(n) => if n <= u32::MAX as u64 {
                    let bits: u32 = n as u32;
                    assert(bits as i32 == u32_as_signed(bits)) by (bit_vector);
                    Ok(TypedData::INT32(bits as i32))
                } else {
                    Err(TypedDataError::NumberConversionError(TypedDataType::INT32, n))
                },
            }
        },
        TypedDataType::UINT32 => {
            let n = parse_varint(src);
            assert(body.skip(spec_parse_varint(body).1 as int) =~= s0.skip(
                spec_parse_varint(body).1 as int + 1,
            ));
            match n {
                Err(e) => Err(TypedDataError::NumberParsingError(TypedDataType::UINT32, e)),
                Ok(n) => if n <= u32::MAX as u64 {
                    Ok(TypedData::UINT32(n as u32))
                } else {
                    Err(TypedDataError::NumberConversionError(TypedDataType::UINT32, n))
                },
            }
        },
        TypedDataType::INT64 => {
            let n = parse_varint(src);
            assert(body.skip(spec_parse_varint(body).1 as int) =~= s0.skip(
                spec_parse_varint(body).1 as int + 1,
            ));
            match n {
                Err(e) => Err(TypedDataError::NumberParsingError(TypedDataType::INT64, e)),
                Ok(n) => {
                    assert(n as i64 == u64_as_signed(n)) by (bit_vector);
                    Ok(TypedData::INT64(n as i64))
                },
            }
        },
        TypedDataType::UINT64 => {
            let n = parse_varint(src);
            assert(body.skip(spec_parse_varint(body).1 as int) =~= s0.skip(
                spec_parse_varint(body).1 as int + 1,
            ));
            match n {
                Err(e) => Err(TypedDataError::NumberParsingError(TypedDataType::UINT64, e)),
                Ok(n) => Ok(TypedData::UINT64(n)),
            }
        },
        TypedDataType::IPV4 => {
            if remaining(src) < 4 {
                return Err(TypedDataError::InvalidIpv4(Ipv4Error::InsufficientBytes));
            }
            let a: [u8; 4] = read_octets::<4>(src);
            assert(body.skip(4) =~= s0.skip(5));
            Ok(TypedData::IPV4(a))
        },
        TypedDataType::IPV6 => {
            if remaining(src) < 16 {
                return Err(TypedDataError::InvalidIpv6(Ipv6Error::InsufficientBytes));
            }
            let a: [u8; 16] = read_octets::<16>(src);
            assert(body.skip(16) =~= s0.skip(17));
            Ok(TypedData::IPV6(a))
        },
        TypedDataType::STRING => {
            let text = parse_string(src);
            assert(body.skip(spec_parse_string(body).1 as int) =~= s0.skip(
                spec_parse_string(body).1 as int + 1,
            ));
            match text {
                Ok(t) => Ok(TypedData::STRING(t)),
                Err(e) => Err(TypedDataError::InvalidString(e)),
            }
        },
        TypedDataType::BINARY => Err(TypedDataError::NotSupported),
    }
}

/// Appends the encoding of `value` to `dst`.
///
/// Fails with `NotSupported` on a `BINARY`, of which only the tag is then
/// written, and on nothing else.
pub fn write_typed_data(dst: &mut BytesMut, value: &TypedData) -> (r: Result<(), Error>)
    requires
        written(*old(dst)).len() + typed_data_bytes(value@).len() <= max_written(),
    ensures
        r is Ok <==> value@.encodable(),
        r matches Err(e) ==> e@ == super::error::ErrorView::NotSupported,
        written(*final(dst)) == written(*old(dst)) + typed_data_bytes(value@),
{
    let ghost w0 = written(*dst);
    match value {
        TypedData::NULL => {
            put_u8(dst, 0);
            assert(w0.push(0u8) =~= w0 + typed_data_bytes(value@));
            Ok(())
        },
        TypedData::BOOL(v) => {
            let tag: u8 = if *v { 0b0001_0001u8 } else { 0b0000_0001u8 };
            put_u8(dst, tag);
            assert(w0.push(tag) =~= w0 + typed_data_bytes(value@));
            Ok(())
        },
        TypedData::INT32(v) => {
            let n: i32 = *v;
            assert(n as u32 == i32_bits(n)) by (bit_vector);
            let bits: u32 = n as u32;
            put_u8(dst, 0b0000_0010u8);
            let r = write_varint(dst, bits as u64);
            assert(w0.push(2u8) + varint_bytes(bits as u64) =~= w0 + typed_data_bytes(value@));
            r
        },
        TypedData::UINT32(v) => {
            put_u8(dst, 0b0000_0011u8);
            let r = write_varint(dst, *v as u64);
            assert(w0.push(3u8) + varint_bytes(*v as u64) =~= w0 + typed_data_bytes(value@));
            r
        },
        TypedData::INT64(v) => {
            let n: i64 = *v;
            assert(n as u64 == signed_as_u64(n as int)) by (bit_vector);
            put_u8(dst, 0b0000_0100u8);
            let r = write_varint(dst, n as u64);
            assert(w0.push(4u8) + varint_bytes(n as u64) =~= w0 + typed_data_bytes(value@));
            r
        },
        TypedData::UINT64(v) => {
            put_u8(dst, 0b0000_0101u8);
            let r = write_varint(dst, *v);
            assert(w0.push(5u8) + varint_bytes(*v) =~= w0 + typed_data_bytes(value@));
            r
        },
        TypedData::IPV4(addr) => {
            put_u8(dst, 0b0000_0110u8);
            put_slice(dst, addr.as_slice());
            assert(w0.push(6u8) + addr@ =~= w0 + typed_data_bytes(value@));
            Ok(())
        },
        TypedData::IPV6(addr) => {
            put_u8(dst, 0b0000_0111u8);
            put_slice(dst, addr.as_slice());
            assert(w0.push(7u8) + addr@ =~= w0 + typed_data_bytes(value@));
            Ok(())
        },
        TypedData::STRING(v) => {
            put_u8(dst, 0b0000_1000u8);
            let r = write_string(dst, v);
            assert(w0.push(8u8) + string_bytes(v@) =~= w0 + typed_data_bytes(value@));
            r
        },
        TypedData::BINARY(_) => {
            put_u8(dst, 0b0000_1001u8);
            assert(w0.push(9u8) =~= w0 + typed_data_bytes(value@));
            Err(Error::NotSupported)
        },
    }
}

} // verus!
