//! The header that opens every frame: its type, its flags, and the two
//! identifiers that tie a reply to the frame it answers.
//!
//! On the wire: one byte for the type, four for the flags (big-endian),
//! then the stream identifier and the frame identifier as variable-length
//! integers.

use super::buf::{
    be_u32, get_u32, get_u8, lemma_be_u32_round_trip, max_written, put_u32, put_u8, remaining,
    u32_be_bytes, unread, written,
};
use super::error::{Error, FrameHeaderError};
use super::varint::{
    lemma_parse_varint_used, lemma_varint_round_trip, parse_varint, spec_parse_varint,
    varint_bytes, write_varint,
};
use bytes::BytesMut;
use std::io::Cursor;
use vstd::prelude::*;

verus! {

#[allow(non_camel_case_types)]
#[derive(Debug, Clone, Copy, PartialEq, Eq, Structural)]
pub enum FrameType {
    UNSET,
    HAPROXY_HELLO,
    HAPROXY_DISCONNECT,
    NOTIFY,
    AGENT_HELLO,
    AGENT_DISCONNECT,
    ACK,
}

impl FrameType {
    /// The byte that stands for the type.
    pub open spec fn spec_code(self) -> u8 {
        match self {
            FrameType::UNSET => 0,
            FrameType::HAPROXY_HELLO => 1,
            FrameType::HAPROXY_DISCONNECT => 2,
            FrameType::NOTIFY => 3,
            FrameType::AGENT_HELLO => 101,
            FrameType::AGENT_DISCONNECT => 102,
            FrameType::ACK => 103,
        }
    }

    /// The type that a byte stands for, if any.
    pub open spec fn spec_from_code(code: u8) -> Option<FrameType> {
        if code == 0 {
            Some(FrameType::UNSET)
        } else if code == 1 {
            Some(FrameType::HAPROXY_HELLO)
        } else if code == 2 {
            Some(FrameType::HAPROXY_DISCONNECT)
        } else if code == 3 {
            Some(FrameType::NOTIFY)
        } else if code == 101 {
            Some(FrameType::AGENT_HELLO)
        } else if code == 102 {
            Some(FrameType::AGENT_DISCONNECT)
        } else if code == 103 {
            Some(FrameType::ACK)
        } else {
            None
        }
    }

    /// The byte that stands for the type.
    pub fn code(self) -> (c: u8)
        ensures
            c == self.spec_code(),
            FrameType::spec_from_code(c) == Some(self),
    {
        match self {
            FrameType::UNSET => 0,
            FrameType::HAPROXY_HELLO => 1,
            FrameType::HAPROXY_DISCONNECT => 2,
            FrameType::NOTIFY => 3,
            FrameType::AGENT_HELLO => 101,
            FrameType::AGENT_DISCONNECT => 102,
            FrameType::ACK => 103,
        }
    }

    /// The type that a byte stands for: `None` for a byte that stands for
    /// none.
    pub fn from_code(code: u8) -> (t: Option<FrameType>)
        ensures
            t == FrameType::spec_from_code(code),
    {
        match code {
            0 => Some(FrameType::UNSET),
            1 => Some(FrameType::HAPROXY_HELLO),
            2 => Some(FrameType::HAPROXY_DISCONNECT),
            3 => Some(FrameType::NOTIFY),
            101 => Some(FrameType::AGENT_HELLO),
            102 => Some(FrameType::AGENT_DISCONNECT),
            103 => Some(FrameType::ACK),
            _ => None,
        }
    }

    /// Appends the type's byte to `dst`. This never fails.
    pub fn write_to(self, dst: &mut BytesMut) -> (r: Result<(), Error>)
        requires
            written(*old(dst)).len() + 1 <= max_written(),
        ensures
            r is Ok,
            written(*final(dst)) == written(*old(dst)).push(self.spec_code()),
    {
        put_u8(dst, self.code());
        Ok(())
    }
}

impl From<FrameType> for u8 {
    fn from(v: FrameType) -> (c: u8) {
        v.code()
    }
}

impl vstd::std_specs::convert::FromSpecImpl<FrameType> for u8 {
    open spec fn obeys_from_spec() -> bool {
        true
    }

    open spec fn from_spec(v: FrameType) -> u8 {
        v.spec_code()
    }
}

impl TryFrom<u8> for FrameType {
    /// The byte that stands for nothing.
    type Error = u8;

    fn try_from(code: u8) -> (r: Result<FrameType, u8>) {
        match FrameType::from_code(code) {
            Some(v) => Ok(v),
            None => Err(code),
        }
    }
}

impl vstd::std_specs::convert::TryFromSpecImpl<u8> for FrameType {
    open spec fn obeys_try_from_spec() -> bool {
        true
    }

    open spec fn try_from_spec(code: u8) -> Result<FrameType, u8> {
        match FrameType::spec_from_code(code) {
            Some(v) => Ok(v),
            None => Err(code),
        }
    }
}

/// The flags of a frame, a 32-bit field. Bit 0 says that the frame holds a
/// whole payload; bit 1 that the sender gives up on the exchange.
#[derive(Debug, Clone, Copy, PartialEq, Eq, Structural)]
pub struct FrameFlags(pub u32);

impl FrameFlags {
    /// Bit 0: the frame holds a whole payload, not a fragment of one.
    pub open spec fn spec_is_fin(&self) -> bool {
        self.0 % 2 == 1
    }

    /// Bit 1: the sender gives up on the exchange.
    pub open spec fn spec_is_abort(&self) -> bool {
        self.0 / 2 % 2 == 1
    }

    #[verifier::when_used_as_spec(spec_is_fin)]
    pub fn is_fin(&self) -> (b: bool)
        ensures
            b == self.spec_is_fin(),
    {
        let v: u32 = self.0;
        assert((v & 0x00000001u32 != 0) == (v % 2 == 1)) by (bit_vector);
        v & 0x00000001u32 != 0
    }

    #[verifier::when_used_as_spec(spec_is_abort)]
    pub fn is_abort(&self) -> (b: bool)
        ensures
            b == self.spec_is_abort(),
    {
        let v: u32 = self.0;
        assert((v & 0x00000002u32 != 0) == (v / 2 % 2 == 1)) by (bit_vector);
        v & 0x00000002u32 != 0
    }

    /// The flags with the two bits as given and every other bit clear.
    pub fn new(is_fin: bool, is_abort: bool) -> (f: FrameFlags)
        ensures
            f.0 == (if is_fin { 1u32 } else { 0u32 }) + (if is_abort { 2u32 } else { 0u32 }),
            f.spec_is_fin() == is_fin,
            f.spec_is_abort() == is_abort,
    {
        let mut val: u32 = 0;
        if is_fin {
            val = 1;
        }
        if is_abort {
            val = val + 2;
        }
        FrameFlags(val)
    }

    /// The field as a number.
    pub fn val(&self) -> (v: u32)
        ensures
            v == self.0,
    {
        self.0
    }
}

#[derive(Debug, Clone, Copy, PartialEq, Eq, Structural)]
pub struct FrameHeader {
    pub frame_type: FrameType,
    pub flags: FrameFlags,
    pub stream_id: u64,
    pub frame_id: u64,
}

impl FrameHeader {
    /// The header of a reply to the frame with this header: the same stream
    /// and frame identifiers, the type given, and of the flags only the one
    /// for a whole payload.
    pub open spec fn spec_reply_header(self, frame_type: FrameType) -> FrameHeader {
        FrameHeader {
            frame_type,
            flags: FrameFlags(1),
            stream_id: self.stream_id,
            frame_id: self.frame_id,
        }
    }

    /// The header of a reply to the frame with this header.
    pub fn reply_header(&self, frame_type: &FrameType) -> (r: FrameHeader)
        ensures
            r == self.spec_reply_header(*frame_type),
            r.stream_id == self.stream_id,
            r.frame_id == self.frame_id,
            r.frame_type == *frame_type,
            r.flags.spec_is_fin(),
            !r.flags.spec_is_abort(),
    {
        FrameHeader {
            frame_id: self.frame_id,
            stream_id: self.stream_id,
            flags: FrameFlags::new(true, false),
            frame_type: *frame_type,
        }
    }
}

/// The encoding of a header.
pub open spec fn frame_header_bytes(h: FrameHeader) -> Seq<u8> {
    seq![h.frame_type.spec_code()] + u32_be_bytes(h.flags.0) + varint_bytes(h.stream_id)
        + varint_bytes(h.frame_id)
}

/// What decoding makes of the bytes `s`: the header or the error, and how
/// many bytes it reads.
pub open spec fn spec_parse_frame_header(s: Seq<u8>) -> (Result<FrameHeader, FrameHeaderError>, nat) {
    if s.len() == 0 {
        (Err(FrameHeaderError::InsufficientBytes), 0)
    } else {
        match FrameType::spec_from_code(s[0]) {
            None => (Err(FrameHeaderError::InvalidFrameType(s[0])), 1),
            Some(frame_type) => if s.len() < 5 {
                (Err(FrameHeaderError::InsufficientBytes), 1)
            } else {
                let flags = FrameFlags(be_u32(s.subrange(1, 5)));
                let stream = spec_parse_varint(s.skip(5));
                match stream.0 {
                    Err(e) => (Err(FrameHeaderError::InvalidStreamId(e)), 5 + stream.1),
                    Ok(stream_id) => {
                        let frame = spec_parse_varint(s.skip(5 + stream.1 as int));
                        match frame.0 {
                            Err(e) => (
                                Err(FrameHeaderError::InvalidFrameId(e)),
                                5 + stream.1 + frame.1,
                            ),
                            Ok(frame_id) => (
                                Ok(FrameHeader { frame_type, flags, stream_id, frame_id }),
                                5 + stream.1 + frame.1,
                            ),
                        }
                    },
                }
            },
        }
    }
}

/// Decoding never reads more than there is.
pub proof fn lemma_parse_frame_header_used(s: Seq<u8>)
    ensures
        spec_parse_frame_header(s).1 <= s.len(),
{
    if s.len() >= 5 {
        lemma_parse_varint_used(s.skip(5));
        lemma_parse_varint_used(s.skip(5 + spec_parse_varint(s.skip(5)).1 as int));
    }
}

/// Decoding undoes encoding, whatever follows the encoded bytes, and reads
/// exactly the bytes that encoding wrote.
pub proof fn lemma_frame_header_round_trip(h: FrameHeader, rest: Seq<u8>)
    ensures
        spec_parse_frame_header(frame_header_bytes(h) + rest) == (
            Ok::<FrameHeader, FrameHeaderError>(h),
            frame_header_bytes(h).len(),
        ),
{
    let s = frame_header_bytes(h) + rest;
    let stream = varint_bytes(h.stream_id);
    let frame = varint_bytes(h.frame_id);
    lemma_be_u32_round_trip(h.flags.0);
    assert(s.subrange(1, 5) =~= u32_be_bytes(h.flags.0));
    assert(s.skip(5) =~= stream + (frame + rest));
    lemma_varint_round_trip(h.stream_id, frame + rest);
    assert(s.skip(5 + stream.len() as int) =~= frame + rest);
    lemma_varint_round_trip(h.frame_id, rest);
}

/// Decodes one header from the front of `src`.
///
/// Fails with `InsufficientBytes` when the input ends before the flags do,
/// with `InvalidFrameType` on a first byte that stands for no type, and
/// with `InvalidStreamId` or `InvalidFrameId` when that identifier does not
/// decode.
pub fn parse_frame_header(src: &mut Cursor<&[u8]>) -> (r: Result<FrameHeader, FrameHeaderError>)
    ensures
        r == spec_parse_frame_header(unread(*old(src))).0,
        unread(*final(src)) == unread(*old(src)).skip(
            spec_parse_frame_header(unread(*old(src))).1 as int,
        ),
{
    let ghost s0 = unread(*src);
    if remaining(src) < 1 {
        assert(s0.skip(0) =~= s0);
        return Err(FrameHeaderError::InsufficientBytes);
    }
    let raw: u8 = get_u8(src);
    let frame_type = match FrameType::from_code(raw) {
        Some(t) => t,
        None => {
            return Err(FrameHeaderError::InvalidFrameType(raw));
        },
    };
    if remaining(src) < 4 {
        return Err(FrameHeaderError::InsufficientBytes);
    }
    let raw: u32 = get_u32(src);
    let flags = FrameFlags(raw);
    proof {
        assert(s0.skip(1).take(4) =~= s0.subrange(1, 5));
        assert(s0.skip(1).skip(4) =~= s0.skip(5));
        lemma_parse_varint_used(s0.skip(5));
    }
    let ghost n1: int = spec_parse_varint(s0.skip(5)).1 as int;
    let stream_id: u64 = match parse_varint(src) {
        Ok(v) => v,
        Err(e) => {
            assert(s0.skip(5).skip(n1) =~= s0.skip(5 + n1));
            return Err(FrameHeaderError::InvalidStreamId(e));
        },
    };
    proof {
        assert(s0.skip(5).skip(n1) =~= s0.skip(5 + n1));
        lemma_parse_varint_used(s0.skip(5 + n1));
    }
    let ghost n2: int = spec_parse_varint(s0.skip(5 + n1)).1 as int;
    let frame_id: u64 = match parse_varint(src) {
        Ok(v) => v,
        Err(e) => {
            assert(s0.skip(5 + n1).skip(n2) =~= s0.skip(5 + n1 + n2));
            return Err(FrameHeaderError::InvalidFrameId(e));
        },
    };
    assert(s0.skip(5 + n1).skip(n2) =~= s0.skip(5 + n1 + n2));
    Ok(FrameHeader { frame_type, flags, stream_id, frame_id })
}

/// Appends the encoding of a header to `dst`. This never fails.
pub fn write_frame_header(dst: &mut BytesMut, frame_header: &FrameHeader) -> (r: Result<
    (),
    Error,
>)
    requires
        written(*old(dst)).len() + frame_header_bytes(*frame_header).len() <= max_written(),
    ensures
        r is Ok,
        written(*final(dst)) == written(*old(dst)) + frame_header_bytes(*frame_header),
{
    let ghost w0 = written(*dst);
    let _ = frame_header.frame_type.write_to(dst);
    put_u32(dst, frame_header.flags.0);
    let _ = write_varint(dst, frame_header.stream_id);
    let _ = write_varint(dst, frame_header.frame_id);
    assert(written(*dst) =~= w0 + frame_header_bytes(*frame_header));
    Ok(())
}

} // verus!
