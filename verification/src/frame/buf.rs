//! The byte buffers that the codec reads from and writes to.
//!
//! Reading goes through a `std::io::Cursor` over a byte slice, used as a
//! `bytes::Buf`; writing goes into a `bytes::BytesMut`, used as a
//! `bytes::BufMut`. Neither is verified here: this module states what the
//! codec relies on, and everything else in the crate is proved from that.

use bytes::{Buf, BufMut, BytesMut};
use std::io::Cursor;
use vstd::prelude::*;

verus! {

/// `bytes::BytesMut`, taken as it is: contracts see its bytes through
/// `written`.
#[verifier::external_type_specification]
#[verifier::external_body]
pub struct ExBytesMut(BytesMut);

/// `std::io::Cursor`, taken as it is: contracts see what a cursor over a
/// byte slice has left through `unread`.
#[verifier::external_type_specification]
#[verifier::external_body]
#[verifier::reject_recursive_types(T)]
pub struct ExCursor<T>(Cursor<T>);

/// The bytes that a cursor has yet to hand out, in order: the underlying
/// slice from the cursor's position on (nothing, if the position lies past
/// the end).
pub uninterp spec fn unread(src: Cursor<&[u8]>) -> Seq<u8>;

/// The bytes that a buffer holds, in order.
pub uninterp spec fn written(dst: BytesMut) -> Seq<u8>;

/// The largest number of bytes that a `BytesMut` can hold.
pub open spec fn max_written() -> int {
    isize::MAX as int
}

/// The 32-bit number that four bytes spell, most significant byte first.
pub open spec fn be_u32(b: Seq<u8>) -> u32
    recommends
        b.len() == 4,
{
    (b[0] as int * 0x100_0000 + b[1] as int * 0x1_0000 + b[2] as int * 0x100 + b[3] as int) as u32
}

/// The four bytes that spell a 32-bit number, most significant byte first.
pub open spec fn u32_be_bytes(n: u32) -> Seq<u8> {
    seq![
        (n / 0x100_0000) as u8,
        (n / 0x1_0000 % 0x100) as u8,
        (n / 0x100 % 0x100) as u8,
        (n % 0x100) as u8,
    ]
}

/// `be_u32` undoes `u32_be_bytes`.
pub proof fn lemma_be_u32_round_trip(n: u32)
    ensures
        u32_be_bytes(n).len() == 4,
        be_u32(u32_be_bytes(n)) == n,
{
    let a: int = n as int / 0x100_0000;
    let b: int = n as int / 0x1_0000 % 0x100;
    let c: int = n as int / 0x100 % 0x100;
    let d: int = n as int % 0x100;
    assert(a * 0x100_0000 + b * 0x1_0000 + c * 0x100 + d == n as int);
}

/// `Cursor::new`: a cursor at the start of a slice, with all of it yet to
/// hand out.
#[verifier::external_body]
pub(crate) fn cursor_over<'a>(bytes: &'a [u8]) -> (src: Cursor<&'a [u8]>)
    ensures
        unread(src) == bytes@,
{
    Cursor::new(bytes)
}

/// `Buf::remaining` on a cursor: the number of bytes not yet handed out.
#[verifier::external_body]
pub(crate) fn remaining(src: &Cursor<&[u8]>) -> (n: usize)
    ensures
        n == unread(*src).len(),
{
    src.remaining()
}

/// `Buf::get_u8` on a cursor: hands out the next byte. It panics on an
/// exhausted cursor, which the precondition rules out.
#[verifier::external_body]
pub(crate) fn get_u8(src: &mut Cursor<&[u8]>) -> (b: u8)
    requires
        unread(*old(src)).len() >= 1,
    ensures
        b == unread(*old(src))[0],
        unread(*final(src)) == unread(*old(src)).skip(1),
{
    src.get_u8()
}

/// `Buf::get_u32` on a cursor: hands out the next four bytes as one
/// big-endian number. It panics when fewer than four bytes are left, which
/// the precondition rules out.
#[verifier::external_body]
pub(crate) fn get_u32(src: &mut Cursor<&[u8]>) -> (n: u32)
    requires
        unread(*old(src)).len() >= 4,
    ensures
        n == be_u32(unread(*old(src)).take(4)),
        unread(*final(src)) == unread(*old(src)).skip(4),
{
    src.get_u32()
}

/// `Buf::advance` on a cursor: passes over the next `cnt` bytes. It panics
/// when fewer are left, which the precondition rules out.
#[verifier::external_body]
pub(crate) fn advance(src: &mut Cursor<&[u8]>, cnt: usize)
    requires
        cnt <= unread(*old(src)).len(),
    ensures
        unread(*final(src)) == unread(*old(src)).skip(cnt as int),
{
    src.advance(cnt)
}

/// `Buf::copy_to_bytes` on a cursor: hands out the next `len` bytes, here
/// copied into a vector. It panics when fewer are left, which the
/// precondition rules out.
#[verifier::external_body]
pub(crate) fn copy_to_vec(src: &mut Cursor<&[u8]>, len: usize) -> (out: Vec<u8>)
    requires
        len <= unread(*old(src)).len(),
    ensures
        out@ == unread(*old(src)).take(len as int),
        unread(*final(src)) == unread(*old(src)).skip(len as int),
{
    src.copy_to_bytes(len).to_vec()
}

/// `BytesMut::new`: a buffer that holds nothing.
#[verifier::external_body]
pub(crate) fn new_buffer() -> (dst: BytesMut)
    ensures
        written(dst) == Seq::<u8>::empty(),
{
    BytesMut::new()
}

/// `BytesMut::len`: the number of bytes that the buffer holds.
#[verifier::external_body]
pub(crate) fn buffer_len(dst: &BytesMut) -> (n: usize)
    ensures
        n == written(*dst).len(),
{
    dst.len()
}

/// `BytesMut::as_ref`: the bytes that the buffer holds, as a slice.
#[verifier::external_body]
pub(crate) fn buffer_bytes(dst: &BytesMut) -> (bytes: &[u8])
    ensures
        bytes@ == written(*dst),
{
    dst.as_ref()
}

/// `BufMut::put_u8` on a `BytesMut`: appends one byte. The buffer grows as
/// needed, up to `isize::MAX` bytes, and panics beyond.
#[verifier::external_body]
pub(crate) fn put_u8(dst: &mut BytesMut, b: u8)
    requires
        written(*old(dst)).len() + 1 <= max_written(),
    ensures
        written(*final(dst)) == written(*old(dst)).push(b),
{
    dst.put_u8(b)
}

/// `BufMut::put_u32` on a `BytesMut`: appends the four bytes of a number,
/// most significant first. The buffer grows as needed, up to `isize::MAX`
/// bytes, and panics beyond.
#[verifier::external_body]
pub(crate) fn put_u32(dst: &mut BytesMut, n: u32)
    requires
        written(*old(dst)).len() + 4 <= max_written(),
    ensures
        written(*final(dst)) == written(*old(dst)) + u32_be_bytes(n),
{
    dst.put_u32(n)
}

/// `BufMut::put_slice` on a `BytesMut`: appends the bytes of a slice. The
/// buffer grows as needed, up to `isize::MAX` bytes, and panics beyond.
#[verifier::external_body]
pub(crate) fn put_slice(dst: &mut BytesMut, src: &[u8])
    requires
        written(*old(dst)).len() + src@.len() <= max_written(),
    ensures
        written(*final(dst)) == written(*old(dst)) + src@,
{
    dst.put_slice(src)
}

} // verus!
