//! Strings on the wire: the length of the UTF-8 form as a variable-length
//! integer, then the UTF-8 bytes themselves.

use super::buf::{copy_to_vec, max_written, put_slice, remaining, unread, written};
use super::error::{result_view, Error, StringError, StringErrorView};
use super::varint::{
    lemma_parse_varint_used, lemma_varint_round_trip, parse_varint, spec_parse_varint, varint_bytes,
    write_varint,
};
use bytes::BytesMut;
use std::io::Cursor;
use vstd::prelude::*;
use vstd::utf8::{
    decode_utf8, encode_utf8, encode_utf8_decode_utf8, encode_utf8_valid_utf8, valid_utf8,
};

verus! {

/// The text with which `std` reports that `bytes` are not UTF-8.
pub uninterp spec fn utf8_error_text(bytes: Seq<u8>) -> Seq<char>;

/// `std::str::from_utf8`, with the text copied into a `String`: succeeds
/// exactly on well-formed UTF-8 and then gives the characters that the bytes
/// encode; otherwise gives the text of std's error.
#[verifier::external_body]
pub(crate) fn string_from_utf8(bytes: &Vec<u8>) -> (r: Result<String, String>)
    ensures
        r is Ok <==> valid_utf8(bytes@),
        r matches Ok(s) ==> s@ == decode_utf8(bytes@),
        r matches Err(text) ==> text@ == utf8_error_text(bytes@),
{
    match std::str::from_utf8(bytes) {
        Ok(s) => Ok(s.to_string()),
        Err(e) => Err(e.to_string()),
    }
}

/// The encoding of a string.
pub open spec fn string_bytes(s: Seq<char>) -> Seq<u8> {
    varint_bytes(encode_utf8(s).len() as u64) + encode_utf8(s)
}

/// What decoding makes of the bytes `s`: the string or the error, and how
/// many bytes it reads.
pub open spec fn spec_parse_string(s: Seq<u8>) -> (Result<Seq<char>, StringErrorView>, nat) {
    let size = spec_parse_varint(s);
    match size.0 {
        Err(e) => (Err(StringErrorView::InvalidSize(e)), size.1),
        Ok(len) => {
            let body = s.skip(size.1 as int);
            if len > body.len() {
                (Err(StringErrorView::InsufficientBytes), size.1)
            } else {
                let raw = body.take(len as int);
                if valid_utf8(raw) {
                    (Ok(decode_utf8(raw)), size.1 + len as nat)
                } else {
                    (Err(StringErrorView::Utf8Error(utf8_error_text(raw))), size.1 + len as nat)
                }
            }
        },
    }
}

/// Decoding never reads more than there is, and reads at least one byte of
/// a non-empty input.
pub proof fn lemma_parse_string_used(s: Seq<u8>)
    ensures
        spec_parse_string(s).1 <= s.len(),
        s.len() > 0 ==> spec_parse_string(s).1 >= 1,
{
    lemma_parse_varint_used(s);
}

/// Decoding undoes encoding, whatever follows the encoded bytes, and reads
/// exactly the bytes that encoding wrote.
pub proof fn lemma_string_round_trip(s: Seq<char>, rest: Seq<u8>)
    requires
        encode_utf8(s).len() <= u64::MAX,
    ensures
        spec_parse_string(string_bytes(s) + rest) == (
            Ok::<Seq<char>, StringErrorView>(s),
            string_bytes(s).len(),
        ),
{
    let raw = encode_utf8(s);
    let size = varint_bytes(raw.len() as u64);
    let all = string_bytes(s) + rest;
    assert(all =~= size + (raw + rest));
    lemma_varint_round_trip(raw.len() as u64, raw + rest);
    assert(all.skip(size.len() as int) =~= raw + rest);
    assert((raw + rest).take(raw.len() as int) =~= raw);
    encode_utf8_valid_utf8(s);
    encode_utf8_decode_utf8(s);
}

/// Decodes one string from the front of `src`.
///
/// Fails with `InvalidSize` when the length does not decode, with
/// `InsufficientBytes` when fewer bytes are left than the length says, and
/// with `Utf8Error` when the bytes are not UTF-8.
pub fn parse_string(src: &mut Cursor<&[u8]>) -> (r: Result<String, StringError>)
    ensures
        result_view(r) == spec_parse_string(unread(*old(src))).0,
        unread(*final(src)) == unread(*old(src)).skip(
            spec_parse_string(unread(*old(src))).1 as int,
        ),
{
    let ghost s0 = unread(*src);
    proof {
        lemma_parse_varint_used(s0);
    }
    let len: u64 = match parse_varint(src) {
        Ok(len) => len,
        Err(e) => {
            return Err(StringError::InvalidSize(e));
        },
    };
    let ghost n = spec_parse_varint(s0).1;
    let left: usize = remaining(src);
    if len > left as u64 {
        return Err(StringError::InsufficientBytes);
    }
    let raw = copy_to_vec(src, len as usize);
    assert(s0.skip(n as int).skip(len as int) =~= s0.skip(n + len));
    match string_from_utf8(&raw) {
        Ok(s) => Ok(s),
        Err(text) => Err(StringError::Utf8Error(text)),
    }
}

/// Appends the encoding of `value` to `dst`. This never fails.
pub fn write_string(dst: &mut BytesMut, value: &String) -> (r: Result<(), Error>)
    requires
        written(*old(dst)).len() + string_bytes(value@).len() <= max_written(),
    ensures
        r is Ok,
        written(*final(dst)) == written(*old(dst)) + string_bytes(value@),
{
    let ghost w0 = written(*dst);
    let bytes = value.as_str().as_bytes();
    let len: usize = bytes.len();
    let _ = write_varint(dst, len as u64);
    put_slice(dst, bytes);
    assert(w0 + varint_bytes(len as u64) + bytes@ =~= w0 + string_bytes(value@));
    Ok(())
}

} // verus!
