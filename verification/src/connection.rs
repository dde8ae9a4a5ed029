//! Framing: finding whole frames in the bytes that a connection has
//! received so far.
//!
//! The caller keeps the bytes that it has read and not yet used. It asks
//! `scan` what they hold. Where a whole frame is there, it drops the
//! frame's bytes from its buffer, whether or not the frame decoded; else
//! it reads more. When the stream ends, `end_of_stream` says whether it
//! ended between two frames.

use crate::frame::buf::{buffer_len, cursor_over, max_written, written};
use crate::frame::codec::{
    frame_appended, spec_check_frame, spec_parse_frame, Frame, FrameView,
};
use crate::frame::error::{result_view, Error, ErrorView};
use bytes::BytesMut;
use vstd::prelude::*;

verus! {

/// Whether a frame can be written to a buffer that holds `held` bytes: the
/// frame can be encoded, and the buffer can take it.
pub open spec fn writable(frame: FrameView, held: nat) -> bool {
    frame.encodable() && held + frame.bytes().len() <= max_written()
}

/// Appends the encoding of a frame to `dst`. What `dst` held stays, and
/// the four bytes that come next count the bytes that follow them.
///
/// Fails with `NotSupported`, and leaves `dst` as it was, where the frame
/// cannot be encoded, and where `dst` cannot take it.
pub fn write_frame(frame: &Frame, dst: &mut BytesMut) -> (r: Result<(), Error>)
    ensures
        r is Ok <==> writable(frame@, written(*old(dst)).len()),
        r is Ok ==> written(*final(dst)) == written(*old(dst)) + frame@.bytes(),
        r is Ok ==> frame_appended(written(*old(dst)), written(*final(dst))),
        r matches Err(e) ==> e@ == ErrorView::NotSupported && written(*final(dst)) == written(
            *old(dst),
        ),
{
    let held: usize = buffer_len(dst);
    let fits = match frame.body_len() {
        Some(n) => n <= isize::MAX as usize - 4 && held <= isize::MAX as usize - 4 - n,
        None => false,
    };
    if !fits {
        proof {
            crate::frame::buf::lemma_be_u32_round_trip(frame@.body_bytes().len() as u32);
        }
        return Err(Error::NotSupported);
    }
    frame.write_to(dst)
}

/// What the bytes received so far hold.
#[derive(Debug)]
pub enum Scan {
    /// Less than a whole frame: more bytes are needed.
    Incomplete,
    /// A whole frame in the first `len` bytes, and what decoding makes of
    /// it.
    Complete { len: usize, frame: Result<Frame, Error> },
}

/// What the bytes `s` hold: nothing yet where they are fewer than four or
/// fewer than the first four announce; else a frame, of the length that
/// the first four announce and four more.
pub open spec fn spec_scan(s: Seq<u8>) -> Option<(nat, Result<FrameView, ErrorView>)> {
    match spec_check_frame(s).0 {
        Err(_) => None,
        Ok(_) => Some(
            (spec_check_frame(s).1, spec_parse_frame(s.take(spec_check_frame(s).1 as int)).0),
        ),
    }
}

/// What the bytes received so far hold.
pub fn scan(buffer: &[u8]) -> (r: Scan)
    ensures
        match r {
            Scan::Incomplete => spec_scan(buffer@) is None,
            Scan::Complete { len, frame } => spec_scan(buffer@) == Some(
                (len as nat, result_view(frame)),
            ),
        },
{
    let mut probe = cursor_over(buffer);
    match Frame::check(&mut probe) {
        Ok(_) => {},
        Err(_) => {
            return Scan::Incomplete;
        },
    }
    let left: usize = crate::frame::buf::remaining(&probe);
    let len: usize = buffer.len() - left;
    let whole = vstd::slice::slice_subrange(buffer, 0, len);
    assert(whole@ =~= buffer@.take(len as int));
    let mut src = cursor_over(whole);
    let frame = Frame::parse(&mut src);
    Scan::Complete { len, frame }
}

/// How a stream ended.
#[derive(Debug, Clone, Copy, PartialEq, Eq, Structural)]
pub enum EndOfStream {
    /// Between two frames: the peer closed the connection in good order.
    Clean,
    /// Within a frame: the peer went away.
    Premature,
}

/// How a stream ended that left `buffered` bytes unused.
pub fn end_of_stream(buffered: usize) -> (r: EndOfStream)
    ensures
        r == (if buffered == 0 {
            EndOfStream::Clean
        } else {
            EndOfStream::Premature
        }),
{
    if buffered == 0 {
        EndOfStream::Clean
    } else {
        EndOfStream::Premature
    }
}

} // verus!
