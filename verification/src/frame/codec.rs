//! Whole frames: a 32-bit length, the header, and a payload whose shape the
//! header's type decides.
//!
//! The length counts every byte that follows it. The payload of a greeting
//! or of a farewell from the proxy is a key/value list, that of a
//! notification a list of messages, that of an acknowledgement a list of
//! actions.

use super::action::{
    actions_bytes, actions_encodable, lemma_actions_round_trip, lemma_parse_actions_used,
    parse_list_of_actions, spec_parse_list_of_actions, write_list_of_actions, Action, ActionView,
};
use super::buf::{
    advance, be_u32, buffer_bytes, buffer_len, get_u32, lemma_be_u32_round_trip, max_written,
    new_buffer, put_slice, put_u32, remaining, u32_be_bytes, unread, written,
};
use super::error::{
    Error, ErrorView, FrameError, FrameErrorView, FrameHeaderError, FramePayloadError,
    FramePayloadErrorView,
};
use super::header::{
    frame_header_bytes, lemma_frame_header_round_trip, lemma_parse_frame_header_used,
    parse_frame_header, spec_parse_frame_header, write_frame_header, FrameHeader, FrameType,
};
use super::kv::{
    kv_list_bytes, kv_list_encodable, kv_list_wf, lemma_kv_list_round_trip,
    lemma_parse_kv_list_used, lemma_parse_messages_used, parse_kv_list, parse_list_of_messages,
    spec_parse_kv_list, spec_parse_list_of_messages, write_kv_list, KVList, KVListView,
    ListOfMessages, ListOfMessagesView,
};
use bytes::BytesMut;
use std::io::Cursor;
use vstd::prelude::*;

verus! {

/// A frame of the protocol.
#[derive(Debug, Clone)]
pub enum Frame {
    HAProxyHello { header: FrameHeader, content: KVList },
    HAProxyDisconnect { header: FrameHeader, content: KVList },
    Notify { header: FrameHeader, messages: ListOfMessages },
    AgentHello { header: FrameHeader, content: KVList },
    AgentDisconnect { header: FrameHeader },
    Ack { header: FrameHeader, actions: Vec<Action> },
}

pub enum FrameView {
    HAProxyHello { header: FrameHeader, content: KVListView },
    HAProxyDisconnect { header: FrameHeader, content: KVListView },
    Notify { header: FrameHeader, messages: ListOfMessagesView },
    AgentHello { header: FrameHeader, content: KVListView },
    AgentDisconnect { header: FrameHeader },
    Ack { header: FrameHeader, actions: Seq<ActionView> },
}

impl View for Frame {
    type V = FrameView;

    open spec fn view(&self) -> FrameView {
        match *self {
            Frame::HAProxyHello { header, content } => FrameView::HAProxyHello {
                header,
                content: content.deep_view(),
            },
            Frame::HAProxyDisconnect { header, content } => FrameView::HAProxyDisconnect {
                header,
                content: content.deep_view(),
            },
            Frame::Notify { header, messages } => FrameView::Notify {
                header,
                messages: messages.deep_view(),
            },
            Frame::AgentHello { header, content } => FrameView::AgentHello {
                header,
                content: content.deep_view(),
            },
            Frame::AgentDisconnect { header } => FrameView::AgentDisconnect { header },
            Frame::Ack { header, actions } => FrameView::Ack {
                header,
                actions: actions.deep_view(),
            },
        }
    }
}

impl FrameView {
    /// The frame's header.
    pub open spec fn header(self) -> FrameHeader {
        match self {
            FrameView::HAProxyHello { header, .. } => header,
            FrameView::HAProxyDisconnect { header, .. } => header,
            FrameView::Notify { header, .. } => header,
            FrameView::AgentHello { header, .. } => header,
            FrameView::AgentDisconnect { header } => header,
            FrameView::Ack { header, .. } => header,
        }
    }

    /// The encoding of the payload. Only a greeting from the agent and an
    /// acknowledgement are ever encoded; for every other frame this is
    /// empty.
    pub open spec fn payload_bytes(self) -> Seq<u8> {
        match self {
            FrameView::AgentHello { content, .. } => kv_list_bytes(content),
            FrameView::Ack { actions, .. } => actions_bytes(actions),
            _ => Seq::empty(),
        }
    }

    /// What follows the length: the header and the payload. For a frame
    /// that is never encoded this is empty.
    pub open spec fn body_bytes(self) -> Seq<u8> {
        if self is AgentHello || self is Ack {
            frame_header_bytes(self.header()) + self.payload_bytes()
        } else {
            Seq::empty()
        }
    }

    /// Whether the frame can be encoded: it is a greeting from the agent or
    /// an acknowledgement, every value in it can be encoded, and the length
    /// of what follows the length fits in 32 bits.
    pub open spec fn encodable(self) -> bool {
        &&& match self {
            FrameView::AgentHello { content, .. } => kv_list_encodable(content),
            FrameView::Ack { actions, .. } => actions_encodable(actions),
            _ => false,
        }
        &&& self.body_bytes().len() <= u32::MAX
    }

    /// The encoding of a frame that can be encoded: the length of the body,
    /// then the body.
    pub open spec fn bytes(self) -> Seq<u8> {
        u32_be_bytes(self.body_bytes().len() as u32) + self.body_bytes()
    }

    /// What holds of the view of every frame in memory, as far as encoding
    /// looks at it.
    pub open spec fn wf(self) -> bool {
        match self {
            FrameView::AgentHello { content, .. } => kv_list_wf(content),
            FrameView::Ack { actions, .. } => forall|i: int|
                0 <= i < actions.len() ==> (#[trigger] actions[i]).wf(),
            _ => true,
        }
    }

    /// The type that the header of a frame of this kind has.
    pub open spec fn kind(self) -> FrameType {
        match self {
            FrameView::HAProxyHello { .. } => FrameType::HAPROXY_HELLO,
            FrameView::HAProxyDisconnect { .. } => FrameType::HAPROXY_DISCONNECT,
            FrameView::Notify { .. } => FrameType::NOTIFY,
            FrameView::AgentHello { .. } => FrameType::AGENT_HELLO,
            FrameView::AgentDisconnect { .. } => FrameType::AGENT_DISCONNECT,
            FrameView::Ack { .. } => FrameType::ACK,
        }
    }
}

/// What decoding makes of the bytes `s` as the payload that follows
/// `header`: the frame or the error, and how many bytes it reads.
pub open spec fn spec_parse_frame_payload(s: Seq<u8>, header: FrameHeader) -> (
    Result<FrameView, FramePayloadErrorView>,
    nat,
) {
    match header.frame_type {
        FrameType::HAPROXY_HELLO => {
            let body = spec_parse_kv_list(s);
            match body.0 {
                Ok(content) => (Ok(FrameView::HAProxyHello { header, content }), body.1),
                Err(e) => (Err(FramePayloadErrorView::InvalidKVList(e)), body.1),
            }
        },
        FrameType::AGENT_HELLO => {
            let body = spec_parse_kv_list(s);
            match body.0 {
                Ok(content) => (Ok(FrameView::AgentHello { header, content }), body.1),
                Err(e) => (Err(FramePayloadErrorView::InvalidKVList(e)), body.1),
            }
        },
        FrameType::HAPROXY_DISCONNECT => {
            let body = spec_parse_kv_list(s);
            match body.0 {
                Ok(content) => (Ok(FrameView::HAProxyDisconnect { header, content }), body.1),
                Err(e) => (Err(FramePayloadErrorView::InvalidKVList(e)), body.1),
            }
        },
        FrameType::NOTIFY => {
            let body = spec_parse_list_of_messages(s);
            match body.0 {
                Ok(messages) => (Ok(FrameView::Notify { header, messages }), body.1),
                Err(e) => (Err(FramePayloadErrorView::InvalidListOfMessages(e)), body.1),
            }
        },
        FrameType::ACK => {
            let body = spec_parse_list_of_actions(s);
            match body.0 {
                Ok(actions) => (Ok(FrameView::Ack { header, actions }), body.1),
                Err(e) => (Err(FramePayloadErrorView::InvalidListOfActions(e)), body.1),
            }
        },
        _ => (Err(FramePayloadErrorView::NotSupported(header.frame_type)), 0),
    }
}

/// What `Frame::check` makes of the bytes `s`: whether a whole frame is
/// there, and how many bytes the check passes over.
pub open spec fn spec_check_frame(s: Seq<u8>) -> (Result<(), ErrorView>, nat) {
    if s.len() < 4 {
        (Err(ErrorView::Incomplete), 0)
    } else if s.len() - 4 < be_u32(s.take(4)) {
        (Err(ErrorView::Incomplete), 4)
    } else {
        (Ok(()), (4 + be_u32(s.take(4))) as nat)
    }
}

/// What decoding makes of the bytes `body`, which follow the length: the
/// header, then the payload that the header's type asks for. A header
/// without the flag for a whole payload is refused.
pub open spec fn spec_parse_frame_body(body: Seq<u8>) -> (Result<FrameView, ErrorView>, nat) {
    let head = spec_parse_frame_header(body);
    match head.0 {
        Err(e) => (Err(ErrorView::InvalidFrame(FrameErrorView::InvalidFrameHeader(e))), head.1),
        Ok(header) => if !header.flags.spec_is_fin() {
            (Err(ErrorView::FragmentedModeNotSupported), head.1)
        } else {
            let payload = spec_parse_frame_payload(body.skip(head.1 as int), header);
            match payload.0 {
                Err(e) => (
                    Err(ErrorView::InvalidFrame(FrameErrorView::InvalidFramePayload(e))),
                    head.1 + payload.1,
                ),
                Ok(frame) => (Ok(frame), head.1 + payload.1),
            }
        },
    }
}

/// What decoding makes of the bytes `s` as one frame: the frame or the
/// error, and how many bytes it reads. The first four bytes must announce
/// exactly as many bytes as follow them.
pub open spec fn spec_parse_frame(s: Seq<u8>) -> (Result<FrameView, ErrorView>, nat) {
    if s.len() < 4 {
        (Err(ErrorView::Incomplete), 0)
    } else {
        let len = be_u32(s.take(4));
        let body = s.skip(4);
        if len != body.len() {
            (
                Err(
                    ErrorView::InvalidCursor {
                        expected: len as usize,
                        remaining: body.len() as usize,
                    },
                ),
                4,
            )
        } else {
            (spec_parse_frame_body(body).0, 4 + spec_parse_frame_body(body).1)
        }
    }
}

/// Decoding a payload never reads more than there is.
pub proof fn lemma_parse_frame_payload_used(s: Seq<u8>, header: FrameHeader)
    ensures
        spec_parse_frame_payload(s, header).1 <= s.len(),
{
    lemma_parse_kv_list_used(s, Seq::empty());
    lemma_parse_messages_used(s, Seq::empty());
    lemma_parse_actions_used(s, Seq::empty());
}

/// Whether the bytes `after` are the bytes `before` with one frame added
/// whose first four bytes, read as a big-endian number, count the bytes
/// that follow them.
pub open spec fn frame_appended(before: Seq<u8>, after: Seq<u8>) -> bool {
    &&& after.len() >= before.len() + 4
    &&& after.take(before.len() as int) == before
    &&& be_u32(after.subrange(before.len() as int, before.len() as int + 4)) == after.len()
        - before.len() - 4
}

/// Adding the encoding of a frame to some bytes keeps them, and the four
/// bytes that come next count the bytes that follow.
pub proof fn lemma_frame_appended(before: Seq<u8>, f: FrameView)
    requires
        f.encodable(),
    ensures
        frame_appended(before, before + f.bytes()),
{
    let after = before + f.bytes();
    lemma_frame_length_prefix(f);
    assert(after.take(before.len() as int) =~= before);
    assert(after.subrange(before.len() as int, before.len() as int + 4) =~= f.bytes().take(4));
}

/// In every frame that is written, the first four bytes, read as a
/// big-endian number, count the bytes that follow them.
pub proof fn lemma_frame_length_prefix(f: FrameView)
    requires
        f.encodable(),
    ensures
        f.bytes().len() >= 4,
        be_u32(f.bytes().take(4)) == f.bytes().len() - 4,
{
    let n = f.body_bytes().len() as u32;
    lemma_be_u32_round_trip(n);
    assert(f.bytes().take(4) =~= u32_be_bytes(n));
}

/// Decoding the payload of a frame that can be encoded undoes encoding
/// it.
proof fn lemma_payload_round_trip(f: FrameView)
    requires
        f.wf(),
        f.encodable(),
        f.header().frame_type == f.kind(),
    ensures
        spec_parse_frame_payload(f.payload_bytes(), f.header()) == (
            Ok::<FrameView, FramePayloadErrorView>(f),
            f.payload_bytes().len(),
        ),
{
    match f {
        FrameView::AgentHello { header: _, content } => {
            lemma_kv_list_round_trip(content, Seq::empty());
            assert(Seq::<(Seq<char>, super::typed_data::TypedDataView)>::empty() + content
                =~= content);
        },
        FrameView::Ack { header: _, actions } => {
            assert forall|i: int| 0 <= i < actions.len() implies (#[trigger] actions[i]).wf()
                && actions[i].encodable() by {}
            lemma_actions_round_trip(actions, Seq::empty());
            assert(Seq::<ActionView>::empty() + actions =~= actions);
        },
        _ => {},
    }
}

/// Decoding a frame undoes encoding it: a greeting from the agent comes
/// back with its pairs in order, an acknowledgement with its actions in
/// order, and all the bytes are read. This holds of every frame that can
/// be encoded and whose header has the type of the frame and the flag for
/// a whole payload.
pub proof fn lemma_frame_round_trip(f: FrameView)
    requires
        f.wf(),
        f.encodable(),
        f.header().frame_type == f.kind(),
        f.header().flags.spec_is_fin(),
    ensures
        spec_parse_frame(f.bytes()) == (Ok::<FrameView, ErrorView>(f), f.bytes().len()),
{
    let s = f.bytes();
    let header = f.header();
    let head = frame_header_bytes(header);
    let payload = f.payload_bytes();
    let body = head + payload;
    assert(f.body_bytes() == body);
    lemma_frame_length_prefix(f);
    assert(s.skip(4) =~= body);
    assert(s.len() == 4 + body.len());
    assert(body.skip(head.len() as int) =~= payload);
    lemma_frame_header_round_trip(header, payload);
    lemma_payload_round_trip(f);
}

/// Decodes the payload that follows `frame_header` from `src`, which it
/// reads to the end.
///
/// Fails with `NotSupported` where the header's type is `UNSET` or
/// `AGENT_DISCONNECT`, and else with the error of the payload's list where
/// that does not decode.
pub fn parse_frame_payload(src: &mut Cursor<&[u8]>, frame_header: &FrameHeader) -> (r: Result<
    Frame,
    FramePayloadError,
>)
    ensures
        super::error::result_view(r) == spec_parse_frame_payload(
            unread(*old(src)),
            *frame_header,
        ).0,
        unread(*final(src)) == unread(*old(src)).skip(
            spec_parse_frame_payload(unread(*old(src)), *frame_header).1 as int,
        ),
{
    let header: FrameHeader = *frame_header;
    match frame_header.frame_type {
        FrameType::HAPROXY_HELLO => match parse_kv_list(src) {
            Ok(content) => Ok(Frame::HAProxyHello { header, content }),
            Err(e) => Err(FramePayloadError::InvalidKVList(e)),
        },
        FrameType::AGENT_HELLO => match parse_kv_list(src) {
            Ok(content) => Ok(Frame::AgentHello { header, content }),
            Err(e) => Err(FramePayloadError::InvalidKVList(e)),
        },
        FrameType::HAPROXY_DISCONNECT => match parse_kv_list(src) {
            Ok(content) => Ok(Frame::HAProxyDisconnect { header, content }),
            Err(e) => Err(FramePayloadError::InvalidKVList(e)),
        },
        FrameType::NOTIFY => match parse_list_of_messages(src) {
            Ok(messages) => Ok(Frame::Notify { header, messages }),
            Err(e) => Err(FramePayloadError::InvalidListOfMessages(e)),
        },
        FrameType::ACK => match parse_list_of_actions(src) {
            Ok(actions) => Ok(Frame::Ack { header, actions }),
            Err(e) => Err(FramePayloadError::InvalidListOfActions(e)),
        },
        _ => {
            assert(unread(*src).skip(0) =~= unread(*src));
            Err(FramePayloadError::NotSupported(frame_header.frame_type))
        },
    }
}

/// Decoding what follows the length never reads more than there is.
pub proof fn lemma_parse_frame_body_used(body: Seq<u8>)
    ensures
        spec_parse_frame_body(body).1 <= body.len(),
{
    lemma_parse_frame_header_used(body);
    let head = spec_parse_frame_header(body);
    if head.0 is Ok {
        lemma_parse_frame_payload_used(body.skip(head.1 as int), head.0->Ok_0);
    }
}

/// Decodes what follows the length: the header, then the payload.
fn parse_frame_body(src: &mut Cursor<&[u8]>) -> (r: Result<Frame, Error>)
    ensures
        super::error::result_view(r) == spec_parse_frame_body(unread(*old(src))).0,
        unread(*final(src)) == unread(*old(src)).skip(
            spec_parse_frame_body(unread(*old(src))).1 as int,
        ),
{
    let ghost body = unread(*src);
    let ghost n1: int = spec_parse_frame_header(body).1 as int;
    proof {
        lemma_parse_frame_header_used(body);
    }
    let frame_header: FrameHeader = match parse_frame_header(src) {
        Ok(h) => h,
        Err(e) => {
            return Err(Error::InvalidFrame(FrameError::InvalidFrameHeader(e)));
        },
    };
    if !frame_header.flags.is_fin() {
        return Err(Error::FragmentedModeNotSupported);
    }
    let ghost n2: int = spec_parse_frame_payload(body.skip(n1), frame_header).1 as int;
    proof {
        lemma_parse_frame_payload_used(body.skip(n1), frame_header);
        assert(body.skip(n1).skip(n2) =~= body.skip(n1 + n2));
    }
    match parse_frame_payload(src, &frame_header) {
        Ok(frame) => Ok(frame),
        Err(e) => Err(Error::InvalidFrame(FrameError::InvalidFramePayload(e))),
    }
}

impl Frame {
    /// Tells whether `src` holds a whole frame, and passes over it.
    ///
    /// Fails with `Incomplete` where fewer than four bytes are left, which
    /// are then left alone, or fewer after them than they announce, in
    /// which case only the four are passed over.
    pub fn check(src: &mut Cursor<&[u8]>) -> (r: Result<(), Error>)
        ensures
            super::error::err_view(r) == spec_check_frame(unread(*old(src))).0,
            unread(*final(src)) == unread(*old(src)).skip(
                spec_check_frame(unread(*old(src))).1 as int,
            ),
    {
        let ghost s0 = unread(*src);
        if remaining(src) < 4 {
            assert(s0.skip(0) =~= s0);
            return Err(Error::Incomplete);
        }
        let len: u32 = get_u32(src);
        if remaining(src) < len as usize {
            return Err(Error::Incomplete);
        }
        advance(src, len as usize);
        assert(s0.skip(4).skip(len as int) =~= s0.skip(4 + len));
        Ok(())
    }

    /// Decodes one frame from `src`, which must hold that frame and nothing
    /// after it.
    ///
    /// Fails with `Incomplete` where fewer than four bytes are left, with
    /// `InvalidCursor` where the bytes after the length are not as many as
    /// it announces, with `FragmentedModeNotSupported` where the header
    /// lacks the flag for a whole payload, and with `InvalidFrame` where
    /// the header or the payload does not decode.
    pub fn parse(src: &mut Cursor<&[u8]>) -> (r: Result<Frame, Error>)
        ensures
            super::error::result_view(r) == spec_parse_frame(unread(*old(src))).0,
            unread(*final(src)) == unread(*old(src)).skip(
                spec_parse_frame(unread(*old(src))).1 as int,
            ),
    {
        let ghost s0 = unread(*src);
        if remaining(src) < 4 {
            assert(s0.skip(0) =~= s0);
            return Err(Error::Incomplete);
        }
        let len: usize = get_u32(src) as usize;
        let left: usize = remaining(src);
        if len != left {
            return Err(Error::InvalidCursor { expected: len, remaining: left });
        }
        let ghost body = s0.skip(4);
        let ghost used: int = spec_parse_frame_body(body).1 as int;
        proof {
            lemma_parse_frame_body_used(body);
            assert(body.skip(used) =~= s0.skip(4 + used));
        }
        parse_frame_body(src)
    }

    /// Appends the encoding of the frame to `dst`: the length of what
    /// follows, the header, the payload.
    ///
    /// Fails with `NotSupported`, and leaves `dst` as it was, where the
    /// frame is neither a greeting from the agent nor an acknowledgement,
    /// where it holds a value that cannot be encoded, and where what
    /// follows the length is too long for the length to say.
    pub fn write_to(&self, dst: &mut BytesMut) -> (r: Result<(), Error>)
        requires
            written(*old(dst)).len() + 4 + self@.body_bytes().len() <= max_written(),
        ensures
            r is Ok <==> self@.encodable(),
            r is Ok ==> written(*final(dst)) == written(*old(dst)) + self@.bytes(),
            r is Ok ==> frame_appended(written(*old(dst)), written(*final(dst))),
            r matches Err(e) ==> e@ == ErrorView::NotSupported && written(*final(dst)) == written(
                *old(dst),
            ),
    {
        let ghost w0 = written(*dst);
        proof {
            if self@.encodable() {
                lemma_frame_appended(w0, self@);
            }
        }
        let mut body: BytesMut = new_buffer();
        match self {
            Frame::AgentHello { header, content } => {
                assert((frame_header_bytes(*header) + kv_list_bytes(content.deep_view())).len()
                    == self@.body_bytes().len());
                let _ = write_frame_header(&mut body, header);
                match write_kv_list(&mut body, content) {
                    Ok(_) => {},
                    Err(e) => {
                        return Err(e);
                    },
                }
                assert(written(body) =~= self@.body_bytes());
            },
            Frame::Ack { header, actions } => {
                assert((frame_header_bytes(*header) + actions_bytes(actions.deep_view())).len()
                    == self@.body_bytes().len());
                let _ = write_frame_header(&mut body, header);
                match write_list_of_actions(&mut body, actions) {
                    Ok(_) => {},
                    Err(e) => {
                        return Err(e);
                    },
                }
                assert(written(body) =~= self@.body_bytes());
            },
            _ => {
                return Err(Error::NotSupported);
            },
        }
        let len: usize = buffer_len(&body);
        if len > u32::MAX as usize {
            return Err(Error::NotSupported);
        }
        put_u32(dst, len as u32);
        put_slice(dst, buffer_bytes(&body));
        assert(written(*dst) =~= w0 + self@.bytes());
        Ok(())
    }

    /// The frame's header.
    pub fn frame_header(&self) -> (h: &FrameHeader)
        ensures
            *h == self@.header(),
    {
        match self {
            Frame::HAProxyHello { header, content: _ } => header,
            Frame::HAProxyDisconnect { header, content: _ } => header,
            Frame::Notify { header, messages: _ } => header,
            Frame::AgentHello { header, content: _ } => header,
            Frame::AgentDisconnect { header } => header,
            Frame::Ack { header, actions: _ } => header,
        }
    }
}

} // verus!
