//! The rules of a connection: what the agent answers to each frame that the
//! proxy sends, and when the connection ends.
//!
//! A connection waits for the proxy's greeting, then runs until the proxy
//! says goodbye. The caller reads the frames, hands each to `handle_frame`
//! with the state of the connection, and does what comes back.

use crate::frame::action::{Action, ActionView};
use crate::frame::codec::{Frame, FrameView};
use crate::frame::error::{Error, ErrorView};
use crate::frame::header::{FrameHeader, FrameType};
use crate::frame::kv::{KVList, KVListView};
use crate::frame::typed_data::{TypedData, TypedDataView};
use vstd::prelude::*;
use vstd::string::StringExecFns;

verus! {

/// Where a connection stands.
#[derive(Debug, Clone, Copy, PartialEq, Eq, Structural)]
pub enum ConnectionState {
    /// Nothing was received yet; the proxy's greeting is due.
    AwaitingHello,
    /// Greetings were exchanged; notifications are answered.
    Running,
    /// The proxy said goodbye; nothing is answered any more.
    Terminated,
}

/// What to do about a frame that asks for something.
#[derive(Debug)]
pub enum Reaction {
    /// Send this frame.
    Reply(Frame),
    /// Hand the notification's messages to the dispatcher, and send what
    /// `handle_notify` makes of the actions that come back.
    Notify,
}

pub enum ReactionView {
    Reply(FrameView),
    Notify,
}

impl View for Reaction {
    type V = ReactionView;

    open spec fn view(&self) -> ReactionView {
        match *self {
            Reaction::Reply(f) => ReactionView::Reply(f@),
            Reaction::Notify => ReactionView::Notify,
        }
    }
}

/// What the agent says of itself in its greeting: the version of the
/// protocol, the largest frame it takes, and what it is capable of.
pub open spec fn spec_hello_content() -> KVListView {
    seq![
        ("version"@, TypedDataView::STRING("2.0"@)),
        ("max-frame-size"@, TypedDataView::UINT32(16380)),
        ("capabilities"@, TypedDataView::STRING("pipelining"@)),
    ]
}

/// The agent's greeting in answer to a frame with the header `inbound`.
pub open spec fn spec_agent_hello(inbound: FrameHeader) -> FrameView {
    FrameView::AgentHello {
        header: inbound.spec_reply_header(FrameType::AGENT_HELLO),
        content: spec_hello_content(),
    }
}

/// The acknowledgement of a frame with the header `inbound`.
pub open spec fn spec_ack(inbound: FrameHeader, actions: Seq<ActionView>) -> FrameView {
    FrameView::Ack { header: inbound.spec_reply_header(FrameType::ACK), actions }
}

/// The state after a frame, and what to do about the frame.
///
/// The proxy's goodbye ends the connection in whatever state it comes,
/// and is answered with `Disconnect`. Its greeting is answered once, while
/// it is due. A notification is answered while the connection runs.
/// Everything else is answered with `NotSupported` and changes nothing:
/// the caller sends nothing and goes on.
pub open spec fn spec_handle_frame(state: ConnectionState, frame: FrameView) -> (
    ConnectionState,
    Result<ReactionView, ErrorView>,
) {
    match frame {
        FrameView::HAProxyDisconnect { .. } => (
            ConnectionState::Terminated,
            Err(ErrorView::Disconnect),
        ),
        FrameView::HAProxyHello { header, .. } => if state is AwaitingHello {
            (ConnectionState::Running, Ok(ReactionView::Reply(spec_agent_hello(header))))
        } else {
            (state, Err(ErrorView::NotSupported))
        },
        FrameView::Notify { .. } => if state is Running {
            (state, Ok(ReactionView::Notify))
        } else {
            (state, Err(ErrorView::NotSupported))
        },
        _ => (state, Err(ErrorView::NotSupported)),
    }
}

/// The proxy's goodbye is answered with `Disconnect` in every state, and
/// leaves the connection ended.
pub proof fn lemma_goodbye_in_any_state(state: ConnectionState, frame: FrameView)
    requires
        frame is HAProxyDisconnect,
    ensures
        spec_handle_frame(state, frame) == (
            ConnectionState::Terminated,
            Err::<ReactionView, ErrorView>(ErrorView::Disconnect),
        ),
{
}

/// Once the connection has ended it stays ended, and nothing is sent.
pub proof fn lemma_ended_stays_ended(frame: FrameView)
    ensures
        spec_handle_frame(ConnectionState::Terminated, frame).0 == ConnectionState::Terminated,
        spec_handle_frame(ConnectionState::Terminated, frame).1 is Err,
{
}

/// Every reply carries the stream and frame identifiers of the frame it
/// answers, has the flag for a whole payload set and the flag for giving up
/// clear.
pub proof fn lemma_reply_header(inbound: FrameHeader, actions: Seq<ActionView>)
    ensures
        spec_agent_hello(inbound).header().stream_id == inbound.stream_id,
        spec_agent_hello(inbound).header().frame_id == inbound.frame_id,
        spec_agent_hello(inbound).header().flags.spec_is_fin(),
        !spec_agent_hello(inbound).header().flags.spec_is_abort(),
        spec_ack(inbound, actions).header().stream_id == inbound.stream_id,
        spec_ack(inbound, actions).header().frame_id == inbound.frame_id,
        spec_ack(inbound, actions).header().flags.spec_is_fin(),
        !spec_ack(inbound, actions).header().flags.spec_is_abort(),
{
}

/// Whatever `handle_frame` says to send is a reply to the frame it was
/// given: it carries that frame's stream and frame identifiers, has the
/// flag for a whole payload set and the flag for giving up clear.
pub proof fn lemma_replies_obey_header_law(state: ConnectionState, frame: FrameView)
    ensures
        spec_handle_frame(state, frame).1 matches Ok(ReactionView::Reply(reply)) ==> {
            &&& reply.header().stream_id == frame.header().stream_id
            &&& reply.header().frame_id == frame.header().frame_id
            &&& reply.header().flags.spec_is_fin()
            &&& !reply.header().flags.spec_is_abort()
        },
{
}

/// What the agent says of itself in its greeting.
pub fn hello_content() -> (content: KVList)
    ensures
        content.deep_view() == spec_hello_content(),
{
    let mut content: KVList = Vec::new();
    content.push((String::from_str("version"), TypedData::STRING(String::from_str("2.0"))));
    content.push((String::from_str("max-frame-size"), TypedData::UINT32(16380u32)));
    content.push(
        (String::from_str("capabilities"), TypedData::STRING(String::from_str("pipelining"))),
    );
    assert(content.deep_view() =~= spec_hello_content());
    content
}

/// The state after a frame, and what to do about the frame.
pub fn handle_frame(state: ConnectionState, frame: &Frame) -> (r: (
    ConnectionState,
    Result<Reaction, Error>,
))
    ensures
        r.0 == spec_handle_frame(state, frame@).0,
        crate::frame::error::result_view(r.1) == spec_handle_frame(state, frame@).1,
{
    match frame {
        Frame::HAProxyDisconnect { header: _, content: _ } => (
            ConnectionState::Terminated,
            Err(Error::Disconnect),
        ),
        Frame::HAProxyHello { header, content: _ } => match state {
            ConnectionState::AwaitingHello => (
                ConnectionState::Running,
                Ok(
                    Reaction::Reply(
                        Frame::AgentHello {
                            header: header.reply_header(&FrameType::AGENT_HELLO),
                            content: hello_content(),
                        },
                    ),
                ),
            ),
            _ => (state, Err(Error::NotSupported)),
        },
        Frame::Notify { header: _, messages: _ } => match state {
            ConnectionState::Running => (state, Ok(Reaction::Notify)),
            _ => (state, Err(Error::NotSupported)),
        },
        _ => (state, Err(Error::NotSupported)),
    }
}

/// Whether a connection goes on after an error.
#[derive(Debug, Clone, Copy, PartialEq, Eq, Structural)]
pub enum Next {
    /// The error concerns one frame: pass over it and go on.
    Continue,
    /// The connection is over: stop serving it.
    Stop,
}

/// Whether a connection goes on after the error `e`: it ends where the
/// transport failed and where the peer said goodbye, and goes on after
/// every other error.
pub open spec fn spec_after_error(e: ErrorView) -> Next {
    if e is IO || e is Disconnect {
        Next::Stop
    } else {
        Next::Continue
    }
}

/// Whether a connection goes on after the error `e`.
pub fn after_error(e: &Error) -> (n: Next)
    ensures
        n == spec_after_error(e@),
        n == (if e is IO || e is Disconnect {
            Next::Stop
        } else {
            Next::Continue
        }),
{
    match e {
        Error::IO(_) => Next::Stop,
        Error::Disconnect => Next::Stop,
        _ => Next::Continue,
    }
}

/// The acknowledgement of a notification with the header `header`: it
/// carries the actions that the dispatcher came back with, and none where
/// it came back with nothing.
pub fn handle_notify(header: &FrameHeader, actions: Option<Vec<Action>>) -> (r: Frame)
    ensures
        r@ == spec_ack(
            *header,
            match actions {
                Some(a) => a.deep_view(),
                None => Seq::empty(),
            },
        ),
{
    let actions: Vec<Action> = match actions {
        Some(a) => a,
        None => {
            let none: Vec<Action> = Vec::new();
            assert(none.deep_view() =~= Seq::<ActionView>::empty());
            none
        },
    };
    Frame::Ack { header: header.reply_header(&FrameType::ACK), actions }
}

} // verus!
