//! The wire format: variable-length integers, typed values, key/value lists,
//! actions and frames, each with the byte sequence that stands for it.

pub mod action;
pub mod buf;
pub mod codec;
pub mod describe;
pub mod error;
pub mod header;
pub mod kv;
pub mod size;
pub mod text;
pub mod typed_data;
pub mod varint;

pub use self::action::{
    parse_action, parse_action_scope, parse_action_type, parse_list_of_actions, write_action,
    write_list_of_actions, Action, ActionType, ActionVarScope,
};
pub use self::buf::{unread, written};
pub use self::codec::{parse_frame_payload, Frame};
pub use self::error::{
    ActionError, Error, FrameError, FrameHeaderError, FramePayloadError, Ipv4Error, Ipv6Error,
    KVListError, ListOfActionsError, ListOfMessagesError, StringError, TypedDataError,
};
pub use self::header::{
    parse_frame_header, write_frame_header, FrameFlags, FrameHeader, FrameType,
};
pub use self::kv::{parse_kv_list, parse_list_of_messages, write_kv_list, KVList, ListOfMessages};
pub use self::size::{
    action_len, actions_len, frame_header_len, kv_list_len, string_len, typed_data_len, varint_len,
};
pub use self::text::{parse_string, write_string};
pub use self::typed_data::{parse_typed_data, write_typed_data, TypedData, TypedDataType};
pub use self::varint::{parse_varint, write_varint, VarintError};
