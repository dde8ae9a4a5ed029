//! How many bytes an encoding takes, found without writing it.

use super::action::{action_bytes, actions_bytes, Action};
use super::codec::Frame;
use super::header::{frame_header_bytes, FrameHeader};
use super::kv::{kv_bytes, kv_list_bytes, KVList};
use super::text::string_bytes;
use super::typed_data::{i32_bits, signed_as_u64, typed_data_bytes, TypedData};
use super::varint::{lemma_varint_round_trip, varint_bytes, varint_tail};
use vstd::prelude::*;

verus! {

/// A length as a machine word, where it is one.
pub open spec fn as_word(n: nat) -> Option<usize> {
    if n <= usize::MAX {
        Some(n as usize)
    } else {
        None
    }
}

/// The sum of two lengths, where both are machine words and so is the sum.
fn sum(a: Option<usize>, b: Option<usize>) -> (r: Option<usize>)
    ensures
        r == match (a, b) {
            (Some(x), Some(y)) => as_word((x + y) as nat),
            _ => None,
        },
{
    match (a, b) {
        (Some(x), Some(y)) => x.checked_add(y),
        _ => None,
    }
}

/// The length of the encoding of a number.
pub fn varint_len(value: u64) -> (n: usize)
    ensures
        n == varint_bytes(value).len(),
        1 <= n <= 10,
{
    proof {
        lemma_varint_round_trip(value, Seq::empty());
    }
    if value < 240 {
        return 1;
    }
    assert(((value - 240) as u64) >> 4 == (value - 240) as u64 / 16) by (bit_vector);
    let mut left: u64 = (value - 240) >> 4;
    let mut n: usize = 2;
    while left >= 128
        invariant
            2 <= n,
            n + varint_tail(left as nat).len() == 1 + varint_bytes(value).len(),
            varint_bytes(value).len() <= 10,
        decreases left,
    {
        assert(((left - 128) as u64) >> 7 == (left - 128) as u64 / 128) by (bit_vector)
            requires
                left >= 128,
        ;
        left = (left - 128) >> 7;
        n = n + 1;
    }
    n
}

/// The length of the encoding of a string.
pub fn string_len(value: &String) -> (n: Option<usize>)
    ensures
        n == as_word(string_bytes(value@).len()),
{
    let len: usize = value.as_str().as_bytes().len();
    sum(Some(varint_len(len as u64)), Some(len))
}

/// The length of the encoding of a typed value.
pub fn typed_data_len(value: &TypedData) -> (n: Option<usize>)
    ensures
        n == as_word(typed_data_bytes(value@).len()),
{
    match value {
        TypedData::NULL => Some(1),
        TypedData::BOOL(_) => Some(1),
        TypedData::INT32(v) => {
            let n: i32 = *v;
            assert(n as u32 == i32_bits(n)) by (bit_vector);
            Some(1 + varint_len(n as u32 as u64))
        },
        TypedData::UINT32(v) => Some(1 + varint_len(*v as u64)),
        TypedData::INT64(v) => {
            let n: i64 = *v;
            assert(n as u64 == signed_as_u64(n as int)) by (bit_vector);
            Some(1 + varint_len(n as u64))
        },
        TypedData::UINT64(v) => Some(1 + varint_len(*v)),
        TypedData::IPV4(_) => Some(5),
        TypedData::IPV6(_) => Some(17),
        TypedData::STRING(s) => sum(Some(1), string_len(s)),
        TypedData::BINARY(_) => Some(1),
    }
}

/// Whether a typed value can be encoded.
pub fn typed_data_encodable(value: &TypedData) -> (r: bool)
    ensures
        r == value@.encodable(),
{
    match value {
        TypedData::BINARY(_) => false,
        _ => true,
    }
}

/// The length of the encoding of a key/value list.
pub fn kv_list_len(list: &KVList) -> (n: Option<usize>)
    ensures
        n == as_word(kv_list_bytes(list.deep_view()).len()),
{
    let ghost l = list.deep_view();
    let mut total: Option<usize> = Some(0);
    let ghost mut done: nat = 0;
    let mut i: usize = 0;
    assert(l.skip(0) =~= l);
    while i < list.len()
        invariant
            i <= list.len(),
            l == list.deep_view(),
            l.len() == list.len(),
            total == as_word(done),
            kv_list_bytes(l).len() == done + kv_list_bytes(l.skip(i as int)).len(),
        decreases list.len() - i,
    {
        let ghost rest = l.skip(i as int);
        let pair = &list[i];
        proof {
            assert(rest[0] == (pair.0@, pair.1@));
            assert(rest.skip(1) =~= l.skip(i as int + 1));
        }
        total = sum(total, sum(string_len(&pair.0), typed_data_len(&pair.1)));
        proof {
            done = done + kv_bytes(rest[0]).len();
        }
        if !typed_data_encodable(&pair.1) {
            return total;
        }
        i = i + 1;
    }
    total
}

/// The length of the encoding of an action.
pub fn action_len(action: &Action) -> (n: Option<usize>)
    ensures
        n == as_word(action_bytes(action@).len()),
{
    match action {
        Action::SetVar { name, value, scope: _ } => sum(
            Some(3),
            sum(string_len(name), typed_data_len(value)),
        ),
        Action::UnsetVar { name, scope: _ } => sum(Some(3), string_len(name)),
    }
}

/// The length of the encoding of a list of actions.
pub fn actions_len(actions: &Vec<Action>) -> (n: Option<usize>)
    ensures
        n == as_word(actions_bytes(actions.deep_view()).len()),
{
    let ghost l = actions.deep_view();
    let mut total: Option<usize> = Some(0);
    let ghost mut done: nat = 0;
    let mut i: usize = 0;
    assert(l.skip(0) =~= l);
    while i < actions.len()
        invariant
            i <= actions.len(),
            l == actions.deep_view(),
            l.len() == actions.len(),
            total == as_word(done),
            actions_bytes(l).len() == done + actions_bytes(l.skip(i as int)).len(),
        decreases actions.len() - i,
    {
        let ghost rest = l.skip(i as int);
        let action = &actions[i];
        proof {
            assert(rest[0] == action@);
            assert(rest.skip(1) =~= l.skip(i as int + 1));
        }
        total = sum(total, action_len(action));
        proof {
            done = done + action_bytes(rest[0]).len();
        }
        let open = match action {
            Action::SetVar { value, .. } => typed_data_encodable(value),
            Action::UnsetVar { .. } => true,
        };
        if !open {
            return total;
        }
        i = i + 1;
    }
    total
}

/// The length of the encoding of a header.
pub fn frame_header_len(header: &FrameHeader) -> (n: usize)
    ensures
        n == frame_header_bytes(*header).len(),
        7 <= n <= 25,
{
    5 + varint_len(header.stream_id) + varint_len(header.frame_id)
}

impl Frame {
    /// The length of what follows the length in the frame's encoding:
    /// `None` where no machine word holds it.
    pub fn body_len(&self) -> (n: Option<usize>)
        ensures
            n == as_word(self@.body_bytes().len()),
    {
        match self {
            Frame::AgentHello { header, content } => sum(
                Some(frame_header_len(header)),
                kv_list_len(content),
            ),
            Frame::Ack { header, actions } => sum(
                Some(frame_header_len(header)),
                actions_len(actions),
            ),
            _ => Some(0),
        }
    }
}

} // verus!
