//! Key/value lists and lists of messages.
//!
//! A key/value list is a run of pairs, each a name as a string and a typed
//! value; it ends where its bytes end. Pairs keep their order, and a name
//! may occur more than once. A list of messages is a run of records, each a
//! message's name, one byte that counts its arguments, and that many pairs.

use super::buf::{get_u8, max_written, remaining, unread, written};
use super::error::{
    Error, ErrorView, KVListError, KVListErrorView, ListOfMessagesError, ListOfMessagesErrorView,
};
use super::text::{
    lemma_parse_string_used, lemma_string_round_trip, parse_string, spec_parse_string,
    string_bytes, write_string,
};
use super::typed_data::{
    lemma_parse_typed_data_used, lemma_typed_data_round_trip, parse_typed_data,
    spec_parse_typed_data, typed_data_bytes, write_typed_data, TypedData, TypedDataView,
};
use bytes::BytesMut;
use std::io::Cursor;
use vstd::prelude::*;
use vstd::utf8::encode_utf8;

verus! {

/// An ordered list of named values.
pub type KVList = Vec<(String, TypedData)>;

/// An ordered list of messages, each a name and its arguments.
pub type ListOfMessages = Vec<(String, KVList)>;

/// What a key/value list is in contracts.
pub type KVListView = Seq<(Seq<char>, TypedDataView)>;

/// What a list of messages is in contracts.
pub type ListOfMessagesView = Seq<(Seq<char>, KVListView)>;

/// What holds of the view of every pair in memory.
pub open spec fn kv_wf(p: (Seq<char>, TypedDataView)) -> bool {
    encode_utf8(p.0).len() <= usize::MAX && p.1.wf()
}

/// What holds of the view of every key/value list in memory.
pub open spec fn kv_list_wf(l: KVListView) -> bool {
    forall|i: int| 0 <= i < l.len() ==> kv_wf(#[trigger] l[i])
}

/// Whether every value of a list can be encoded.
pub open spec fn kv_list_encodable(l: KVListView) -> bool {
    forall|i: int| 0 <= i < l.len() ==> (#[trigger] l[i]).1.encodable()
}

/// The encoding of a pair: the name, then the value.
pub open spec fn kv_bytes(p: (Seq<char>, TypedDataView)) -> Seq<u8> {
    string_bytes(p.0) + typed_data_bytes(p.1)
}

/// The encoding of a key/value list, one pair after the other. It ends with
/// the first pair whose value cannot be encoded, if there is one.
pub open spec fn kv_list_bytes(l: KVListView) -> Seq<u8>
    decreases l.len(),
{
    if l.len() == 0 {
        Seq::empty()
    } else if !l[0].1.encodable() {
        kv_bytes(l[0])
    } else {
        kv_bytes(l[0]) + kv_list_bytes(l.skip(1))
    }
}

/// What decoding makes of the bytes `s` as one pair: on failure, whether it
/// was the name or the value that did not decode.
pub open spec fn spec_parse_kv(s: Seq<u8>) -> (
    Result<(Seq<char>, TypedDataView), KVListErrorView>,
    nat,
) {
    let name = spec_parse_string(s);
    match name.0 {
        Err(e) => (Err(KVListErrorView::InvalidKVListName(e)), name.1),
        Ok(k) => {
            let value = spec_parse_typed_data(s.skip(name.1 as int));
            match value.0 {
                Err(e) => (Err(KVListErrorView::InvalidKVListValue(e)), name.1 + value.1),
                Ok(v) => (Ok((k, v)), name.1 + value.1),
            }
        },
    }
}

/// Reads pairs until the input ends or one of them does not decode. `acc`
/// holds the pairs read so far.
pub open spec fn spec_parse_kv_list_from(s: Seq<u8>, acc: KVListView) -> (
    Result<KVListView, KVListErrorView>,
    nat,
)
    decreases s.len(),
{
    if s.len() == 0 {
        (Ok(acc), 0)
    } else {
        let first = spec_parse_kv(s);
        match first.0 {
            Err(e) => (Err(e), first.1),
            Ok(p) => if 0 < first.1 <= s.len() {
                let rest = spec_parse_kv_list_from(s.skip(first.1 as int), acc.push(p));
                (rest.0, first.1 + rest.1)
            } else {
                (Ok(acc), 0)
            },
        }
    }
}

/// What decoding makes of the bytes `s` as a key/value list that fills
/// them: the pairs in order, or the error of the first that does not
/// decode.
pub open spec fn spec_parse_kv_list(s: Seq<u8>) -> (Result<KVListView, KVListErrorView>, nat) {
    spec_parse_kv_list_from(s, Seq::empty())
}

/// The error of a pair, as a list of messages reports it.
pub open spec fn kv_error_in_message(e: KVListErrorView) -> ListOfMessagesErrorView {
    match e {
        KVListErrorView::InsufficientBytes => ListOfMessagesErrorView::InsufficientBytes,
        KVListErrorView::InvalidKVListName(e) => ListOfMessagesErrorView::InvalidKVListName(e),
        KVListErrorView::InvalidKVListValue(e) => ListOfMessagesErrorView::InvalidKVListValue(e),
    }
}

/// Reads `count` pairs, the arguments of one message. `acc` holds the pairs
/// read so far.
pub open spec fn spec_parse_args(s: Seq<u8>, count: nat, acc: KVListView) -> (
    Result<KVListView, ListOfMessagesErrorView>,
    nat,
)
    decreases count,
{
    if count == 0 {
        (Ok(acc), 0)
    } else {
        let first = spec_parse_kv(s);
        match first.0 {
            Err(e) => (Err(kv_error_in_message(e)), first.1),
            Ok(p) => {
                let rest = spec_parse_args(
                    s.skip(first.1 as int),
                    (count - 1) as nat,
                    acc.push(p),
                );
                (rest.0, first.1 + rest.1)
            },
        }
    }
}

/// What decoding makes of the bytes `s` as one message: its name, the byte
/// that counts its arguments, and the arguments.
pub open spec fn spec_parse_message(s: Seq<u8>) -> (
    Result<(Seq<char>, KVListView), ListOfMessagesErrorView>,
    nat,
) {
    let name = spec_parse_string(s);
    match name.0 {
        Err(e) => (Err(ListOfMessagesErrorView::InvalidMessageName(e)), name.1),
        Ok(n) => if s.len() <= name.1 {
            (Err(ListOfMessagesErrorView::InsufficientBytes), name.1)
        } else {
            let args = spec_parse_args(
                s.skip(name.1 as int + 1),
                s[name.1 as int] as nat,
                Seq::empty(),
            );
            match args.0 {
                Err(e) => (Err(e), name.1 + 1 + args.1),
                Ok(a) => (Ok((n, a)), name.1 + 1 + args.1),
            }
        },
    }
}

/// Reads messages until the input ends or one of them does not decode.
/// `acc` holds the messages read so far.
pub open spec fn spec_parse_messages_from(s: Seq<u8>, acc: ListOfMessagesView) -> (
    Result<ListOfMessagesView, ListOfMessagesErrorView>,
    nat,
)
    decreases s.len(),
{
    if s.len() == 0 {
        (Ok(acc), 0)
    } else {
        let first = spec_parse_message(s);
        match first.0 {
            Err(e) => (Err(e), first.1),
            Ok(m) => if 0 < first.1 <= s.len() {
                let rest = spec_parse_messages_from(s.skip(first.1 as int), acc.push(m));
                (rest.0, first.1 + rest.1)
            } else {
                (Ok(acc), 0)
            },
        }
    }
}

/// What decoding makes of the bytes `s` as a list of messages that fills
/// them: the messages in order, or the error of the first that does not
/// decode.
pub open spec fn spec_parse_list_of_messages(s: Seq<u8>) -> (
    Result<ListOfMessagesView, ListOfMessagesErrorView>,
    nat,
) {
    spec_parse_messages_from(s, Seq::empty())
}

/// Decoding a pair never reads more than there is, and reads at least one
/// byte where it succeeds.
pub proof fn lemma_parse_kv_used(s: Seq<u8>)
    ensures
        spec_parse_kv(s).1 <= s.len(),
        spec_parse_kv(s).0 is Ok ==> spec_parse_kv(s).1 >= 1,
{
    lemma_parse_string_used(s);
    lemma_parse_typed_data_used(s.skip(spec_parse_string(s).1 as int));
}

/// Decoding a key/value list never reads more than there is, and reads all
/// of it where it succeeds.
pub proof fn lemma_parse_kv_list_used(s: Seq<u8>, acc: KVListView)
    ensures
        spec_parse_kv_list_from(s, acc).1 <= s.len(),
        spec_parse_kv_list_from(s, acc).0 is Ok ==> spec_parse_kv_list_from(s, acc).1 == s.len(),
    decreases s.len(),
{
    if s.len() > 0 {
        lemma_parse_kv_used(s);
        let first = spec_parse_kv(s);
        if first.0 is Ok {
            lemma_parse_kv_list_used(s.skip(first.1 as int), acc.push(first.0->Ok_0));
        }
    }
}

/// Decoding the arguments of a message never reads more than there is.
pub proof fn lemma_parse_args_used(s: Seq<u8>, count: nat, acc: KVListView)
    ensures
        spec_parse_args(s, count, acc).1 <= s.len(),
    decreases count,
{
    if count > 0 {
        lemma_parse_kv_used(s);
        let first = spec_parse_kv(s);
        if first.0 is Ok {
            lemma_parse_args_used(
                s.skip(first.1 as int),
                (count - 1) as nat,
                acc.push(first.0->Ok_0),
            );
        }
    }
}

/// Decoding a message never reads more than there is, and reads at least
/// one byte where it succeeds.
pub proof fn lemma_parse_message_used(s: Seq<u8>)
    ensures
        spec_parse_message(s).1 <= s.len(),
        spec_parse_message(s).0 is Ok ==> spec_parse_message(s).1 >= 1,
{
    lemma_parse_string_used(s);
    let name = spec_parse_string(s);
    if name.0 is Ok && s.len() > name.1 {
        lemma_parse_args_used(s.skip(name.1 as int + 1), s[name.1 as int] as nat, Seq::empty());
    }
}

/// Decoding a list of messages never reads more than there is, and reads
/// all of it where it succeeds.
pub proof fn lemma_parse_messages_used(s: Seq<u8>, acc: ListOfMessagesView)
    ensures
        spec_parse_messages_from(s, acc).1 <= s.len(),
        spec_parse_messages_from(s, acc).0 is Ok ==> spec_parse_messages_from(s, acc).1
            == s.len(),
    decreases s.len(),
{
    if s.len() > 0 {
        lemma_parse_message_used(s);
        let first = spec_parse_message(s);
        if first.0 is Ok {
            lemma_parse_messages_used(s.skip(first.1 as int), acc.push(first.0->Ok_0));
        }
    }
}

/// Decoding a pair undoes encoding it, whatever follows the encoded bytes.
pub proof fn lemma_kv_round_trip(p: (Seq<char>, TypedDataView), rest: Seq<u8>)
    requires
        kv_wf(p),
        p.1.encodable(),
    ensures
        spec_parse_kv(kv_bytes(p) + rest) == (
            Ok::<(Seq<char>, TypedDataView), KVListErrorView>(p),
            kv_bytes(p).len(),
        ),
{
    let s = kv_bytes(p) + rest;
    let text = string_bytes(p.0);
    let data = typed_data_bytes(p.1);
    assert(s =~= text + (data + rest));
    lemma_string_round_trip(p.0, data + rest);
    assert(s.skip(text.len() as int) =~= data + rest);
    lemma_typed_data_round_trip(p.1, rest);
}

/// Decoding a key/value list undoes encoding it, and keeps the pairs in
/// order, with every name that occurs more than once.
pub proof fn lemma_kv_list_round_trip(l: KVListView, acc: KVListView)
    requires
        kv_list_wf(l),
        kv_list_encodable(l),
    ensures
        spec_parse_kv_list_from(kv_list_bytes(l), acc) == (
            Ok::<KVListView, KVListErrorView>(acc + l),
            kv_list_bytes(l).len(),
        ),
    decreases l.len(),
{
    if l.len() == 0 {
        assert(acc + l =~= acc);
    } else {
        let tail = kv_list_bytes(l.skip(1));
        assert(kv_wf(l[0]) && l[0].1.encodable());
        lemma_kv_round_trip(l[0], tail);
        lemma_parse_kv_used(kv_list_bytes(l));
        assert(kv_list_bytes(l).skip(kv_bytes(l[0]).len() as int) =~= tail);
        assert forall|i: int| 0 <= i < l.skip(1).len() implies kv_wf(#[trigger] l.skip(1)[i])
            && l.skip(1)[i].1.encodable() by {
            assert(l.skip(1)[i] == l[i + 1]);
        }
        lemma_kv_list_round_trip(l.skip(1), acc.push(l[0]));
        assert(acc.push(l[0]) + l.skip(1) =~= acc + l);
    }
}

/// Decodes one pair from the front of `src`.
fn parse_kv(src: &mut Cursor<&[u8]>) -> (r: Result<(String, TypedData), KVListError>)
    ensures
        match r {
            Ok(p) => spec_parse_kv(unread(*old(src))).0 == Ok::<
                (Seq<char>, TypedDataView),
                KVListErrorView,
            >((p.0@, p.1@)),
            Err(e) => spec_parse_kv(unread(*old(src))).0 == Err::<
                (Seq<char>, TypedDataView),
                KVListErrorView,
            >(e@),
        },
        unread(*final(src)) == unread(*old(src)).skip(spec_parse_kv(unread(*old(src))).1 as int),
{
    let ghost s0 = unread(*src);
    let ghost n1: int = spec_parse_string(s0).1 as int;
    let name = match parse_string(src) {
        Ok(name) => name,
        Err(e) => {
            return Err(KVListError::InvalidKVListName(e));
        },
    };
    let ghost n2: int = spec_parse_typed_data(s0.skip(n1)).1 as int;
    proof {
        lemma_parse_string_used(s0);
        lemma_parse_typed_data_used(s0.skip(n1));
        assert(s0.skip(n1).skip(n2) =~= s0.skip(n1 + n2));
    }
    match parse_typed_data(src) {
        Ok(value) => Ok((name, value)),
        Err(e) => Err(KVListError::InvalidKVListValue(e)),
    }
}

/// Decodes pairs from `src` until it is exhausted.
///
/// Fails at the first pair that does not decode: with `InvalidKVListName`
/// where it was the name, with `InvalidKVListValue` where it was the value.
pub fn parse_kv_list(src: &mut Cursor<&[u8]>) -> (r: Result<KVList, KVListError>)
    ensures
        match r {
            Ok(l) => spec_parse_kv_list(unread(*old(src))).0 == Ok::<KVListView, KVListErrorView>(
                l.deep_view(),
            ),
            Err(e) => spec_parse_kv_list(unread(*old(src))).0 == Err::<
                KVListView,
                KVListErrorView,
            >(e@),
        },
        unread(*final(src)) == unread(*old(src)).skip(
            spec_parse_kv_list(unread(*old(src))).1 as int,
        ),
{
    let ghost s0 = unread(*src);
    let ghost whole = spec_parse_kv_list(s0);
    let ghost mut used: int = 0;
    let mut body: KVList = Vec::new();
    assert(body.deep_view() =~= Seq::<(Seq<char>, TypedDataView)>::empty());
    assert(s0.skip(0) =~= s0);
    while remaining(src) > 0
        invariant
            s0 == unread(*old(src)),
            whole == spec_parse_kv_list(s0),
            0 <= used <= s0.len(),
            unread(*src) == s0.skip(used),
            whole.0 == spec_parse_kv_list_from(unread(*src), body.deep_view()).0,
            whole.1 == spec_parse_kv_list_from(unread(*src), body.deep_view()).1 + used,
        decreases s0.len() - used,
    {
        let ghost cur = unread(*src);
        let ghost before = body.deep_view();
        proof {
            lemma_parse_kv_used(cur);
        }
        let ghost n: int = spec_parse_kv(cur).1 as int;
        assert(cur.skip(n) =~= s0.skip(used + n));
        let pair = match parse_kv(src) {
            Ok(p) => p,
            Err(e) => {
                return Err(e);
            },
        };
        let ghost p = (pair.0@, pair.1@);
        body.push(pair);
        proof {
            assert(body.deep_view() =~= before.push(p));
            used = used + n;
        }
    }
    Ok(body)
}

/// Appends the encoding of a key/value list to `dst`, the pairs in order.
///
/// Fails with `NotSupported` at the first pair whose value cannot be
/// encoded, and writes nothing after it.
pub fn write_kv_list(dst: &mut BytesMut, list: &KVList) -> (r: Result<(), Error>)
    requires
        written(*old(dst)).len() + kv_list_bytes(list.deep_view()).len() <= max_written(),
    ensures
        r is Ok <==> kv_list_encodable(list.deep_view()),
        r matches Err(e) ==> e@ == ErrorView::NotSupported,
        written(*final(dst)) == written(*old(dst)) + kv_list_bytes(list.deep_view()),
{
    let ghost w0 = written(*dst);
    let ghost l = list.deep_view();
    let mut i: usize = 0;
    assert(l.skip(0) =~= l);
    while i < list.len()
        invariant
            i <= list.len(),
            w0 == written(*old(dst)),
            l == list.deep_view(),
            l.len() == list.len(),
            w0.len() + kv_list_bytes(l).len() <= max_written(),
            written(*dst) + kv_list_bytes(l.skip(i as int)) == w0 + kv_list_bytes(l),
            forall|k: int| 0 <= k < i ==> (#[trigger] l[k]).1.encodable(),
        decreases list.len() - i,
    {
        let ghost rest = l.skip(i as int);
        let ghost before = written(*dst);
        proof {
            assert(rest[0] == (list[i as int].0@, list[i as int].1@));
            assert(rest.skip(1) =~= l.skip(i as int + 1));
            assert((before + kv_list_bytes(rest)).len() == (w0 + kv_list_bytes(l)).len());
            assert(kv_list_bytes(rest).len() >= kv_bytes(rest[0]).len());
        }
        let pair = &list[i];
        let _ = write_string(dst, &pair.0);
        match write_typed_data(dst, &pair.1) {
            Ok(_) => {
                assert(before + string_bytes(rest[0].0) + typed_data_bytes(rest[0].1)
                    + kv_list_bytes(rest.skip(1)) =~= before + kv_list_bytes(rest));
            },
            Err(e) => {
                assert(!l[i as int].1.encodable());
                assert(before + string_bytes(rest[0].0) + typed_data_bytes(rest[0].1) =~= before
                    + kv_list_bytes(rest));
                return Err(e);
            },
        }
        i = i + 1;
    }
    assert(written(*dst) =~= w0 + kv_list_bytes(l));
    Ok(())
}

/// Decodes the `count` arguments of one message from the front of `src`.
fn parse_args(src: &mut Cursor<&[u8]>, count: u8) -> (r: Result<KVList, ListOfMessagesError>)
    ensures
        match r {
            Ok(l) => spec_parse_args(unread(*old(src)), count as nat, Seq::empty()).0 == Ok::<
                KVListView,
                ListOfMessagesErrorView,
            >(l.deep_view()),
            Err(e) => spec_parse_args(unread(*old(src)), count as nat, Seq::empty()).0 == Err::<
                KVListView,
                ListOfMessagesErrorView,
            >(e@),
        },
        unread(*final(src)) == unread(*old(src)).skip(
            spec_parse_args(unread(*old(src)), count as nat, Seq::empty()).1 as int,
        ),
{
    let ghost s0 = unread(*src);
    let ghost whole = spec_parse_args(s0, count as nat, Seq::empty());
    let ghost mut used: int = 0;
    let mut content: KVList = Vec::new();
    let mut done: u8 = 0;
    assert(content.deep_view() =~= Seq::<(Seq<char>, TypedDataView)>::empty());
    assert(s0.skip(0) =~= s0);
    while done < count
        invariant
            s0 == unread(*old(src)),
            whole == spec_parse_args(s0, count as nat, Seq::empty()),
            done <= count,
            0 <= used <= s0.len(),
            unread(*src) == s0.skip(used),
            whole.0 == spec_parse_args(
                unread(*src),
                (count - done) as nat,
                content.deep_view(),
            ).0,
            whole.1 == spec_parse_args(
                unread(*src),
                (count - done) as nat,
                content.deep_view(),
            ).1 + used,
        decreases count - done,
    {
        let ghost cur = unread(*src);
        let ghost before = content.deep_view();
        proof {
            lemma_parse_kv_used(cur);
        }
        let ghost n: int = spec_parse_kv(cur).1 as int;
        assert(cur.skip(n) =~= s0.skip(used + n));
        let pair = match parse_kv(src) {
            Ok(p) => p,
            Err(e) => {
                return Err(
                    match e {
                        KVListError::InsufficientBytes => ListOfMessagesError::InsufficientBytes,
                        KVListError::InvalidKVListName(e) => ListOfMessagesError::InvalidKVListName(
                            e,
                        ),
                        KVListError::InvalidKVListValue(e) => ListOfMessagesError::InvalidKVListValue(
                            e,
                        ),
                    },
                );
            },
        };
        let ghost p = (pair.0@, pair.1@);
        content.push(pair);
        proof {
            assert(content.deep_view() =~= before.push(p));
            used = used + n;
        }
        done = done + 1;
    }
    Ok(content)
}

/// Decodes one message from the front of `src`.
fn parse_message(src: &mut Cursor<&[u8]>) -> (r: Result<(String, KVList), ListOfMessagesError>)
    ensures
        match r {
            Ok(m) => spec_parse_message(unread(*old(src))).0 == Ok::<
                (Seq<char>, KVListView),
                ListOfMessagesErrorView,
            >((m.0@, m.1.deep_view())),
            Err(e) => spec_parse_message(unread(*old(src))).0 == Err::<
                (Seq<char>, KVListView),
                ListOfMessagesErrorView,
            >(e@),
        },
        unread(*final(src)) == unread(*old(src)).skip(
            spec_parse_message(unread(*old(src))).1 as int,
        ),
{
    let ghost s0 = unread(*src);
    let ghost n1: int = spec_parse_string(s0).1 as int;
    proof {
        lemma_parse_string_used(s0);
    }
    let name = match parse_string(src) {
        Ok(name) => name,
        Err(e) => {
            return Err(ListOfMessagesError::InvalidMessageName(e));
        },
    };
    if remaining(src) < 1 {
        return Err(ListOfMessagesError::InsufficientBytes);
    }
    let nb_args: u8 = get_u8(src);
    let ghost n2: int = spec_parse_args(s0.skip(n1 + 1), nb_args as nat, Seq::empty()).1 as int;
    proof {
        assert(s0.skip(n1).skip(1) =~= s0.skip(n1 + 1));
        lemma_parse_args_used(s0.skip(n1 + 1), nb_args as nat, Seq::empty());
        assert(s0.skip(n1 + 1).skip(n2) =~= s0.skip(n1 + 1 + n2));
    }
    match parse_args(src, nb_args) {
        Ok(content) => Ok((name, content)),
        Err(e) => Err(e),
    }
}

/// Decodes messages from `src` until it is exhausted.
///
/// Fails at the first message that does not decode: with
/// `InvalidMessageName` where it was the name, `InsufficientBytes` where
/// the count of arguments is missing, and `InvalidKVListName` or
/// `InvalidKVListValue` where it was an argument.
pub fn parse_list_of_messages(src: &mut Cursor<&[u8]>) -> (r: Result<
    ListOfMessages,
    ListOfMessagesError,
>)
    ensures
        match r {
            Ok(l) => spec_parse_list_of_messages(unread(*old(src))).0 == Ok::<
                ListOfMessagesView,
                ListOfMessagesErrorView,
            >(l.deep_view()),
            Err(e) => spec_parse_list_of_messages(unread(*old(src))).0 == Err::<
                ListOfMessagesView,
                ListOfMessagesErrorView,
            >(e@),
        },
        unread(*final(src)) == unread(*old(src)).skip(
            spec_parse_list_of_messages(unread(*old(src))).1 as int,
        ),
{
    let ghost s0 = unread(*src);
    let ghost whole = spec_parse_list_of_messages(s0);
    let ghost mut used: int = 0;
    let mut messages: ListOfMessages = Vec::new();
    assert(messages.deep_view() =~= Seq::<(Seq<char>, KVListView)>::empty());
    assert(s0.skip(0) =~= s0);
    while remaining(src) > 0
        invariant
            s0 == unread(*old(src)),
            whole == spec_parse_list_of_messages(s0),
            0 <= used <= s0.len(),
            unread(*src) == s0.skip(used),
            whole.0 == spec_parse_messages_from(unread(*src), messages.deep_view()).0,
            whole.1 == spec_parse_messages_from(unread(*src), messages.deep_view()).1 + used,
        decreases s0.len() - used,
    {
        let ghost cur = unread(*src);
        let ghost before = messages.deep_view();
        proof {
            lemma_parse_message_used(cur);
        }
        let ghost n: int = spec_parse_message(cur).1 as int;
        assert(cur.skip(n) =~= s0.skip(used + n));
        let message = match parse_message(src) {
            Ok(m) => m,
            Err(e) => {
                return Err(e);
            },
        };
        let ghost m = (message.0@, message.1.deep_view());
        messages.push(message);
        proof {
            assert(messages.deep_view() =~= before.push(m));
            used = used + n;
        }
    }
    Ok(messages)
}

} // verus!
