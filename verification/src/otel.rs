//! The bridge to distributed tracing: what a notification says about
//! spans, as plain values.
//!
//! A notification's messages mark the life of a proxied request. This
//! module reads them: which spans to open and to close, under which keys,
//! with which tags, and which variables tell the proxy about a span that
//! was opened. Opening and closing spans is left to the caller.

use crate::frame::action::{Action, ActionVarScope, ActionView};
use crate::frame::header::FrameHeader;
use crate::frame::kv::{KVList, KVListView, ListOfMessages, ListOfMessagesView};
use crate::frame::text::string_from_utf8;
use crate::frame::typed_data::{typed_data_text, u64_as_signed, TypedData, TypedDataView};
use crate::proplists::{first_under, PropLists};
use crate::render::{
    ascii_chars, ascii_string, decimal_bytes, eq_ignore_ascii_case, hex_bytes,
    lemma_decimal_ascii, lemma_hex_ascii, push_decimal, push_hex, spec_eq_ignore_ascii_case,
    str_eq,
};
use vstd::prelude::*;
use vstd::string::StringExecFns;
use vstd::utf8::{
    decode_utf8, encode_utf8, encode_utf8_valid_utf8,
    is_char_boundary_iff_not_is_continuation_byte, is_continuation_byte, valid_utf8_split,
};

verus! {

/// Tags in contracts: names and values, in order.
pub type TagsView = Seq<(Seq<char>, Seq<char>)>;

/// Something that collects tags, in the order in which they come.
pub trait TagAware {
    /// The tags taken so far, in order.
    spec fn tags(&self) -> TagsView;

    /// Takes one more tag.
    fn set_tag(&mut self, key: &str, value: String)
        ensures
            final(self).tags() == old(self).tags().push((key@, value@)),
    ;
}

impl TagAware for PropLists<String> {
    open spec fn tags(&self) -> TagsView {
        self.deep_view()
    }

    fn set_tag(&mut self, key: &str, value: String) {
        self.push(key, value);
        assert(self.deep_view() =~= old(self).deep_view().push((key@, value@)));
    }
}

/// What to make of an entry that is neither a tag nor part of one.
#[derive(Debug, Clone, Copy, PartialEq, Eq, Structural)]
pub enum UnknownTag {
    /// Nothing.
    Skip,
    /// From the entry named `id`, tags that say which server and which
    /// exchange the request belongs to.
    ServerIdentity,
}

/// Where `b` first occurs in `bytes`; the length of `bytes` where it does
/// not occur.
pub open spec fn first_byte(bytes: Seq<u8>, b: u8) -> int
    decreases bytes.len(),
{
    if bytes.len() == 0 {
        0
    } else if bytes[0] == b {
        0
    } else {
        1 + first_byte(bytes.skip(1), b)
    }
}

/// The text before the first colon, if there is a colon.
pub open spec fn before_colon(s: Seq<char>) -> Option<Seq<char>> {
    let bytes = encode_utf8(s);
    let at = first_byte(bytes, 58);
    if at < bytes.len() {
        Some(decode_utf8(bytes.take(at)))
    } else {
        None
    }
}

/// The tags that the entry named `id` gives: `server.tx_id` with the
/// entry's value and, where that holds a colon, `server.name` with what
/// comes before the first.
pub open spec fn identity_tags(key: Seq<char>, value: TypedDataView) -> TagsView {
    if key == "id"@ {
        let raw = typed_data_text(value);
        match before_colon(raw) {
            Some(name) => seq![("server.tx_id"@, raw), ("server.name"@, name)],
            None => seq![("server.tx_id"@, raw)],
        }
    } else {
        Seq::empty()
    }
}

/// The tags that an entry gives which is neither a tag nor part of one.
pub open spec fn unknown_tags(mode: UnknownTag, key: Seq<char>, value: TypedDataView) -> TagsView {
    match mode {
        UnknownTag::Skip => Seq::empty(),
        UnknownTag::ServerIdentity => identity_tags(key, value),
    }
}

/// The tag that is complete once the tag that was open is closed.
pub open spec fn closed_tag(open: Option<Seq<char>>, value: Seq<char>) -> TagsView {
    match open {
        Some(name) => seq![(name, value)],
        None => Seq::empty(),
    }
}

/// The tags of the entries `l`, read in order, where `open` is the name of
/// the tag that is open, if one is, and `value` what its value holds so
/// far.
///
/// An entry named `tag` closes the open tag and opens the one that its
/// value names. An entry with an empty name adds its value to the open
/// tag's, and counts for nothing where no tag is open. Any other entry
/// closes the open tag. The end of the entries closes the open tag.
pub open spec fn tags_from(
    l: KVListView,
    open: Option<Seq<char>>,
    value: Seq<char>,
    mode: UnknownTag,
) -> TagsView
    decreases l.len(),
{
    if l.len() == 0 {
        closed_tag(open, value)
    } else if l[0].0.len() == 0 {
        tags_from(
            l.skip(1),
            open,
            if open is Some {
                value + typed_data_text(l[0].1)
            } else {
                value
            },
            mode,
        )
    } else if l[0].0 == "tag"@ {
        closed_tag(open, value) + tags_from(
            l.skip(1),
            Some(typed_data_text(l[0].1)),
            Seq::empty(),
            mode,
        )
    } else {
        closed_tag(open, value) + unknown_tags(mode, l[0].0, l[0].1) + tags_from(
            l.skip(1),
            None,
            Seq::empty(),
            mode,
        )
    }
}

/// The tags of a key/value list.
pub open spec fn spec_extract_tags(l: KVListView, mode: UnknownTag) -> TagsView {
    tags_from(l, None, Seq::empty(), mode)
}

/// The values of entries with empty names, one after the other.
pub open spec fn joined_text(parts: Seq<TypedDataView>) -> Seq<char>
    decreases parts.len(),
{
    if parts.len() == 0 {
        Seq::empty()
    } else {
        typed_data_text(parts[0]) + joined_text(parts.skip(1))
    }
}

/// Entries with empty names that hold the given values, in order.
pub open spec fn unnamed(parts: Seq<TypedDataView>) -> KVListView {
    Seq::new(parts.len(), |i: int| (Seq::<char>::empty(), parts[i]))
}

proof fn lemma_parts_join(
    parts: Seq<TypedDataView>,
    rest: KVListView,
    name: Seq<char>,
    value: Seq<char>,
    mode: UnknownTag,
)
    ensures
        tags_from(unnamed(parts) + rest, Some(name), value, mode) == tags_from(
            rest,
            Some(name),
            value + joined_text(parts),
            mode,
        ),
    decreases parts.len(),
{
    let l = unnamed(parts) + rest;
    if parts.len() == 0 {
        assert(l =~= rest);
        assert(value + joined_text(parts) =~= value);
    } else {
        assert(l[0] == (Seq::<char>::empty(), parts[0]));
        assert(l.skip(1) =~= unnamed(parts.skip(1)) + rest);
        lemma_parts_join(parts.skip(1), rest, name, value + typed_data_text(parts[0]), mode);
        assert(value + typed_data_text(parts[0]) + joined_text(parts.skip(1)) =~= value
            + joined_text(parts));
    }
}

/// The value of a tag is what the entries with empty names that follow it
/// hold, joined in the order in which they come; a tag that no such entry
/// follows has an empty value. This holds whatever was read before the tag
/// (`open` and `value` stand for it), as long as what follows the tag's
/// parts is the end of the list or an entry with a name.
pub proof fn lemma_tag_value_in_order(
    name: TypedDataView,
    parts: Seq<TypedDataView>,
    rest: KVListView,
    open: Option<Seq<char>>,
    value: Seq<char>,
    mode: UnknownTag,
)
    requires
        rest.len() == 0 || rest[0].0.len() > 0,
    ensures
        tags_from(seq![("tag"@, name)] + unnamed(parts) + rest, open, value, mode) == closed_tag(
            open,
            value,
        ) + seq![(typed_data_text(name), joined_text(parts))] + tags_from(
            rest,
            None,
            Seq::empty(),
            mode,
        ),
        parts.len() == 0 ==> joined_text(parts) == Seq::<char>::empty(),
{
    reveal_strlit("tag");
    let l = seq![("tag"@, name)] + unnamed(parts) + rest;
    let text = typed_data_text(name);
    let joined = joined_text(parts);
    assert(l[0] == ("tag"@, name));
    assert(l.skip(1) =~= unnamed(parts) + rest);
    lemma_parts_join(parts, rest, text, Seq::empty(), mode);
    assert(Seq::<char>::empty() + joined =~= joined);
    assert(tags_from(rest, Some(text), joined, mode) =~= seq![(text, joined)] + tags_from(
        rest,
        None,
        Seq::empty(),
        mode,
    )) by {
        if rest.len() > 0 {
            assert(closed_tag(None, Seq::empty()) =~= Seq::<(Seq<char>, Seq<char>)>::empty());
        }
    }
    assert(closed_tag(open, value) + (seq![(text, joined)] + tags_from(
        rest,
        None,
        Seq::empty(),
        mode,
    )) =~= closed_tag(open, value) + seq![(text, joined)] + tags_from(
        rest,
        None,
        Seq::empty(),
        mode,
    ));
}

/// The tag that is open, and what its value holds, once the entries `pre`
/// are read from the state that `open` and `value` stand for.
pub open spec fn state_after(pre: KVListView, open: Option<Seq<char>>, value: Seq<char>) -> (
    Option<Seq<char>>,
    Seq<char>,
)
    decreases pre.len(),
{
    if pre.len() == 0 {
        (open, value)
    } else if pre[0].0.len() == 0 {
        state_after(
            pre.skip(1),
            open,
            if open is Some {
                value + typed_data_text(pre[0].1)
            } else {
                value
            },
        )
    } else if pre[0].0 == "tag"@ {
        state_after(pre.skip(1), Some(typed_data_text(pre[0].1)), Seq::empty())
    } else {
        state_after(pre.skip(1), None, Seq::empty())
    }
}

/// The tags that are complete once the entries `pre` are read, without
/// the one that is then open.
pub open spec fn tags_before(
    pre: KVListView,
    open: Option<Seq<char>>,
    value: Seq<char>,
    mode: UnknownTag,
) -> TagsView
    decreases pre.len(),
{
    if pre.len() == 0 {
        Seq::empty()
    } else if pre[0].0.len() == 0 {
        tags_before(
            pre.skip(1),
            open,
            if open is Some {
                value + typed_data_text(pre[0].1)
            } else {
                value
            },
            mode,
        )
    } else if pre[0].0 == "tag"@ {
        closed_tag(open, value) + tags_before(
            pre.skip(1),
            Some(typed_data_text(pre[0].1)),
            Seq::empty(),
            mode,
        )
    } else {
        closed_tag(open, value) + unknown_tags(mode, pre[0].0, pre[0].1) + tags_before(
            pre.skip(1),
            None,
            Seq::empty(),
            mode,
        )
    }
}

/// Reading a list is reading its first part, then the rest from the state
/// that the first part leaves.
pub proof fn lemma_tags_split(
    pre: KVListView,
    l: KVListView,
    open: Option<Seq<char>>,
    value: Seq<char>,
    mode: UnknownTag,
)
    ensures
        tags_from(pre + l, open, value, mode) == tags_before(pre, open, value, mode) + tags_from(
            l,
            state_after(pre, open, value).0,
            state_after(pre, open, value).1,
            mode,
        ),
    decreases pre.len(),
{
    let all = pre + l;
    if pre.len() == 0 {
        assert(all =~= l);
        assert(Seq::<(Seq<char>, Seq<char>)>::empty() + tags_from(l, open, value, mode)
            =~= tags_from(l, open, value, mode));
    } else {
        assert(all[0] == pre[0]);
        assert(all.skip(1) =~= pre.skip(1) + l);
        let text = typed_data_text(pre[0].1);
        if pre[0].0.len() == 0 {
            let next = if open is Some {
                value + text
            } else {
                value
            };
            lemma_tags_split(pre.skip(1), l, open, next, mode);
        } else if pre[0].0 == "tag"@ {
            lemma_tags_split(pre.skip(1), l, Some(text), Seq::empty(), mode);
            let after = state_after(pre.skip(1), Some(text), Seq::empty());
            assert(closed_tag(open, value) + (tags_before(
                pre.skip(1),
                Some(text),
                Seq::empty(),
                mode,
            ) + tags_from(l, after.0, after.1, mode)) =~= closed_tag(open, value) + tags_before(
                pre.skip(1),
                Some(text),
                Seq::empty(),
                mode,
            ) + tags_from(l, after.0, after.1, mode));
        } else {
            lemma_tags_split(pre.skip(1), l, None, Seq::empty(), mode);
            let after = state_after(pre.skip(1), None, Seq::empty());
            let head = closed_tag(open, value) + unknown_tags(mode, pre[0].0, pre[0].1);
            assert(head + (tags_before(pre.skip(1), None, Seq::empty(), mode) + tags_from(
                l,
                after.0,
                after.1,
                mode,
            )) =~= head + tags_before(pre.skip(1), None, Seq::empty(), mode) + tags_from(
                l,
                after.0,
                after.1,
                mode,
            ));
        }
    }
}

/// In any key/value list, the value of a tag is what the entries with
/// empty names that follow it hold, joined in the order in which they
/// come, and empty where none follows: the tags of the list are those that
/// are complete before the tag, the one that the tag closes, the tag with
/// that value, and those of what follows its parts.
pub proof fn lemma_tag_value_in_any_list(
    pre: KVListView,
    name: TypedDataView,
    parts: Seq<TypedDataView>,
    rest: KVListView,
    mode: UnknownTag,
)
    requires
        rest.len() == 0 || rest[0].0.len() > 0,
    ensures
        spec_extract_tags(pre + (seq![("tag"@, name)] + unnamed(parts) + rest), mode)
            == tags_before(pre, None, Seq::empty(), mode) + closed_tag(
            state_after(pre, None, Seq::empty()).0,
            state_after(pre, None, Seq::empty()).1,
        ) + seq![(typed_data_text(name), joined_text(parts))] + tags_from(
            rest,
            None,
            Seq::empty(),
            mode,
        ),
        parts.len() == 0 ==> joined_text(parts) == Seq::<char>::empty(),
{
    let after = state_after(pre, None, Seq::empty());
    let before = tags_before(pre, None, Seq::empty(), mode);
    let tail = seq![("tag"@, name)] + unnamed(parts) + rest;
    lemma_tags_split(pre, tail, None, Seq::empty(), mode);
    lemma_tag_value_in_order(name, parts, rest, after.0, after.1, mode);
    let tag = seq![(typed_data_text(name), joined_text(parts))];
    let last = tags_from(rest, None, Seq::empty(), mode);
    assert(before + (closed_tag(after.0, after.1) + tag + last) =~= before + closed_tag(
        after.0,
        after.1,
    ) + tag + last);
}

/// Where `b` first occurs in `bytes`.
fn find_byte(bytes: &[u8], b: u8) -> (at: usize)
    ensures
        at == first_byte(bytes@, b),
        at <= bytes@.len(),
        at < bytes@.len() ==> bytes@[at as int] == b,
{
    let mut i: usize = 0;
    assert(bytes@.skip(0) =~= bytes@);
    while i < bytes.len()
        invariant
            i <= bytes.len(),
            first_byte(bytes@, b) == i + first_byte(bytes@.skip(i as int), b),
        decreases bytes.len() - i,
    {
        if bytes[i] == b {
            return i;
        }
        assert(bytes@.skip(i as int).skip(1) =~= bytes@.skip(i as int + 1));
        i = i + 1;
    }
    i
}

/// The text before the first colon: `None` where there is no colon.
fn text_before_colon(raw: &str) -> (r: Option<String>)
    ensures
        match r {
            Some(name) => before_colon(raw@) == Some(name@),
            None => before_colon(raw@) is None,
        },
{
    let bytes = raw.as_bytes();
    let at: usize = find_byte(bytes, 58);
    if at >= bytes.len() {
        return None;
    }
    let head = vstd::slice::slice_to_vec(vstd::slice::slice_subrange(bytes, 0, at));
    proof {
        encode_utf8_valid_utf8(raw@);
        assert(!is_continuation_byte(58u8)) by (bit_vector);
        is_char_boundary_iff_not_is_continuation_byte(bytes@, at as int);
        valid_utf8_split(bytes@, at as int);
        assert(bytes@.subrange(0, at as int) =~= bytes@.take(at as int));
    }
    match string_from_utf8(&head) {
        Ok(name) => Some(name),
        Err(_) => None,
    }
}

/// Adds to `dst` what the entry named `id` says of the server and of the
/// exchange; adds nothing for an entry of any other name.
pub fn unknown_tag_extra(dst: &mut PropLists<String>, key: &String, value: &TypedData)
    ensures
        final(dst).deep_view() == old(dst).deep_view() + identity_tags(key@, value@),
{
    if str_eq(key.as_str(), "id") {
        let raw = value.to_string();
        let name = text_before_colon(raw.as_str());
        dst.set_tag("server.tx_id", raw);
        match name {
            Some(name) => {
                dst.set_tag("server.name", name);
            },
            None => {},
        }
        assert(dst.deep_view() =~= old(dst).deep_view() + identity_tags(key@, value@));
    } else {
        assert(dst.deep_view() =~= old(dst).deep_view() + identity_tags(key@, value@));
    }
}

/// The view of a string that may be missing.
pub open spec fn text_view(name: Option<String>) -> Option<Seq<char>> {
    match name {
        Some(t) => Some(t@),
        None => None,
    }
}

/// The tags of a key/value list, in the order in which they are complete.
pub fn extract_tags(details: &KVList, unknown_tag: UnknownTag) -> (props: PropLists<String>)
    ensures
        props.deep_view() == spec_extract_tags(details.deep_view(), unknown_tag),
{
    let ghost l = details.deep_view();
    let mut props: PropLists<String> = PropLists::new();
    let mut tag_name: Option<String> = None;
    let mut s: String = String::new();
    let mut i: usize = 0;
    proof {
        assert(l.skip(0) =~= l);
        assert(props.deep_view() =~= Seq::<(Seq<char>, Seq<char>)>::empty());
        assert(props.deep_view() + tags_from(l, None, Seq::empty(), unknown_tag) =~= tags_from(
            l,
            None,
            Seq::empty(),
            unknown_tag,
        ));
    }
    while i < details.len()
        invariant
            i <= details.len(),
            l == details.deep_view(),
            l.len() == details.len(),
            spec_extract_tags(l, unknown_tag) == props.deep_view() + tags_from(
                l.skip(i as int),
                text_view(tag_name),
                s@,
                unknown_tag,
            ),
        decreases details.len() - i,
    {
        let ghost rest = l.skip(i as int);
        let ghost before = props.deep_view();
        let ghost open: Option<Seq<char>> = text_view(tag_name);
        let ghost value = s@;
        let entry = &details[i];
        let k = &entry.0;
        let v = &entry.1;
        proof {
            assert(rest[0] == (k@, v@));
            assert(rest.skip(1) =~= l.skip(i as int + 1));
        }
        if !k.as_str().is_empty() {
            match tag_name {
                Some(tag) => {
                    props.set_tag(tag.as_str(), s);
                },
                None => {},
            }
            assert(props.deep_view() =~= before + closed_tag(open, value));
            tag_name = None;
            s = String::new();
            if str_eq(k.as_str(), "tag") {
                tag_name = Some(v.to_string());
                assert(before + (closed_tag(open, value) + tags_from(
                    rest.skip(1),
                    Some(typed_data_text(v@)),
                    Seq::empty(),
                    unknown_tag,
                )) =~= before + closed_tag(open, value) + tags_from(
                    rest.skip(1),
                    Some(typed_data_text(v@)),
                    Seq::empty(),
                    unknown_tag,
                ));
            } else {
                let ghost closed = props.deep_view();
                match unknown_tag {
                    UnknownTag::Skip => {},
                    UnknownTag::ServerIdentity => {
                        unknown_tag_extra(&mut props, k, v);
                    },
                }
                assert(props.deep_view() =~= closed + unknown_tags(unknown_tag, k@, v@));
                assert(before + (closed_tag(open, value) + unknown_tags(unknown_tag, k@, v@)
                    + tags_from(rest.skip(1), None, Seq::empty(), unknown_tag)) =~= before
                    + closed_tag(open, value) + unknown_tags(unknown_tag, k@, v@) + tags_from(
                    rest.skip(1),
                    None,
                    Seq::empty(),
                    unknown_tag,
                ));
            }
        } else if tag_name.is_some() {
            let text = v.to_string();
            s.append(text.as_str());
        }
        i = i + 1;
    }
    match tag_name {
        Some(tag) => {
            let ghost before = props.deep_view();
            props.set_tag(tag.as_str(), s);
        },
        None => {},
    }
    props
}

/// Gives `span` the tags of a key/value list, with those that say which
/// server and which exchange the request belongs to.
pub fn enrich_span_with_tags<S: TagAware>(span: &mut S, details: &KVList)
    ensures
        final(span).tags() == old(span).tags() + spec_extract_tags(
            details.deep_view(),
            UnknownTag::ServerIdentity,
        ),
{
    let tags = extract_tags(details, UnknownTag::ServerIdentity);
    let ghost wanted = tags.deep_view();
    let mut pairs = tags.into_vec();
    let ghost mut i: int = 0;
    assert(old(span).tags() + wanted.take(0) =~= old(span).tags());
    while pairs.len() > 0
        invariant
            0 <= i,
            i + pairs@.len() == wanted.len(),
            forall|k: int|
                0 <= k < pairs@.len() ==> (#[trigger] pairs@[k]).0@ == wanted[i + k].0
                    && pairs@[k].1@ == wanted[i + k].1,
            span.tags() == old(span).tags() + wanted.take(i),
        decreases pairs@.len(),
    {
        let ghost before = pairs@;
        let pair = pairs.remove(0);
        assert(pair.0@ == wanted[i].0 && pair.1@ == wanted[i].1) by {
            assert(before[0].0@ == wanted[i + 0].0);
        }
        assert forall|k: int| 0 <= k < pairs@.len() implies (#[trigger] pairs@[k]).0@ == wanted[i
            + 1 + k].0 && pairs@[k].1@ == wanted[i + 1 + k].1 by {
            assert(pairs@[k] == before[k + 1]);
        }
        span.set_tag(pair.0.as_str(), pair.1);
        proof {
            assert(wanted.take(i).push(wanted[i]) =~= wanted.take(i + 1));
            i = i + 1;
        }
    }
    assert(wanted.take(wanted.len() as int) =~= wanted);
}

/// The key under which the span of a request is kept: the stream's
/// number in base 10, two colons, and the value of the first entry named
/// `id`, or two more colons where that value is no string. There is no key
/// where no entry is named `id`.
pub open spec fn spec_key_of(stream_id: u64, details: KVListView) -> Option<Seq<char>> {
    match first_under(details, "id"@) {
        None => None,
        Some(id) => Some(
            ascii_chars(decimal_bytes(stream_id as nat)) + "::"@ + match id {
                TypedDataView::STRING(s) => s,
                _ => "::"@,
            },
        ),
    }
}

/// The first entry of a list under a name.
fn find_entry<'a>(details: &'a KVList, key: &str) -> (r: Option<&'a TypedData>)
    ensures
        match r {
            Some(v) => first_under(details.deep_view(), key@) == Some(v@),
            None => first_under(details.deep_view(), key@) is None,
        },
{
    let ghost l = details.deep_view();
    let mut i: usize = 0;
    assert(l.skip(0) =~= l);
    while i < details.len()
        invariant
            i <= details.len(),
            l == details.deep_view(),
            l.len() == details.len(),
            first_under(l, key@) == first_under(l.skip(i as int), key@),
        decreases details.len() - i,
    {
        let entry = &details[i];
        assert(l.skip(i as int)[0] == (entry.0@, entry.1@));
        if str_eq(entry.0.as_str(), key) {
            return Some(&entry.1);
        }
        assert(l.skip(i as int).skip(1) =~= l.skip(i as int + 1));
        i = i + 1;
    }
    None
}

/// The key under which the span of a request is kept: `None` where the
/// message has no entry named `id`.
pub fn key_of(header: &FrameHeader, details: &KVList) -> (r: Option<String>)
    ensures
        match r {
            Some(key) => spec_key_of(header.stream_id, details.deep_view()) == Some(key@),
            None => spec_key_of(header.stream_id, details.deep_view()) is None,
        },
{
    let id = match find_entry(details, "id") {
        Some(id) => id,
        None => {
            return None;
        },
    };
    let mut digits: Vec<u8> = Vec::new();
    push_decimal(&mut digits, header.stream_id);
    proof {
        lemma_decimal_ascii(header.stream_id as nat);
    }
    let mut key: String = ascii_string(&digits);
    key.append("::");
    match id {
        TypedData::STRING(s) => {
            key.append(s.as_str());
        },
        _ => {
            key.append("::");
        },
    }
    Some(key)
}

/// A key/value list as a source of header values.
pub struct KVListExtractor<'a>(pub &'a KVList);

impl<'a> KVListExtractor<'a> {
    /// The value of the first entry under `key`, where that is a string.
    pub open spec fn spec_get(self, key: Seq<char>) -> Option<Seq<char>> {
        match first_under(self.0.deep_view(), key) {
            Some(TypedDataView::STRING(s)) => Some(s),
            _ => None,
        }
    }

    /// The value of the first entry under `key`: `None` where there is no
    /// such entry and where its value is no string.
    pub fn get(&self, key: &str) -> (r: Option<&str>)
        ensures
            match r {
                Some(s) => self.spec_get(key@) == Some(s@),
                None => self.spec_get(key@) is None,
            },
    {
        match find_entry(self.0, key) {
            Some(TypedData::STRING(s)) => Some(s.as_str()),
            _ => None,
        }
    }

    /// The names of all entries, in order.
    pub fn keys(&self) -> (r: Vec<&str>)
        ensures
            r@.len() == self.0.deep_view().len(),
            forall|i: int| 0 <= i < r@.len() ==> (#[trigger] r@[i])@ == self.0.deep_view()[i].0,
    {
        let ghost l = self.0.deep_view();
        let mut names: Vec<&str> = Vec::new();
        let mut i: usize = 0;
        while i < self.0.len()
            invariant
                i <= self.0.len(),
                l == self.0.deep_view(),
                l.len() == self.0.len(),
                names@.len() == i,
                forall|k: int| 0 <= k < i ==> (#[trigger] names@[k])@ == l[k].0,
            decreases self.0.len() - i,
        {
            let entry = &self.0[i];
            assert(l[i as int] == (entry.0@, entry.1@));
            names.push(entry.0.as_str());
            i = i + 1;
        }
        names
    }
}

/// What identifies a span to other services, as plain values.
#[derive(Debug, Clone, PartialEq, Eq)]
pub struct TraceContext {
    pub trace_id: u128,
    pub span_id: u64,
    pub trace_flags: u8,
    /// Whether the tracing library holds the context to be valid.
    pub is_valid: bool,
    /// The vendor-specific state, in the form in which a header carries it.
    pub trace_state: String,
}

/// The name of the variable that carries a span's identity.
pub open spec fn traceparent_name() -> Seq<char> {
    "traceparent"@
}

/// The name of the variable that carries a span's vendor-specific state.
pub open spec fn tracestate_name() -> Seq<char> {
    "tracestate"@
}

/// A span's identity as a header carries it: version 0, the trace's
/// identifier, the span's identifier and the flag that says whether the
/// trace is sampled, in base 16 with 2, 32, 16 and 2 digits, and hyphens
/// between.
pub open spec fn traceparent_bytes(trace_id: u128, span_id: u64, trace_flags: u8) -> Seq<u8> {
    hex_bytes(0, 2) + seq![45u8] + hex_bytes(trace_id as nat, 32) + seq![45u8] + hex_bytes(
        span_id as nat,
        16,
    ) + seq![45u8] + hex_bytes((trace_flags % 2) as nat, 2)
}

/// An action that sets a variable of the request to a string.
pub open spec fn set_request_var(name: Seq<char>, value: Seq<char>) -> ActionView {
    ActionView::SetVar {
        scope: ActionVarScope::REQUEST,
        name,
        value: TypedDataView::STRING(value),
    }
}

/// The actions that tell the proxy of a span: none for a context that is
/// not valid; else one that sets `traceparent` and one that sets
/// `tracestate`.
pub open spec fn context_actions(
    trace_id: u128,
    span_id: u64,
    trace_flags: u8,
    is_valid: bool,
    trace_state: Seq<char>,
) -> Seq<ActionView> {
    if is_valid {
        seq![
            set_request_var(
                traceparent_name(),
                ascii_chars(traceparent_bytes(trace_id, span_id, trace_flags)),
            ),
            set_request_var(tracestate_name(), trace_state),
        ]
    } else {
        Seq::empty()
    }
}

/// Collects the actions of an acknowledgement.
pub struct ActionInjector(pub Vec<Action>);

impl ActionInjector {
    /// Adds an action that sets the variable `key` of the request to
    /// `value`.
    pub fn set(&mut self, key: &str, value: String)
        ensures
            final(self).0.deep_view() == old(self).0.deep_view().push(
                set_request_var(key@, value@),
            ),
    {
        let ghost before = self.0.deep_view();
        self.0.push(
            Action::SetVar {
                scope: ActionVarScope::REQUEST,
                name: String::from_str(key),
                value: TypedData::STRING(value),
            },
        );
        assert(self.0.deep_view() =~= before.push(set_request_var(key@, value@)));
    }

    /// Adds the actions that tell the proxy of a span with the given
    /// context.
    pub fn apply_context(&mut self, span_context: &TraceContext)
        ensures
            final(self).0.deep_view() == old(self).0.deep_view() + context_actions(
                span_context.trace_id,
                span_context.span_id,
                span_context.trace_flags,
                span_context.is_valid,
                span_context.trace_state@,
            ),
    {
        let ghost before = self.0.deep_view();
        if span_context.is_valid {
            let mut text: Vec<u8> = Vec::new();
            let flags: u8 = span_context.trace_flags;
            assert(flags & 1 == flags % 2) by (bit_vector);
            push_hex(&mut text, 0, 2);
            text.push(45u8);
            push_hex(&mut text, span_context.trace_id, 32);
            text.push(45u8);
            push_hex(&mut text, span_context.span_id as u128, 16);
            text.push(45u8);
            push_hex(&mut text, (flags & 1) as u128, 2);
            proof {
                lemma_hex_ascii(0, 2);
                lemma_hex_ascii(span_context.trace_id as nat, 32);
                lemma_hex_ascii(span_context.span_id as nat, 16);
                lemma_hex_ascii((flags % 2) as nat, 2);
                assert(text@ =~= traceparent_bytes(
                    span_context.trace_id,
                    span_context.span_id,
                    span_context.trace_flags,
                ));
            }
            let header_value = ascii_string(&text);
            self.set("traceparent", header_value);
            self.set("tracestate", span_context.trace_state.clone());
            assert(self.0.deep_view() =~= before + context_actions(
                span_context.trace_id,
                span_context.span_id,
                span_context.trace_flags,
                span_context.is_valid,
                span_context.trace_state@,
            ));
        } else {
            assert(self.0.deep_view() =~= before + Seq::<ActionView>::empty());
        }
    }
}

/// The value of a span's attribute.
#[derive(Debug, Clone, PartialEq, Eq)]
pub enum AttributeValue {
    Text(String),
    Bool(bool),
    I64(i64),
}

pub enum AttributeValueView {
    Text(Seq<char>),
    Bool(bool),
    I64(i64),
}

impl View for AttributeValue {
    type V = AttributeValueView;

    open spec fn view(&self) -> AttributeValueView {
        match *self {
            AttributeValue::Text(s) => AttributeValueView::Text(s@),
            AttributeValue::Bool(b) => AttributeValueView::Bool(b),
            AttributeValue::I64(n) => AttributeValueView::I64(n),
        }
    }
}

/// A typed value as the value of an attribute: a boolean as it is, a
/// number as a signed 64-bit number (an unsigned one above the largest
/// of those wraps), a string as it is, an address as text, and a null or
/// a binary as a mark in text.
pub open spec fn attribute_value(v: TypedDataView) -> AttributeValueView {
    match v {
        TypedDataView::NULL => AttributeValueView::Text("<null>"@),
        TypedDataView::BOOL(b) => AttributeValueView::Bool(b),
        TypedDataView::INT32(n) => AttributeValueView::I64(n as i64),
        TypedDataView::UINT32(n) => AttributeValueView::I64(n as i64),
        TypedDataView::INT64(n) => AttributeValueView::I64(n),
        TypedDataView::UINT64(n) => AttributeValueView::I64(u64_as_signed(n)),
        TypedDataView::BINARY(_) => AttributeValueView::Text("<bin>"@),
        other => AttributeValueView::Text(typed_data_text(other)),
    }
}

impl TypedData {
    /// The value as an attribute under `key`.
    pub fn as_key_value(&self, key: String) -> (r: (String, AttributeValue))
        ensures
            r.0@ == key@,
            r.1@ == attribute_value(self@),
    {
        let value = match self {
            TypedData::NULL => AttributeValue::Text(String::from_str("<null>")),
            TypedData::BOOL(v) => AttributeValue::Bool(*v),
            TypedData::INT32(v) => AttributeValue::I64(*v as i64),
            TypedData::UINT32(v) => AttributeValue::I64(*v as i64),
            TypedData::INT64(v) => AttributeValue::I64(*v),
            TypedData::UINT64(v) => {
                let n: u64 = *v;
                assert(n as i64 == u64_as_signed(n)) by (bit_vector);
                AttributeValue::I64(n as i64)
            },
            TypedData::IPV4(_) => AttributeValue::Text(self.to_string()),
            TypedData::IPV6(_) => AttributeValue::Text(self.to_string()),
            TypedData::STRING(s) => AttributeValue::Text(s.clone()),
            TypedData::BINARY(_) => AttributeValue::Text(String::from_str("<bin>")),
        };
        (key, value)
    }
}

/// What a message of a notification is about.
#[derive(Debug, Clone, Copy, PartialEq, Eq, Structural)]
pub enum MessageKind {
    FrontendTcpRequest,
    FrontendHttpRequest,
    HttpResponse,
    Other,
}

/// What a message with this name is about. The three names that mean
/// something are taken in any case of their letters.
pub open spec fn spec_message_kind(name: Seq<char>) -> MessageKind {
    if spec_eq_ignore_ascii_case(name, "opentracing:frontend_tcp_request"@) {
        MessageKind::FrontendTcpRequest
    } else if spec_eq_ignore_ascii_case(name, "opentracing:frontend_http_request"@) {
        MessageKind::FrontendHttpRequest
    } else if spec_eq_ignore_ascii_case(name, "opentracing:http_response"@) {
        MessageKind::HttpResponse
    } else {
        MessageKind::Other
    }
}

/// What a message with this name is about.
pub fn message_kind(name: &str) -> (k: MessageKind)
    ensures
        k == spec_message_kind(name@),
{
    if eq_ignore_ascii_case(name, "opentracing:frontend_tcp_request") {
        MessageKind::FrontendTcpRequest
    } else if eq_ignore_ascii_case(name, "opentracing:frontend_http_request") {
        MessageKind::FrontendHttpRequest
    } else if eq_ignore_ascii_case(name, "opentracing:http_response") {
        MessageKind::HttpResponse
    } else {
        MessageKind::Other
    }
}

/// What to do with the spans for one message.
#[derive(Debug)]
pub enum SpanCommand {
    /// Start a span called `name`, give it `tags`, and keep it under
    /// `key`, in place of a span that may be kept there.
    Open { key: String, name: String, tags: PropLists<String> },
    /// End the span kept under `key`, if there is one. Then start a span
    /// called `name`, as a child of the span that `traceparent` and
    /// `tracestate` tell of where they tell of one; give it `tags`; keep it
    /// under `key`; and tell the proxy of it.
    Reopen {
        key: String,
        name: String,
        traceparent: Option<String>,
        tracestate: Option<String>,
        tags: PropLists<String>,
    },
    /// Take the span kept under `key` out, and end it.
    Close { key: String },
}

pub enum SpanCommandView {
    Open { key: Seq<char>, name: Seq<char>, tags: TagsView },
    Reopen {
        key: Seq<char>,
        name: Seq<char>,
        traceparent: Option<Seq<char>>,
        tracestate: Option<Seq<char>>,
        tags: TagsView,
    },
    Close { key: Seq<char> },
}

impl View for SpanCommand {
    type V = SpanCommandView;

    open spec fn view(&self) -> SpanCommandView {
        match *self {
            SpanCommand::Open { key, name, tags } => SpanCommandView::Open {
                key: key@,
                name: name@,
                tags: tags.deep_view(),
            },
            SpanCommand::Reopen {
                key,
                name,
                traceparent,
                tracestate,
                tags,
            } => SpanCommandView::Reopen {
                key: key@,
                name: name@,
                traceparent: text_view(traceparent),
                tracestate: text_view(tracestate),
                tags: tags.deep_view(),
            },
            SpanCommand::Close { key } => SpanCommandView::Close { key: key@ },
        }
    }
}

impl DeepView for SpanCommand {
    type V = SpanCommandView;

    open spec fn deep_view(&self) -> SpanCommandView {
        self@
    }
}

/// The value of the first entry under `key`, where that is a string.
pub open spec fn string_under(details: KVListView, key: Seq<char>) -> Option<Seq<char>> {
    match first_under(details, key) {
        Some(TypedDataView::STRING(s)) => Some(s),
        _ => None,
    }
}

/// What one message asks for: nothing where its name means nothing or it
/// has no entry named `id`.
pub open spec fn spec_plan_message(
    stream_id: u64,
    name: Seq<char>,
    details: KVListView,
) -> Option<SpanCommandView> {
    match spec_key_of(stream_id, details) {
        None => None,
        Some(key) => match spec_message_kind(name) {
            MessageKind::FrontendTcpRequest => Some(
                SpanCommandView::Open {
                    key,
                    name: "frontend_tcp_request"@,
                    tags: spec_extract_tags(details, UnknownTag::ServerIdentity),
                },
            ),
            MessageKind::FrontendHttpRequest => Some(
                SpanCommandView::Reopen {
                    key,
                    name: "frontend_http_request"@,
                    traceparent: string_under(details, traceparent_name()),
                    tracestate: string_under(details, tracestate_name()),
                    tags: spec_extract_tags(details, UnknownTag::ServerIdentity),
                },
            ),
            MessageKind::HttpResponse => Some(SpanCommandView::Close { key }),
            MessageKind::Other => None,
        },
    }
}

/// What the messages of a notification ask for, in the order of the
/// messages.
pub open spec fn spec_plan(stream_id: u64, messages: ListOfMessagesView) -> Seq<SpanCommandView>
    decreases messages.len(),
{
    if messages.len() == 0 {
        Seq::empty()
    } else {
        let rest = spec_plan(stream_id, messages.drop_last());
        match spec_plan_message(stream_id, messages.last().0, messages.last().1) {
            Some(c) => rest.push(c),
            None => rest,
        }
    }
}

fn owned(s: Option<&str>) -> (r: Option<String>)
    ensures
        match (s, r) {
            (Some(a), Some(b)) => a@ == b@,
            (None, None) => true,
            _ => false,
        },
{
    match s {
        Some(s) => Some(String::from_str(s)),
        None => None,
    }
}

/// What one message of a notification asks for.
pub fn plan_message(header: &FrameHeader, name: &str, details: &KVList) -> (r: Option<
    SpanCommand,
>)
    ensures
        match r {
            Some(c) => spec_plan_message(header.stream_id, name@, details.deep_view()) == Some(c@),
            None => spec_plan_message(header.stream_id, name@, details.deep_view()) is None,
        },
{
    let key = match key_of(header, details) {
        Some(key) => key,
        None => {
            return None;
        },
    };
    match message_kind(name) {
        MessageKind::FrontendTcpRequest => Some(
            SpanCommand::Open {
                key,
                name: String::from_str("frontend_tcp_request"),
                tags: extract_tags(details, UnknownTag::ServerIdentity),
            },
        ),
        MessageKind::FrontendHttpRequest => {
            let source = KVListExtractor(details);
            let traceparent = owned(source.get("traceparent"));
            let tracestate = owned(source.get("tracestate"));
            Some(
                SpanCommand::Reopen {
                    key,
                    name: String::from_str("frontend_http_request"),
                    traceparent,
                    tracestate,
                    tags: extract_tags(details, UnknownTag::ServerIdentity),
                },
            )
        },
        MessageKind::HttpResponse => Some(SpanCommand::Close { key }),
        MessageKind::Other => None,
    }
}

/// What the messages of a notification ask for, in the order of the
/// messages: one command for each message whose name means something and
/// which has an entry named `id`.
pub fn handle_notify(header: &FrameHeader, messages: &ListOfMessages) -> (r: Vec<SpanCommand>)
    ensures
        r.deep_view() == spec_plan(header.stream_id, messages.deep_view()),
{
    let ghost all = messages.deep_view();
    let mut commands: Vec<SpanCommand> = Vec::new();
    let mut i: usize = 0;
    assert(commands.deep_view() =~= Seq::<SpanCommandView>::empty());
    assert(all.take(0) =~= Seq::<(Seq<char>, KVListView)>::empty());
    while i < messages.len()
        invariant
            i <= messages.len(),
            all == messages.deep_view(),
            all.len() == messages.len(),
            commands.deep_view() == spec_plan(header.stream_id, all.take(i as int)),
        decreases messages.len() - i,
    {
        let ghost before = commands.deep_view();
        let message = &messages[i];
        proof {
            let upto = all.take(i as int + 1);
            assert(upto.drop_last() =~= all.take(i as int));
            assert(upto.last() == (message.0@, message.1.deep_view()));
        }
        match plan_message(header, message.0.as_str(), &message.1) {
            Some(c) => {
                let ghost cv = c@;
                commands.push(c);
                assert(commands.deep_view() =~= before.push(cv));
            },
            None => {},
        }
        i = i + 1;
    }
    assert(all.take(all.len() as int) =~= all);
    commands
}

} // verus!
