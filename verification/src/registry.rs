//! The spans that are open, each under the key of its request.
//!
//! A span lives in the table from the message that opens it to the message
//! that closes it. No two spans are kept under one key: keeping a span
//! under a key that is taken hands the span that was there back to the
//! caller, who decides what becomes of it.
//!
//! The table is a list of pairs in which no key occurs twice. A hash map
//! keyed by strings would find a key faster, but nothing can be proved of
//! one: what vstd states of `std::collections::HashMap` holds only of keys
//! whose hashing is known to agree with their equality, which is not known
//! of `String`; and vstd's own map for string keys cannot hand a value
//! back when its key is removed.

use crate::proplists::first_under;
use crate::render::str_eq;
use vstd::prelude::*;

verus! {

/// Spans of type `H`, each under a key.
pub struct SpanTable<H> {
    entries: Vec<(String, H)>,
}

/// The entries of a table, each key by its view.
pub open spec fn entry_views<H>(entries: Seq<(String, H)>) -> Seq<(Seq<char>, H)> {
    Seq::new(entries.len(), |i: int| (entries[i].0@, entries[i].1))
}

impl<H> View for SpanTable<H> {
    type V = Seq<(Seq<char>, H)>;

    /// The keys and their spans.
    closed spec fn view(&self) -> Seq<(Seq<char>, H)> {
        entry_views(self.entries@)
    }
}

/// Whether no key occurs twice.
pub open spec fn distinct_keys<H>(entries: Seq<(Seq<char>, H)>) -> bool {
    forall|i: int, j: int|
        0 <= i < j < entries.len() ==> (#[trigger] entries[i]).0 != (#[trigger] entries[j]).0
}

/// A key that no entry has gives nothing.
pub proof fn lemma_first_under_absent<H>(entries: Seq<(Seq<char>, H)>, key: Seq<char>)
    requires
        forall|i: int| 0 <= i < entries.len() ==> (#[trigger] entries[i]).0 != key,
    ensures
        first_under(entries, key) is None,
    decreases entries.len(),
{
    if entries.len() > 0 {
        assert(entries[0].0 != key);
        assert forall|i: int| 0 <= i < entries.skip(1).len() implies (#[trigger] entries.skip(
            1,
        )[i]).0 != key by {
            assert(entries[i + 1].0 != key);
        }
        lemma_first_under_absent(entries.skip(1), key);
    }
}

/// Where a key first occurs, what is found under it is what stands there.
pub proof fn lemma_first_under_found<H>(entries: Seq<(Seq<char>, H)>, key: Seq<char>, at: int)
    requires
        0 <= at < entries.len(),
        entries[at].0 == key,
        forall|i: int| 0 <= i < at ==> (#[trigger] entries[i]).0 != key,
    ensures
        first_under(entries, key) == Some(entries[at].1),
    decreases at,
{
    if at > 0 {
        assert(entries[0].0 != key);
        let tail = entries.skip(1);
        assert forall|i: int| 0 <= i < at - 1 implies (#[trigger] tail[i]).0 != key by {
            assert(entries[i + 1].0 != key);
        }
        assert(tail[at - 1] == entries[at]);
        lemma_first_under_found(tail, key, at - 1);
    }
}

/// Taking an entry out leaves what is found under other keys.
pub proof fn lemma_first_under_remove<H>(entries: Seq<(Seq<char>, H)>, key: Seq<char>, at: int)
    requires
        0 <= at < entries.len(),
        entries[at].0 != key,
    ensures
        first_under(entries.remove(at), key) == first_under(entries, key),
    decreases entries.len(),
{
    if at == 0 {
        assert(entries.remove(0) =~= entries.skip(1));
    } else {
        assert(entries.remove(at)[0] == entries[0]);
        if entries[0].0 != key {
            assert(entries.remove(at).skip(1) =~= entries.skip(1).remove(at - 1));
            assert(entries.skip(1)[at - 1] == entries[at]);
            lemma_first_under_remove(entries.skip(1), key, at - 1);
        }
    }
}

/// Adding an entry at the end leaves what is found under other keys, and
/// under its own key where that was found before.
pub proof fn lemma_first_under_push<H>(
    entries: Seq<(Seq<char>, H)>,
    key: Seq<char>,
    added: (Seq<char>, H),
)
    ensures
        first_under(entries.push(added), key) == if first_under(entries, key) is Some {
            first_under(entries, key)
        } else if added.0 == key {
            Some(added.1)
        } else {
            None
        },
    decreases entries.len(),
{
    let more = entries.push(added);
    if entries.len() == 0 {
        assert(more[0] == added);
        assert(more.skip(1) =~= Seq::<(Seq<char>, H)>::empty());
        assert(first_under(more.skip(1), key) is None);
    } else {
        assert(more[0] == entries[0]);
        if entries[0].0 != key {
            assert(more.skip(1) =~= entries.skip(1).push(added));
            lemma_first_under_push(entries.skip(1), key, added);
        }
    }
}

impl<H> SpanTable<H> {
    /// What holds of every table: no key occurs twice.
    #[verifier::type_invariant]
    spec fn wf(self) -> bool {
        distinct_keys(self@)
    }

    /// The span kept under `key`, if there is one.
    pub open spec fn spec_get(&self, key: Seq<char>) -> Option<H> {
        first_under(self@, key)
    }

    /// A table that keeps no span.
    pub fn new() -> (r: Self)
        ensures
            distinct_keys(r@),
            r@.len() == 0,
            forall|key: Seq<char>| r.spec_get(key) is None,
    {
        SpanTable { entries: Vec::new() }
    }

    /// The number of spans kept.
    pub fn len(&self) -> (n: usize)
        ensures
            n == self@.len(),
    {
        self.entries.len()
    }

    /// Where `key` stands in the table: `None` where it does not.
    fn position(&self, key: &str) -> (r: Option<usize>)
        ensures
            match r {
                Some(at) => at < self@.len() && self@[at as int].0 == key@ && forall|i: int|
                    0 <= i < at ==> (#[trigger] self@[i]).0 != key@,
                None => forall|i: int| 0 <= i < self@.len() ==> (#[trigger] self@[i]).0 != key@,
            },
    {
        let mut i: usize = 0;
        while i < self.entries.len()
            invariant
                i <= self.entries.len(),
                self@.len() == self.entries.len(),
                forall|k: int| 0 <= k < i ==> (#[trigger] self@[k]).0 != key@,
            decreases self.entries.len() - i,
        {
            assert(self@[i as int].0 == self.entries@[i as int].0@);
            if str_eq(self.entries[i].0.as_str(), key) {
                return Some(i);
            }
            i = i + 1;
        }
        None
    }

    /// Whether a span is kept under `key`.
    pub fn contains(&self, key: &str) -> (r: bool)
        ensures
            r == self.spec_get(key@) is Some,
    {
        match self.position(key) {
            Some(at) => {
                proof {
                    lemma_first_under_found(self@, key@, at as int);
                }
                true
            },
            None => {
                proof {
                    lemma_first_under_absent(self@, key@);
                }
                false
            },
        }
    }

    /// Keeps `span` under `key`, and hands back the span that was kept
    /// there, if there was one. Spans under other keys stay.
    pub fn insert(&mut self, key: String, span: H) -> (r: Option<H>)
        ensures
            distinct_keys(final(self)@),
            r == old(self).spec_get(key@),
            final(self).spec_get(key@) == Some(span),
            forall|other: Seq<char>|
                other != key@ ==> final(self).spec_get(other) == old(self).spec_get(other),
            final(self)@.len() == old(self)@.len() + (if r is Some {
                0int
            } else {
                1int
            }),
    {
        let ghost before = self@;
        proof {
            use_type_invariant(&*self);
        }
        let found = self.position(key.as_str());
        let mut taken = SpanTable { entries: Vec::new() };
        std::mem::swap(self, &mut taken);
        let mut entries = taken.entries;
        assert(before.len() == entries@.len());
        assert(forall|i: int| 0 <= i < before.len() ==> before[i] == (entries@[i].0@, entries@[i].1));
        match found {
            Some(at) => {
                let old_entry = entries.remove(at);
                let ghost mid = entry_views(entries@);
                assert(mid =~= before.remove(at as int));
                entries.push((key, span));
                let ghost after = entry_views(entries@);
                assert(after =~= mid.push((key@, span)));
                proof {
                    lemma_first_under_found(before, key@, at as int);
                    assert(distinct_keys(mid)) by {
                        assert forall|i: int, j: int| 0 <= i < j < mid.len() implies (
                        #[trigger] mid[i]).0 != (#[trigger] mid[j]).0 by {
                            let a = if i < at { i } else { i + 1 };
                            let b = if j < at { j } else { j + 1 };
                            assert(mid[i] == before[a]);
                            assert(mid[j] == before[b]);
                        }
                    }
                    assert forall|i: int| 0 <= i < mid.len() implies (#[trigger] mid[i]).0
                        != key@ by {
                        let a = if i < at { i } else { i + 1 };
                        assert(mid[i] == before[a]);
                        if a < at {
                            assert(before[a].0 != before[at as int].0);
                        } else {
                            assert(before[at as int].0 != before[a].0);
                        }
                    }
                    assert(distinct_keys(after)) by {
                        assert forall|i: int, j: int| 0 <= i < j < after.len() implies (
                        #[trigger] after[i]).0 != (#[trigger] after[j]).0 by {
                            if j < mid.len() {
                                assert(after[i] == mid[i] && after[j] == mid[j]);
                            } else {
                                assert(after[i] == mid[i]);
                            }
                        }
                    }
                    lemma_first_under_absent(mid, key@);
                    lemma_first_under_push(mid, key@, (key@, span));
                    assert forall|other: Seq<char>| other != key@ implies first_under(after, other)
                        == first_under(before, other) by {
                        lemma_first_under_push(mid, other, (key@, span));
                        lemma_first_under_remove(before, other, at as int);
                    }
                }
                *self = SpanTable { entries };
                assert(self@ =~= after);
                Some(old_entry.1)
            },
            None => {
                entries.push((key, span));
                let ghost after = entry_views(entries@);
                assert(after =~= before.push((key@, span)));
                proof {
                    lemma_first_under_absent(before, key@);
                    lemma_first_under_push(before, key@, (key@, span));
                    assert(distinct_keys(after)) by {
                        assert forall|i: int, j: int| 0 <= i < j < after.len() implies (
                        #[trigger] after[i]).0 != (#[trigger] after[j]).0 by {
                            if j < before.len() {
                                assert(after[i] == before[i] && after[j] == before[j]);
                            } else {
                                assert(after[i] == before[i]);
                            }
                        }
                    }
                    assert forall|other: Seq<char>| other != key@ implies first_under(after, other)
                        == first_under(before, other) by {
                        lemma_first_under_push(before, other, (key@, span));
                    }
                }
                *self = SpanTable { entries };
                assert(self@ =~= after);
                None
            },
        }
    }

    /// Takes the span kept under `key` out of the table: `None` where there
    /// is none. Spans under other keys stay.
    pub fn remove(&mut self, key: &str) -> (r: Option<H>)
        ensures
            distinct_keys(final(self)@),
            r == old(self).spec_get(key@),
            final(self).spec_get(key@) is None,
            forall|other: Seq<char>|
                other != key@ ==> final(self).spec_get(other) == old(self).spec_get(other),
            final(self)@.len() == old(self)@.len() - (if r is Some {
                1int
            } else {
                0int
            }),
    {
        let ghost before = self@;
        proof {
            use_type_invariant(&*self);
        }
        match self.position(key) {
            Some(at) => {
                let mut taken = SpanTable { entries: Vec::new() };
                std::mem::swap(self, &mut taken);
                let mut entries = taken.entries;
                assert(before.len() == entries@.len());
                assert(forall|i: int|
                    0 <= i < before.len() ==> before[i] == (entries@[i].0@, entries@[i].1));
                let entry = entries.remove(at);
                let ghost after = entry_views(entries@);
                assert(after =~= before.remove(at as int));
                proof {
                    lemma_first_under_found(before, key@, at as int);
                    assert(distinct_keys(after)) by {
                        assert forall|i: int, j: int| 0 <= i < j < after.len() implies (
                        #[trigger] after[i]).0 != (#[trigger] after[j]).0 by {
                            let a = if i < at { i } else { i + 1 };
                            let b = if j < at { j } else { j + 1 };
                            assert(after[i] == before[a]);
                            assert(after[j] == before[b]);
                        }
                    }
                    assert forall|i: int| 0 <= i < after.len() implies (#[trigger] after[i]).0
                        != key@ by {
                        let a = if i < at { i } else { i + 1 };
                        assert(after[i] == before[a]);
                        if a < at {
                            assert(before[a].0 != before[at as int].0);
                        } else {
                            assert(before[at as int].0 != before[a].0);
                        }
                    }
                    lemma_first_under_absent(after, key@);
                    assert forall|other: Seq<char>| other != key@ implies first_under(after, other)
                        == first_under(before, other) by {
                        lemma_first_under_remove(before, other, at as int);
                    }
                }
                *self = SpanTable { entries };
                assert(self@ =~= after);
                Some(entry.1)
            },
            None => {
                proof {
                    lemma_first_under_absent(before, key@);
                }
                None
            },
        }
    }
}

} // verus!
