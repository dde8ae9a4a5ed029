//! A list of named properties that keeps the order in which they came, and
//! every one of them where a name comes more than once.

use crate::render::str_eq;
use vstd::prelude::*;
use vstd::string::StringExecFns;

verus! {

#[derive(Debug)]
pub struct PropLists<T>(Vec<(String, T)>);

/// The value of the first entry under `key`, if there is such an entry.
pub open spec fn first_under<T>(entries: Seq<(Seq<char>, T)>, key: Seq<char>) -> Option<T>
    decreases entries.len(),
{
    if entries.len() == 0 {
        None
    } else if entries[0].0 == key {
        Some(entries[0].1)
    } else {
        first_under(entries.skip(1), key)
    }
}

impl<T> View for PropLists<T> {
    type V = Seq<(Seq<char>, T)>;

    /// The entries in the order in which they were pushed.
    closed spec fn view(&self) -> Seq<(Seq<char>, T)> {
        Seq::new(self.0@.len(), |i: int| (self.0@[i].0@, self.0@[i].1))
    }
}

impl<T: DeepView> DeepView for PropLists<T> {
    type V = Seq<(Seq<char>, T::V)>;

    /// The entries in the order in which they were pushed, each value by
    /// its view.
    open spec fn deep_view(&self) -> Seq<(Seq<char>, T::V)> {
        Seq::new(self@.len(), |i: int| (self@[i].0, self@[i].1.deep_view()))
    }
}

impl<T> PropLists<T> {
    /// A list with no entries.
    pub fn new() -> (r: Self)
        ensures
            r@ == Seq::<(Seq<char>, T)>::empty(),
    {
        let r = PropLists(Vec::new());
        assert(r@ =~= Seq::<(Seq<char>, T)>::empty());
        r
    }

    /// The value of the first entry under `key`: `None` where there is no
    /// such entry.
    pub fn first(&self, key: &str) -> (r: Option<&T>)
        ensures
            match r {
                Some(v) => first_under(self@, key@) == Some(*v),
                None => first_under(self@, key@) is None,
            },
    {
        let mut i: usize = 0;
        assert(self@.skip(0) =~= self@);
        while i < self.0.len()
            invariant
                i <= self.0.len(),
                self@.len() == self.0.len(),
                first_under(self@, key@) == first_under(self@.skip(i as int), key@),
            decreases self.0.len() - i,
        {
            let entry = &self.0[i];
            assert(self@.skip(i as int)[0] == (entry.0@, entry.1));
            if str_eq(entry.0.as_str(), key) {
                return Some(&entry.1);
            }
            assert(self@.skip(i as int).skip(1) =~= self@.skip(i as int + 1));
            i = i + 1;
        }
        None
    }

    /// Adds an entry at the end.
    pub fn push(&mut self, key: &str, value: T)
        ensures
            final(self)@ == old(self)@.push((key@, value)),
    {
        self.0.push((String::from_str(key), value));
        assert(self@ =~= old(self)@.push((key@, value)));
    }

    /// The number of entries.
    pub fn len(&self) -> (n: usize)
        ensures
            n == self@.len(),
    {
        self.0.len()
    }

    /// The entry at `index`: its name and its value.
    pub fn get(&self, index: usize) -> (r: (&str, &T))
        requires
            index < self@.len(),
        ensures
            r.0@ == self@[index as int].0,
            *r.1 == self@[index as int].1,
    {
        let entry = &self.0[index];
        (entry.0.as_str(), &entry.1)
    }

    /// The entries, in order, as owned pairs.
    pub fn into_vec(self) -> (r: Vec<(String, T)>)
        ensures
            r@.len() == self@.len(),
            forall|i: int| 0 <= i < r@.len() ==> (#[trigger] r@[i]).0@ == self@[i].0 && r@[i].1 == self@[i].1,
    {
        self.0
    }
}

impl<T> IntoIterator for PropLists<T> {
    type Item = (String, T);

    type IntoIter = std::vec::IntoIter<(String, T)>;

    /// The entries, in order.
    fn into_iter(self) -> (r: Self::IntoIter)
        ensures
            vstd::std_specs::iter::IteratorSpec::remaining(&r).len() == self@.len(),
            forall|i: int|
                0 <= i < self@.len() ==> (#[trigger] vstd::std_specs::iter::IteratorSpec::remaining(
                    &r,
                )[i]).0@ == self@[i].0 && vstd::std_specs::iter::IteratorSpec::remaining(&r)[i].1
                    == self@[i].1,
    {
        broadcast use vstd::std_specs::vec::axiom_spec_into_iter;

        self.0.into_iter()
    }
}

} // verus!
