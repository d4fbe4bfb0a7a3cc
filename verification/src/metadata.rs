//! Ordered key/value metadata, as carried in headers and trailers.

use vstd::prelude::*;

verus! {

/// The entries of a metadata map, as a sequence of key/value pairs.
pub type Entries = Seq<(Seq<char>, Seq<char>)>;

/// The value of the first entry stored under `key`, if there is one.
pub open spec fn first_value(entries: Entries, key: Seq<char>) -> Option<Seq<char>>
    decreases entries.len(),
{
    if entries.len() == 0 {
        None
    } else if entries[0].0 == key {
        Some(entries[0].1)
    } else {
        first_value(entries.drop_first(), key)
    }
}

/// A list of key/value pairs in the order in which they were appended.
/// The contents are stored and handed on as they are.
#[derive(Debug, PartialEq, Eq)]
pub struct MetadataMap {
    entries: Vec<(String, String)>,
}

impl View for MetadataMap {
    type V = Entries;

    closed spec fn view(&self) -> Entries {
        Seq::new(self.entries@.len(), |i: int| (self.entries@[i].0@, self.entries@[i].1@))
    }
}

impl MetadataMap {
    /// A map without entries.
    pub fn new() -> (m: Self)
        ensures
            m@.len() == 0,
    {
        MetadataMap { entries: Vec::new() }
    }

    /// Adds one entry behind those already there.
    pub fn append(&mut self, key: &str, value: &str)
        ensures
            final(self)@ == old(self)@.push((key@, value@)),
    {
        self.entries.push((String::from_str(key), String::from_str(value)));
        assert(self@ =~= old(self)@.push((key@, value@)));
    }

    /// The number of entries.
    pub fn len(&self) -> (n: usize)
        ensures
            n == self@.len(),
    {
        self.entries.len()
    }

    /// The key of entry `i`.
    pub fn key(&self, i: usize) -> (k: &str)
        requires
            i < self@.len(),
        ensures
            k@ == self@[i as int].0,
    {
        self.entries[i].0.as_str()
    }

    /// The value of entry `i`.
    pub fn value(&self, i: usize) -> (v: &str)
        requires
            i < self@.len(),
        ensures
            v@ == self@[i as int].1,
    {
        self.entries[i].1.as_str()
    }

    /// The value of the first entry under `key`, or `None` where no entry has that key.
    pub fn get(&self, key: &str) -> (r: Option<&str>)
        ensures
            match r {
                Some(v) => first_value(self@, key@) == Some(v@),
                None => first_value(self@, key@) is None,
            },
    {
        let wanted = String::from_str(key);
        let mut i: usize = 0;
        assert(self@.skip(0) =~= self@);
        while i < self.entries.len()
            invariant
                i <= self.entries.len(),
                wanted@ == key@,
                first_value(self@, key@) == first_value(self@.skip(i as int), key@),
            decreases self.entries.len() - i,
        {
            if self.entries[i].0 == wanted {
                assert(self@.skip(i as int)[0] == self@[i as int]);
                return Some(self.entries[i].1.as_str());
            }
            assert(self@.skip(i as int).drop_first() =~= self@.skip(i as int + 1));
            i = i + 1;
        }
        None
    }
}

impl Clone for MetadataMap {
    /// A map with the same entries in the same order.
    fn clone(&self) -> (copy: Self)
        ensures
            copy@ == self@,
    {
        let mut entries: Vec<(String, String)> = Vec::new();
        let mut i: usize = 0;
        while i < self.entries.len()
            invariant
                i <= self.entries.len(),
                entries@.len() == i,
                forall|k: int|
                    0 <= k < i ==> (#[trigger] entries@[k]).0@ == self.entries@[k].0@ && entries@[k].1@
                        == self.entries@[k].1@,
            decreases self.entries.len() - i,
        {
            entries.push((self.entries[i].0.clone(), self.entries[i].1.clone()));
            i = i + 1;
        }
        let copy = MetadataMap { entries };
        assert(copy@ =~= self@);
        copy
    }
}

} // verus!
