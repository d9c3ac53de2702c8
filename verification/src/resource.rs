//! A named resource holding raw byte fields.

use vstd::prelude::*;

use crate::strcoll::StrMap;

verus! {

/// A named bag of byte-encoded fields, keyed by field name.
pub struct ResourceWrapper {
    name: String,
    data: StrMap<Vec<u8>>,
}

impl ResourceWrapper {
    /// The resource's name.
    pub closed spec fn spec_name(&self) -> Seq<char> {
        self.name@
    }

    /// The stored fields: name to bytes.
    pub closed spec fn fields(&self) -> Map<Seq<char>, Vec<u8>> {
        self.data@
    }

    pub closed spec fn wf(&self) -> bool {
        self.data.wf()
    }

    pub fn new(name: &str) -> (r: ResourceWrapper)
        ensures
            r.wf(),
            r.spec_name() == name@,
            r.fields() == Map::<Seq<char>, Vec<u8>>::empty(),
    {
        ResourceWrapper { name: name.to_owned(), data: StrMap::new() }
    }

    /// The resource's name.
    pub fn name(&self) -> (r: &str)
        ensures
            r@ == self.spec_name(),
    {
        self.name.as_str()
    }

    /// Sets a field, replacing any previous value under that name.
    pub fn set(&mut self, key: &str, value: Vec<u8>)
        requires
            old(self).wf(),
        ensures
            final(self).wf(),
            final(self).spec_name() == old(self).spec_name(),
            final(self).fields() == old(self).fields().insert(key@, value),
    {
        self.data.insert(key.to_owned(), value);
    }

    /// Reads a field back.
    pub fn get(&self, key: &str) -> (r: Option<&Vec<u8>>)
        requires
            self.wf(),
        ensures
            match r {
                Some(v) => self.fields().dom().contains(key@) && *v == self.fields()[key@],
                None => !self.fields().dom().contains(key@),
            },
    {
        self.data.get(key)
    }
}

} // verus!
