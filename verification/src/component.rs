//! Dynamic component descriptions and their per-entity data.

use vstd::prelude::*;

use crate::strcoll::StrMap;

verus! {

/// The primitive type of one component attribute.
#[derive(Debug, Clone, Copy, PartialEq, Eq, Structural)]
pub enum AttributeType {
    Integer,
    Float,
    Boolean,
    String,
    Vec2,
    Vec3,
    Quat,
    Entity,
}

/// One attribute a component declares: its name, type, and optional
/// byte-encoded default.
#[derive(Debug, Clone)]
pub struct AttributeDescriptor {
    pub name: String,
    pub attr_type: AttributeType,
    pub default_value: Option<Vec<u8>>,
}

/// A component's declaration: its name and its attributes in declaration
/// order.
#[derive(Debug, Clone)]
pub struct ComponentMetadata {
    pub name: String,
    pub attributes: Vec<AttributeDescriptor>,
}

/// One component value: its declaration plus the byte-encoded attribute
/// values set so far.
pub struct ComponentData {
    pub metadata: ComponentMetadata,
    pub data: StrMap<Vec<u8>>,
}

impl ComponentData {
    /// The attribute values set so far: name to bytes.
    pub open spec fn values(&self) -> Map<Seq<char>, Vec<u8>> {
        self.data@
    }

    pub open spec fn wf(&self) -> bool {
        self.data.wf()
    }

    /// A component named `name` with no attributes declared and no values
    /// set.
    pub fn new(name: &str) -> (r: ComponentData)
        ensures
            r.wf(),
            r.metadata.name@ == name@,
            r.metadata.attributes@ == Seq::<AttributeDescriptor>::empty(),
            r.values() == Map::<Seq<char>, Vec<u8>>::empty(),
    {
        ComponentData {
            metadata: ComponentMetadata { name: name.to_owned(), attributes: Vec::new() },
            data: StrMap::new(),
        }
    }

    /// Declares one more attribute, with no default.
    pub fn with_attribute(self, name: &str, attr_type: AttributeType) -> (r: ComponentData)
        ensures
            r.wf() == self.wf(),
            r.metadata.name == self.metadata.name,
            r.values() == self.values(),
            r.metadata.attributes@.len() == self.metadata.attributes@.len() + 1,
            forall|i: int|
                0 <= i < self.metadata.attributes@.len() ==> r.metadata.attributes@[i]
                    == self.metadata.attributes@[i],
            r.metadata.attributes@.last().name@ == name@,
            r.metadata.attributes@.last().attr_type == attr_type,
            r.metadata.attributes@.last().default_value is None,
    {
        let mut r = self;
        r.metadata.attributes.push(
            AttributeDescriptor { name: name.to_owned(), attr_type, default_value: None },
        );
        r
    }

    /// Sets one attribute's byte-encoded value, replacing any previous one.
    pub fn set_data(&mut self, name: &str, data: Vec<u8>)
        requires
            old(self).wf(),
        ensures
            final(self).wf(),
            final(self).metadata == old(self).metadata,
            final(self).values() == old(self).values().insert(name@, data),
    {
        self.data.insert(name.to_owned(), data);
    }

    /// Reads one attribute's value back.
    pub fn get_data(&self, name: &str) -> (r: Option<&Vec<u8>>)
        requires
            self.wf(),
        ensures
            match r {
                Some(v) => self.values().dom().contains(name@) && *v == self.values()[name@],
                None => !self.values().dom().contains(name@),
            },
    {
        self.data.get(name)
    }
}

} // verus!
