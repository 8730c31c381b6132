use vstd::prelude::*;

verus! {

/// Identifies a geometric object / tool record. Ids are plain counters
/// handed out by `Document::add_tool` and `PatternData::add_object`.
#[derive(Debug, Clone, Copy, PartialEq, Eq, Structural, Hash, PartialOrd, Ord)]
pub struct ObjectId(pub u32);

impl ObjectId {
    /// Wraps a raw counter value.
    pub fn new(id: u32) -> (r: ObjectId)
        ensures
            r.0 == id,
    {
        ObjectId(id)
    }

    /// Wraps a raw counter value (the name used when the value comes from
    /// outside the library, e.g. a file).
    pub fn from_raw(id: u32) -> (r: ObjectId)
        ensures
            r.0 == id,
    {
        ObjectId(id)
    }

    /// The raw counter value.
    pub fn raw(&self) -> (r: u32)
        ensures
            r == self.0,
    {
        self.0
    }
}

} // verus!
