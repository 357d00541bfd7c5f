use vstd::prelude::*;

verus! {

/// A stored record: a caller-chosen id and an ordered sequence of 32-bit
/// floats, each held as its IEEE-754 bit pattern so that it round-trips
/// exactly.
#[derive(Debug, Clone, PartialEq, Eq)]
pub struct Vector {
    pub id: String,
    pub data: Vec<u32>,
}

impl Vector {
    pub fn new(id: String, data: Vec<u32>) -> (r: Vector)
        ensures
            r.id@ == id@,
            r.data@ == data@,
    {
        Vector { id, data }
    }

    /// The number of elements.
    pub fn size(&self) -> (r: usize)
        ensures
            r == self.data@.len(),
    {
        self.data.len()
    }
}

} // verus!
