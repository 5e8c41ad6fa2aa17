//! The smallest structured document: an empty one.
use vstd::prelude::*;

verus! {

/// A structured document that this library can write by itself.
pub enum Nbt {
    /// The empty document, a single end tag.
    Empty,
}

impl Nbt {
    /// Appends the document's bytes.
    pub fn write(&self, buffer: &mut Vec<u8>)
        ensures
            final(buffer)@ == old(buffer)@.push(0),
    {
        match self {
            Nbt::Empty => buffer.push(0x00),
        }
    }
}

} // verus!
