//! The mappings that a dialect is defined by.

use vstd::prelude::*;

verus! {

/// One declared correspondence between a cp437 byte and a Unicode scalar.
#[derive(Debug, Clone, Hash, Eq, Ord, PartialEq, PartialOrd)]
pub struct Mapping {
    /// The cp437 byte.
    pub cp437: u8,
    /// The Unicode scalar.
    pub unicode: char,
    /// What the character is, for a human reader.
    pub comment: String,
}

impl Mapping {
    /// The byte and the scalar, without the comment.
    pub open spec fn pair(self) -> (u8, char) {
        (self.cp437, self.unicode)
    }
}

/// The bytes and scalars of a list of mappings, in its order.
pub open spec fn pairs(mappings: Seq<Mapping>) -> Seq<(u8, char)> {
    Seq::new(mappings.len(), |i: int| mappings[i].pair())
}

/// Take the bytes and scalars out of a list of mappings.
pub fn to_pairs(mappings: &[Mapping]) -> (out: Vec<(u8, char)>)
    ensures
        out@ == pairs(mappings@),
{
    let mut out: Vec<(u8, char)> = Vec::with_capacity(mappings.len());
    let mut i: usize = 0;
    while i < mappings.len()
        invariant
            i <= mappings.len(),
            out@ == pairs(mappings@).take(i as int),
        decreases mappings.len() - i,
    {
        out.push((mappings[i].cp437, mappings[i].unicode));
        i = i + 1;
    }
    out
}

} // verus!
