//! Which bytes of a dialect mean the same character in Unicode.

use vstd::prelude::*;

verus! {

/// The set of bytes whose cp437 meaning is the Unicode scalar of the same
/// number. Every such byte is ASCII, so a run of them is its own UTF-8.
#[derive(Clone, Copy, Debug, PartialEq, Eq, PartialOrd, Ord, Hash)]
pub enum Overlap {
    /// All of ASCII, the control characters included.
    Ascii,
    /// NUL and the printable part of ASCII; the other control characters and
    /// DEL are taken by glyphs.
    Printable,
}

impl Overlap {
    /// Whether the byte `cp437` is in the set.
    pub open spec fn has_cp437(self, cp437: u8) -> bool {
        match self {
            Overlap::Ascii => cp437 <= 0x7F,
            Overlap::Printable => cp437 == 0 || (0x1F < cp437 && cp437 < 0x7F),
        }
    }

    /// Whether the scalar `unicode` is the scalar of a byte in the set.
    pub open spec fn has_unicode(self, unicode: char) -> bool {
        match self {
            Overlap::Ascii => unicode <= '\u{7F}',
            Overlap::Printable => unicode == '\u{00}' || ('\u{1F}' < unicode && unicode < '\u{7F}'),
        }
    }

    /// Whether two rules are the same rule.
    pub fn same_as(self, other: Overlap) -> (same: bool)
        ensures
            same == (self == other),
    {
        match (self, other) {
            (Overlap::Ascii, Overlap::Ascii) => true,
            (Overlap::Printable, Overlap::Printable) => true,
            _ => false,
        }
    }

    /// Check, whether the specified cp437 codepoint is in the set.
    #[verifier::when_used_as_spec(has_cp437)]
    pub fn overlap_cp437(self, cp437: u8) -> (overlaps: bool)
        ensures
            overlaps == self.has_cp437(cp437),
    {
        match self {
            Overlap::Ascii => cp437 <= 0x7F,
            Overlap::Printable => cp437 == 0 || (cp437 > 0x1F && cp437 < 0x7F),
        }
    }

    /// Check, whether the specified Unicode codepoint is in the set.
    #[verifier::when_used_as_spec(has_unicode)]
    pub fn overlap_unicode(self, unicode: char) -> (overlaps: bool)
        ensures
            overlaps == self.has_unicode(unicode),
    {
        match self {
            Overlap::Ascii => unicode <= '\u{7F}',
            Overlap::Printable => unicode == '\u{00}' || (unicode > '\u{1F}' && unicode < '\u{7F}'),
        }
    }

    /// The two predicates describe one set: a scalar is in it exactly when it
    /// fits in a byte and that byte is in it.
    pub proof fn lemma_predicates_agree(self, unicode: char)
        ensures
            self.has_unicode(unicode) <==> (unicode as u32) < 0x80 && self.has_cp437(unicode as u8),
            self.has_unicode(unicode) ==> (unicode as u8) as char == unicode,
    {
    }

    /// Every byte of the set is ASCII, and its scalar is in the set.
    pub proof fn lemma_cp437_is_ascii(self, cp437: u8)
        requires
            self.has_cp437(cp437),
        ensures
            cp437 < 0x80,
            self.has_unicode(cp437 as char),
            (cp437 as char) as u8 == cp437,
    {
    }
}

} // verus!
