//! What a dialect is, as mathematics.
//!
//! A dialect is a list of primary mappings, a list of variant mappings, an
//! overlap rule and a history of remaps. Everything that a dialect answers is
//! a function of these four.

use vstd::prelude::*;
use crate::lookup::{
    decoded_by, is_last_for_byte, is_last_for_scalar, last_byte_for, last_scalar_for,
    lemma_last_byte_for, lemma_last_scalar_for,
};
use crate::overlap::Overlap;

verus! {

/// A dialect definition with the remaps applied to it so far.
pub struct DialectModel {
    /// The primary mappings, in the order of their declaration.
    pub primary: Seq<(u8, char)>,
    /// The variant mappings, in the order of their declaration.
    pub variants: Seq<(u8, char)>,
    /// The bytes that mean the same in Unicode.
    pub overlap: Overlap,
    /// The remaps, oldest first: the byte, the scalar it decoded to before, and
    /// the scalar it decodes to since.
    pub remaps: Seq<(u8, char, char)>,
}

/// The remaps as mappings from byte to new scalar.
pub open spec fn remap_pairs(remaps: Seq<(u8, char, char)>) -> Seq<(u8, char)> {
    Seq::new(remaps.len(), |i: int| (remaps[i].0, remaps[i].2))
}

impl DialectModel {
    /// The dialect as compiled from a definition, before any remap.
    pub open spec fn compiled(
        primary: Seq<(u8, char)>,
        variants: Seq<(u8, char)>,
        overlap: Overlap,
    ) -> DialectModel {
        DialectModel { primary, variants, overlap, remaps: Seq::empty() }
    }

    /// The remaps as mappings from byte to new scalar.
    pub open spec fn remapped(self) -> Seq<(u8, char)> {
        remap_pairs(self.remaps)
    }

    /// What the byte decodes to before any remap: the scalar of its last
    /// primary mapping, or the scalar of its own number.
    pub open spec fn compiled_decode(self, cp437: u8) -> char {
        decoded_by(self.primary, cp437)
    }

    /// What the scalar encodes to before any remap: the byte of its last
    /// variant mapping, else of its last primary mapping, else its own number
    /// where it overlaps.
    pub open spec fn compiled_encode(self, unicode: char) -> Option<u8> {
        match last_byte_for(self.variants, unicode) {
            Some(cp437) => Some(cp437),
            None => match last_byte_for(self.primary, unicode) {
                Some(cp437) => Some(cp437),
                None => if self.overlap.has_unicode(unicode) {
                    Some(unicode as u8)
                } else {
                    None
                },
            },
        }
    }

    /// What the byte decodes to: the new scalar of its last remap, or what it
    /// was compiled to.
    pub open spec fn decode(self, cp437: u8) -> char {
        match last_scalar_for(self.remapped(), cp437) {
            Some(unicode) => unicode,
            None => self.compiled_decode(cp437),
        }
    }

    /// What the scalar encodes to: the byte of the last remap to it, or what
    /// it was compiled to.
    pub open spec fn encode(self, unicode: char) -> Option<u8> {
        match last_byte_for(self.remapped(), unicode) {
            Some(cp437) => Some(cp437),
            None => self.compiled_encode(unicode),
        }
    }

    /// Whether some remap is of the byte `cp437`.
    pub open spec fn remaps_byte(self, cp437: u8) -> bool {
        exists|i: int| 0 <= i < self.remaps.len() && (#[trigger] self.remaps[i]).0 == cp437
    }

    /// Whether some remap is to the scalar `unicode`.
    pub open spec fn remaps_to(self, unicode: char) -> bool {
        exists|i: int| 0 <= i < self.remaps.len() && (#[trigger] self.remaps[i]).2 == unicode
    }

    /// Whether the byte still means the same in Unicode.
    pub open spec fn overlap_cp437(self, cp437: u8) -> bool {
        self.overlap.has_cp437(cp437) && !self.remaps_byte(cp437)
    }

    /// Whether the scalar still means the same in cp437: the rule has it, no
    /// remap is to it, and no remap is of the byte of its number.
    pub open spec fn overlap_unicode(self, unicode: char) -> bool {
        &&& self.overlap.has_unicode(unicode)
        &&& !self.remaps_to(unicode)
        &&& !self.remaps_byte(unicode as u8)
    }

    /// The dialect after one more remap, of the byte `cp437` to the scalar
    /// `unicode`.
    pub open spec fn remap(self, cp437: u8, unicode: char) -> DialectModel {
        DialectModel { remaps: self.remaps.push((cp437, self.decode(cp437), unicode)), ..self }
    }

    /// The dialect of the same definition with another history of remaps.
    pub open spec fn with_remaps(self, remaps: Seq<(u8, char, char)>) -> DialectModel {
        DialectModel { remaps, ..self }
    }

    /// The dialect as it was after its first `n` remaps.
    pub open spec fn after(self, n: int) -> DialectModel {
        DialectModel { remaps: self.remaps.take(n), ..self }
    }

    /// The byte `cp437` is in the overlap set, and the definition decodes it
    /// to another scalar or encodes its scalar to another byte.
    pub open spec fn breaks_overlap(self, cp437: u8) -> bool {
        &&& self.overlap.has_cp437(cp437)
        &&& (self.compiled_decode(cp437) != cp437 as char || self.compiled_encode(cp437 as char)
            != Some(cp437))
    }

    /// The overlap rule has exactly the bytes that the definition decodes
    /// to the scalars of their own numbers.
    pub open spec fn overlap_is_all_identity(self) -> bool {
        forall|cp437: u8|
            self.overlap.has_cp437(cp437) <==> #[trigger] self.compiled_decode(cp437)
                == cp437 as char
    }

    /// The definition agrees with its overlap rule.
    pub open spec fn consistent(self) -> bool {
        forall|cp437: u8| !#[trigger] self.breaks_overlap(cp437)
    }

    /// Each remap has recorded what its byte decoded to before it.
    pub open spec fn coherent(self) -> bool {
        forall|i: int|
            0 <= i < self.remaps.len() ==> (#[trigger] self.remaps[i]).1 == self.after(i).decode(
                self.remaps[i].0,
            )
    }

    /// The dialect is one that compiling and remapping can produce.
    pub open spec fn wf(self) -> bool {
        self.consistent() && self.coherent()
    }
    /// Some remap is to the scalar exactly when the last-match lookup among
    /// the remaps finds a byte for it.
    pub proof fn lemma_remaps_to(self, unicode: char)
        ensures
            self.remaps_to(unicode) <==> last_byte_for(self.remapped(), unicode) is Some,
    {
        let pairs = self.remapped();
        lemma_last_byte_for(pairs, unicode);
        if self.remaps_to(unicode) {
            let i = choose|i: int|
                0 <= i < self.remaps.len() && (#[trigger] self.remaps[i]).2 == unicode;
            assert(pairs[i].1 == unicode);
        }
        if last_byte_for(pairs, unicode) is Some {
            let i = choose|i: int|
                is_last_for_scalar(pairs, i, unicode) && (#[trigger] pairs[i]).0 == last_byte_for(
                    pairs,
                    unicode,
                )->0;
            assert(self.remaps[i].2 == unicode);
        }
    }

    /// Some remap is of the byte exactly when the last-match lookup among the
    /// remaps finds a scalar for it.
    pub proof fn lemma_remaps_byte(self, cp437: u8)
        ensures
            self.remaps_byte(cp437) <==> last_scalar_for(self.remapped(), cp437) is Some,
    {
        let pairs = self.remapped();
        lemma_last_scalar_for(pairs, cp437);
        if self.remaps_byte(cp437) {
            let i = choose|i: int|
                0 <= i < self.remaps.len() && (#[trigger] self.remaps[i]).0 == cp437;
            assert(pairs[i].0 == cp437);
        }
        if last_scalar_for(pairs, cp437) is Some {
            let i = choose|i: int|
                is_last_for_byte(pairs, i, cp437) && (#[trigger] pairs[i]).1 == last_scalar_for(
                    pairs,
                    cp437,
                )->0;
            assert(self.remaps[i].0 == cp437);
        }
    }

    /// A remap changes what one byte decodes to, and nothing else of
    /// decoding.
    pub proof fn lemma_remap_decode(self, cp437: u8, unicode: char, other: u8)
        ensures
            self.remap(cp437, unicode).decode(other) == if other == cp437 {
                unicode
            } else {
                self.decode(other)
            },
    {
        let after = self.remap(cp437, unicode);
        assert(after.remapped().last() == (cp437, unicode));
        assert(after.remapped().drop_last() == self.remapped());
    }

    /// A remap changes what one scalar encodes to, and nothing else of
    /// encoding.
    pub proof fn lemma_remap_encode(self, cp437: u8, unicode: char, other: char)
        ensures
            self.remap(cp437, unicode).encode(other) == if other == unicode {
                Some(cp437)
            } else {
                self.encode(other)
            },
    {
        let after = self.remap(cp437, unicode);
        assert(after.remapped().last() == (cp437, unicode));
        assert(after.remapped().drop_last() == self.remapped());
    }

    /// A remap of a valid dialect leaves it valid.
    pub proof fn lemma_remap_wf(self, cp437: u8, unicode: char)
        requires
            self.wf(),
        ensures
            self.remap(cp437, unicode).wf(),
    {
        let after = self.remap(cp437, unicode);
        assert forall|b: u8| !#[trigger] after.breaks_overlap(b) by {
            assert(!self.breaks_overlap(b));
        }
        assert forall|i: int| 0 <= i < after.remaps.len() implies (#[trigger] after.remaps[i]).1
            == after.after(i).decode(after.remaps[i].0) by {
            if i < self.remaps.len() {
                assert(after.remaps.take(i) == self.remaps.take(i));
                assert(after.after(i) == self.after(i));
                assert(self.remaps[i].1 == self.after(i).decode(self.remaps[i].0));
            } else {
                assert(after.remaps.take(i) == self.remaps);
                assert(after.after(i) == self);
            }
        }
    }
    /// A byte that overlaps is ASCII and decodes to the scalar of its own
    /// number.
    pub proof fn lemma_overlap_cp437(self, cp437: u8)
        requires
            self.consistent(),
            self.overlap_cp437(cp437),
        ensures
            cp437 < 0x80,
            self.decode(cp437) == cp437 as char,
    {
        self.lemma_remaps_byte(cp437);
        assert(!self.breaks_overlap(cp437));
    }

    /// A scalar that overlaps is ASCII, encodes to the byte of its own
    /// number, and is what that byte decodes to.
    pub proof fn lemma_overlap_unicode(self, unicode: char)
        requires
            self.consistent(),
            self.overlap_unicode(unicode),
        ensures
            '\u{00}' <= unicode <= '\u{7F}',
            self.encode(unicode) == Some(unicode as u8),
            self.decode(unicode as u8) == unicode,
            self.overlap_cp437(unicode as u8),
    {
        self.lemma_remaps_to(unicode);
        self.lemma_remaps_byte(unicode as u8);
        self.overlap.lemma_predicates_agree(unicode);
        assert(!self.breaks_overlap(unicode as u8));
    }

    /// Where the definition agrees with its rule, a byte overlaps exactly
    /// where the rule has it, it decodes to the scalar of its own number, and
    /// no remap is of it.
    pub proof fn lemma_overlap_cp437_is_identity(self, cp437: u8)
        requires
            self.consistent(),
        ensures
            self.overlap_cp437(cp437) <==> self.overlap.has_cp437(cp437) && self.decode(cp437)
                == cp437 as char && !self.remaps_byte(cp437),
    {
        if self.overlap_cp437(cp437) {
            self.lemma_overlap_cp437(cp437);
        }
    }

    /// Where the definition agrees with its rule, a scalar overlaps exactly
    /// where the rule has it, the byte of its number decodes to it, and no
    /// remap is to it.
    pub proof fn lemma_overlap_unicode_is_identity(self, unicode: char)
        requires
            self.consistent(),
        ensures
            self.overlap_unicode(unicode) <==> self.overlap.has_unicode(unicode) && self.decode(
                unicode as u8,
            ) == unicode && !self.remaps_to(unicode),
    {
        if self.overlap_unicode(unicode) {
            self.lemma_overlap_unicode(unicode);
        }
        if self.overlap.has_unicode(unicode) && self.decode(unicode as u8) == unicode
            && !self.remaps_to(unicode) {
            let cp437 = unicode as u8;
            self.lemma_remaps_byte(cp437);
            if self.remaps_byte(cp437) {
                let remapped = self.remapped();
                lemma_last_scalar_for(remapped, cp437);
                let i = choose|i: int|
                    is_last_for_byte(remapped, i, cp437) && (#[trigger] remapped[i]).1
                        == unicode;
                assert(self.remaps[i].2 == unicode);
            }
        }
    }
}

} // verus!
