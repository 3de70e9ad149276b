//! Compiled dialects: the table compiler and the four conversions of single
//! codepoints.

use vstd::prelude::*;
use vstd::slice::slice_to_vec;
use vstd::std_specs::cmp::PartialEqSpecImpl;
use crate::lookup::{decoded_by, find_byte, last_byte_for, last_scalar_for};
use crate::mapping::{pairs, to_pairs, Mapping};
use crate::model::{remap_pairs, DialectModel};
use crate::overlap::Overlap;

verus! {

/// Specifier for the specific kind of cp437.
///
/// Dialects are instances of this type, aggregating data necessary to perform conversions.
/// Two dialects are equal where their decode tables, their definitions and
/// their remap histories are.
#[derive(Debug, Hash, Eq, Ord, PartialOrd)]
pub struct Cp437Dialect {
    cp437_to_unicode: [char; 256],
    overlap: Overlap,
    primary: Vec<(u8, char)>,
    variants: Vec<(u8, char)>,
    /// cp437, from, to
    remaps: Vec<(u8, char, char)>,
}

/// A definition was refused: it gives a byte of its overlap set another
/// meaning.
#[derive(Debug, Copy, Clone, Hash, Eq, Ord, PartialEq, PartialOrd)]
pub struct InconsistentOverlap {
    /// The lowest byte of the overlap set that the definition decodes to
    /// another scalar, or whose scalar it encodes to another byte.
    pub cp437: u8,
}

impl View for Cp437Dialect {
    type V = DialectModel;

    closed spec fn view(&self) -> DialectModel {
        DialectModel {
            primary: self.primary@,
            variants: self.variants@,
            overlap: self.overlap,
            remaps: self.remaps@,
        }
    }
}

/// The decode table of a list of primary mappings: identity, then each
/// mapping in turn.
fn build_table(primary: &[(u8, char)]) -> (table: [char; 256])
    ensures
        forall|cp437: u8|
            table@[cp437 as int] == #[trigger] decoded_by(primary@, cp437),
{
    let mut table: [char; 256] = ['\u{00}'; 256];
    let mut b: usize = 0;
    while b < 256
        invariant
            b <= 256,
            forall|j: int| 0 <= j < b ==> table@[j] == (j as u8) as char,
        decreases 256 - b,
    {
        table[b] = (b as u8) as char;
        b = b + 1;
    }
    let mut i: usize = 0;
    proof {
        assert(primary@.take(0).len() == 0);
    }
    while i < primary.len()
        invariant
            i <= primary.len(),
            forall|cp437: u8|
                table@[cp437 as int] == #[trigger] decoded_by(primary@.take(i as int), cp437),
        decreases primary.len() - i,
    {
        let entry = primary[i];
        let ghost before = table@;
        table[entry.0 as usize] = entry.1;
        proof {
            let upto = primary@.take(i + 1);
            assert(upto.last() == primary@[i as int]);
            assert(upto.drop_last() == primary@.take(i as int));
            assert forall|cp437: u8|
                table@[cp437 as int] == #[trigger] decoded_by(upto, cp437) by {
                if cp437 != entry.0 {
                    assert(before[cp437 as int] == decoded_by(primary@.take(i as int), cp437));
                }
            }
        }
        i = i + 1;
    }
    proof {
        assert(primary@.take(i as int) == primary@);
    }
    table
}

/// What a scalar encodes to by the definition alone.
fn encode_compiled(
    primary: &[(u8, char)],
    variants: &[(u8, char)],
    overlap: Overlap,
    unicode: char,
) -> (cp437: Option<u8>)
    ensures
        cp437 == DialectModel::compiled(primary@, variants@, overlap).compiled_encode(unicode),
{
    match find_byte(variants, unicode) {
        Some(cp437) => Some(cp437),
        None => match find_byte(primary, unicode) {
            Some(cp437) => Some(cp437),
            None => if overlap.overlap_unicode(unicode) {
                Some(unicode as u8)
            } else {
                None
            },
        },
    }
}

/// The lowest byte of the overlap set to which the definition gives another
/// meaning.
fn first_break(
    table: &[char; 256],
    primary: &[(u8, char)],
    variants: &[(u8, char)],
    overlap: Overlap,
) -> (found: Option<u8>)
    requires
        forall|cp437: u8|
            table@[cp437 as int] == #[trigger] decoded_by(primary@, cp437),
    ensures
        ({
            let model = DialectModel::compiled(primary@, variants@, overlap);
            match found {
                Some(cp437) => model.breaks_overlap(cp437) && forall|lower: u8|
                    lower < cp437 ==> !#[trigger] model.breaks_overlap(lower),
                None => model.consistent(),
            }
        }),
{
    let ghost model = DialectModel::compiled(primary@, variants@, overlap);
    let mut b: u8 = 0;
    while b < 0x80
        invariant
            b <= 0x80,
            model == DialectModel::compiled(primary@, variants@, overlap),
            forall|cp437: u8|
                table@[cp437 as int] == #[trigger] decoded_by(primary@, cp437),
            forall|lower: u8| lower < b ==> !#[trigger] model.breaks_overlap(lower),
        decreases 0x80 - b,
    {
        if overlap.overlap_cp437(b) {
            assert(table@[b as int] == decoded_by(primary@, b));
            if table[b as usize] != b as char {
                return Some(b);
            }
            match encode_compiled(primary, variants, overlap, b as char) {
                Some(back) => {
                    if back != b {
                        return Some(b);
                    }
                },
                None => {
                    return Some(b);
                },
            }
        }
        b = b + 1;
    }
    None
}

/// The byte of the last remap to the scalar `unicode`.
fn find_remap_to(remaps: &Vec<(u8, char, char)>, unicode: char) -> (found: Option<u8>)
    ensures
        found == last_byte_for(remap_pairs(remaps@), unicode),
{
    let ghost all = remap_pairs(remaps@);
    let mut i: usize = remaps.len();
    proof {
        assert(all.take(i as int) == all);
    }
    while i > 0
        invariant
            i <= remaps.len(),
            all == remap_pairs(remaps@),
            last_byte_for(all, unicode) == last_byte_for(all.take(i as int), unicode),
        decreases i,
    {
        i = i - 1;
        let entry = remaps[i];
        proof {
            let upto = all.take(i + 1);
            assert(upto.last() == (entry.0, entry.2));
            assert(upto.drop_last() == all.take(i as int));
        }
        if entry.2 == unicode {
            return Some(entry.0);
        }
    }
    proof {
        assert(all.take(0).len() == 0);
    }
    None
}

/// Whether some remap is of the byte `cp437`.
fn has_remap_of(remaps: &Vec<(u8, char, char)>, cp437: u8) -> (found: bool)
    ensures
        found == exists|i: int| 0 <= i < remaps@.len() && (#[trigger] remaps@[i]).0 == cp437,
{
    let mut i: usize = remaps.len();
    while i > 0
        invariant
            i <= remaps.len(),
            forall|j: int| i <= j < remaps@.len() ==> (#[trigger] remaps@[j]).0 != cp437,
        decreases i,
    {
        i = i - 1;
        if remaps[i].0 == cp437 {
            return true;
        }
    }
    false
}

/// Whether two decode tables hold the same scalars.
fn same_table(one: &[char; 256], other: &[char; 256]) -> (same: bool)
    ensures
        same == (one@ == other@),
{
    let mut i: usize = 0;
    while i < 256
        invariant
            i <= 256,
            forall|j: int| 0 <= j < i ==> one@[j] == other@[j],
        decreases 256 - i,
    {
        if one[i] != other[i] {
            return false;
        }
        i = i + 1;
    }
    assert(one@ =~= other@);
    true
}

/// Whether two lists of mappings hold the same pairs in the same order.
fn same_pairs(one: &Vec<(u8, char)>, other: &Vec<(u8, char)>) -> (same: bool)
    ensures
        same == (one@ == other@),
{
    if one.len() != other.len() {
        return false;
    }
    let mut i: usize = 0;
    while i < one.len()
        invariant
            i <= one.len(),
            one.len() == other.len(),
            forall|j: int| 0 <= j < i ==> one@[j] == other@[j],
        decreases one.len() - i,
    {
        if one[i].0 != other[i].0 || one[i].1 != other[i].1 {
            return false;
        }
        i = i + 1;
    }
    assert(one@ =~= other@);
    true
}

/// Whether two histories hold the same remaps in the same order.
fn same_remaps(one: &Vec<(u8, char, char)>, other: &Vec<(u8, char, char)>) -> (same: bool)
    ensures
        same == (one@ == other@),
{
    if one.len() != other.len() {
        return false;
    }
    let mut i: usize = 0;
    while i < one.len()
        invariant
            i <= one.len(),
            one.len() == other.len(),
            forall|j: int| 0 <= j < i ==> one@[j] == other@[j],
        decreases one.len() - i,
    {
        if one[i].0 != other[i].0 || one[i].1 != other[i].1 || one[i].2 != other[i].2 {
            return false;
        }
        i = i + 1;
    }
    assert(one@ =~= other@);
    true
}

impl PartialEq for Cp437Dialect {
    fn eq(&self, other: &Cp437Dialect) -> (equal: bool) {
        same_table(&self.cp437_to_unicode, &other.cp437_to_unicode) && self.overlap.same_as(
            other.overlap,
        ) && same_pairs(&self.primary, &other.primary) && same_pairs(
            &self.variants,
            &other.variants,
        ) && same_remaps(&self.remaps, &other.remaps)
    }
}

impl PartialEqSpecImpl for Cp437Dialect {
    open spec fn obeys_eq_spec() -> bool {
        true
    }

    /// Two dialects are equal where their decode tables, their definitions
    /// and their remap histories are.
    open spec fn eq_spec(&self, other: &Cp437Dialect) -> bool {
        self.table() == other.table() && self@ == other@
    }
}

impl Clone for Cp437Dialect {
    /// The copy is the same dialect, with a decode table and a history of its
    /// own.
    fn clone(&self) -> (copy: Cp437Dialect)
        ensures
            copy@ == self@,
            copy.table() == self.table(),
            self.wf() ==> copy.wf(),
    {
        let copy = Cp437Dialect {
            cp437_to_unicode: self.cp437_to_unicode,
            overlap: self.overlap,
            primary: slice_to_vec(self.primary.as_slice()),
            variants: slice_to_vec(self.variants.as_slice()),
            remaps: slice_to_vec(self.remaps.as_slice()),
        };
        proof {
            assert(copy@ == self@);
            if self.wf() {
                assert forall|cp437: u8|
                    copy.cp437_to_unicode@[cp437 as int] == #[trigger] copy@.decode(cp437) by {
                    assert(self.cp437_to_unicode@[cp437 as int] == self@.decode(cp437));
                }
            }
        }
        copy
    }
}

impl Cp437Dialect {
    /// The decode table: for each byte, in order, a scalar.
    pub closed spec fn table(&self) -> Seq<char> {
        self.cp437_to_unicode@
    }

    /// The decode table holds, for every byte, what the dialect decodes it
    /// to.
    pub open spec fn cached(&self) -> bool {
        &&& self.table().len() == 256
        &&& forall|cp437: u8| self.table()[cp437 as int] == #[trigger] self@.decode(cp437)
    }

    /// The dialect is valid: compiled from a consistent definition, remapped
    /// by `remap` alone, with its decode table up to date.
    pub open spec fn wf(&self) -> bool {
        self@.wf() && self.cached()
    }

    /// Put a dialect together from a definition that agrees with its overlap
    /// rule.
    pub(crate) fn from_consistent_pairs(
        primary: Vec<(u8, char)>,
        variants: Vec<(u8, char)>,
        overlap: Overlap,
    ) -> (dialect: Cp437Dialect)
        requires
            DialectModel::compiled(primary@, variants@, overlap).consistent(),
        ensures
            dialect.wf(),
            dialect@ == DialectModel::compiled(primary@, variants@, overlap),
    {
        let table = build_table(primary.as_slice());
        Cp437Dialect::with_table(table, primary, variants, overlap)
    }

    fn with_table(
        table: [char; 256],
        primary: Vec<(u8, char)>,
        variants: Vec<(u8, char)>,
        overlap: Overlap,
    ) -> (dialect: Cp437Dialect)
        requires
            DialectModel::compiled(primary@, variants@, overlap).consistent(),
            forall|cp437: u8|
                table@[cp437 as int] == #[trigger] decoded_by(primary@, cp437),
        ensures
            dialect.wf(),
            dialect@ == DialectModel::compiled(primary@, variants@, overlap),
    {
        let ghost model = DialectModel::compiled(primary@, variants@, overlap);
        let dialect = Cp437Dialect {
            cp437_to_unicode: table,
            overlap,
            primary,
            variants,
            remaps: Vec::new(),
        };
        proof {
            assert(dialect@ == model);
            assert(remap_pairs(model.remaps).len() == 0);
            assert forall|cp437: u8|
                dialect.cp437_to_unicode@[cp437 as int] == #[trigger] dialect@.decode(cp437) by {
                assert(table@[cp437 as int] == decoded_by(primary@, cp437));
            }
        }
        dialect
    }

    /// Compile a dialect from pairs of byte and scalar.
    ///
    /// The primary pairs make the decode table: a byte decodes to the scalar
    /// of its last primary pair, and to the scalar of its own number where it
    /// has none. A scalar encodes to the byte of its last variant pair, else
    /// of its last primary pair, else to its own number where `overlap` has
    /// it. A definition that gives a byte of `overlap` another meaning is
    /// refused.
    pub fn from_pairs(
        primary: Vec<(u8, char)>,
        variants: Vec<(u8, char)>,
        overlap: Overlap,
    ) -> (result: Result<Cp437Dialect, InconsistentOverlap>)
        ensures
            result is Ok <==> DialectModel::compiled(primary@, variants@, overlap).consistent(),
            ({
                let model = DialectModel::compiled(primary@, variants@, overlap);
                match result {
                    Ok(dialect) => dialect.wf() && dialect@ == model,
                    Err(refusal) => model.breaks_overlap(refusal.cp437) && forall|lower: u8|
                        lower < refusal.cp437 ==> !#[trigger] model.breaks_overlap(lower),
                }
            }),
    {
        let table = build_table(primary.as_slice());
        match first_break(&table, primary.as_slice(), variants.as_slice(), overlap) {
            Some(cp437) => Err(InconsistentOverlap { cp437 }),
            None => Ok(Cp437Dialect::with_table(table, primary, variants, overlap)),
        }
    }

    /// Compile a dialect from its primary mappings, its variant mappings and
    /// its overlap rule, as `from_pairs` does from their bytes and scalars.
    pub fn compile(
        primary: &[Mapping],
        variants: &[Mapping],
        overlap: Overlap,
    ) -> (result: Result<Cp437Dialect, InconsistentOverlap>)
        ensures
            result is Ok <==> DialectModel::compiled(
                pairs(primary@),
                pairs(variants@),
                overlap,
            ).consistent(),
            ({
                let model = DialectModel::compiled(pairs(primary@), pairs(variants@), overlap);
                match result {
                    Ok(dialect) => dialect.wf() && dialect@ == model,
                    Err(refusal) => model.breaks_overlap(refusal.cp437) && forall|lower: u8|
                        lower < refusal.cp437 ==> !#[trigger] model.breaks_overlap(lower),
                }
            }),
    {
        Cp437Dialect::from_pairs(to_pairs(primary), to_pairs(variants), overlap)
    }

    /// Check, whether the specified Unicode codepoint overlaps with a cp437 one.
    ///
    /// It does where the overlap rule has it, no remap is to it, and no remap
    /// is of the byte of its number. In a valid dialect that is to say: the
    /// rule has it, the byte of its number decodes to it, and no remap is to
    /// it.
    pub fn overlap_unicode(&self, unicode: char) -> (overlaps: bool)
        ensures
            overlaps == self@.overlap_unicode(unicode),
            self.wf() ==> overlaps == (self@.overlap.has_unicode(unicode) && self@.decode(
                unicode as u8,
            ) == unicode && !self@.remaps_to(unicode)),
    {
        proof {
            self@.lemma_remaps_to(unicode);
            if self.wf() {
                self@.lemma_overlap_unicode_is_identity(unicode);
            }
        }
        if !self.overlap.overlap_unicode(unicode) {
            return false;
        }
        let remapped_to = find_remap_to(&self.remaps, unicode);
        let remapped = has_remap_of(&self.remaps, unicode as u8);
        assert(self@.remaps == self.remaps@);
        remapped_to.is_none() && !remapped
    }

    /// Check, whether the specified cp437 codepoint overlaps with a Unicode one.
    ///
    /// It does where the overlap rule has it and no remap is of it. In a
    /// valid dialect that is to say: the rule has it, it decodes to the
    /// scalar of its own number, and no remap is of it.
    pub fn overlap_cp437(&self, cp437: u8) -> (overlaps: bool)
        ensures
            overlaps == self@.overlap_cp437(cp437),
            self.wf() ==> overlaps == (self@.overlap.has_cp437(cp437) && self@.decode(cp437)
                == cp437 as char && !self@.remaps_byte(cp437)),
    {
        proof {
            if self.wf() {
                self@.lemma_overlap_cp437_is_identity(cp437);
            }
        }
        let remapped = has_remap_of(&self.remaps, cp437);
        assert(self@.remaps == self.remaps@);
        self.overlap.overlap_cp437(cp437) && !remapped
    }

    /// Decode a single cp437 codepoint into a Unicode one.
    ///
    /// Every byte decodes: the scalar is read from the decode table, which in
    /// a valid dialect holds what the definition and the remaps make of the
    /// byte.
    pub fn decode(&self, cp437: u8) -> (unicode: char)
        ensures
            unicode == self.table()[cp437 as int],
            self.wf() ==> unicode == self@.decode(cp437),
    {
        self.cp437_to_unicode[cp437 as usize]
    }

    /// Try to encode a single Unicode codepoint as a cp437 one.
    pub fn encode(&self, unicode: char) -> (cp437: Option<u8>)
        ensures
            cp437 == self@.encode(unicode),
    {
        match find_remap_to(&self.remaps, unicode) {
            Some(cp437) => Some(cp437),
            None => encode_compiled(
                self.primary.as_slice(),
                self.variants.as_slice(),
                self.overlap,
                unicode,
            ),
        }
    }

    /// Map the specified cp437 codepoint to the specified unicode character instead.
    ///
    /// The remap is added to the history, with what the codepoint decoded to
    /// before; from now on the codepoint decodes to `unicode`, and `unicode`
    /// encodes to it. The dialect itself is handed back, so that remaps can
    /// be chained.
    pub fn remap(&mut self, cp437: u8, unicode: char) -> (dialect: &mut Cp437Dialect)
        requires
            old(self).wf(),
        ensures
            dialect.wf(),
            dialect@ == old(self)@.remap(cp437, unicode),
            *final(self) == *final(dialect),
    {
        let before = self.cp437_to_unicode[cp437 as usize];
        self.remaps.push((cp437, before, unicode));
        self.cp437_to_unicode[cp437 as usize] = unicode;
        proof {
            let was = old(self)@;
            let now = self@;
            assert(before == was.decode(cp437));
            assert(now == was.remap(cp437, unicode));
            was.lemma_remap_wf(cp437, unicode);
            assert forall|b: u8| self.cp437_to_unicode@[b as int] == #[trigger] now.decode(b) by {
                was.lemma_remap_decode(cp437, unicode, b);
                assert(old(self).cp437_to_unicode@[b as int] == was.decode(b));
            }
        }
        self
    }
}

} // verus!
