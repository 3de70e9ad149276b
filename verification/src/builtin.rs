//! The dialects that ship with the library.

use vstd::prelude::*;
use crate::charset::{
    glyph_and_high_half_pairs, glyphs, high_half, high_half_pairs, lemma_tables_beyond_ascii,
    variant_pairs, variants, GLYPHS, HIGH_HALF, HOUSE, VARIANTS,
};
use crate::decode::decoded;
use crate::dialect::Cp437Dialect;
use crate::encode::{encodable, encoded};
use crate::lookup::{
    is_last_for_byte, is_last_for_scalar, lemma_last_byte_for, lemma_last_byte_for_at,
    lemma_last_scalar_for, lemma_last_scalar_for_at,
};
use crate::model::DialectModel;
use crate::overlap::Overlap;

verus! {

/// Codepage 437 with the control characters: all of ASCII as it is, and the
/// upper half.
pub open spec fn control_model() -> DialectModel {
    DialectModel::compiled(high_half(), variants(), Overlap::Ascii)
}

/// Codepage 437 as the screen shows it: glyphs in place of the control
/// characters and of DEL, printable ASCII as it is, and the upper half.
pub open spec fn wingdings_model() -> DialectModel {
    DialectModel::compiled(glyphs() + high_half(), variants(), Overlap::Printable)
}

/// No mapping of either dialect is of a byte or to a scalar that its overlap
/// rule has, so both definitions agree with their rules.
pub proof fn lemma_builtin_consistent()
    ensures
        control_model().consistent(),
        control_model().wf(),
        wingdings_model().consistent(),
        wingdings_model().wf(),
{
    lemma_tables_beyond_ascii();
    let control = control_model();
    assert forall|cp437: u8| !#[trigger] control.breaks_overlap(cp437) by {
        if control.overlap.has_cp437(cp437) {
            lemma_last_scalar_for(control.primary, cp437);
            lemma_last_byte_for(control.primary, cp437 as char);
            lemma_last_byte_for(control.variants, cp437 as char);
        }
    }
    let wingdings = wingdings_model();
    assert forall|cp437: u8| !#[trigger] wingdings.breaks_overlap(cp437) by {
        if wingdings.overlap.has_cp437(cp437) {
            lemma_last_scalar_for(wingdings.primary, cp437);
            lemma_last_byte_for(wingdings.primary, cp437 as char);
            lemma_last_byte_for(wingdings.variants, cp437 as char);
            let primary = wingdings.primary;
            assert forall|i: int| 0 <= i < primary.len() implies (#[trigger] primary[i]).1 as u32
                >= 0x80 && primary[i].0 != cp437 by {
                if i < 32 {
                    assert(primary[i] == glyphs()[i]);
                } else {
                    assert(primary[i] == high_half()[i - 32]);
                }
            }
        }
    }
}

/// No two bytes of the upper half share a character.
proof fn lemma_high_half_distinct()
    ensures
        forall|i: int, j: int| 0 <= i < j < 128 ==> HIGH_HALF[i] != HIGH_HALF[j],
{
}

/// No two glyphs are the same.
proof fn lemma_glyphs_distinct()
    ensures
        forall|i: int, j: int| 0 <= i < j < 31 ==> GLYPHS[i] != GLYPHS[j],
        forall|i: int| 0 <= i < 31 ==> GLYPHS[i] != HOUSE,
{
}

/// No glyph is a character of the upper half.
proof fn lemma_glyphs_apart()
    ensures
        forall|i: int, j: int| 0 <= i < 31 && 0 <= j < 128 ==> GLYPHS[i] != HIGH_HALF[j],
        forall|j: int| 0 <= j < 128 ==> HOUSE != HIGH_HALF[j],
{
}

/// No variant is of a character that a byte has.
proof fn lemma_variants_apart()
    ensures
        forall|i: int, j: int| 0 <= i < 17 && 0 <= j < 128 ==> VARIANTS[i].1 != HIGH_HALF[j],
        forall|i: int, j: int| 0 <= i < 17 && 0 <= j < 31 ==> VARIANTS[i].1 != GLYPHS[j],
        forall|i: int| 0 <= i < 17 ==> VARIANTS[i].1 != HOUSE,
{
}

/// The primary mappings of the dialect with the control characters are of
/// different bytes and to different characters, and no variant is of one of
/// their characters.
proof fn lemma_control_mappings_apart()
    ensures
        forall|i: int, j: int|
            0 <= i < j < 128 ==> (#[trigger] high_half()[i]).1 != (#[trigger] high_half()[j]).1
                && high_half()[i].0 != high_half()[j].0,
        forall|v: int, j: int|
            0 <= v < 17 && 0 <= j < 128 ==> (#[trigger] variants()[v]).1
                != (#[trigger] high_half()[j]).1,
{
    lemma_high_half_distinct();
    lemma_variants_apart();
}

/// The primary mappings of the dialect with the glyphs are of different
/// bytes and to different characters, and no variant is of one of their
/// characters.
proof fn lemma_wingdings_mappings_apart()
    ensures
        ({
            let primary = wingdings_model().primary;
            &&& primary.len() == 160
            &&& forall|i: int, j: int|
                0 <= i < j < 160 ==> (#[trigger] primary[i]).1 != (#[trigger] primary[j]).1
                    && primary[i].0 != primary[j].0
            &&& forall|v: int, j: int|
                0 <= v < 17 && 0 <= j < 160 ==> (#[trigger] variants()[v]).1
                    != (#[trigger] primary[j]).1
            &&& forall|i: int|
                0 <= i < 160 ==> (#[trigger] primary[i]).0 == if i < 31 {
                    i + 1
                } else if i == 31 {
                    0x7F
                } else {
                    i - 32 + 0x80
                }
        }),
{
    lemma_high_half_distinct();
    lemma_glyphs_distinct();
    lemma_glyphs_apart();
    lemma_variants_apart();
    let primary = wingdings_model().primary;
    assert forall|i: int| 0 <= i < 160 implies #[trigger] primary[i] == if i < 31 {
        ((1 + i) as u8, GLYPHS[i])
    } else if i == 31 {
        (0x7Fu8, HOUSE)
    } else {
        ((0x80 + i - 32) as u8, HIGH_HALF[i - 32])
    } by {
        if i < 32 {
            assert(primary[i] == glyphs()[i]);
        } else {
            assert(primary[i] == high_half()[i - 32]);
        }
    }
}

/// No byte of the upper half means the scalar of its own number.
proof fn lemma_high_half_moved()
    ensures
        forall|i: int| 0 <= i < 128 ==> HIGH_HALF[i] as u32 != 0x80 + i,
{
}

/// In both dialects, as compiled, a byte overlaps exactly where it decodes
/// to the scalar of its own number.
pub proof fn lemma_builtin_overlap_is_identity(cp437: u8)
    ensures
        control_model().overlap_cp437(cp437) <==> control_model().decode(cp437) == cp437 as char,
        wingdings_model().overlap_cp437(cp437) <==> wingdings_model().decode(cp437)
            == cp437 as char,
{
    lemma_builtin_consistent();
    lemma_high_half_moved();
    lemma_tables_beyond_ascii();
    let control = control_model();
    assert(control.remaps.len() == 0 && control.remapped().len() == 0);
    if control.overlap.has_cp437(cp437) {
        assert(!control.breaks_overlap(cp437));
    } else {
        lemma_control_mappings_apart();
        let i = cp437 - 0x80;
        assert(control.primary[i] == (cp437, HIGH_HALF[i]));
        lemma_primary_decode(control, i);
    }
    let wingdings = wingdings_model();
    assert(wingdings.remaps.len() == 0 && wingdings.remapped().len() == 0);
    if wingdings.overlap.has_cp437(cp437) {
        assert(!wingdings.breaks_overlap(cp437));
    } else {
        lemma_wingdings_mappings_apart();
        let i: int = if cp437 < 0x20 {
            cp437 - 1
        } else if cp437 == 0x7F {
            31
        } else {
            cp437 - 0x80 + 32
        };
        assert(wingdings.primary[i].0 == cp437);
        if i < 32 {
            assert(wingdings.primary[i] == glyphs()[i]);
        } else {
            assert(wingdings.primary[i] == high_half()[i - 32]);
        }
        lemma_primary_decode(wingdings, i);
    }
}

/// The rules of both dialects have every byte that the dialect decodes to
/// the scalar of its own number, whatever was remapped since.
pub proof fn lemma_builtin_overlap_is_all_identity(remaps: Seq<(u8, char, char)>)
    ensures
        control_model().with_remaps(remaps).overlap_is_all_identity(),
        control_model().with_remaps(remaps).consistent(),
        wingdings_model().with_remaps(remaps).overlap_is_all_identity(),
        wingdings_model().with_remaps(remaps).consistent(),
{
    lemma_builtin_consistent();
    let control = control_model();
    let remapped = control.with_remaps(remaps);
    assert(control.remapped().len() == 0);
    assert forall|cp437: u8|
        remapped.overlap.has_cp437(cp437) <==> #[trigger] remapped.compiled_decode(cp437)
            == cp437 as char by {
        lemma_builtin_overlap_is_identity(cp437);
        assert(control.decode(cp437) == remapped.compiled_decode(cp437));
    }
    assert forall|cp437: u8| !#[trigger] remapped.breaks_overlap(cp437) by {
        assert(!control.breaks_overlap(cp437));
    }
    let wingdings = wingdings_model();
    let remapped = wingdings.with_remaps(remaps);
    assert(wingdings.remapped().len() == 0);
    assert forall|cp437: u8|
        remapped.overlap.has_cp437(cp437) <==> #[trigger] remapped.compiled_decode(cp437)
            == cp437 as char by {
        lemma_builtin_overlap_is_identity(cp437);
        assert(wingdings.decode(cp437) == remapped.compiled_decode(cp437));
    }
    assert forall|cp437: u8| !#[trigger] remapped.breaks_overlap(cp437) by {
        assert(!wingdings.breaks_overlap(cp437));
    }
}

/// In a dialect that was not remapped, a byte decodes to the scalar of its
/// last primary mapping.
proof fn lemma_primary_decode(model: DialectModel, i: int)
    requires
        model.remaps.len() == 0,
        is_last_for_byte(model.primary, i, model.primary[i].0),
    ensures
        model.decode(model.primary[i].0) == model.primary[i].1,
{
    assert(model.remapped().len() == 0);
    lemma_last_scalar_for_at(model.primary, i, model.primary[i].0);
}

/// In a dialect that was not remapped, a byte goes round where its last
/// primary mapping is the last primary mapping of its character as well, and
/// no variant is of that character.
proof fn lemma_primary_round_trip(model: DialectModel, i: int)
    requires
        model.remaps.len() == 0,
        is_last_for_byte(model.primary, i, model.primary[i].0),
        is_last_for_scalar(model.primary, i, model.primary[i].1),
        forall|v: int| 0 <= v < model.variants.len() ==> (#[trigger] model.variants[v]).1
            != model.primary[i].1,
    ensures
        model.decode(model.primary[i].0) == model.primary[i].1,
        model.encode(model.primary[i].1) == Some(model.primary[i].0),
{
    let cp437 = model.primary[i].0;
    let unicode = model.primary[i].1;
    assert(model.remapped().len() == 0);
    lemma_last_scalar_for_at(model.primary, i, cp437);
    lemma_last_byte_for_at(model.primary, i, unicode);
    lemma_last_byte_for(model.variants, unicode);
}

/// In the dialect with the control characters every byte goes round: what it
/// decodes to encodes back to it.
pub proof fn lemma_control_round_trip(cp437: u8)
    ensures
        control_model().encode(control_model().decode(cp437)) == Some(cp437),
{
    let control = control_model();
    if cp437 < 0x80 {
        lemma_builtin_consistent();
        assert(control.remapped().len() == 0);
        assert(!control.breaks_overlap(cp437));
    } else {
        lemma_control_mappings_apart();
        let i = cp437 - 0x80;
        assert(control.primary[i].0 == cp437);
        lemma_primary_round_trip(control, i);
    }
}

/// In the dialect with the glyphs every byte goes round: what it decodes to
/// encodes back to it.
pub proof fn lemma_wingdings_round_trip(cp437: u8)
    ensures
        wingdings_model().encode(wingdings_model().decode(cp437)) == Some(cp437),
{
    let wingdings = wingdings_model();
    if wingdings.overlap.has_cp437(cp437) {
        lemma_builtin_consistent();
        assert(wingdings.remapped().len() == 0);
        assert(!wingdings.breaks_overlap(cp437));
    } else {
        lemma_wingdings_mappings_apart();
        let i: int = if cp437 < 0x20 {
            cp437 - 1
        } else if cp437 == 0x7F {
            31
        } else {
            cp437 - 0x80 + 32
        };
        assert(wingdings.primary[i].0 == cp437);
        lemma_primary_round_trip(wingdings, i);
    }
}

/// In both dialects a buffer goes round: the text that it decodes to has a
/// byte for every character, and encodes back to the buffer.
pub proof fn lemma_builtin_buffer_round_trip(cp437: Seq<u8>)
    ensures
        encodable(control_model(), decoded(control_model(), cp437)),
        encoded(control_model(), decoded(control_model(), cp437)) == cp437,
        encodable(wingdings_model(), decoded(wingdings_model(), cp437)),
        encoded(wingdings_model(), decoded(wingdings_model(), cp437)) == cp437,
{
    let control = control_model();
    let unicode = decoded(control, cp437);
    assert forall|i: int| 0 <= i < unicode.len() implies control.encode(#[trigger] unicode[i])
        == Some(cp437[i]) by {
        lemma_control_round_trip(cp437[i]);
    }
    assert(encoded(control, unicode) =~= cp437);
    let wingdings = wingdings_model();
    let unicode = decoded(wingdings, cp437);
    assert forall|i: int| 0 <= i < unicode.len() implies wingdings.encode(#[trigger] unicode[i])
        == Some(cp437[i]) by {
        lemma_wingdings_round_trip(cp437[i]);
    }
    assert(encoded(wingdings, unicode) =~= cp437);
}

/// The dialect with the control characters.
pub fn cp437_control() -> (dialect: Cp437Dialect)
    ensures
        dialect.wf(),
        dialect@ == control_model(),
{
    proof {
        lemma_builtin_consistent();
    }
    Cp437Dialect::from_consistent_pairs(high_half_pairs(), variant_pairs(), Overlap::Ascii)
}

/// The dialect with the glyphs.
pub fn cp437_wingdings() -> (dialect: Cp437Dialect)
    ensures
        dialect.wf(),
        dialect@ == wingdings_model(),
{
    proof {
        lemma_builtin_consistent();
    }
    Cp437Dialect::from_consistent_pairs(
        glyph_and_high_half_pairs(),
        variant_pairs(),
        Overlap::Printable,
    )
}

} // verus!
