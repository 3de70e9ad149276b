//! What holds of every dialect.

use vstd::prelude::*;
use crate::lookup::{
    is_last_for_byte, is_last_for_scalar, last_byte_for, lemma_last_byte_for,
    lemma_last_byte_for_at, lemma_last_scalar_for,
};
use crate::model::DialectModel;

verus! {

/// Decoding is total: every byte decodes to exactly one scalar, which is the
/// new scalar of the last remap of the byte, else the scalar of its last
/// primary mapping, else the scalar of its own number.
pub proof fn law_decode_is_total(model: DialectModel, cp437: u8)
    ensures
        ({
            let unicode = model.decode(cp437);
            let remapped = model.remapped();
            let primary = model.primary;
            ||| exists|i: int|
                is_last_for_byte(remapped, i, cp437) && (#[trigger] remapped[i]).1 == unicode
            ||| !model.remaps_byte(cp437) && exists|i: int|
                is_last_for_byte(primary, i, cp437) && (#[trigger] primary[i]).1 == unicode
            ||| !model.remaps_byte(cp437) && unicode == cp437 as char && forall|i: int|
                0 <= i < primary.len() ==> (#[trigger] primary[i]).0 != cp437
        }),
{
    model.lemma_remaps_byte(cp437);
    lemma_last_scalar_for(model.remapped(), cp437);
    lemma_last_scalar_for(model.primary, cp437);
}

/// A byte that overlaps goes round: its scalar encodes back to it. The one
/// thing that can stand in the way is a remap of another byte to that
/// scalar, which then takes the scalar for itself.
pub proof fn law_overlap_round_trip(model: DialectModel, cp437: u8)
    requires
        model.wf(),
        model.overlap_cp437(cp437),
    ensures
        model.decode(cp437) == cp437 as char,
        model.encode(model.decode(cp437)) == Some(cp437) <==> !model.remaps_to(cp437 as char),
        model.encode(model.decode(cp437)) == Some(cp437) <==> model.overlap_unicode(
            cp437 as char,
        ),
{
    let unicode = cp437 as char;
    model.lemma_overlap_cp437(cp437);
    model.lemma_remaps_to(unicode);
    model.overlap.lemma_cp437_is_ascii(cp437);
    if model.remaps_to(unicode) {
        let remapped = model.remapped();
        lemma_last_byte_for(remapped, unicode);
        let other = last_byte_for(remapped, unicode)->0;
        let i = choose|i: int|
            is_last_for_scalar(remapped, i, unicode) && (#[trigger] remapped[i]).0 == other;
        assert(model.remaps[i].0 == other);
        assert(other != cp437);
    } else {
        assert(!model.breaks_overlap(cp437));
    }
}

/// A dialect that was compiled and not remapped sends every byte that
/// overlaps round.
pub proof fn law_compiled_round_trip(model: DialectModel, cp437: u8)
    requires
        model.wf(),
        model.remaps.len() == 0,
        model.overlap_cp437(cp437),
    ensures
        model.encode(model.decode(cp437)) == Some(cp437),
{
    law_overlap_round_trip(model, cp437);
}

/// A remap takes effect: the byte decodes to the scalar and the scalar
/// encodes to the byte, whatever either did before. Neither overlaps any
/// longer, nor does the scalar of the byte's own number.
pub proof fn law_remap_takes_effect(model: DialectModel, cp437: u8, unicode: char)
    ensures
        model.remap(cp437, unicode).decode(cp437) == unicode,
        model.remap(cp437, unicode).encode(unicode) == Some(cp437),
        !model.remap(cp437, unicode).overlap_cp437(cp437),
        !model.remap(cp437, unicode).overlap_unicode(unicode),
        !model.remap(cp437, unicode).overlap_unicode(cp437 as char),
{
    let after = model.remap(cp437, unicode);
    model.lemma_remap_decode(cp437, unicode, cp437);
    model.lemma_remap_encode(cp437, unicode, unicode);
    assert(after.remaps[model.remaps.len() as int] == (cp437, model.decode(cp437), unicode));
}

/// A byte overlaps exactly where the rule has it, it decodes to the scalar
/// of its own number, and no remap is of it. A scalar overlaps exactly where
/// the rule has it, the byte of its number decodes to it, and no remap is to
/// it.
pub proof fn law_overlap_is_identity(model: DialectModel, cp437: u8, unicode: char)
    requires
        model.wf(),
    ensures
        model.overlap_cp437(cp437) <==> model.overlap.has_cp437(cp437) && model.decode(cp437)
            == cp437 as char && !model.remaps_byte(cp437),
        model.overlap_unicode(unicode) <==> model.overlap.has_unicode(unicode) && model.decode(
            unicode as u8,
        ) == unicode && !model.remaps_to(unicode),
{
    model.lemma_overlap_cp437_is_identity(cp437);
    model.lemma_overlap_unicode_is_identity(unicode);
}

/// Where the overlap rule has every byte that the definition decodes to the
/// scalar of its own number, as the rules of the built-in dialects do, the
/// rule need not be asked: a byte overlaps exactly where it decodes to the
/// scalar of its own number and no remap is of it, and a scalar overlaps
/// exactly where it fits in a byte, that byte decodes to it, and no remap is
/// to it.
pub proof fn law_overlap_reads_decode(model: DialectModel, cp437: u8, unicode: char)
    requires
        model.wf(),
        model.overlap_is_all_identity(),
    ensures
        model.overlap_cp437(cp437) <==> model.decode(cp437) == cp437 as char
            && !model.remaps_byte(cp437),
        model.overlap_unicode(unicode) <==> (unicode as u32) < 256 && model.decode(unicode as u8)
            == unicode && !model.remaps_to(unicode),
{
    model.lemma_overlap_cp437_is_identity(cp437);
    model.lemma_overlap_unicode_is_identity(unicode);
    model.lemma_remaps_byte(cp437);
    if !model.remaps_byte(cp437) {
        assert(model.decode(cp437) == model.compiled_decode(cp437));
    }
    if (unicode as u32) < 256 && model.decode(unicode as u8) == unicode && !model.remaps_to(
        unicode,
    ) {
        let byte = unicode as u8;
        model.lemma_remaps_byte(byte);
        if model.remaps_byte(byte) {
            let remapped = model.remapped();
            lemma_last_scalar_for(remapped, byte);
            let i = choose|i: int|
                is_last_for_byte(remapped, i, byte) && (#[trigger] remapped[i]).1 == unicode;
            assert(model.remaps[i].2 == unicode);
        }
        assert(model.compiled_decode(byte) == byte as char);
        model.overlap.lemma_cp437_is_ascii(byte);
    }
}

/// A remap changes nothing else: every other byte decodes as before, and
/// every other scalar encodes as before. So the scalar that the byte decoded
/// to before still encodes as it did.
pub proof fn law_remap_leaves_the_rest(
    model: DialectModel,
    cp437: u8,
    unicode: char,
    other_cp437: u8,
    other_unicode: char,
)
    ensures
        other_cp437 != cp437 ==> model.remap(cp437, unicode).decode(other_cp437) == model.decode(
            other_cp437,
        ),
        other_unicode != unicode ==> model.remap(cp437, unicode).encode(other_unicode)
            == model.encode(other_unicode),
{
    model.lemma_remap_decode(cp437, unicode, other_cp437);
    model.lemma_remap_encode(cp437, unicode, other_unicode);
}

/// A scalar encodes to a byte only through a mapping of the scalar to that
/// byte: a remap, a variant mapping, a primary mapping, or the overlap of
/// the two.
pub proof fn law_encode_has_a_source(model: DialectModel, unicode: char, cp437: u8)
    requires
        model.encode(unicode) == Some(cp437),
    ensures
        ({
            ||| exists|i: int|
                0 <= i < model.remaps.len() && (#[trigger] model.remaps[i]).0 == cp437
                    && model.remaps[i].2 == unicode
            ||| exists|i: int|
                0 <= i < model.variants.len() && #[trigger] model.variants[i] == (cp437, unicode)
            ||| exists|i: int|
                0 <= i < model.primary.len() && #[trigger] model.primary[i] == (cp437, unicode)
            ||| model.overlap.has_unicode(unicode) && unicode as u8 == cp437
        }),
{
    let remapped = model.remapped();
    lemma_last_byte_for(remapped, unicode);
    lemma_last_byte_for(model.variants, unicode);
    lemma_last_byte_for(model.primary, unicode);
    if last_byte_for(remapped, unicode) is Some {
        let i = choose|i: int|
            is_last_for_scalar(remapped, i, unicode) && (#[trigger] remapped[i]).0 == cp437;
        assert(model.remaps[i].0 == cp437 && model.remaps[i].2 == unicode);
    } else if last_byte_for(model.variants, unicode) is Some {
        let i = choose|i: int|
            is_last_for_scalar(model.variants, i, unicode) && (#[trigger] model.variants[i]).0
                == cp437;
        assert(model.variants[i] == (cp437, unicode));
    } else if last_byte_for(model.primary, unicode) is Some {
        let i = choose|i: int|
            is_last_for_scalar(model.primary, i, unicode) && (#[trigger] model.primary[i]).0
                == cp437;
        assert(model.primary[i] == (cp437, unicode));
    }
}

/// After a remap of a byte, a scalar other than the new one encodes to that
/// byte only where another mapping has it so: an earlier remap, a variant
/// mapping, a primary mapping, or the overlap of the two. So the scalar that
/// the byte decoded to before goes on encoding to it exactly where it has
/// such a mapping.
pub proof fn law_remap_needs_another_mapping(
    model: DialectModel,
    cp437: u8,
    unicode: char,
    other: char,
)
    requires
        other != unicode,
        model.remap(cp437, unicode).encode(other) == Some(cp437),
    ensures
        ({
            ||| exists|i: int|
                0 <= i < model.remaps.len() && (#[trigger] model.remaps[i]).0 == cp437
                    && model.remaps[i].2 == other
            ||| exists|i: int|
                0 <= i < model.variants.len() && #[trigger] model.variants[i] == (cp437, other)
            ||| exists|i: int|
                0 <= i < model.primary.len() && #[trigger] model.primary[i] == (cp437, other)
            ||| model.overlap.has_unicode(other) && other as u8 == cp437
        }),
{
    model.lemma_remap_encode(cp437, unicode, other);
    law_encode_has_a_source(model, other, cp437);
}

/// Variants come before primaries: a scalar whose last variant mapping is to
/// one byte encodes to that byte, whatever the primary mappings say of the
/// scalar, as long as no remap is to it.
pub proof fn law_variant_precedence(model: DialectModel, unicode: char, variant: int)
    requires
        is_last_for_scalar(model.variants, variant, unicode),
        !model.remaps_to(unicode),
    ensures
        model.compiled_encode(unicode) == Some(model.variants[variant].0),
        model.encode(unicode) == Some(model.variants[variant].0),
{
    model.lemma_remaps_to(unicode);
    lemma_last_byte_for_at(model.variants, variant, unicode);
}

} // verus!
