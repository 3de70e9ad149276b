//! The character tables of the dialects that ship with the library.

use vstd::prelude::*;

verus! {

/// What the bytes 0x80 to 0xFF mean in codepage 437, in the order of the
/// bytes.
pub const HIGH_HALF: [char; 128] = [
    '\u{00C7}',  // 0x80 LATIN CAPITAL LETTER C WITH CEDILLA
    '\u{00FC}',  // 0x81 LATIN SMALL LETTER U WITH DIAERESIS
    '\u{00E9}',  // 0x82 LATIN SMALL LETTER E WITH ACUTE
    '\u{00E2}',  // 0x83 LATIN SMALL LETTER A WITH CIRCUMFLEX
    '\u{00E4}',  // 0x84 LATIN SMALL LETTER A WITH DIAERESIS
    '\u{00E0}',  // 0x85 LATIN SMALL LETTER A WITH GRAVE
    '\u{00E5}',  // 0x86 LATIN SMALL LETTER A WITH RING ABOVE
    '\u{00E7}',  // 0x87 LATIN SMALL LETTER C WITH CEDILLA
    '\u{00EA}',  // 0x88 LATIN SMALL LETTER E WITH CIRCUMFLEX
    '\u{00EB}',  // 0x89 LATIN SMALL LETTER E WITH DIAERESIS
    '\u{00E8}',  // 0x8A LATIN SMALL LETTER E WITH GRAVE
    '\u{00EF}',  // 0x8B LATIN SMALL LETTER I WITH DIAERESIS
    '\u{00EE}',  // 0x8C LATIN SMALL LETTER I WITH CIRCUMFLEX
    '\u{00EC}',  // 0x8D LATIN SMALL LETTER I WITH GRAVE
    '\u{00C4}',  // 0x8E LATIN CAPITAL LETTER A WITH DIAERESIS
    '\u{00C5}',  // 0x8F LATIN CAPITAL LETTER A WITH RING ABOVE
    '\u{00C9}',  // 0x90 LATIN CAPITAL LETTER E WITH ACUTE
    '\u{00E6}',  // 0x91 LATIN SMALL LIGATURE AE
    '\u{00C6}',  // 0x92 LATIN CAPITAL LIGATURE AE
    '\u{00F4}',  // 0x93 LATIN SMALL LETTER O WITH CIRCUMFLEX
    '\u{00F6}',  // 0x94 LATIN SMALL LETTER O WITH DIAERESIS
    '\u{00F2}',  // 0x95 LATIN SMALL LETTER O WITH GRAVE
    '\u{00FB}',  // 0x96 LATIN SMALL LETTER U WITH CIRCUMFLEX
    '\u{00F9}',  // 0x97 LATIN SMALL LETTER U WITH GRAVE
    '\u{00FF}',  // 0x98 LATIN SMALL LETTER Y WITH DIAERESIS
    '\u{00D6}',  // 0x99 LATIN CAPITAL LETTER O WITH DIAERESIS
    '\u{00DC}',  // 0x9A LATIN CAPITAL LETTER U WITH DIAERESIS
    '\u{00A2}',  // 0x9B CENT SIGN
    '\u{00A3}',  // 0x9C POUND SIGN
    '\u{00A5}',  // 0x9D YEN SIGN
    '\u{20A7}',  // 0x9E PESETA SIGN
    '\u{0192}',  // 0x9F LATIN SMALL LETTER F WITH HOOK
    '\u{00E1}',  // 0xA0 LATIN SMALL LETTER A WITH ACUTE
    '\u{00ED}',  // 0xA1 LATIN SMALL LETTER I WITH ACUTE
    '\u{00F3}',  // 0xA2 LATIN SMALL LETTER O WITH ACUTE
    '\u{00FA}',  // 0xA3 LATIN SMALL LETTER U WITH ACUTE
    '\u{00F1}',  // 0xA4 LATIN SMALL LETTER N WITH TILDE
    '\u{00D1}',  // 0xA5 LATIN CAPITAL LETTER N WITH TILDE
    '\u{00AA}',  // 0xA6 FEMININE ORDINAL INDICATOR
    '\u{00BA}',  // 0xA7 MASCULINE ORDINAL INDICATOR
    '\u{00BF}',  // 0xA8 INVERTED QUESTION MARK
    '\u{2310}',  // 0xA9 REVERSED NOT SIGN
    '\u{00AC}',  // 0xAA NOT SIGN
    '\u{00BD}',  // 0xAB VULGAR FRACTION ONE HALF
    '\u{00BC}',  // 0xAC VULGAR FRACTION ONE QUARTER
    '\u{00A1}',  // 0xAD INVERTED EXCLAMATION MARK
    '\u{00AB}',  // 0xAE LEFT-POINTING DOUBLE ANGLE QUOTATION MARK
    '\u{00BB}',  // 0xAF RIGHT-POINTING DOUBLE ANGLE QUOTATION MARK
    '\u{2591}',  // 0xB0 LIGHT SHADE
    '\u{2592}',  // 0xB1 MEDIUM SHADE
    '\u{2593}',  // 0xB2 DARK SHADE
    '\u{2502}',  // 0xB3 BOX DRAWINGS LIGHT VERTICAL
    '\u{2524}',  // 0xB4 BOX DRAWINGS LIGHT VERTICAL AND LEFT
    '\u{2561}',  // 0xB5 BOX DRAWINGS VERTICAL SINGLE AND LEFT DOUBLE
    '\u{2562}',  // 0xB6 BOX DRAWINGS VERTICAL DOUBLE AND LEFT SINGLE
    '\u{2556}',  // 0xB7 BOX DRAWINGS DOWN DOUBLE AND LEFT SINGLE
    '\u{2555}',  // 0xB8 BOX DRAWINGS DOWN SINGLE AND LEFT DOUBLE
    '\u{2563}',  // 0xB9 BOX DRAWINGS DOUBLE VERTICAL AND LEFT
    '\u{2551}',  // 0xBA BOX DRAWINGS DOUBLE VERTICAL
    '\u{2557}',  // 0xBB BOX DRAWINGS DOUBLE DOWN AND LEFT
    '\u{255D}',  // 0xBC BOX DRAWINGS DOUBLE UP AND LEFT
    '\u{255C}',  // 0xBD BOX DRAWINGS UP DOUBLE AND LEFT SINGLE
    '\u{255B}',  // 0xBE BOX DRAWINGS UP SINGLE AND LEFT DOUBLE
    '\u{2510}',  // 0xBF BOX DRAWINGS LIGHT DOWN AND LEFT
    '\u{2514}',  // 0xC0 BOX DRAWINGS LIGHT UP AND RIGHT
    '\u{2534}',  // 0xC1 BOX DRAWINGS LIGHT UP AND HORIZONTAL
    '\u{252C}',  // 0xC2 BOX DRAWINGS LIGHT DOWN AND HORIZONTAL
    '\u{251C}',  // 0xC3 BOX DRAWINGS LIGHT VERTICAL AND RIGHT
    '\u{2500}',  // 0xC4 BOX DRAWINGS LIGHT HORIZONTAL
    '\u{253C}',  // 0xC5 BOX DRAWINGS LIGHT VERTICAL AND HORIZONTAL
    '\u{255E}',  // 0xC6 BOX DRAWINGS VERTICAL SINGLE AND RIGHT DOUBLE
    '\u{255F}',  // 0xC7 BOX DRAWINGS VERTICAL DOUBLE AND RIGHT SINGLE
    '\u{255A}',  // 0xC8 BOX DRAWINGS DOUBLE UP AND RIGHT
    '\u{2554}',  // 0xC9 BOX DRAWINGS DOUBLE DOWN AND RIGHT
    '\u{2569}',  // 0xCA BOX DRAWINGS DOUBLE UP AND HORIZONTAL
    '\u{2566}',  // 0xCB BOX DRAWINGS DOUBLE DOWN AND HORIZONTAL
    '\u{2560}',  // 0xCC BOX DRAWINGS DOUBLE VERTICAL AND RIGHT
    '\u{2550}',  // 0xCD BOX DRAWINGS DOUBLE HORIZONTAL
    '\u{256C}',  // 0xCE BOX DRAWINGS DOUBLE VERTICAL AND HORIZONTAL
    '\u{2567}',  // 0xCF BOX DRAWINGS UP SINGLE AND HORIZONTAL DOUBLE
    '\u{2568}',  // 0xD0 BOX DRAWINGS UP DOUBLE AND HORIZONTAL SINGLE
    '\u{2564}',  // 0xD1 BOX DRAWINGS DOWN SINGLE AND HORIZONTAL DOUBLE
    '\u{2565}',  // 0xD2 BOX DRAWINGS DOWN DOUBLE AND HORIZONTAL SINGLE
    '\u{2559}',  // 0xD3 BOX DRAWINGS UP DOUBLE AND RIGHT SINGLE
    '\u{2558}',  // 0xD4 BOX DRAWINGS UP SINGLE AND RIGHT DOUBLE
    '\u{2552}',  // 0xD5 BOX DRAWINGS DOWN SINGLE AND RIGHT DOUBLE
    '\u{2553}',  // 0xD6 BOX DRAWINGS DOWN DOUBLE AND RIGHT SINGLE
    '\u{256B}',  // 0xD7 BOX DRAWINGS VERTICAL DOUBLE AND HORIZONTAL SINGLE
    '\u{256A}',  // 0xD8 BOX DRAWINGS VERTICAL SINGLE AND HORIZONTAL DOUBLE
    '\u{2518}',  // 0xD9 BOX DRAWINGS LIGHT UP AND LEFT
    '\u{250C}',  // 0xDA BOX DRAWINGS LIGHT DOWN AND RIGHT
    '\u{2588}',  // 0xDB FULL BLOCK
    '\u{2584}',  // 0xDC LOWER HALF BLOCK
    '\u{258C}',  // 0xDD LEFT HALF BLOCK
    '\u{2590}',  // 0xDE RIGHT HALF BLOCK
    '\u{2580}',  // 0xDF UPPER HALF BLOCK
    '\u{03B1}',  // 0xE0 GREEK SMALL LETTER ALPHA
    '\u{00DF}',  // 0xE1 LATIN SMALL LETTER SHARP S
    '\u{0393}',  // 0xE2 GREEK CAPITAL LETTER GAMMA
    '\u{03C0}',  // 0xE3 GREEK SMALL LETTER PI
    '\u{03A3}',  // 0xE4 GREEK CAPITAL LETTER SIGMA
    '\u{03C3}',  // 0xE5 GREEK SMALL LETTER SIGMA
    '\u{00B5}',  // 0xE6 MICRO SIGN
    '\u{03C4}',  // 0xE7 GREEK SMALL LETTER TAU
    '\u{03A6}',  // 0xE8 GREEK CAPITAL LETTER PHI
    '\u{0398}',  // 0xE9 GREEK CAPITAL LETTER THETA
    '\u{03A9}',  // 0xEA GREEK CAPITAL LETTER OMEGA
    '\u{03B4}',  // 0xEB GREEK SMALL LETTER DELTA
    '\u{221E}',  // 0xEC INFINITY
    '\u{03C6}',  // 0xED GREEK SMALL LETTER PHI
    '\u{03B5}',  // 0xEE GREEK SMALL LETTER EPSILON
    '\u{2229}',  // 0xEF INTERSECTION
    '\u{2261}',  // 0xF0 IDENTICAL TO
    '\u{00B1}',  // 0xF1 PLUS-MINUS SIGN
    '\u{2265}',  // 0xF2 GREATER-THAN OR EQUAL TO
    '\u{2264}',  // 0xF3 LESS-THAN OR EQUAL TO
    '\u{2320}',  // 0xF4 TOP HALF INTEGRAL
    '\u{2321}',  // 0xF5 BOTTOM HALF INTEGRAL
    '\u{00F7}',  // 0xF6 DIVISION SIGN
    '\u{2248}',  // 0xF7 ALMOST EQUAL TO
    '\u{00B0}',  // 0xF8 DEGREE SIGN
    '\u{2219}',  // 0xF9 BULLET OPERATOR
    '\u{00B7}',  // 0xFA MIDDLE DOT
    '\u{221A}',  // 0xFB SQUARE ROOT
    '\u{207F}',  // 0xFC SUPERSCRIPT LATIN SMALL LETTER N
    '\u{00B2}',  // 0xFD SUPERSCRIPT TWO
    '\u{25A0}',  // 0xFE BLACK SQUARE
    '\u{00A0}',  // 0xFF NO-BREAK SPACE
];

/// The glyphs that the bytes 0x01 to 0x1F show on screen, in the order of the
/// bytes.
pub const GLYPHS: [char; 31] = [
    '\u{263A}',  // 0x01 WHITE SMILING FACE
    '\u{263B}',  // 0x02 BLACK SMILING FACE
    '\u{2665}',  // 0x03 BLACK HEART SUIT
    '\u{2666}',  // 0x04 BLACK DIAMOND SUIT
    '\u{2663}',  // 0x05 BLACK CLUB SUIT
    '\u{2660}',  // 0x06 BLACK SPADE SUIT
    '\u{2022}',  // 0x07 BULLET
    '\u{25D8}',  // 0x08 INVERSE BULLET
    '\u{25CB}',  // 0x09 WHITE CIRCLE
    '\u{25D9}',  // 0x0A INVERSE WHITE CIRCLE
    '\u{2642}',  // 0x0B MALE SIGN
    '\u{2640}',  // 0x0C FEMALE SIGN
    '\u{266A}',  // 0x0D EIGHTH NOTE
    '\u{266B}',  // 0x0E BEAMED EIGHTH NOTES
    '\u{263C}',  // 0x0F WHITE SUN WITH RAYS
    '\u{25BA}',  // 0x10 BLACK RIGHT-POINTING POINTER
    '\u{25C4}',  // 0x11 BLACK LEFT-POINTING POINTER
    '\u{2195}',  // 0x12 UP DOWN ARROW
    '\u{203C}',  // 0x13 DOUBLE EXCLAMATION MARK
    '\u{00B6}',  // 0x14 PILCROW SIGN
    '\u{00A7}',  // 0x15 SECTION SIGN
    '\u{25AC}',  // 0x16 BLACK RECTANGLE
    '\u{21A8}',  // 0x17 UP DOWN ARROW WITH BASE
    '\u{2191}',  // 0x18 UPWARDS ARROW
    '\u{2193}',  // 0x19 DOWNWARDS ARROW
    '\u{2192}',  // 0x1A RIGHTWARDS ARROW
    '\u{2190}',  // 0x1B LEFTWARDS ARROW
    '\u{221F}',  // 0x1C RIGHT ANGLE
    '\u{2194}',  // 0x1D LEFT RIGHT ARROW
    '\u{25B2}',  // 0x1E BLACK UP-POINTING TRIANGLE
    '\u{25BC}',  // 0x1F BLACK DOWN-POINTING TRIANGLE
];

/// The glyph that the byte 0x7F shows on screen: HOUSE.
pub const HOUSE: char = '\u{2302}';

/// Characters that were written with a cp437 byte of similar looks, each with
/// that byte.
pub const VARIANTS: [(u8, char); 17] = [
    (0x7F, '\u{0394}'),  // GREEK CAPITAL LETTER DELTA
    (0xE1, '\u{03B2}'),  // GREEK SMALL LETTER BETA
    (0xE3, '\u{03A0}'),  // GREEK CAPITAL LETTER PI
    (0xE3, '\u{220F}'),  // N-ARY PRODUCT
    (0xE4, '\u{2211}'),  // N-ARY SUMMATION
    (0xE6, '\u{03BC}'),  // GREEK SMALL LETTER MU
    (0xEB, '\u{00F0}'),  // LATIN SMALL LETTER ETH
    (0xEB, '\u{2202}'),  // PARTIAL DIFFERENTIAL
    (0xED, '\u{03D5}'),  // GREEK PHI SYMBOL
    (0xED, '\u{1D719}'),  // MATHEMATICAL ITALIC PHI SYMBOL
    (0xED, '\u{2205}'),  // EMPTY SET
    (0xED, '\u{2300}'),  // DIAMETER SIGN
    (0xED, '\u{00D8}'),  // LATIN CAPITAL LETTER O WITH STROKE
    (0xED, '\u{00F8}'),  // LATIN SMALL LETTER O WITH STROKE
    (0xEE, '\u{2208}'),  // ELEMENT OF
    (0xEE, '\u{20AC}'),  // EURO SIGN
    (0xFB, '\u{2713}'),  // CHECK MARK
];

/// The primary mappings of the upper half: each byte from 0x80 with its
/// character.
pub open spec fn high_half() -> Seq<(u8, char)> {
    Seq::new(128, |i: int| ((0x80 + i) as u8, HIGH_HALF[i]))
}

/// The primary mappings of the glyphs: each byte from 0x01 to 0x1F with its
/// glyph, then 0x7F with the house.
pub open spec fn glyphs() -> Seq<(u8, char)> {
    Seq::new(31, |i: int| ((1 + i) as u8, GLYPHS[i])).push((0x7Fu8, HOUSE))
}

/// The variant mappings.
pub open spec fn variants() -> Seq<(u8, char)> {
    VARIANTS@
}

/// No character of the tables is ASCII.
pub proof fn lemma_tables_beyond_ascii()
    ensures
        forall|i: int| 0 <= i < high_half().len() ==> (#[trigger] high_half()[i]).1 as u32 >= 0x80,
        forall|i: int| 0 <= i < glyphs().len() ==> (#[trigger] glyphs()[i]).1 as u32 >= 0x80,
        forall|i: int| 0 <= i < variants().len() ==> (#[trigger] variants()[i]).1 as u32 >= 0x80,
{
    assert forall|i: int| 0 <= i < 128 implies HIGH_HALF[i] as u32 >= 0x80 by {}
    assert forall|i: int| 0 <= i < 31 implies GLYPHS[i] as u32 >= 0x80 by {}
    assert forall|i: int| 0 <= i < 17 implies VARIANTS[i].1 as u32 >= 0x80 by {}
}

/// The primary mappings of the upper half, as a list.
pub fn high_half_pairs() -> (list: Vec<(u8, char)>)
    ensures
        list@ == high_half(),
{
    let mut list: Vec<(u8, char)> = Vec::with_capacity(128);
    let mut i: usize = 0;
    while i < 128
        invariant
            i <= 128,
            list@ == high_half().take(i as int),
        decreases 128 - i,
    {
        list.push(((0x80 + i) as u8, HIGH_HALF[i]));
        i = i + 1;
    }
    list
}

/// The primary mappings of the glyphs and of the upper half, as a list.
pub fn glyph_and_high_half_pairs() -> (list: Vec<(u8, char)>)
    ensures
        list@ == glyphs() + high_half(),
{
    let mut list: Vec<(u8, char)> = Vec::with_capacity(160);
    let mut i: usize = 0;
    while i < 31
        invariant
            i <= 31,
            list@ == glyphs().take(i as int),
        decreases 31 - i,
    {
        list.push(((1 + i) as u8, GLYPHS[i]));
        i = i + 1;
    }
    list.push((0x7F, HOUSE));
    assert(list@ == glyphs());
    let mut i: usize = 0;
    while i < 128
        invariant
            i <= 128,
            list@ == glyphs() + high_half().take(i as int),
        decreases 128 - i,
    {
        list.push(((0x80 + i) as u8, HIGH_HALF[i]));
        i = i + 1;
    }
    list
}

/// The variant mappings, as a list.
pub fn variant_pairs() -> (list: Vec<(u8, char)>)
    ensures
        list@ == variants(),
{
    let mut list: Vec<(u8, char)> = Vec::with_capacity(17);
    let mut i: usize = 0;
    while i < 17
        invariant
            i <= 17,
            list@ == variants().take(i as int),
        decreases 17 - i,
    {
        list.push(VARIANTS[i]);
        i = i + 1;
    }
    list
}

} // verus!
