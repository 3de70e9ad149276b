//! From bytes of the PC's cp437 to Unicode text.

use vstd::prelude::*;
use vstd::slice::slice_to_vec;
use std::borrow::Cow;
use crate::charset::{high_half, HIGH_HALF};
use crate::decode::{cp437_overlaps_throughout, decoded, lemma_overlapping_buffer_is_its_text};
use crate::builtin::{control_model, lemma_builtin_consistent};
use crate::lookup::{is_last_for_byte, lemma_last_scalar_for, lemma_last_scalar_for_at};

verus! {

/// In the PC's cp437 the bytes that overlap are those of ASCII.
pub open spec fn is_ascii_byte(cp437: u8) -> bool {
    cp437 <= 0x7F
}

/// What a byte means on the PC: itself in ASCII, its entry of the upper half
/// beyond.
pub open spec fn pc_decode(cp437: u8) -> char {
    if cp437 <= 0x7F {
        cp437 as char
    } else {
        HIGH_HALF[cp437 - 0x80]
    }
}

/// The PC's cp437 is the dialect with the control characters: the same
/// bytes overlap, and every byte decodes to the same scalar.
pub proof fn lemma_pc_is_control(cp437: u8)
    ensures
        is_ascii_byte(cp437) == control_model().overlap_cp437(cp437),
        pc_decode(cp437) == control_model().decode(cp437),
{
    let control = control_model();
    assert(control.remapped().len() == 0);
    if cp437 <= 0x7F {
        lemma_last_scalar_for(control.primary, cp437);
    } else {
        let i = cp437 - 0x80;
        assert(high_half()[i] == (cp437, HIGH_HALF[i]));
        assert(is_last_for_byte(high_half(), i, cp437));
        lemma_last_scalar_for_at(high_half(), i, cp437);
    }
}

/// Check, whether the specified cp437 has the same representation in ASCII.
#[verifier::when_used_as_spec(is_ascii_byte)]
pub fn is_pc_cp437_or_ascii(cp437: u8) -> (overlaps: bool)
    ensures
        overlaps == is_ascii_byte(cp437),
        overlaps == control_model().overlap_cp437(cp437),
{
    proof {
        lemma_pc_is_control(cp437);
    }
    cp437 <= 0x7F
}

/// Convert a cp437 codepoint to a Unicode one.
#[verifier::when_used_as_spec(pc_decode)]
pub fn pc_cp437_to_unicode(cp437: u8) -> (unicode: char)
    ensures
        unicode == pc_decode(cp437),
        unicode == control_model().decode(cp437),
{
    proof {
        lemma_pc_is_control(cp437);
    }
    if is_pc_cp437_or_ascii(cp437) {
        cp437 as char
    } else {
        HIGH_HALF[(cp437 - 0x80) as usize]
    }
}

/// Whether every byte of the buffer is ASCII.
fn all_ascii(cp437: &[u8]) -> (all: bool)
    ensures
        all == cp437_overlaps_throughout(control_model(), cp437@),
{
    let mut i: usize = 0;
    while i < cp437.len()
        invariant
            i <= cp437.len(),
            forall|j: int| 0 <= j < i ==> control_model().overlap_cp437(#[trigger] cp437@[j]),
        decreases cp437.len() - i,
    {
        if !is_pc_cp437_or_ascii(cp437[i]) {
            return false;
        }
        i = i + 1;
    }
    true
}

/// Decode the buffer byte by byte into a new string.
fn decode_each(cp437: &[u8]) -> (unicode: String)
    ensures
        unicode@ == decoded(control_model(), cp437@),
{
    let mut unicode = String::new();
    let mut i: usize = 0;
    while i < cp437.len()
        invariant
            i <= cp437.len(),
            unicode@ == decoded(control_model(), cp437@).take(i as int),
        decreases cp437.len() - i,
    {
        unicode.push(pc_cp437_to_unicode(cp437[i]));
        i = i + 1;
    }
    unicode
}

/// Take the buffer as the string that it already is.
fn take_as_string(cp437: Vec<u8>) -> (unicode: String)
    requires
        cp437_overlaps_throughout(control_model(), cp437@),
    ensures
        unicode@ == decoded(control_model(), cp437@),
{
    proof {
        lemma_builtin_consistent();
        lemma_overlapping_buffer_is_its_text(control_model(), cp437@);
    }
    match String::from_utf8(cp437) {
        Ok(unicode) => unicode,
        Err(_) => vstd::pervasive::unreached(),
    }
}

fn from_pc_cp437_slice_impl(cp437: &[u8]) -> (unicode: String)
    ensures
        unicode@ == decoded(control_model(), cp437@),
{
    if all_ascii(cp437) {
        take_as_string(slice_to_vec(cp437))
    } else {
        decode_each(cp437)
    }
}

fn borrow_from_pc_cp437_cow_slice_impl<'c>(cp437: &'c [u8]) -> (unicode: Cow<'c, str>)
    ensures
        unicode@ == decoded(control_model(), cp437@),
        unicode is Borrowed <==> cp437_overlaps_throughout(control_model(), cp437@),
{
    if all_ascii(cp437) {
        proof {
            lemma_builtin_consistent();
            lemma_overlapping_buffer_is_its_text(control_model(), cp437@);
        }
        match core::str::from_utf8(cp437) {
            Ok(unicode) => Cow::Borrowed(unicode),
            Err(_) => vstd::pervasive::unreached(),
        }
    } else {
        Cow::Owned(decode_each(cp437))
    }
}

/// Move data encoded in cp437 to a Unicode container of the specified type.
pub trait FromPcCp437<T: Sized>: Sized {
    /// The bytes that a source holds.
    spec fn cp437_in(cp437: T) -> Seq<u8>;

    /// The characters that a container holds.
    spec fn unicode_in(&self) -> Seq<char>;

    /// Do the conversion: the container holds what each byte of the source
    /// decodes to, in order.
    fn from_pc_cp437(cp437: T) -> (unicode: Self)
        ensures
            unicode.unicode_in() == decoded(control_model(), Self::cp437_in(cp437)),
    ;
}

impl FromPcCp437<Vec<u8>> for String {
    open spec fn cp437_in(cp437: Vec<u8>) -> Seq<u8> {
        cp437@
    }

    open spec fn unicode_in(&self) -> Seq<char> {
        self@
    }

    fn from_pc_cp437(cp437: Vec<u8>) -> (unicode: String) {
        if all_ascii(cp437.as_slice()) {
            take_as_string(cp437)
        } else {
            decode_each(cp437.as_slice())
        }
    }
}

impl<const N: usize> FromPcCp437<[u8; N]> for String {
    open spec fn cp437_in(cp437: [u8; N]) -> Seq<u8> {
        cp437@
    }

    open spec fn unicode_in(&self) -> Seq<char> {
        self@
    }

    fn from_pc_cp437(cp437: [u8; N]) -> (unicode: String) {
        from_pc_cp437_slice_impl(cp437.as_slice())
    }
}

/// Try to borrow data encoded in cp437 as a Unicode container of the specified type.
///
/// If that cannot be done, clone it.
pub trait BorrowFromPcCp437<'c, T: ?Sized>: Sized {
    /// The bytes that a source holds.
    spec fn cp437_in(cp437: &T) -> Seq<u8>;

    /// The characters that a container holds.
    spec fn unicode_in(&self) -> Seq<char>;

    /// Do the conversion: the container holds what each byte of the source
    /// decodes to, in order.
    fn borrow_from_pc_cp437(cp437: &'c T) -> (unicode: Self)
        ensures
            unicode.unicode_in() == decoded(control_model(), Self::cp437_in(cp437)),
    ;
}

impl<'c> BorrowFromPcCp437<'c, [u8]> for Cow<'c, str> {
    open spec fn cp437_in(cp437: &[u8]) -> Seq<u8> {
        cp437@
    }

    open spec fn unicode_in(&self) -> Seq<char> {
        self@
    }

    /// The text is borrowed from the source exactly where every byte of the
    /// source is ASCII.
    fn borrow_from_pc_cp437(cp437: &'c [u8]) -> (unicode: Cow<'c, str>)
        ensures
            unicode is Borrowed <==> cp437_overlaps_throughout(control_model(), cp437@),
    {
        borrow_from_pc_cp437_cow_slice_impl(cp437)
    }
}

impl<'c> BorrowFromPcCp437<'c, Vec<u8>> for Cow<'c, str> {
    open spec fn cp437_in(cp437: &Vec<u8>) -> Seq<u8> {
        cp437@
    }

    open spec fn unicode_in(&self) -> Seq<char> {
        self@
    }

    /// The text is borrowed from the source exactly where every byte of the
    /// source is ASCII.
    fn borrow_from_pc_cp437(cp437: &'c Vec<u8>) -> (unicode: Cow<'c, str>)
        ensures
            unicode is Borrowed <==> cp437_overlaps_throughout(control_model(), cp437@),
    {
        borrow_from_pc_cp437_cow_slice_impl(cp437.as_slice())
    }
}

impl<'c, const N: usize> BorrowFromPcCp437<'c, [u8; N]> for Cow<'c, str> {
    open spec fn cp437_in(cp437: &[u8; N]) -> Seq<u8> {
        cp437@
    }

    open spec fn unicode_in(&self) -> Seq<char> {
        self@
    }

    /// The text is borrowed from the source exactly where every byte of the
    /// source is ASCII.
    fn borrow_from_pc_cp437(cp437: &'c [u8; N]) -> (unicode: Cow<'c, str>)
        ensures
            unicode is Borrowed <==> cp437_overlaps_throughout(control_model(), cp437@),
    {
        borrow_from_pc_cp437_cow_slice_impl(cp437.as_slice())
    }
}

impl<'c> BorrowFromPcCp437<'c, [u8]> for String {
    open spec fn cp437_in(cp437: &[u8]) -> Seq<u8> {
        cp437@
    }

    open spec fn unicode_in(&self) -> Seq<char> {
        self@
    }

    fn borrow_from_pc_cp437(cp437: &'c [u8]) -> (unicode: String) {
        from_pc_cp437_slice_impl(cp437)
    }
}

impl<'c> BorrowFromPcCp437<'c, Vec<u8>> for String {
    open spec fn cp437_in(cp437: &Vec<u8>) -> Seq<u8> {
        cp437@
    }

    open spec fn unicode_in(&self) -> Seq<char> {
        self@
    }

    fn borrow_from_pc_cp437(cp437: &'c Vec<u8>) -> (unicode: String) {
        from_pc_cp437_slice_impl(cp437.as_slice())
    }
}

impl<'c, const N: usize> BorrowFromPcCp437<'c, [u8; N]> for String {
    open spec fn cp437_in(cp437: &[u8; N]) -> Seq<u8> {
        cp437@
    }

    open spec fn unicode_in(&self) -> Seq<char> {
        self@
    }

    fn borrow_from_pc_cp437(cp437: &'c [u8; N]) -> (unicode: String) {
        from_pc_cp437_slice_impl(cp437.as_slice())
    }
}

} // verus!
