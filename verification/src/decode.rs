//! From bytes of cp437 to Unicode text.

use vstd::prelude::*;
use vstd::slice::slice_to_vec;
use vstd::utf8::{decode_utf8, valid_utf8};
use std::borrow::Cow;
use crate::dialect::Cp437Dialect;
use crate::model::DialectModel;
use crate::text::{bytes_as_chars, lemma_ascii_bytes_are_utf8};

verus! {

/// What a buffer of cp437 decodes to: each byte by itself, in order.
pub open spec fn decoded(model: DialectModel, cp437: Seq<u8>) -> Seq<char> {
    Seq::new(cp437.len(), |i: int| model.decode(cp437[i]))
}

/// Every byte of the buffer still means the same in Unicode.
pub open spec fn cp437_overlaps_throughout(model: DialectModel, cp437: Seq<u8>) -> bool {
    forall|i: int| 0 <= i < cp437.len() ==> model.overlap_cp437(#[trigger] cp437[i])
}

/// A buffer of which every byte overlaps is valid UTF-8, and read as UTF-8
/// it is the text that decoding it byte by byte gives: taking the buffer as
/// it is and converting it give the same text.
pub proof fn lemma_overlapping_buffer_is_its_text(model: DialectModel, cp437: Seq<u8>)
    requires
        model.wf(),
        cp437_overlaps_throughout(model, cp437),
    ensures
        valid_utf8(cp437),
        decode_utf8(cp437) == decoded(model, cp437),
{
    assert forall|i: int| 0 <= i < cp437.len() implies #[trigger] cp437[i] < 0x80
        && model.decode(cp437[i]) == cp437[i] as char by {
        model.lemma_overlap_cp437(cp437[i]);
    }
    lemma_ascii_bytes_are_utf8(cp437);
    assert(bytes_as_chars(cp437) =~= decoded(model, cp437));
}

/// Whether every byte of the buffer overlaps.
fn all_overlap(cp437: &[u8], dialect: &Cp437Dialect) -> (all: bool)
    ensures
        all == cp437_overlaps_throughout(dialect@, cp437@),
{
    let mut i: usize = 0;
    while i < cp437.len()
        invariant
            i <= cp437.len(),
            forall|j: int| 0 <= j < i ==> dialect@.overlap_cp437(#[trigger] cp437@[j]),
        decreases cp437.len() - i,
    {
        if !dialect.overlap_cp437(cp437[i]) {
            return false;
        }
        i = i + 1;
    }
    true
}

/// Decode the buffer byte by byte into a new string.
fn decode_each(cp437: &[u8], dialect: &Cp437Dialect) -> (unicode: String)
    requires
        dialect.wf(),
    ensures
        unicode@ == decoded(dialect@, cp437@),
{
    let mut unicode = String::new();
    let mut i: usize = 0;
    while i < cp437.len()
        invariant
            dialect.wf(),
            i <= cp437.len(),
            unicode@ == decoded(dialect@, cp437@).take(i as int),
        decreases cp437.len() - i,
    {
        unicode.push(dialect.decode(cp437[i]));
        i = i + 1;
    }
    unicode
}

/// Take the buffer as the string that it already is.
fn take_as_string(cp437: Vec<u8>, dialect: &Cp437Dialect) -> (unicode: String)
    requires
        dialect.wf(),
        cp437_overlaps_throughout(dialect@, cp437@),
    ensures
        unicode@ == decoded(dialect@, cp437@),
{
    proof {
        lemma_overlapping_buffer_is_its_text(dialect@, cp437@);
    }
    match String::from_utf8(cp437) {
        Ok(unicode) => unicode,
        Err(_) => vstd::pervasive::unreached(),
    }
}

/// Move data encoded in cp437 to a Unicode container of the specified type.
pub trait FromCp437<T: Sized>: Sized {
    /// The bytes that a source holds.
    spec fn cp437_in(cp437: T) -> Seq<u8>;

    /// The characters that a container holds.
    spec fn unicode_in(&self) -> Seq<char>;

    /// Do the conversion: the container holds what each byte of the source
    /// decodes to, in order.
    fn from_cp437(cp437: T, dialect: &Cp437Dialect) -> (unicode: Self)
        requires
            dialect.wf(),
        ensures
            unicode.unicode_in() == decoded(dialect@, Self::cp437_in(cp437)),
    ;
}

impl FromCp437<Vec<u8>> for String {
    open spec fn cp437_in(cp437: Vec<u8>) -> Seq<u8> {
        cp437@
    }

    open spec fn unicode_in(&self) -> Seq<char> {
        self@
    }

    fn from_cp437(cp437: Vec<u8>, dialect: &Cp437Dialect) -> (unicode: String) {
        if all_overlap(cp437.as_slice(), dialect) {
            take_as_string(cp437, dialect)
        } else {
            decode_each(cp437.as_slice(), dialect)
        }
    }
}

impl<const N: usize> FromCp437<[u8; N]> for String {
    open spec fn cp437_in(cp437: [u8; N]) -> Seq<u8> {
        cp437@
    }

    open spec fn unicode_in(&self) -> Seq<char> {
        self@
    }

    fn from_cp437(cp437: [u8; N], dialect: &Cp437Dialect) -> (unicode: String) {
        from_cp437_slice_impl(cp437.as_slice(), dialect)
    }
}

fn from_cp437_slice_impl(cp437: &[u8], dialect: &Cp437Dialect) -> (unicode: String)
    requires
        dialect.wf(),
    ensures
        unicode@ == decoded(dialect@, cp437@),
{
    if all_overlap(cp437, dialect) {
        take_as_string(slice_to_vec(cp437), dialect)
    } else {
        decode_each(cp437, dialect)
    }
}

/// Try to borrow data encoded in cp437 as a Unicode container of the specified type.
///
/// If that cannot be done, clone it.
pub trait BorrowFromCp437<'c, T: ?Sized>: Sized {
    /// The bytes that a source holds.
    spec fn cp437_in(cp437: &T) -> Seq<u8>;

    /// The characters that a container holds.
    spec fn unicode_in(&self) -> Seq<char>;

    /// Do the conversion: the container holds what each byte of the source
    /// decodes to, in order.
    fn borrow_from_cp437(cp437: &'c T, dialect: &Cp437Dialect) -> (unicode: Self)
        requires
            dialect.wf(),
        ensures
            unicode.unicode_in() == decoded(dialect@, Self::cp437_in(cp437)),
    ;
}

impl<'c> BorrowFromCp437<'c, [u8]> for Cow<'c, str> {
    open spec fn cp437_in(cp437: &[u8]) -> Seq<u8> {
        cp437@
    }

    open spec fn unicode_in(&self) -> Seq<char> {
        self@
    }

    /// The text is borrowed from the source exactly where every byte of the
    /// source overlaps.
    fn borrow_from_cp437(cp437: &'c [u8], dialect: &Cp437Dialect) -> (unicode: Cow<'c, str>)
        ensures
            unicode is Borrowed <==> cp437_overlaps_throughout(dialect@, cp437@),
    {
        borrow_from_cp437_cow_slice_impl(cp437, dialect)
    }
}

impl<'c> BorrowFromCp437<'c, Vec<u8>> for Cow<'c, str> {
    open spec fn cp437_in(cp437: &Vec<u8>) -> Seq<u8> {
        cp437@
    }

    open spec fn unicode_in(&self) -> Seq<char> {
        self@
    }

    /// The text is borrowed from the source exactly where every byte of the
    /// source overlaps.
    fn borrow_from_cp437(cp437: &'c Vec<u8>, dialect: &Cp437Dialect) -> (unicode: Cow<'c, str>)
        ensures
            unicode is Borrowed <==> cp437_overlaps_throughout(dialect@, cp437@),
    {
        borrow_from_cp437_cow_slice_impl(cp437.as_slice(), dialect)
    }
}

impl<'c, const N: usize> BorrowFromCp437<'c, [u8; N]> for Cow<'c, str> {
    open spec fn cp437_in(cp437: &[u8; N]) -> Seq<u8> {
        cp437@
    }

    open spec fn unicode_in(&self) -> Seq<char> {
        self@
    }

    /// The text is borrowed from the source exactly where every byte of the
    /// source overlaps.
    fn borrow_from_cp437(cp437: &'c [u8; N], dialect: &Cp437Dialect) -> (unicode: Cow<'c, str>)
        ensures
            unicode is Borrowed <==> cp437_overlaps_throughout(dialect@, cp437@),
    {
        borrow_from_cp437_cow_slice_impl(cp437.as_slice(), dialect)
    }
}

impl<'c> BorrowFromCp437<'c, [u8]> for String {
    open spec fn cp437_in(cp437: &[u8]) -> Seq<u8> {
        cp437@
    }

    open spec fn unicode_in(&self) -> Seq<char> {
        self@
    }

    fn borrow_from_cp437(cp437: &'c [u8], dialect: &Cp437Dialect) -> (unicode: String) {
        borrow_from_cp437_string_slice_impl(cp437, dialect)
    }
}

impl<'c> BorrowFromCp437<'c, Vec<u8>> for String {
    open spec fn cp437_in(cp437: &Vec<u8>) -> Seq<u8> {
        cp437@
    }

    open spec fn unicode_in(&self) -> Seq<char> {
        self@
    }

    fn borrow_from_cp437(cp437: &'c Vec<u8>, dialect: &Cp437Dialect) -> (unicode: String) {
        borrow_from_cp437_string_slice_impl(cp437.as_slice(), dialect)
    }
}

impl<'c, const N: usize> BorrowFromCp437<'c, [u8; N]> for String {
    open spec fn cp437_in(cp437: &[u8; N]) -> Seq<u8> {
        cp437@
    }

    open spec fn unicode_in(&self) -> Seq<char> {
        self@
    }

    fn borrow_from_cp437(cp437: &'c [u8; N], dialect: &Cp437Dialect) -> (unicode: String) {
        borrow_from_cp437_string_slice_impl(cp437.as_slice(), dialect)
    }
}

fn borrow_from_cp437_cow_slice_impl<'c>(cp437: &'c [u8], dialect: &Cp437Dialect) -> (unicode: Cow<
    'c,
    str,
>)
    requires
        dialect.wf(),
    ensures
        unicode@ == decoded(dialect@, cp437@),
        unicode is Borrowed <==> cp437_overlaps_throughout(dialect@, cp437@),
{
    if all_overlap(cp437, dialect) {
        proof {
            lemma_overlapping_buffer_is_its_text(dialect@, cp437@);
        }
        match core::str::from_utf8(cp437) {
            Ok(unicode) => Cow::Borrowed(unicode),
            Err(_) => vstd::pervasive::unreached(),
        }
    } else {
        Cow::Owned(decode_each(cp437, dialect))
    }
}

fn borrow_from_cp437_string_slice_impl(cp437: &[u8], dialect: &Cp437Dialect) -> (unicode: String)
    requires
        dialect.wf(),
    ensures
        unicode@ == decoded(dialect@, cp437@),
{
    if all_overlap(cp437, dialect) {
        take_as_string(slice_to_vec(cp437), dialect)
    } else {
        decode_each(cp437, dialect)
    }
}

} // verus!
