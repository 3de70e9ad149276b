//! From Unicode text to bytes of the PC's cp437.

use vstd::prelude::*;
use vstd::string::StrSliceExecFns;
use std::borrow::Cow;
use crate::builtin::{control_model, lemma_builtin_consistent};
use crate::charset::{high_half, HIGH_HALF, VARIANTS};
use crate::encode::{
    encodable, encoded, first_unencodable, lemma_overlapping_text_is_its_bytes,
    unicode_overlaps_throughout,
};
use crate::lookup::{find_byte, last_byte_for};

verus! {

/// Errors which can occur when attempting to interpret a string as a sequence of cp437 codepoints.
#[derive(Debug, Copy, Clone, Hash, Eq, Ord, PartialEq, PartialOrd)]
pub struct PcCp437Error {
    /// The number of characters of the given string, counted from its start,
    /// that were verified to be representable in cp437.
    ///
    /// The character at this index is the first one without a cp437 byte.
    pub representable_up_to: usize,
}

/// A possible error value when converting a `String` into a cp437 byte vector.
///
/// The error keeps the string that was to be converted, so that no copy of it
/// has to be made beforehand: `into_string()` gives it back.
#[derive(Debug, Clone, Hash, Eq, Ord, PartialEq, PartialOrd)]
pub struct IntoPcCp437Error {
    string: String,
    error: PcCp437Error,
}

impl IntoPcCp437Error {
    /// The characters of the string that was attempted to convert.
    pub closed spec fn attempted(&self) -> Seq<char> {
        self.string@
    }

    /// The details of the failure.
    pub closed spec fn failure(&self) -> PcCp437Error {
        self.error
    }

    /// Returns a `&str` that was attempted to convert to cp437.
    pub fn as_str(&self) -> (string: &str)
        ensures
            string@ == self.attempted(),
    {
        self.string.as_str()
    }

    /// Returns the `String` that was attempted to convert to cp437.
    ///
    /// The error is consumed and the string moved out, so that no copy of it
    /// is made.
    pub fn into_string(self) -> (string: String)
        ensures
            string@ == self.attempted(),
    {
        self.string
    }

    /// Fetch a `PcCp437Error` to get more details about the conversion failure.
    pub fn pc_cp437_error(&self) -> (error: PcCp437Error)
        ensures
            error == self.failure(),
    {
        self.error
    }
}

/// What a scalar is written as on the PC: the byte of its last variant
/// mapping, else its place in the upper half, else itself where it is ASCII.
pub open spec fn pc_encode(unicode: char) -> Option<u8> {
    control_model().encode(unicode)
}

/// The byte of the last place in the upper half that holds `unicode`.
fn find_in_high_half(unicode: char) -> (found: Option<u8>)
    ensures
        found == last_byte_for(high_half(), unicode),
{
    let ghost all = high_half();
    let mut i: usize = 128;
    proof {
        assert(all.take(128) == all);
    }
    while i > 0
        invariant
            i <= 128,
            all == high_half(),
            last_byte_for(all, unicode) == last_byte_for(all.take(i as int), unicode),
        decreases i,
    {
        i = i - 1;
        proof {
            let upto = all.take(i + 1);
            assert(upto.last() == ((0x80 + i) as u8, HIGH_HALF[i as int]));
            assert(upto.drop_last() == all.take(i as int));
        }
        if HIGH_HALF[i] == unicode {
            return Some((0x80 + i) as u8);
        }
    }
    proof {
        assert(all.take(0).len() == 0);
    }
    None
}

/// Hopefully convert a Unicode codepoint to a cp437 one.
#[verifier::when_used_as_spec(pc_encode)]
pub fn unicode_to_pc_cp437(unicode: char) -> (cp437: Option<u8>)
    ensures
        cp437 == pc_encode(unicode),
{
    proof {
        assert(control_model().remapped().len() == 0);
    }
    match find_byte(VARIANTS.as_slice(), unicode) {
        Some(cp437) => Some(cp437),
        None => match find_in_high_half(unicode) {
            Some(cp437) => Some(cp437),
            None => if unicode <= '\u{7F}' {
                Some(unicode as u8)
            } else {
                None
            },
        },
    }
}

/// On the PC the scalars that overlap are those of ASCII.
pub proof fn lemma_pc_overlap_is_ascii(unicode: char)
    ensures
        control_model().overlap_unicode(unicode) == ('\0' <= unicode <= '\u{7f}'),
{
    assert(control_model().remaps.len() == 0);
}

/// Whether every character of the text is ASCII.
fn all_ascii(whom: &str) -> (all: bool)
    ensures
        all == unicode_overlaps_throughout(control_model(), whom@),
{
    let all = whom.is_ascii();
    proof {
        assert forall|i: int| 0 <= i < whom@.len() implies control_model().overlap_unicode(
            #[trigger] whom@[i],
        ) == ('\0' <= whom@[i] <= '\u{7f}') by {
            lemma_pc_overlap_is_ascii(whom@[i]);
        }
    }
    all
}

/// Move Unicode data to a container of cp437 data.
pub trait IntoPcCp437<T> {
    /// The characters that a source holds.
    spec fn unicode_in(&self) -> Seq<char>;

    /// The bytes that a container holds.
    spec fn cp437_in(cp437: T) -> Seq<u8>;

    /// Do the conversion: the container holds the bytes that the characters
    /// of the source encode to, in order. Where a character has no byte,
    /// the error holds the source and the index of the first such character.
    fn into_pc_cp437(self) -> (result: Result<T, IntoPcCp437Error>)
        ensures
            result is Ok <==> encodable(control_model(), self.unicode_in()),
            (match result {
                Ok(cp437) => Self::cp437_in(cp437) == encoded(control_model(), self.unicode_in()),
                Err(error) => {
                    &&& error.attempted() == self.unicode_in()
                    &&& first_unencodable(
                        control_model(),
                        self.unicode_in(),
                        error.failure().representable_up_to as int,
                    )
                },
            }),
    ;
}

impl IntoPcCp437<Vec<u8>> for String {
    open spec fn unicode_in(&self) -> Seq<char> {
        self@
    }

    open spec fn cp437_in(cp437: Vec<u8>) -> Seq<u8> {
        cp437@
    }

    fn into_pc_cp437(self) -> (result: Result<Vec<u8>, IntoPcCp437Error>) {
        if all_ascii(self.as_str()) {
            proof {
                lemma_builtin_consistent();
                lemma_overlapping_text_is_its_bytes(control_model(), self@);
            }
            Ok(self.into_bytes())
        } else {
            match to_pc_cp437_impl_meat(self.as_str()) {
                Ok(cp437) => Ok(cp437),
                Err(error) => Err(IntoPcCp437Error { string: self, error }),
            }
        }
    }
}

/// Borrow (if possible) Unicode data as cp437 data.
pub trait ToPcCp437<'s, T> {
    /// The characters that a source holds.
    spec fn unicode_in(&self) -> Seq<char>;

    /// The bytes that a container holds.
    spec fn cp437_in(cp437: T) -> Seq<u8>;

    /// Do the conversion: the container holds the bytes that the characters
    /// of the source encode to, in order. Where a character has no byte,
    /// the error holds the index of the first such character.
    fn to_pc_cp437(&'s self) -> (result: Result<T, PcCp437Error>)
        ensures
            result is Ok <==> encodable(control_model(), self.unicode_in()),
            (match result {
                Ok(cp437) => Self::cp437_in(cp437) == encoded(control_model(), self.unicode_in()),
                Err(error) => first_unencodable(
                    control_model(),
                    self.unicode_in(),
                    error.representable_up_to as int,
                ),
            }),
    ;
}

impl<'s> ToPcCp437<'s, Cow<'s, [u8]>> for str {
    open spec fn unicode_in(&self) -> Seq<char> {
        self@
    }

    open spec fn cp437_in(cp437: Cow<'s, [u8]>) -> Seq<u8> {
        cp437@
    }

    /// The bytes are borrowed from the source exactly where every character
    /// of the source is ASCII.
    fn to_pc_cp437(&'s self) -> (result: Result<Cow<'s, [u8]>, PcCp437Error>)
        ensures
            result matches Ok(cp437) ==> (cp437 is Borrowed <==> unicode_overlaps_throughout(
                control_model(),
                self@,
            )),
    {
        to_pc_cp437_cow_impl(self)
    }
}

impl<'s> ToPcCp437<'s, Cow<'s, [u8]>> for String {
    open spec fn unicode_in(&self) -> Seq<char> {
        self@
    }

    open spec fn cp437_in(cp437: Cow<'s, [u8]>) -> Seq<u8> {
        cp437@
    }

    /// The bytes are borrowed from the source exactly where every character
    /// of the source is ASCII.
    fn to_pc_cp437(&'s self) -> (result: Result<Cow<'s, [u8]>, PcCp437Error>)
        ensures
            result matches Ok(cp437) ==> (cp437 is Borrowed <==> unicode_overlaps_throughout(
                control_model(),
                self@,
            )),
    {
        to_pc_cp437_cow_impl(self.as_str())
    }
}

fn to_pc_cp437_cow_impl<'c>(whom: &'c str) -> (result: Result<Cow<'c, [u8]>, PcCp437Error>)
    ensures
        result is Ok <==> encodable(control_model(), whom@),
        (match result {
            Ok(cp437) => {
                &&& cp437@ == encoded(control_model(), whom@)
                &&& cp437 is Borrowed <==> unicode_overlaps_throughout(control_model(), whom@)
            },
            Err(error) => first_unencodable(
                control_model(),
                whom@,
                error.representable_up_to as int,
            ),
        }),
{
    if all_ascii(whom) {
        proof {
            lemma_builtin_consistent();
            lemma_overlapping_text_is_its_bytes(control_model(), whom@);
        }
        Ok(Cow::Borrowed(whom.as_bytes()))
    } else {
        match to_pc_cp437_impl_meat(whom) {
            Ok(cp437) => Ok(Cow::Owned(cp437)),
            Err(error) => Err(error),
        }
    }
}

fn to_pc_cp437_impl_meat(whom: &str) -> (result: Result<Vec<u8>, PcCp437Error>)
    ensures
        result is Ok <==> encodable(control_model(), whom@),
        (match result {
            Ok(cp437) => cp437@ == encoded(control_model(), whom@),
            Err(error) => first_unencodable(
                control_model(),
                whom@,
                error.representable_up_to as int,
            ),
        }),
{
    let mut result: Vec<u8> = Vec::with_capacity(whom.unicode_len());

    for c in it: whom.chars()
        invariant
            it.seq() == whom@,
            result@ == encoded(control_model(), whom@).take(it.index()),
            forall|j: int|
                0 <= j < it.index() ==> control_model().encode(#[trigger] whom@[j]) is Some,
    {
        if let Some(b) = unicode_to_pc_cp437(c) {
            result.push(b);
        } else {
            return Err(PcCp437Error { representable_up_to: result.len() });
        }
    }

    Ok(result)
}

} // verus!
