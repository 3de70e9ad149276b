//! From Unicode text to bytes of cp437.

use vstd::prelude::*;
use vstd::string::StrSliceExecFns;
use vstd::utf8::{encode_utf8, is_ascii_chars};
use std::borrow::Cow;
use crate::dialect::Cp437Dialect;
use crate::model::DialectModel;
use crate::text::{chars_as_bytes, lemma_ascii_chars_are_bytes};

verus! {

/// Errors which can occur when attempting to interpret a string as a sequence of cp437 codepoints.
#[derive(Debug, Copy, Clone, Hash, Eq, Ord, PartialEq, PartialOrd)]
pub struct Cp437Error {
    /// The number of characters of the given string, counted from its start,
    /// that were verified to be representable in cp437.
    ///
    /// The character at this index is the first one without a cp437 byte.
    pub representable_up_to: usize,
}

/// A possible error value when converting a `String` into a cp437 byte vector.
///
/// The error keeps the string that was to be converted, so that no copy of it
/// has to be made beforehand: `into_string()` gives it back.
#[derive(Debug, Clone, Hash, Eq, Ord, PartialEq, PartialOrd)]
pub struct IntoCp437Error {
    string: String,
    error: Cp437Error,
}

impl IntoCp437Error {
    /// The characters of the string that was attempted to convert.
    pub closed spec fn attempted(&self) -> Seq<char> {
        self.string@
    }

    /// The details of the failure.
    pub closed spec fn failure(&self) -> Cp437Error {
        self.error
    }

    /// Returns a `&str` that was attempted to convert to cp437.
    pub fn as_str(&self) -> (string: &str)
        ensures
            string@ == self.attempted(),
    {
        self.string.as_str()
    }

    /// Returns the `String` that was attempted to convert to cp437.
    ///
    /// The error is consumed and the string moved out, so that no copy of it
    /// is made.
    pub fn into_string(self) -> (string: String)
        ensures
            string@ == self.attempted(),
    {
        self.string
    }

    /// Fetch a `Cp437Error` to get more details about the conversion failure.
    pub fn cp437_error(&self) -> (error: Cp437Error)
        ensures
            error == self.failure(),
    {
        self.error
    }
}

/// Every character of the text has a byte in the dialect.
pub open spec fn encodable(model: DialectModel, unicode: Seq<char>) -> bool {
    forall|i: int| 0 <= i < unicode.len() ==> model.encode(#[trigger] unicode[i]) is Some
}

/// What an encodable text encodes to: each character by itself, in order.
pub open spec fn encoded(model: DialectModel, unicode: Seq<char>) -> Seq<u8> {
    Seq::new(unicode.len(), |i: int| model.encode(unicode[i])->0)
}

/// The character at index `at` is the first of the text without a byte in the
/// dialect.
pub open spec fn first_unencodable(model: DialectModel, unicode: Seq<char>, at: int) -> bool {
    &&& 0 <= at < unicode.len()
    &&& model.encode(unicode[at]) is None
    &&& forall|i: int| 0 <= i < at ==> model.encode(#[trigger] unicode[i]) is Some
}

/// Every character of the text still means the same in cp437.
pub open spec fn unicode_overlaps_throughout(model: DialectModel, unicode: Seq<char>) -> bool {
    forall|i: int| 0 <= i < unicode.len() ==> model.overlap_unicode(#[trigger] unicode[i])
}

/// A text of which every character overlaps is encodable, and its UTF-8 is
/// the bytes that encoding it character by character gives: taking the text
/// as it is and converting it give the same bytes.
pub proof fn lemma_overlapping_text_is_its_bytes(model: DialectModel, unicode: Seq<char>)
    requires
        model.wf(),
        unicode_overlaps_throughout(model, unicode),
    ensures
        encodable(model, unicode),
        encode_utf8(unicode) == encoded(model, unicode),
{
    assert forall|i: int| 0 <= i < unicode.len() implies '\0' <= #[trigger] unicode[i]
        <= '\u{7f}' by {
        model.lemma_overlap_unicode(unicode[i]);
    }
    assert(is_ascii_chars(unicode));
    assert forall|i: int| 0 <= i < unicode.len() implies model.encode(#[trigger] unicode[i])
        == Some(unicode[i] as u8) by {
        model.lemma_overlap_unicode(unicode[i]);
    }
    lemma_ascii_chars_are_bytes(unicode);
    assert(chars_as_bytes(unicode) =~= encoded(model, unicode));
}

/// Whether every character of the text overlaps.
fn all_overlap(whom: &str, dialect: &Cp437Dialect) -> (all: bool)
    ensures
        all == unicode_overlaps_throughout(dialect@, whom@),
{
    for c in it: whom.chars()
        invariant
            it.seq() == whom@,
            forall|j: int| 0 <= j < it.index() ==> dialect@.overlap_unicode(#[trigger] whom@[j]),
    {
        if !dialect.overlap_unicode(c) {
            return false;
        }
    }
    true
}

/// Move Unicode data to a container of cp437 data.
pub trait IntoCp437<T> {
    /// The characters that a source holds.
    spec fn unicode_in(&self) -> Seq<char>;

    /// The bytes that a container holds.
    spec fn cp437_in(cp437: T) -> Seq<u8>;

    /// Do the conversion: the container holds the bytes that the characters
    /// of the source encode to, in order. Where a character has no byte,
    /// the error holds the source and the index of the first such character.
    fn into_cp437(self, dialect: &Cp437Dialect) -> (result: Result<T, IntoCp437Error>)
        requires
            dialect.wf(),
        ensures
            result is Ok <==> encodable(dialect@, self.unicode_in()),
            (match result {
                Ok(cp437) => Self::cp437_in(cp437) == encoded(dialect@, self.unicode_in()),
                Err(error) => {
                    &&& error.attempted() == self.unicode_in()
                    &&& first_unencodable(
                        dialect@,
                        self.unicode_in(),
                        error.failure().representable_up_to as int,
                    )
                },
            }),
    ;
}

impl IntoCp437<Vec<u8>> for String {
    open spec fn unicode_in(&self) -> Seq<char> {
        self@
    }

    open spec fn cp437_in(cp437: Vec<u8>) -> Seq<u8> {
        cp437@
    }

    fn into_cp437(self, dialect: &Cp437Dialect) -> (result: Result<Vec<u8>, IntoCp437Error>) {
        if all_overlap(self.as_str(), dialect) {
            proof {
                lemma_overlapping_text_is_its_bytes(dialect@, self@);
            }
            Ok(self.into_bytes())
        } else {
            match to_cp437_impl_meat(self.as_str(), dialect) {
                Ok(cp437) => Ok(cp437),
                Err(error) => Err(IntoCp437Error { string: self, error }),
            }
        }
    }
}

/// Borrow (if possible) Unicode data as cp437 data.
pub trait ToCp437<'s, T> {
    /// The characters that a source holds.
    spec fn unicode_in(&self) -> Seq<char>;

    /// The bytes that a container holds.
    spec fn cp437_in(cp437: T) -> Seq<u8>;

    /// Do the conversion: the container holds the bytes that the characters
    /// of the source encode to, in order. Where a character has no byte,
    /// the error holds the index of the first such character.
    fn to_cp437(&'s self, dialect: &Cp437Dialect) -> (result: Result<T, Cp437Error>)
        requires
            dialect.wf(),
        ensures
            result is Ok <==> encodable(dialect@, self.unicode_in()),
            (match result {
                Ok(cp437) => Self::cp437_in(cp437) == encoded(dialect@, self.unicode_in()),
                Err(error) => first_unencodable(
                    dialect@,
                    self.unicode_in(),
                    error.representable_up_to as int,
                ),
            }),
    ;
}

impl<'s> ToCp437<'s, Cow<'s, [u8]>> for str {
    open spec fn unicode_in(&self) -> Seq<char> {
        self@
    }

    open spec fn cp437_in(cp437: Cow<'s, [u8]>) -> Seq<u8> {
        cp437@
    }

    /// The bytes are borrowed from the source exactly where every character
    /// of the source overlaps.
    fn to_cp437(&'s self, dialect: &Cp437Dialect) -> (result: Result<Cow<'s, [u8]>, Cp437Error>)
        ensures
            result matches Ok(cp437) ==> (cp437 is Borrowed <==> unicode_overlaps_throughout(
                dialect@,
                self@,
            )),
    {
        to_cp437_cow_impl(self, dialect)
    }
}

impl<'s> ToCp437<'s, Cow<'s, [u8]>> for String {
    open spec fn unicode_in(&self) -> Seq<char> {
        self@
    }

    open spec fn cp437_in(cp437: Cow<'s, [u8]>) -> Seq<u8> {
        cp437@
    }

    /// The bytes are borrowed from the source exactly where every character
    /// of the source overlaps.
    fn to_cp437(&'s self, dialect: &Cp437Dialect) -> (result: Result<Cow<'s, [u8]>, Cp437Error>)
        ensures
            result matches Ok(cp437) ==> (cp437 is Borrowed <==> unicode_overlaps_throughout(
                dialect@,
                self@,
            )),
    {
        to_cp437_cow_impl(self.as_str(), dialect)
    }
}

fn to_cp437_cow_impl<'c>(whom: &'c str, dialect: &Cp437Dialect) -> (result: Result<
    Cow<'c, [u8]>,
    Cp437Error,
>)
    requires
        dialect.wf(),
    ensures
        result is Ok <==> encodable(dialect@, whom@),
        (match result {
            Ok(cp437) => {
                &&& cp437@ == encoded(dialect@, whom@)
                &&& cp437 is Borrowed <==> unicode_overlaps_throughout(dialect@, whom@)
            },
            Err(error) => first_unencodable(dialect@, whom@, error.representable_up_to as int),
        }),
{
    if all_overlap(whom, dialect) {
        proof {
            lemma_overlapping_text_is_its_bytes(dialect@, whom@);
        }
        Ok(Cow::Borrowed(whom.as_bytes()))
    } else {
        match to_cp437_impl_meat(whom, dialect) {
            Ok(cp437) => Ok(Cow::Owned(cp437)),
            Err(error) => Err(error),
        }
    }
}

fn to_cp437_impl_meat(whom: &str, dialect: &Cp437Dialect) -> (result: Result<Vec<u8>, Cp437Error>)
    ensures
        result is Ok <==> encodable(dialect@, whom@),
        (match result {
            Ok(cp437) => cp437@ == encoded(dialect@, whom@),
            Err(error) => first_unencodable(dialect@, whom@, error.representable_up_to as int),
        }),
{
    let mut result: Vec<u8> = Vec::with_capacity(whom.unicode_len());

    for c in it: whom.chars()
        invariant
            it.seq() == whom@,
            result@ == encoded(dialect@, whom@).take(it.index()),
            forall|j: int| 0 <= j < it.index() ==> dialect@.encode(#[trigger] whom@[j]) is Some,
    {
        if let Some(b) = dialect.encode(c) {
            result.push(b);
        } else {
            return Err(Cp437Error { representable_up_to: result.len() });
        }
    }

    Ok(result)
}

} // verus!
