//! Mapping definitions as text: one record a line, of three fields with a tab
//! between them. The first field is the cp437 byte, `0x` and one or two hex
//! digits; the second is the Unicode scalar, `0x` and one to eight hex digits;
//! the third is a comment.

use vstd::prelude::*;
use crate::mapping::Mapping;
use crate::text::is_scalar_value;

verus! {

/// Why a record is no mapping.
#[derive(Debug, Copy, Clone, Hash, Eq, Ord, PartialEq, PartialOrd)]
pub enum MappingError {
    /// The record has not three fields, but this many.
    RecordLength(usize),
    /// The cp437 field does not start with `0x`.
    Cp437Prefix,
    /// The cp437 field has no digit after `0x`, or something that is no hex
    /// digit.
    Cp437NotHex,
    /// The cp437 field has more than two digits.
    Cp437TooBig,
    /// The Unicode field does not start with `0x`.
    UnicodePrefix,
    /// The Unicode field has no digit after `0x`, or something that is no hex
    /// digit.
    UnicodeNotHex,
    /// The Unicode field has more than eight digits.
    UnicodeTooBig,
    /// The Unicode field holds this number, which is no Unicode scalar.
    UnicodeOutOfRange(u32),
}

/// Why a field is no number.
#[derive(Debug, Copy, Clone, Hash, Eq, Ord, PartialEq, PartialOrd)]
pub enum FieldError {
    /// The field does not start with `0x`.
    Prefix,
    /// The field has no digit after `0x`, or something that is no hex digit.
    NotHex,
    /// The field has more digits than it may.
    TooBig,
}

/// Whether the character is a hex digit, of either case.
pub open spec fn is_hex_digit(c: char) -> bool {
    ('0' <= c && c <= '9') || ('A' <= c && c <= 'F') || ('a' <= c && c <= 'f')
}

/// The value of a hex digit.
pub open spec fn hex_digit_value(c: char) -> nat {
    if '0' <= c && c <= '9' {
        (c as u32 - '0' as u32) as nat
    } else if 'A' <= c && c <= 'F' {
        (c as u32 - 'A' as u32 + 10) as nat
    } else {
        (c as u32 - 'a' as u32 + 10) as nat
    }
}

/// The number that hex digits spell, the first digit counting most.
pub open spec fn hex_number(digits: Seq<char>) -> nat
    decreases digits.len(),
{
    if digits.len() == 0 {
        0
    } else {
        16 * hex_number(digits.drop_last()) + hex_digit_value(digits.last())
    }
}

/// Every character is a hex digit.
pub open spec fn all_hex_digits(digits: Seq<char>) -> bool {
    forall|i: int| 0 <= i < digits.len() ==> is_hex_digit(#[trigger] digits[i])
}

/// The number that a field spells: `0x`, then at least one and at most
/// `max_digits` hex digits.
pub open spec fn hex_field(field: Seq<char>, max_digits: nat) -> Result<nat, FieldError> {
    if field.len() < 2 || field[0] != '0' || field[1] != 'x' {
        Err(FieldError::Prefix)
    } else if field.len() == 2 || !all_hex_digits(field.skip(2)) {
        Err(FieldError::NotHex)
    } else if field.len() - 2 > max_digits {
        Err(FieldError::TooBig)
    } else {
        Ok(hex_number(field.skip(2)))
    }
}

/// The byte, the scalar and the comment that a record of fields declares.
pub open spec fn record_mapping(record: Seq<Seq<char>>) -> Result<
    (u8, char, Seq<char>),
    MappingError,
> {
    if record.len() != 3 {
        Err(MappingError::RecordLength(record.len() as usize))
    } else {
        match hex_field(record[0], 2) {
            Err(FieldError::Prefix) => Err(MappingError::Cp437Prefix),
            Err(FieldError::NotHex) => Err(MappingError::Cp437NotHex),
            Err(FieldError::TooBig) => Err(MappingError::Cp437TooBig),
            Ok(cp437) => match hex_field(record[1], 8) {
                Err(FieldError::Prefix) => Err(MappingError::UnicodePrefix),
                Err(FieldError::NotHex) => Err(MappingError::UnicodeNotHex),
                Err(FieldError::TooBig) => Err(MappingError::UnicodeTooBig),
                Ok(unicode) => if is_scalar_value(unicode as u32) {
                    Ok((cp437 as u8, unicode as u32 as char, record[2]))
                } else {
                    Err(MappingError::UnicodeOutOfRange(unicode as u32))
                },
            },
        }
    }
}

/// The fields of a line: what stands between its tabs.
pub open spec fn fields_of(line: Seq<char>) -> Seq<Seq<char>>
    decreases line.len(),
{
    if line.len() == 0 {
        seq![Seq::<char>::empty()]
    } else {
        let before = fields_of(line.drop_last());
        if line.last() == '\t' {
            before.push(Seq::<char>::empty())
        } else {
            before.drop_last().push(before.last().push(line.last()))
        }
    }
}

/// The fields as sequences of characters.
pub open spec fn field_views(fields: Seq<String>) -> Seq<Seq<char>> {
    Seq::new(fields.len(), |i: int| fields[i]@)
}

/// Hex digits of a given number spell a number below 16 to the power of
/// their count.
pub proof fn lemma_hex_number_bound(digits: Seq<char>)
    requires
        all_hex_digits(digits),
        digits.len() <= 8,
    ensures
        digits.len() <= 2 ==> hex_number(digits) < 0x100,
        hex_number(digits) < 0x1_0000_0000,
        digits.len() <= 7 ==> hex_number(digits) < 0x1000_0000,
{
    lemma_hex_number_below(digits);
}

/// The bound, digit by digit.
proof fn lemma_hex_number_below(digits: Seq<char>)
    requires
        all_hex_digits(digits),
    ensures
        digits.len() == 0 ==> hex_number(digits) == 0,
        digits.len() == 1 ==> hex_number(digits) < 0x10,
        digits.len() == 2 ==> hex_number(digits) < 0x100,
        digits.len() == 3 ==> hex_number(digits) < 0x1000,
        digits.len() == 4 ==> hex_number(digits) < 0x1_0000,
        digits.len() == 5 ==> hex_number(digits) < 0x10_0000,
        digits.len() == 6 ==> hex_number(digits) < 0x100_0000,
        digits.len() == 7 ==> hex_number(digits) < 0x1000_0000,
        digits.len() == 8 ==> hex_number(digits) < 0x1_0000_0000,
    decreases digits.len(),
{
    if digits.len() > 0 {
        let front = digits.drop_last();
        assert(all_hex_digits(front)) by {
            assert forall|i: int| 0 <= i < front.len() implies is_hex_digit(
                #[trigger] front[i],
            ) by {
                assert(front[i] == digits[i]);
            }
        }
        lemma_hex_number_below(front);
        assert(is_hex_digit(digits[digits.len() - 1]));
        assert(hex_digit_value(digits.last()) < 16);
    }
}

/// The value of a hex digit, or nothing for any other character.
pub fn hex_digit(c: char) -> (value: Option<u8>)
    ensures
        value is Some <==> is_hex_digit(c),
        value matches Some(v) ==> v == hex_digit_value(c),
{
    if c >= '0' && c <= '9' {
        Some((c as u32 - '0' as u32) as u8)
    } else if c >= 'A' && c <= 'F' {
        Some((c as u32 - 'A' as u32 + 10) as u8)
    } else if c >= 'a' && c <= 'f' {
        Some((c as u32 - 'a' as u32 + 10) as u8)
    } else {
        None
    }
}

/// Read the number of a field.
fn parse_hex_field(field: &str, max_digits: usize) -> (result: Result<u32, FieldError>)
    requires
        1 <= max_digits <= 8,
    ensures
        (match result {
            Ok(value) => hex_field(field@, max_digits as nat) == Ok::<nat, FieldError>(
                value as nat,
            ),
            Err(error) => hex_field(field@, max_digits as nat) == Err::<nat, FieldError>(error),
        }),
{
    let mut position: usize = 0;
    let mut digits: usize = 0;
    let mut good_prefix = true;
    let mut hex = true;
    let mut value: u32 = 0;
    for c in it: field.chars()
        invariant
            1 <= max_digits <= 8,
            it.seq() == field@,
            position == if it.index() < 2 {
                it.index()
            } else {
                2
            },
            good_prefix <==> ((it.index() < 1 || field@[0] == '0') && (it.index() < 2 || field@[1]
                == 'x')),
            hex <==> (it.index() <= 2 || all_hex_digits(field@.subrange(2, it.index() as int))),
            it.index() <= 2 ==> digits == 0 && value == 0,
            hex && it.index() > 2 ==> digits == if it.index() - 2 <= max_digits {
                it.index() - 2
            } else {
                max_digits + 1
            },
            hex && 2 <= it.index() <= 2 + max_digits ==> value == hex_number(
                field@.subrange(2, it.index() as int),
            ),
    {
        let ghost at = it.index() as int;
        let ghost before = field@.subrange(2, at);
        let ghost after = field@.subrange(2, at + 1);
        if position == 0 {
            if c != '0' {
                good_prefix = false;
            }
            position = 1;
        } else if position == 1 {
            if c != 'x' {
                good_prefix = false;
            }
            position = 2;
            proof {
                assert(field@.subrange(2, 2).len() == 0);
            }
        } else {
            proof {
                assert(after.drop_last() == before);
                assert(after.last() == c);
                if at == 2 {
                    assert(all_hex_digits(before));
                }
                if all_hex_digits(before) {
                    lemma_hex_number_below(before);
                    if is_hex_digit(c) {
                        assert forall|i: int| 0 <= i < after.len() implies is_hex_digit(
                            #[trigger] after[i],
                        ) by {
                            if i < before.len() {
                                assert(after[i] == before[i]);
                            }
                        }
                    } else {
                        assert(!is_hex_digit(after[after.len() - 1]));
                    }
                } else {
                    let bad = choose|i: int| 0 <= i < before.len() && !is_hex_digit(before[i]);
                    assert(after[bad] == before[bad]);
                }
            }
            match hex_digit(c) {
                Some(digit) => {
                    if hex {
                        if digits < max_digits {
                            value = value * 16 + digit as u32;
                        }
                        if digits <= max_digits {
                            digits = digits + 1;
                        }
                    }
                },
                None => {
                    hex = false;
                },
            }
        }
    }
    proof {
        if field@.len() >= 2 {
            assert(field@.skip(2) == field@.subrange(2, field@.len() as int));
        }
    }
    if position < 2 || !good_prefix {
        Err(FieldError::Prefix)
    } else if !hex || digits == 0 {
        Err(FieldError::NotHex)
    } else if digits > max_digits {
        Err(FieldError::TooBig)
    } else {
        Ok(value)
    }
}

impl Mapping {
    /// Read a mapping from the fields of a record.
    ///
    /// The fields are checked in their order, and in each the prefix before
    /// the digits, and the digits before their number.
    pub fn from_record(record: &[String]) -> (result: Result<Mapping, MappingError>)
        ensures
            (match result {
                Ok(mapping) => record_mapping(field_views(record@)) == Ok::<
                    (u8, char, Seq<char>),
                    MappingError,
                >((mapping.cp437, mapping.unicode, mapping.comment@)),
                Err(error) => record_mapping(field_views(record@)) == Err::<
                    (u8, char, Seq<char>),
                    MappingError,
                >(error),
            }),
    {
        if record.len() != 3 {
            return Err(MappingError::RecordLength(record.len()));
        }
        let cp437 = match parse_hex_field(record[0].as_str(), 2) {
            Ok(cp437) => cp437,
            Err(FieldError::Prefix) => {
                return Err(MappingError::Cp437Prefix);
            },
            Err(FieldError::NotHex) => {
                return Err(MappingError::Cp437NotHex);
            },
            Err(FieldError::TooBig) => {
                return Err(MappingError::Cp437TooBig);
            },
        };
        let unicode = match parse_hex_field(record[1].as_str(), 8) {
            Ok(unicode) => unicode,
            Err(FieldError::Prefix) => {
                return Err(MappingError::UnicodePrefix);
            },
            Err(FieldError::NotHex) => {
                return Err(MappingError::UnicodeNotHex);
            },
            Err(FieldError::TooBig) => {
                return Err(MappingError::UnicodeTooBig);
            },
        };
        proof {
            lemma_hex_number_bound(record[0]@.skip(2));
        }
        match char::from_u32(unicode) {
            Some(scalar) => Ok(
                Mapping { cp437: cp437 as u8, unicode: scalar, comment: record[2].clone() },
            ),
            None => Err(MappingError::UnicodeOutOfRange(unicode)),
        }
    }

    /// Read a mapping from a line of text: from its fields, which tabs
    /// separate.
    pub fn from_line(line: &str) -> (result: Result<Mapping, MappingError>)
        ensures
            (match result {
                Ok(mapping) => record_mapping(fields_of(line@)) == Ok::<
                    (u8, char, Seq<char>),
                    MappingError,
                >((mapping.cp437, mapping.unicode, mapping.comment@)),
                Err(error) => record_mapping(fields_of(line@)) == Err::<
                    (u8, char, Seq<char>),
                    MappingError,
                >(error),
            }),
    {
        let fields = split_fields(line);
        Mapping::from_record(fields.as_slice())
    }
}

/// Split a line at its tabs.
pub fn split_fields(line: &str) -> (fields: Vec<String>)
    ensures
        field_views(fields@) == fields_of(line@),
{
    let mut fields: Vec<String> = Vec::new();
    let mut field = String::new();
    proof {
        assert(line@.take(0).len() == 0);
        assert(field_views(fields@).push(field@) =~= fields_of(line@.take(0)));
    }
    for c in it: line.chars()
        invariant
            it.seq() == line@,
            field_views(fields@).push(field@) == fields_of(line@.take(it.index() as int)),
    {
        let ghost at = it.index() as int;
        proof {
            let upto = line@.take(at + 1);
            assert(upto.drop_last() == line@.take(at));
            assert(upto.last() == c);
        }
        let ghost before = field_views(fields@).push(field@);
        if c == '\t' {
            fields.push(field);
            field = String::new();
            proof {
                assert(field_views(fields@) =~= before);
            }
        } else {
            field.push(c);
            proof {
                assert(field_views(fields@).push(field@) =~= before.drop_last().push(
                    before.last().push(c),
                ));
            }
        }
    }
    proof {
        assert(line@.take(line@.len() as int) == line@);
    }
    let ghost before = field_views(fields@).push(field@);
    fields.push(field);
    proof {
        assert(field_views(fields@) =~= before);
    }
    fields
}

} // verus!
