//! Last-match lookup in ordered lists of byte and scalar pairs.
//!
//! Mappings are scanned in the order of their declaration and the last match
//! wins, in both directions.

use vstd::prelude::*;

verus! {

/// The byte of the last entry whose scalar is `unicode`.
pub open spec fn last_byte_for(entries: Seq<(u8, char)>, unicode: char) -> Option<u8>
    decreases entries.len(),
{
    if entries.len() == 0 {
        None
    } else if entries.last().1 == unicode {
        Some(entries.last().0)
    } else {
        last_byte_for(entries.drop_last(), unicode)
    }
}

/// The scalar of the last entry whose byte is `cp437`.
pub open spec fn last_scalar_for(entries: Seq<(u8, char)>, cp437: u8) -> Option<char>
    decreases entries.len(),
{
    if entries.len() == 0 {
        None
    } else if entries.last().0 == cp437 {
        Some(entries.last().1)
    } else {
        last_scalar_for(entries.drop_last(), cp437)
    }
}

/// What the byte decodes to by the entries: the scalar of its last entry, or
/// the scalar of its own number.
pub open spec fn decoded_by(entries: Seq<(u8, char)>, cp437: u8) -> char {
    match last_scalar_for(entries, cp437) {
        Some(unicode) => unicode,
        None => cp437 as char,
    }
}

/// Entry `i` is the last one for the scalar `unicode`.
pub open spec fn is_last_for_scalar(entries: Seq<(u8, char)>, i: int, unicode: char) -> bool {
    &&& 0 <= i < entries.len()
    &&& entries[i].1 == unicode
    &&& forall|j: int| i < j < entries.len() ==> (#[trigger] entries[j]).1 != unicode
}

/// Entry `i` is the last one for the byte `cp437`.
pub open spec fn is_last_for_byte(entries: Seq<(u8, char)>, i: int, cp437: u8) -> bool {
    &&& 0 <= i < entries.len()
    &&& entries[i].0 == cp437
    &&& forall|j: int| i < j < entries.len() ==> (#[trigger] entries[j]).0 != cp437
}

/// `last_byte_for` finds the last entry for the scalar, and finds nothing
/// only where no entry has it.
pub proof fn lemma_last_byte_for(entries: Seq<(u8, char)>, unicode: char)
    ensures
        (match last_byte_for(entries, unicode) {
            Some(cp437) => exists|i: int|
                is_last_for_scalar(entries, i, unicode) && (#[trigger] entries[i]).0 == cp437,
            None => forall|i: int| 0 <= i < entries.len() ==> (#[trigger] entries[i]).1 != unicode,
        }),
    decreases entries.len(),
{
    if entries.len() == 0 {
    } else if entries.last().1 == unicode {
        assert(is_last_for_scalar(entries, entries.len() - 1, unicode));
    } else {
        let front = entries.drop_last();
        lemma_last_byte_for(front, unicode);
        match last_byte_for(front, unicode) {
            Some(cp437) => {
                let i = choose|i: int|
                    is_last_for_scalar(front, i, unicode) && (#[trigger] front[i]).0 == cp437;
                assert forall|j: int| i < j < entries.len() implies (#[trigger] entries[j]).1
                    != unicode by {
                    if j < front.len() {
                        assert(front[j].1 != unicode);
                    }
                }
                assert(entries[i] == front[i]);
                assert(is_last_for_scalar(entries, i, unicode));
            },
            None => {
                assert forall|i: int| 0 <= i < entries.len() implies (#[trigger] entries[i]).1
                    != unicode by {
                    if i < front.len() {
                        assert(front[i].1 != unicode);
                    }
                }
            },
        }
    }
}

/// The last entry for a scalar is what `last_byte_for` finds.
pub proof fn lemma_last_byte_for_at(entries: Seq<(u8, char)>, i: int, unicode: char)
    requires
        is_last_for_scalar(entries, i, unicode),
    ensures
        last_byte_for(entries, unicode) == Some(entries[i].0),
    decreases entries.len(),
{
    if i < entries.len() - 1 {
        let front = entries.drop_last();
        assert(entries[entries.len() - 1].1 != unicode);
        assert forall|j: int| i < j < front.len() implies (#[trigger] front[j]).1 != unicode by {
            assert(entries[j].1 != unicode);
        }
        lemma_last_byte_for_at(front, i, unicode);
    }
}

/// `last_scalar_for` finds the last entry for the byte, and finds nothing
/// only where no entry has it.
pub proof fn lemma_last_scalar_for(entries: Seq<(u8, char)>, cp437: u8)
    ensures
        (match last_scalar_for(entries, cp437) {
            Some(unicode) => exists|i: int|
                is_last_for_byte(entries, i, cp437) && (#[trigger] entries[i]).1 == unicode,
            None => forall|i: int| 0 <= i < entries.len() ==> (#[trigger] entries[i]).0 != cp437,
        }),
    decreases entries.len(),
{
    if entries.len() == 0 {
    } else if entries.last().0 == cp437 {
        assert(is_last_for_byte(entries, entries.len() - 1, cp437));
    } else {
        let front = entries.drop_last();
        lemma_last_scalar_for(front, cp437);
        match last_scalar_for(front, cp437) {
            Some(unicode) => {
                let i = choose|i: int|
                    is_last_for_byte(front, i, cp437) && (#[trigger] front[i]).1 == unicode;
                assert forall|j: int| i < j < entries.len() implies (#[trigger] entries[j]).0
                    != cp437 by {
                    if j < front.len() {
                        assert(front[j].0 != cp437);
                    }
                }
                assert(entries[i] == front[i]);
                assert(is_last_for_byte(entries, i, cp437));
            },
            None => {
                assert forall|i: int| 0 <= i < entries.len() implies (#[trigger] entries[i]).0
                    != cp437 by {
                    if i < front.len() {
                        assert(front[i].0 != cp437);
                    }
                }
            },
        }
    }
}

/// The last entry for a byte is what `last_scalar_for` finds.
pub proof fn lemma_last_scalar_for_at(entries: Seq<(u8, char)>, i: int, cp437: u8)
    requires
        is_last_for_byte(entries, i, cp437),
    ensures
        last_scalar_for(entries, cp437) == Some(entries[i].1),
    decreases entries.len(),
{
    if i < entries.len() - 1 {
        let front = entries.drop_last();
        assert(entries[entries.len() - 1].0 != cp437);
        assert forall|j: int| i < j < front.len() implies (#[trigger] front[j]).0 != cp437 by {
            assert(entries[j].0 != cp437);
        }
        lemma_last_scalar_for_at(front, i, cp437);
    }
}

/// Scan `entries` from the end for the scalar `unicode`.
pub fn find_byte(entries: &[(u8, char)], unicode: char) -> (found: Option<u8>)
    ensures
        found == last_byte_for(entries@, unicode),
{
    let mut i: usize = entries.len();
    proof {
        assert(entries@.take(i as int) == entries@);
    }
    while i > 0
        invariant
            i <= entries.len(),
            last_byte_for(entries@, unicode) == last_byte_for(entries@.take(i as int), unicode),
        decreases i,
    {
        i = i - 1;
        let entry = entries[i];
        proof {
            let upto = entries@.take(i + 1);
            assert(upto.last() == entries@[i as int]);
            assert(upto.drop_last() == entries@.take(i as int));
        }
        if entry.1 == unicode {
            return Some(entry.0);
        }
    }
    proof {
        assert(entries@.take(0).len() == 0);
    }
    None
}

} // verus!
