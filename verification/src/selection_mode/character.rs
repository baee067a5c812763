use vstd::prelude::*;
use crate::char_index::ByteRange;
use crate::text::{byte_len, byte_offset, char_utf8_width, lemma_byte_offset_monotonic};

verus! {

/// The bytes of character `i`.
pub open spec fn character_range(text: Seq<char>, i: int) -> ByteRange {
    ByteRange { start: byte_offset(text, i) as usize, end: byte_offset(text, i + 1) as usize }
}

/// One range for each character of the text.
pub open spec fn character_ranges(text: Seq<char>) -> Seq<ByteRange> {
    Seq::new(text.len(), |i: int| character_range(text, i))
}

/// The byte offset of every character index of the text, the length included.
pub open spec fn byte_offsets(text: Seq<char>) -> Seq<usize> {
    Seq::new(text.len() + 1, |i: int| byte_offset(text, i) as usize)
}

/// The byte offset at which each character begins, and the length in bytes as the last entry.
pub fn char_byte_offsets(text: &Vec<char>) -> (offsets: Vec<usize>)
    requires
        byte_len(text@) <= usize::MAX,
    ensures
        offsets@ == byte_offsets(text@),
{
    let mut offsets: Vec<usize> = Vec::new();
    let mut byte: usize = 0;
    let mut i: usize = 0;
    while i < text.len()
        invariant
            i <= text.len(),
            byte_len(text@) <= usize::MAX,
            byte == byte_offset(text@, i as int),
            offsets@.len() == i,
            forall|k: int| 0 <= k < i ==> offsets@[k] == byte_offset(text@, k),
        decreases text.len() - i,
    {
        proof {
            lemma_byte_offset_monotonic(text@, i + 1, text@.len() as int);
        }
        offsets.push(byte);
        byte = byte + char_utf8_width(text[i]);
        i += 1;
    }
    offsets.push(byte);
    assert(offsets@ =~= byte_offsets(text@));
    offsets
}

/// The selection mode whose elements are the characters.
#[derive(Clone, Copy, Debug, PartialEq, Eq, Structural)]
pub struct Character;

impl Character {
    /// One range for each character, in order.
    pub fn iter(&self, text: &Vec<char>) -> (ranges: Vec<ByteRange>)
        requires
            byte_len(text@) <= usize::MAX,
        ensures
            ranges@ == character_ranges(text@),
    {
        let offsets: Vec<usize> = char_byte_offsets(text);
        let mut ranges: Vec<ByteRange> = Vec::new();
        let mut i: usize = 0;
        while i < text.len()
            invariant
                i <= text.len(),
                offsets@ == byte_offsets(text@),
                ranges@.len() == i,
                forall|k: int| 0 <= k < i ==> ranges@[k] == character_range(text@, k),
            decreases text.len() - i,
        {
            ranges.push(ByteRange { start: offsets[i], end: offsets[i + 1] });
            i += 1;
        }
        assert(ranges@ =~= character_ranges(text@));
        ranges
    }
}

/// Every character has a range that is not empty, lies within the text and starts where the
/// range of the character before it ends.
pub proof fn lemma_character_ranges(text: Seq<char>, i: int)
    requires
        0 <= i < text.len(),
        byte_len(text) <= usize::MAX,
    ensures
        character_ranges(text)[i].start < character_ranges(text)[i].end <= byte_len(text),
        i > 0 ==> character_ranges(text)[i - 1].end == character_ranges(text)[i].start,
{
    lemma_byte_offset_monotonic(text, i + 1, text.len() as int);
    lemma_byte_offset_monotonic(text, i, i + 1);
}

} // verus!
