use vstd::prelude::*;
use crate::char_index::{ByteRange, CharIndexRange};
use crate::selection_mode::character::{byte_offsets, char_byte_offsets};
use crate::selection_mode::{keep_valid, sort_ranges, sorted_ranges, valid_ranges};
use crate::text::{byte_len, byte_offset};

verus! {

/// The bytes of a range of characters; the empty range at the start of the text for a range
/// that does not lie within the text.
pub open spec fn bytes_of_chars(text: Seq<char>, r: CharIndexRange) -> ByteRange {
    if r.start.0 <= r.end.0 <= text.len() {
        ByteRange {
            start: byte_offset(text, r.start.0 as int) as usize,
            end: byte_offset(text, r.end.0 as int) as usize,
        }
    } else {
        ByteRange { start: 0, end: 0 }
    }
}

/// The ranges of characters of a list as byte ranges, in the order of the text, but for those
/// that are empty or do not lie within the text.
pub open spec fn marked_ranges(text: Seq<char>, ranges: Seq<CharIndexRange>) -> Seq<ByteRange> {
    valid_ranges(
        sorted_ranges(Seq::new(ranges.len(), |i: int| bytes_of_chars(text, ranges[i]))),
        byte_len(text) as usize,
    )
}

/// The elements of a selection mode that goes over ranges kept with the buffer, such as
/// bookmarks and diagnostics.
pub fn marked(text: &Vec<char>, ranges: &Vec<CharIndexRange>) -> (r: Vec<ByteRange>)
    requires
        byte_len(text@) <= usize::MAX,
    ensures
        r@ == marked_ranges(text@, ranges@),
{
    let offsets: Vec<usize> = char_byte_offsets(text);
    let len: usize = text.len();
    let mut bytes: Vec<ByteRange> = Vec::new();
    let mut i: usize = 0;
    while i < ranges.len()
        invariant
            i <= ranges.len(),
            len == text@.len(),
            offsets@ == byte_offsets(text@),
            bytes@.len() == i,
            forall|k: int| 0 <= k < i ==> bytes@[k] == bytes_of_chars(text@, ranges@[k]),
        decreases ranges.len() - i,
    {
        let r: CharIndexRange = ranges[i];
        if r.start.0 <= r.end.0 && r.end.0 <= len {
            bytes.push(ByteRange { start: offsets[r.start.0], end: offsets[r.end.0] });
        } else {
            bytes.push(ByteRange { start: 0, end: 0 });
        }
        i += 1;
    }
    assert(bytes@ =~= Seq::new(ranges@.len(), |i: int| bytes_of_chars(text@, ranges@[i])));
    let sorted: Vec<ByteRange> = sort_ranges(&bytes);
    keep_valid(&sorted, offsets[len])
}

} // verus!
