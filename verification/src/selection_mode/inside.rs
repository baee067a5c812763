use vstd::prelude::*;
use crate::char_index::ByteRange;
use crate::selection::InsideKind;
use crate::selection_mode::{keep_valid, sort_ranges, sorted_ranges, valid_ranges};
use crate::text::{byte_len, byte_offset, char_utf8_width, lemma_byte_offset_monotonic};

verus! {

/// What is known after the first `n` characters: the places of the opening delimiters that
/// wait for their closing one, the last one innermost, and the ranges between the pairs that
/// have closed.
pub open spec fn pairs_upto(text: Seq<char>, open: char, close: char, n: int) -> (
    Seq<int>,
    Seq<ByteRange>,
)
    decreases n,
{
    if n <= 0 {
        (Seq::empty(), Seq::empty())
    } else {
        let (waiting, closed) = pairs_upto(text, open, close, n - 1);
        let c = text[n - 1];
        if c == close && waiting.len() > 0 {
            (
                waiting.drop_last(),
                closed.push(
                    ByteRange {
                        start: byte_offset(text, waiting.last() + 1) as usize,
                        end: byte_offset(text, n - 1) as usize,
                    },
                ),
            )
        } else if c == open {
            (waiting.push(n - 1), closed)
        } else {
            (waiting, closed)
        }
    }
}

/// The ranges between matching delimiters of a kind, the delimiters left out, in the order of
/// the text, but for the empty ones.
pub open spec fn inside_ranges(text: Seq<char>, kind: InsideKind) -> Seq<ByteRange> {
    valid_ranges(
        sorted_ranges(
            pairs_upto(
                text,
                kind.spec_delimiters().0,
                kind.spec_delimiters().1,
                text.len() as int,
            ).1,
        ),
        byte_len(text) as usize,
    )
}

/// A range with one byte more on either side: what lies between two delimiters, with the
/// delimiters.
pub open spec fn with_delimiters(r: ByteRange) -> Option<ByteRange> {
    if r.start >= 1 && r.end < usize::MAX {
        Some(ByteRange { start: (r.start - 1) as usize, end: (r.end + 1) as usize })
    } else {
        None
    }
}

/// The selection mode whose elements are what stands between matching delimiters.
#[derive(Clone, Copy, Debug, PartialEq, Eq, Structural)]
pub struct Inside {
    pub kind: InsideKind,
}

impl Inside {
    /// One range for each pair of matching delimiters with something between them.
    pub fn iter(&self, text: &Vec<char>) -> (ranges: Vec<ByteRange>)
        requires
            byte_len(text@) <= usize::MAX,
        ensures
            ranges@ == inside_ranges(text@, self.kind),
    {
        let (open, close) = self.kind.delimiters();
        let len: usize = text.len();
        let mut waiting: Vec<usize> = Vec::new();
        let mut closed: Vec<ByteRange> = Vec::new();
        let mut byte: usize = 0;
        let mut i: usize = 0;
        while i < len
            invariant
                i <= len,
                len == text@.len(),
                byte_len(text@) <= usize::MAX,
                byte == byte_offset(text@, i as int),
                closed@ == pairs_upto(text@, open, close, i as int).1,
                waiting@.len() == pairs_upto(text@, open, close, i as int).0.len(),
                forall|k: int|
                    0 <= k < waiting@.len() ==> {
                        let at = #[trigger] pairs_upto(text@, open, close, i as int).0[k];
                        0 <= at < i && waiting@[k] == byte_offset(text@, at + 1)
                    },
            decreases len - i,
        {
            let c: char = text[i];
            let width: usize = char_utf8_width(c);
            proof {
                lemma_byte_offset_monotonic(text@, i + 1, len as int);
            }
            if c == close && waiting.len() > 0 {
                let start: usize = waiting[waiting.len() - 1];
                waiting.pop();
                closed.push(ByteRange { start, end: byte });
            } else if c == open {
                waiting.push(byte + width);
            }
            byte = byte + width;
            i += 1;
        }
        let sorted: Vec<ByteRange> = sort_ranges(&closed);
        keep_valid(&sorted, byte)
    }

    /// The range of an element with its delimiters.
    pub fn parent(&self, r: ByteRange) -> (p: Option<ByteRange>)
        ensures
            p == with_delimiters(r),
    {
        if r.start >= 1 && r.end < usize::MAX {
            Some(ByteRange { start: r.start - 1, end: r.end + 1 })
        } else {
            None
        }
    }
}

} // verus!
