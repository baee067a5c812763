use vstd::prelude::*;
use crate::char_index::ByteRange;
use crate::text::{
    byte_len, byte_offset, char_is_whitespace, char_utf8_width, is_whitespace,
    lemma_byte_offset_monotonic,
};

verus! {

/// Where the run of characters that are no white space and reach up to `i` begins; `i` itself
/// where the character before it is white space.
pub open spec fn run_start(text: Seq<char>, i: int) -> int
    decreases i,
{
    if i > 0 && !is_whitespace(text[i - 1]) {
        run_start(text, i - 1)
    } else {
        i
    }
}

/// Whether a word ends right before `n`: the character before `n` is no white space, and the
/// text ends at `n` or goes on with white space.
pub open spec fn is_word_end(text: Seq<char>, n: int) -> bool {
    0 < n <= text.len() && !is_whitespace(text[n - 1]) && (n == text.len() || is_whitespace(
        text[n],
    ))
}

/// The words that end within the first `n` characters: the longest runs of characters that
/// are no white space.
pub open spec fn word_ranges_upto(text: Seq<char>, n: int) -> Seq<ByteRange>
    decreases n,
{
    if n <= 0 {
        Seq::empty()
    } else if is_word_end(text, n) {
        word_ranges_upto(text, n - 1).push(
            ByteRange {
                start: byte_offset(text, run_start(text, n - 1)) as usize,
                end: byte_offset(text, n) as usize,
            },
        )
    } else {
        word_ranges_upto(text, n - 1)
    }
}

/// The words of the text, in order.
pub open spec fn word_ranges(text: Seq<char>) -> Seq<ByteRange> {
    word_ranges_upto(text, text.len() as int)
}

/// The selection mode whose elements are the longest runs of characters that are no white
/// space.
#[derive(Clone, Copy, Debug, PartialEq, Eq, Structural)]
pub struct Word;

impl Word {
    /// One range for each word, in order.
    pub fn iter(&self, text: &Vec<char>) -> (ranges: Vec<ByteRange>)
        requires
            byte_len(text@) <= usize::MAX,
        ensures
            ranges@ == word_ranges(text@),
    {
        let len: usize = text.len();
        let mut ranges: Vec<ByteRange> = Vec::new();
        let mut start_byte: usize = 0;
        let mut byte: usize = 0;
        let ghost mut start: int = 0;
        let mut i: usize = 0;
        while i < len
            invariant
                i <= len,
                len == text@.len(),
                byte_len(text@) <= usize::MAX,
                byte == byte_offset(text@, i as int),
                start == run_start(text@, i as int),
                start_byte == byte_offset(text@, start),
                ranges@ == word_ranges_upto(text@, i as int),
            decreases len - i,
        {
            let c: char = text[i];
            let width: usize = char_utf8_width(c);
            proof {
                lemma_byte_offset_monotonic(text@, i + 1, len as int);
            }
            if char_is_whitespace(c) {
                start_byte = byte + width;
                proof {
                    start = i + 1;
                }
            } else if i + 1 == len || char_is_whitespace(text[i + 1]) {
                ranges.push(ByteRange { start: start_byte, end: byte + width });
            }
            byte = byte + width;
            i += 1;
        }
        ranges
    }
}

/// The run of characters that `i` ends starts at or before `i`.
pub proof fn lemma_run_start(text: Seq<char>, i: int)
    requires
        0 <= i,
    ensures
        0 <= run_start(text, i) <= i,
    decreases i,
{
    if i > 0 && !is_whitespace(text[i - 1]) {
        lemma_run_start(text, i - 1);
    }
}

/// Every word is not empty and lies within the text.
pub proof fn lemma_word_ranges(text: Seq<char>, n: int)
    requires
        0 <= n <= text.len(),
        byte_len(text) <= usize::MAX,
    ensures
        forall|i: int|
            0 <= i < word_ranges_upto(text, n).len() ==> (#[trigger] word_ranges_upto(
                text,
                n,
            )[i]).start < word_ranges_upto(text, n)[i].end <= byte_len(text),
    decreases n,
{
    if n > 0 {
        lemma_word_ranges(text, n - 1);
        let before = word_ranges_upto(text, n - 1);
        let all = word_ranges_upto(text, n);
        if is_word_end(text, n) {
            lemma_run_start(text, n - 1);
            lemma_byte_offset_monotonic(text, run_start(text, n - 1), n);
            lemma_byte_offset_monotonic(text, n, text.len() as int);
            assert forall|i: int| 0 <= i < all.len() implies (#[trigger] all[i]).start < all[i].end
                <= byte_len(text) by {
                if i < before.len() {
                    assert(all[i] == before[i]);
                }
            }
        }
    }
}

} // verus!
