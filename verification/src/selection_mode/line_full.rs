use vstd::prelude::*;
use crate::char_index::ByteRange;
use crate::selection_mode::line_trimmed::{
    LineSpan, line_span, line_spans, scan_lines, visible_line_count,
};
use crate::text::byte_len;

verus! {

/// The range of a line with its line feed.
pub open spec fn full_range(span: LineSpan) -> ByteRange {
    ByteRange {
        start: span.start_byte,
        end: if span.newline {
            (span.end_byte + 1) as usize
        } else {
            span.end_byte
        },
    }
}

/// The ranges of the lines of the text, each with its line feed.
pub open spec fn line_full_ranges(text: Seq<char>) -> Seq<ByteRange> {
    Seq::new(visible_line_count(text), |l: int| full_range(line_span(text, l)))
}

/// The selection mode whose elements are the whole lines.
#[derive(Clone, Copy, Debug, PartialEq, Eq, Structural)]
pub struct LineFull;

impl LineFull {
    /// The name shown for the mode.
    pub fn name(&self) -> (s: &'static str)
        ensures
            s@ == "LINE(FULL)"@,
    {
        "LINE(FULL)"
    }

    /// One range for each line, its line feed included. A text that ends with a line feed has
    /// no line after it.
    pub fn iter(&self, text: &Vec<char>) -> (ranges: Vec<ByteRange>)
        requires
            byte_len(text@) <= usize::MAX,
        ensures
            ranges@ == line_full_ranges(text@),
    {
        let spans: Vec<LineSpan> = scan_lines(text);
        let mut ranges: Vec<ByteRange> = Vec::new();
        let mut i: usize = 0;
        while i < spans.len()
            invariant
                i <= spans.len(),
                byte_len(text@) <= usize::MAX,
                spans@ == line_spans(text@),
                ranges@.len() == i,
                forall|k: int| 0 <= k < i ==> ranges@[k] == full_range(spans@[k]),
            decreases spans.len() - i,
        {
            let span: LineSpan = spans[i];
            let end: usize = if span.newline {
                match span.end_byte.checked_add(1) {
                    Some(e) => e,
                    None => span.end_byte,
                }
            } else {
                span.end_byte
            };
            proof {
                lemma_span_bytes(text@, i as int);
            }
            ranges.push(ByteRange { start: span.start_byte, end });
            i += 1;
        }
        assert(ranges@ =~= line_full_ranges(text@));
        ranges
    }
}

/// The line feed that ends a line lies within the text, so the byte after the line is no overflow.
proof fn lemma_span_bytes(text: Seq<char>, l: int)
    requires
        0 <= l < visible_line_count(text),
        byte_len(text) <= usize::MAX,
    ensures
        line_span(text, l).newline ==> line_span(text, l).end_byte + 1 <= usize::MAX,
{
    crate::selection_mode::line_trimmed::lemma_line_span(text, l);
}

} // verus!
