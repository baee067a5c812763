use vstd::prelude::*;
use crate::char_index::ByteRange;
use crate::text::{
    byte_len, byte_offset, char_is_whitespace, char_utf8_width, is_line_start, is_whitespace,
    lemma_byte_offset_monotonic, lemma_line_start, lemma_line_start_unique,
    lemma_newlines_monotonic, line_content_len, line_count, line_start, newlines_before, str_chars,
};

verus! {

/// The number of white-space characters from `from` on, counted up to `to` at most.
pub open spec fn leading_blank(text: Seq<char>, from: int, to: int) -> int
    decreases to - from,
{
    if from >= to || !is_whitespace(text[from]) {
        0
    } else {
        1 + leading_blank(text, from + 1, to)
    }
}

/// A line of the text, by character index and by byte offset: where it starts, where its
/// first character that is no white space stands (its end where it has none), where its
/// content ends, and whether a line feed follows.
#[derive(Clone, Copy, Debug, PartialEq, Eq, Structural)]
pub struct LineSpan {
    pub start: usize,
    pub trimmed: usize,
    pub end: usize,
    pub start_byte: usize,
    pub trimmed_byte: usize,
    pub end_byte: usize,
    pub newline: bool,
}

/// The number of lines that count as lines of the text: the empty line after a final line feed
/// does not.
pub open spec fn visible_line_count(text: Seq<char>) -> nat {
    if text.len() > 0 && text.last() == '\n' {
        (line_count(text) - 1) as nat
    } else {
        line_count(text)
    }
}

/// Line `l` of the text.
pub open spec fn line_span(text: Seq<char>, l: int) -> LineSpan {
    let start = line_start(text, l);
    let end = start + line_content_len(text, l);
    let trimmed = start + leading_blank(text, start, end);
    LineSpan {
        start: start as usize,
        trimmed: trimmed as usize,
        end: end as usize,
        start_byte: byte_offset(text, start) as usize,
        trimmed_byte: byte_offset(text, trimmed) as usize,
        end_byte: byte_offset(text, end) as usize,
        newline: l + 1 < line_count(text),
    }
}

/// The lines of the text, in order.
pub open spec fn line_spans(text: Seq<char>) -> Seq<LineSpan> {
    Seq::new(visible_line_count(text), |l: int| line_span(text, l))
}

/// The range of a line from its first character that is no white space to the end of its
/// content.
pub open spec fn trimmed_range(span: LineSpan) -> ByteRange {
    ByteRange { start: span.trimmed_byte, end: span.end_byte }
}

/// The ranges of the lines of the text without leading white space and line feed.
pub open spec fn line_trimmed_ranges(text: Seq<char>) -> Seq<ByteRange> {
    Seq::new(visible_line_count(text), |l: int| trimmed_range(line_span(text, l)))
}

/// Where white space runs from `from` up to `stop` and ends there, `leading_blank` counts just that
/// run.
pub proof fn lemma_leading_blank(text: Seq<char>, from: int, to: int, stop: int)
    requires
        0 <= from <= stop <= to <= text.len(),
        forall|k: int| from <= k < stop ==> is_whitespace(text[k]),
        stop == to || !is_whitespace(text[stop]),
    ensures
        leading_blank(text, from, to) == stop - from,
    decreases stop - from,
{
    if from < stop {
        lemma_leading_blank(text, from + 1, to, stop);
    }
}

/// A line starts, has its first character that is no white space, and ends, in this order,
/// all within the text; the byte offsets are those of the character indices; and a line that a
/// line feed follows ends at that line feed.
pub proof fn lemma_line_span(text: Seq<char>, l: int)
    requires
        0 <= l < visible_line_count(text),
        byte_len(text) <= usize::MAX,
    ensures
        ({
            let span = line_span(text, l);
            &&& span.start <= span.trimmed <= span.end <= text.len()
            &&& span.start == line_start(text, l)
            &&& span.end == line_start(text, l) + line_content_len(text, l)
            &&& span.start_byte == byte_offset(text, span.start as int)
            &&& span.trimmed_byte == byte_offset(text, span.trimmed as int)
            &&& span.end_byte == byte_offset(text, span.end as int)
            &&& span.start_byte <= span.trimmed_byte <= span.end_byte <= byte_len(text)
            &&& span.newline ==> span.end < text.len() && text[span.end as int] == '\n'
                && span.end_byte + 1 == byte_offset(text, span.end + 1) && span.end + 1
                == line_start(text, l + 1) && span.end_byte + 1 <= byte_len(text)
            &&& !span.newline ==> span.end == text.len()
        }),
{
    crate::buffer::lemma_line_content_within(text, l);
    let start = line_start(text, l);
    let end = start + line_content_len(text, l);
    lemma_leading_blank_bound(text, start, end);
    let trimmed = start + leading_blank(text, start, end);
    lemma_byte_offset_monotonic(text, 0, text.len() as int);
    lemma_byte_offset_monotonic(text, 0, start);
    lemma_byte_offset_monotonic(text, start, trimmed);
    lemma_byte_offset_monotonic(text, trimmed, end);
    lemma_byte_offset_monotonic(text, end, text.len() as int);
    assert(0 <= start <= trimmed <= end <= text.len() <= usize::MAX);
    if l + 1 < line_count(text) {
        lemma_line_start(text, l + 1);
        assert(end + 1 == line_start(text, l + 1));
        lemma_byte_offset_monotonic(text, end + 1, text.len() as int);
        assert(byte_offset(text, end + 1) == byte_offset(text, end) + 1);
    }
}

/// A stretch of text has no more leading white space than characters.
pub proof fn lemma_leading_blank_bound(text: Seq<char>, from: int, to: int)
    requires
        from <= to,
    ensures
        0 <= leading_blank(text, from, to) <= to - from,
    decreases to - from,
{
    if from < to && is_whitespace(text[from]) {
        lemma_leading_blank_bound(text, from + 1, to);
    }
}

/// The lines of a text.
pub fn scan_lines(text: &Vec<char>) -> (spans: Vec<LineSpan>)
    requires
        byte_len(text@) <= usize::MAX,
    ensures
        spans@ == line_spans(text@),
{
    let ghost t = text@;
    let len: usize = text.len();
    let mut spans: Vec<LineSpan> = Vec::new();
    let mut start: usize = 0;
    let mut start_byte: usize = 0;
    let mut byte: usize = 0;
    let mut first: Option<(usize, usize)> = None;
    let mut i: usize = 0;
    proof {
        lemma_newlines_monotonic(t, 0, len as int);
    }
    while i < len
        invariant
            i <= len,
            len == text@.len(),
            t == text@,
            byte_len(t) <= usize::MAX,
            start <= i,
            spans@.len() == newlines_before(t, i as int),
            start == 0 || t[start - 1] == '\n',
            newlines_before(t, start as int) == newlines_before(t, i as int),
            byte == byte_offset(t, i as int),
            start_byte == byte_offset(t, start as int),
            match first {
                Some((c, b)) => start <= c < i && !is_whitespace(t[c as int]) && b == byte_offset(
                    t,
                    c as int,
                ) && forall|k: int| start <= k < c ==> is_whitespace(t[k]),
                None => forall|k: int| start <= k < i ==> is_whitespace(t[k]),
            },
            forall|k: int| 0 <= k < spans@.len() ==> spans@[k] == line_span(t, k),
        decreases len - i,
    {
        let c: char = text[i];
        let width: usize = char_utf8_width(c);
        proof {
            lemma_byte_offset_monotonic(t, i + 1, len as int);
            lemma_newlines_monotonic(t, i + 1, len as int);
        }
        if c == '\n' {
            let trimmed: (usize, usize) = match first {
                Some(f) => f,
                None => (i, byte),
            };
            proof {
                let l = spans@.len() as int;
                assert(is_line_start(t, l, start as int));
                assert(is_line_start(t, l + 1, i + 1));
                lemma_line_start(t, l);
                lemma_line_start(t, l + 1);
                lemma_line_start_unique(t, l, start as int, line_start(t, l));
                lemma_line_start_unique(t, l + 1, i + 1, line_start(t, l + 1));
                lemma_leading_blank(t, start as int, i as int, trimmed.0 as int);
            }
            spans.push(
                LineSpan {
                    start,
                    trimmed: trimmed.0,
                    end: i,
                    start_byte,
                    trimmed_byte: trimmed.1,
                    end_byte: byte,
                    newline: true,
                },
            );
            start = i + 1;
            start_byte = byte + width;
            first = None;
        } else if first.is_none() && !char_is_whitespace(c) {
            first = Some((i, byte));
        }
        byte = byte + width;
        i += 1;
    }
    if !(len > 0 && text[len - 1] == '\n') {
        let trimmed: (usize, usize) = match first {
            Some(f) => f,
            None => (len, byte),
        };
        proof {
            let l = spans@.len() as int;
            assert(is_line_start(t, l, start as int));
            lemma_line_start(t, l);
            lemma_line_start_unique(t, l, start as int, line_start(t, l));
            lemma_leading_blank(t, start as int, len as int, trimmed.0 as int);
        }
        spans.push(
            LineSpan {
                start,
                trimmed: trimmed.0,
                end: len,
                start_byte,
                trimmed_byte: trimmed.1,
                end_byte: byte,
                newline: false,
            },
        );
    }
    assert(spans@ =~= line_spans(t));
    spans
}

/// The selection mode whose elements are the lines without their leading white space and
/// their line feed.
#[derive(Clone, Copy, Debug, PartialEq, Eq, Structural)]
pub struct LineTrimmed;

impl LineTrimmed {
    /// The name shown for the mode.
    pub fn name(&self) -> (s: &'static str)
        ensures
            s@ == "LINE(TRIMMED)"@,
    {
        "LINE(TRIMMED)"
    }

    /// One range for each line, from its first character that is no white space to the end of
    /// its content; an empty range where the line has nothing else. A text that ends with a
    /// line feed has no line after it.
    pub fn iter(&self, text: &Vec<char>) -> (ranges: Vec<ByteRange>)
        requires
            byte_len(text@) <= usize::MAX,
        ensures
            ranges@ == line_trimmed_ranges(text@),
    {
        let spans: Vec<LineSpan> = scan_lines(text);
        let mut ranges: Vec<ByteRange> = Vec::new();
        let mut i: usize = 0;
        while i < spans.len()
            invariant
                i <= spans.len(),
                spans@ == line_spans(text@),
                ranges@.len() == i,
                forall|k: int| 0 <= k < i ==> ranges@[k] == trimmed_range(spans@[k]),
            decreases spans.len() - i,
        {
            ranges.push(ByteRange { start: spans[i].trimmed_byte, end: spans[i].end_byte });
            i += 1;
        }
        assert(ranges@ =~= line_trimmed_ranges(text@));
        ranges
    }
}

/// The number of white-space characters at the start of a line, counted on from `k`; the
/// line feed that ends the line is none of them.
pub open spec fn indent_chars(line: Seq<char>, k: int) -> int
    decreases line.len() - k,
{
    if 0 <= k < line.len() && is_whitespace(line[k]) && line[k] != '\n' {
        indent_chars(line, k + 1)
    } else {
        k
    }
}

/// The byte at which the text of a line begins, given the byte offset `byte_start` of the
/// line; the largest offset where that is too large.
pub open spec fn trimmed_start(byte_start: usize, line: Seq<char>) -> usize {
    let at = byte_start + byte_offset(line, indent_chars(line, 0));
    if at <= usize::MAX {
        at as usize
    } else {
        usize::MAX
    }
}

/// Where the text of a line begins, given the byte offset `byte_start` of the line: behind
/// the bytes of the white space that the line starts with. The line feed that ends the line
/// is no such white space, so the start never lies behind the end of the content.
pub fn trim_leading_spaces(byte_start: usize, line: &str) -> (r: usize)
    ensures
        r == trimmed_start(byte_start, line@),
{
    let chars: Vec<char> = str_chars(line);
    let mut at: usize = byte_start;
    let mut k: usize = 0;
    while k < chars.len() && char_is_whitespace(chars[k]) && chars[k] != '\n'
        invariant
            k <= chars.len(),
            indent_chars(chars@, 0) == indent_chars(chars@, k as int),
            at == (if byte_start + byte_offset(chars@, k as int) <= usize::MAX {
                byte_start + byte_offset(chars@, k as int)
            } else {
                usize::MAX as int
            }),
        decreases chars.len() - k,
    {
        let w: usize = char_utf8_width(chars[k]);
        at = if at <= usize::MAX - w {
            at + w
        } else {
            usize::MAX
        };
        k += 1;
    }
    at
}

/// A text that ends with a line feed has no empty line after it: it has as many trimmed lines
/// as line feeds, and the last of them ends right before the last line feed. Any other text
/// has one line more, which runs to the end of the text.
pub proof fn lemma_last_line(text: Seq<char>)
    requires
        byte_len(text) <= usize::MAX,
    ensures
        line_trimmed_ranges(text).len() == (if text.len() > 0 && text.last() == '\n' {
            newlines_before(text, text.len() as int)
        } else {
            newlines_before(text, text.len() as int) + 1
        }),
        line_trimmed_ranges(text).len() > 0,
        line_trimmed_ranges(text).last().end == (if text.len() > 0 && text.last() == '\n' {
            (byte_len(text) - 1) as usize
        } else {
            byte_len(text) as usize
        }),
{
    let n = visible_line_count(text) as int;
    assert(text.len() > 0 && text.last() == '\n' ==> newlines_before(text, text.len() as int) >= 1);
    lemma_line_span(text, n - 1);
    if text.len() > 0 && text.last() == '\n' {
        lemma_line_start(text, n);
        assert(is_line_start(text, n, text.len() as int));
        lemma_line_start_unique(text, n, line_start(text, n), text.len() as int);
    }
}

} // verus!
