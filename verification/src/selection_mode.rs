use vstd::prelude::*;
use crate::buffer::{Buffer, BufferView, bytes_of_char_range, chars_of_bytes, range_text};
use crate::components::editor::Movement;
use crate::char_index::ByteRange;
use crate::error::EditorError;
use crate::regex_search::regex_matches;
use crate::selection::{
    InsideKind, Filter, FilterKind, FilterMechanism, FilterTarget, FilterView, Filters, Selection,
    SelectionMode, SelectionModeView, SelectionView,
};
use crate::words::{contains_text, text_contains};
use crate::selection_mode::bookmark::{bytes_of_chars, marked, marked_ranges};
use crate::selection_mode::character::{Character, character_ranges, lemma_character_ranges};
use crate::selection_mode::inside::{Inside, inside_ranges, pairs_upto, with_delimiters};
use crate::selection_mode::line_full::{LineFull, line_full_ranges};
use crate::selection_mode::line_trimmed::{
    LineTrimmed, lemma_line_span, line_span, line_trimmed_ranges,
};
use crate::selection_mode::node::{
    node_range, bottom_node_ranges, bottom_nodes, current_node, get_current_node, is_named_child_of,
    is_top_node, ranges_of_nodes, sibling_ranges, siblings, top_node_ranges, top_nodes,
};
use crate::selection_mode::regex::{
    find_ranges, get_regex, match_ranges, regex_ranges, search_pattern,
};
use crate::selection_mode::word::{Word, lemma_word_ranges, word_ranges};
use crate::sorting::{order_by_key, sort_indices};
use crate::syntax::{SyntaxNode, inner_child, is_leaf, outer_ancestor};
use crate::text::{
    byte_len, lemma_byte_offset_monotonic, lemma_line_start, lemma_newlines_monotonic, line_start,
};

pub mod bookmark;
pub mod character;
pub mod inside;
pub mod line_full;
pub mod line_trimmed;
pub mod node;
pub mod regex;
pub mod word;

verus! {

/// The first place from `from` on, below `len`, that satisfies `wanted`.
pub open spec fn first_from(len: int, wanted: spec_fn(int) -> bool, from: int) -> Option<int>
    decreases len - from,
{
    if from >= len {
        None
    } else if wanted(from) {
        Some(from)
    } else {
        first_from(len, wanted, from + 1)
    }
}

/// The last place before `n` that satisfies `wanted`.
pub open spec fn last_before(wanted: spec_fn(int) -> bool, n: int) -> Option<int>
    decreases n,
{
    if n <= 0 {
        None
    } else if wanted(n - 1) {
        Some(n - 1)
    } else {
        last_before(wanted, n - 1)
    }
}

/// What `first_from` finds satisfies `wanted`, and no place between does; `None` means that no
/// place from `from` on does.
pub proof fn lemma_first_from(len: int, wanted: spec_fn(int) -> bool, from: int)
    requires
        0 <= from,
    ensures
        match first_from(len, wanted, from) {
            Some(j) => from <= j < len && wanted(j) && forall|k: int|
                from <= k < j ==> !#[trigger] wanted(k),
            None => forall|k: int| from <= k < len ==> !#[trigger] wanted(k),
        },
    decreases len - from,
{
    if from < len && !wanted(from) {
        lemma_first_from(len, wanted, from + 1);
    }
}

/// What `last_before` finds satisfies `wanted`, and no place between does; `None` means that no
/// place before `n` does.
pub proof fn lemma_last_before(wanted: spec_fn(int) -> bool, n: int)
    ensures
        match last_before(wanted, n) {
            Some(j) => 0 <= j < n && wanted(j) && forall|k: int| j < k < n ==> !#[trigger] wanted(k),
            None => forall|k: int| 0 <= k < n ==> !#[trigger] wanted(k),
        },
    decreases n,
{
    if n > 0 && !wanted(n - 1) {
        lemma_last_before(wanted, n - 1);
    }
}

/// The element that follows the cursor: the first that starts after byte `p`.
pub open spec fn next_of(ranges: Seq<ByteRange>, p: usize) -> Option<int> {
    first_from(ranges.len() as int, |i: int| ranges[i].start > p, 0)
}

/// The element that precedes the cursor: the last that starts before byte `p`.
pub open spec fn previous_of(ranges: Seq<ByteRange>, p: usize) -> Option<int> {
    last_before(|i: int| ranges[i].start < p, ranges.len() as int)
}

/// Whether an element holds byte `p`, or is empty and stands at it.
pub open spec fn holds(r: ByteRange, p: usize) -> bool {
    r.start <= p && (p < r.end || (r.start == p && r.end == p))
}

/// The length of an element in bytes; zero where it ends before it starts.
pub open spec fn range_len(r: ByteRange) -> int {
    if r.end >= r.start {
        r.end - r.start
    } else {
        0
    }
}

/// Among the first `n` elements, the shortest that holds byte `p`; of several such, the first.
pub open spec fn smallest_holding_upto(ranges: Seq<ByteRange>, p: usize, n: int) -> Option<int>
    decreases n,
{
    if n <= 0 {
        None
    } else {
        let rest = smallest_holding_upto(ranges, p, n - 1);
        if holds(ranges[n - 1], p) && (match rest {
            Some(b) => range_len(ranges[n - 1]) < range_len(ranges[b]),
            None => true,
        }) {
            Some(n - 1)
        } else {
            rest
        }
    }
}

/// Whether an element ends right before byte `p`.
pub open spec fn touches(r: ByteRange, p: usize) -> bool {
    r.start < p && r.end == p
}

/// Among the first `n` elements, the shortest that ends right before byte `p`; of several
/// such, the first.
pub open spec fn smallest_touching_upto(ranges: Seq<ByteRange>, p: usize, n: int) -> Option<int>
    decreases n,
{
    if n <= 0 {
        None
    } else {
        let rest = smallest_touching_upto(ranges, p, n - 1);
        if touches(ranges[n - 1], p) && (match rest {
            Some(b) => range_len(ranges[n - 1]) < range_len(ranges[b]),
            None => true,
        }) {
            Some(n - 1)
        } else {
            rest
        }
    }
}

/// The element at the cursor: the shortest that holds byte `p`; else the shortest that ends
/// right before it; else the first that starts at or after it; else the last that starts
/// before it.
pub open spec fn current_of(ranges: Seq<ByteRange>, p: usize) -> Option<int> {
    match smallest_holding_upto(ranges, p, ranges.len() as int) {
        Some(i) => Some(i),
        None => match smallest_touching_upto(ranges, p, ranges.len() as int) {
            Some(i) => Some(i),
            None => match first_from(ranges.len() as int, |i: int| ranges[i].start >= p, 0) {
                Some(i) => Some(i),
                None => previous_of(ranges, p),
            },
        },
    }
}

/// Each element starts after the one before it.
pub open spec fn strictly_ascending(ranges: Seq<ByteRange>) -> bool {
    forall|i: int, j: int| 0 <= i < j < ranges.len() ==> ranges[i].start < ranges[j].start
}

/// Whether the elements of a mode are the characters or the lines of the text.
pub open spec fn goes_by_text(mode: SelectionModeView) -> bool {
    mode is Character || mode is LineTrimmed || mode is LineFull
}

/// In the modes that go by the characters or the lines of the text, every element starts after
/// the one before it.
pub proof fn lemma_text_modes_ascend(b: BufferView, mode: SelectionModeView, cursor: ByteRange)
    requires
        byte_len(b.text) <= usize::MAX,
        goes_by_text(mode),
    ensures
        mode_ranges(b, mode, cursor).is_ok(),
        strictly_ascending(mode_ranges(b, mode, cursor).unwrap()),
{
    let text = b.text;
    let ranges = mode_ranges(b, mode, cursor).unwrap();
    assert forall|i: int, j: int| 0 <= i < j < ranges.len() implies ranges[i].start
        < ranges[j].start by {
        if mode is Character {
            lemma_byte_offset_monotonic(text, i, j);
            lemma_byte_offset_monotonic(text, j, text.len() as int);
        } else {
            lemma_line_span(text, i);
            lemma_line_span(text, j);
            lemma_line_start(text, i + 1);
            lemma_line_start(text, j);
            if line_start(text, j) < line_start(text, i + 1) {
                lemma_newlines_monotonic(text, line_start(text, j), line_start(text, i + 1));
            }
            let first = line_span(text, i);
            let second = line_span(text, j);
            lemma_byte_offset_monotonic(text, first.trimmed as int, second.trimmed as int);
            lemma_byte_offset_monotonic(text, first.start as int, second.start as int);
            lemma_byte_offset_monotonic(text, second.trimmed as int, text.len() as int);
        }
    }
}

/// In the modes that go by the characters or the lines of the text, going from an element to
/// the next and from there to the previous one gives the element again, and so the other way
/// round.
pub proof fn lemma_next_and_previous_in_text_modes(
    b: BufferView,
    mode: SelectionModeView,
    cursor: ByteRange,
    k: int,
)
    requires
        byte_len(b.text) <= usize::MAX,
        goes_by_text(mode),
        0 <= k < mode_ranges(b, mode, cursor).unwrap().len(),
    ensures
        ({
            let ranges = mode_ranges(b, mode, cursor).unwrap();
            &&& next_of(ranges, ranges[k].start) matches Some(n) ==> previous_of(
                ranges,
                ranges[n].start,
            ) == Some(k)
            &&& previous_of(ranges, ranges[k].start) matches Some(p) ==> next_of(
                ranges,
                ranges[p].start,
            ) == Some(k)
        }),
{
    lemma_text_modes_ascend(b, mode, cursor);
    let ranges = mode_ranges(b, mode, cursor).unwrap();
    if next_of(ranges, ranges[k].start).is_some() {
        lemma_previous_of_next(ranges, k);
    }
    if previous_of(ranges, ranges[k].start).is_some() {
        lemma_next_of_previous(ranges, k);
    }
}

/// Where every element starts after the one before it, going to the next element and from
/// there to the previous one gives the element again.
pub proof fn lemma_previous_of_next(ranges: Seq<ByteRange>, k: int)
    requires
        strictly_ascending(ranges),
        0 <= k < ranges.len(),
        next_of(ranges, ranges[k].start).is_some(),
    ensures
        previous_of(ranges, ranges[next_of(ranges, ranges[k].start).unwrap()].start) == Some(k),
{
    let after = |i: int| ranges[i].start > ranges[k].start;
    lemma_first_from(ranges.len() as int, after, 0);
    let n = next_of(ranges, ranges[k].start).unwrap();
    let before = |i: int| ranges[i].start < ranges[n].start;
    lemma_last_before(before, ranges.len() as int);
    assert(before(k));
    match last_before(before, ranges.len() as int) {
        Some(q) => {
            if q > k {
                assert(after(q));
                assert(q < n);
            }
        },
        None => {},
    }
}

/// Where every element starts after the one before it, going to the previous element and from
/// there to the next one gives the element again.
pub proof fn lemma_next_of_previous(ranges: Seq<ByteRange>, k: int)
    requires
        strictly_ascending(ranges),
        0 <= k < ranges.len(),
        previous_of(ranges, ranges[k].start).is_some(),
    ensures
        next_of(ranges, ranges[previous_of(ranges, ranges[k].start).unwrap()].start) == Some(k),
{
    let before = |i: int| ranges[i].start < ranges[k].start;
    lemma_last_before(before, ranges.len() as int);
    let q = previous_of(ranges, ranges[k].start).unwrap();
    let after = |i: int| ranges[i].start > ranges[q].start;
    lemma_first_from(ranges.len() as int, after, 0);
    assert(after(k));
    match first_from(ranges.len() as int, after, 0) {
        Some(n) => {
            if n < k {
                assert(before(n));
                assert(n > q);
            }
        },
        None => {},
    }
}

/// The place of the element that follows the cursor at byte `p`.
pub fn next_index(ranges: &Vec<ByteRange>, p: usize) -> (r: Option<usize>)
    ensures
        match r {
            Some(i) => next_of(ranges@, p) == Some(i as int) && i < ranges@.len(),
            None => next_of(ranges@, p).is_none(),
        },
{
    let ghost wanted = |i: int| ranges@[i].start > p;
    let mut i: usize = 0;
    while i < ranges.len()
        invariant
            i <= ranges.len(),
            wanted == (|i: int| ranges@[i].start > p),
            first_from(ranges@.len() as int, wanted, i as int) == first_from(
                ranges@.len() as int,
                wanted,
                0,
            ),
        decreases ranges.len() - i,
    {
        if ranges[i].start > p {
            assert(wanted(i as int));
            return Some(i);
        }
        assert(!wanted(i as int));
        i += 1;
    }
    None
}

/// The place of the element that precedes the cursor at byte `p`.
pub fn previous_index(ranges: &Vec<ByteRange>, p: usize) -> (r: Option<usize>)
    ensures
        match r {
            Some(i) => previous_of(ranges@, p) == Some(i as int) && i < ranges@.len(),
            None => previous_of(ranges@, p).is_none(),
        },
{
    let ghost wanted = |i: int| ranges@[i].start < p;
    let mut i: usize = ranges.len();
    while i > 0
        invariant
            i <= ranges.len(),
            wanted == (|i: int| ranges@[i].start < p),
            last_before(wanted, i as int) == last_before(wanted, ranges@.len() as int),
        decreases i,
    {
        if ranges[i - 1].start < p {
            assert(wanted(i - 1));
            return Some(i - 1);
        }
        assert(!wanted(i - 1));
        i -= 1;
    }
    None
}

/// The place of the element under the cursor at byte `p`.
pub fn current_index(ranges: &Vec<ByteRange>, p: usize) -> (r: Option<usize>)
    ensures
        match r {
            Some(i) => current_of(ranges@, p) == Some(i as int) && i < ranges@.len(),
            None => current_of(ranges@, p).is_none(),
        },
{
    let mut best: Option<usize> = None;
    let mut i: usize = 0;
    while i < ranges.len()
        invariant
            i <= ranges.len(),
            match best {
                Some(b) => smallest_holding_upto(ranges@, p, i as int) == Some(b as int) && b < i,
                None => smallest_holding_upto(ranges@, p, i as int).is_none(),
            },
        decreases ranges.len() - i,
    {
        let r: ByteRange = ranges[i];
        if r.start <= p && (p < r.end || (r.start == p && r.end == p)) {
            let better: bool = match best {
                Some(b) => {
                    let other: ByteRange = ranges[b];
                    let mine: usize = if r.end >= r.start { r.end - r.start } else { 0 };
                    let theirs: usize = if other.end >= other.start {
                        other.end - other.start
                    } else {
                        0
                    };
                    mine < theirs
                },
                None => true,
            };
            if better {
                best = Some(i);
            }
        }
        i += 1;
    }
    if best.is_some() {
        return best;
    }
    let mut near: Option<usize> = None;
    let mut k: usize = 0;
    while k < ranges.len()
        invariant
            k <= ranges.len(),
            match near {
                Some(b) => smallest_touching_upto(ranges@, p, k as int) == Some(b as int) && b < k,
                None => smallest_touching_upto(ranges@, p, k as int).is_none(),
            },
        decreases ranges.len() - k,
    {
        let r: ByteRange = ranges[k];
        if r.start < p && r.end == p {
            let better: bool = match near {
                Some(b) => {
                    let other: ByteRange = ranges[b];
                    let mine: usize = if r.end >= r.start { r.end - r.start } else { 0 };
                    let theirs: usize = if other.end >= other.start {
                        other.end - other.start
                    } else {
                        0
                    };
                    mine < theirs
                },
                None => true,
            };
            if better {
                near = Some(k);
            }
        }
        k += 1;
    }
    if near.is_some() {
        return near;
    }
    let ghost wanted = |i: int| ranges@[i].start >= p;
    let mut j: usize = 0;
    while j < ranges.len()
        invariant
            j <= ranges.len(),
            wanted == (|i: int| ranges@[i].start >= p),
            smallest_holding_upto(ranges@, p, ranges@.len() as int).is_none(),
            smallest_touching_upto(ranges@, p, ranges@.len() as int).is_none(),
            first_from(ranges@.len() as int, wanted, j as int) == first_from(
                ranges@.len() as int,
                wanted,
                0,
            ),
        decreases ranges.len() - j,
    {
        if ranges[j].start >= p {
            assert(wanted(j as int));
            return Some(j);
        }
        assert(!wanted(j as int));
        j += 1;
    }
    previous_index(ranges, p)
}

/// Whether a range is not empty and lies within a text of `len_bytes` bytes.
pub open spec fn is_valid_range(r: ByteRange, len_bytes: usize) -> bool {
    r.start < r.end <= len_bytes
}

/// The ranges of a list that are not empty and lie within a text of `len_bytes` bytes, in the
/// order of the list.
pub open spec fn valid_ranges(ranges: Seq<ByteRange>, len_bytes: usize) -> Seq<ByteRange> {
    ranges.filter(|r: ByteRange| is_valid_range(r, len_bytes))
}

/// Every range that `valid_ranges` keeps is not empty and lies within the text.
pub proof fn lemma_valid_ranges(ranges: Seq<ByteRange>, len_bytes: usize)
    ensures
        forall|i: int|
            0 <= i < valid_ranges(ranges, len_bytes).len() ==> is_valid_range(
                #[trigger] valid_ranges(ranges, len_bytes)[i],
                len_bytes,
            ),
    decreases ranges.len(),
{
    reveal(Seq::filter);
    if ranges.len() > 0 {
        lemma_valid_ranges(ranges.drop_last(), len_bytes);
    }
}

/// Whether no range of a list ends before it starts, or starts before the one before it has
/// ended.
pub open spec fn apart(ranges: Seq<ByteRange>) -> bool {
    &&& forall|i: int| 0 <= i < ranges.len() ==> (#[trigger] ranges[i]).start <= ranges[i].end
    &&& forall|i: int, j: int|
        0 <= i < j < ranges.len() ==> (#[trigger] ranges[i]).end <= (#[trigger] ranges[j]).start
}

/// Of ranges that lie apart, those that `valid_ranges` keeps are among the ranges, and each
/// starts after the one before it.
pub proof fn lemma_valid_ranges_ascend(ranges: Seq<ByteRange>, len_bytes: usize)
    requires
        apart(ranges),
    ensures
        strictly_ascending(valid_ranges(ranges, len_bytes)),
        forall|i: int|
            0 <= i < valid_ranges(ranges, len_bytes).len() ==> ranges.contains(
                #[trigger] valid_ranges(ranges, len_bytes)[i],
            ),
    decreases ranges.len(),
{
    reveal(Seq::filter);
    if ranges.len() > 0 {
        let rest = ranges.drop_last();
        lemma_valid_ranges_ascend(rest, len_bytes);
        lemma_valid_ranges(ranges, len_bytes);
        let kept = valid_ranges(ranges, len_bytes);
        let before = valid_ranges(rest, len_bytes);
        assert forall|i: int| 0 <= i < kept.len() implies ranges.contains(#[trigger] kept[i]) by {
            if i < before.len() {
                assert(kept[i] == before[i]);
                let k = choose|k: int| 0 <= k < rest.len() && rest[k] == before[i];
                assert(ranges[k] == kept[i]);
            } else {
                assert(kept[i] == ranges.last());
                assert(ranges[ranges.len() - 1] == kept[i]);
            }
        }
        assert forall|i: int, j: int| 0 <= i < j < kept.len() implies kept[i].start
            < kept[j].start by {
            if j < before.len() {
                assert(kept[i] == before[i] && kept[j] == before[j]);
            } else {
                assert(kept[j] == ranges.last());
                assert(kept[i] == before[i]);
                let k = choose|k: int| 0 <= k < rest.len() && rest[k] == before[i];
                assert(ranges[k].end <= ranges[ranges.len() - 1].start);
                assert(is_valid_range(kept[i], len_bytes));
            }
        }
    }
}

/// The ranges of a list that are not empty and lie within a text of `len_bytes` bytes.
pub fn keep_valid(ranges: &Vec<ByteRange>, len_bytes: usize) -> (kept: Vec<ByteRange>)
    ensures
        kept@ == valid_ranges(ranges@, len_bytes),
{
    let ghost wanted = |r: ByteRange| is_valid_range(r, len_bytes);
    let mut kept: Vec<ByteRange> = Vec::new();
    let mut i: usize = 0;
    proof {
        reveal(Seq::filter);
        assert(ranges@.take(0) =~= Seq::<ByteRange>::empty());
    }
    while i < ranges.len()
        invariant
            i <= ranges.len(),
            wanted == (|r: ByteRange| is_valid_range(r, len_bytes)),
            kept@ == ranges@.take(i as int).filter(wanted),
        decreases ranges.len() - i,
    {
        let r: ByteRange = ranges[i];
        proof {
            reveal(Seq::filter);
            assert(ranges@.take(i + 1).drop_last() =~= ranges@.take(i as int));
            assert(ranges@.take(i + 1).last() == r);
        }
        if r.start < r.end && r.end <= len_bytes {
            kept.push(r);
        }
        i += 1;
    }
    assert(ranges@.take(ranges@.len() as int) =~= ranges@);
    kept
}

/// The start and the end of each range.
pub open spec fn range_keys(ranges: Seq<ByteRange>) -> Seq<(usize, usize)> {
    Seq::new(ranges.len(), |i: int| (ranges[i].start, ranges[i].end))
}

/// The ranges in the order of their starts, then of their ends; equal ranges in the order
/// given.
pub open spec fn sorted_ranges(ranges: Seq<ByteRange>) -> Seq<ByteRange> {
    Seq::new(
        ranges.len(),
        |k: int| ranges[order_by_key(range_keys(ranges), ranges.len() as int)[k] as int],
    )
}

/// The ranges in the order of their starts, then of their ends.
pub fn sort_ranges(ranges: &Vec<ByteRange>) -> (sorted: Vec<ByteRange>)
    ensures
        sorted@ == sorted_ranges(ranges@),
{
    let mut keys: Vec<(usize, usize)> = Vec::new();
    let mut i: usize = 0;
    while i < ranges.len()
        invariant
            i <= ranges.len(),
            keys@.len() == i,
            forall|k: int| 0 <= k < i ==> keys@[k] == (ranges@[k].start, ranges@[k].end),
        decreases ranges.len() - i,
    {
        keys.push((ranges[i].start, ranges[i].end));
        i += 1;
    }
    assert(keys@ =~= range_keys(ranges@));
    let order: Vec<usize> = sort_indices(&keys);
    let mut sorted: Vec<ByteRange> = Vec::new();
    let mut k: usize = 0;
    while k < order.len()
        invariant
            k <= order.len(),
            order@.len() == ranges@.len(),
            order@ == order_by_key(range_keys(ranges@), ranges@.len() as int),
            forall|x: int| 0 <= x < order@.len() ==> 0 <= #[trigger] order@[x] < ranges@.len(),
            sorted@.len() == k,
            forall|x: int| 0 <= x < k ==> sorted@[x] == ranges@[order@[x] as int],
        decreases order.len() - k,
    {
        sorted.push(ranges[order[k]]);
        k += 1;
    }
    assert(sorted@ =~= sorted_ranges(ranges@));
    sorted
}

/// The elements of a selection mode over a buffer, in the order of the text. The modes that go
/// by the syntax tree go by characters where the buffer has no tree.
pub open spec fn mode_ranges(b: BufferView, mode: SelectionModeView, cursor: ByteRange) -> Result<
    Seq<ByteRange>,
    EditorError,
> {
    let len = byte_len(b.text) as usize;
    match mode {
        SelectionModeView::Character => Ok(character_ranges(b.text)),
        SelectionModeView::WordShort => match regex_ranges("\\b\\w+"@, b.text, len) {
            Some(r) => Ok(r),
            None => Err(EditorError::FilterRegexInvalid),
        },
        SelectionModeView::Word => Ok(word_ranges(b.text)),
        SelectionModeView::LineTrimmed => Ok(line_trimmed_ranges(b.text)),
        SelectionModeView::LineFull => Ok(line_full_ranges(b.text)),
        SelectionModeView::SyntaxTree => match b.tree {
            Some(nodes) => Ok(
                sibling_ranges(nodes, current_node(nodes, cursor.start, cursor.end), len),
            ),
            None => Ok(character_ranges(b.text)),
        },
        SelectionModeView::TopNode => match b.tree {
            Some(nodes) => Ok(top_node_ranges(nodes, len)),
            None => Ok(character_ranges(b.text)),
        },
        SelectionModeView::BottomNode => match b.tree {
            Some(nodes) => Ok(bottom_node_ranges(nodes, len)),
            None => Ok(character_ranges(b.text)),
        },
        SelectionModeView::Inside(kind) => Ok(inside_ranges(b.text, kind)),
        SelectionModeView::Find { search, config } => match regex_ranges(
            search_pattern(search, config),
            b.text,
            len,
        ) {
            Some(r) => Ok(r),
            None => Err(EditorError::FilterRegexInvalid),
        },
        SelectionModeView::Bookmark => Ok(marked_ranges(b.text, b.bookmarks)),
        SelectionModeView::Diagnostic => Ok(marked_ranges(b.text, b.diagnostic_ranges)),
        SelectionModeView::Custom => Ok(valid_ranges(seq![cursor], len)),
    }
}

/// Whether the elements of a mode are lines, which may be empty.
pub open spec fn is_line_mode(mode: SelectionModeView) -> bool {
    mode is LineTrimmed || mode is LineFull
}

/// Every element of a selection mode lies within the text, and is not empty unless it is a
/// line.
pub proof fn lemma_mode_ranges_within(b: BufferView, mode: SelectionModeView, cursor: ByteRange)
    requires
        byte_len(b.text) <= usize::MAX,
        mode_ranges(b, mode, cursor).is_ok(),
    ensures
        forall|i: int|
            0 <= i < mode_ranges(b, mode, cursor).unwrap().len() ==> {
                let r = #[trigger] mode_ranges(b, mode, cursor).unwrap()[i];
                r.start <= r.end <= byte_len(b.text) && (r.start < r.end || is_line_mode(mode))
            },
{
    let len = byte_len(b.text) as usize;
    let ranges = mode_ranges(b, mode, cursor).unwrap();
    assert forall|i: int| 0 <= i < ranges.len() implies {
        let r = #[trigger] ranges[i];
        r.start <= r.end <= byte_len(b.text) && (r.start < r.end || is_line_mode(mode))
    } by {
        match mode {
            SelectionModeView::Character => {
                lemma_character_ranges(b.text, i);
            },
            SelectionModeView::WordShort => {
                lemma_valid_ranges(match_ranges(regex_matches("\\b\\w+"@, b.text).unwrap()), len);
            },
            SelectionModeView::Word => {
                lemma_word_ranges(b.text, b.text.len() as int);
            },
            SelectionModeView::LineTrimmed => {
                lemma_line_span(b.text, i);
            },
            SelectionModeView::LineFull => {
                lemma_line_span(b.text, i);
            },
            SelectionModeView::SyntaxTree => match b.tree {
                Some(nodes) => {
                    lemma_valid_ranges(
                        ranges_of_nodes(
                            nodes,
                            |j: int|
                                is_named_child_of(
                                    nodes,
                                    nodes[current_node(nodes, cursor.start, cursor.end)].parent,
                                    j,
                                ),
                            nodes.len() as int,
                        ),
                        len,
                    );
                },
                None => {
                    lemma_character_ranges(b.text, i);
                },
            },
            SelectionModeView::TopNode => match b.tree {
                Some(nodes) => {
                    lemma_valid_ranges(
                        ranges_of_nodes(nodes, |j: int| is_top_node(nodes, j), nodes.len() as int),
                        len,
                    );
                },
                None => {
                    lemma_character_ranges(b.text, i);
                },
            },
            SelectionModeView::BottomNode => match b.tree {
                Some(nodes) => {
                    lemma_valid_ranges(
                        ranges_of_nodes(nodes, |j: int| is_leaf(nodes, j), nodes.len() as int),
                        len,
                    );
                },
                None => {
                    lemma_character_ranges(b.text, i);
                },
            },
            SelectionModeView::Inside(kind) => {
                lemma_valid_ranges(
                    sorted_ranges(
                        pairs_upto(
                            b.text,
                            kind.spec_delimiters().0,
                            kind.spec_delimiters().1,
                            b.text.len() as int,
                        ).1,
                    ),
                    len,
                );
            },
            SelectionModeView::Find { search, config } => {
                lemma_valid_ranges(
                    match_ranges(regex_matches(search_pattern(search, config), b.text).unwrap()),
                    len,
                );
            },
            SelectionModeView::Bookmark => {
                lemma_valid_ranges(
                    sorted_ranges(
                        Seq::new(b.bookmarks.len(), |k: int| bytes_of_chars(b.text, b.bookmarks[k])),
                    ),
                    len,
                );
            },
            SelectionModeView::Diagnostic => {
                lemma_valid_ranges(
                    sorted_ranges(
                        Seq::new(
                            b.diagnostic_ranges.len(),
                            |k: int| bytes_of_chars(b.text, b.diagnostic_ranges[k]),
                        ),
                    ),
                    len,
                );
            },
            SelectionModeView::Custom => {
                lemma_valid_ranges(seq![cursor], len);
            },
        }
    }
}

/// The elements of a selection mode over a buffer, for a cursor that covers the bytes of
/// `cursor`. Refused where a search is no regular expression.
pub fn iter(buffer: &Buffer, mode: &SelectionMode, cursor: ByteRange) -> (r: Result<
    Vec<ByteRange>,
    EditorError,
>)
    requires
        buffer.wf(),
    ensures
        match mode_ranges(buffer@, mode@, cursor) {
            Ok(ranges) => r.is_ok() && r.unwrap()@ == ranges,
            Err(e) => r == Err::<Vec<ByteRange>, EditorError>(e),
        },
        r.is_ok() ==> forall|i: int|
            0 <= i < r.unwrap()@.len() ==> {
                let e = #[trigger] r.unwrap()@[i];
                e.start <= e.end <= byte_len(buffer@.text) && (e.start < e.end || is_line_mode(mode@))
            },
        r.is_ok() && (goes_by_text(mode@) || mode@ is WordShort || mode@ is Find)
            ==> strictly_ascending(r.unwrap()@),
{
    proof {
        buffer.lemma_wf();
        if mode_ranges(buffer@, mode@, cursor).is_ok() {
            lemma_mode_ranges_within(buffer@, mode@, cursor);
        }
        if goes_by_text(mode@) {
            lemma_text_modes_ascend(buffer@, mode@, cursor);
        }
    }
    let len: usize = buffer.len_bytes();
    match mode {
        SelectionMode::Character => Ok(Character.iter(&buffer.chars())),
        SelectionMode::WordShort => find_ranges("\\b\\w+", buffer.content().as_str(), len),
        SelectionMode::Word => Ok(Word.iter(&buffer.chars())),
        SelectionMode::LineTrimmed => Ok(LineTrimmed.iter(&buffer.chars())),
        SelectionMode::LineFull => Ok(LineFull.iter(&buffer.chars())),
        SelectionMode::SyntaxTree => match buffer.tree() {
            Some(tree) => {
                proof {
                    tree.lemma_wf();
                }
                let node: usize = get_current_node(tree, cursor.start, cursor.end);
                Ok(siblings(tree, node, len))
            },
            None => Ok(Character.iter(&buffer.chars())),
        },
        SelectionMode::TopNode => match buffer.tree() {
            Some(tree) => Ok(top_nodes(tree, len)),
            None => Ok(Character.iter(&buffer.chars())),
        },
        SelectionMode::BottomNode => match buffer.tree() {
            Some(tree) => Ok(bottom_nodes(tree, len)),
            None => Ok(Character.iter(&buffer.chars())),
        },
        SelectionMode::Inside(kind) => Ok((Inside { kind: *kind }).iter(&buffer.chars())),
        SelectionMode::Find { search } => {
            let pattern: String = get_regex(search.search.as_str(), search.config);
            find_ranges(pattern.as_str(), buffer.content().as_str(), len)
        },
        SelectionMode::Bookmark => Ok(marked(&buffer.chars(), buffer.bookmarks())),
        SelectionMode::Diagnostic => Ok(marked(&buffer.chars(), buffer.diagnostic_ranges())),
        SelectionMode::Custom => {
            let mut one: Vec<ByteRange> = Vec::new();
            one.push(cursor);
            assert(one@ =~= seq![cursor]);
            Ok(keep_valid(&one, len))
        },
    }
}

/// The element that a movement picks among the elements of a mode, seen from a cursor that
/// starts at `cursor.start`: the next, the previous, the first, the last, the one under the
/// cursor, or the one at a place. Up and down go to the element before and after.
pub open spec fn picked(ranges: Seq<ByteRange>, cursor: ByteRange, movement: Movement) -> Option<
    ByteRange,
> {
    match movement {
        Movement::Next | Movement::Down => match next_of(ranges, cursor.start) {
            Some(i) => Some(ranges[i]),
            None => None,
        },
        Movement::Previous | Movement::Up => match previous_of(ranges, cursor.start) {
            Some(i) => Some(ranges[i]),
            None => None,
        },
        Movement::First => if ranges.len() > 0 {
            Some(ranges[0])
        } else {
            None
        },
        Movement::Last => if ranges.len() > 0 {
            Some(ranges[ranges.len() - 1])
        } else {
            None
        },
        Movement::Current => match current_of(ranges, cursor.start) {
            Some(i) => Some(ranges[i]),
            None => None,
        },
        Movement::Index(k) => if k < ranges.len() {
            Some(ranges[k as int])
        } else {
            None
        },
        _ => None,
    }
}

/// Whether a movement goes up or down a structure rather than along the elements of a mode.
pub open spec fn is_vertical(movement: Movement) -> bool {
    movement is Parent || movement is FirstChild || movement is ToParentLine
}

/// Where a movement to the parent or to the first child leads in the syntax tree: the nearest
/// ancestor, or the first named node down the first children, that does not cover the same
/// bytes as the node of the cursor.
pub open spec fn vertical_in_tree(b: BufferView, cursor: ByteRange, movement: Movement) -> Option<
    ByteRange,
> {
    match b.tree {
        Some(nodes) => {
            let i = current_node(nodes, cursor.start, cursor.end);
            let target = match movement {
                Movement::Parent => outer_ancestor(nodes, i, i),
                Movement::FirstChild => inner_child(nodes, i, i),
                _ => None,
            };
            match target {
                Some(j) => Some(node_range(nodes[j])),
                None => None,
            }
        },
        None => None,
    }
}

/// The element between delimiters at the cursor, with its delimiters.
pub open spec fn inside_parent(b: BufferView, kind: InsideKind, cursor: ByteRange) -> Option<ByteRange> {
    match current_of(inside_ranges(b.text, kind), cursor.start) {
        Some(i) => match with_delimiters(inside_ranges(b.text, kind)[i]) {
            Some(r) => if r.end <= byte_len(b.text) {
                Some(r)
            } else {
                None
            },
            None => None,
        },
        None => None,
    }
}

/// The whole line at the cursor.
pub open spec fn whole_line(b: BufferView, cursor: ByteRange) -> Option<ByteRange> {
    match current_of(line_full_ranges(b.text), cursor.start) {
        Some(i) => Some(line_full_ranges(b.text)[i]),
        None => None,
    }
}

/// Where a movement to the parent or to the first child leads. In the modes that go by the
/// syntax tree, as `vertical_in_tree` says. Between delimiters, the parent is the element with
/// its delimiters; in a trimmed line it is the whole line.
pub open spec fn vertical(b: BufferView, mode: SelectionModeView, cursor: ByteRange, movement: Movement) -> Option<
    ByteRange,
> {
    if mode.is_node() {
        vertical_in_tree(b, cursor, movement)
    } else {
        match (mode, movement) {
            (SelectionModeView::Inside(kind), Movement::Parent) => inside_parent(b, kind, cursor),
            (SelectionModeView::LineTrimmed, Movement::Parent) => whole_line(b, cursor),
            _ => None,
        }
    }
}

/// The selection after a movement. A jump puts the selection on the range given. Any other
/// movement starts from the bytes of the selected range, picks an element of the mode among
/// those that pass the filters, and
/// puts the selection on the characters of that element; the selection stays where no element
/// is picked. Refused where the selected range does not lie within the text, or a search is no
/// regular expression.
pub open spec fn moved_selection(
    b: BufferView,
    selection: SelectionView,
    mode: SelectionModeView,
    movement: Movement,
    filters: Seq<FilterView>,
) -> Result<SelectionView, EditorError> {
    match movement {
        Movement::Jump(range) => Ok(SelectionView { range, ..selection }),
        _ => if selection.range.start.0 > b.text.len() || selection.range.end.0 > b.text.len() {
            Err(EditorError::OutOfBounds)
        } else {
            let cursor = bytes_of_char_range(b.text, selection.range);
            let target = if is_vertical(movement) {
                Ok(vertical(b, mode, cursor, movement))
            } else {
                match candidates(b, mode, cursor, filters) {
                    Ok(ranges) => Ok(picked(ranges, cursor, movement)),
                    Err(e) => Err(e),
                }
            };
            match target {
                Err(e) => Err(e),
                Ok(None) => Ok(selection),
                Ok(Some(r)) => Ok(SelectionView { range: chars_of_bytes(b.text, r), ..selection }),
            }
        },
    }
}

/// The element that a movement picks among `ranges`.
pub fn pick(ranges: &Vec<ByteRange>, cursor: ByteRange, movement: &Movement) -> (r: Option<ByteRange>)
    ensures
        r == picked(ranges@, cursor, *movement),
{
    match movement {
        Movement::Next | Movement::Down => match next_index(ranges, cursor.start) {
            Some(i) => Some(ranges[i]),
            None => None,
        },
        Movement::Previous | Movement::Up => match previous_index(ranges, cursor.start) {
            Some(i) => Some(ranges[i]),
            None => None,
        },
        Movement::First => if ranges.len() > 0 {
            Some(ranges[0])
        } else {
            None
        },
        Movement::Last => if ranges.len() > 0 {
            Some(ranges[ranges.len() - 1])
        } else {
            None
        },
        Movement::Current => match current_index(ranges, cursor.start) {
            Some(i) => Some(ranges[i]),
            None => None,
        },
        Movement::Index(k) => if *k < ranges.len() {
            Some(ranges[*k])
        } else {
            None
        },
        _ => None,
    }
}

/// Where a movement to the parent or to the first child leads in the syntax tree.
fn tree_target(buffer: &Buffer, cursor: ByteRange, movement: &Movement) -> (r: Option<ByteRange>)
    requires
        buffer.wf(),
    ensures
        r == vertical_in_tree(buffer@, cursor, *movement),
        r matches Some(e) ==> e.start <= byte_len(buffer@.text) && e.end <= byte_len(buffer@.text),
{
    match buffer.tree() {
        Some(tree) => {
            proof {
                tree.lemma_nonempty();
            }
            let i: usize = get_current_node(tree, cursor.start, cursor.end);
            let target: Option<usize> = match movement {
                Movement::Parent => tree.outer_ancestor(i),
                Movement::FirstChild => tree.inner_child(i),
                _ => None,
            };
            match target {
                Some(j) => Some(tree.range_of(j)),
                None => None,
            }
        },
        None => None,
    }
}

/// The element between delimiters at the cursor, with its delimiters.
fn inside_target(buffer: &Buffer, kind: InsideKind, cursor: ByteRange) -> (r: Option<ByteRange>)
    requires
        buffer.wf(),
    ensures
        r == inside_parent(buffer@, kind, cursor),
        r matches Some(e) ==> e.start <= byte_len(buffer@.text) && e.end <= byte_len(buffer@.text),
{
    proof {
        buffer.lemma_wf();
    }
    let len: usize = buffer.len_bytes();
    let inside: Inside = Inside { kind };
    let ranges: Vec<ByteRange> = inside.iter(&buffer.chars());
    match current_index(&ranges, cursor.start) {
        Some(i) => match inside.parent(ranges[i]) {
            Some(r) => if r.end <= len {
                Some(r)
            } else {
                None
            },
            None => None,
        },
        None => None,
    }
}

/// The whole line of the cursor.
fn line_target(buffer: &Buffer, cursor: ByteRange) -> (r: Option<ByteRange>)
    requires
        buffer.wf(),
    ensures
        r == whole_line(buffer@, cursor),
        r matches Some(e) ==> e.start <= byte_len(buffer@.text) && e.end <= byte_len(buffer@.text),
{
    proof {
        buffer.lemma_wf();
        lemma_mode_ranges_within(buffer@, SelectionModeView::LineFull, cursor);
    }
    let ranges: Vec<ByteRange> = LineFull.iter(&buffer.chars());
    match current_index(&ranges, cursor.start) {
        Some(i) => {
            assert(ranges@[i as int] == mode_ranges(
                buffer@,
                SelectionModeView::LineFull,
                cursor,
            ).unwrap()[i as int]);
            Some(ranges[i])
        },
        None => None,
    }
}

/// Where a movement to the parent or to the first child leads.
pub fn vertical_target(
    buffer: &Buffer,
    mode: &SelectionMode,
    cursor: ByteRange,
    movement: &Movement,
) -> (r: Option<ByteRange>)
    requires
        buffer.wf(),
    ensures
        r == vertical(buffer@, mode@, cursor, *movement),
        r matches Some(e) ==> e.start <= byte_len(buffer@.text) && e.end <= byte_len(buffer@.text),
{
    if mode.is_node() {
        tree_target(buffer, cursor, movement)
    } else {
        match (mode, movement) {
            (SelectionMode::Inside(kind), Movement::Parent) => inside_target(buffer, *kind, cursor),
            (SelectionMode::LineTrimmed, Movement::Parent) => line_target(buffer, cursor),
            _ => None,
        }
    }
}

/// The selection after a movement in a mode.
pub fn get_selection(
    buffer: &Buffer,
    selection: &Selection,
    mode: &SelectionMode,
    movement: &Movement,
    filters: &Filters,
) -> (r: Result<Selection, EditorError>)
    requires
        buffer.wf(),
    ensures
        match moved_selection(buffer@, selection@, mode@, *movement, filters@) {
            Ok(s) => r.is_ok() && r.unwrap()@ == s,
            Err(e) => r.is_err() && r.unwrap_err() == e,
        },
{
    if let Movement::Jump(range) = movement {
        return Ok(selection.duplicate().set_range(*range));
    }
    let cursor: ByteRange = match buffer.char_index_range_to_byte_range(selection.range) {
        Ok(c) => c,
        Err(e) => {
            return Err(e);
        },
    };
    let vertical: bool = match movement {
        Movement::Parent | Movement::FirstChild | Movement::ToParentLine => true,
        _ => false,
    };
    let target: Option<ByteRange> = if vertical {
        vertical_target(buffer, mode, cursor, movement)
    } else {
        match get_candidates(buffer, mode, cursor, filters) {
            Ok(ranges) => {
                let r: Option<ByteRange> = pick(&ranges, cursor, movement);
                proof {
                    if r.is_some() {
                        lemma_picked_is_element(ranges@, cursor, *movement);
                    }
                }
                r
            },
            Err(e) => {
                return Err(e);
            },
        }
    };
    match target {
        None => Ok(selection.duplicate()),
        Some(r) => match buffer.byte_range_to_char_index_range(r) {
            Ok(range) => Ok(selection.duplicate().set_range(range)),
            Err(e) => Err(e),
        },
    }
}

/// What a movement picks is one of the elements.
pub proof fn lemma_picked_is_element(ranges: Seq<ByteRange>, cursor: ByteRange, movement: Movement)
    requires
        picked(ranges, cursor, movement).is_some(),
    ensures
        exists|i: int| 0 <= i < ranges.len() && ranges[i] == picked(ranges, cursor, movement).unwrap(),
{
    match movement {
        Movement::Next | Movement::Down => {
            lemma_first_from(ranges.len() as int, |i: int| ranges[i].start > cursor.start, 0);
            let i = next_of(ranges, cursor.start).unwrap();
            assert(ranges[i] == picked(ranges, cursor, movement).unwrap());
        },
        Movement::Previous | Movement::Up => {
            lemma_last_before(|i: int| ranges[i].start < cursor.start, ranges.len() as int);
            let i = previous_of(ranges, cursor.start).unwrap();
            assert(ranges[i] == picked(ranges, cursor, movement).unwrap());
        },
        Movement::First => {
            assert(ranges[0] == picked(ranges, cursor, movement).unwrap());
        },
        Movement::Last => {
            assert(ranges[ranges.len() - 1] == picked(ranges, cursor, movement).unwrap());
        },
        Movement::Current => {
            lemma_smallest_holding(ranges, cursor.start, ranges.len() as int);
            lemma_smallest_touching(ranges, cursor.start, ranges.len() as int);
            lemma_last_before(|i: int| ranges[i].start < cursor.start, ranges.len() as int);
            lemma_first_from(ranges.len() as int, |i: int| ranges[i].start >= cursor.start, 0);
            let i = current_of(ranges, cursor.start).unwrap();
            assert(ranges[i] == picked(ranges, cursor, movement).unwrap());
        },
        Movement::Index(k) => {
            assert(ranges[k as int] == picked(ranges, cursor, movement).unwrap());
        },
        _ => {},
    }
}

/// What `smallest_touching_upto` finds ends right before the byte, and no element before `n`
/// that does so is shorter.
pub proof fn lemma_smallest_touching(ranges: Seq<ByteRange>, p: usize, n: int)
    requires
        0 <= n <= ranges.len(),
    ensures
        match smallest_touching_upto(ranges, p, n) {
            Some(b) => 0 <= b < n && touches(ranges[b], p) && forall|k: int|
                0 <= k < n && touches(#[trigger] ranges[k], p) ==> range_len(ranges[b]) <= range_len(
                    ranges[k],
                ),
            None => forall|k: int| 0 <= k < n ==> !touches(#[trigger] ranges[k], p),
        },
    decreases n,
{
    if n > 0 {
        lemma_smallest_touching(ranges, p, n - 1);
    }
}

/// What `smallest_holding_upto` finds holds the byte, and no element before `n` that holds it
/// is shorter.
pub proof fn lemma_smallest_holding(ranges: Seq<ByteRange>, p: usize, n: int)
    requires
        0 <= n <= ranges.len(),
    ensures
        match smallest_holding_upto(ranges, p, n) {
            Some(b) => 0 <= b < n && holds(ranges[b], p) && forall|k: int|
                0 <= k < n && holds(#[trigger] ranges[k], p) ==> range_len(ranges[b]) <= range_len(
                    ranges[k],
                ),
            None => forall|k: int| 0 <= k < n ==> !holds(#[trigger] ranges[k], p),
        },
    decreases n,
{
    if n > 0 {
        lemma_smallest_holding(ranges, p, n - 1);
    }
}

/// The text that a filter looks at for a candidate: the text of the candidate, or that of the
/// node of the syntax tree that stands for it, where the buffer has a tree.
pub open spec fn filter_text(b: BufferView, r: ByteRange, target: FilterTarget) -> Seq<char> {
    match (target, b.tree) {
        (FilterTarget::AstGrep, Some(nodes)) => range_text(
            b.text,
            node_range(nodes[current_node(nodes, r.start, r.end)]),
        ),
        _ => range_text(b.text, r),
    }
}

/// Whether the pattern of a filter is found in a text; `None` where the pattern is meant as a
/// regular expression and is none.
pub open spec fn filter_matches(f: FilterView, content: Seq<char>) -> Option<bool> {
    if f.is_regex {
        match regex_matches(f.pattern, content) {
            Some(m) => Some(m.len() > 0),
            None => None,
        }
    } else {
        Some(contains_text(content, f.pattern))
    }
}

/// Whether a candidate passes the first `n` filters: every filter that keeps finds its
/// pattern, and every filter that removes does not. `None` where a pattern is no regular
/// expression.
pub open spec fn passes_upto(b: BufferView, r: ByteRange, filters: Seq<FilterView>, n: int) -> Option<
    bool,
>
    decreases n,
{
    if n <= 0 {
        Some(true)
    } else {
        match (
            passes_upto(b, r, filters, n - 1),
            filter_matches(filters[n - 1], filter_text(b, r, filters[n - 1].target)),
        ) {
            (Some(before), Some(found)) => Some(before && (found == (filters[n - 1].kind is Keep))),
            _ => None,
        }
    }
}

/// Those of the first `n` candidates that pass all filters, in order; refused where a pattern
/// is no regular expression.
pub open spec fn filtered_upto(
    b: BufferView,
    ranges: Seq<ByteRange>,
    filters: Seq<FilterView>,
    n: int,
) -> Result<Seq<ByteRange>, EditorError>
    decreases n,
{
    if n <= 0 {
        Ok(Seq::empty())
    } else {
        match filtered_upto(b, ranges, filters, n - 1) {
            Err(e) => Err(e),
            Ok(kept) => match passes_upto(b, ranges[n - 1], filters, filters.len() as int) {
                None => Err(EditorError::FilterRegexInvalid),
                Some(true) => Ok(kept.push(ranges[n - 1])),
                Some(false) => Ok(kept),
            },
        }
    }
}

/// The elements of a selection mode that pass the filters, in the order of the text.
pub open spec fn candidates(
    b: BufferView,
    mode: SelectionModeView,
    cursor: ByteRange,
    filters: Seq<FilterView>,
) -> Result<Seq<ByteRange>, EditorError> {
    match mode_ranges(b, mode, cursor) {
        Ok(ranges) => filtered_upto(b, ranges, filters, ranges.len() as int),
        Err(e) => Err(e),
    }
}

/// Every candidate that passes the filters is one of the candidates.
pub proof fn lemma_filtered_elements(
    b: BufferView,
    ranges: Seq<ByteRange>,
    filters: Seq<FilterView>,
    n: int,
)
    requires
        0 <= n <= ranges.len(),
        filtered_upto(b, ranges, filters, n).is_ok(),
    ensures
        forall|i: int|
            0 <= i < filtered_upto(b, ranges, filters, n).unwrap().len() ==> exists|k: int|
                0 <= k < n && ranges[k] == #[trigger] filtered_upto(b, ranges, filters, n).unwrap()[i],
    decreases n,
{
    if n > 0 {
        lemma_filtered_elements(b, ranges, filters, n - 1);
        let before = filtered_upto(b, ranges, filters, n - 1).unwrap();
        let all = filtered_upto(b, ranges, filters, n).unwrap();
        assert forall|i: int| 0 <= i < all.len() implies exists|k: int|
            0 <= k < n && ranges[k] == #[trigger] all[i] by {
            if i < before.len() {
                assert(all[i] == before[i]);
                let k = choose|k: int| 0 <= k < n - 1 && ranges[k] == before[i];
                assert(ranges[k] == all[i]);
            } else {
                assert(ranges[n - 1] == all[i]);
            }
        }
    }
}

/// Every element of a selection mode that passes the filters lies within the text, and is not
/// empty unless it is a line.
pub proof fn lemma_candidates_within(
    b: BufferView,
    mode: SelectionModeView,
    cursor: ByteRange,
    filters: Seq<FilterView>,
)
    requires
        byte_len(b.text) <= usize::MAX,
        candidates(b, mode, cursor, filters).is_ok(),
    ensures
        forall|i: int|
            0 <= i < candidates(b, mode, cursor, filters).unwrap().len() ==> {
                let r = #[trigger] candidates(b, mode, cursor, filters).unwrap()[i];
                r.start <= r.end <= byte_len(b.text) && (r.start < r.end || is_line_mode(mode))
            },
{
    let ranges = mode_ranges(b, mode, cursor).unwrap();
    lemma_mode_ranges_within(b, mode, cursor);
    lemma_filtered_elements(b, ranges, filters, ranges.len() as int);
    let kept = candidates(b, mode, cursor, filters).unwrap();
    assert forall|i: int| 0 <= i < kept.len() implies {
        let r = #[trigger] kept[i];
        r.start <= r.end <= byte_len(b.text) && (r.start < r.end || is_line_mode(mode))
    } by {
        let k = choose|k: int| 0 <= k < ranges.len() && ranges[k] == kept[i];
        assert(ranges[k] == kept[i]);
    }
}

/// Once a filter is refused, the refusal stays as more candidates follow.
proof fn lemma_filtered_err(b: BufferView, ranges: Seq<ByteRange>, filters: Seq<FilterView>, i: int, j: int)
    requires
        0 <= i <= j,
        filtered_upto(b, ranges, filters, i).is_err(),
    ensures
        filtered_upto(b, ranges, filters, j) == filtered_upto(b, ranges, filters, i),
    decreases j - i,
{
    if i < j {
        lemma_filtered_err(b, ranges, filters, i, j - 1);
    }
}

/// Once a filter is refused, the refusal stays as more filters follow.
proof fn lemma_passes_none(b: BufferView, r: ByteRange, filters: Seq<FilterView>, i: int, j: int)
    requires
        0 <= i <= j,
        passes_upto(b, r, filters, i).is_none(),
    ensures
        passes_upto(b, r, filters, j).is_none(),
    decreases j - i,
{
    if i < j {
        lemma_passes_none(b, r, filters, i, j - 1);
    }
}

/// Whether a candidate passes all filters; `None` where a pattern is no regular expression.
pub fn passes(buffer: &Buffer, range: ByteRange, filters: &Filters) -> (r: Option<bool>)
    requires
        buffer.wf(),
    ensures
        r == passes_upto(buffer@, range, filters@, filters@.len() as int),
{
    let mut all: bool = true;
    let mut i: usize = 0;
    while i < filters.filters.len()
        invariant
            i <= filters.filters.len(),
            buffer.wf(),
            passes_upto(buffer@, range, filters@, i as int) == Some(all),
        decreases filters.filters.len() - i,
    {
        let filter: &Filter = &filters.filters[i];
        assert(filters@[i as int] == filter@);
        let of_node: bool = match filter.target {
            FilterTarget::AstGrep => true,
            FilterTarget::Content => false,
        };
        let content: String = match (of_node, buffer.tree()) {
            (true, Some(tree)) => {
                proof {
                    tree.lemma_wf();
                }
                let node: SyntaxNode = tree.node(get_current_node(tree, range.start, range.end));
                buffer.byte_range_text(ByteRange { start: node.start_byte, end: node.end_byte })
            },
            _ => buffer.byte_range_text(range),
        };
        let found: Option<bool> = match &filter.mechanism {
            FilterMechanism::Literal(pattern) => Some(
                text_contains(content.as_str(), pattern.as_str()),
            ),
            FilterMechanism::Regex(pattern) => match crate::regex_search::find_all(
                pattern.as_str(),
                content.as_str(),
            ) {
                Some(m) => Some(m.len() > 0),
                None => None,
            },
        };
        match found {
            Some(f) => {
                let keep: bool = match filter.kind {
                    FilterKind::Keep => true,
                    FilterKind::Remove => false,
                };
                all = all && (f == keep);
            },
            None => {
                proof {
                    assert(passes_upto(buffer@, range, filters@, i + 1).is_none());
                    lemma_passes_none(buffer@, range, filters@, i + 1, filters@.len() as int);
                }
                return None;
            },
        }
        i += 1;
    }
    Some(all)
}

/// The elements of a selection mode over a buffer that pass the filters. Refused where a
/// search or the pattern of a filter is no regular expression.
pub fn get_candidates(buffer: &Buffer, mode: &SelectionMode, cursor: ByteRange, filters: &Filters) -> (r:
    Result<Vec<ByteRange>, EditorError>)
    requires
        buffer.wf(),
    ensures
        match candidates(buffer@, mode@, cursor, filters@) {
            Ok(ranges) => r.is_ok() && r.unwrap()@ == ranges,
            Err(e) => r == Err::<Vec<ByteRange>, EditorError>(e),
        },
        r.is_ok() ==> forall|i: int|
            0 <= i < r.unwrap()@.len() ==> {
                let e = #[trigger] r.unwrap()@[i];
                e.start <= e.end <= byte_len(buffer@.text) && (e.start < e.end || is_line_mode(mode@))
            },
{
    proof {
        buffer.lemma_wf();
        if candidates(buffer@, mode@, cursor, filters@).is_ok() {
            lemma_candidates_within(buffer@, mode@, cursor, filters@);
        }
    }
    let ranges: Vec<ByteRange> = match iter(buffer, mode, cursor) {
        Ok(r) => r,
        Err(e) => {
            return Err(e);
        },
    };
    if filters.is_empty() {
        proof {
            lemma_unfiltered(buffer@, ranges@, filters@, ranges@.len() as int);
        }
        return Ok(ranges);
    }
    let mut kept: Vec<ByteRange> = Vec::new();
    let mut i: usize = 0;
    while i < ranges.len()
        invariant
            i <= ranges.len(),
            buffer.wf(),
            mode_ranges(buffer@, mode@, cursor) == Ok::<Seq<ByteRange>, EditorError>(ranges@),
            filtered_upto(buffer@, ranges@, filters@, i as int) == Ok::<Seq<ByteRange>, EditorError>(
                kept@,
            ),
        decreases ranges.len() - i,
    {
        match passes(buffer, ranges[i], filters) {
            Some(true) => {
                kept.push(ranges[i]);
            },
            Some(false) => {},
            None => {
                proof {
                    assert(filtered_upto(buffer@, ranges@, filters@, i + 1).is_err());
                    lemma_filtered_err(buffer@, ranges@, filters@, i + 1, ranges@.len() as int);
                }
                return Err(EditorError::FilterRegexInvalid);
            },
        }
        i += 1;
    }
    Ok(kept)
}

/// Without filters every candidate passes.
pub proof fn lemma_unfiltered(b: BufferView, ranges: Seq<ByteRange>, filters: Seq<FilterView>, n: int)
    requires
        filters.len() == 0,
        0 <= n <= ranges.len(),
    ensures
        filtered_upto(b, ranges, filters, n) == Ok::<Seq<ByteRange>, EditorError>(ranges.take(n)),
    decreases n,
{
    if n > 0 {
        lemma_unfiltered(b, ranges, filters, n - 1);
        assert(ranges.take(n) =~= ranges.take(n - 1).push(ranges[n - 1]));
    } else {
        assert(ranges.take(0) =~= Seq::<ByteRange>::empty());
    }
    if n == ranges.len() {
        assert(ranges.take(n) =~= ranges);
    }
}

/// Without filters every element of a mode is a candidate.
pub proof fn lemma_no_filters(b: BufferView, ranges: Seq<ByteRange>, n: int)
    requires
        0 <= n <= ranges.len(),
    ensures
        filtered_upto(b, ranges, Seq::empty(), n) == Ok::<Seq<ByteRange>, EditorError>(
            ranges.take(n),
        ),
    decreases n,
{
    if n > 0 {
        lemma_no_filters(b, ranges, n - 1);
        assert(ranges.take(n - 1).push(ranges[n - 1]) =~= ranges.take(n));
    } else {
        assert(ranges.take(0) =~= Seq::<ByteRange>::empty());
    }
}

/// In the modes that go by the characters or the lines of the text, an element starts and ends
/// where characters do: the bytes of the characters that it covers are the element again.
pub proof fn lemma_text_element_round_trip(
    b: BufferView,
    mode: SelectionModeView,
    cursor: ByteRange,
    k: int,
)
    requires
        byte_len(b.text) <= usize::MAX,
        goes_by_text(mode),
        0 <= k < mode_ranges(b, mode, cursor).unwrap().len(),
    ensures
        ({
            let e = mode_ranges(b, mode, cursor).unwrap()[k];
            let chars = chars_of_bytes(b.text, e);
            &&& chars.start.0 <= chars.end.0 <= b.text.len()
            &&& bytes_of_char_range(b.text, chars) == e
        }),
{
    let text = b.text;
    lemma_byte_offset_monotonic(text, 0, text.len() as int);
    if mode is Character {
        crate::buffer::lemma_byte_char_round_trip(text, k);
        crate::buffer::lemma_byte_char_round_trip(text, k + 1);
        lemma_byte_offset_monotonic(text, k + 1, text.len() as int);
    } else {
        lemma_line_span(text, k);
        let span = line_span(text, k);
        crate::buffer::lemma_byte_char_round_trip(text, span.start as int);
        crate::buffer::lemma_byte_char_round_trip(text, span.trimmed as int);
        crate::buffer::lemma_byte_char_round_trip(text, span.end as int);
        if span.newline {
            crate::buffer::lemma_byte_char_round_trip(text, span.end + 1);
        }
    }
}

/// In the modes that go by the characters or the lines of the text, without filters, going
/// from a selection that stands on an element to the next element and from there to the
/// previous one gives the selection again.
pub proof fn lemma_previous_undoes_next(
    b: BufferView,
    selection: SelectionView,
    mode: SelectionModeView,
    k: int,
    next: SelectionView,
)
    requires
        byte_len(b.text) <= usize::MAX,
        goes_by_text(mode),
        0 <= k < mode_ranges(b, mode, ByteRange { start: 0, end: 0 }).unwrap().len(),
        selection.range == chars_of_bytes(
            b.text,
            mode_ranges(b, mode, ByteRange { start: 0, end: 0 }).unwrap()[k],
        ),
        moved_selection(b, selection, mode, Movement::Next, Seq::empty()) == Ok::<
            SelectionView,
            EditorError,
        >(next),
        next != selection,
    ensures
        moved_selection(b, next, mode, Movement::Previous, Seq::empty()) == Ok::<
            SelectionView,
            EditorError,
        >(selection),
{
    let origin = ByteRange { start: 0, end: 0 };
    let ranges = mode_ranges(b, mode, origin).unwrap();
    lemma_text_modes_ascend(b, mode, origin);
    lemma_text_element_round_trip(b, mode, origin, k);
    let cursor = bytes_of_char_range(b.text, selection.range);
    assert(cursor == ranges[k]);
    assert(mode_ranges(b, mode, cursor) == mode_ranges(b, mode, origin));
    lemma_no_filters(b, ranges, ranges.len() as int);
    assert(ranges.take(ranges.len() as int) =~= ranges);
    assert(candidates(b, mode, cursor, Seq::empty()) == Ok::<Seq<ByteRange>, EditorError>(ranges));
    match next_of(ranges, cursor.start) {
        Some(n) => {
            lemma_first_from(ranges.len() as int, |i: int| ranges[i].start > cursor.start, 0);
            lemma_previous_of_next(ranges, k);
            lemma_text_element_round_trip(b, mode, origin, n);
            let there = bytes_of_char_range(b.text, next.range);
            assert(there == ranges[n]);
            assert(mode_ranges(b, mode, there) == mode_ranges(b, mode, origin));
            assert(candidates(b, mode, there, Seq::empty()) == Ok::<Seq<ByteRange>, EditorError>(
                ranges,
            ));
        },
        None => {},
    }
}

} // verus!
