use vstd::prelude::*;
use crate::char_index::{ByteRange, CharIndex, CharIndexRange, Position};
use crate::diagnostic::{Diagnostic, DiagnosticView, PositionRange, diagnostics_view};
use crate::edit::{
    Action, ActionView, Edit, EditTransaction, EditView, actions_view, selections_of,
    selections_upto,
};
use crate::error::EditorError;
use crate::history::{apply_patch, create_patch, is_diff, patched, unified_diff};
use crate::overlay::{
    followed, lemma_untouched_range_shifts, map_range_through, map_range_through_exec, map_ranges,
    map_ranges_exec, replaced, replacement_of, shift_before, untouched,
};
use crate::regex_search::{lowercase, to_lowercase};
use crate::selection_mode::regex::{find_ranges, regex_ranges};
use crate::selection_mode::{first_from, previous_index, previous_of};
use crate::sorting::{order_by_key, sort_indices};
use crate::words::{contains_text, text_contains, texts_view, unique, unique_texts};
use crate::parser::{parse_nodes, parsed};
use crate::syntax::{RawNode, lemma_shape_valid, shape_of};
use crate::text::is_boundary;
use crate::selection::{Selection, SelectionSet, SelectionSetView, SelectionView, views_of};
use crate::selection_mode::node::{current_node, get_current_node, node_range};
use crate::syntax::{
    SyntaxNode, SyntaxTree, first_starting_at, next_token, node_at, nodes_wf, prev_token,
    smallest_cover,
};
use crate::text::{
    byte_len, byte_offset, char_of_byte, is_line_start, lemma_byte_offset_monotonic,
    lemma_char_of_byte, lemma_char_of_byte_unique, lemma_line_of_char, lemma_line_start,
    lemma_line_start_unique, lemma_newlines_monotonic, line_content_len, line_count, line_start,
    newlines_before, rope_byte_to_char, rope_char_to_byte, rope_char_to_line,
    rope_chars, rope_len_chars, rope_clone, rope_from_str, rope_insert, rope_len_bytes,
    rope_len_lines, rope_line_to_char, rope_remove, rope_slice, rope_text, str_chars,
};

verus! {

/// The position of character index `c`: its line, and its distance from that line's start.
pub open spec fn position_of_char(text: Seq<char>, c: int) -> Position {
    Position {
        line: newlines_before(text, c) as usize,
        column: (c - line_start(text, newlines_before(text, c) as int)) as usize,
    }
}

/// The character index of a position, a column beyond the line's end counting as that end.
pub open spec fn char_of_position(text: Seq<char>, p: Position) -> int {
    line_start(text, p.line as int) + if p.column <= line_content_len(text, p.line as int) {
        p.column as int
    } else {
        line_content_len(text, p.line as int)
    }
}

/// What is kept of one change of the text: the selections to go back to, and the diff that
/// leads back.
#[derive(Clone, Debug, PartialEq, Eq)]
pub struct Patch {
    /// The selections to show again once the change is taken back.
    pub selection_set: SelectionSet,
    /// The change backwards, in the unified format.
    pub patch: String,
}

/// What a `Patch` holds, as mathematical values.
pub struct PatchView {
    pub selection_set: SelectionSetView,
    pub patch: Seq<char>,
}

impl Patch {
    /// A copy of the patch.
    pub fn duplicate(&self) -> (p: Patch)
        ensures
            p@ == self@,
    {
        Patch { selection_set: self.selection_set.duplicate(), patch: self.patch.clone() }
    }
}

impl View for Patch {
    type V = PatchView;

    open spec fn view(&self) -> PatchView {
        PatchView { selection_set: self.selection_set@, patch: self.patch@ }
    }
}

/// The views of the patches of a stack.
pub open spec fn patches_view(patches: Seq<Patch>) -> Seq<PatchView> {
    Seq::new(patches.len(), |i: int| patches[i]@)
}

/// A stretch of the text with the colour that the syntax gives it.
#[derive(Clone, Copy, Debug, PartialEq, Eq, Structural)]
pub struct HighlightedSpan {
    pub byte_range: ByteRange,
    pub style_key: u16,
}

/// A stretch of the text that the owner of the buffer wants shown in a style of its choice.
#[derive(Clone, Copy, Debug, PartialEq, Eq, Structural)]
pub struct Decoration {
    pub range: CharIndexRange,
    pub style_key: u16,
}

/// A text with what is laid over it and its history of changes.
pub struct Buffer {
    rope: ropey::Rope,
    tree: Option<SyntaxTree>,
    language: tree_sitter::Language,
    undo_patches: Vec<Patch>,
    redo_patches: Vec<Patch>,
    path: Option<String>,
    diagnostics: Vec<Diagnostic>,
    diagnostic_ranges: Vec<CharIndexRange>,
    bookmarks: Vec<CharIndexRange>,
    highlighted_spans: Vec<HighlightedSpan>,
    decorations: Vec<Decoration>,
}

/// What a buffer holds. The grammar is a handle that is never looked into: all that is known
/// of it is which one it is.
pub struct BufferView {
    pub language: tree_sitter::Language,
    pub text: Seq<char>,
    pub tree: Option<Seq<SyntaxNode>>,
    pub undo: Seq<PatchView>,
    pub redo: Seq<PatchView>,
    pub path: Option<Seq<char>>,
    pub diagnostics: Seq<DiagnosticView>,
    pub diagnostic_ranges: Seq<CharIndexRange>,
    pub bookmarks: Seq<CharIndexRange>,
    pub highlighted_spans: Seq<HighlightedSpan>,
    pub decorations: Seq<Decoration>,
}

/// The characters that a range of bytes covers.
pub open spec fn chars_of_bytes(text: Seq<char>, range: ByteRange) -> CharIndexRange {
    CharIndexRange {
        start: CharIndex(char_of_byte(text, range.start as int) as usize),
        end: CharIndex(char_of_byte(text, range.end as int) as usize),
    }
}

/// The bytes of a range of characters.
pub open spec fn bytes_of_char_range(text: Seq<char>, range: CharIndexRange) -> ByteRange {
    ByteRange {
        start: byte_offset(text, range.start.0 as int) as usize,
        end: byte_offset(text, range.end.0 as int) as usize,
    }
}

/// The byte at which character `c` of the text begins; the length in bytes for an index beyond
/// the text.
pub open spec fn bounded_offset(text: Seq<char>, c: usize) -> usize {
    byte_offset(
        text,
        if c <= text.len() {
            c as int
        } else {
            text.len() as int
        },
    ) as usize
}

/// Where a range of bytes of the text `before` lies in the text `after` that the edits of
/// `actions` have made of it: the characters that it covered go through the edits.
pub open spec fn moved_bytes(
    before: Seq<char>,
    after: Seq<char>,
    range: ByteRange,
    actions: Seq<ActionView>,
) -> ByteRange {
    let moved = map_range_through(chars_of_bytes(before, range), actions, actions.len() as int);
    ByteRange {
        start: bounded_offset(after, moved.start.0),
        end: bounded_offset(after, moved.end.0),
    }
}

/// A coloured stretch after the edits of `actions`.
pub open spec fn moved_span(
    before: Seq<char>,
    after: Seq<char>,
    span: HighlightedSpan,
    actions: Seq<ActionView>,
) -> HighlightedSpan {
    HighlightedSpan {
        byte_range: moved_bytes(before, after, span.byte_range, actions),
        style_key: span.style_key,
    }
}

/// The coloured stretches after the edits of `actions`.
pub open spec fn moved_spans(
    before: Seq<char>,
    after: Seq<char>,
    spans: Seq<HighlightedSpan>,
    actions: Seq<ActionView>,
) -> Seq<HighlightedSpan> {
    Seq::new(spans.len(), |i: int| moved_span(before, after, spans[i], actions))
}

/// A decoration after the edits of `actions`.
pub open spec fn moved_decoration(d: Decoration, actions: Seq<ActionView>) -> Decoration {
    Decoration {
        range: map_range_through(d.range, actions, actions.len() as int),
        style_key: d.style_key,
    }
}

/// The decorations after the edits of `actions`.
pub open spec fn moved_decorations(decorations: Seq<Decoration>, actions: Seq<ActionView>) -> Seq<
    Decoration,
> {
    Seq::new(decorations.len(), |i: int| moved_decoration(decorations[i], actions))
}

/// The range of the line that holds character `c`, its line feed included.
pub open spec fn line_range_of_char(text: Seq<char>, c: int) -> CharIndexRange {
    CharIndexRange {
        start: CharIndex(line_start(text, newlines_before(text, c) as int) as usize),
        end: CharIndex(line_start(text, newlines_before(text, c) as int + 1) as usize),
    }
}

/// The line after the one that holds character `c` begins after `c`, within the text.
pub proof fn lemma_next_line_after(text: Seq<char>, c: int)
    requires
        0 <= c <= text.len(),
    ensures
        c <= line_start(text, newlines_before(text, c) as int + 1) <= text.len(),
{
    let l = newlines_before(text, c) as int;
    lemma_line_of_char(text, c);
    if l + 1 < line_count(text) {
        lemma_line_start(text, l + 1);
        let s2 = line_start(text, l + 1);
        if s2 <= c {
            lemma_newlines_monotonic(text, s2, c);
        }
    }
}

/// Whether the shortest node that covers a range of characters holds a syntax error.
pub open spec fn has_error_at(b: BufferView, range: CharIndexRange) -> bool {
    range.start.0 <= b.text.len() && range.end.0 <= b.text.len() && match b.tree {
        Some(nodes) => match smallest_cover(
            nodes,
            bytes_of_char_range(b.text, range).start,
            bytes_of_char_range(b.text, range).end,
        ) {
            Some(i) => nodes[i].has_error,
            None => false,
        },
        None => false,
    }
}

/// The node that a selection of a range of characters stands for.
pub open spec fn node_of_selection(b: BufferView, range: CharIndexRange) -> Option<SyntaxNode> {
    if range.start.0 <= b.text.len() && range.end.0 <= b.text.len() {
        match b.tree {
            Some(nodes) => Some(
                nodes[current_node(
                    nodes,
                    bytes_of_char_range(b.text, range).start,
                    bytes_of_char_range(b.text, range).end,
                )],
            ),
            None => None,
        }
    } else {
        None
    }
}

/// Whether a range of characters is exactly what some node covers.
pub open spec fn range_is_node(b: BufferView, range: CharIndexRange) -> bool {
    range.start.0 <= b.text.len() && range.end.0 <= b.text.len() && match b.tree {
        Some(nodes) => match smallest_cover(
            nodes,
            bytes_of_char_range(b.text, range).start,
            bytes_of_char_range(b.text, range).end,
        ) {
            Some(i) => node_range(nodes[i]) == bytes_of_char_range(b.text, range),
            None => false,
        },
        None => false,
    }
}

/// The text that a range of bytes covers; the empty text where the range does not lie within
/// the text.
pub open spec fn range_text(text: Seq<char>, range: ByteRange) -> Seq<char> {
    let chars = chars_of_bytes(text, range);
    if range.start <= byte_len(text) && range.end <= byte_len(text) && chars.start.0
        <= chars.end.0 {
        text.subrange(chars.start.0 as int, chars.end.0 as int)
    } else {
        Seq::empty()
    }
}

/// The words of a text, in order: what the pattern for a run of word characters after a word
/// boundary matches.
pub open spec fn word_texts(text: Seq<char>) -> Seq<Seq<char>> {
    match regex_ranges("\\b\\w+"@, text, byte_len(text) as usize) {
        Some(ranges) => Seq::new(ranges.len(), |i: int| range_text(text, ranges[i])),
        None => Seq::empty(),
    }
}

/// The last word that starts before byte `cursor`; the empty text where there is none.
pub open spec fn word_before(text: Seq<char>, cursor: usize) -> Seq<char> {
    match regex_ranges("\\b\\w+"@, text, byte_len(text) as usize) {
        Some(ranges) => match previous_of(ranges, cursor) {
            Some(i) => range_text(text, ranges[i]),
            None => Seq::empty(),
        },
        None => Seq::empty(),
    }
}

/// Whether `r` stands among the first `n` ranges.
pub open spec fn among(ranges: Seq<CharIndexRange>, r: CharIndexRange, n: int) -> bool {
    exists|i: int| 0 <= i < n && i < ranges.len() && ranges[i] == r
}

/// Those of the first `n` marks that are not among `taken`, in order.
pub open spec fn without(marks: Seq<CharIndexRange>, taken: Seq<CharIndexRange>, n: int) -> Seq<
    CharIndexRange,
>
    decreases n,
{
    if n <= 0 {
        Seq::empty()
    } else if among(taken, marks[n - 1], taken.len() as int) {
        without(marks, taken, n - 1)
    } else {
        without(marks, taken, n - 1).push(marks[n - 1])
    }
}

/// Those of the first `n` ranges that are neither marked nor given earlier, in order.
pub open spec fn fresh(ranges: Seq<CharIndexRange>, marks: Seq<CharIndexRange>, n: int) -> Seq<
    CharIndexRange,
>
    decreases n,
{
    if n <= 0 {
        Seq::empty()
    } else if among(marks, ranges[n - 1], marks.len() as int) || among(ranges, ranges[n - 1], n - 1) {
        fresh(ranges, marks, n - 1)
    } else {
        fresh(ranges, marks, n - 1).push(ranges[n - 1])
    }
}

/// The marks after `ranges` were toggled: the marks that are not among the ranges, then the
/// ranges that were not marked, each once.
pub open spec fn toggled(marks: Seq<CharIndexRange>, ranges: Seq<CharIndexRange>) -> Seq<
    CharIndexRange,
> {
    without(marks, ranges, marks.len() as int) + fresh(ranges, marks, ranges.len() as int)
}

/// Whether `r` is among the first `n` ranges.
fn has_range(ranges: &Vec<CharIndexRange>, r: CharIndexRange, n: usize) -> (b: bool)
    requires
        n <= ranges@.len(),
    ensures
        b == among(ranges@, r, n as int),
{
    let mut i: usize = 0;
    while i < n
        invariant
            i <= n <= ranges@.len(),
            !among(ranges@, r, i as int),
        decreases n - i,
    {
        if ranges[i] == r {
            return true;
        }
        i += 1;
    }
    false
}

/// The line and column at which each diagnostic starts.
pub open spec fn position_keys(diagnostics: Seq<DiagnosticView>) -> Seq<(usize, usize)> {
    Seq::new(
        diagnostics.len(),
        |i: int| (diagnostics[i].range.start.line, diagnostics[i].range.start.column),
    )
}

/// The diagnostics in the order of the positions at which they start; those that start at
/// the same position in the order given.
pub open spec fn sorted_diagnostics(diagnostics: Seq<DiagnosticView>) -> Seq<DiagnosticView> {
    Seq::new(
        diagnostics.len(),
        |k: int|
            diagnostics[order_by_key(position_keys(diagnostics), diagnostics.len() as int)[k] as int],
    )
}

/// The range of characters between two positions; the empty range at the end of the text
/// where one of them lies beyond the last line.
pub open spec fn anchor(text: Seq<char>, range: PositionRange) -> CharIndexRange {
    if range.start.line <= line_count(text) && range.end.line <= line_count(text) {
        CharIndexRange {
            start: CharIndex(char_of_position(text, range.start) as usize),
            end: CharIndex(char_of_position(text, range.end) as usize),
        }
    } else {
        CharIndexRange { start: CharIndex(text.len() as usize), end: CharIndex(text.len() as usize) }
    }
}

/// The range of characters of each diagnostic.
pub open spec fn anchored(text: Seq<char>, diagnostics: Seq<DiagnosticView>) -> Seq<CharIndexRange> {
    Seq::new(diagnostics.len(), |i: int| anchor(text, diagnostics[i].range))
}

/// After the diagnostics were set and a transaction was applied, the range of each diagnostic
/// is the range of characters that its positions stood for when it was set, moved by the edits
/// of the transaction, one after the other.
pub proof fn lemma_diagnostics_follow_edits(
    text: Seq<char>,
    diagnostics: Seq<DiagnosticView>,
    set: BufferView,
    edited: BufferView,
    actions: Seq<ActionView>,
    i: int,
)
    requires
        set.diagnostics == sorted_diagnostics(diagnostics),
        set.diagnostic_ranges == anchored(text, sorted_diagnostics(diagnostics)),
        edited.diagnostic_ranges == map_ranges(set.diagnostic_ranges, actions),
        edited.diagnostics == set.diagnostics,
        0 <= i < diagnostics.len(),
    ensures
        edited.diagnostic_ranges.len() == diagnostics.len(),
        edited.diagnostic_ranges[i] == map_range_through(
            anchor(text, edited.diagnostics[i].range),
            actions,
            actions.len() as int,
        ),
{
}

/// The text that an edit makes of `text`.
pub open spec fn edit_text(text: Seq<char>, e: EditView) -> Seq<char> {
    text.subrange(0, e.range.start.0 as int) + e.new + text.subrange(
        e.range.end.0 as int,
        text.len() as int,
    )
}

/// Why an edit cannot be applied to a text of `len` characters, if it cannot.
pub open spec fn edit_refused(len: nat, e: EditView) -> Option<EditorError> {
    if e.range.start.0 > e.range.end.0 {
        Some(EditorError::InvalidRange)
    } else if e.range.end.0 > len {
        Some(EditorError::OutOfBounds)
    } else {
        None
    }
}

/// The text after the edits among the first `n` actions, applied one after the other; the
/// error of the first edit that cannot be applied.
pub open spec fn text_after(text: Seq<char>, actions: Seq<ActionView>, n: int) -> Result<
    Seq<char>,
    EditorError,
>
    decreases n,
{
    if n <= 0 {
        Ok(text)
    } else {
        match text_after(text, actions, n - 1) {
            Err(e) => Err(e),
            Ok(t) => match actions[n - 1] {
                ActionView::Select(_) => Ok(t),
                ActionView::Edit(e) => match edit_refused(t.len(), e) {
                    Some(err) => Err(err),
                    None => Ok(edit_text(t, e)),
                },
            },
        }
    }
}

/// The selections after a transaction: those that the transaction names, brought within a text
/// of `len` characters, the one at place `primary` among them as the primary selection; the
/// selections as they were where the transaction names none.
pub open spec fn selection_set_after(
    current: SelectionSetView,
    actions: Seq<ActionView>,
    primary: nat,
    len: usize,
) -> SelectionSetView {
    let picked = selections_of(actions);
    if picked.len() == 0 {
        current
    } else {
        let p = if primary < picked.len() {
            primary as int
        } else {
            0
        };
        let clamped = Seq::new(picked.len(), |i: int| picked[i].clamp(CharIndex(len)));
        SelectionSetView { primary: clamped[p], secondary: clamped.remove(p), ..current }
    }
}

/// Whether every diff of a stack of the history is one that was written for a change of a
/// text.
pub open spec fn written(stack: Seq<PatchView>) -> bool {
    forall|i: int| 0 <= i < stack.len() ==> is_diff((#[trigger] stack[i]).patch)
}

/// The stacks of history after the text went from `before.text` to `text` with the selections
/// `selections` in force: nothing new where the text is the same; else the way back on top of
/// the undo stack, and an empty redo stack.
pub open spec fn is_edit_step(
    before: BufferView,
    after: BufferView,
    text: Seq<char>,
    selections: SelectionSetView,
) -> bool {
    &&& after.text == text
    &&& if text == before.text {
        after.undo == before.undo && after.redo == before.redo
    } else {
        &&& after.undo == before.undo.push(
            PatchView { selection_set: selections, patch: unified_diff(text, before.text) },
        )
        &&& after.redo.len() == 0
        &&& patched(text, unified_diff(text, before.text)) == Some(before.text)
    }
}

/// What taking back the last change does, with `selections` in force: nothing where no
/// change is kept or its diff does not apply; else the text that the diff gives, the change
/// off the undo stack, and the way forward again on top of the redo stack.
pub open spec fn is_undo_step(
    before: BufferView,
    after: BufferView,
    selections: SelectionSetView,
    result: Result<Option<SelectionSetView>, EditorError>,
) -> bool {
    if before.undo.len() == 0 {
        result == Ok::<Option<SelectionSetView>, EditorError>(None) && after == before
    } else {
        match patched(before.text, before.undo.last().patch) {
            None => result == Err::<Option<SelectionSetView>, EditorError>(
                EditorError::PatchApplyFailed,
            ) && after == before,
            Some(text) => {
                &&& result == Ok::<Option<SelectionSetView>, EditorError>(
                    Some(before.undo.last().selection_set),
                )
                &&& after.text == text
                &&& after.undo == before.undo.drop_last()
                &&& after.redo == before.redo.push(
                    PatchView { selection_set: selections, patch: unified_diff(text, before.text) },
                )
                &&& patched(text, unified_diff(text, before.text)) == Some(before.text)
            },
        }
    }
}

/// What doing again the last change taken back does: as `is_undo_step`, with the two stacks
/// in each other's place.
pub open spec fn is_redo_step(
    before: BufferView,
    after: BufferView,
    selections: SelectionSetView,
    result: Result<Option<SelectionSetView>, EditorError>,
) -> bool {
    if before.redo.len() == 0 {
        result == Ok::<Option<SelectionSetView>, EditorError>(None) && after == before
    } else {
        match patched(before.text, before.redo.last().patch) {
            None => result == Err::<Option<SelectionSetView>, EditorError>(
                EditorError::PatchApplyFailed,
            ) && after == before,
            Some(text) => {
                &&& result == Ok::<Option<SelectionSetView>, EditorError>(
                    Some(before.redo.last().selection_set),
                )
                &&& after.text == text
                &&& after.redo == before.redo.drop_last()
                &&& after.undo == before.undo.push(
                    PatchView { selection_set: selections, patch: unified_diff(text, before.text) },
                )
                &&& patched(text, unified_diff(text, before.text)) == Some(before.text)
            },
        }
    }
}

/// Taking back a change of the text right after it was made gives the text and the undo stack
/// as they were before the change, and hands back the selections that were in force then.
pub proof fn lemma_undo_restores(
    b0: BufferView,
    b1: BufferView,
    b2: BufferView,
    text: Seq<char>,
    s0: SelectionSetView,
    s1: SelectionSetView,
    result: Result<Option<SelectionSetView>, EditorError>,
)
    requires
        is_edit_step(b0, b1, text, s0),
        text != b0.text,
        is_undo_step(b1, b2, s1, result),
    ensures
        result == Ok::<Option<SelectionSetView>, EditorError>(Some(s0)),
        b2.text == b0.text,
        b2.undo == b0.undo,
{
    assert(b0.undo.push(
        PatchView { selection_set: s0, patch: unified_diff(text, b0.text) },
    ).drop_last() =~= b0.undo);
}

/// Taking back a change where none is kept does nothing, however often it is tried: the
/// buffer stays as it is, and no selections are handed back.
pub proof fn lemma_undo_past_start(
    b: BufferView,
    after: BufferView,
    s: SelectionSetView,
    result: Result<Option<SelectionSetView>, EditorError>,
)
    requires
        b.undo.len() == 0,
        is_undo_step(b, after, s, result),
    ensures
        after == b,
        result == Ok::<Option<SelectionSetView>, EditorError>(None),
        after.undo.len() == 0,
{
}

/// Doing a change again right after it was taken back gives the text and the undo stack as
/// the change had left them, and hands back the selections that were in force when it was
/// taken back.
pub proof fn lemma_redo_restores(
    b1: BufferView,
    b2: BufferView,
    b3: BufferView,
    s1: SelectionSetView,
    s2: SelectionSetView,
    undone: Result<Option<SelectionSetView>, EditorError>,
    redone: Result<Option<SelectionSetView>, EditorError>,
)
    requires
        b1.undo.len() > 0,
        undone.is_ok(),
        is_undo_step(b1, b2, s1, undone),
        is_redo_step(b2, b3, s2, redone),
    ensures
        redone == Ok::<Option<SelectionSetView>, EditorError>(Some(s1)),
        b3.text == b1.text,
        b3.redo == b1.redo,
        b3.undo.len() == b1.undo.len(),
        b3.undo.drop_last() == b1.undo.drop_last(),
{
    let text = patched(b1.text, b1.undo.last().patch).unwrap();
    let p = PatchView { selection_set: s1, patch: unified_diff(text, b1.text) };
    assert(b2.redo.last() == p);
    assert(b1.redo.push(p).drop_last() =~= b1.redo);
    let q = PatchView { selection_set: s2, patch: unified_diff(b1.text, b2.text) };
    assert(b2.undo.push(q).drop_last() =~= b2.undo);
}

/// The syntax tree of a text under a grammar: what the parser makes of it, where that is a
/// tree over the text whose nodes start and end where characters do.
pub open spec fn tree_of(language: tree_sitter::Language, text: Seq<char>) -> Option<
    Seq<SyntaxNode>,
> {
    match parsed(language, text) {
        Some(nodes) => if nodes_wf(nodes, byte_len(text) as usize) && aligned(text, nodes) {
            Some(nodes)
        } else {
            None
        },
        None => None,
    }
}

/// Whether every node of a tree starts and ends where a character of the text begins, or at
/// the end of the text.
pub open spec fn aligned(text: Seq<char>, nodes: Seq<SyntaxNode>) -> bool {
    forall|i: int|
        0 <= i < nodes.len() ==> is_boundary(text, (#[trigger] nodes[i]).start_byte as int)
            && is_boundary(text, nodes[i].end_byte as int)
}

/// Whether a byte offset is where a character of the rope begins, or its end.
fn at_boundary(rope: &ropey::Rope, b: usize) -> (r: bool)
    ensures
        r == is_boundary(rope_text(*rope), b as int),
{
    match rope_byte_to_char(rope, b) {
        Some(c) => {
            proof {
                lemma_char_of_byte(rope_text(*rope), b as int);
                lemma_char_of_byte_unique(
                    rope_text(*rope),
                    b as int,
                    c as int,
                    char_of_byte(rope_text(*rope), b as int),
                );
            }
            match rope_char_to_byte(rope, c) {
                Some(back) => back == b,
                None => false,
            }
        },
        None => false,
    }
}

/// The syntax tree that the parser makes of the text of a rope, where what it gives is a tree
/// over that text whose nodes start and end where characters do.
fn parse_tree(language: &tree_sitter::Language, rope: &ropey::Rope, text: &str) -> (r: Option<
    SyntaxTree,
>)
    requires
        text@ == rope_text(*rope),
    ensures
        byte_len(rope_text(*rope)) <= usize::MAX,
        rope_text(*rope).len() <= usize::MAX,
        match r {
            Some(t) => t.wf() && t.text_len() == byte_len(rope_text(*rope)) && aligned(
                rope_text(*rope),
                t@,
            ) && tree_of(*language, rope_text(*rope)) == Some(t@),
            None => tree_of(*language, rope_text(*rope)).is_none(),
        },
{
    let len_bytes: usize = rope_len_bytes(rope);
    proof {
        lemma_byte_offset_monotonic(rope_text(*rope), 0, rope_text(*rope).len() as int);
    }
    let raw: Vec<RawNode> = match parse_nodes(language, text) {
        Some(raw) => raw,
        None => {
            return None;
        },
    };
    proof {
        lemma_shape_valid(raw@, len_bytes);
    }
    let tree: SyntaxTree = match SyntaxTree::from_raw(&raw, len_bytes) {
        Some(t) => t,
        None => {
            return None;
        },
    };
    assert(tree@ =~= shape_of(raw@));
    proof {
        tree.lemma_wf();
    }
    let mut i: usize = 0;
    while i < tree.len()
        invariant
            i <= tree@.len(),
            parsed(*language, rope_text(*rope)) == Some(tree@),
            byte_len(rope_text(*rope)) <= usize::MAX,
            rope_text(*rope).len() <= usize::MAX,
            forall|k: int|
                0 <= k < i ==> is_boundary(rope_text(*rope), (#[trigger] tree@[k]).start_byte as int)
                    && is_boundary(rope_text(*rope), tree@[k].end_byte as int),
        decreases tree@.len() - i,
    {
        let node: SyntaxNode = tree.node(i);
        if !at_boundary(rope, node.start_byte) || !at_boundary(rope, node.end_byte) {
            assert(!aligned(rope_text(*rope), tree@)) by {
                assert(tree@[i as int] == node);
            }
            return None;
        }
        i += 1;
    }
    proof {
        tree.lemma_wf();
    }
    Some(tree)
}

/// The character of the rope that byte `b` belongs to; the number of characters for a byte
/// beyond the text.
fn char_at_byte(rope: &ropey::Rope, b: usize) -> (c: usize)
    ensures
        c == char_of_byte(rope_text(*rope), b as int),
        c <= rope_text(*rope).len(),
{
    let len: usize = rope_len_chars(rope);
    match rope_byte_to_char(rope, b) {
        Some(c) => {
            proof {
                lemma_char_of_byte(rope_text(*rope), b as int);
                lemma_char_of_byte_unique(
                    rope_text(*rope),
                    b as int,
                    c as int,
                    char_of_byte(rope_text(*rope), b as int),
                );
            }
            c
        },
        None => len,
    }
}

/// The byte at which character `c` of the rope begins; the length in bytes for an index beyond
/// the text.
fn byte_at_char(rope: &ropey::Rope, c: usize) -> (b: usize)
    ensures
        b == bounded_offset(rope_text(*rope), c),
{
    let bytes: usize = rope_len_bytes(rope);
    match rope_char_to_byte(rope, c) {
        Some(b) => b,
        None => bytes,
    }
}

impl View for Buffer {
    type V = BufferView;

    closed spec fn view(&self) -> BufferView {
        BufferView {
            language: self.language,
            text: rope_text(self.rope),
            tree: match self.tree {
                Some(t) => Some(t@),
                None => None,
            },
            undo: patches_view(self.undo_patches@),
            redo: patches_view(self.redo_patches@),
            path: match self.path {
                Some(p) => Some(p@),
                None => None,
            },
            diagnostics: diagnostics_view(self.diagnostics@),
            diagnostic_ranges: self.diagnostic_ranges@,
            bookmarks: self.bookmarks@,
            highlighted_spans: self.highlighted_spans@,
            decorations: self.decorations@,
        }
    }
}

impl Buffer {
    /// The characters of the buffer.
    pub open spec fn text(&self) -> Seq<char> {
        self@.text
    }

    /// The syntax tree is the one that the text has under the grammar; every diagnostic has its
    /// range; and every diff kept in the history is one that was written for a change of the
    /// text.
    pub closed spec fn wf(&self) -> bool {
        &&& byte_len(rope_text(self.rope)) <= usize::MAX
        &&& rope_text(self.rope).len() <= usize::MAX
        &&& self.diagnostics@.len() == self.diagnostic_ranges@.len()
        &&& written(patches_view(self.undo_patches@))
        &&& written(patches_view(self.redo_patches@))
        &&& match self.tree {
            Some(t) => t.wf() && t.text_len() == byte_len(rope_text(self.rope)) && aligned(
                rope_text(self.rope),
                t@,
            ) && tree_of(self.language, rope_text(self.rope)) == Some(t@),
            None => tree_of(self.language, rope_text(self.rope)).is_none(),
        }
    }

    /// Unfolds `wf`.
    pub proof fn lemma_wf(&self)
        requires
            self.wf(),
        ensures
            byte_len(self@.text) <= usize::MAX,
            self@.text.len() <= usize::MAX,
            self@.diagnostics.len() == self@.diagnostic_ranges.len(),
            match self@.tree {
                Some(nodes) => nodes_wf(nodes, byte_len(self@.text) as usize) && aligned(
                    self@.text,
                    nodes,
                ),
                None => true,
            },
            self@.tree == tree_of(self@.language, self@.text),
            written(self@.undo),
            written(self@.redo),
    {
        if let Some(t) = self.tree {
            t.lemma_wf();
        }
    }

    /// A buffer that holds `text`, with the syntax tree that the text has under `language`,
    /// with nothing laid over it and no history.
    pub fn new(language: tree_sitter::Language, text: &str) -> (b: Buffer)
        ensures
            b.wf(),
            b@.language == language,
            b@.text == text@,
            b@.tree == tree_of(language, text@),
            b@.undo.len() == 0,
            b@.redo.len() == 0,
            b@.path.is_none(),
            b@.diagnostics.len() == 0,
            b@.diagnostic_ranges.len() == 0,
            b@.bookmarks.len() == 0,
            b@.highlighted_spans.len() == 0,
            b@.decorations.len() == 0,
    {
        let rope: ropey::Rope = rope_from_str(text);
        let tree: Option<SyntaxTree> = parse_tree(&language, &rope, text);
        Buffer {
            rope,
            tree,
            language,
            undo_patches: Vec::new(),
            redo_patches: Vec::new(),
            path: None,
            diagnostics: Vec::new(),
            diagnostic_ranges: Vec::new(),
            bookmarks: Vec::new(),
            highlighted_spans: Vec::new(),
            decorations: Vec::new(),
        }
    }

    /// The whole text as a string.
    pub fn content(&self) -> (s: String)
        ensures
            s@ == self@.text,
    {
        let len: usize = rope_len_chars(&self.rope);
        let s: String = rope_slice(&self.rope, 0, len);
        assert(self@.text.subrange(0, len as int) =~= self@.text);
        s
    }

    /// Parses the text as it is; the buffer has no tree afterwards where the parser gives none,
    /// or nodes that are no tree over the text.
    fn reparse(&mut self)
        requires
            old(self).diagnostics@.len() == old(self).diagnostic_ranges@.len(),
            written(patches_view(old(self).undo_patches@)),
            written(patches_view(old(self).redo_patches@)),
        ensures
            final(self).wf(),
            final(self)@ == (BufferView {
                tree: tree_of(old(self)@.language, old(self)@.text),
                ..old(self)@
            }),
    {
        let text: String = self.content();
        self.tree = parse_tree(&self.language, &self.rope, text.as_str());
    }

    /// Replaces the whole text; the syntax tree becomes the one that the new text has under the
    /// grammar. The history and what is laid over the text stay as they are.
    pub fn update(&mut self, text: &str)
        requires
            old(self).wf(),
        ensures
            final(self).wf(),
            final(self)@ == (BufferView {
                text: text@,
                tree: tree_of(old(self)@.language, text@),
                ..old(self)@
            }),
    {
        self.rope = rope_from_str(text);
        self.reparse();
    }

    /// Applies all edits of a transaction, or none: each edit replaces its range in the text as
    /// the edits before it left it. Where an edit does not lie within that text the buffer
    /// stays as it is. Else what is laid over the text (bookmarks, ranges of diagnostics,
    /// colours, decorations) moves with the edits, the way back is put on the undo stack if the
    /// text has changed, the redo stack is emptied, the text is parsed anew, and the selections
    /// that the transaction names are handed back.
    pub fn apply_edit_transaction(
        &mut self,
        edit_transaction: &EditTransaction,
        current_selection_set: SelectionSet,
    ) -> (r: Result<SelectionSet, EditorError>)
        requires
            old(self).wf(),
        ensures
            final(self).wf(),
            match text_after(old(self)@.text, edit_transaction@.0, edit_transaction@.0.len() as int) {
                Err(e) => r == Err::<SelectionSet, EditorError>(e) && final(self)@ == old(self)@,
                Ok(text) => {
                    &&& r.is_ok()
                    &&& text.len() <= usize::MAX
                    &&& r.unwrap()@ == selection_set_after(
                        current_selection_set@,
                        edit_transaction@.0,
                        edit_transaction@.1,
                        text.len() as usize,
                    )
                    &&& is_edit_step(old(self)@, final(self)@, text, current_selection_set@)
                    &&& final(self)@.bookmarks == map_ranges(
                        old(self)@.bookmarks,
                        edit_transaction@.0,
                    )
                    &&& final(self)@.diagnostic_ranges == map_ranges(
                        old(self)@.diagnostic_ranges,
                        edit_transaction@.0,
                    )
                    &&& final(self)@.diagnostics == old(self)@.diagnostics
                    &&& final(self)@.path == old(self)@.path
                    &&& final(self)@.language == old(self)@.language
                    &&& final(self)@.tree == tree_of(old(self)@.language, text)
                    &&& final(self)@.highlighted_spans == moved_spans(
                        old(self)@.text,
                        text,
                        old(self)@.highlighted_spans,
                        edit_transaction@.0,
                    )
                    &&& final(self)@.decorations == moved_decorations(
                        old(self)@.decorations,
                        edit_transaction@.0,
                    )
                },
            },
    {
        let ghost views = edit_transaction@.0;
        let ghost start = self@.text;
        let mut work: ropey::Rope = rope_clone(&self.rope);
        let mut j: usize = 0;
        while j < edit_transaction.actions.len()
            invariant
                j <= edit_transaction.actions.len(),
                views == actions_view(edit_transaction.actions@),
                *self == *old(self),
                self.wf(),
                start == old(self)@.text,
                text_after(start, views, j as int) == Ok::<Seq<char>, EditorError>(rope_text(work)),
            decreases edit_transaction.actions.len() - j,
        {
            if let Action::Edit(e) = &edit_transaction.actions[j] {
                let len: usize = rope_len_chars(&work);
                if e.range.start.0 > e.range.end.0 {
                    proof {
                        lemma_text_after_err(start, views, j + 1, views.len() as int);
                    }
                    return Err(EditorError::InvalidRange);
                }
                if e.range.end.0 > len {
                    proof {
                        lemma_text_after_err(start, views, j + 1, views.len() as int);
                    }
                    return Err(EditorError::OutOfBounds);
                }
                let ghost t = rope_text(work);
                rope_remove(&mut work, e.range.start.0, e.range.end.0);
                rope_insert(&mut work, e.range.start.0, e.new.as_str());
                assert(rope_text(work) =~= edit_text(t, e@));
            }
            j += 1;
        }
        let before: String = self.content();
        let new_len: usize = rope_len_chars(&work);
        let after: String = rope_slice(&work, 0, new_len);
        assert(rope_text(work).subrange(0, new_len as int) =~= rope_text(work));
        let earlier: ropey::Rope = rope_clone(&self.rope);
        self.move_overlays(&earlier, &work, &edit_transaction.actions);
        let selections: SelectionSet = pick_selections(
            &current_selection_set,
            edit_transaction,
            new_len,
        );
        self.rope = work;
        if before != after {
            self.redo_patches = Vec::new();
            let patch: String = create_patch(after.as_str(), before.as_str());
            let ghost stack = patches_view(self.undo_patches@);
            let entry = Patch { selection_set: current_selection_set, patch };
            self.undo_patches.push(entry);
            assert(patches_view(self.undo_patches@) =~= stack.push(entry@));
        }
        self.reparse();
        Ok(selections)
    }

    /// Moves what is laid over the text with the edits of `actions`, which have made the text
    /// of `after` of the text of `before`.
    fn move_overlays(&mut self, before: &ropey::Rope, after: &ropey::Rope, actions: &Vec<Action>)
        ensures
            final(self)@ == (BufferView {
                bookmarks: map_ranges(old(self)@.bookmarks, actions_view(actions@)),
                diagnostic_ranges: map_ranges(old(self)@.diagnostic_ranges, actions_view(actions@)),
                decorations: moved_decorations(old(self)@.decorations, actions_view(actions@)),
                highlighted_spans: moved_spans(
                    rope_text(*before),
                    rope_text(*after),
                    old(self)@.highlighted_spans,
                    actions_view(actions@),
                ),
                ..old(self)@
            }),
            final(self).rope == old(self).rope,
            final(self).tree == old(self).tree,
            final(self).diagnostics@.len() == final(self).diagnostic_ranges@.len()
                <==> old(self).diagnostics@.len() == old(self).diagnostic_ranges@.len(),
    {
        self.bookmarks = map_ranges_exec(&self.bookmarks, actions);
        self.diagnostic_ranges = map_ranges_exec(&self.diagnostic_ranges, actions);
        let ghost views = actions_view(actions@);
        let mut decorations: Vec<Decoration> = Vec::new();
        let mut i: usize = 0;
        while i < self.decorations.len()
            invariant
                i <= self.decorations.len(),
                views == actions_view(actions@),
                self.decorations == old(self).decorations,
                decorations@.len() == i,
                forall|k: int|
                    0 <= k < i ==> decorations@[k] == moved_decoration(self.decorations@[k], views),
            decreases self.decorations.len() - i,
        {
            let d: Decoration = self.decorations[i];
            decorations.push(
                Decoration {
                    range: map_range_through_exec(d.range, actions),
                    style_key: d.style_key,
                },
            );
            i += 1;
        }
        assert(decorations@ =~= moved_decorations(self.decorations@, views));
        let mut spans: Vec<HighlightedSpan> = Vec::new();
        let mut j: usize = 0;
        while j < self.highlighted_spans.len()
            invariant
                j <= self.highlighted_spans.len(),
                views == actions_view(actions@),
                self.highlighted_spans == old(self).highlighted_spans,
                spans@.len() == j,
                forall|k: int|
                    0 <= k < j ==> spans@[k] == moved_span(
                        rope_text(*before),
                        rope_text(*after),
                        self.highlighted_spans@[k],
                        views,
                    ),
            decreases self.highlighted_spans.len() - j,
        {
            let span: HighlightedSpan = self.highlighted_spans[j];
            let chars = CharIndexRange {
                start: CharIndex(char_at_byte(before, span.byte_range.start)),
                end: CharIndex(char_at_byte(before, span.byte_range.end)),
            };
            let moved: CharIndexRange = map_range_through_exec(chars, actions);
            spans.push(
                HighlightedSpan {
                    byte_range: ByteRange {
                        start: byte_at_char(after, moved.start.0),
                        end: byte_at_char(after, moved.end.0),
                    },
                    style_key: span.style_key,
                },
            );
            j += 1;
        }
        assert(spans@ =~= moved_spans(
            rope_text(*before),
            rope_text(*after),
            self.highlighted_spans@,
            views,
        ));
        self.decorations = decorations;
        self.highlighted_spans = spans;
    }

    /// Moves what is laid over the text with a change of the text from `before` to `after`.
    fn follow(&mut self, before: &str, after: &str)
        ensures
            final(self)@ == (BufferView {
                bookmarks: followed(old(self)@.bookmarks, before@, after@),
                diagnostic_ranges: followed(old(self)@.diagnostic_ranges, before@, after@),
                decorations: moved_decorations(old(self)@.decorations, replaced(before@, after@)),
                highlighted_spans: moved_spans(
                    before@,
                    after@,
                    old(self)@.highlighted_spans,
                    replaced(before@, after@),
                ),
                ..old(self)@
            }),
            final(self).rope == old(self).rope,
            final(self).tree == old(self).tree,
            final(self).diagnostics@.len() == final(self).diagnostic_ranges@.len()
                <==> old(self).diagnostics@.len() == old(self).diagnostic_ranges@.len(),
    {
        let edit: Edit = replacement_of(&str_chars(before), &str_chars(after));
        let mut actions: Vec<Action> = Vec::new();
        actions.push(Action::Edit(edit));
        assert(actions_view(actions@) =~= replaced(before@, after@));
        let earlier: ropey::Rope = rope_from_str(before);
        let later: ropey::Rope = rope_from_str(after);
        self.move_overlays(&earlier, &later, &actions);
    }

    /// Takes back the last change: the text goes to what the diff on top of the undo stack
    /// gives, the way forward again is put on the redo stack with the selections in force,
    /// what is laid over the text moves with the change, the text is parsed anew, and the
    /// selections kept with the change are handed back. Nothing happens where no change is
    /// kept. Where the diff does not apply to the text, the buffer stays as it is.
    pub fn undo(&mut self, current_selection_set: SelectionSet) -> (r: Result<
        Option<SelectionSet>,
        EditorError,
    >)
        requires
            old(self).wf(),
        ensures
            final(self).wf(),
            is_undo_step(old(self)@, final(self)@, current_selection_set@, result_view(r)),
            old(self)@.undo.len() > 0 && r.is_ok() ==> final(self)@ == (BufferView {
                text: final(self)@.text,
                tree: tree_of(old(self)@.language, final(self)@.text),
                undo: final(self)@.undo,
                redo: final(self)@.redo,
                bookmarks: followed(old(self)@.bookmarks, old(self)@.text, final(self)@.text),
                diagnostic_ranges: followed(
                    old(self)@.diagnostic_ranges,
                    old(self)@.text,
                    final(self)@.text,
                ),
                decorations: moved_decorations(
                    old(self)@.decorations,
                    replaced(old(self)@.text, final(self)@.text),
                ),
                highlighted_spans: moved_spans(
                    old(self)@.text,
                    final(self)@.text,
                    old(self)@.highlighted_spans,
                    replaced(old(self)@.text, final(self)@.text),
                ),
                ..old(self)@
            }),
    {
        let ghost stack = patches_view(self.undo_patches@);
        assert(stack.len() > 0 ==> is_diff(stack[stack.len() - 1].patch));
        match self.undo_patches.pop() {
            None => {
                assert(patches_view(self.undo_patches@) =~= stack);
                Ok(None)
            },
            Some(entry) => {
                let before: String = self.content();
                match apply_patch(before.as_str(), entry.patch.as_str()) {
                    None => {
                        self.undo_patches.push(entry);
                        assert(patches_view(self.undo_patches@) =~= stack);
                        Err(EditorError::PatchApplyFailed)
                    },
                    Some(after) => {
                        assert(patches_view(self.undo_patches@) =~= stack.drop_last());
                        let patch: String = create_patch(after.as_str(), before.as_str());
                        let ghost other = patches_view(self.redo_patches@);
                        let forward = Patch { selection_set: current_selection_set, patch };
                        self.redo_patches.push(forward);
                        assert(patches_view(self.redo_patches@) =~= other.push(forward@));
                        self.rope = rope_from_str(after.as_str());
                        self.follow(before.as_str(), after.as_str());
                        self.reparse();
                        Ok(Some(entry.selection_set))
                    },
                }
            },
        }
    }

    /// Does again the last change taken back: as `undo`, with the two stacks in each other's
    /// place.
    pub fn redo(&mut self, current_selection_set: SelectionSet) -> (r: Result<
        Option<SelectionSet>,
        EditorError,
    >)
        requires
            old(self).wf(),
        ensures
            final(self).wf(),
            is_redo_step(old(self)@, final(self)@, current_selection_set@, result_view(r)),
            old(self)@.redo.len() > 0 && r.is_ok() ==> final(self)@ == (BufferView {
                text: final(self)@.text,
                tree: tree_of(old(self)@.language, final(self)@.text),
                undo: final(self)@.undo,
                redo: final(self)@.redo,
                bookmarks: followed(old(self)@.bookmarks, old(self)@.text, final(self)@.text),
                diagnostic_ranges: followed(
                    old(self)@.diagnostic_ranges,
                    old(self)@.text,
                    final(self)@.text,
                ),
                decorations: moved_decorations(
                    old(self)@.decorations,
                    replaced(old(self)@.text, final(self)@.text),
                ),
                highlighted_spans: moved_spans(
                    old(self)@.text,
                    final(self)@.text,
                    old(self)@.highlighted_spans,
                    replaced(old(self)@.text, final(self)@.text),
                ),
                ..old(self)@
            }),
    {
        let ghost stack = patches_view(self.redo_patches@);
        assert(stack.len() > 0 ==> is_diff(stack[stack.len() - 1].patch));
        match self.redo_patches.pop() {
            None => {
                assert(patches_view(self.redo_patches@) =~= stack);
                Ok(None)
            },
            Some(entry) => {
                let before: String = self.content();
                match apply_patch(before.as_str(), entry.patch.as_str()) {
                    None => {
                        self.redo_patches.push(entry);
                        assert(patches_view(self.redo_patches@) =~= stack);
                        Err(EditorError::PatchApplyFailed)
                    },
                    Some(after) => {
                        assert(patches_view(self.redo_patches@) =~= stack.drop_last());
                        let patch: String = create_patch(after.as_str(), before.as_str());
                        let ghost other = patches_view(self.undo_patches@);
                        let back = Patch { selection_set: current_selection_set, patch };
                        self.undo_patches.push(back);
                        assert(patches_view(self.undo_patches@) =~= other.push(back@));
                        self.rope = rope_from_str(after.as_str());
                        self.follow(before.as_str(), after.as_str());
                        self.reparse();
                        Ok(Some(entry.selection_set))
                    },
                }
            },
        }
    }

    /// The rope that holds the text.
    pub fn rope(&self) -> (r: &ropey::Rope)
        ensures
            rope_text(*r) == self@.text,
    {
        &self.rope
    }

    /// All characters, in order.
    pub fn chars(&self) -> (v: Vec<char>)
        ensures
            v@ == self@.text,
    {
        rope_chars(&self.rope)
    }

    /// The length of the text in UTF-8.
    pub fn len_bytes(&self) -> (n: usize)
        ensures
            n == byte_len(self@.text),
    {
        rope_len_bytes(&self.rope)
    }

    /// The syntax tree, where the buffer has one.
    pub fn tree(&self) -> (t: Option<&SyntaxTree>)
        ensures
            match t {
                Some(tree) => self@.tree == Some(tree@) && (self.wf() ==> tree.wf()
                    && tree.text_len() == byte_len(self@.text)),
                None => self@.tree.is_none(),
            },
    {
        match &self.tree {
            Some(t) => Some(t),
            None => None,
        }
    }

    /// The ranges that the user has marked.
    pub fn bookmarks(&self) -> (r: &Vec<CharIndexRange>)
        ensures
            r@ == self@.bookmarks,
    {
        &self.bookmarks
    }

    /// The range of each diagnostic, as the edits since it was set have moved it.
    pub fn diagnostic_ranges(&self) -> (r: &Vec<CharIndexRange>)
        ensures
            r@ == self@.diagnostic_ranges,
    {
        &self.diagnostic_ranges
    }

    /// The diagnostics, in the order of the positions at which they start.
    pub fn diagnostics(&self) -> (r: &Vec<Diagnostic>)
        ensures
            diagnostics_view(r@) == self@.diagnostics,
    {
        &self.diagnostics
    }

    /// The colours that the syntax gives to stretches of the text.
    pub fn highlighted_spans(&self) -> (r: &Vec<HighlightedSpan>)
        ensures
            r@ == self@.highlighted_spans,
    {
        &self.highlighted_spans
    }

    /// Replaces the colours that the syntax gives.
    pub fn update_highlighted_spans(&mut self, spans: Vec<HighlightedSpan>)
        ensures
            final(self)@ == (BufferView { highlighted_spans: spans@, ..old(self)@ }),
            final(self).wf() == old(self).wf(),
    {
        self.highlighted_spans = spans;
    }

    /// The stretches that the owner of the buffer wants shown in a style of its choice.
    pub fn decorations(&self) -> (r: &Vec<Decoration>)
        ensures
            r@ == self@.decorations,
    {
        &self.decorations
    }

    /// Replaces the stretches shown in a style of the owner's choice.
    pub fn set_decorations(&mut self, decorations: Vec<Decoration>)
        ensures
            final(self)@ == (BufferView { decorations: decorations@, ..old(self)@ }),
            final(self).wf() == old(self).wf(),
    {
        self.decorations = decorations;
    }

    /// The path of the file that the buffer shows, if it shows one.
    pub fn path(&self) -> (p: Option<String>)
        ensures
            match p {
                Some(s) => self@.path == Some(s@),
                None => self@.path.is_none(),
            },
    {
        match &self.path {
            Some(p) => Some(p.clone()),
            None => None,
        }
    }

    /// Says which file the buffer shows.
    pub fn set_path(&mut self, path: String)
        ensures
            final(self)@ == (BufferView { path: Some(path@), ..old(self)@ }),
            final(self).wf() == old(self).wf(),
    {
        self.path = Some(path);
    }

    /// Gives the buffer another grammar; the syntax tree becomes the one that the text has
    /// under it.
    pub fn set_language(&mut self, language: tree_sitter::Language)
        requires
            old(self).wf(),
        ensures
            final(self).wf(),
            final(self)@ == (BufferView {
                language,
                tree: tree_of(language, old(self)@.text),
                ..old(self)@
            }),
    {
        self.language = language;
        self.reparse();
    }

    /// The grammar that the buffer parses with: the one it was made with or was given last.
    pub fn treesitter_language(&self) -> (r: &tree_sitter::Language)
        ensures
            *r == self@.language,
    {
        &self.language
    }

    /// The characters that a range of bytes covers: from the character that its first byte
    /// belongs to, up to the one that its end belongs to. Refused where the range does not lie
    /// within the text.
    pub fn byte_range_to_char_index_range(&self, range: ByteRange) -> (r: Result<
        CharIndexRange,
        EditorError,
    >)
        ensures
            match r {
                Ok(c) => range.start <= byte_len(self@.text) && range.end <= byte_len(self@.text)
                    && c == chars_of_bytes(self@.text, range) && c.start.0 <= self@.text.len()
                    && c.end.0 <= self@.text.len() && c.start.0 == char_of_byte(
                    self@.text,
                    range.start as int,
                ) && c.end.0 == char_of_byte(self@.text, range.end as int),
                Err(e) => (range.start > byte_len(self@.text) || range.end > byte_len(self@.text))
                    && e == EditorError::OutOfBounds,
            },
    {
        let start: CharIndex = match self.byte_to_char(range.start) {
            Ok(c) => c,
            Err(e) => {
                return Err(e);
            },
        };
        let end: CharIndex = match self.byte_to_char(range.end) {
            Ok(c) => c,
            Err(e) => {
                return Err(e);
            },
        };
        Ok(CharIndexRange { start, end })
    }

    /// The bytes of a range of characters. Refused where the range does not lie within the
    /// text.
    pub fn char_index_range_to_byte_range(&self, range: CharIndexRange) -> (r: Result<
        ByteRange,
        EditorError,
    >)
        ensures
            match r {
                Ok(b) => range.start.0 <= self@.text.len() && range.end.0 <= self@.text.len() && b
                    == bytes_of_char_range(self@.text, range),
                Err(e) => (range.start.0 > self@.text.len() || range.end.0 > self@.text.len())
                    && e == EditorError::OutOfBounds,
            },
    {
        let start: usize = match self.char_to_byte(range.start) {
            Ok(b) => b,
            Err(e) => {
                return Err(e);
            },
        };
        let end: usize = match self.char_to_byte(range.end) {
            Ok(b) => b,
            Err(e) => {
                return Err(e);
            },
        };
        Ok(ByteRange { start, end })
    }

    /// The text of a range of characters. Refused where the range starts after it ends or does
    /// not lie within the text.
    pub fn slice(&self, range: &CharIndexRange) -> (r: Result<String, EditorError>)
        ensures
            match r {
                Ok(s) => range.start.0 <= range.end.0 <= self@.text.len() && s@
                    == self@.text.subrange(range.start.0 as int, range.end.0 as int),
                Err(e) => if range.start.0 > range.end.0 {
                    e == EditorError::InvalidRange
                } else {
                    range.end.0 > self@.text.len() && e == EditorError::OutOfBounds
                },
            },
    {
        if range.start.0 > range.end.0 {
            return Err(EditorError::InvalidRange);
        }
        if range.end.0 > rope_len_chars(&self.rope) {
            return Err(EditorError::OutOfBounds);
        }
        Ok(rope_slice(&self.rope, range.start.0, range.end.0))
    }

    /// The range of the line that holds a character, its line feed included.
    pub fn get_line_range_by_char_index(&self, char_index: CharIndex) -> (r: Result<
        CharIndexRange,
        EditorError,
    >)
        ensures
            match r {
                Ok(range) => char_index.0 <= self@.text.len() && range == line_range_of_char(
                    self@.text,
                    char_index.0 as int,
                ) && range.start.0 <= char_index.0 && char_index.0 <= range.end.0 && range.end.0
                    <= self@.text.len(),
                Err(e) => char_index.0 > self@.text.len() && e == EditorError::OutOfBounds,
            },
    {
        let line: usize = match self.char_to_line(char_index) {
            Ok(l) => l,
            Err(e) => {
                return Err(e);
            },
        };
        let start: CharIndex = match self.line_to_char(line) {
            Ok(s) => s,
            Err(e) => {
                return Err(e);
            },
        };
        let lines: usize = self.len_lines();
        let end: CharIndex = match self.line_to_char(line + 1) {
            Ok(s) => s,
            Err(e) => {
                return Err(e);
            },
        };
        proof {
            lemma_line_of_char(self@.text, char_index.0 as int);
            lemma_line_content_within(self@.text, line as int);
            lemma_next_line_after(self@.text, char_index.0 as int);
        }
        Ok(CharIndexRange { start, end })
    }

    /// The line that holds a character, with its line feed.
    pub fn get_line_by_char_index(&self, char_index: CharIndex) -> (r: Result<String, EditorError>)
        ensures
            match r {
                Ok(s) => char_index.0 <= self@.text.len() && s@ == self@.text.subrange(
                    line_range_of_char(self@.text, char_index.0 as int).start.0 as int,
                    line_range_of_char(self@.text, char_index.0 as int).end.0 as int,
                ),
                Err(e) => char_index.0 > self@.text.len() && e == EditorError::OutOfBounds,
            },
    {
        let range: CharIndexRange = match self.get_line_range_by_char_index(char_index) {
            Ok(r) => r,
            Err(e) => {
                return Err(e);
            },
        };
        self.slice(&range)
    }

    /// A copy of the buffer.
    pub fn duplicate(&self) -> (b: Buffer)
        ensures
            b@ == self@,
            b.wf() == self.wf(),
    {
        let mut undo_patches: Vec<Patch> = Vec::new();
        let mut i: usize = 0;
        while i < self.undo_patches.len()
            invariant
                i <= self.undo_patches.len(),
                undo_patches@.len() == i,
                forall|k: int| 0 <= k < i ==> undo_patches@[k]@ == self.undo_patches@[k]@,
            decreases self.undo_patches.len() - i,
        {
            undo_patches.push(self.undo_patches[i].duplicate());
            i += 1;
        }
        let mut redo_patches: Vec<Patch> = Vec::new();
        let mut j: usize = 0;
        while j < self.redo_patches.len()
            invariant
                j <= self.redo_patches.len(),
                redo_patches@.len() == j,
                forall|k: int| 0 <= k < j ==> redo_patches@[k]@ == self.redo_patches@[k]@,
            decreases self.redo_patches.len() - j,
        {
            redo_patches.push(self.redo_patches[j].duplicate());
            j += 1;
        }
        let mut diagnostics: Vec<Diagnostic> = Vec::new();
        let mut k: usize = 0;
        while k < self.diagnostics.len()
            invariant
                k <= self.diagnostics.len(),
                diagnostics@.len() == k,
                forall|x: int| 0 <= x < k ==> diagnostics@[x]@ == self.diagnostics@[x]@,
            decreases self.diagnostics.len() - k,
        {
            diagnostics.push(self.diagnostics[k].duplicate());
            k += 1;
        }
        let b = Buffer {
            rope: rope_clone(&self.rope),
            tree: match &self.tree {
                Some(t) => Some(t.duplicate()),
                None => None,
            },
            language: self.language.clone(),
            undo_patches,
            redo_patches,
            path: match &self.path {
                Some(p) => Some(p.clone()),
                None => None,
            },
            diagnostics,
            diagnostic_ranges: self.diagnostic_ranges.clone(),
            bookmarks: self.bookmarks.clone(),
            highlighted_spans: self.highlighted_spans.clone(),
            decorations: self.decorations.clone(),
        };
        proof {
            assert(b@.undo =~= self@.undo);
            assert(b@.redo =~= self@.redo);
            assert(b@.diagnostics =~= self@.diagnostics);
            assert(b@.diagnostic_ranges =~= self@.diagnostic_ranges);
            assert(b@.bookmarks =~= self@.bookmarks);
            assert(b@.highlighted_spans =~= self@.highlighted_spans);
            assert(b@.decorations =~= self@.decorations);
        }
        b
    }

    /// Whether the shortest node that covers a range of characters holds a syntax error. No,
    /// where the buffer has no tree, or the range does not lie within the text, or no node
    /// covers it.
    pub fn has_syntax_error_at(&self, range: CharIndexRange) -> (b: bool)
        ensures
            b == has_error_at(self@, range),
    {
        let bytes: ByteRange = match self.char_index_range_to_byte_range(range) {
            Ok(b) => b,
            Err(_) => {
                return false;
            },
        };
        match self.tree() {
            Some(tree) => match tree.descendant_for_byte_range(bytes.start, bytes.end) {
                Some(i) => tree.node(i).has_error,
                None => false,
            },
            None => false,
        }
    }

    /// The node that a selection stands for: the shortest node that covers its range, and of
    /// the nodes above it that cover the same bytes, the topmost; the root where no node covers
    /// the range. `None` where the buffer has no tree or the range does not lie within the
    /// text.
    pub fn get_current_node(&self, selection: &Selection) -> (r: Option<SyntaxNode>)
        requires
            self.wf(),
        ensures
            r == node_of_selection(self@, selection@.range),
    {
        let bytes: ByteRange = match self.char_index_range_to_byte_range(selection.range) {
            Ok(b) => b,
            Err(_) => {
                return None;
            },
        };
        match self.tree() {
            Some(tree) => {
                proof {
                    tree.lemma_wf();
                }
                Some(tree.node(get_current_node(tree, bytes.start, bytes.end)))
            },
            None => None,
        }
    }

    /// Whether a range of characters is exactly what some node covers.
    pub fn given_range_is_node(&self, range: &CharIndexRange) -> (b: bool)
        ensures
            b == range_is_node(self@, *range),
    {
        let bytes: ByteRange = match self.char_index_range_to_byte_range(*range) {
            Ok(b) => b,
            Err(_) => {
                return false;
            },
        };
        match self.tree() {
            Some(tree) => match tree.descendant_for_byte_range(bytes.start, bytes.end) {
                Some(i) => {
                    let node: SyntaxNode = tree.node(i);
                    node.start_byte == bytes.start && node.end_byte == bytes.end
                },
                None => false,
            },
            None => false,
        }
    }

    /// The text of a range of bytes; the empty text where the range does not lie within the
    /// text.
    pub fn byte_range_text(&self, range: ByteRange) -> (s: String)
        ensures
            s@ == range_text(self@.text, range),
    {
        match self.byte_range_to_char_index_range(range) {
            Ok(chars) => match self.slice(&chars) {
                Ok(s) => s,
                Err(_) => String::new(),
            },
            Err(_) => String::new(),
        }
    }

    /// The words of the text, each once, in the order in which they first occur.
    pub fn words(&self) -> (r: Vec<String>)
        ensures
            texts_view(r@) == unique_texts(word_texts(self@.text)),
    {
        unique(self.all_words())
    }

    /// The words of the text, each once, in the order in which they first come.
    fn all_words(&self) -> (r: Vec<String>)
        ensures
            texts_view(r@) == word_texts(self@.text),
    {
        let len: usize = self.len_bytes();
        let text: String = self.content();
        let ranges: Vec<ByteRange> = match find_ranges("\\b\\w+", text.as_str(), len) {
            Ok(r) => r,
            Err(_) => Vec::new(),
        };
        let mut r: Vec<String> = Vec::new();
        let mut i: usize = 0;
        while i < ranges.len()
            invariant
                i <= ranges.len(),
                r@.len() == i,
                forall|k: int| 0 <= k < i ==> r@[k]@ == range_text(self@.text, ranges@[k]),
            decreases ranges.len() - i,
        {
            r.push(self.byte_range_text(ranges[i]));
            i += 1;
        }
        assert(texts_view(r@) =~= word_texts(self@.text));
        r
    }

    /// The words of the text that hold `substring`, whatever the case of either, each once.
    pub fn find_words(&self, substring: &str) -> (r: Vec<String>)
        ensures
            texts_view(r@) == unique_texts(
                word_texts(self@.text).filter(
                    |w: Seq<char>| contains_text(lowercase(w), lowercase(substring@)),
                ),
            ),
    {
        let all: Vec<String> = self.all_words();
        let wanted: String = to_lowercase(substring);
        let ghost holds = |w: Seq<char>| contains_text(lowercase(w), lowercase(substring@));
        let mut kept: Vec<String> = Vec::new();
        let mut i: usize = 0;
        proof {
            reveal(Seq::filter);
            assert(texts_view(all@).take(0) =~= Seq::<Seq<char>>::empty());
        }
        while i < all.len()
            invariant
                i <= all.len(),
                wanted@ == lowercase(substring@),
                holds == (|w: Seq<char>| contains_text(lowercase(w), lowercase(substring@))),
                texts_view(kept@) == texts_view(all@).take(i as int).filter(holds),
            decreases all.len() - i,
        {
            let lower: String = to_lowercase(all[i].as_str());
            proof {
                reveal(Seq::filter);
                assert(texts_view(all@).take(i + 1).drop_last() =~= texts_view(all@).take(i as int));
                assert(texts_view(all@).take(i + 1).last() == all@[i as int]@);
            }
            if text_contains(lower.as_str(), wanted.as_str()) {
                let ghost before = texts_view(kept@);
                let copy: String = all[i].clone();
                kept.push(copy);
                assert(texts_view(kept@) =~= before.push(copy@));
            }
            i += 1;
        }
        assert(texts_view(all@).take(all@.len() as int) =~= texts_view(all@));
        unique(kept)
    }

    /// The last word that starts before a character; the empty text where there is none.
    pub fn get_word_before_char_index(&self, char_index: CharIndex) -> (r: Result<String, EditorError>)
        ensures
            match r {
                Ok(w) => char_index.0 <= self@.text.len() && w@ == word_before(
                    self@.text,
                    byte_offset(self@.text, char_index.0 as int) as usize,
                ),
                Err(e) => char_index.0 > self@.text.len() && e == EditorError::OutOfBounds,
            },
    {
        let cursor: usize = match self.char_to_byte(char_index) {
            Ok(b) => b,
            Err(e) => {
                return Err(e);
            },
        };
        let len: usize = self.len_bytes();
        let text: String = self.content();
        let ranges: Vec<ByteRange> = match find_ranges("\\b\\w+", text.as_str(), len) {
            Ok(r) => r,
            Err(_) => Vec::new(),
        };
        match previous_index(&ranges, cursor) {
            Some(i) => Ok(self.byte_range_text(ranges[i])),
            None => Ok(String::new()),
        }
    }

    /// Marks the ranges that are not marked, and takes the mark off those that are.
    pub fn save_bookmarks(&mut self, ranges: Vec<CharIndexRange>)
        ensures
            final(self)@ == (BufferView {
                bookmarks: toggled(old(self)@.bookmarks, ranges@),
                ..old(self)@
            }),
            final(self).wf() == old(self).wf(),
    {
        let ghost old_marks = self.bookmarks@;
        let mut marks: Vec<CharIndexRange> = Vec::new();
        let mut i: usize = 0;
        while i < self.bookmarks.len()
            invariant
                i <= self.bookmarks.len(),
                *self == *old(self),
                old_marks == self.bookmarks@,
                marks@ == without(old_marks, ranges@, i as int),
            decreases self.bookmarks.len() - i,
        {
            let r: CharIndexRange = self.bookmarks[i];
            if !has_range(&ranges, r, ranges.len()) {
                marks.push(r);
            }
            i += 1;
        }
        let mut j: usize = 0;
        while j < ranges.len()
            invariant
                j <= ranges.len(),
                *self == *old(self),
                old_marks == self.bookmarks@,
                marks@ == without(old_marks, ranges@, old_marks.len() as int) + fresh(
                    ranges@,
                    old_marks,
                    j as int,
                ),
            decreases ranges.len() - j,
        {
            let r: CharIndexRange = ranges[j];
            if !has_range(&self.bookmarks, r, self.bookmarks.len()) && !has_range(&ranges, r, j) {
                let ghost before = fresh(ranges@, old_marks, j as int);
                marks.push(r);
                assert(marks@ =~= without(old_marks, ranges@, old_marks.len() as int) + before.push(
                    r,
                ));
            }
            j += 1;
        }
        self.bookmarks = marks;
    }

    /// Replaces the diagnostics: they are put in the order of the positions at which they
    /// start, and each gets the range of characters that its positions stand for in the text
    /// as it is.
    pub fn set_diagnostics(&mut self, diagnostics: Vec<Diagnostic>)
        requires
            old(self).wf(),
        ensures
            final(self).wf(),
            final(self)@ == (BufferView {
                diagnostics: sorted_diagnostics(diagnostics_view(diagnostics@)),
                diagnostic_ranges: anchored(
                    old(self)@.text,
                    sorted_diagnostics(diagnostics_view(diagnostics@)),
                ),
                ..old(self)@
            }),
    {
        let ghost views = diagnostics_view(diagnostics@);
        let mut keys: Vec<(usize, usize)> = Vec::new();
        let mut i: usize = 0;
        while i < diagnostics.len()
            invariant
                i <= diagnostics.len(),
                keys@.len() == i,
                forall|k: int|
                    0 <= k < i ==> keys@[k] == (
                        diagnostics@[k].range.start.line,
                        diagnostics@[k].range.start.column,
                    ),
            decreases diagnostics.len() - i,
        {
            keys.push((diagnostics[i].range.start.line, diagnostics[i].range.start.column));
            i += 1;
        }
        assert(keys@ =~= position_keys(views));
        let order: Vec<usize> = sort_indices(&keys);
        let mut sorted: Vec<Diagnostic> = Vec::new();
        let mut ranges: Vec<CharIndexRange> = Vec::new();
        let len: usize = self.len_chars();
        let mut k: usize = 0;
        while k < order.len()
            invariant
                k <= order.len(),
                *self == *old(self),
                len == self@.text.len(),
                views == diagnostics_view(diagnostics@),
                order@.len() == diagnostics@.len(),
                order@ == order_by_key(position_keys(views), views.len() as int),
                forall|x: int| 0 <= x < order@.len() ==> 0 <= #[trigger] order@[x] < diagnostics@.len(),
                sorted@.len() == k,
                ranges@.len() == k,
                forall|x: int| 0 <= x < k ==> sorted@[x]@ == views[order@[x] as int],
                forall|x: int|
                    0 <= x < k ==> ranges@[x] == anchor(self@.text, views[order@[x] as int].range),
            decreases order.len() - k,
        {
            let d: &Diagnostic = &diagnostics[order[k]];
            assert(d@ == views[order@[k as int] as int]);
            let range: CharIndexRange = match (
                self.position_to_char(d.range.start),
                self.position_to_char(d.range.end),
            ) {
                (Ok(start), Ok(end)) => CharIndexRange { start, end },
                _ => CharIndexRange { start: CharIndex(len), end: CharIndex(len) },
            };
            sorted.push(d.duplicate());
            ranges.push(range);
            k += 1;
        }
        proof {
            assert(diagnostics_view(sorted@) =~= sorted_diagnostics(views));
            assert(ranges@ =~= anchored(self@.text, sorted_diagnostics(views)));
        }
        self.diagnostics = sorted;
        self.diagnostic_ranges = ranges;
    }

    /// The first diagnostic whose range, as the edits have moved it, is `range`.
    pub fn find_diagnostic(&self, range: &CharIndexRange) -> (r: Option<&Diagnostic>)
        requires
            self.wf(),
        ensures
            match r {
                Some(d) => first_from(
                    self@.diagnostic_ranges.len() as int,
                    |i: int| self@.diagnostic_ranges[i] == *range,
                    0,
                ).is_some() && d@ == self@.diagnostics[first_from(
                    self@.diagnostic_ranges.len() as int,
                    |i: int| self@.diagnostic_ranges[i] == *range,
                    0,
                ).unwrap()],
                None => first_from(
                    self@.diagnostic_ranges.len() as int,
                    |i: int| self@.diagnostic_ranges[i] == *range,
                    0,
                ).is_none(),
            },
    {
        let ghost wanted = |i: int| self@.diagnostic_ranges[i] == *range;
        let n: usize = self.diagnostic_ranges.len();
        let mut i: usize = 0;
        while i < n
            invariant
                i <= n,
                n == self.diagnostic_ranges@.len(),
                n == self.diagnostics@.len(),
                wanted == (|i: int| self@.diagnostic_ranges[i] == *range),
                first_from(n as int, wanted, i as int) == first_from(n as int, wanted, 0),
            decreases n - i,
        {
            if self.diagnostic_ranges[i] == *range {
                assert(wanted(i as int));
                return Some(&self.diagnostics[i]);
            }
            assert(!wanted(i as int));
            i += 1;
        }
        None
    }

    /// The first node, parents before children, that starts at or after a character.
    pub fn get_nearest_node_after_char(&self, char_index: CharIndex) -> (r: Option<SyntaxNode>)
        ensures
            r == (if char_index.0 > self@.text.len() {
                None
            } else {
                match self@.tree {
                    Some(nodes) => node_at(
                        nodes,
                        first_starting_at(nodes, byte_offset(self@.text, char_index.0 as int) as usize),
                    ),
                    None => None,
                }
            }),
    {
        let byte: usize = match self.char_to_byte(char_index) {
            Ok(b) => b,
            Err(_) => {
                return None;
            },
        };
        match self.tree() {
            Some(tree) => match tree.first_starting_at(byte) {
                Some(i) => Some(tree.node(i)),
                None => None,
            },
            None => None,
        }
    }

    /// The first node without children that ends after a character; only named nodes count
    /// where `is_named` is set.
    pub fn get_next_token(&self, char_index: CharIndex, is_named: bool) -> (r: Option<SyntaxNode>)
        ensures
            r == (if char_index.0 > self@.text.len() {
                None
            } else {
                match self@.tree {
                    Some(nodes) => node_at(
                        nodes,
                        next_token(
                            nodes,
                            byte_offset(self@.text, char_index.0 as int) as usize,
                            is_named,
                        ),
                    ),
                    None => None,
                }
            }),
    {
        let byte: usize = match self.char_to_byte(char_index) {
            Ok(b) => b,
            Err(_) => {
                return None;
            },
        };
        match self.tree() {
            Some(tree) => match tree.next_token(byte, is_named) {
                Some(i) => Some(tree.node(i)),
                None => None,
            },
            None => None,
        }
    }

    /// The last node without children that stands before the first node starting at or after
    /// a character; only named nodes count where `is_named` is set.
    pub fn get_prev_token(&self, char_index: CharIndex, is_named: bool) -> (r: Option<SyntaxNode>)
        ensures
            r == (if char_index.0 > self@.text.len() {
                None
            } else {
                match self@.tree {
                    Some(nodes) => node_at(
                        nodes,
                        prev_token(
                            nodes,
                            byte_offset(self@.text, char_index.0 as int) as usize,
                            is_named,
                        ),
                    ),
                    None => None,
                }
            }),
    {
        let byte: usize = match self.char_to_byte(char_index) {
            Ok(b) => b,
            Err(_) => {
                return None;
            },
        };
        match self.tree() {
            Some(tree) => match tree.prev_token(byte, is_named) {
                Some(i) => Some(tree.node(i)),
                None => None,
            },
            None => None,
        }
    }

    /// The character index of a position; `None` where its line lies beyond the last line.
    pub fn try_position_to_char_index(&self, position: Position) -> (r: Option<CharIndex>)
        ensures
            match r {
                Some(c) => position.line <= line_count(self@.text) && c.0 == char_of_position(
                    self@.text,
                    position,
                ),
                None => position.line > line_count(self@.text),
            },
    {
        match self.position_to_char(position) {
            Ok(c) => Some(c),
            Err(_) => None,
        }
    }

    /// The character at a position; `None` where the position lies beyond the text.
    pub fn get_char_at_position(&self, position: Position) -> (r: Option<char>)
        ensures
            match r {
                Some(c) => position.line <= line_count(self@.text) && char_of_position(
                    self@.text,
                    position,
                ) < self@.text.len() && c == self@.text[char_of_position(self@.text, position)],
                None => position.line > line_count(self@.text) || char_of_position(
                    self@.text,
                    position,
                ) >= self@.text.len(),
            },
    {
        let index: CharIndex = match self.position_to_char(position) {
            Ok(c) => c,
            Err(_) => {
                return None;
            },
        };
        if index.0 >= self.len_chars() {
            return None;
        }
        let one: String = rope_slice(&self.rope, index.0, index.0 + 1);
        let chars: Vec<char> = str_chars(one.as_str());
        assert(chars@[0] == self@.text[index.0 as int]);
        Some(chars[0])
    }

    /// Whether the position at which a range ends lies within the text.
    pub fn contains_position_range(&self, range: &PositionRange) -> (b: bool)
        ensures
            b == (range.end.line <= line_count(self@.text) && char_of_position(
                self@.text,
                range.end,
            ) < self@.text.len()),
    {
        match self.position_to_char(range.end) {
            Ok(end) => end.0 < self.len_chars(),
            Err(_) => false,
        }
    }

    /// The line that holds a character, with its line feed.
    pub fn get_line(&self, char_index: CharIndex) -> (r: Result<String, EditorError>)
        ensures
            match r {
                Ok(s) => char_index.0 <= self@.text.len() && s@ == self@.text.subrange(
                    line_range_of_char(self@.text, char_index.0 as int).start.0 as int,
                    line_range_of_char(self@.text, char_index.0 as int).end.0 as int,
                ),
                Err(e) => char_index.0 > self@.text.len() && e == EditorError::OutOfBounds,
            },
    {
        self.get_line_by_char_index(char_index)
    }

    /// The byte offset at which a line begins.
    pub fn line_to_byte(&self, line_index: usize) -> (r: Result<usize, EditorError>)
        ensures
            match r {
                Ok(b) => line_index <= line_count(self@.text) && b == byte_offset(
                    self@.text,
                    line_start(self@.text, line_index as int),
                ),
                Err(e) => line_index > line_count(self@.text) && e == EditorError::OutOfBounds,
            },
    {
        match self.line_to_char(line_index) {
            Ok(c) => self.char_to_byte(c),
            Err(e) => Err(e),
        }
    }

    /// The line and column of the character that a byte belongs to.
    pub fn byte_to_position(&self, byte_index: usize) -> (r: Result<Position, EditorError>)
        ensures
            match r {
                Ok(p) => byte_index <= byte_len(self@.text) && p == position_of_char(
                    self@.text,
                    char_of_byte(self@.text, byte_index as int),
                ),
                Err(e) => byte_index > byte_len(self@.text) && e == EditorError::OutOfBounds,
            },
    {
        match self.byte_to_char(byte_index) {
            Ok(c) => self.char_to_position(c),
            Err(e) => Err(e),
        }
    }

    /// Whether the text may be handed to a formatter: the buffer has a syntax tree, and the
    /// tree holds no error.
    pub fn can_be_formatted(&self) -> (b: bool)
        requires
            self.wf(),
        ensures
            b == (match self@.tree {
                Some(nodes) => !nodes[0].has_error,
                None => false,
            }),
    {
        match self.tree() {
            Some(tree) => {
                proof {
                    tree.lemma_wf();
                }
                !tree.node(0).has_error
            },
            None => false,
        }
    }

    /// Takes what a formatter has made of the text: the text is replaced, the way back is put
    /// on the undo stack, as for an edit, and what is laid over the text moves with the change.
    /// Where the formatter has failed, the buffer stays as it is. The text to be written to the
    /// file is handed back.
    pub fn apply_formatted(
        &mut self,
        formatted: Result<String, String>,
        current_selection_set: SelectionSet,
    ) -> (content: String)
        requires
            old(self).wf(),
        ensures
            final(self).wf(),
            content@ == final(self)@.text,
            match formatted {
                Ok(text) => is_edit_step(old(self)@, final(self)@, text@, current_selection_set@)
                    && final(self)@ == (BufferView {
                    text: final(self)@.text,
                    tree: tree_of(old(self)@.language, final(self)@.text),
                    undo: final(self)@.undo,
                    redo: final(self)@.redo,
                    bookmarks: followed(old(self)@.bookmarks, old(self)@.text, text@),
                    diagnostic_ranges: followed(
                        old(self)@.diagnostic_ranges,
                        old(self)@.text,
                        text@,
                    ),
                    decorations: moved_decorations(
                        old(self)@.decorations,
                        replaced(old(self)@.text, text@),
                    ),
                    highlighted_spans: moved_spans(
                        old(self)@.text,
                        text@,
                        old(self)@.highlighted_spans,
                        replaced(old(self)@.text, text@),
                    ),
                    ..old(self)@
                }),
                Err(_) => final(self)@ == old(self)@,
            },
    {
        match formatted {
            Ok(text) => {
                let before: String = self.content();
                self.rope = rope_from_str(text.as_str());
                if before != text {
                    self.redo_patches = Vec::new();
                    let patch: String = create_patch(text.as_str(), before.as_str());
                    let ghost stack = patches_view(self.undo_patches@);
                    let entry = Patch { selection_set: current_selection_set, patch };
                    self.undo_patches.push(entry);
                    assert(patches_view(self.undo_patches@) =~= stack.push(entry@));
                }
                self.follow(before.as_str(), text.as_str());
                self.reparse();
                text
            },
            Err(_) => self.content(),
        }
    }

    /// The number of characters.
    pub fn len_chars(&self) -> (n: usize)
        ensures
            n == self.text().len(),
    {
        rope_len_chars(&self.rope)
    }

    /// The number of lines; a text that ends with a line feed has an empty last line.
    pub fn len_lines(&self) -> (n: usize)
        ensures
            n == line_count(self.text()),
    {
        rope_len_lines(&self.rope)
    }

    /// The byte offset at which a character begins.
    pub fn char_to_byte(&self, char_index: CharIndex) -> (r: Result<usize, EditorError>)
        ensures
            match r {
                Ok(b) => char_index.0 <= self.text().len() && b == byte_offset(
                    self.text(),
                    char_index.0 as int,
                ),
                Err(e) => char_index.0 > self.text().len() && e == EditorError::OutOfBounds,
            },
    {
        match rope_char_to_byte(&self.rope, char_index.0) {
            Some(b) => Ok(b),
            None => Err(EditorError::OutOfBounds),
        }
    }

    /// The index of the character that a byte belongs to.
    pub fn byte_to_char(&self, byte_index: usize) -> (r: Result<CharIndex, EditorError>)
        ensures
            match r {
                Ok(c) => byte_index <= byte_len(self.text()) && c.0 == char_of_byte(
                    self.text(),
                    byte_index as int,
                ) && c.0 <= self.text().len(),
                Err(e) => byte_index > byte_len(self.text()) && e == EditorError::OutOfBounds,
            },
    {
        match rope_byte_to_char(&self.rope, byte_index) {
            Some(c) => {
                proof {
                    lemma_char_of_byte(self.text(), byte_index as int);
                    lemma_char_of_byte_unique(
                        self.text(),
                        byte_index as int,
                        c as int,
                        char_of_byte(self.text(), byte_index as int),
                    );
                }
                Ok(CharIndex(c))
            },
            None => Err(EditorError::OutOfBounds),
        }
    }

    /// The line that holds a character: the number of line feeds before it.
    pub fn char_to_line(&self, char_index: CharIndex) -> (r: Result<usize, EditorError>)
        ensures
            match r {
                Ok(l) => char_index.0 <= self.text().len() && l == newlines_before(
                    self.text(),
                    char_index.0 as int,
                ) && l < line_count(self.text()),
                Err(e) => char_index.0 > self.text().len() && e == EditorError::OutOfBounds,
            },
    {
        match rope_char_to_line(&self.rope, char_index.0) {
            Some(l) => {
                proof {
                    lemma_line_of_char(self.text(), char_index.0 as int);
                }
                Ok(l)
            },
            None => Err(EditorError::OutOfBounds),
        }
    }

    /// The first character of a line. The line index one past the last line gives the length of
    /// the text.
    pub fn line_to_char(&self, line_index: usize) -> (r: Result<CharIndex, EditorError>)
        ensures
            match r {
                Ok(s) => line_index <= line_count(self.text()) && s.0 == line_start(
                    self.text(),
                    line_index as int,
                ) && s.0 <= self.text().len(),
                Err(e) => line_index > line_count(self.text()) && e == EditorError::OutOfBounds,
            },
    {
        match rope_line_to_char(&self.rope, line_index) {
            Some(s) => {
                proof {
                    if line_index < line_count(self.text()) {
                        lemma_line_start(self.text(), line_index as int);
                        lemma_line_start_unique(
                            self.text(),
                            line_index as int,
                            s as int,
                            line_start(self.text(), line_index as int),
                        );
                    }
                }
                Ok(CharIndex(s))
            },
            None => Err(EditorError::OutOfBounds),
        }
    }

    /// The number of characters of a line without its line feed; zero beyond the last line.
    pub fn line_len(&self, line_index: usize) -> (n: usize)
        ensures
            n == line_content_len(self.text(), line_index as int),
    {
        let lines: usize = self.len_lines();
        if line_index >= lines {
            return 0;
        }
        let start: usize = match rope_line_to_char(&self.rope, line_index) {
            Some(s) => s,
            None => 0,
        };
        proof {
            lemma_line_start(self.text(), line_index as int);
            lemma_line_start_unique(
                self.text(),
                line_index as int,
                start as int,
                line_start(self.text(), line_index as int),
            );
        }
        if line_index + 1 < lines {
            let next: usize = match rope_line_to_char(&self.rope, line_index + 1) {
                Some(s) => s,
                None => 0,
            };
            proof {
                lemma_line_start(self.text(), line_index + 1);
                lemma_line_start_unique(
                    self.text(),
                    line_index + 1,
                    next as int,
                    line_start(self.text(), line_index + 1),
                );
                if next <= start {
                    lemma_newlines_monotonic(self.text(), next as int, start as int);
                }
            }
            next - start - 1
        } else {
            self.len_chars() - start
        }
    }

    /// The line and column of a character.
    pub fn char_to_position(&self, char_index: CharIndex) -> (r: Result<Position, EditorError>)
        ensures
            match r {
                Ok(p) => char_index.0 <= self.text().len() && p == position_of_char(
                    self.text(),
                    char_index.0 as int,
                ),
                Err(e) => char_index.0 > self.text().len() && e == EditorError::OutOfBounds,
            },
    {
        let line: usize = match self.char_to_line(char_index) {
            Ok(l) => l,
            Err(e) => { return Err(e); },
        };
        let start: CharIndex = match self.line_to_char(line) {
            Ok(s) => s,
            Err(e) => { return Err(e); },
        };
        proof {
            lemma_line_of_char(self.text(), char_index.0 as int);
        }
        Ok(Position { line, column: char_index.0 - start.0 })
    }

    /// The character at a line and column. A column beyond the end of its line counts as that
    /// end. The line index one past the last line gives the length of the text.
    pub fn position_to_char(&self, position: Position) -> (r: Result<CharIndex, EditorError>)
        ensures
            match r {
                Ok(c) => position.line <= line_count(self.text()) && c.0 == char_of_position(
                    self.text(),
                    position,
                ) && c.0 <= self.text().len(),
                Err(e) => position.line > line_count(self.text()) && e == EditorError::OutOfBounds,
            },
    {
        let start: CharIndex = match self.line_to_char(position.line) {
            Ok(s) => s,
            Err(e) => { return Err(e); },
        };
        let len: usize = self.line_len(position.line);
        let total: usize = self.len_chars();
        proof {
            lemma_line_content_within(self.text(), position.line as int);
        }
        let column: usize = if position.column <= len { position.column } else { len };
        Ok(CharIndex(start.0 + column))
    }
}

/// A line's content ends within the text.
pub proof fn lemma_line_content_within(text: Seq<char>, l: int)
    requires
        0 <= l,
    ensures
        0 <= line_content_len(text, l),
        0 <= line_start(text, l),
        line_start(text, l) + line_content_len(text, l) <= text.len(),
{
    if l < line_count(text) {
        lemma_line_start(text, l);
        if l + 1 < line_count(text) {
            lemma_line_start(text, l + 1);
            let s = line_start(text, l);
            let s2 = line_start(text, l + 1);
            if s2 <= s {
                lemma_newlines_monotonic(text, s2, s);
            }
        }
    }
}

/// Converting a character index to its byte offset and back gives the index again.
pub proof fn lemma_byte_char_round_trip(text: Seq<char>, c: int)
    requires
        0 <= c <= text.len(),
    ensures
        char_of_byte(text, byte_offset(text, c) as int) == c,
{
    let b = byte_offset(text, c) as int;
    lemma_byte_offset_monotonic(text, c, text.len() as int);
    lemma_char_of_byte(text, b);
    lemma_char_of_byte_unique(text, b, c, char_of_byte(text, b));
}

/// Converting a character index to its line and column and back gives the index again.
pub proof fn lemma_position_round_trip(text: Seq<char>, c: int)
    requires
        0 <= c <= text.len() <= usize::MAX,
    ensures
        char_of_position(text, position_of_char(text, c)) == c,
{
    lemma_line_of_char(text, c);
    lemma_newlines_monotonic(text, 0, c);
    assert(newlines_before(text, 0) == 0);
}

/// What `undo` and `redo` hand back, with the selections as views.
pub open spec fn result_view(r: Result<Option<SelectionSet>, EditorError>) -> Result<
    Option<SelectionSetView>,
    EditorError,
> {
    match r {
        Ok(Some(s)) => Ok(Some(s@)),
        Ok(None) => Ok(None),
        Err(e) => Err(e),
    }
}

/// Once an edit is refused, the refusal stays as more actions follow.
proof fn lemma_text_after_err(text: Seq<char>, actions: Seq<ActionView>, i: int, j: int)
    requires
        0 <= i <= j,
        text_after(text, actions, i).is_err(),
    ensures
        text_after(text, actions, j) == text_after(text, actions, i),
    decreases j - i,
{
    if i < j {
        lemma_text_after_err(text, actions, i, j - 1);
    }
}

/// The selections that a transaction names, brought within a text of `len` characters; the
/// current ones where it names none.
fn pick_selections(current: &SelectionSet, transaction: &EditTransaction, len: usize) -> (r:
    SelectionSet)
    ensures
        r@ == selection_set_after(current@, transaction@.0, transaction@.1, len),
{
    let ghost views = transaction@.0;
    let mut picked: Vec<Selection> = Vec::new();
    let mut j: usize = 0;
    while j < transaction.actions.len()
        invariant
            j <= transaction.actions.len(),
            views == actions_view(transaction.actions@),
            picked@.len() == selections_upto(views, j as int).len(),
            forall|k: int|
                0 <= k < picked@.len() ==> picked@[k]@ == selections_upto(views, j as int)[k].clamp(
                    CharIndex(len),
                ),
        decreases transaction.actions.len() - j,
    {
        if let Action::Select(s) = &transaction.actions[j] {
            picked.push(s.clamp(CharIndex(len)));
        }
        j += 1;
    }
    if picked.len() == 0 {
        return current.duplicate();
    }
    let p: usize = if transaction.primary < picked.len() {
        transaction.primary
    } else {
        0
    };
    let ghost all = views_of(picked@);
    let primary: Selection = picked.remove(p);
    let r = SelectionSet {
        primary,
        secondary: picked,
        mode: current.mode.duplicate(),
        filters: current.filters.duplicate(),
    };
    proof {
        let wanted = selection_set_after(current@, views, transaction@.1, len);
        assert(r@.secondary =~= all.remove(p as int));
        let chosen = selections_of(views);
        let clamped = Seq::new(chosen.len(), |i: int| chosen[i].clamp(CharIndex(len)));
        assert(all =~= clamped);
    }
    r
}

/// A stretch of the text that no edit of a list touches holds the same characters after the
/// edits, at the place that the edits before it have moved it to.
pub proof fn lemma_untouched_text_stays(
    text: Seq<char>,
    r: CharIndexRange,
    actions: Seq<ActionView>,
    n: int,
)
    requires
        0 <= n <= actions.len(),
        r.start.0 <= r.end.0 <= text.len(),
        untouched(r, actions, n),
        text_after(text, actions, n).is_ok(),
    ensures
        0 <= r.start.0 + shift_before(r, actions, n),
        r.end.0 + shift_before(r, actions, n) <= text_after(text, actions, n).unwrap().len(),
        text_after(text, actions, n).unwrap().subrange(
            r.start.0 + shift_before(r, actions, n),
            r.end.0 + shift_before(r, actions, n),
        ) == text.subrange(r.start.0 as int, r.end.0 as int),
    decreases n,
{
    if n > 0 {
        lemma_untouched_text_stays(text, r, actions, n - 1);
        let before = text_after(text, actions, n - 1).unwrap();
        let so_far = shift_before(r, actions, n - 1);
        match actions[n - 1] {
            ActionView::Edit(e) => {
                let after = edit_text(before, e);
                let now = shift_before(r, actions, n);
                assert(after.subrange(r.start.0 + now, r.end.0 + now) =~= before.subrange(
                    r.start.0 + so_far,
                    r.end.0 + so_far,
                ));
            },
            ActionView::Select(_) => {},
        }
    } else {
        assert(text.subrange(r.start.0 as int, r.end.0 as int) =~= text.subrange(
            r.start.0 + 0,
            r.end.0 + 0,
        ));
    }
}

/// After the diagnostics were set and a transaction was applied, a diagnostic that no edit of
/// the transaction touches covers the same characters as before: its range has moved by the
/// sum of the changes of length that the edits before it make.
pub proof fn lemma_untouched_diagnostic_moves(
    set: BufferView,
    edited: BufferView,
    actions: Seq<ActionView>,
    i: int,
)
    requires
        0 <= i < set.diagnostic_ranges.len(),
        edited.diagnostic_ranges == map_ranges(set.diagnostic_ranges, actions),
        text_after(set.text, actions, actions.len() as int) == Ok::<Seq<char>, EditorError>(
            edited.text,
        ),
        set.diagnostic_ranges[i].start.0 <= set.diagnostic_ranges[i].end.0 <= set.text.len(),
        untouched(set.diagnostic_ranges[i], actions, actions.len() as int),
    ensures
        ({
            let r = set.diagnostic_ranges[i];
            let k = shift_before(r, actions, actions.len() as int);
            &&& 0 <= r.start.0 + k
            &&& r.end.0 + k <= edited.text.len()
            &&& edited.diagnostic_ranges[i].start.0 == r.start.0 + k
            &&& edited.diagnostic_ranges[i].end.0 == r.end.0 + k
            &&& edited.text.subrange(r.start.0 + k, r.end.0 + k) == set.text.subrange(
                r.start.0 as int,
                r.end.0 as int,
            )
        }),
{
    let r = set.diagnostic_ranges[i];
    lemma_untouched_range_shifts(r, actions, actions.len() as int);
    lemma_untouched_text_stays(set.text, r, actions, actions.len() as int);
}

} // verus!
