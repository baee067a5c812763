use vstd::prelude::*;
use vstd::string::StringExecFns;
use crate::app::{Dispatch, GlobalMode};
use crate::buffer::{
    Buffer, BufferView, chars_of_bytes, is_redo_step, is_undo_step, range_is_node, result_view,
    toggled,
};
use crate::char_index::{ByteRange, CharIndex, CharIndexRange, Position};
use crate::components::editing::is_did_change;
use crate::components::editor::{
    Direction, DispatchEditor, Editor, EditorView, Mode, Movement, normal, scrolled,
};
use crate::components::structural::{Transform, transformed};
use crate::context::Context;
use crate::diagnostic::PositionRange;
use crate::error::EditorError;
use crate::list::grep::GrepConfig;
use crate::selection::{
    FilterView, Filters, Search, Selection, SelectionMode, SelectionModeView, SelectionSet,
    SelectionSetView, SelectionView, views_of,
};
use crate::selection_mode::{candidates, first_from, get_candidates, get_selection, moved_selection};
use crate::buffer::bytes_of_char_range;
use crate::text::line_count;
use crate::buffer::char_of_position;

verus! {

/// The selections after each has made a movement in a mode, which becomes the mode of the
/// set; the first refusal, going from the primary selection through the others.
pub open spec fn generated_upto(
    b: BufferView,
    selections: Seq<SelectionView>,
    mode: SelectionModeView,
    movement: Movement,
    filters: Seq<FilterView>,
    n: int,
) -> Result<Seq<SelectionView>, EditorError>
    decreases n,
{
    if n <= 0 {
        Ok(Seq::empty())
    } else {
        match generated_upto(b, selections, mode, movement, filters, n - 1) {
            Err(e) => Err(e),
            Ok(moved) => match moved_selection(b, selections[n - 1], mode, movement, filters) {
                Ok(s) => Ok(moved.push(s)),
                Err(e) => Err(e),
            },
        }
    }
}

/// The set of selections after each has made a movement in a mode.
pub open spec fn generated(
    b: BufferView,
    set: SelectionSetView,
    mode: SelectionModeView,
    movement: Movement,
) -> Result<SelectionSetView, EditorError> {
    match generated_upto(b, set.all(), mode, movement, set.filters, set.all().len() as int) {
        Ok(moved) => Ok(
            SelectionSetView { primary: moved[0], secondary: moved.skip(1), mode, filters: set.filters },
        ),
        Err(e) => Err(e),
    }
}

/// An editor after its selections were replaced: the cursor is at the start, and the view has
/// followed it.
pub open spec fn reselected(v: EditorView, set: SelectionSetView) -> EditorView {
    scrolled(EditorView { selection_set: set, cursor_direction: Direction::Start, ..v })
}

/// The movement that selecting in a mode makes: to the element under the cursor where the mode
/// is new, else the movement asked for.
pub open spec fn effective_movement(
    current: SelectionModeView,
    mode: SelectionModeView,
    movement: Movement,
) -> Movement {
    if current != mode {
        Movement::Current
    } else {
        movement
    }
}

/// Once a selection cannot make its movement, the refusal stays as more selections follow.
proof fn lemma_generated_err(
    b: BufferView,
    selections: Seq<SelectionView>,
    mode: SelectionModeView,
    movement: Movement,
    filters: Seq<FilterView>,
    i: int,
    j: int,
)
    requires
        0 <= i <= j,
        generated_upto(b, selections, mode, movement, filters, i).is_err(),
    ensures
        generated_upto(b, selections, mode, movement, filters, j) == generated_upto(
            b,
            selections,
            mode,
            movement,
            filters,
            i,
        ),
    decreases j - i,
{
    if i < j {
        lemma_generated_err(b, selections, mode, movement, filters, i, j - 1);
    }
}

/// The search for a text taken as written, whatever its case.
pub open spec fn literal_search(search: Seq<char>) -> SelectionModeView {
    SelectionModeView::Find {
        search,
        config: GrepConfig { escaped: true, case_sensitive: false, match_whole_word: false },
    }
}

impl Editor {
    /// Replaces the selections; the cursor goes to the start, and the view follows it.
    pub fn update_selection_set(&mut self, selection_set: SelectionSet)
        ensures
            final(self)@ == reselected(old(self)@, selection_set@),
            final(self).buffer == old(self).buffer,
    {
        self.selection_set = selection_set;
        self.cursor_direction = Direction::Start;
        self.recalculate_scroll_offset();
    }

    /// The selections after each has made a movement in a mode.
    pub fn get_selection_set(&self, mode: &SelectionMode, movement: Movement) -> (r: Result<
        SelectionSet,
        EditorError,
    >)
        requires
            self.wf(),
        ensures
            match generated(self@.buffer, self@.selection_set, mode@, movement) {
                Ok(set) => r.is_ok() && r.unwrap()@ == set,
                Err(e) => r.is_err() && r.unwrap_err() == e,
            },
    {
        let selections: Vec<Selection> = self.selection_set.selections();
        let ghost all = self@.selection_set.all();
        let mut moved: Vec<Selection> = Vec::new();
        let mut i: usize = 0;
        assert(views_of(moved@) =~= Seq::<SelectionView>::empty());
        while i < selections.len()
            invariant
                i <= selections.len(),
                self.wf(),
                all == views_of(selections@),
                all == self@.selection_set.all(),
                all.len() == selections@.len(),
                generated_upto(
                    self@.buffer,
                    all,
                    mode@,
                    movement,
                    self@.selection_set.filters,
                    i as int,
                ) == Ok::<
                    Seq<SelectionView>,
                    EditorError,
                >(views_of(moved@)),
            decreases selections.len() - i,
        {
            assert(all[i as int] == selections@[i as int]@);
            match get_selection(
                &self.buffer,
                &selections[i],
                mode,
                &movement,
                &self.selection_set.filters,
            ) {
                Ok(s) => {
                    let ghost before = views_of(moved@);
                    moved.push(s);
                    assert(views_of(moved@) =~= before.push(s@));
                },
                Err(e) => {
                    proof {
                        assert(generated_upto(
                            self@.buffer,
                            all,
                            mode@,
                            movement,
                            self@.selection_set.filters,
                            i + 1,
                        ) == Err::<Seq<SelectionView>, EditorError>(e));
                        lemma_generated_err(
                            self@.buffer,
                            all,
                            mode@,
                            movement,
                            self@.selection_set.filters,
                            i + 1,
                            all.len() as int,
                        );
                    }
                    return Err(e);
                },
            }
            i += 1;
        }
        let ghost views = views_of(moved@);
        proof {
            lemma_generated_len(
                self@.buffer,
                all,
                mode@,
                movement,
                self@.selection_set.filters,
                all.len() as int,
            );
        }
        let primary: Selection = moved.remove(0);
        let set = SelectionSet {
            primary,
            secondary: moved,
            mode: mode.duplicate(),
            filters: self.selection_set.filters.duplicate(),
        };
        assert(set@.secondary =~= views.skip(1));
        Ok(set)
    }

    /// Selects in a mode: every selection goes to the element under its cursor where the mode
    /// is new, else makes the movement.
    pub fn select(&mut self, selection_mode: SelectionMode, movement: Movement) -> (r: Result<
        Vec<Dispatch>,
        EditorError,
    >)
        requires
            old(self).wf(),
        ensures
            final(self).wf(),
            match generated(
                old(self)@.buffer,
                old(self)@.selection_set,
                selection_mode@,
                effective_movement(old(self)@.selection_set.mode, selection_mode@, movement),
            ) {
                Ok(set) => r.is_ok() && r.unwrap()@.len() == 0 && final(self)@ == reselected(
                    old(self)@,
                    set,
                ),
                Err(e) => r.is_err() && r.unwrap_err() == e && final(self)@ == old(self)@,
            },
    {
        let movement: Movement = if !self.selection_set.mode.same(&selection_mode) {
            Movement::Current
        } else {
            movement
        };
        let set: SelectionSet = match self.get_selection_set(&selection_mode, movement) {
            Ok(s) => s,
            Err(e) => {
                return Err(e);
            },
        };
        self.update_selection_set(set);
        Ok(Vec::new())
    }

    /// Goes over to a mode, every selection to the element under its cursor, and leaves the
    /// global mode.
    pub fn set_selection_mode(&mut self, selection_mode: SelectionMode) -> (r: Result<
        Vec<Dispatch>,
        EditorError,
    >)
        requires
            old(self).wf(),
        ensures
            final(self).wf(),
            match generated(
                old(self)@.buffer,
                old(self)@.selection_set,
                selection_mode@,
                Movement::Current,
            ) {
                Ok(set) => r.is_ok() && r.unwrap()@ == seq![Dispatch::SetGlobalMode(None)]
                    && final(self)@ == (EditorView {
                    current_view_alignment: None,
                    ..reselected(old(self)@, set)
                }),
                Err(e) => r.is_err() && r.unwrap_err() == e && final(self)@ == old(self)@,
            },
    {
        let set: SelectionSet = match self.get_selection_set(&selection_mode, Movement::Current) {
            Ok(s) => s,
            Err(e) => {
                return Err(e);
            },
        };
        self.update_selection_set(set);
        self.current_view_alignment = None;
        let mut dispatches: Vec<Dispatch> = Vec::new();
        dispatches.push(Dispatch::SetGlobalMode(None));
        Ok(dispatches)
    }

    /// Selects the matches of a text taken as written, whatever its case.
    pub fn match_literal(&mut self, search: &str) -> (r: Result<Vec<Dispatch>, EditorError>)
        requires
            old(self).wf(),
        ensures
            final(self).wf(),
            match generated(
                old(self)@.buffer,
                old(self)@.selection_set,
                literal_search(search@),
                Movement::Current,
            ) {
                Ok(set) => r.is_ok() && r.unwrap()@ == seq![Dispatch::SetGlobalMode(None)]
                    && final(self)@ == (EditorView {
                    current_view_alignment: None,
                    ..reselected(old(self)@, set)
                }),
                Err(e) => r.is_err() && r.unwrap_err() == e && final(self)@ == old(self)@,
            },
    {
        self.set_selection_mode(
            SelectionMode::Find {
                search: Search {
                    search: String::from_str(search),
                    config: GrepConfig {
                        escaped: true,
                        case_sensitive: false,
                        match_whole_word: false,
                    },
                },
            },
        )
    }

    /// Selects by trimmed lines.
    pub fn select_line(&mut self, movement: Movement) -> (r: Result<Vec<Dispatch>, EditorError>)
        requires
            old(self).wf(),
        ensures
            final(self).wf(),
            match generated(
                old(self)@.buffer,
                old(self)@.selection_set,
                SelectionModeView::LineTrimmed,
                effective_movement(
                    old(self)@.selection_set.mode,
                    SelectionModeView::LineTrimmed,
                    movement,
                ),
            ) {
                Ok(set) => r.is_ok() && r.unwrap()@.len() == 0 && final(self)@ == reselected(
                    old(self)@,
                    set,
                ),
                Err(e) => r.is_err() && r.unwrap_err() == e && final(self)@ == old(self)@,
            },
    {
        self.select(SelectionMode::LineTrimmed, movement)
    }

    /// Puts the one selection on a whole line, its line feed included, in the mode of trimmed
    /// lines. Refused where the line lies beyond the text.
    pub fn select_line_at(&mut self, line: usize) -> (r: Result<Vec<Dispatch>, EditorError>)
        requires
            old(self).wf(),
        ensures
            final(self).wf(),
            if line < usize::MAX && line + 1 <= line_count(old(self)@.buffer.text) {
                r.is_ok() && r.unwrap()@.len() == 0 && final(self)@ == reselected(
                    old(self)@,
                    SelectionSetView {
                        primary: SelectionView::of_range(
                            CharIndexRange {
                                start: CharIndex(
                                    crate::text::line_start(old(self)@.buffer.text, line as int) as usize,
                                ),
                                end: CharIndex(
                                    crate::text::line_start(old(self)@.buffer.text, line + 1) as usize,
                                ),
                            },
                        ),
                        secondary: Seq::empty(),
                        mode: SelectionModeView::LineTrimmed,
                        filters: Seq::empty(),
                    },
                )
            } else {
                r.is_err() && r.unwrap_err() == EditorError::OutOfBounds && final(self)@ == old(
                    self,
                )@
            },
    {
        if line == usize::MAX {
            return Err(EditorError::OutOfBounds);
        }
        let start: CharIndex = match self.buffer.line_to_char(line) {
            Ok(s) => s,
            Err(e) => {
                return Err(e);
            },
        };
        let end: CharIndex = match self.buffer.line_to_char(line + 1) {
            Ok(s) => s,
            Err(e) => {
                return Err(e);
            },
        };
        let set = SelectionSet {
            primary: Selection::new(CharIndexRange { start, end }),
            secondary: Vec::new(),
            mode: SelectionMode::LineTrimmed,
            filters: Filters::default(),
        };
        assert(set@.secondary =~= Seq::empty());
        self.update_selection_set(set);
        Ok(Vec::new())
    }

    /// Asks to select everything: to the first element, extending, to the last.
    pub fn select_all(&self) -> (r: Vec<Dispatch>)
        ensures
            r@ == seq![
                Dispatch::ToEditor(DispatchEditor::MoveSelection(Movement::First)),
                Dispatch::ToEditor(DispatchEditor::ToggleHighlightMode),
                Dispatch::ToEditor(DispatchEditor::MoveSelection(Movement::Last)),
            ],
    {
        let mut r: Vec<Dispatch> = Vec::new();
        r.push(Dispatch::ToEditor(DispatchEditor::MoveSelection(Movement::First)));
        r.push(Dispatch::ToEditor(DispatchEditor::ToggleHighlightMode));
        r.push(Dispatch::ToEditor(DispatchEditor::MoveSelection(Movement::Last)));
        r
    }

    /// Asks to go to insert mode at the start of the line.
    pub fn move_to_line_start(&self) -> (r: Vec<Dispatch>)
        ensures
            r@ == seq![
                Dispatch::ToEditor(DispatchEditor::SelectLine(Movement::Current)),
                Dispatch::ToEditor(DispatchEditor::EnterInsertMode(Direction::Start)),
            ],
    {
        let mut r: Vec<Dispatch> = Vec::new();
        r.push(Dispatch::ToEditor(DispatchEditor::SelectLine(Movement::Current)));
        r.push(Dispatch::ToEditor(DispatchEditor::EnterInsertMode(Direction::Start)));
        r
    }

    /// Asks to go to insert mode at the end of the line.
    pub fn move_to_line_end(&self) -> (r: Vec<Dispatch>)
        ensures
            r@ == seq![
                Dispatch::ToEditor(DispatchEditor::SelectLine(Movement::Current)),
                Dispatch::ToEditor(DispatchEditor::EnterInsertMode(Direction::End)),
            ],
    {
        let mut r: Vec<Dispatch> = Vec::new();
        r.push(Dispatch::ToEditor(DispatchEditor::SelectLine(Movement::Current)));
        r.push(Dispatch::ToEditor(DispatchEditor::EnterInsertMode(Direction::End)));
        r
    }

    /// Marks the selections that are not marked, and takes the mark off those that are.
    pub fn toggle_bookmarks(&mut self)
        requires
            old(self).wf(),
        ensures
            final(self).wf(),
            final(self)@ == (EditorView {
                buffer: BufferView {
                    bookmarks: toggled(
                        old(self)@.buffer.bookmarks,
                        extended_ranges(old(self)@.selection_set.all()),
                    ),
                    ..old(self)@.buffer
                },
                ..old(self)@
            }),
    {
        let selections: Vec<Selection> = self.selection_set.selections();
        let mut ranges: Vec<CharIndexRange> = Vec::new();
        let mut i: usize = 0;
        while i < selections.len()
            invariant
                i <= selections.len(),
                ranges@.len() == i,
                forall|k: int| 0 <= k < i ==> ranges@[k] == selections@[k]@.extended_range(),
            decreases selections.len() - i,
        {
            ranges.push(selections[i].extended_range());
            i += 1;
        }
        assert(ranges@ =~= extended_ranges(views_of(selections@)));
        self.buffer.save_bookmarks(ranges);
    }

    /// Adds a cursor: the primary selection makes the movement, and where that leads
    /// elsewhere, the selection it leaves stays as one of the others. The view follows.
    pub fn add_cursor(&mut self, movement: Movement) -> (r: Result<(), EditorError>)
        requires
            old(self).wf(),
        ensures
            final(self).wf(),
            match moved_selection(
                old(self)@.buffer,
                old(self)@.selection_set.primary,
                old(self)@.selection_set.mode,
                movement,
                old(self)@.selection_set.filters,
            ) {
                Ok(next) => r.is_ok() && final(self)@ == scrolled(
                    if next.range == old(self)@.selection_set.primary.range {
                        old(self)@
                    } else {
                        EditorView {
                            selection_set: SelectionSetView {
                                primary: next,
                                secondary: old(self)@.selection_set.secondary.push(
                                    old(self)@.selection_set.primary,
                                ),
                                ..old(self)@.selection_set
                            },
                            ..old(self)@
                        }
                    },
                ),
                Err(e) => r.is_err() && r.unwrap_err() == e && final(self)@ == old(self)@,
            },
    {
        let next: Selection = match get_selection(
            &self.buffer,
            &self.selection_set.primary,
            &self.selection_set.mode,
            &movement,
            &self.selection_set.filters,
        ) {
            Ok(n) => n,
            Err(e) => {
                return Err(e);
            },
        };
        if next.range != self.selection_set.primary.range {
            let ghost others = views_of(self.selection_set.secondary@);
            let last: Selection = self.selection_set.primary.duplicate();
            self.selection_set.primary = next;
            self.selection_set.secondary.push(last);
            assert(views_of(self.selection_set.secondary@) =~= others.push(last@));
        }
        self.recalculate_scroll_offset();
        Ok(())
    }

    /// Puts a cursor on every element of the mode, each a copy of the primary selection over
    /// the range of an element, and goes to normal mode. The selections stay as they are where
    /// the mode has no element.
    pub fn add_cursor_to_all_selections(&mut self) -> (r: Result<(), EditorError>)
        requires
            old(self).wf(),
        ensures
            final(self).wf(),
            match all_elements(old(self)@) {
                Ok(set) => r.is_ok() && final(self)@ == normal(scrolled(EditorView { selection_set: set, ..old(self)@ })),
                Err(e) => r.is_err() && r.unwrap_err() == e && final(self)@ == old(self)@,
            },
    {
        let cursor: ByteRange = match self.buffer.char_index_range_to_byte_range(
            self.selection_set.primary.range,
        ) {
            Ok(c) => c,
            Err(e) => {
                return Err(e);
            },
        };
        let ranges: Vec<ByteRange> = match get_candidates(
            &self.buffer,
            &self.selection_set.mode,
            cursor,
            &self.selection_set.filters,
        ) {
            Ok(r) => r,
            Err(e) => {
                return Err(e);
            },
        };
        let mut selections: Vec<Selection> = Vec::new();
        let mut i: usize = 0;
        while i < ranges.len()
            invariant
                i <= ranges.len(),
                *self == *old(self),
                self.wf(),
                selections@.len() == i,
                forall|k: int|
                    0 <= k < ranges@.len() ==> (#[trigger] ranges@[k]).start <= crate::text::byte_len(
                        self@.buffer.text,
                    ) && ranges@[k].end <= crate::text::byte_len(self@.buffer.text),
                forall|k: int|
                    0 <= k < i ==> selections@[k]@ == (SelectionView {
                        range: chars_of_bytes(self@.buffer.text, ranges@[k]),
                        ..self@.selection_set.primary
                    }),
            decreases ranges.len() - i,
        {
            match self.buffer.byte_range_to_char_index_range(ranges[i]) {
                Ok(range) => {
                    selections.push(self.selection_set.primary.duplicate().set_range(range));
                },
                Err(e) => {
                    return Err(e);
                },
            }
            i += 1;
        }
        if selections.len() > 0 {
            let ghost views = views_of(selections@);
            let current: CharIndexRange = self.selection_set.primary.range;
            let ghost wanted = |i: int| views[i].range == current;
            let mut p: usize = 0;
            let mut found: bool = false;
            while p < selections.len() && !found
                invariant
                    p <= selections.len(),
                    views == views_of(selections@),
                    wanted == (|i: int| views[i].range == current),
                    !found ==> first_from(views.len() as int, wanted, p as int) == first_from(
                        views.len() as int,
                        wanted,
                        0,
                    ),
                    found ==> p < selections.len() && first_from(views.len() as int, wanted, 0)
                        == Some(p as int),
                decreases selections.len() - p + (if found { 0int } else { 1int }),
            {
                assert(views[p as int] == selections@[p as int]@);
                if selections[p].range == current {
                    assert(wanted(p as int));
                    found = true;
                } else {
                    assert(!wanted(p as int));
                    p += 1;
                }
            }
            if !found {
                p = 0;
            }
            let primary: Selection = selections.remove(p);
            self.selection_set.primary = primary;
            self.selection_set.secondary = selections;
            proof {
                assert(views_of(self.selection_set.secondary@) =~= views.remove(p as int));
                assert(views =~= element_selections(
                    old(self)@.buffer.text,
                    old(self)@.selection_set.primary,
                    ranges@,
                ));
            }
        }
        self.recalculate_scroll_offset();
        self.enter_normal_mode();
        Ok(())
    }

    /// Takes back the last change; the selections kept with it come back.
    pub fn undo(&mut self) -> (r: Result<Vec<Dispatch>, EditorError>)
        requires
            old(self).wf(),
        ensures
            final(self).wf(),
            exists|undone: Result<Option<SelectionSetView>, EditorError>|
                is_undo_step(
                    old(self)@.buffer,
                    final(self)@.buffer,
                    old(self)@.selection_set,
                    undone,
                ) && history_step(old(self)@, final(self)@, undone, r),
    {
        let undone = self.buffer.undo(self.selection_set.duplicate());
        let ghost witness = result_view(undone);
        let r = self.after_history(undone);
        assert(is_undo_step(old(self)@.buffer, self@.buffer, old(self)@.selection_set, witness)
            && history_step(old(self)@, self@, witness, r));
        r
    }

    /// Does again the last change taken back; the selections kept with it come back.
    pub fn redo(&mut self) -> (r: Result<Vec<Dispatch>, EditorError>)
        requires
            old(self).wf(),
        ensures
            final(self).wf(),
            exists|redone: Result<Option<SelectionSetView>, EditorError>|
                is_redo_step(
                    old(self)@.buffer,
                    final(self)@.buffer,
                    old(self)@.selection_set,
                    redone,
                ) && history_step(old(self)@, final(self)@, redone, r),
    {
        let redone = self.buffer.redo(self.selection_set.duplicate());
        let ghost witness = result_view(redone);
        let r = self.after_history(redone);
        assert(is_redo_step(old(self)@.buffer, self@.buffer, old(self)@.selection_set, witness)
            && history_step(old(self)@, self@, witness, r));
        r
    }

    /// Takes over what a step through the history of the buffer has given.
    fn after_history(&mut self, step: Result<Option<SelectionSet>, EditorError>) -> (r: Result<
        Vec<Dispatch>,
        EditorError,
    >)
        requires
            old(self).wf(),
        ensures
            final(self).wf(),
            final(self).buffer == old(self).buffer,
            history_step(
                EditorView { buffer: old(self)@.buffer, ..old(self)@ },
                final(self)@,
                result_view(step),
                r,
            ),
            forall|before: EditorView|
                #![trigger history_step(before, final(self)@, result_view(step), r)]
                before == (EditorView { buffer: before.buffer, ..old(self)@ }) ==> history_step(
                    before,
                    final(self)@,
                    result_view(step),
                    r,
                ),
    {
        match step {
            Ok(Some(set)) => {
                self.update_selection_set(set);
                Ok(self.get_document_did_change_dispatch())
            },
            Ok(None) => Ok(self.get_document_did_change_dispatch()),
            Err(e) => Err(e),
        }
    }
}

/// What an editor does with a step through the history of its buffer: where selections come
/// back with the step, they replace the current ones; the dispatch says that the text has
/// changed. A refused step is refused.
pub open spec fn history_step(
    before: EditorView,
    after: EditorView,
    step: Result<Option<SelectionSetView>, EditorError>,
    r: Result<Vec<Dispatch>, EditorError>,
) -> bool {
    match step {
        Ok(Some(set)) => r.is_ok() && after == reselected(
            EditorView { buffer: after.buffer, ..before },
            set,
        ) && is_did_change(r.unwrap()@, after),
        Ok(None) => r.is_ok() && after == (EditorView { buffer: after.buffer, ..before })
            && is_did_change(r.unwrap()@, after),
        Err(e) => r.is_err() && r.unwrap_err() == e && after == (EditorView {
            buffer: after.buffer,
            ..before
        }),
    }
}

/// The ranges that the selections cover with their anchors.
pub open spec fn extended_ranges(selections: Seq<SelectionView>) -> Seq<CharIndexRange> {
    Seq::new(selections.len(), |i: int| selections[i].extended_range())
}

/// A copy of `primary` over the characters of each element.
pub open spec fn element_selections(
    text: Seq<char>,
    primary: SelectionView,
    ranges: Seq<ByteRange>,
) -> Seq<SelectionView> {
    Seq::new(
        ranges.len(),
        |i: int| SelectionView { range: chars_of_bytes(text, ranges[i]), ..primary },
    )
}

/// The selections with a cursor on every element of the mode, the primary one on the element
/// that the primary selection covers, or on the first where it covers none; the selections as
/// they are where the mode has no element. Refused where the primary selection does not lie within
/// the
/// text or the search of the mode is no regular expression.
pub open spec fn all_elements(v: EditorView) -> Result<SelectionSetView, EditorError> {
    let range = v.selection_set.primary.range;
    if range.start.0 > v.buffer.text.len() || range.end.0 > v.buffer.text.len() {
        Err(EditorError::OutOfBounds)
    } else {
        match candidates(
            v.buffer,
            v.selection_set.mode,
            bytes_of_char_range(v.buffer.text, range),
            v.selection_set.filters,
        ) {
            Err(e) => Err(e),
            Ok(ranges) => if ranges.len() == 0 {
                Ok(v.selection_set)
            } else {
                let all = element_selections(v.buffer.text, v.selection_set.primary, ranges);
                let p = match first_from(all.len() as int, |i: int| all[i].range == range, 0) {
                    Some(i) => i,
                    None => 0,
                };
                Ok(SelectionSetView { primary: all[p], secondary: all.remove(p), ..v.selection_set })
            },
        }
    }
}

/// Moving every selection keeps their number.
proof fn lemma_generated_len(
    b: BufferView,
    selections: Seq<SelectionView>,
    mode: SelectionModeView,
    movement: Movement,
    filters: Seq<FilterView>,
    n: int,
)
    requires
        0 <= n,
        generated_upto(b, selections, mode, movement, filters, n).is_ok(),
    ensures
        generated_upto(b, selections, mode, movement, filters, n).unwrap().len() == n,
    decreases n,
{
    if n > 0 {
        lemma_generated_len(b, selections, mode, movement, filters, n - 1);
    }
}

} // verus!
