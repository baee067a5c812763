use vstd::prelude::*;
use crate::words::texts_view;
use crate::components::navigation::generated_upto;
use crate::selection::Info;
use crate::text::byte_offset;
use vstd::string::StringExecFns;
use crate::app::{Dispatch, GlobalMode, RequestParams, Scope};
use crate::buffer::{BufferView, is_redo_step, is_undo_step, position_of_char, toggled};
use crate::char_index::{CharIndex, CharIndexRange, Position};
use crate::components::actions::{
    backspace_actions, change_actions, cut_actions, enclose_actions, insert_actions,
    kill_line_actions, open_new_line_actions, replace_cut_actions, replace_with_actions,
};
use crate::components::copying::{all_within, holding, stepped};
use crate::components::editing::{
    as_it_is, clipboard_of, copied_or, deleted_text, delete_word_backward_at, groups_for,
    has_copied, kill_at, paste_at, positional_groups, transaction_effect, transaction_effect_with,
};
use crate::components::editor::{
    Direction, DispatchEditor, Editor, EditorView, Mode, Movement, ViewAlignment,
    WINDOW_TITLE_HEIGHT, centered, cursor_row, inserting, minus, normal, scrolled,
};
use crate::components::jumps::{jump_alphabet, narrow_jumps, narrowed, shown_jumps};
use crate::components::navigation::{
    all_elements, effective_movement, extended_ranges, generated, history_step, literal_search,
    reselected,
};
use crate::components::structural::{Transform, transformed};
use crate::context::Context;
use crate::error::EditorError;
use crate::key_event_parser::{KeyCode, KeyEvent, KeyModifiers};
use crate::list::grep::GrepConfig;
use crate::selection::{
    InsideKind, Search, Selection, SelectionMode, SelectionModeView, SelectionSet, SelectionSetView,
    SelectionView,
};
use crate::selection_mode::moved_selection;

verus! {

/// What a key came to: the editor has dealt with it, or leaves it to its surroundings.
#[derive(Clone, Debug, PartialEq, Eq)]
pub enum HandleEventResult {
    Handled(Vec<Dispatch>),
    Ignored(KeyEvent),
}

/// What selecting in a mode does.
pub open spec fn select_effect(
    before: EditorView,
    after: EditorView,
    mode: SelectionModeView,
    movement: Movement,
    r: Result<Vec<Dispatch>, EditorError>,
) -> bool {
    match generated(
        before.buffer,
        before.selection_set,
        mode,
        effective_movement(before.selection_set.mode, mode, movement),
    ) {
        Ok(set) => r.is_ok() && r.unwrap()@.len() == 0 && after == reselected(before, set),
        Err(e) => r.is_err() && r.unwrap_err() == e && after == before,
    }
}

/// What going over to a mode does.
pub open spec fn mode_effect(
    before: EditorView,
    after: EditorView,
    mode: SelectionModeView,
    r: Result<Vec<Dispatch>, EditorError>,
) -> bool {
    match generated(before.buffer, before.selection_set, mode, Movement::Current) {
        Ok(set) => r.is_ok() && r.unwrap()@ == seq![Dispatch::SetGlobalMode(None)] && after == (
        EditorView { current_view_alignment: None, ..reselected(before, set) }),
        Err(e) => r.is_err() && r.unwrap_err() == e && after == before,
    }
}

/// What adding a cursor does.
pub open spec fn add_cursor_effect(
    before: EditorView,
    after: EditorView,
    movement: Movement,
    r: Result<(), EditorError>,
) -> bool {
    match moved_selection(
        before.buffer,
        before.selection_set.primary,
        before.selection_set.mode,
        movement,
        before.selection_set.filters,
    ) {
        Ok(next) => r.is_ok() && after == scrolled(
            if next.range == before.selection_set.primary.range {
                before
            } else {
                EditorView {
                    selection_set: SelectionSetView {
                        primary: next,
                        secondary: before.selection_set.secondary.push(before.selection_set.primary),
                        ..before.selection_set
                    },
                    ..before
                }
            },
        ),
        Err(e) => r.is_err() && r.unwrap_err() == e && after == before,
    }
}

/// What taking back a change, or doing it again, does.
pub open spec fn history_effect(
    before: EditorView,
    after: EditorView,
    back: bool,
    r: Result<Vec<Dispatch>, EditorError>,
) -> bool {
    exists|step: Result<Option<SelectionSetView>, EditorError>|
        (if back {
            is_undo_step(before.buffer, after.buffer, before.selection_set, step)
        } else {
            is_redo_step(before.buffer, after.buffer, before.selection_set, step)
        }) && history_step(before, after, step, r)
}

/// What a movement does to an editor: in normal mode the selections move, unless a global
/// mode is in force, which gets the movement; in the modes of exchange and replace the
/// selections are exchanged and raised; in the mode of the history the last change is taken
/// back or done again; in the mode of many cursors a cursor is added.
pub open spec fn movement_effect(
    before: EditorView,
    after: EditorView,
    context: &Context,
    movement: Movement,
    r: Result<Vec<Dispatch>, EditorError>,
) -> bool {
    match before.mode {
        Mode::Normal => match context.mode {
            Some(GlobalMode::QuickfixListItem) => after == before && r.is_ok() && r.unwrap()@
                == seq![Dispatch::GotoQuickfixListItem(movement)],
            Some(GlobalMode::SelectionHistoryContiguous) => after == before && r.is_ok()
                && r.unwrap()@ == seq![Dispatch::GotoSelectionHistoryContiguous(movement)],
            None => match generated(
                before.buffer,
                before.selection_set,
                before.selection_set.mode,
                movement,
            ) {
                Ok(set) => r.is_ok() && r.unwrap()@.len() == 0 && after == (EditorView {
                    current_view_alignment: None,
                    ..reselected(before, set)
                }),
                Err(e) => r.is_err() && r.unwrap_err() == e && after == before,
            },
        },
        Mode::Exchange => exists|targets: Seq<Option<SelectionView>>|
            transformed(before, after, Transform::Exchange, movement, targets, r),
        Mode::Replace => exists|targets: Seq<Option<SelectionView>>|
            transformed(before, after, Transform::Raise, movement, targets, r),
        Mode::UndoTree => match movement {
            Movement::Previous => history_effect(before, after, true, r),
            Movement::Next => history_effect(before, after, false, r),
            _ => after == before && r.is_ok() && r.unwrap()@.len() == 0,
        },
        Mode::MultiCursor => exists|added: Result<(), EditorError>|
            add_cursor_effect(before, after, movement, added) && match added {
                Ok(_) => r.is_ok() && r.unwrap()@.len() == 0,
                Err(e) => r.is_err() && r.unwrap_err() == e,
            },
        _ => after == before && r.is_ok() && r.unwrap()@.len() == 0,
    }
}

impl Editor {
    /// Makes a movement, as the mode of the keys has it.
    pub fn handle_movement(&mut self, context: &Context, movement: Movement) -> (r: Result<
        Vec<Dispatch>,
        EditorError,
    >)
        requires
            old(self).wf(),
        ensures
            final(self).wf(),
            movement_effect(old(self)@, final(self)@, context, movement, r),
    {
        match self.mode {
            Mode::Normal => match context.mode {
                Some(GlobalMode::QuickfixListItem) => {
                    let mut d: Vec<Dispatch> = Vec::new();
                    d.push(Dispatch::GotoQuickfixListItem(movement));
                    Ok(d)
                },
                Some(GlobalMode::SelectionHistoryContiguous) => {
                    let mut d: Vec<Dispatch> = Vec::new();
                    d.push(Dispatch::GotoSelectionHistoryContiguous(movement));
                    Ok(d)
                },
                None => {
                    let mode: SelectionMode = self.selection_set.mode.duplicate();
                    let r = self.select(mode, movement);
                    if r.is_ok() {
                        self.current_view_alignment = None;
                    }
                    r
                },
            },
            Mode::Exchange => self.exchange(movement),
            Mode::Replace => self.replace(movement),
            Mode::UndoTree => match movement {
                Movement::Previous => {
                    let r = self.undo();
                    assert(history_effect(old(self)@, self@, true, r));
                    r
                },
                Movement::Next => {
                    let r = self.redo();
                    assert(history_effect(old(self)@, self@, false, r));
                    r
                },
                _ => Ok(Vec::new()),
            },
            Mode::MultiCursor => {
                let added = self.add_cursor(movement);
                let r = match added {
                    Ok(_) => Ok(Vec::new()),
                    Err(e) => Err(e),
                };
                assert(add_cursor_effect(old(self)@, self@, movement, added));
                r
            },
            _ => Ok(Vec::new()),
        }
    }

    /// The text shown for the mode of the keys.
    pub fn mode_name(&self) -> (s: &'static str)
        ensures
            s@ == mode_text(self.mode),
    {
        match self.mode {
            Mode::Normal => "MOVE",
            Mode::Insert => "INSERT",
            Mode::MultiCursor => "MULTI CURSOR",
            Mode::FindOneChar => "FIND ONE CHAR",
            Mode::Exchange => "EXCHANGE",
            Mode::UndoTree => "UNDO TREE",
            Mode::Replace => "REPLACE",
        }
    }

    /// The title of the menu of a search.
    pub fn find_submenu_title(title: &str, scope: Scope) -> (s: String)
        ensures
            s@ == "Find ("@ + (match scope {
                Scope::Local => "Local"@,
                Scope::Global => "Global"@,
            }) + "): "@ + title@,
    {
        let mut s: String = String::from_str("Find (");
        match scope {
            Scope::Local => s.append("Local"),
            Scope::Global => s.append("Global"),
        }
        s.append("): ");
        s.append(title);
        s
    }

    /// What a request to a language server about the place of the cursor is about; `None`
    /// where the buffer shows no file or the cursor lies beyond the text.
    pub fn get_request_params(&self) -> (r: Option<RequestParams>)
        ensures
            match r {
                Some(p) => self@.buffer.path == Some(p.path@) && p.component_id == self.id
                    && self@.selection_set.primary.cursor(self.cursor_direction).0
                    <= self@.buffer.text.len() && p.position == position_of_char(
                    self@.buffer.text,
                    self@.selection_set.primary.cursor(self.cursor_direction).0 as int,
                ),
                None => self@.buffer.path.is_none() || self@.selection_set.primary.cursor(
                    self.cursor_direction,
                ).0 > self@.buffer.text.len(),
            },
    {
        let position: Position = match self.buffer.char_to_position(self.get_cursor_char_index()) {
            Ok(p) => p,
            Err(_) => {
                return None;
            },
        };
        match self.buffer.path() {
            Some(path) => Some(RequestParams { component_id: self.id, path, position }),
            None => None,
        }
    }

    /// The texts of the selections that lie within the text, in the order of the selections.
    pub fn get_selected_texts(&self) -> (r: Vec<String>)
        ensures
            texts_view(r@) == selected_texts(
                self@.buffer.text,
                self@.selection_set.all(),
                self@.selection_set.all().len() as int,
            ),
    {
        let selections: Vec<Selection> = self.selection_set.selections();
        let ghost all = self@.selection_set.all();
        let ghost text = self@.buffer.text;
        let mut r: Vec<String> = Vec::new();
        let mut i: usize = 0;
        assert(texts_view(r@) =~= Seq::<Seq<char>>::empty());
        while i < selections.len()
            invariant
                i <= selections.len(),
                crate::selection::views_of(selections@) == all,
                text == self@.buffer.text,
                texts_view(r@) == selected_texts(text, all, i as int),
            decreases selections.len() - i,
        {
            assert(all[i as int] == selections@[i as int]@);
            let ghost before = texts_view(r@);
            match self.buffer.slice(&selections[i].extended_range()) {
                Ok(s) => {
                    r.push(s);
                    assert(texts_view(r@) =~= before.push(s@));
                },
                Err(_) => {
                    assert(!crate::components::actions::within(all[i as int].extended_range(), text));
                },
            }
            i += 1;
        }
        r
    }

    /// The line of the cursor, without white space at its ends. Refused where the cursor lies
    /// beyond the text.
    pub fn current_line(&self) -> (r: Result<String, EditorError>)
        ensures
            match r {
                Ok(line) => {
                    let cursor = self@.selection_set.primary.cursor(self.cursor_direction).0;
                    let range = crate::buffer::line_range_of_char(self@.buffer.text, cursor as int);
                    cursor <= self@.buffer.text.len() && line@ == crate::text::trim(
                        self@.buffer.text.subrange(range.start.0 as int, range.end.0 as int),
                    )
                },
                Err(e) => e == EditorError::OutOfBounds && self@.selection_set.primary.cursor(
                    self.cursor_direction,
                ).0 > self@.buffer.text.len(),
            },
    {
        match self.buffer.get_line_by_char_index(self.get_cursor_char_index()) {
            Ok(line) => Ok(crate::text::trimmed(line.as_str())),
            Err(e) => Err(e),
        }
    }

    /// The last word that starts before the cursor; the empty text where there is none.
    /// Refused where the cursor lies beyond the text.
    pub fn get_current_word(&self) -> (r: Result<String, EditorError>)
        ensures
            match r {
                Ok(word) => {
                    let cursor = self@.selection_set.primary.cursor(self.cursor_direction).0;
                    cursor <= self@.buffer.text.len() && word@ == crate::buffer::word_before(
                        self@.buffer.text,
                        byte_offset(self@.buffer.text, cursor as int) as usize,
                    )
                },
                Err(e) => e == EditorError::OutOfBounds && self@.selection_set.primary.cursor(
                    self.cursor_direction,
                ).0 > self@.buffer.text.len(),
            },
    {
        self.buffer.get_word_before_char_index(self.get_cursor_char_index())
    }
}

/// The texts of those among the first `n` selections that lie within the text, each with its
/// anchor, in order.
pub open spec fn selected_texts(text: Seq<char>, selections: Seq<SelectionView>, n: int) -> Seq<
    Seq<char>,
>
    decreases n,
{
    if n <= 0 {
        Seq::empty()
    } else {
        let rest = selected_texts(text, selections, n - 1);
        let r = selections[n - 1].extended_range();
        if crate::components::actions::within(r, text) {
            rest.push(text.subrange(r.start.0 as int, r.end.0 as int))
        } else {
            rest
        }
    }
}

/// The text shown for a mode of the keys.
pub open spec fn mode_text(mode: Mode) -> Seq<char> {
    match mode {
        Mode::Normal => "MOVE"@,
        Mode::Insert => "INSERT"@,
        Mode::MultiCursor => "MULTI CURSOR"@,
        Mode::FindOneChar => "FIND ONE CHAR"@,
        Mode::Exchange => "EXCHANGE"@,
        Mode::UndoTree => "UNDO TREE"@,
        Mode::Replace => "REPLACE"@,
    }
}

/// What putting on a filter does.
pub open spec fn filter_push_effect(
    before: EditorView,
    after: EditorView,
    filter: crate::selection::FilterView,
    r: Result<Vec<Dispatch>, EditorError>,
) -> bool {
    if filter.is_regex && crate::regex_search::regex_matches(filter.pattern, Seq::empty()).is_none() {
        r.is_err() && r.unwrap_err() == EditorError::FilterRegexInvalid && after == before
    } else {
        after == reselected(
            before,
            SelectionSetView {
                filters: before.selection_set.filters.push(filter),
                ..before.selection_set
            },
        ) && r.is_ok() && r.unwrap()@ == seq![
            Dispatch::ToEditor(DispatchEditor::MoveSelection(Movement::Current)),
        ]
    }
}

/// An editor in another mode of the keys.
pub open spec fn in_mode(v: EditorView, mode: Mode) -> EditorView {
    EditorView { mode, ..v }
}

/// An editor after its text was replaced from outside: the selections and the scroll offset
/// are brought within the new text.
pub open spec fn clamped(v: EditorView) -> EditorView {
    let len = CharIndex(v.buffer.text.len() as usize);
    let lines = crate::text::line_count(v.buffer.text);
    EditorView {
        selection_set: SelectionSetView {
            primary: v.selection_set.primary.clamp(len),
            secondary: Seq::new(
                v.selection_set.secondary.len(),
                |i: int| v.selection_set.secondary[i].clamp(len),
            ),
            ..v.selection_set
        },
        scroll_offset: if v.scroll_offset <= lines {
            v.scroll_offset
        } else if lines <= u16::MAX {
            lines as u16
        } else {
            u16::MAX
        },
        ..v
    }
}

/// A selection put at the start of the line that lies `lines` lines above or below the line
/// where it starts, in the same column. `None` where the selection starts beyond the text
/// or that line lies beyond the last.
pub open spec fn paged(text: Seq<char>, s: SelectionView, down: bool, lines: usize) -> Option<
    SelectionView,
> {
    let start = s.extended_range().start.0;
    if start > text.len() {
        None
    } else {
        let position = position_of_char(text, start as int);
        let line = if down {
            if position.line + lines <= usize::MAX {
                (position.line + lines) as usize
            } else {
                usize::MAX
            }
        } else if position.line >= lines {
            (position.line - lines) as usize
        } else {
            0
        };
        if line <= crate::text::line_count(text) {
            let at = crate::buffer::char_of_position(text, Position { line, column: position.column }) as usize;
            Some(
                SelectionView {
                    range: CharIndexRange { start: CharIndex(at), end: CharIndex(at) },
                    ..s
                },
            )
        } else {
            None
        }
    }
}

/// The selections after each has gone a number of lines up or down; the first that cannot
/// makes all refused.
pub open spec fn paged_upto(
    text: Seq<char>,
    selections: Seq<SelectionView>,
    down: bool,
    lines: usize,
    n: int,
) -> Option<Seq<SelectionView>>
    decreases n,
{
    if n <= 0 {
        Some(Seq::empty())
    } else {
        match (paged_upto(text, selections, down, lines, n - 1), paged(text, selections[n - 1], down, lines)) {
            (Some(moved), Some(s)) => Some(moved.push(s)),
            _ => None,
        }
    }
}

/// What scrolling by half a page does: every selection goes half the height of the window up
/// or down, the cursor is at the start, and its row is put in the middle of the window.
/// Refused, with nothing changed, where a selection cannot go there.
pub open spec fn scroll_effect(
    before: EditorView,
    after: EditorView,
    down: bool,
    r: Result<Vec<Dispatch>, EditorError>,
) -> bool {
    match paged_upto(
        before.buffer.text,
        before.selection_set.all(),
        down,
        (before.rectangle.height / 2) as usize,
        before.selection_set.all().len() as int,
    ) {
        Some(moved) => {
            let set = SelectionSetView {
                primary: moved[0],
                secondary: moved.skip(1),
                ..before.selection_set
            };
            let shown = reselected(before, set);
            r.is_ok() && r.unwrap()@.len() == 0 && after == (EditorView {
                scroll_offset: centered(cursor_row(shown), shown.rectangle.height),
                ..shown
            })
        },
        None => r.is_err() && r.unwrap_err() == EditorError::OutOfBounds && after == before,
    }
}

/// A selection moved by `lines` lines up or down; `None` where its cursor lies beyond the text.
fn page(buffer: &crate::buffer::Buffer, selection: &Selection, down: bool, lines: usize) -> (r: Option<
    Selection,
>)
    ensures
        match paged(buffer@.text, selection@, down, lines) {
            Some(s) => r.is_some() && r.unwrap()@ == s,
            None => r.is_none(),
        },
{
    let position: Position = match buffer.char_to_position(selection.extended_range().start) {
        Ok(p) => p,
        Err(_) => {
            return None;
        },
    };
    let line: usize = if down {
        match position.line.checked_add(lines) {
            Some(l) => l,
            None => usize::MAX,
        }
    } else if position.line >= lines {
        position.line - lines
    } else {
        0
    };
    match buffer.position_to_char(Position { line, column: position.column }) {
        Ok(at) => Some(selection.duplicate().set_range(CharIndexRange { start: at, end: at })),
        Err(_) => None,
    }
}

/// Once a selection cannot be moved by a page, the refusal stays as more selections follow.
proof fn lemma_paged_none(
    text: Seq<char>,
    selections: Seq<SelectionView>,
    down: bool,
    lines: usize,
    i: int,
    j: int,
)
    requires
        0 <= i <= j,
        paged_upto(text, selections, down, lines, i).is_none(),
    ensures
        paged_upto(text, selections, down, lines, j).is_none(),
    decreases j - i,
{
    if i < j {
        lemma_paged_none(text, selections, down, lines, i, j - 1);
    }
}

/// Moving by a page keeps the number of selections.
proof fn lemma_paged_len(
    text: Seq<char>,
    selections: Seq<SelectionView>,
    down: bool,
    lines: usize,
    n: int,
)
    requires
        0 <= n,
        paged_upto(text, selections, down, lines, n).is_some(),
    ensures
        paged_upto(text, selections, down, lines, n).unwrap().len() == n,
    decreases n,
{
    if n > 0 {
        lemma_paged_len(text, selections, down, lines, n - 1);
    }
}

impl Editor {
    /// Goes to another mode of the keys.
    pub fn set_mode(&mut self, mode: Mode)
        ensures
            final(self)@ == in_mode(old(self)@, mode),
            final(self).buffer == old(self).buffer,
    {
        self.mode = mode;
    }

    /// Brings the selections and the scroll offset within the text.
    pub fn clamp(&mut self)
        ensures
            final(self)@ == clamped(old(self)@),
            final(self).buffer == old(self).buffer,
    {
        let len: usize = self.buffer.len_chars();
        let set: SelectionSet = self.selection_set.clamp(CharIndex(len));
        assert(set@.secondary =~= clamped(old(self)@).selection_set.secondary);
        self.selection_set = set;
        let lines: usize = self.buffer.len_lines();
        if self.scroll_offset as usize > lines {
            self.scroll_offset = if lines <= 0xFFFF {
                lines as u16
            } else {
                u16::MAX
            };
        }
    }

    /// Replaces the whole text, and brings the selections within it.
    pub fn set_content(&mut self, text: &str)
        requires
            old(self).wf(),
        ensures
            final(self).wf(),
            final(self)@ == clamped(
                EditorView {
                    buffer: BufferView {
                        text: text@,
                        tree: crate::buffer::tree_of(old(self)@.buffer.language, text@),
                        ..old(self)@.buffer
                    },
                    ..old(self)@
                },
            ),
    {
        self.buffer.update(text);
        self.clamp();
    }

    /// Shows a note in the editor: its title becomes the title of the editor, its content the
    /// text.
    pub fn show_info(&mut self, info: Info)
        requires
            old(self).wf(),
        ensures
            final(self).wf(),
            final(self)@ == clamped(
                EditorView {
                    title: Some(info.title@),
                    buffer: BufferView {
                        text: info.content@,
                        tree: crate::buffer::tree_of(old(self)@.buffer.language, info.content@),
                        ..old(self)@.buffer
                    },
                    ..old(self)@
                },
            ),
    {
        self.set_title(info.title);
        self.set_content(info.content.as_str());
    }

    /// Scrolls by half a page.
    pub fn scroll(&mut self, down: bool) -> (r: Result<Vec<Dispatch>, EditorError>)
        requires
            old(self).wf(),
        ensures
            final(self).wf(),
            scroll_effect(old(self)@, final(self)@, down, r),
    {
        let lines: usize = (self.rectangle.height / 2) as usize;
        let selections: Vec<Selection> = self.selection_set.selections();
        let ghost all = self@.selection_set.all();
        let ghost text = self@.buffer.text;
        let mut moved: Vec<Selection> = Vec::new();
        let mut i: usize = 0;
        assert(crate::selection::views_of(moved@) =~= Seq::<SelectionView>::empty());
        while i < selections.len()
            invariant
                i <= selections.len(),
                *self == *old(self),
                self.wf(),
                lines == (self.rectangle.height / 2) as usize,
                all == crate::selection::views_of(selections@),
                all == self@.selection_set.all(),
                text == self@.buffer.text,
                paged_upto(text, all, down, lines, i as int) == Some(
                    crate::selection::views_of(moved@),
                ),
            decreases selections.len() - i,
        {
            assert(all[i as int] == selections@[i as int]@);
            match page(&self.buffer, &selections[i], down, lines) {
                Some(s) => {
                    let ghost before = crate::selection::views_of(moved@);
                    moved.push(s);
                    assert(crate::selection::views_of(moved@) =~= before.push(s@));
                },
                None => {
                    proof {
                        assert(paged_upto(text, all, down, lines, i + 1).is_none());
                        lemma_paged_none(text, all, down, lines, i + 1, all.len() as int);
                    }
                    return Err(EditorError::OutOfBounds);
                },
            }
            i += 1;
        }
        let ghost views = crate::selection::views_of(moved@);
        proof {
            lemma_paged_len(text, all, down, lines, all.len() as int);
        }
        let primary: Selection = moved.remove(0);
        let set = SelectionSet {
            primary,
            secondary: moved,
            mode: self.selection_set.mode.duplicate(),
            filters: self.selection_set.filters.duplicate(),
        };
        assert(set@.secondary =~= views.skip(1));
        self.update_selection_set(set);
        self.align_cursor_to_center();
        Ok(Vec::new())
    }

    /// Scrolls half a page down.
    pub fn scroll_page_down(&mut self) -> (r: Result<Vec<Dispatch>, EditorError>)
        requires
            old(self).wf(),
        ensures
            final(self).wf(),
            scroll_effect(old(self)@, final(self)@, true, r),
    {
        self.scroll(true)
    }

    /// Scrolls half a page up.
    pub fn scroll_page_up(&mut self) -> (r: Result<Vec<Dispatch>, EditorError>)
        requires
            old(self).wf(),
        ensures
            final(self).wf(),
            scroll_effect(old(self)@, final(self)@, false, r),
    {
        self.scroll(false)
    }

    /// Puts a filter on the candidates of the mode, and asks to go to the element under the
    /// cursor. Refused, with the filters as they were, where the pattern of the filter is meant
    /// as a regular expression and is none.
    pub fn filters_push(&mut self, filter: crate::selection::Filter) -> (r: Result<
        Vec<Dispatch>,
        EditorError,
    >)
        ensures
            final(self).buffer == old(self).buffer,
            filter_push_effect(old(self)@, final(self)@, filter@, r),
    {
        let valid: bool = match &filter.mechanism {
            crate::selection::FilterMechanism::Regex(pattern) => crate::regex_search::find_all(
                pattern.as_str(),
                "",
            ).is_some(),
            crate::selection::FilterMechanism::Literal(_) => true,
        };
        proof {
            reveal_strlit("");
            assert(""@ =~= Seq::<char>::empty());
        }
        if !valid {
            return Err(EditorError::FilterRegexInvalid);
        }
        let set: SelectionSet = self.selection_set.duplicate().filter_push(filter);
        self.update_selection_set(set);
        let mut r: Vec<Dispatch> = Vec::new();
        r.push(Dispatch::ToEditor(DispatchEditor::MoveSelection(Movement::Current)));
        Ok(r)
    }

    /// Takes all filters off.
    pub fn filters_clear(&mut self)
        ensures
            final(self).buffer == old(self).buffer,
            final(self)@ == reselected(
                old(self)@,
                SelectionSetView { filters: Seq::empty(), ..old(self)@.selection_set },
            ),
    {
        let set: SelectionSet = self.selection_set.duplicate().filter_clear();
        self.update_selection_set(set);
    }

    /// The selection set that stands for a range between two positions: one selection over the
    /// range, in the mode of the syntax tree where the range is a node, else in the mode that
    /// moves nowhere. Refused where a position lies beyond the last line.
    pub fn position_range_to_selection_set(&self, range: crate::diagnostic::PositionRange) -> (r:
        Result<SelectionSet, EditorError>)
        ensures
            match r {
                Ok(set) => range.start.line <= crate::text::line_count(self@.buffer.text)
                    && range.end.line <= crate::text::line_count(self@.buffer.text) && set@ == (
                SelectionSetView {
                    primary: SelectionView {
                        range: crate::buffer::anchor(self@.buffer.text, range),
                        ..self@.selection_set.primary
                    },
                    secondary: Seq::empty(),
                    mode: if crate::buffer::range_is_node(
                        self@.buffer,
                        crate::buffer::anchor(self@.buffer.text, range),
                    ) {
                        SelectionModeView::SyntaxTree
                    } else {
                        SelectionModeView::Custom
                    },
                    filters: Seq::empty(),
                }),
                Err(e) => e == EditorError::OutOfBounds && (range.start.line
                    > crate::text::line_count(self@.buffer.text) || range.end.line
                    > crate::text::line_count(self@.buffer.text)),
            },
    {
        let start: CharIndex = match self.buffer.position_to_char(range.start) {
            Ok(c) => c,
            Err(e) => {
                return Err(e);
            },
        };
        let end: CharIndex = match self.buffer.position_to_char(range.end) {
            Ok(c) => c,
            Err(e) => {
                return Err(e);
            },
        };
        let chars = CharIndexRange { start, end };
        let mode: SelectionMode = if self.buffer.given_range_is_node(&chars) {
            SelectionMode::SyntaxTree
        } else {
            SelectionMode::Custom
        };
        let set = SelectionSet {
            primary: self.selection_set.primary.duplicate().set_range(chars),
            secondary: Vec::new(),
            mode,
            filters: crate::selection::Filters::default(),
        };
        assert(set@.secondary =~= Seq::<SelectionView>::empty());
        Ok(set)
    }

    /// Puts the cursor of the primary selection at a row and column of the text. Refused where
    /// the row lies beyond the last line.
    pub fn set_cursor_position(&mut self, row: u16, column: u16) -> (r: Result<
        Vec<Dispatch>,
        EditorError,
    >)
        requires
            old(self).wf(),
        ensures
            final(self).wf(),
            if row <= crate::text::line_count(old(self)@.buffer.text) {
                r.is_ok() && r.unwrap()@.len() == 0 && final(self)@ == reselected(
                    old(self)@,
                    SelectionSetView {
                        primary: SelectionView {
                            range: crate::components::actions::empty_at(
                                crate::buffer::char_of_position(
                                    old(self)@.buffer.text,
                                    Position { line: row as usize, column: column as usize },
                                ) as usize,
                            ),
                            ..old(self)@.selection_set.primary
                        },
                        ..old(self)@.selection_set
                    },
                )
            } else {
                r.is_err() && r.unwrap_err() == EditorError::OutOfBounds && final(self)@ == old(self)@
            },
    {
        let at: CharIndex = match self.buffer.position_to_char(
            Position { line: row as usize, column: column as usize },
        ) {
            Ok(c) => c,
            Err(e) => {
                return Err(e);
            },
        };
        let mut set: SelectionSet = self.selection_set.duplicate();
        set.primary = set.primary.set_range(CharIndexRange { start: at, end: at });
        self.update_selection_set(set);
        Ok(Vec::new())
    }
}

/// With one cursor in normal mode, in a mode that goes by the characters or the lines of the
/// text and without filters: where a movement to the next element has moved the selection, a
/// movement to the previous element puts it back where it was.
pub proof fn lemma_previous_undoes_next_movement(
    before: EditorView,
    mid: EditorView,
    after: EditorView,
    context: &Context,
    forth: Result<Vec<Dispatch>, EditorError>,
    back: Result<Vec<Dispatch>, EditorError>,
    k: int,
)
    requires
        before.mode == Mode::Normal,
        context.mode.is_none(),
        before.selection_set.secondary.len() == 0,
        before.selection_set.filters == Seq::<crate::selection::FilterView>::empty(),
        crate::selection_mode::goes_by_text(before.selection_set.mode),
        crate::text::byte_len(before.buffer.text) <= usize::MAX,
        0 <= k < crate::selection_mode::mode_ranges(
            before.buffer,
            before.selection_set.mode,
            crate::char_index::ByteRange { start: 0, end: 0 },
        ).unwrap().len(),
        before.selection_set.primary.range == crate::buffer::chars_of_bytes(
            before.buffer.text,
            crate::selection_mode::mode_ranges(
                before.buffer,
                before.selection_set.mode,
                crate::char_index::ByteRange { start: 0, end: 0 },
            ).unwrap()[k],
        ),
        movement_effect(before, mid, context, Movement::Next, forth),
        mid.selection_set.primary != before.selection_set.primary,
        movement_effect(mid, after, context, Movement::Previous, back),
    ensures
        back.is_ok(),
        after.selection_set.primary == before.selection_set.primary,
        after.selection_set.primary.range == before.selection_set.primary.range,
{
    let b = before.buffer;
    let mode = before.selection_set.mode;
    let none = Seq::<crate::selection::FilterView>::empty();
    let s = before.selection_set.primary;
    let origin = crate::char_index::ByteRange { start: 0, end: 0 };
    crate::selection_mode::lemma_text_element_round_trip(b, mode, origin, k);
    assert(before.selection_set.all() =~= seq![s]);
    let first = crate::selection_mode::moved_selection(b, s, mode, Movement::Next, none);
    assert(first.is_ok());
    let next = first.unwrap();
    assert(generated_upto(b, seq![s], mode, Movement::Next, none, 0) == Ok::<
        Seq<SelectionView>,
        EditorError,
    >(Seq::empty()));
    assert(generated_upto(b, seq![s], mode, Movement::Next, none, 1) == Ok::<
        Seq<SelectionView>,
        EditorError,
    >(Seq::<SelectionView>::empty().push(next)));
    assert(mid.selection_set.primary == next);
    assert(mid.buffer == b);
    crate::selection_mode::lemma_previous_undoes_next(b, s, mode, k, next);
    assert(mid.selection_set.all() =~= seq![next]);
    assert(generated_upto(b, seq![next], mode, Movement::Previous, none, 0) == Ok::<
        Seq<SelectionView>,
        EditorError,
    >(Seq::empty()));
    assert(generated_upto(b, seq![next], mode, Movement::Previous, none, 1) == Ok::<
        Seq<SelectionView>,
        EditorError,
    >(Seq::<SelectionView>::empty().push(s)));
}

} // verus!
