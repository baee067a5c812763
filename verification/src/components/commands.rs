use vstd::prelude::*;
use crate::overlay::{followed, replaced};
use crate::buffer::{moved_decorations, moved_spans, tree_of};
use crate::components::kids::with_kids;
use vstd::string::StringExecFns;
use crate::app::Dispatch;
use crate::buffer::{BufferView, is_edit_step, toggled};
use crate::components::actions::{
    backspace_actions, change_actions, cut_actions, enclose_actions, insert_actions,
    kill_line_actions, open_new_line_actions, replace_cut_actions, replace_with_actions,
};
use crate::components::copying::copy_effect;
use crate::components::dispatching::{
    clamped, history_effect, in_mode, mode_effect, movement_effect, scroll_effect, select_effect,
};
use crate::components::editing::{
    as_it_is, clipboard_of, copied_or, deleted_text, delete_word_backward_at, groups_for,
    has_copied, is_did_change, kill_at, paste_at, positional_groups, transaction_effect,
    transaction_effect_with,
};
use crate::components::editor::{
    Direction, DispatchEditor, Editor, EditorView, Mode, Movement, WINDOW_TITLE_HEIGHT, centered,
    cursor_row, each, inserting, minus, normal, realigned, scrolled, toggled_anchor, unanchored,
};
use crate::components::jumps::shown_jumps;
use crate::components::navigation::{
    all_elements, extended_ranges, generated, literal_search, reselected,
};
use crate::components::structural::{Transform, transformed};
use crate::context::Context;
use crate::error::EditorError;
use crate::selection::{
    SelectionMode, SelectionModeView, SelectionSet, SelectionSetView, SelectionView,
};
use crate::text::{decimal, line_count, line_start, to_decimal};

verus! {

/// Whether nothing was asked of the surroundings.
pub open spec fn quiet(r: Result<Vec<Dispatch>, EditorError>) -> bool {
    r.is_ok() && r.unwrap()@.len() == 0
}

/// What saving does to an editor, given what a formatter has made of the text, if one has
/// run. Where the buffer shows no file, nothing happens: the editor stays as it is, nothing is
/// to be written, and nothing is asked of the surroundings. Else the text of the formatter is
/// taken where it has not failed and the syntax tree holds no error; what is laid over the
/// text moves with the change; the selections are brought within the text, only the primary
/// selection stays, and the dispatches say that the file was saved and that the text has
/// changed; the text to write to the file is handed back.
pub open spec fn save_effect(
    before: EditorView,
    after: EditorView,
    formatted: Option<Result<String, String>>,
    content: Option<String>,
    dispatches: Vec<Dispatch>,
) -> bool {
    let taken = match (formatted, before.buffer.tree) {
        (Some(Ok(text)), Some(nodes)) => if !nodes[0].has_error {
            Some(text@)
        } else {
            None
        },
        _ => None,
    };
    let buffer_ok = match taken {
        Some(text) => is_edit_step(before.buffer, after.buffer, text, before.selection_set)
            && after.buffer == (BufferView {
            text: after.buffer.text,
            tree: tree_of(before.buffer.language, text),
            undo: after.buffer.undo,
            redo: after.buffer.redo,
            bookmarks: followed(before.buffer.bookmarks, before.buffer.text, text),
            diagnostic_ranges: followed(before.buffer.diagnostic_ranges, before.buffer.text, text),
            decorations: moved_decorations(
                before.buffer.decorations,
                replaced(before.buffer.text, text),
            ),
            highlighted_spans: moved_spans(
                before.buffer.text,
                text,
                before.buffer.highlighted_spans,
                replaced(before.buffer.text, text),
            ),
            ..before.buffer
        }),
        None => after.buffer == before.buffer,
    };
    let formatted_editor = EditorView { buffer: after.buffer, ..before };
    match before.buffer.path {
        Some(path) => {
            &&& buffer_ok
            &&& content.is_some() && content.unwrap()@ == after.buffer.text
            &&& after == normal(
                EditorView {
                    selection_set: SelectionSetView {
                        secondary: Seq::empty(),
                        ..clamped(formatted_editor).selection_set
                    },
                    ..clamped(formatted_editor)
                },
            )
            &&& dispatches@.len() == 2
            &&& match dispatches@[0] {
                Dispatch::DocumentDidSave { saved_path } => saved_path@ == path,
                _ => false,
            }
            &&& is_did_change(dispatches@.skip(1), after)
        },
        None => content.is_none() && dispatches@.len() == 0 && after == before,
    }
}

/// What an operation on the view, the content or the grammar does to an editor, and what
/// asking for the file to be saved does: it hands the request on to the surroundings, which
/// run the formatter and write the file. Any other operation does nothing.
pub open spec fn view_dispatch_effect(
    before: EditorView,
    after: EditorView,
    context: &Context,
    dispatch: DispatchEditor,
    r: Result<Vec<Dispatch>, EditorError>,
) -> bool {
    match dispatch {
        DispatchEditor::SetScrollOffset(n) => quiet(r) && after == (EditorView {
            scroll_offset: n,
            ..before
        }),
        DispatchEditor::ShowJumps => match shown_jumps(before) {
            Ok(jumps) => quiet(r) && after == (EditorView { jumps: Some(jumps), ..before }),
            Err(e) => r.is_err() && r.unwrap_err() == e && after == before,
        },
        DispatchEditor::ScrollPageDown => scroll_effect(before, after, true, r),
        DispatchEditor::ScrollPageUp => scroll_effect(before, after, false, r),
        DispatchEditor::AlignViewTop => quiet(r) && after == (EditorView {
            scroll_offset: cursor_row(before),
            ..before
        }),
        DispatchEditor::AlignViewCenter => quiet(r) && after == (EditorView {
            scroll_offset: centered(cursor_row(before), before.rectangle.height),
            ..before
        }),
        DispatchEditor::AlignViewBottom => quiet(r) && after == (EditorView {
            scroll_offset: minus(
                cursor_row(before),
                minus(minus(before.rectangle.height, 1), WINDOW_TITLE_HEIGHT),
            ),
            ..before
        }),
        DispatchEditor::SwitchViewAlignment => quiet(r) && after == realigned(before),
        DispatchEditor::SetRectangle(rectangle) => quiet(r) && after == scrolled(
            EditorView { rectangle, ..before },
        ),
        DispatchEditor::SetContent(text) => quiet(r) && after == clamped(
            EditorView {
                buffer: BufferView {
                    text: text@,
                    tree: tree_of(before.buffer.language, text@),
                    ..before.buffer
                },
                ..before
            },
        ),
        DispatchEditor::ChangeCursorDirection => quiet(r) && after == scrolled(
            EditorView { cursor_direction: before.cursor_direction.spec_reverse(), ..before },
        ),
        DispatchEditor::SetLanguage(language) => quiet(r) && after == (EditorView {
            buffer: BufferView {
                language,
                tree: tree_of(language, before.buffer.text),
                ..before.buffer
            },
            ..before
        }),
        DispatchEditor::Save => after == before && r.is_ok() && r.unwrap()@
            == seq![Dispatch::RequestSave],
        _ => quiet(r) && after == before,
    }
}

/// Whether an operation is one on the view.
pub open spec fn is_view_dispatch(dispatch: DispatchEditor) -> bool {
    dispatch is SetScrollOffset || dispatch is ShowJumps || dispatch is ScrollPageDown
        || dispatch is ScrollPageUp || dispatch is AlignViewTop || dispatch is AlignViewCenter
        || dispatch is AlignViewBottom || dispatch is SwitchViewAlignment
        || dispatch is SetRectangle || dispatch is SetContent || dispatch is ChangeCursorDirection
        || dispatch is SetLanguage || dispatch is Save
}

/// What an operation on the mode of the keys, the anchors, the bookmarks or the filters does to an
/// editor. Any other operation does nothing.
pub open spec fn mode_dispatch_effect(
    before: EditorView,
    after: EditorView,
    context: &Context,
    dispatch: DispatchEditor,
    r: Result<Vec<Dispatch>, EditorError>,
) -> bool {
    match dispatch {
        DispatchEditor::FindOneChar => quiet(r) && after == in_mode(before, Mode::FindOneChar),
        DispatchEditor::EnterUndoTreeMode => quiet(r) && after == in_mode(before, Mode::UndoTree),
        DispatchEditor::EnterInsertMode(direction) => quiet(r) && after == inserting(before, direction),
        DispatchEditor::EnterNormalMode => quiet(r) && after == normal(before),
        DispatchEditor::EnterExchangeMode => quiet(r) && after == in_mode(before, Mode::Exchange),
        DispatchEditor::EnterReplaceMode => quiet(r) && after == in_mode(before, Mode::Replace),
        DispatchEditor::EnterMultiCursorMode => quiet(r) && after == in_mode(
            before,
            Mode::MultiCursor,
        ),
        DispatchEditor::Reset => quiet(r) && after == (EditorView {
            selection_set: each(before.selection_set, |s: SelectionView| unanchored(s)),
            ..before
        }),
        DispatchEditor::ToggleHighlightMode => quiet(r) && after == scrolled(
            EditorView {
                selection_set: each(before.selection_set, |s: SelectionView| toggled_anchor(s)),
                ..before
            },
        ),
        DispatchEditor::ToggleBookmark => quiet(r) && after == (EditorView {
            buffer: BufferView {
                bookmarks: toggled(
                    before.buffer.bookmarks,
                    extended_ranges(before.selection_set.all()),
                ),
                ..before.buffer
            },
            ..before
        }),
        DispatchEditor::FilterPush(filter) => crate::components::dispatching::filter_push_effect(
            before,
            after,
            filter@,
            r,
        ),
        DispatchEditor::FilterClear => quiet(r) && after == reselected(
            before,
            SelectionSetView { filters: Seq::empty(), ..before.selection_set },
        ),
        DispatchEditor::CursorKeepPrimaryOnly => quiet(r) && after == normal(
            EditorView {
                selection_set: SelectionSetView { secondary: Seq::empty(), ..before.selection_set },
                ..before
            },
        ),
        DispatchEditor::SelectAll => after == before && r.is_ok() && r.unwrap()@ == seq![
            Dispatch::ToEditor(DispatchEditor::MoveSelection(Movement::First)),
            Dispatch::ToEditor(DispatchEditor::ToggleHighlightMode),
            Dispatch::ToEditor(DispatchEditor::MoveSelection(Movement::Last)),
        ],
        DispatchEditor::MoveToLineStart => after == before && r.is_ok() && r.unwrap()@ == seq![
            Dispatch::ToEditor(DispatchEditor::SelectLine(Movement::Current)),
            Dispatch::ToEditor(DispatchEditor::EnterInsertMode(Direction::Start)),
        ],
        DispatchEditor::MoveToLineEnd => after == before && r.is_ok() && r.unwrap()@ == seq![
            Dispatch::ToEditor(DispatchEditor::SelectLine(Movement::Current)),
            Dispatch::ToEditor(DispatchEditor::EnterInsertMode(Direction::End)),
        ],
        _ => quiet(r) && after == before,
    }
}

/// Whether an operation is one on the mode of the keys, the anchors, the bookmarks or the filters.
pub open spec fn is_mode_dispatch(dispatch: DispatchEditor) -> bool {
    dispatch is FindOneChar || dispatch is EnterUndoTreeMode || dispatch is EnterInsertMode
        || dispatch is EnterNormalMode || dispatch is EnterExchangeMode
        || dispatch is EnterReplaceMode || dispatch is EnterMultiCursorMode || dispatch is Reset
        || dispatch is ToggleHighlightMode || dispatch is ToggleBookmark || dispatch is FilterPush
        || dispatch is FilterClear || dispatch is CursorKeepPrimaryOnly || dispatch is SelectAll
        || dispatch is MoveToLineStart || dispatch is MoveToLineEnd
}

/// What an operation on the selections or the history does to an editor. Any other operation does
/// nothing.
pub open spec fn selection_dispatch_effect(
    before: EditorView,
    after: EditorView,
    context: &Context,
    dispatch: DispatchEditor,
    r: Result<Vec<Dispatch>, EditorError>,
) -> bool {
    match dispatch {
        DispatchEditor::SetSelectionMode(mode) => mode_effect(before, after, mode@, r),
        DispatchEditor::MoveSelection(movement) => movement_effect(before, after, context, movement, r),
        DispatchEditor::SelectLine(movement) => select_effect(
            before,
            after,
            SelectionModeView::LineTrimmed,
            movement,
            r,
        ),
        DispatchEditor::MatchLiteral(text) => mode_effect(before, after, literal_search(text@), r),
        DispatchEditor::EnterInsideMode(kind) => mode_effect(
            before,
            after,
            SelectionModeView::Inside(kind),
            r,
        ),
        DispatchEditor::CursorAddToAllSelections => match all_elements(before) {
            Ok(set) => quiet(r) && after == normal(scrolled(EditorView { selection_set: set, ..before })),
            Err(e) => r.is_err() && r.unwrap_err() == e && after == before,
        },
        DispatchEditor::SelectLineAt(line) => if line < usize::MAX && line + 1 <= line_count(
            before.buffer.text,
        ) {
            quiet(r) && after == reselected(
                before,
                SelectionSetView {
                    primary: SelectionView::of_range(
                        crate::char_index::CharIndexRange {
                            start: crate::char_index::CharIndex(
                                line_start(before.buffer.text, line as int) as usize,
                            ),
                            end: crate::char_index::CharIndex(
                                line_start(before.buffer.text, line + 1) as usize,
                            ),
                        },
                    ),
                    secondary: Seq::empty(),
                    mode: SelectionModeView::LineTrimmed,
                    filters: Seq::empty(),
                },
            )
        } else {
            r.is_err() && r.unwrap_err() == EditorError::OutOfBounds && after == before
        },
        DispatchEditor::SelectKids => quiet(r) && after == reselected(
            before,
            each(
                before.selection_set,
                |s: SelectionView| with_kids(before.buffer, s, before.cursor_direction),
            ),
        ),
        DispatchEditor::ReplacePreviousWord(word) => replace_word_effect(before, after, word@, r),
        DispatchEditor::Copy => copy_effect(before, after, r),
        DispatchEditor::Exchange(movement) => exists|targets: Seq<Option<SelectionView>>|
            transformed(before, after, Transform::Exchange, movement, targets, r),
        DispatchEditor::Raise => exists|targets: Seq<Option<SelectionView>>|
            transformed(before, after, Transform::Raise, Movement::Parent, targets, r),
        DispatchEditor::Undo => history_effect(before, after, true, r),
        DispatchEditor::Redo => history_effect(before, after, false, r),
        _ => quiet(r) && after == before,
    }
}

/// Whether an operation is one on the selections or the history.
pub open spec fn is_selection_dispatch(dispatch: DispatchEditor) -> bool {
    dispatch is SetSelectionMode || dispatch is MoveSelection || dispatch is SelectLine
        || dispatch is MatchLiteral || dispatch is EnterInsideMode
        || dispatch is CursorAddToAllSelections || dispatch is SelectLineAt
        || dispatch is SelectKids || dispatch is ReplacePreviousWord || dispatch is Copy
        || dispatch is Exchange || dispatch is Raise || dispatch is Undo || dispatch is Redo
}

/// What an operation that edits the text does to an editor. Any other operation does nothing.
pub open spec fn edit_dispatch_effect(
    before: EditorView,
    after: EditorView,
    context: &Context,
    dispatch: DispatchEditor,
    r: Result<Vec<Dispatch>, EditorError>,
) -> bool {
    match dispatch {
        DispatchEditor::Surround(open, close) => transaction_effect(
            before,
            after,
            groups_for(
                before,
                |s: SelectionView| enclose_actions(before.buffer.text, s, open@, close@),
            ),
            r,
            as_it_is(),
        ),
        DispatchEditor::Cut => transaction_effect_with(
            before,
            after,
            groups_for(before, |s: SelectionView| cut_actions(before.buffer.text, s)),
            r,
            |v: EditorView| inserting(v, Direction::Start),
            if before.selection_set.secondary.len() == 0 {
                deleted_text(
                    before.buffer.text,
                    cut_actions(before.buffer.text, before.selection_set.primary),
                )
            } else {
                None
            },
        ),
        DispatchEditor::ReplaceSelectionWithCopiedText | DispatchEditor::ReplaceCut => transaction_effect(
            before,
            after,
            groups_for(
                before,
                |s: SelectionView|
                    if has_copied(s, clipboard_of(context)) {
                        replace_cut_actions(before.buffer.text, s, copied_or(s, clipboard_of(context)))
                    } else {
                        None
                    },
            ),
            r,
            as_it_is(),
        ),
        DispatchEditor::ReplaceWithClipboard => transaction_effect(
            before,
            after,
            groups_for(
                before,
                |s: SelectionView|
                    if has_copied(s, clipboard_of(context)) {
                        replace_with_actions(s, copied_or(s, clipboard_of(context)))
                    } else {
                        None
                    },
            ),
            r,
            as_it_is(),
        ),
        DispatchEditor::Change => transaction_effect(
            before,
            after,
            groups_for(before, |s: SelectionView| Some(change_actions(s))),
            r,
            |v: EditorView| inserting(v, Direction::Start),
        ),
        DispatchEditor::Backspace => transaction_effect(
            before,
            after,
            groups_for(before, |s: SelectionView| Some(backspace_actions(s))),
            r,
            as_it_is(),
        ),
        DispatchEditor::Kill => transaction_effect_with(
            before,
            after,
            groups_for(before, |s: SelectionView| kill_at(before, s)),
            r,
            as_it_is(),
            None,
        ),
        DispatchEditor::Insert(text) => transaction_effect(
            before,
            after,
            groups_for(before, |s: SelectionView| insert_actions(s, text@)),
            r,
            as_it_is(),
        ),
        DispatchEditor::OpenNewLine => transaction_effect(
            before,
            after,
            groups_for(
                before,
                |s: SelectionView|
                    open_new_line_actions(before.buffer.text, s, before.cursor_direction),
            ),
            r,
            |v: EditorView| inserting(v, Direction::End),
        ),
        DispatchEditor::KillLine(direction) => transaction_effect(
            before,
            after,
            groups_for(
                before,
                |s: SelectionView|
                    kill_line_actions(before.buffer.text, s, before.cursor_direction, direction),
            ),
            r,
            |v: EditorView| inserting(v, Direction::Start),
        ),
        DispatchEditor::DeleteWordBackward => transaction_effect(
            before,
            after,
            groups_for(before, |s: SelectionView| delete_word_backward_at(before, s)),
            r,
            as_it_is(),
        ),
        DispatchEditor::ReplaceCurrentSelectionWith(text) => transaction_effect(
            before,
            after,
            groups_for(before, |s: SelectionView| replace_with_actions(s, text@)),
            r,
            as_it_is(),
        ),
        DispatchEditor::ApplyPositionalEdit(edit) => transaction_effect(
            before,
            after,
            positional_groups(before.buffer.text, seq![edit], 1),
            r,
            as_it_is(),
        ),
        DispatchEditor::Paste(direction) => transaction_effect(
            before,
            after,
            groups_for(
                before,
                |s: SelectionView| paste_at(before, s, direction, clipboard_of(context)),
            ),
            r,
            as_it_is(),
        ),
        _ => quiet(r) && after == before,
    }
}

/// What an operation asked for by the surroundings does to an editor.
pub open spec fn dispatch_effect(
    before: EditorView,
    after: EditorView,
    context: &Context,
    dispatch: DispatchEditor,
    r: Result<Vec<Dispatch>, EditorError>,
) -> bool {
    if is_view_dispatch(dispatch) {
        view_dispatch_effect(before, after, context, dispatch, r)
    } else if is_mode_dispatch(dispatch) {
        mode_dispatch_effect(before, after, context, dispatch, r)
    } else if is_selection_dispatch(dispatch) {
        selection_dispatch_effect(before, after, context, dispatch, r)
    } else {
        edit_dispatch_effect(before, after, context, dispatch, r)
    }
}

/// What replacing the word under the cursor does: every cursor selects the word it stands on,
/// and the dispatch hands the replacement of the selections back to the editor. Refused, with
/// nothing changed, where a selection does not lie within the text.
pub open spec fn replace_word_effect(
    before: EditorView,
    after: EditorView,
    word: Seq<char>,
    r: Result<Vec<Dispatch>, EditorError>,
) -> bool {
    match generated(before.buffer, before.selection_set, SelectionModeView::Word, Movement::Current) {
        Ok(set) => after == reselected(before, set) && r.is_ok() && r.unwrap()@.len() == 1
            && match r.unwrap()@[0] {
            Dispatch::ToEditor(DispatchEditor::ReplaceCurrentSelectionWith(text)) => text@ == word,
            _ => false,
        },
        Err(e) => r.is_err() && r.unwrap_err() == e && after == before,
    }
}

impl Editor {
    /// Selects the word under every cursor and asks for it to be replaced with `completion`.
    pub fn replace_previous_word(&mut self, completion: String) -> (r: Result<
        Vec<Dispatch>,
        EditorError,
    >)
        requires
            old(self).wf(),
        ensures
            final(self).wf(),
            final(self).buffer == old(self).buffer,
            replace_word_effect(old(self)@, final(self)@, completion@, r),
    {
        let set: SelectionSet = match self.get_selection_set(&SelectionMode::Word, Movement::Current) {
            Ok(s) => s,
            Err(e) => {
                return Err(e);
            },
        };
        self.update_selection_set(set);
        let mut d: Vec<Dispatch> = Vec::new();
        d.push(Dispatch::ToEditor(DispatchEditor::ReplaceCurrentSelectionWith(completion)));
        Ok(d)
    }

    /// Goes to the mode in which the movements go through the history of changes.
    pub fn enter_undo_tree_mode(&mut self)
        ensures
            final(self)@ == in_mode(old(self)@, Mode::UndoTree),
            final(self).buffer == old(self).buffer,
    {
        self.set_mode(Mode::UndoTree);
    }

    /// Saves, given what a formatter has made of the text, if one has run.
    pub fn save(&mut self, formatted: Option<Result<String, String>>) -> (r: (
        Option<String>,
        Vec<Dispatch>,
    ))
        requires
            old(self).wf(),
        ensures
            final(self).wf(),
            save_effect(old(self)@, final(self)@, formatted, r.0, r.1),
    {
        match self.buffer.path() {
            Some(path) => {
                let content: String = match formatted {
                    Some(Ok(text)) => {
                        if self.buffer.can_be_formatted() {
                            self.buffer.apply_formatted(Ok(text), self.selection_set.duplicate())
                        } else {
                            self.buffer.content()
                        }
                    },
                    _ => self.buffer.content(),
                };
                self.clamp();
                self.cursor_keep_primary_only();
                let mut dispatches: Vec<Dispatch> = Vec::new();
                dispatches.push(Dispatch::DocumentDidSave { saved_path: path });
                let mut changed: Vec<Dispatch> = self.get_document_did_change_dispatch();
                let ghost notice = changed@;
                dispatches.append(&mut changed);
                assert(dispatches@.skip(1) =~= notice);
                (Some(content), dispatches)
            },
            None => (None, Vec::new()),
        }
    }

    /// The line shown for the state of the editor: the mode of the keys, the selection mode,
    /// the number of filters where there are any, the number of cursors, and whether jumps
    /// show.
    pub fn display_mode(&self) -> (s: String)
        requires
            self.selection_set.secondary@.len() < usize::MAX,
        ensures
            s@ == displayed_mode(self@),
    {
        let mut s: String = String::from_str(self.mode_name());
        s.append(":");
        s.append(self.selection_set.mode.display());
        if !self.selection_set.filters.is_empty() {
            s.append("(");
            s.append(to_decimal(self.selection_set.filters.filters.len()).as_str());
            s.append(")");
        }
        s.append(" x ");
        s.append(to_decimal(self.selection_set.len()).as_str());
        if self.jumps.is_some() {
            s.append(" (JUMPING)");
        }
        s
    }

    /// Carries out an operation on the view.
    fn apply_view_dispatch(&mut self, context: &Context, dispatch: DispatchEditor) -> (r: Result<
        Vec<Dispatch>,
        EditorError,
    >)
        requires
            old(self).wf(),
            is_view_dispatch(dispatch),
        ensures
            final(self).wf(),
            view_dispatch_effect(old(self)@, final(self)@, context, dispatch, r),
    {
        match dispatch {
            DispatchEditor::SetScrollOffset(n) => {
                self.set_scroll_offset(n);
                Ok(Vec::new())
            },
            DispatchEditor::ShowJumps => match self.show_jumps() {
                Ok(_) => Ok(Vec::new()),
                Err(e) => Err(e),
            },
            DispatchEditor::ScrollPageDown => self.scroll_page_down(),
            DispatchEditor::ScrollPageUp => self.scroll_page_up(),
            DispatchEditor::AlignViewTop => {
                self.align_cursor_to_top();
                Ok(Vec::new())
            },
            DispatchEditor::AlignViewCenter => {
                self.align_cursor_to_center();
                Ok(Vec::new())
            },
            DispatchEditor::AlignViewBottom => {
                self.align_cursor_to_bottom();
                Ok(Vec::new())
            },
            DispatchEditor::SwitchViewAlignment => {
                self.switch_view_alignment();
                Ok(Vec::new())
            },
            DispatchEditor::SetRectangle(rectangle) => {
                self.set_rectangle(rectangle);
                Ok(Vec::new())
            },
            DispatchEditor::SetContent(text) => {
                self.set_content(text.as_str());
                Ok(Vec::new())
            },
            DispatchEditor::ChangeCursorDirection => {
                self.change_cursor_direction();
                Ok(Vec::new())
            },
            DispatchEditor::SetLanguage(language) => {
                self.buffer.set_language(language);
                Ok(Vec::new())
            },
            DispatchEditor::Save => {
                let mut asked: Vec<Dispatch> = Vec::new();
                asked.push(Dispatch::RequestSave);
                Ok(asked)
            },
            _ => Ok(Vec::new()),
        }
    }

    /// Carries out an operation on the mode of the keys, the anchors, the bookmarks or the filters.
    fn apply_mode_dispatch(&mut self, context: &Context, dispatch: DispatchEditor) -> (r: Result<
        Vec<Dispatch>,
        EditorError,
    >)
        requires
            old(self).wf(),
            is_mode_dispatch(dispatch),
        ensures
            final(self).wf(),
            mode_dispatch_effect(old(self)@, final(self)@, context, dispatch, r),
    {
        match dispatch {
            DispatchEditor::FindOneChar => {
                self.set_mode(Mode::FindOneChar);
                Ok(Vec::new())
            },
            DispatchEditor::EnterUndoTreeMode => {
                self.enter_undo_tree_mode();
                Ok(Vec::new())
            },
            DispatchEditor::EnterInsertMode(direction) => {
                self.enter_insert_mode(direction);
                Ok(Vec::new())
            },
            DispatchEditor::EnterNormalMode => {
                self.enter_normal_mode();
                Ok(Vec::new())
            },
            DispatchEditor::EnterExchangeMode => {
                self.set_mode(Mode::Exchange);
                Ok(Vec::new())
            },
            DispatchEditor::EnterReplaceMode => {
                self.set_mode(Mode::Replace);
                Ok(Vec::new())
            },
            DispatchEditor::EnterMultiCursorMode => {
                self.set_mode(Mode::MultiCursor);
                Ok(Vec::new())
            },
            DispatchEditor::Reset => {
                self.reset();
                Ok(Vec::new())
            },
            DispatchEditor::ToggleHighlightMode => {
                self.toggle_highlight_mode();
                Ok(Vec::new())
            },
            DispatchEditor::ToggleBookmark => {
                self.toggle_bookmarks();
                Ok(Vec::new())
            },
            DispatchEditor::FilterPush(filter) => self.filters_push(filter),
            DispatchEditor::FilterClear => {
                self.filters_clear();
                Ok(Vec::new())
            },
            DispatchEditor::CursorKeepPrimaryOnly => {
                self.cursor_keep_primary_only();
                Ok(Vec::new())
            },
            DispatchEditor::SelectAll => Ok(self.select_all()),
            DispatchEditor::MoveToLineStart => Ok(self.move_to_line_start()),
            DispatchEditor::MoveToLineEnd => Ok(self.move_to_line_end()),
            _ => Ok(Vec::new()),
        }
    }

    /// Carries out an operation that moves the selections, copies, transforms, or steps through the
    /// history.
    fn apply_selection_dispatch(&mut self, context: &Context, dispatch: DispatchEditor) -> (r: Result<
        Vec<Dispatch>,
        EditorError,
    >)
        requires
            old(self).wf(),
            is_selection_dispatch(dispatch),
        ensures
            final(self).wf(),
            selection_dispatch_effect(old(self)@, final(self)@, context, dispatch, r),
    {
        match dispatch {
            DispatchEditor::SetSelectionMode(mode) => self.set_selection_mode(mode),
            DispatchEditor::MoveSelection(movement) => self.handle_movement(context, movement),
            DispatchEditor::SelectLine(movement) => self.select_line(movement),
            DispatchEditor::MatchLiteral(text) => self.match_literal(text.as_str()),
            DispatchEditor::EnterInsideMode(kind) => self.set_selection_mode(
                SelectionMode::Inside(kind),
            ),
            DispatchEditor::CursorAddToAllSelections => match self.add_cursor_to_all_selections() {
                Ok(_) => Ok(Vec::new()),
                Err(e) => Err(e),
            },
            DispatchEditor::SelectLineAt(line) => self.select_line_at(line),
            DispatchEditor::SelectKids => self.select_kids(),
            DispatchEditor::ReplacePreviousWord(word) => self.replace_previous_word(word),
            DispatchEditor::Copy => self.copy(),
            DispatchEditor::Exchange(movement) => self.exchange(movement),
            DispatchEditor::Raise => self.replace(Movement::Parent),
            DispatchEditor::Undo => {
                let r = self.undo();
                assert(history_effect(old(self)@, self@, true, r));
                r
            },
            DispatchEditor::Redo => {
                let r = self.redo();
                assert(history_effect(old(self)@, self@, false, r));
                r
            },
            _ => Ok(Vec::new()),
        }
    }

    /// Carries out an operation that edits the text.
    fn apply_edit_dispatch(&mut self, context: &Context, dispatch: DispatchEditor) -> (r: Result<
        Vec<Dispatch>,
        EditorError,
    >)
        requires
            old(self).wf(),
        ensures
            final(self).wf(),
            edit_dispatch_effect(old(self)@, final(self)@, context, dispatch, r),
    {
        match dispatch {
            DispatchEditor::Surround(open, close) => self.enclose(open.as_str(), close.as_str()),
            DispatchEditor::Cut => self.cut(),
            DispatchEditor::ReplaceSelectionWithCopiedText | DispatchEditor::ReplaceCut => self.replace_cut(
                context,
            ),
            DispatchEditor::ReplaceWithClipboard => self.replace_with_clipboard(context),
            DispatchEditor::Change => self.change(),
            DispatchEditor::Backspace => self.backspace(),
            DispatchEditor::Kill => self.kill(false),
            DispatchEditor::Insert(text) => self.insert(text.as_str()),
            DispatchEditor::OpenNewLine => self.open_new_line(),
            DispatchEditor::KillLine(direction) => self.kill_line(direction),
            DispatchEditor::DeleteWordBackward => self.delete_word_backward(),
            DispatchEditor::ReplaceCurrentSelectionWith(text) => self.replace_current_selection_with(
                text.as_str(),
            ),
            DispatchEditor::ApplyPositionalEdit(edit) => self.apply_positional_edit(edit),
            DispatchEditor::Paste(direction) => self.paste(direction, context),
            _ => Ok(Vec::new()),
        }
    }

    /// Does an operation that the surroundings ask for.
    pub fn apply_dispatch(&mut self, context: &Context, dispatch: DispatchEditor) -> (r: Result<
        Vec<Dispatch>,
        EditorError,
    >)
        requires
            old(self).wf(),
        ensures
            final(self).wf(),
            dispatch_effect(old(self)@, final(self)@, context, dispatch, r),
    {
        if is_view(&dispatch) {
            self.apply_view_dispatch(context, dispatch)
        } else if is_mode(&dispatch) {
            self.apply_mode_dispatch(context, dispatch)
        } else if is_selection(&dispatch) {
            self.apply_selection_dispatch(context, dispatch)
        } else {
            self.apply_edit_dispatch(context, dispatch)
        }
    }
}

/// Whether an operation is one on the view.
fn is_view(dispatch: &DispatchEditor) -> (b: bool)
    ensures
        b == is_view_dispatch(*dispatch),
{
    match dispatch {
        DispatchEditor::SetScrollOffset(_) | DispatchEditor::ShowJumps
        | DispatchEditor::ScrollPageDown | DispatchEditor::ScrollPageUp
        | DispatchEditor::AlignViewTop | DispatchEditor::AlignViewCenter
        | DispatchEditor::AlignViewBottom | DispatchEditor::SwitchViewAlignment
        | DispatchEditor::SetRectangle(_) | DispatchEditor::SetContent(_)
        | DispatchEditor::ChangeCursorDirection | DispatchEditor::SetLanguage(_)
        | DispatchEditor::Save => true,
        _ => false,
    }
}

/// Whether an operation is one on the mode of the keys, the anchors, the bookmarks or the filters.
fn is_mode(dispatch: &DispatchEditor) -> (b: bool)
    ensures
        b == is_mode_dispatch(*dispatch),
{
    match dispatch {
        DispatchEditor::FindOneChar | DispatchEditor::EnterUndoTreeMode
        | DispatchEditor::EnterInsertMode(_) | DispatchEditor::EnterNormalMode
        | DispatchEditor::EnterExchangeMode | DispatchEditor::EnterReplaceMode
        | DispatchEditor::EnterMultiCursorMode | DispatchEditor::Reset
        | DispatchEditor::ToggleHighlightMode | DispatchEditor::ToggleBookmark
        | DispatchEditor::FilterPush(_) | DispatchEditor::FilterClear
        | DispatchEditor::CursorKeepPrimaryOnly | DispatchEditor::SelectAll
        | DispatchEditor::MoveToLineStart | DispatchEditor::MoveToLineEnd => true,
        _ => false,
    }
}

/// Whether an operation moves the selections, copies, transforms, or steps through the history.
fn is_selection(dispatch: &DispatchEditor) -> (b: bool)
    ensures
        b == is_selection_dispatch(*dispatch),
{
    match dispatch {
        DispatchEditor::SetSelectionMode(_) | DispatchEditor::MoveSelection(_)
        | DispatchEditor::SelectLine(_) | DispatchEditor::MatchLiteral(_)
        | DispatchEditor::EnterInsideMode(_) | DispatchEditor::CursorAddToAllSelections
        | DispatchEditor::SelectLineAt(_) | DispatchEditor::SelectKids
        | DispatchEditor::ReplacePreviousWord(_) | DispatchEditor::Copy
        | DispatchEditor::Exchange(_) | DispatchEditor::Raise | DispatchEditor::Undo
        | DispatchEditor::Redo => true,
        _ => false,
    }
}

/// The line shown for the state of an editor.
pub open spec fn displayed_mode(v: EditorView) -> Seq<char> {
    crate::components::dispatching::mode_text(v.mode) + ":"@ + v.selection_set.mode.name() + (if v.selection_set.filters.len() > 0 {
        "("@ + decimal(v.selection_set.filters.len()) + ")"@
    } else {
        Seq::empty()
    }) + " x "@ + decimal(v.selection_set.all().len()) + (if v.jumps.is_some() {
        " (JUMPING)"@
    } else {
        Seq::empty()
    })
}

} // verus!
