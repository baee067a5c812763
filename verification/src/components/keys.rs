use vstd::prelude::*;
use crate::app::Dispatch;
use crate::char_index::CharIndexRange;
use crate::components::actions::{
    backspace_actions, cut_actions, insert_actions, replace_with_actions,
};
use crate::components::copying::{copy_effect, stepped_set};
use crate::components::dispatching::{
    HandleEventResult, history_effect, in_mode, mode_effect, movement_effect,
};
use crate::components::editing::{
    as_it_is, clipboard_of, copied_or, deleted_text, delete_word_backward_at, groups_for,
    has_copied, transaction_effect, transaction_effect_with,
};
use crate::components::editor::{
    Direction, DispatchEditor, Editor, EditorView, Jump, JumpView, Mode, Movement, inserting, jumps_view,
    normal, realigned,
};
use crate::components::jumps::{jump_alphabet, jump_characters, narrow_jumps, narrowed};
use crate::components::navigation::all_elements;
use crate::context::Context;
use crate::error::EditorError;
use crate::key_event_parser::{KeyCode, KeyEvent, KeyModifiers};
use crate::list::grep::GrepConfig;
use crate::selection::{Search, SelectionMode, SelectionModeView, SelectionSetView, SelectionView};
use crate::text::string_from_chars;

verus! {

/// Whether a key event is this key with no other key held down.
pub open spec fn is_plain(key: KeyEvent, code: KeyCode) -> bool {
    key.code == code && key.modifiers == KeyModifiers::none()
}

/// Whether a key event is this character with the control key held down.
pub open spec fn is_ctrl(key: KeyEvent, c: char) -> bool {
    key.code == KeyCode::Char(c) && key.modifiers == (KeyModifiers {
        control: true,
        alt: false,
        shift: false,
    })
}

/// Whether a key event is this key with no other key held down.
fn plain(key: &KeyEvent, code: KeyCode) -> (b: bool)
    ensures
        b == is_plain(*key, code),
{
    key.code == code && !key.modifiers.control && !key.modifiers.alt && !key.modifiers.shift
}

/// Whether a key event is this character with the control key held down.
fn ctrl(key: &KeyEvent, c: char) -> (b: bool)
    ensures
        b == is_ctrl(*key, c),
{
    key.code == KeyCode::Char(c) && key.modifiers.control && !key.modifiers.alt
        && !key.modifiers.shift
}

/// The search for one character as written, in the case given.
pub open spec fn one_char_search(c: char) -> SelectionModeView {
    SelectionModeView::Find {
        search: seq![c],
        config: GrepConfig { escaped: true, case_sensitive: true, match_whole_word: false },
    }
}

/// What a key does while jumps show: escape takes them away; a character narrows them down to
/// those under that label, and where one is left, the movement goes there; any other key
/// takes them away. Where no jumps show, they count as an empty list.
pub open spec fn jump_key_effect(
    before: EditorView,
    after: EditorView,
    context: &Context,
    key: KeyEvent,
    r: Result<Vec<Dispatch>, EditorError>,
) -> bool {
    let cleared = EditorView { jumps: None, ..before };
    let shown = match before.jumps {
        Some(jumps) => jumps,
        None => Seq::empty(),
    };
    match key.code {
        KeyCode::Char(c) => {
            let (left, target) = narrowed(shown, c, jump_alphabet());
            match target {
                Some(range) => movement_effect(cleared, after, context, Movement::Jump(range), r),
                None => r.is_ok() && r.unwrap()@.len() == 0 && after == (EditorView {
                    jumps: left,
                    ..before
                }),
            }
        },
        _ => r.is_ok() && r.unwrap()@.len() == 0 && after == cleared,
    }
}

impl Editor {
    /// Deals with a key while jumps show.
    pub fn handle_jump_mode(&mut self, context: &Context, key: KeyEvent) -> (r: Result<
        Vec<Dispatch>,
        EditorError,
    >)
        requires
            old(self).wf(),
        ensures
            final(self).wf(),
            jump_key_effect(old(self)@, final(self)@, context, key, r),
    {
        let jumps: Vec<Jump> = match self.jumps.take() {
            Some(j) => j,
            None => Vec::new(),
        };
        assert(old(self).jumps.is_none() ==> jumps_view(jumps@) =~= Seq::<JumpView>::empty());
        assert(self@ == (EditorView { jumps: None, ..old(self)@ }));
        match key.code {
            KeyCode::Char(c) => {
                let (left, target) = narrow_jumps(&jumps, c, &jump_characters());
                match target {
                    Some(range) => self.handle_movement(context, Movement::Jump(range)),
                    None => {
                        self.jumps = left;
                        Ok(Vec::new())
                    },
                }
            },
            _ => Ok(Vec::new()),
        }
    }

    /// Deals with a key in insert mode. Escape leads to normal mode; backspace, enter and tab
    /// edit the text; the keys for the ends of the line and for killing hand the operation back
    /// as a dispatch; a character is typed. Any other key does nothing.
    pub fn handle_insert_mode(&mut self, key: KeyEvent) -> (r: Result<Vec<Dispatch>, EditorError>)
        requires
            old(self).wf(),
        ensures
            final(self).wf(),
            insert_key_effect(old(self)@, final(self)@, key, r),
    {
        if plain(&key, KeyCode::Esc) {
            self.enter_normal_mode();
            Ok(Vec::new())
        } else if plain(&key, KeyCode::Backspace) {
            self.backspace()
        } else if plain(&key, KeyCode::Enter) {
            proof {
                reveal_strlit("\n");
                assert("\n"@ =~= seq!['\n']);
            }
            self.insert("\n")
        } else if plain(&key, KeyCode::Tab) {
            proof {
                reveal_strlit("\t");
                assert("\t"@ =~= seq!['\t']);
            }
            self.insert("\t")
        } else if ctrl(&key, 'a') || plain(&key, KeyCode::Home) {
            Ok(self.move_to_line_start())
        } else if ctrl(&key, 'e') || plain(&key, KeyCode::End) {
            Ok(self.move_to_line_end())
        } else if key.code == KeyCode::Backspace && key.modifiers.alt && !key.modifiers.control
            && !key.modifiers.shift {
            self.delete_word_backward()
        } else if ctrl(&key, 'k') {
            let mut d: Vec<Dispatch> = Vec::new();
            d.push(Dispatch::ToEditor(DispatchEditor::KillLine(Direction::End)));
            Ok(d)
        } else if ctrl(&key, 'u') {
            let mut d: Vec<Dispatch> = Vec::new();
            d.push(Dispatch::ToEditor(DispatchEditor::KillLine(Direction::Start)));
            Ok(d)
        } else {
            match key.code {
                KeyCode::Char(c) => {
                    let mut one: Vec<char> = Vec::new();
                    one.push(c);
                    let text: String = string_from_chars(&one);
                    assert(text@ =~= seq![c]);
                    self.insert(text.as_str())
                },
                _ => Ok(Vec::new()),
            }
        }
    }

    /// Deals with a key that means the same in every mode: the arrows to the left and right
    /// and their control keys move the cursors; the control keys for copying, cutting and
    /// pasting, for the history, for the alignment of the view and for saving do that. Any
    /// other key is handed back.
    pub fn handle_universal_key(&mut self, context: &Context, key: KeyEvent) -> (r: Result<
        HandleEventResult,
        EditorError,
    >)
        requires
            old(self).wf(),
        ensures
            final(self).wf(),
            r matches Ok(HandleEventResult::Ignored(k)) ==> k == key && final(self)@ == old(self)@
                && !is_universal(key),
            r.is_ok() && is_universal(key) ==> r.unwrap() is Handled,
            is_universal(key) ==> handled(r).is_some() && universal_key_effect(
                old(self)@,
                final(self)@,
                context,
                key,
                handled(r).unwrap(),
            ),
            !is_universal(key) ==> r == Ok::<HandleEventResult, EditorError>(
                HandleEventResult::Ignored(key),
            ) && final(self)@ == old(self)@ && final(self).jumps.is_some() == old(self).jumps.is_some(),
    {
        if plain(&key, KeyCode::Left) || ctrl(&key, 'b') {
            self.move_cursors(false);
            Ok(HandleEventResult::Handled(Vec::new()))
        } else if plain(&key, KeyCode::Right) || ctrl(&key, 'f') {
            self.move_cursors(true);
            Ok(HandleEventResult::Handled(Vec::new()))
        } else if ctrl(&key, 'y') {
            let r = self.redo();
            assert(history_effect(old(self)@, self@, false, r));
            match r {
                Ok(d) => Ok(HandleEventResult::Handled(d)),
                Err(e) => Err(e),
            }
        } else if ctrl(&key, 'z') {
            let r = self.undo();
            assert(history_effect(old(self)@, self@, true, r));
            match r {
                Ok(d) => Ok(HandleEventResult::Handled(d)),
                Err(e) => Err(e),
            }
        } else if ctrl(&key, 'c') {
            match self.copy() {
                Ok(d) => Ok(HandleEventResult::Handled(d)),
                Err(e) => Err(e),
            }
        } else if ctrl(&key, 'l') {
            self.switch_view_alignment();
            Ok(HandleEventResult::Handled(Vec::new()))
        } else if ctrl(&key, 's') {
            self.mode = Mode::Normal;
            let mut d: Vec<Dispatch> = Vec::new();
            d.push(Dispatch::RequestSave);
            Ok(HandleEventResult::Handled(d))
        } else if ctrl(&key, 'x') {
            match self.cut() {
                Ok(d) => Ok(HandleEventResult::Handled(d)),
                Err(e) => Err(e),
            }
        } else if ctrl(&key, 'v') {
            match self.replace_with_clipboard(context) {
                Ok(d) => Ok(HandleEventResult::Handled(d)),
                Err(e) => Err(e),
            }
        } else {
            Ok(HandleEventResult::Ignored(key))
        }
    }

    /// Deals with a key. The keys that mean the same everywhere come first; then, while jumps
    /// show, the key picks among them; else the mode of the keys decides. In normal mode, and
    /// in the modes that go by its keys, a key that is not escape is handed back for the keymap
    /// of the surroundings.
    pub fn handle_key_event(&mut self, context: &Context, key: KeyEvent) -> (r: Result<
        HandleEventResult,
        EditorError,
    >)
        requires
            old(self).wf(),
        ensures
            final(self).wf(),
            key_effect(old(self)@, final(self)@, context, key, r),
    {
        match self.handle_universal_key(context, key) {
            Err(e) => Err(e),
            Ok(HandleEventResult::Handled(d)) => Ok(HandleEventResult::Handled(d)),
            Ok(HandleEventResult::Ignored(key)) => {
                if self.jumps.is_some() {
                    return match self.handle_jump_mode(context, key) {
                        Ok(d) => Ok(HandleEventResult::Handled(d)),
                        Err(e) => Err(e),
                    };
                }
                match self.mode {
                    Mode::Normal => Ok(HandleEventResult::Ignored(key)),
                    Mode::Insert => match self.handle_insert_mode(key) {
                        Ok(d) => Ok(HandleEventResult::Handled(d)),
                        Err(e) => Err(e),
                    },
                    Mode::MultiCursor => {
                        if plain(&key, KeyCode::Esc) {
                            self.enter_normal_mode();
                            Ok(HandleEventResult::Handled(Vec::new()))
                        } else if plain(&key, KeyCode::Char('a')) {
                            match self.add_cursor_to_all_selections() {
                                Ok(_) => Ok(HandleEventResult::Handled(Vec::new())),
                                Err(e) => Err(e),
                            }
                        } else if plain(&key, KeyCode::Char('o')) {
                            self.cursor_keep_primary_only();
                            Ok(HandleEventResult::Handled(Vec::new()))
                        } else {
                            Ok(HandleEventResult::Ignored(key))
                        }
                    },
                    Mode::FindOneChar => match key.code {
                        KeyCode::Char(c) => {
                            self.enter_normal_mode();
                            let mut one: Vec<char> = Vec::new();
                            one.push(c);
                            let text: String = string_from_chars(&one);
                            assert(text@ =~= seq![c]);
                            match self.set_selection_mode(
                                SelectionMode::Find {
                                    search: Search {
                                        search: text,
                                        config: GrepConfig {
                                            escaped: true,
                                            case_sensitive: true,
                                            match_whole_word: false,
                                        },
                                    },
                                },
                            ) {
                                Ok(d) => Ok(HandleEventResult::Handled(d)),
                                Err(e) => Err(e),
                            }
                        },
                        KeyCode::Esc => {
                            self.enter_normal_mode();
                            Ok(HandleEventResult::Handled(Vec::new()))
                        },
                        _ => Ok(HandleEventResult::Handled(Vec::new())),
                    },
                    Mode::Exchange | Mode::UndoTree | Mode::Replace => {
                        if plain(&key, KeyCode::Esc) {
                            self.enter_normal_mode();
                            Ok(HandleEventResult::Handled(Vec::new()))
                        } else {
                            Ok(HandleEventResult::Ignored(key))
                        }
                    },
                }
            },
        }
    }
}

/// Whether a key means the same in every mode.
pub open spec fn is_universal(key: KeyEvent) -> bool {
    is_plain(key, KeyCode::Left) || is_ctrl(key, 'b') || is_plain(key, KeyCode::Right) || is_ctrl(
        key,
        'f',
    ) || is_ctrl(key, 'c') || is_ctrl(key, 'l') || is_ctrl(key, 's') || is_ctrl(key, 'x')
        || is_ctrl(key, 'v') || is_ctrl(key, 'y') || is_ctrl(key, 'z')
}

/// What a key that means the same in every mode does.
pub open spec fn universal_key_effect(
    before: EditorView,
    after: EditorView,
    context: &Context,
    key: KeyEvent,
    r: Result<Vec<Dispatch>, EditorError>,
) -> bool {
    if is_plain(key, KeyCode::Left) || is_ctrl(key, 'b') {
        r.is_ok() && r.unwrap()@.len() == 0 && after == (EditorView {
            selection_set: stepped_set(before.selection_set, false),
            ..before
        })
    } else if is_plain(key, KeyCode::Right) || is_ctrl(key, 'f') {
        r.is_ok() && r.unwrap()@.len() == 0 && after == (EditorView {
            selection_set: stepped_set(before.selection_set, true),
            ..before
        })
    } else if is_ctrl(key, 'y') {
        history_effect(before, after, false, r)
    } else if is_ctrl(key, 'z') {
        history_effect(before, after, true, r)
    } else if is_ctrl(key, 'c') {
        copy_effect(before, after, r)
    } else if is_ctrl(key, 'l') {
        r.is_ok() && r.unwrap()@.len() == 0 && after == realigned(before)
    } else if is_ctrl(key, 's') {
        r.is_ok() && r.unwrap()@ == seq![Dispatch::RequestSave] && after == in_mode(
            before,
            Mode::Normal,
        )
    } else if is_ctrl(key, 'x') {
        transaction_effect_with(
            before,
            after,
            groups_for(before, |s: SelectionView| cut_actions(before.buffer.text, s)),
            r,
            |v: EditorView| inserting(v, Direction::Start),
            if before.selection_set.secondary.len() == 0 {
                deleted_text(
                    before.buffer.text,
                    cut_actions(before.buffer.text, before.selection_set.primary),
                )
            } else {
                None
            },
        )
    } else {
        transaction_effect(
            before,
            after,
            groups_for(
                before,
                |s: SelectionView|
                    if has_copied(s, clipboard_of(context)) {
                        replace_with_actions(s, copied_or(s, clipboard_of(context)))
                    } else {
                        None
                    },
            ),
            r,
            as_it_is(),
        )
    }
}

/// Whether a key event is the backspace key with the alt key held down.
pub open spec fn is_alt_backspace(key: KeyEvent) -> bool {
    key.code == KeyCode::Backspace && key.modifiers == (KeyModifiers {
        control: false,
        alt: true,
        shift: false,
    })
}

/// What a key does in insert mode.
pub open spec fn insert_key_effect(
    before: EditorView,
    after: EditorView,
    key: KeyEvent,
    r: Result<Vec<Dispatch>, EditorError>,
) -> bool {
    if is_plain(key, KeyCode::Esc) {
        r.is_ok() && r.unwrap()@.len() == 0 && after == normal(before)
    } else if is_plain(key, KeyCode::Backspace) {
        transaction_effect(
            before,
            after,
            groups_for(before, |s: SelectionView| Some(backspace_actions(s))),
            r,
            as_it_is(),
        )
    } else if is_plain(key, KeyCode::Enter) {
        transaction_effect(
            before,
            after,
            groups_for(before, |s: SelectionView| insert_actions(s, seq!['\n'])),
            r,
            as_it_is(),
        )
    } else if is_plain(key, KeyCode::Tab) {
        transaction_effect(
            before,
            after,
            groups_for(before, |s: SelectionView| insert_actions(s, seq!['\t'])),
            r,
            as_it_is(),
        )
    } else if is_ctrl(key, 'a') || is_plain(key, KeyCode::Home) {
        after == before && r.is_ok() && r.unwrap()@ == seq![
            Dispatch::ToEditor(DispatchEditor::SelectLine(Movement::Current)),
            Dispatch::ToEditor(DispatchEditor::EnterInsertMode(Direction::Start)),
        ]
    } else if is_ctrl(key, 'e') || is_plain(key, KeyCode::End) {
        after == before && r.is_ok() && r.unwrap()@ == seq![
            Dispatch::ToEditor(DispatchEditor::SelectLine(Movement::Current)),
            Dispatch::ToEditor(DispatchEditor::EnterInsertMode(Direction::End)),
        ]
    } else if is_alt_backspace(key) {
        transaction_effect(
            before,
            after,
            groups_for(before, |s: SelectionView| delete_word_backward_at(before, s)),
            r,
            as_it_is(),
        )
    } else if is_ctrl(key, 'k') {
        after == before && r.is_ok() && r.unwrap()@ == seq![
            Dispatch::ToEditor(DispatchEditor::KillLine(Direction::End)),
        ]
    } else if is_ctrl(key, 'u') {
        after == before && r.is_ok() && r.unwrap()@ == seq![
            Dispatch::ToEditor(DispatchEditor::KillLine(Direction::Start)),
        ]
    } else {
        match key.code {
            KeyCode::Char(c) => transaction_effect(
                before,
                after,
                groups_for(before, |s: SelectionView| insert_actions(s, seq![c])),
                r,
                as_it_is(),
            ),
            _ => after == before && r.is_ok() && r.unwrap()@.len() == 0,
        }
    }
}

/// The dispatches of a key that was dealt with; `None` for a key handed back.
pub open spec fn handled(r: Result<HandleEventResult, EditorError>) -> Option<
    Result<Vec<Dispatch>, EditorError>,
> {
    match r {
        Ok(HandleEventResult::Handled(d)) => Some(Ok(d)),
        Ok(HandleEventResult::Ignored(_)) => None,
        Err(e) => Some(Err(e)),
    }
}

/// What a key does: what it does everywhere, if it means the same in every mode; else what it
/// does while jumps show or in the mode of the keys.
pub open spec fn key_effect(
    before: EditorView,
    after: EditorView,
    context: &Context,
    key: KeyEvent,
    r: Result<HandleEventResult, EditorError>,
) -> bool {
    if is_universal(key) {
        handled(r).is_some() && universal_key_effect(before, after, context, key, handled(r).unwrap())
    } else {
        plain_key_effect(before, after, context, key, r)
    }
}

/// What a key that does not mean the same everywhere does.
pub open spec fn plain_key_effect(
    before: EditorView,
    after: EditorView,
    context: &Context,
    key: KeyEvent,
    r: Result<HandleEventResult, EditorError>,
) -> bool {
    if before.jumps.is_some() {
        handled(r).is_some() && jump_key_effect(before, after, context, key, handled(r).unwrap())
    } else {
        match before.mode {
            Mode::Normal => after == before && r == Ok::<HandleEventResult, EditorError>(
                HandleEventResult::Ignored(key),
            ),
            Mode::Insert => handled(r).is_some() && insert_key_effect(
                before,
                after,
                key,
                handled(r).unwrap(),
            ),
            Mode::MultiCursor => if is_plain(key, KeyCode::Esc) {
                after == normal(before) && handled(r).is_some() && handled(r).unwrap().is_ok()
                    && handled(r).unwrap().unwrap()@.len() == 0
            } else if is_plain(key, KeyCode::Char('a')) {
                match all_elements(before) {
                    Ok(set) => handled(r).is_some() && handled(r).unwrap().is_ok() && after
                        == normal(
                        crate::components::editor::scrolled(EditorView { selection_set: set, ..before }),
                    ),
                    Err(e) => r.is_err() && r.unwrap_err() == e && after == before,
                }
            } else if is_plain(key, KeyCode::Char('o')) {
                handled(r).is_some() && handled(r).unwrap().is_ok() && after == normal(
                    EditorView {
                        selection_set: SelectionSetView {
                            secondary: Seq::empty(),
                            ..before.selection_set
                        },
                        ..before
                    },
                )
            } else {
                after == before && r == Ok::<HandleEventResult, EditorError>(
                    HandleEventResult::Ignored(key),
                )
            },
            Mode::FindOneChar => match key.code {
                KeyCode::Char(c) => handled(r).is_some() && mode_effect_after_normal(
                    before,
                    after,
                    one_char_search(c),
                    handled(r).unwrap(),
                ),
                KeyCode::Esc => after == normal(before) && handled(r).is_some() && handled(
                    r,
                ).unwrap().is_ok(),
                _ => after == before && handled(r).is_some() && handled(r).unwrap().is_ok(),
            },
            _ => if is_plain(key, KeyCode::Esc) {
                after == normal(before) && handled(r).is_some() && handled(r).unwrap().is_ok()
            } else {
                after == before && r == Ok::<HandleEventResult, EditorError>(
                    HandleEventResult::Ignored(key),
                )
            },
        }
    }
}

/// What going to normal mode and then over to a selection mode does: where the selection mode
/// is refused, the editor stays in normal mode.
pub open spec fn mode_effect_after_normal(
    before: EditorView,
    after: EditorView,
    mode: SelectionModeView,
    r: Result<Vec<Dispatch>, EditorError>,
) -> bool {
    mode_effect(normal(before), after, mode, r)
}

} // verus!
