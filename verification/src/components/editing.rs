use vstd::prelude::*;
use crate::buffer::{moved_decorations, moved_spans, tree_of};
use crate::app::Dispatch;
use crate::buffer::{Buffer, BufferView, is_edit_step, selection_set_after, text_after};
use crate::char_index::{CharIndex, CharIndexRange};
use crate::components::actions::{
    delete_word_backward_actions, delete_word_backward_group, empty_at, kill_line_actions,
    kill_line_group, open_new_line_actions, open_new_line_group, positional_actions,
    positional_group, word_probe, backspace_actions, backspace_group, change_actions, change_group,
    cut_actions, cut_group, enclose_actions, enclose_group, get_smart_separator, insert_actions,
    insert_group, kill_actions, kill_group, paste_actions, paste_group, replace_cut_actions,
    replace_cut_group, replace_with_actions, replace_with_group, smart_separator, within,
};
use crate::components::editor::{
    Direction, Editor, EditorView, Movement, PositionalEdit, inserting, scrolled,
};
use crate::context::Context;
use crate::edit::{Action, ActionGroup, ActionView, EditTransaction, groups_view, normalized};
use crate::error::EditorError;
use crate::overlay::map_ranges;
use crate::selection::{
    FilterView, Filters, Selection, SelectionMode, SelectionModeView, SelectionSet,
    SelectionSetView, SelectionView, views_of,
};
use crate::selection_mode::{get_selection, moved_selection};

verus! {

/// What a transaction made of `groups` comes to on a text: the actions in document order, the
/// place of the primary selection among those they name, and the text they leave; or why the
/// transaction is refused.
pub open spec fn outcome(text: Seq<char>, groups: Seq<Seq<ActionView>>) -> Result<
    (Seq<ActionView>, nat, Seq<char>),
    EditorError,
> {
    match normalized(groups) {
        Err(e) => Err(e),
        Ok((actions, primary)) => match text_after(text, actions, actions.len() as int) {
            Err(e) => Err(e),
            Ok(after) => Ok((actions, primary, after)),
        },
    }
}

/// What a transaction does to a buffer: the text is the one the actions leave, the way back is
/// on the undo stack, what is laid over the text has moved with the edits, the syntax tree is
/// the one that the new text has under the grammar, and the rest is as it was.
pub open spec fn buffer_edited(
    before: EditorView,
    after: BufferView,
    actions: Seq<ActionView>,
    text: Seq<char>,
) -> bool {
    &&& is_edit_step(before.buffer, after, text, before.selection_set)
    &&& after.bookmarks == map_ranges(before.buffer.bookmarks, actions)
    &&& after.diagnostic_ranges == map_ranges(before.buffer.diagnostic_ranges, actions)
    &&& after.diagnostics == before.buffer.diagnostics
    &&& after.path == before.buffer.path
    &&& after.language == before.buffer.language
    &&& after.tree == tree_of(before.buffer.language, text)
    &&& after.highlighted_spans == moved_spans(
        before.buffer.text,
        text,
        before.buffer.highlighted_spans,
        actions,
    )
    &&& after.decorations == moved_decorations(before.buffer.decorations, actions)
}

/// An editor after a transaction, given the buffer as the transaction left it: the selections
/// are those that the transaction names, and the view has followed the cursor.
pub open spec fn after_edit(
    before: EditorView,
    actions: Seq<ActionView>,
    primary: nat,
    text: Seq<char>,
    buffer: BufferView,
) -> EditorView {
    scrolled(
        EditorView {
            selection_set: selection_set_after(
                before.selection_set,
                actions,
                primary,
                text.len() as usize,
            ),
            buffer,
            ..before
        },
    )
}

/// Whether the dispatches are the one notice that the text of the editor has changed.
pub open spec fn is_did_change(dispatches: Seq<Dispatch>, v: EditorView) -> bool {
    dispatches.len() == 1 && match dispatches[0] {
        Dispatch::DocumentDidChange { component_id, path, content } => component_id == v.id
            && content@ == v.buffer.text && (match path {
            Some(p) => v.buffer.path == Some(p@),
            None => v.buffer.path.is_none(),
        }),
        _ => false,
    }
}

/// Whether the dispatches are the notice that the text of the editor has changed, and then
/// the request to put `text` on the clipboard, if there is one.
pub open spec fn is_did_change_and_copy(
    dispatches: Seq<Dispatch>,
    v: EditorView,
    text: Option<Seq<char>>,
) -> bool {
    match text {
        None => is_did_change(dispatches, v),
        Some(t) => dispatches.len() == 2 && is_did_change(dispatches.take(1), v) && match dispatches[1] {
            Dispatch::SetClipboardContent(s) => s@ == t,
            _ => false,
        },
    }
}

/// What applying the groups of the cursors does to an editor, with `then` done to it
/// afterwards: nothing where the transaction is refused; else the buffer is edited, the
/// selections are those that the groups name, the view follows the cursor, and the dispatches
/// say that the text has changed, and ask for `copied` to be put on the clipboard, if it is
/// there.
pub open spec fn transaction_effect_with(
    before: EditorView,
    after: EditorView,
    groups: Seq<Seq<ActionView>>,
    r: Result<Vec<Dispatch>, EditorError>,
    then: spec_fn(EditorView) -> EditorView,
    copied: Option<Seq<char>>,
) -> bool {
    match outcome(before.buffer.text, groups) {
        Err(e) => r.is_err() && r.unwrap_err() == e && after == before,
        Ok((actions, primary, text)) => {
            &&& r.is_ok()
            &&& buffer_edited(before, after.buffer, actions, text)
            &&& after == then(after_edit(before, actions, primary, text, after.buffer))
            &&& is_did_change_and_copy(r.unwrap()@, after, copied)
        },
    }
}

/// What applying the groups of the cursors does to an editor, with `then` done to it
/// afterwards, where nothing goes to the clipboard.
pub open spec fn transaction_effect(
    before: EditorView,
    after: EditorView,
    groups: Seq<Seq<ActionView>>,
    r: Result<Vec<Dispatch>, EditorError>,
    then: spec_fn(EditorView) -> EditorView,
) -> bool {
    transaction_effect_with(before, after, groups, r, then, None)
}

/// The groups of those among the first `n` selections for which `f` gives one, in order.
pub open spec fn kept_groups(
    selections: Seq<SelectionView>,
    f: spec_fn(SelectionView) -> Option<Seq<ActionView>>,
    n: int,
) -> Seq<Seq<ActionView>>
    decreases n,
{
    if n <= 0 {
        Seq::empty()
    } else {
        match f(selections[n - 1]) {
            Some(g) => kept_groups(selections, f, n - 1).push(g),
            None => kept_groups(selections, f, n - 1),
        }
    }
}

/// The groups that `f` gives for the selections of an editor, the primary selection first.
pub open spec fn groups_for(v: EditorView, f: spec_fn(SelectionView) -> Option<Seq<ActionView>>) -> Seq<
    Seq<ActionView>,
> {
    kept_groups(v.selection_set.all(), f, v.selection_set.all().len() as int)
}

/// Puts a group behind the others.
pub fn push_group(groups: &mut Vec<ActionGroup>, g: ActionGroup)
    ensures
        groups_view(final(groups)@) == groups_view(old(groups)@).push(g@),
{
    groups.push(g);
    assert(groups_view(groups@) =~= groups_view(old(groups)@).push(g@));
}

/// The identity on editors.
pub open spec fn as_it_is() -> spec_fn(EditorView) -> EditorView {
    |v: EditorView| v
}

impl Editor {
    /// Applies the groups of the cursors as one transaction.
    pub fn apply_groups(&mut self, groups: Vec<ActionGroup>) -> (r: Result<Vec<Dispatch>, EditorError>)
        requires
            old(self).wf(),
        ensures
            final(self).wf(),
            transaction_effect(old(self)@, final(self)@, groups_view(groups@), r, as_it_is()),
    {
        let transaction: EditTransaction = match EditTransaction::from_action_groups(groups) {
            Ok(t) => t,
            Err(e) => {
                return Err(e);
            },
        };
        self.apply_edit_transaction(&transaction)
    }

    /// Applies a transaction: the buffer is edited, the selections are those that the
    /// transaction names, the view follows the cursor, and the dispatch says that the text has
    /// changed. Nothing happens where an edit does not lie within the text.
    pub fn apply_edit_transaction(&mut self, transaction: &EditTransaction) -> (r: Result<
        Vec<Dispatch>,
        EditorError,
    >)
        requires
            old(self).wf(),
        ensures
            final(self).wf(),
            match text_after(
                old(self)@.buffer.text,
                transaction@.0,
                transaction@.0.len() as int,
            ) {
                Err(e) => r.is_err() && r.unwrap_err() == e && final(self)@ == old(self)@,
                Ok(text) => {
                    &&& r.is_ok()
                    &&& buffer_edited(old(self)@, final(self)@.buffer, transaction@.0, text)
                    &&& final(self)@ == after_edit(
                        old(self)@,
                        transaction@.0,
                        transaction@.1,
                        text,
                        final(self)@.buffer,
                    )
                    &&& is_did_change(r.unwrap()@, final(self)@)
                },
            },
    {
        let current = self.selection_set.duplicate();
        match self.buffer.apply_edit_transaction(transaction, current) {
            Ok(selections) => {
                self.selection_set = selections;
                self.recalculate_scroll_offset();
                Ok(self.get_document_did_change_dispatch())
            },
            Err(e) => Err(e),
        }
    }

    /// The notice that the text has changed.
    pub fn get_document_did_change_dispatch(&self) -> (r: Vec<Dispatch>)
        ensures
            is_did_change(r@, self@),
    {
        let mut r: Vec<Dispatch> = Vec::new();
        r.push(
            Dispatch::DocumentDidChange {
                component_id: self.id,
                path: self.buffer.path(),
                content: self.buffer.content(),
            },
        );
        r
    }

    /// Types `text` at every cursor.
    pub fn insert(&mut self, text: &str) -> (r: Result<Vec<Dispatch>, EditorError>)
        requires
            old(self).wf(),
        ensures
            final(self).wf(),
            transaction_effect(
                old(self)@,
                final(self)@,
                groups_for(old(self)@, |s: SelectionView| insert_actions(s, text@)),
                r,
                as_it_is(),
            ),
    {
        let ghost f = |s: SelectionView| insert_actions(s, text@);
        let selections: Vec<Selection> = self.selection_set.selections();
        let mut groups: Vec<ActionGroup> = Vec::new();
        let mut i: usize = 0;
        while i < selections.len()
            invariant
                i <= selections.len(),
                f == (|s: SelectionView| insert_actions(s, text@)),
                groups_view(groups@) == kept_groups(views_of(selections@), f, i as int),
            decreases selections.len() - i,
        {
            match insert_group(&selections[i], text) {
                Some(g) => {
                    push_group(&mut groups, g);
                },
                None => {},
            }
            i += 1;
        }
        self.apply_groups(groups)
    }

    /// Deletes the character before every cursor.
    pub fn backspace(&mut self) -> (r: Result<Vec<Dispatch>, EditorError>)
        requires
            old(self).wf(),
        ensures
            final(self).wf(),
            transaction_effect(
                old(self)@,
                final(self)@,
                groups_for(old(self)@, |s: SelectionView| Some(backspace_actions(s))),
                r,
                as_it_is(),
            ),
    {
        let ghost f = |s: SelectionView| Some(backspace_actions(s));
        let selections: Vec<Selection> = self.selection_set.selections();
        let mut groups: Vec<ActionGroup> = Vec::new();
        let mut i: usize = 0;
        while i < selections.len()
            invariant
                i <= selections.len(),
                f == (|s: SelectionView| Some(backspace_actions(s))),
                groups_view(groups@) == kept_groups(views_of(selections@), f, i as int),
            decreases selections.len() - i,
        {
            push_group(&mut groups, backspace_group(&selections[i]));
            i += 1;
        }
        self.apply_groups(groups)
    }

    /// Deletes every selection and goes to insert mode where it stood. The clipboard stays as
    /// it is.
    pub fn change(&mut self) -> (r: Result<Vec<Dispatch>, EditorError>)
        requires
            old(self).wf(),
        ensures
            final(self).wf(),
            transaction_effect(
                old(self)@,
                final(self)@,
                groups_for(old(self)@, |s: SelectionView| Some(change_actions(s))),
                r,
                |v: EditorView| inserting(v, Direction::Start),
            ),
    {
        let ghost f = |s: SelectionView| Some(change_actions(s));
        let selections: Vec<Selection> = self.selection_set.selections();
        let mut groups: Vec<ActionGroup> = Vec::new();
        let mut i: usize = 0;
        while i < selections.len()
            invariant
                i <= selections.len(),
                f == (|s: SelectionView| Some(change_actions(s))),
                groups_view(groups@) == kept_groups(views_of(selections@), f, i as int),
            decreases selections.len() - i,
        {
            push_group(&mut groups, change_group(&selections[i]));
            i += 1;
        }
        let dispatches: Vec<Dispatch> = match self.apply_groups(groups) {
            Ok(d) => d,
            Err(e) => {
                return Err(e);
            },
        };
        self.enter_insert_mode(Direction::Start);
        Ok(dispatches)
    }

    /// Puts every selection between `open` and `close`.
    pub fn enclose(&mut self, open: &str, close: &str) -> (r: Result<Vec<Dispatch>, EditorError>)
        requires
            old(self).wf(),
        ensures
            final(self).wf(),
            transaction_effect(
                old(self)@,
                final(self)@,
                groups_for(
                    old(self)@,
                    |s: SelectionView| enclose_actions(old(self)@.buffer.text, s, open@, close@),
                ),
                r,
                as_it_is(),
            ),
    {
        let ghost text = self@.buffer.text;
        let ghost f = |s: SelectionView| enclose_actions(text, s, open@, close@);
        let selections: Vec<Selection> = self.selection_set.selections();
        let mut groups: Vec<ActionGroup> = Vec::new();
        let mut i: usize = 0;
        while i < selections.len()
            invariant
                i <= selections.len(),
                *self == *old(self),
                text == self@.buffer.text,
                f == (|s: SelectionView| enclose_actions(text, s, open@, close@)),
                groups_view(groups@) == kept_groups(views_of(selections@), f, i as int),
            decreases selections.len() - i,
        {
            match enclose_group(&self.buffer, &selections[i], open, close) {
                Some(g) => {
                    push_group(&mut groups, g);
                },
                None => {},
            }
            i += 1;
        }
        self.apply_groups(groups)
    }

    /// Puts `text` in the place of every selection.
    pub fn replace_current_selection_with(&mut self, text: &str) -> (r: Result<
        Vec<Dispatch>,
        EditorError,
    >)
        requires
            old(self).wf(),
        ensures
            final(self).wf(),
            transaction_effect(
                old(self)@,
                final(self)@,
                groups_for(old(self)@, |s: SelectionView| replace_with_actions(s, text@)),
                r,
                as_it_is(),
            ),
    {
        let ghost f = |s: SelectionView| replace_with_actions(s, text@);
        let selections: Vec<Selection> = self.selection_set.selections();
        let mut groups: Vec<ActionGroup> = Vec::new();
        let mut i: usize = 0;
        while i < selections.len()
            invariant
                i <= selections.len(),
                f == (|s: SelectionView| replace_with_actions(s, text@)),
                groups_view(groups@) == kept_groups(views_of(selections@), f, i as int),
            decreases selections.len() - i,
        {
            match replace_with_group(&selections[i], text) {
                Some(g) => {
                    push_group(&mut groups, g);
                },
                None => {},
            }
            i += 1;
        }
        self.apply_groups(groups)
    }
}

/// The range of the element that a movement leads to from a selection, with the anchor of the
/// selection; the range of the selection itself where the movement is refused.
pub open spec fn neighbour(
    b: BufferView,
    s: SelectionView,
    set: SelectionSetView,
    movement: Movement,
) -> CharIndexRange {
    match moved_selection(b, s, set.mode, movement, set.filters) {
        Ok(n) => n.extended_range(),
        Err(_) => s.extended_range(),
    }
}

/// The range of the element that a movement leads to from a selection.
pub fn get_neighbour(buffer: &Buffer, selection: &Selection, set: &SelectionSet, movement: Movement) -> (r:
    CharIndexRange)
    requires
        buffer.wf(),
    ensures
        r == neighbour(buffer@, selection@, set@, movement),
{
    match get_selection(buffer, selection, &set.mode, &movement, &set.filters) {
        Ok(n) => n.extended_range(),
        Err(_) => selection.extended_range(),
    }
}

/// What killing does at one cursor of an editor.
pub open spec fn kill_at(v: EditorView, s: SelectionView) -> Option<Seq<ActionView>> {
    kill_actions(
        v.buffer.text,
        s,
        neighbour(v.buffer, s, v.selection_set, Movement::Next),
        neighbour(v.buffer, s, v.selection_set, Movement::Previous),
        v.selection_set.mode.is_contiguous(),
        v.selection_set.mode is SyntaxTree,
    )
}

/// The text that a selection covers; `None` where it does not lie within the text.
pub open spec fn selected_text(text: Seq<char>, s: SelectionView) -> Option<Seq<char>> {
    let r = s.extended_range();
    if within(r, text) {
        Some(text.subrange(r.start.0 as int, r.end.0 as int))
    } else {
        None
    }
}

/// The text that the first edit of a group takes out of `text`.
pub open spec fn deleted_text(text: Seq<char>, group: Option<Seq<ActionView>>) -> Option<Seq<char>> {
    match group {
        Some(actions) => if actions.len() > 0 {
            match actions[0] {
                ActionView::Edit(e) => if within(e.range, text) {
                    Some(text.subrange(e.range.start.0 as int, e.range.end.0 as int))
                } else {
                    None
                },
                _ => None,
            }
        } else {
            None
        },
        None => None,
    }
}

/// What pasting does at one cursor of an editor: the text that the cursor has copied goes in,
/// or the text on the clipboard where it has copied none, or nothing.
pub open spec fn paste_at(
    v: EditorView,
    s: SelectionView,
    direction: Direction,
    clipboard: Option<Seq<char>>,
) -> Option<Seq<ActionView>> {
    let pasted = copied_or(s, clipboard);
    paste_actions(
        s,
        direction,
        pasted,
        smart_separator(
            v.buffer.text,
            s.extended_range(),
            neighbour(v.buffer, s, v.selection_set, Movement::Next),
            neighbour(v.buffer, s, v.selection_set, Movement::Previous),
            direction,
            v.selection_set.mode.is_contiguous(),
            pasted,
        ),
    )
}

/// The text that a selection has copied; the text on the clipboard where it has copied none;
/// the empty text where there is neither.
pub open spec fn copied_or(s: SelectionView, clipboard: Option<Seq<char>>) -> Seq<char> {
    match s.copied_text {
        Some(t) => t,
        None => match clipboard {
            Some(t) => t,
            None => Seq::empty(),
        },
    }
}

/// The text on the clipboard of a context.
pub open spec fn clipboard_of(context: &Context) -> Option<Seq<char>> {
    match context.clipboard_content {
        Some(t) => Some(t@),
        None => None,
    }
}

/// The text that a selection has copied, or the text on the clipboard.
pub fn copied_text(selection: &Selection, context: &Context) -> (r: String)
    ensures
        r@ == copied_or(selection@, clipboard_of(context)),
{
    match &selection.copied_text {
        Some(t) => t.clone(),
        None => match &context.clipboard_content {
            Some(t) => t.clone(),
            None => String::new(),
        },
    }
}

impl Editor {
    /// Kills every selection, as `kill_actions` says. With `cut`, the text of the primary
    /// selection is put on the clipboard.
    pub fn kill(&mut self, cut: bool) -> (r: Result<Vec<Dispatch>, EditorError>)
        requires
            old(self).wf(),
        ensures
            final(self).wf(),
            transaction_effect_with(
                old(self)@,
                final(self)@,
                groups_for(old(self)@, |s: SelectionView| kill_at(old(self)@, s)),
                r,
                as_it_is(),
                if cut {
                    selected_text(old(self)@.buffer.text, old(self)@.selection_set.primary)
                } else {
                    None
                },
            ),
    {
        let ghost before = self@;
        let ghost f = |s: SelectionView| kill_at(before, s);
        let selections: Vec<Selection> = self.selection_set.selections();
        let contiguous: bool = self.selection_set.mode.is_contiguous();
        let by_siblings: bool = match self.selection_set.mode {
            SelectionMode::SyntaxTree => true,
            _ => false,
        };
        let mut groups: Vec<ActionGroup> = Vec::new();
        let mut copied: Option<String> = None;
        let mut i: usize = 0;
        while i < selections.len()
            invariant
                i <= selections.len(),
                *self == *old(self),
                self.wf(),
                before == self@,
                views_of(selections@) == before.selection_set.all(),
                contiguous == before.selection_set.mode.is_contiguous(),
                by_siblings == (before.selection_set.mode is SyntaxTree),
                f == (|s: SelectionView| kill_at(before, s)),
                groups_view(groups@) == kept_groups(views_of(selections@), f, i as int),
                i == 0 ==> copied.is_none(),
                i > 0 ==> option_view(copied) == (if cut {
                    selected_text(before.buffer.text, before.selection_set.primary)
                } else {
                    None
                }),
            decreases selections.len() - i,
        {
            let next: CharIndexRange = get_neighbour(
                &self.buffer,
                &selections[i],
                &self.selection_set,
                Movement::Next,
            );
            let previous: CharIndexRange = get_neighbour(
                &self.buffer,
                &selections[i],
                &self.selection_set,
                Movement::Previous,
            );
            assert(views_of(selections@)[i as int] == selections@[i as int]@);
            assert(before.selection_set.all()[0] == before.selection_set.primary);
            if i == 0 && cut {
                copied = match self.buffer.slice(&selections[i].extended_range()) {
                    Ok(text) => Some(text),
                    Err(_) => None,
                };
            }
            match kill_group(&self.buffer, &selections[i], next, previous, contiguous, by_siblings) {
                Some(g) => {
                    push_group(&mut groups, g);
                },
                None => {},
            }
            i += 1;
        }
        if selections.len() == 0 {
            assert(before.selection_set.all().len() > 0);
        }
        self.apply_with_copy(groups, copied)
    }

    /// Applies the groups of the cursors, and asks for `copied` to be put on the clipboard
    /// where the transaction is not refused.
    pub fn apply_with_copy(&mut self, groups: Vec<ActionGroup>, copied: Option<String>) -> (r: Result<
        Vec<Dispatch>,
        EditorError,
    >)
        requires
            old(self).wf(),
        ensures
            final(self).wf(),
            transaction_effect_with(
                old(self)@,
                final(self)@,
                groups_view(groups@),
                r,
                as_it_is(),
                option_view(copied),
            ),
    {
        let mut dispatches: Vec<Dispatch> = match self.apply_groups(groups) {
            Ok(d) => d,
            Err(e) => {
                return Err(e);
            },
        };
        if let Some(text) = copied {
            let ghost first = dispatches@;
            dispatches.push(Dispatch::SetClipboardContent(text));
            assert(dispatches@.take(1) =~= first);
        }
        Ok(dispatches)
    }

    /// Cuts every selection: its text goes and is kept by the cursor as copied; the editor goes
    /// to insert mode. With one cursor alone, the text is put on the clipboard too.
    pub fn cut(&mut self) -> (r: Result<Vec<Dispatch>, EditorError>)
        requires
            old(self).wf(),
        ensures
            final(self).wf(),
            transaction_effect_with(
                old(self)@,
                final(self)@,
                groups_for(old(self)@, |s: SelectionView| cut_actions(old(self)@.buffer.text, s)),
                r,
                |v: EditorView| inserting(v, Direction::Start),
                if old(self)@.selection_set.secondary.len() == 0 {
                    deleted_text(
                        old(self)@.buffer.text,
                        cut_actions(old(self)@.buffer.text, old(self)@.selection_set.primary),
                    )
                } else {
                    None
                },
            ),
    {
        let ghost text = self@.buffer.text;
        let ghost before = self@;
        let ghost f = |s: SelectionView| cut_actions(text, s);
        let selections: Vec<Selection> = self.selection_set.selections();
        let alone: bool = self.selection_set.secondary.len() == 0;
        let mut groups: Vec<ActionGroup> = Vec::new();
        let mut copied: Option<String> = None;
        let mut i: usize = 0;
        while i < selections.len()
            invariant
                i <= selections.len(),
                *self == *old(self),
                before == self@,
                text == self@.buffer.text,
                alone == (before.selection_set.secondary.len() == 0),
                views_of(selections@) == before.selection_set.all(),
                f == (|s: SelectionView| cut_actions(text, s)),
                groups_view(groups@) == kept_groups(views_of(selections@), f, i as int),
                i == 0 ==> copied.is_none(),
                i > 0 ==> option_view(copied) == (if alone {
                    deleted_text(text, cut_actions(text, before.selection_set.primary))
                } else {
                    None
                }),
            decreases selections.len() - i,
        {
            assert(views_of(selections@)[i as int] == selections@[i as int]@);
            assert(before.selection_set.all()[0] == before.selection_set.primary);
            match cut_group(&self.buffer, &selections[i]) {
                Some(g) => {
                    if i == 0 && alone {
                        copied = first_deleted(&self.buffer, &g);
                    }
                    push_group(&mut groups, g);
                },
                None => {},
            }
            i += 1;
        }
        if selections.len() == 0 {
            assert(before.selection_set.all().len() > 0);
        }
        let dispatches: Vec<Dispatch> = match self.apply_with_copy(groups, copied) {
            Ok(d) => d,
            Err(e) => {
                return Err(e);
            },
        };
        self.enter_insert_mode(Direction::Start);
        Ok(dispatches)
    }

    /// Pastes at the start or the end of every selection what the cursor has copied, or what
    /// is on the clipboard, with the separator that `smart_separator` gives; the pasted text is
    /// selected.
    pub fn paste(&mut self, direction: Direction, context: &Context) -> (r: Result<
        Vec<Dispatch>,
        EditorError,
    >)
        requires
            old(self).wf(),
        ensures
            final(self).wf(),
            transaction_effect(
                old(self)@,
                final(self)@,
                groups_for(
                    old(self)@,
                    |s: SelectionView| paste_at(old(self)@, s, direction, clipboard_of(context)),
                ),
                r,
                as_it_is(),
            ),
    {
        let ghost before = self@;
        let ghost f = |s: SelectionView| paste_at(before, s, direction, clipboard_of(context));
        let selections: Vec<Selection> = self.selection_set.selections();
        let contiguous: bool = self.selection_set.mode.is_contiguous();
        let mut groups: Vec<ActionGroup> = Vec::new();
        let mut i: usize = 0;
        while i < selections.len()
            invariant
                i <= selections.len(),
                *self == *old(self),
                self.wf(),
                before == self@,
                contiguous == before.selection_set.mode.is_contiguous(),
                f == (|s: SelectionView| paste_at(before, s, direction, clipboard_of(context))),
                groups_view(groups@) == kept_groups(views_of(selections@), f, i as int),
            decreases selections.len() - i,
        {
            let selection: &Selection = &selections[i];
            let pasted: String = copied_text(selection, context);
            let next: CharIndexRange = get_neighbour(
                &self.buffer,
                selection,
                &self.selection_set,
                Movement::Next,
            );
            let previous: CharIndexRange = get_neighbour(
                &self.buffer,
                selection,
                &self.selection_set,
                Movement::Previous,
            );
            let separator: String = get_smart_separator(
                &self.buffer,
                selection.extended_range(),
                next,
                previous,
                &direction,
                contiguous,
                pasted.as_str(),
            );
            match paste_group(selection, &direction, pasted.as_str(), separator.as_str()) {
                Some(g) => {
                    push_group(&mut groups, g);
                },
                None => {},
            }
            i += 1;
        }
        self.apply_groups(groups)
    }

    /// Puts in the place of every selection what its cursor has copied, or what is on the
    /// clipboard; a cursor with neither stays as it is.
    pub fn replace_with_clipboard(&mut self, context: &Context) -> (r: Result<
        Vec<Dispatch>,
        EditorError,
    >)
        requires
            old(self).wf(),
        ensures
            final(self).wf(),
            transaction_effect(
                old(self)@,
                final(self)@,
                groups_for(
                    old(self)@,
                    |s: SelectionView|
                        if has_copied(s, clipboard_of(context)) {
                            replace_with_actions(s, copied_or(s, clipboard_of(context)))
                        } else {
                            None
                        },
                ),
                r,
                as_it_is(),
            ),
    {
        let ghost f = |s: SelectionView|
            if has_copied(s, clipboard_of(context)) {
                replace_with_actions(s, copied_or(s, clipboard_of(context)))
            } else {
                None
            };
        let selections: Vec<Selection> = self.selection_set.selections();
        let mut groups: Vec<ActionGroup> = Vec::new();
        let mut i: usize = 0;
        while i < selections.len()
            invariant
                i <= selections.len(),
                f == (|s: SelectionView|
                    if has_copied(s, clipboard_of(context)) {
                        replace_with_actions(s, copied_or(s, clipboard_of(context)))
                    } else {
                        None
                    }),
                groups_view(groups@) == kept_groups(views_of(selections@), f, i as int),
            decreases selections.len() - i,
        {
            let selection: &Selection = &selections[i];
            if selection.copied_text.is_some() || context.clipboard_content.is_some() {
                let text: String = copied_text(selection, context);
                match replace_with_group(selection, text.as_str()) {
                    Some(g) => {
                        push_group(&mut groups, g);
                    },
                    None => {},
                }
            }
            i += 1;
        }
        self.apply_groups(groups)
    }

    /// Exchanges every selection with what its cursor has copied, or what is on the clipboard:
    /// that text is selected, and the cursor holds as copied what it replaced.
    pub fn replace_cut(&mut self, context: &Context) -> (r: Result<Vec<Dispatch>, EditorError>)
        requires
            old(self).wf(),
        ensures
            final(self).wf(),
            transaction_effect(
                old(self)@,
                final(self)@,
                groups_for(
                    old(self)@,
                    |s: SelectionView|
                        if has_copied(s, clipboard_of(context)) {
                            replace_cut_actions(
                                old(self)@.buffer.text,
                                s,
                                copied_or(s, clipboard_of(context)),
                            )
                        } else {
                            None
                        },
                ),
                r,
                as_it_is(),
            ),
    {
        let ghost text = self@.buffer.text;
        let ghost f = |s: SelectionView|
            if has_copied(s, clipboard_of(context)) {
                replace_cut_actions(text, s, copied_or(s, clipboard_of(context)))
            } else {
                None
            };
        let selections: Vec<Selection> = self.selection_set.selections();
        let mut groups: Vec<ActionGroup> = Vec::new();
        let mut i: usize = 0;
        while i < selections.len()
            invariant
                i <= selections.len(),
                *self == *old(self),
                text == self@.buffer.text,
                f == (|s: SelectionView|
                    if has_copied(s, clipboard_of(context)) {
                        replace_cut_actions(text, s, copied_or(s, clipboard_of(context)))
                    } else {
                        None
                    }),
                groups_view(groups@) == kept_groups(views_of(selections@), f, i as int),
            decreases selections.len() - i,
        {
            let selection: &Selection = &selections[i];
            if selection.copied_text.is_some() || context.clipboard_content.is_some() {
                let replacement: String = copied_text(selection, context);
                match replace_cut_group(&self.buffer, selection, replacement.as_str()) {
                    Some(g) => {
                        push_group(&mut groups, g);
                    },
                    None => {},
                }
            }
            i += 1;
        }
        self.apply_groups(groups)
    }
}

/// Whether a cursor has copied a text, or the clipboard holds one.
pub open spec fn has_copied(s: SelectionView, clipboard: Option<Seq<char>>) -> bool {
    s.copied_text.is_some() || clipboard.is_some()
}

/// The view of a text that may be missing.
pub open spec fn option_view(s: Option<String>) -> Option<Seq<char>> {
    match s {
        Some(t) => Some(t@),
        None => None,
    }
}

/// The text that the first edit of a group takes out of the buffer.
pub fn first_deleted(buffer: &Buffer, group: &ActionGroup) -> (r: Option<String>)
    ensures
        option_view(r) == deleted_text(buffer@.text, Some(group@)),
{
    if group.actions.len() == 0 {
        return None;
    }
    match &group.actions[0] {
        Action::Edit(e) => match buffer.slice(&e.range) {
            Ok(s) => Some(s),
            Err(_) => None,
        },
        _ => None,
    }
}

/// The word that deleting backwards from a cursor goes back to: the word at the character
/// before the cursor where it starts at or before that character, else the word before it.
/// `None` where the movement is refused.
pub open spec fn word_behind(b: BufferView, s: SelectionView, filters: Seq<FilterView>) -> Option<
    CharIndexRange,
> {
    let probe = word_probe(s, b.text.len() as usize);
    let from = SelectionView { range: empty_at(probe), ..s };
    match moved_selection(b, from, SelectionModeView::Word, Movement::Current, filters) {
        Ok(current) => if current.extended_range().start.0 <= probe {
            Some(current.extended_range())
        } else {
            match moved_selection(b, from, SelectionModeView::Word, Movement::Previous, filters) {
                Ok(previous) => Some(previous.extended_range()),
                Err(_) => None,
            }
        },
        Err(_) => None,
    }
}

/// What deleting a word backwards does at one cursor.
pub open spec fn delete_word_backward_at(v: EditorView, s: SelectionView) -> Option<Seq<ActionView>> {
    let b = v.buffer;
    match word_behind(b, s, v.selection_set.filters) {
        Some(word) => Some(delete_word_backward_actions(s, b.text.len() as usize, word)),
        None => None,
    }
}

/// The groups of those among the first `n` edits of a language server that can be placed, the
/// first edit of the list with the cursor behind its text.
pub open spec fn positional_groups(text: Seq<char>, edits: Seq<PositionalEdit>, n: int) -> Seq<
    Seq<ActionView>,
>
    decreases n,
{
    if n <= 0 {
        Seq::empty()
    } else {
        match positional_actions(text, edits[n - 1].range, edits[n - 1].new_text@, n == 1) {
            Some(g) => positional_groups(text, edits, n - 1).push(g),
            None => positional_groups(text, edits, n - 1),
        }
    }
}

impl Editor {
    /// Opens a line below the line of every cursor, indented as that line, and goes to insert
    /// mode at its end.
    pub fn open_new_line(&mut self) -> (r: Result<Vec<Dispatch>, EditorError>)
        requires
            old(self).wf(),
        ensures
            final(self).wf(),
            transaction_effect(
                old(self)@,
                final(self)@,
                groups_for(
                    old(self)@,
                    |s: SelectionView|
                        open_new_line_actions(old(self)@.buffer.text, s, old(self)@.cursor_direction),
                ),
                r,
                |v: EditorView| inserting(v, Direction::End),
            ),
    {
        let ghost text = self@.buffer.text;
        let ghost direction = self.cursor_direction;
        let ghost f = |s: SelectionView| open_new_line_actions(text, s, direction);
        let selections: Vec<Selection> = self.selection_set.selections();
        let mut groups: Vec<ActionGroup> = Vec::new();
        let mut i: usize = 0;
        while i < selections.len()
            invariant
                i <= selections.len(),
                *self == *old(self),
                text == self@.buffer.text,
                direction == self.cursor_direction,
                f == (|s: SelectionView| open_new_line_actions(text, s, direction)),
                groups_view(groups@) == kept_groups(views_of(selections@), f, i as int),
            decreases selections.len() - i,
        {
            match open_new_line_group(&self.buffer, &selections[i], &self.cursor_direction) {
                Some(g) => {
                    push_group(&mut groups, g);
                },
                None => {},
            }
            i += 1;
        }
        let dispatches: Vec<Dispatch> = match self.apply_groups(groups) {
            Ok(d) => d,
            Err(e) => {
                return Err(e);
            },
        };
        self.enter_insert_mode(Direction::End);
        Ok(dispatches)
    }

    /// Kills the line of every cursor up to the cursor, or from it, and goes to insert mode.
    pub fn kill_line(&mut self, direction: Direction) -> (r: Result<Vec<Dispatch>, EditorError>)
        requires
            old(self).wf(),
        ensures
            final(self).wf(),
            transaction_effect(
                old(self)@,
                final(self)@,
                groups_for(
                    old(self)@,
                    |s: SelectionView|
                        kill_line_actions(
                            old(self)@.buffer.text,
                            s,
                            old(self)@.cursor_direction,
                            direction,
                        ),
                ),
                r,
                |v: EditorView| inserting(v, Direction::Start),
            ),
    {
        let ghost text = self@.buffer.text;
        let ghost cursor = self.cursor_direction;
        let ghost f = |s: SelectionView| kill_line_actions(text, s, cursor, direction);
        let selections: Vec<Selection> = self.selection_set.selections();
        let mut groups: Vec<ActionGroup> = Vec::new();
        let mut i: usize = 0;
        while i < selections.len()
            invariant
                i <= selections.len(),
                *self == *old(self),
                text == self@.buffer.text,
                cursor == self.cursor_direction,
                f == (|s: SelectionView| kill_line_actions(text, s, cursor, direction)),
                groups_view(groups@) == kept_groups(views_of(selections@), f, i as int),
            decreases selections.len() - i,
        {
            match kill_line_group(&self.buffer, &selections[i], &self.cursor_direction, &direction) {
                Some(g) => {
                    push_group(&mut groups, g);
                },
                None => {},
            }
            i += 1;
        }
        let dispatches: Vec<Dispatch> = match self.apply_groups(groups) {
            Ok(d) => d,
            Err(e) => {
                return Err(e);
            },
        };
        self.enter_insert_mode(Direction::Start);
        Ok(dispatches)
    }

    /// Deletes, at every cursor, back to the start of the word behind it.
    pub fn delete_word_backward(&mut self) -> (r: Result<Vec<Dispatch>, EditorError>)
        requires
            old(self).wf(),
        ensures
            final(self).wf(),
            transaction_effect(
                old(self)@,
                final(self)@,
                groups_for(
                    old(self)@,
                    |s: SelectionView| delete_word_backward_at(old(self)@, s),
                ),
                r,
                as_it_is(),
            ),
    {
        let ghost b = self@;
        let ghost f = |s: SelectionView| delete_word_backward_at(b, s);
        let selections: Vec<Selection> = self.selection_set.selections();
        let len: usize = self.buffer.len_chars();
        let mut groups: Vec<ActionGroup> = Vec::new();
        let mut i: usize = 0;
        while i < selections.len()
            invariant
                i <= selections.len(),
                *self == *old(self),
                self.wf(),
                b == self@,
                len == b.buffer.text.len(),
                f == (|s: SelectionView| delete_word_backward_at(b, s)),
                groups_view(groups@) == kept_groups(views_of(selections@), f, i as int),
            decreases selections.len() - i,
        {
            let selection: &Selection = &selections[i];
            match find_word_behind(&self.buffer, selection, &self.selection_set.filters) {
                Some(word) => {
                    push_group(&mut groups, delete_word_backward_group(selection, len, word));
                },
                None => {},
            }
            i += 1;
        }
        self.apply_groups(groups)
    }

    /// Applies the edits that a language server asks for, as one transaction; the cursor goes
    /// behind the text of the first. An edit that cannot be placed is left out.
    pub fn apply_positional_edits(&mut self, edits: Vec<PositionalEdit>) -> (r: Result<
        Vec<Dispatch>,
        EditorError,
    >)
        requires
            old(self).wf(),
        ensures
            final(self).wf(),
            transaction_effect(
                old(self)@,
                final(self)@,
                positional_groups(old(self)@.buffer.text, edits@, edits@.len() as int),
                r,
                as_it_is(),
            ),
    {
        let ghost text = self@.buffer.text;
        let mut groups: Vec<ActionGroup> = Vec::new();
        let mut i: usize = 0;
        while i < edits.len()
            invariant
                i <= edits.len(),
                *self == *old(self),
                text == self@.buffer.text,
                groups_view(groups@) == positional_groups(text, edits@, i as int),
            decreases edits.len() - i,
        {
            match positional_group(&self.buffer, &edits[i], i == 0) {
                Some(g) => {
                    push_group(&mut groups, g);
                },
                None => {},
            }
            i += 1;
        }
        self.apply_groups(groups)
    }

    /// Applies one edit that a language server asks for.
    pub fn apply_positional_edit(&mut self, edit: PositionalEdit) -> (r: Result<
        Vec<Dispatch>,
        EditorError,
    >)
        requires
            old(self).wf(),
        ensures
            final(self).wf(),
            transaction_effect(
                old(self)@,
                final(self)@,
                positional_groups(old(self)@.buffer.text, seq![edit], 1),
                r,
                as_it_is(),
            ),
    {
        let mut edits: Vec<PositionalEdit> = Vec::new();
        edits.push(edit);
        assert(edits@ =~= seq![edit]);
        self.apply_positional_edits(edits)
    }
}

/// The word that deleting backwards from a cursor goes back to.
pub fn find_word_behind(buffer: &Buffer, selection: &Selection, filters: &Filters) -> (r: Option<
    CharIndexRange,
>)
    requires
        buffer.wf(),
    ensures
        r == word_behind(buffer@, selection@, filters@),
{
    let len: usize = buffer.len_chars();
    let c: CharIndexRange = selection.extended_range();
    let bounded: usize = if c.start.0 <= len {
        c.start.0
    } else {
        len
    };
    let probe: usize = if bounded > 0 {
        bounded - 1
    } else {
        0
    };
    let from: Selection = selection.duplicate().set_range(
        CharIndexRange { start: CharIndex(probe), end: CharIndex(probe) },
    );
    match get_selection(buffer, &from, &SelectionMode::Word, &Movement::Current, filters) {
        Ok(current) => {
            let range: CharIndexRange = current.extended_range();
            if range.start.0 <= probe {
                Some(range)
            } else {
                match get_selection(buffer, &from, &SelectionMode::Word, &Movement::Previous, filters) {
                    Ok(previous) => Some(previous.extended_range()),
                    Err(_) => None,
                }
            }
        },
        Err(_) => None,
    }
}

} // verus!
