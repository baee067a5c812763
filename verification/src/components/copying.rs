use vstd::prelude::*;
use crate::app::Dispatch;
use crate::buffer::Buffer;
use crate::char_index::{CharIndex, CharIndexRange};
use crate::components::actions::within;
use crate::components::editor::{Direction, Editor, EditorView, scrolled};
use crate::error::EditorError;
use crate::selection::{Selection, SelectionSetView, SelectionView};

verus! {

/// A selection holding as copied the text that it covers. `None` where it does not lie within
/// the text.
pub open spec fn holding(text: Seq<char>, s: SelectionView) -> Option<SelectionView> {
    let r = s.extended_range();
    if within(r, text) {
        Some(
            SelectionView {
                copied_text: Some(text.subrange(r.start.0 as int, r.end.0 as int)),
                ..s
            },
        )
    } else {
        None
    }
}

/// Whether every selection among the first `n` lies within the text.
pub open spec fn all_within(text: Seq<char>, selections: Seq<SelectionView>, n: int) -> bool {
    forall|i: int| 0 <= i < n ==> within((#[trigger] selections[i]).extended_range(), text)
}

/// A selection moved by one character to the left or to the right, and made empty: to the
/// left, it stands before the character before its first; to the right, behind its first.
pub open spec fn stepped(s: SelectionView, forward: bool) -> SelectionView {
    let at = if forward {
        if s.range.start.0 < usize::MAX {
            (s.range.start.0 + 1) as usize
        } else {
            s.range.start.0
        }
    } else if s.range.start.0 > 0 {
        (s.range.start.0 - 1) as usize
    } else {
        0
    };
    SelectionView { range: CharIndexRange { start: CharIndex(at), end: CharIndex(at) }, ..s }
}

/// What copying does: every cursor holds the text of its selection as copied, and with one
/// cursor alone the dispatch asks for that text to be put on the clipboard. Refused, with
/// nothing changed, where a selection does not lie within the text.
pub open spec fn copy_effect(
    before: EditorView,
    after: EditorView,
    r: Result<Vec<Dispatch>, EditorError>,
) -> bool {
    if all_within(
        before.buffer.text,
        before.selection_set.all(),
        before.selection_set.all().len() as int,
    ) {
        &&& r.is_ok()
        &&& after == (EditorView {
            selection_set: SelectionSetView {
                primary: holding(before.buffer.text, before.selection_set.primary).unwrap(),
                secondary: Seq::new(
                    before.selection_set.secondary.len(),
                    |i: int| holding(before.buffer.text, before.selection_set.secondary[i]).unwrap(),
                ),
                ..before.selection_set
            },
            ..before
        })
        &&& if before.selection_set.secondary.len() == 0 {
            r.unwrap()@.len() == 1 && match r.unwrap()@[0] {
                Dispatch::SetClipboardContent(text) => Some(text@)
                    == after.selection_set.primary.copied_text,
                _ => false,
            }
        } else {
            r.unwrap()@.len() == 0
        }
    } else {
        r.is_err() && r.unwrap_err() == EditorError::OutOfBounds && after == before
    }
}

/// A set of selections with every cursor moved by one character.
pub open spec fn stepped_set(set: SelectionSetView, forward: bool) -> SelectionSetView {
    SelectionSetView {
        primary: stepped(set.primary, forward),
        secondary: Seq::new(set.secondary.len(), |i: int| stepped(set.secondary[i], forward)),
        ..set
    }
}

/// A selection moved by one character to the left or to the right, and made empty.
fn step(selection: &Selection, forward: bool) -> (r: Selection)
    ensures
        r@ == stepped(selection@, forward),
{
    let start: usize = selection.range.start.0;
    let at: usize = if forward {
        if start < usize::MAX {
            start + 1
        } else {
            start
        }
    } else if start > 0 {
        start - 1
    } else {
        0
    };
    selection.duplicate().set_range(CharIndexRange { start: CharIndex(at), end: CharIndex(at) })
}

/// A selection holding as copied the text that it covers; `None` where it does not lie within the
/// text.
fn hold(buffer: &Buffer, selection: &Selection) -> (r: Option<Selection>)
    ensures
        match holding(buffer@.text, selection@) {
            Some(s) => r.is_some() && r.unwrap()@ == s,
            None => r.is_none(),
        },
{
    match buffer.slice(&selection.extended_range()) {
        Ok(text) => Some(selection.duplicate().set_copied_text(Some(text))),
        Err(_) => None,
    }
}

impl Editor {
    /// Every cursor takes the text of its selection as copied. With one cursor alone, the text
    /// is put on the clipboard too. Refused, with nothing changed, where a selection does not
    /// lie within the text.
    pub fn copy(&mut self) -> (r: Result<Vec<Dispatch>, EditorError>)
        ensures
            final(self).buffer == old(self).buffer,
            copy_effect(old(self)@, final(self)@, r),
    {
        let ghost text = self@.buffer.text;
        let ghost all = self@.selection_set.all();
        let primary: Selection = match hold(&self.buffer, &self.selection_set.primary) {
            Some(s) => s,
            None => {
                assert(!within(all[0].extended_range(), text));
                return Err(EditorError::OutOfBounds);
            },
        };
        let mut secondary: Vec<Selection> = Vec::new();
        let mut i: usize = 0;
        while i < self.selection_set.secondary.len()
            invariant
                i <= self.selection_set.secondary.len(),
                *self == *old(self),
                text == self@.buffer.text,
                all == self@.selection_set.all(),
                within(all[0].extended_range(), text),
                secondary@.len() == i,
                forall|k: int| 0 <= k < i ==> within((#[trigger] all[k + 1]).extended_range(), text),
                forall|k: int|
                    0 <= k < i ==> Some(secondary@[k]@) == holding(
                        text,
                        self@.selection_set.secondary[k],
                    ),
            decreases self.selection_set.secondary.len() - i,
        {
            assert(all[i + 1] == self@.selection_set.secondary[i as int]);
            match hold(&self.buffer, &self.selection_set.secondary[i]) {
                Some(s) => {
                    secondary.push(s);
                },
                None => {
                    return Err(EditorError::OutOfBounds);
                },
            }
            i += 1;
        }
        proof {
            assert forall|k: int| 0 <= k < all.len() implies within(
                (#[trigger] all[k]).extended_range(),
                text,
            ) by {
                if k > 0 {
                    assert(all[(k - 1) + 1] == all[k]);
                }
            }
        }
        let mut dispatches: Vec<Dispatch> = Vec::new();
        if self.selection_set.secondary.len() == 0 {
            if let Some(text) = &primary.copied_text {
                dispatches.push(Dispatch::SetClipboardContent(text.clone()));
            }
        }
        self.selection_set.primary = primary;
        self.selection_set.secondary = secondary;
        assert(self@.selection_set.secondary =~= Seq::new(
            old(self)@.selection_set.secondary.len(),
            |i: int| holding(text, old(self)@.selection_set.secondary[i]).unwrap(),
        ));
        Ok(dispatches)
    }

    /// Moves every cursor by one character to the left or to the right.
    pub fn move_cursors(&mut self, forward: bool)
        ensures
            final(self).buffer == old(self).buffer,
            final(self)@ == (EditorView {
                selection_set: stepped_set(old(self)@.selection_set, forward),
                ..old(self)@
            }),
    {
        self.selection_set.primary = step(&self.selection_set.primary, forward);
        let mut i: usize = 0;
        let ghost before = self.selection_set.secondary@;
        while i < self.selection_set.secondary.len()
            invariant
                i <= self.selection_set.secondary.len(),
                self.selection_set.secondary@.len() == before.len(),
                before == old(self).selection_set.secondary@,
                self.selection_set.primary@ == stepped(old(self).selection_set.primary@, forward),
                self.selection_set.mode == old(self).selection_set.mode,
                self.selection_set.filters == old(self).selection_set.filters,
                self.mode == old(self).mode,
                self.jumps == old(self).jumps,
                self.cursor_direction == old(self).cursor_direction,
                self.scroll_offset == old(self).scroll_offset,
                self.rectangle == old(self).rectangle,
                self.buffer == old(self).buffer,
                self.title == old(self).title,
                self.id == old(self).id,
                self.current_view_alignment == old(self).current_view_alignment,
                forall|k: int| i <= k < before.len() ==> self.selection_set.secondary@[k] == before[k],
                forall|k: int|
                    0 <= k < i ==> self.selection_set.secondary@[k]@ == stepped(before[k]@, forward),
            decreases self.selection_set.secondary.len() - i,
        {
            let s: Selection = step(&self.selection_set.secondary[i], forward);
            self.selection_set.secondary.set(i, s);
            i += 1;
        }
        assert(self@.selection_set.secondary =~= Seq::new(
            old(self)@.selection_set.secondary.len(),
            |i: int| stepped(old(self)@.selection_set.secondary[i], forward),
        ));
    }
}

} // verus!
