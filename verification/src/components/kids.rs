use vstd::prelude::*;
use crate::app::Dispatch;
use crate::buffer::{Buffer, BufferView, chars_of_bytes};
use crate::char_index::ByteRange;
use crate::components::editor::{Direction, Editor, each};
use crate::components::navigation::reselected;
use crate::error::EditorError;
use crate::selection::{Selection, SelectionSet, SelectionView};
use crate::syntax::{SyntaxNode, children_of, first_starting_at};
use crate::text::byte_offset;

verus! {

/// The bytes from the second child to the last child but one of the parent of the first node
/// that starts at or after `byte`: what stands between the delimiters of a list. `None` where
/// there is no such node, it has no parent, or the parent has fewer than three children.
pub open spec fn kids_range(nodes: Seq<SyntaxNode>, byte: usize) -> Option<ByteRange> {
    match first_starting_at(nodes, byte) {
        Some(i) => match nodes[i].parent {
            Some(p) => {
                let c = children_of(nodes, p);
                if c.len() >= 3 {
                    Some(
                        ByteRange {
                            start: nodes[c[1] as int].start_byte,
                            end: nodes[c[c.len() - 2] as int].end_byte,
                        },
                    )
                } else {
                    None
                }
            },
            None => None,
        },
        None => None,
    }
}

/// A selection widened to the children around its cursor; the selection itself where there are
/// none, or the buffer has no syntax tree.
pub open spec fn with_kids(b: BufferView, s: SelectionView, direction: Direction) -> SelectionView {
    let cursor = s.cursor(direction);
    match b.tree {
        Some(nodes) => if cursor.0 <= b.text.len() {
            match kids_range(nodes, byte_offset(b.text, cursor.0 as int) as usize) {
                Some(r) => if r.start <= r.end {
                    SelectionView { range: chars_of_bytes(b.text, r), ..s }
                } else {
                    s
                },
                None => s,
            }
        } else {
            s
        },
        None => s,
    }
}

/// A selection widened to the children around its cursor.
pub fn kids(buffer: &Buffer, s: &Selection, direction: &Direction) -> (r: Selection)
    requires
        buffer.wf(),
    ensures
        r@ == with_kids(buffer@, s@, *direction),
{
    let byte: usize = match buffer.char_to_byte(s.to_char_index(direction)) {
        Ok(b) => b,
        Err(_) => {
            return s.duplicate();
        },
    };
    let tree = match buffer.tree() {
        Some(t) => t,
        None => {
            return s.duplicate();
        },
    };
    let i: usize = match tree.first_starting_at(byte) {
        Some(i) => i,
        None => {
            return s.duplicate();
        },
    };
    let p: usize = match tree.node(i).parent {
        Some(p) => p,
        None => {
            return s.duplicate();
        },
    };
    let c: Vec<usize> = tree.children(p);
    if c.len() < 3 {
        return s.duplicate();
    }
    let range = ByteRange {
        start: tree.range_of(c[1]).start,
        end: tree.range_of(c[c.len() - 2]).end,
    };
    if range.start > range.end {
        return s.duplicate();
    }
    match buffer.byte_range_to_char_index_range(range) {
        Ok(chars) => s.duplicate().set_range(chars),
        Err(_) => s.duplicate(),
    }
}

impl Editor {
    /// Widens every selection to the children around its cursor; the cursor goes to the start,
    /// and the view follows it.
    pub fn select_kids(&mut self) -> (r: Result<Vec<Dispatch>, EditorError>)
        requires
            old(self).wf(),
        ensures
            final(self).wf(),
            final(self).buffer == old(self).buffer,
            r.is_ok() && r.unwrap()@.len() == 0,
            final(self)@ == reselected(
                old(self)@,
                each(
                    old(self)@.selection_set,
                    |s: SelectionView| with_kids(old(self)@.buffer, s, old(self)@.cursor_direction),
                ),
            ),
    {
        let primary: Selection = kids(&self.buffer, &self.selection_set.primary, &self.cursor_direction);
        let mut secondary: Vec<Selection> = Vec::new();
        let mut i: usize = 0;
        while i < self.selection_set.secondary.len()
            invariant
                i <= self.selection_set.secondary.len(),
                *self == *old(self),
                self.wf(),
                secondary@.len() == i,
                forall|k: int|
                    0 <= k < i ==> secondary@[k]@ == with_kids(
                        self@.buffer,
                        self.selection_set.secondary@[k]@,
                        self.cursor_direction,
                    ),
            decreases self.selection_set.secondary.len() - i,
        {
            secondary.push(kids(&self.buffer, &self.selection_set.secondary[i], &self.cursor_direction));
            i += 1;
        }
        let set = SelectionSet {
            primary,
            secondary,
            mode: self.selection_set.mode.duplicate(),
            filters: self.selection_set.filters.duplicate(),
        };
        proof {
            let wanted = each(
                old(self)@.selection_set,
                |s: SelectionView| with_kids(old(self)@.buffer, s, old(self)@.cursor_direction),
            );
            assert(set@.secondary =~= wanted.secondary);
            assert(set@ == wanted);
        }
        self.update_selection_set(set);
        Ok(Vec::new())
    }
}

} // verus!
