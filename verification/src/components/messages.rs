use vstd::prelude::*;
use crate::app::Dispatch;
use crate::buffer::{BufferView, HighlightedSpan, anchored, sorted_diagnostics};
use crate::components::editing::{as_it_is, positional_groups, transaction_effect};
use crate::components::editor::{Editor, EditorView, PositionalEdit};
use crate::diagnostic::{Diagnostic, diagnostics_view};
use crate::error::EditorError;

verus! {

/// What a collaborator that works beside the editor has to tell it.
#[derive(Clone, Debug, PartialEq, Eq)]
pub enum Payload {
    /// The diagnostics of the file, in place of those known so far.
    Diagnostics(Vec<Diagnostic>),
    /// Edits to apply together.
    PositionalEdits(Vec<PositionalEdit>),
    /// The colours that the syntax gives, in place of those known so far.
    Highlights(Vec<HighlightedSpan>),
}

/// What a collaborator sends: the component and the file that its work was for, and the result
/// of the work.
#[derive(Clone, Debug, PartialEq, Eq)]
pub struct Message {
    pub component_id: usize,
    pub path: String,
    pub payload: Payload,
}

/// Whether a message is for this editor as it is now: it names the editor and the file that
/// its buffer shows.
pub open spec fn is_current(v: EditorView, component_id: usize, path: Seq<char>) -> bool {
    v.id == component_id && v.buffer.path == Some(path)
}

/// What a message does to an editor. A message that is not for the editor as it is now is
/// dropped. Diagnostics replace the diagnostics of the buffer, sorted by where they start, each
/// with the range that its positions stand for in the text as it is; colours replace the
/// colours; edits are applied as one transaction.
pub open spec fn message_effect(
    before: EditorView,
    after: EditorView,
    message: Message,
    r: Result<Vec<Dispatch>, EditorError>,
) -> bool {
    if !is_current(before, message.component_id, message.path@) {
        after == before && r.is_ok() && r.unwrap()@.len() == 0
    } else {
        match message.payload {
            Payload::Diagnostics(list) => r.is_ok() && r.unwrap()@.len() == 0 && after == (
            EditorView {
                buffer: BufferView {
                    diagnostics: sorted_diagnostics(diagnostics_view(list@)),
                    diagnostic_ranges: anchored(
                        before.buffer.text,
                        sorted_diagnostics(diagnostics_view(list@)),
                    ),
                    ..before.buffer
                },
                ..before
            }),
            Payload::Highlights(spans) => r.is_ok() && r.unwrap()@.len() == 0 && after == (
            EditorView {
                buffer: BufferView { highlighted_spans: spans@, ..before.buffer },
                ..before
            }),
            Payload::PositionalEdits(edits) => transaction_effect(
                before,
                after,
                positional_groups(before.buffer.text, edits@, edits@.len() as int),
                r,
                as_it_is(),
            ),
        }
    }
}

impl Editor {
    /// Whether a message that names this component and this file is for the editor as it is
    /// now.
    pub fn accepts(&self, component_id: usize, path: &String) -> (b: bool)
        ensures
            b == is_current(self@, component_id, path@),
    {
        match self.buffer.path() {
            Some(own) => {
                let same: bool = own == *path;
                self.id == component_id && same
            },
            None => false,
        }
    }

    /// Takes what a collaborator sends, unless it is stale.
    pub fn receive(&mut self, message: Message) -> (r: Result<Vec<Dispatch>, EditorError>)
        requires
            old(self).wf(),
        ensures
            final(self).wf(),
            message_effect(old(self)@, final(self)@, message, r),
    {
        if !self.accepts(message.component_id, &message.path) {
            return Ok(Vec::new());
        }
        match message.payload {
            Payload::Diagnostics(list) => {
                self.buffer.set_diagnostics(list);
                Ok(Vec::new())
            },
            Payload::Highlights(spans) => {
                self.buffer.update_highlighted_spans(spans);
                Ok(Vec::new())
            },
            Payload::PositionalEdits(edits) => self.apply_positional_edits(edits),
        }
    }
}

} // verus!
