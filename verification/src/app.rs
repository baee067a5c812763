use vstd::prelude::*;
use crate::char_index::Position;
use crate::components::editor::{DispatchEditor, Movement};
use crate::selection::Info;

verus! {

/// A size on the screen, in cells.
#[derive(Clone, Copy, Debug, PartialEq, Eq, Structural, Default)]
pub struct Dimension {
    pub height: u16,
    pub width: u16,
}

/// What a request to a language server is about: the component that asks, the file, and the
/// place in it.
#[derive(Clone, Debug, PartialEq, Eq)]
pub struct RequestParams {
    pub component_id: usize,
    pub path: String,
    pub position: Position,
}

/// Where a search looks.
#[derive(Clone, Copy, Debug, PartialEq, Eq, Structural)]
pub enum Scope {
    Local,
    Global,
}

/// A list that the movements of every editor go along while it is in force.
#[derive(Clone, Copy, Debug, PartialEq, Eq, Structural)]
pub enum GlobalMode {
    QuickfixListItem,
    SelectionHistoryContiguous,
}

/// What an editor asks of its surroundings.
#[derive(Clone, Debug, PartialEq, Eq)]
pub enum Dispatch {
    /// The text of a buffer has changed.
    DocumentDidChange { component_id: usize, path: Option<String>, content: String },
    /// A buffer was saved to its file.
    DocumentDidSave { saved_path: String },
    /// Put this text on the clipboard.
    SetClipboardContent(String),
    /// Show a note beside the editor.
    ShowEditorInfo(Info),
    /// Show a note to the user.
    ShowGlobalInfo(Info),
    /// Leave or enter a global mode.
    SetGlobalMode(Option<GlobalMode>),
    /// Move along the quickfix list.
    GotoQuickfixListItem(Movement),
    /// Move along the history of selections.
    GotoSelectionHistoryContiguous(Movement),
    /// Hand this operation back to the editor.
    ToEditor(DispatchEditor),
    /// Save the buffer of the editor to its file.
    RequestSave,
}

} // verus!
