use vstd::prelude::*;

verus! {

/// Why an operation of the editor was refused.
#[derive(Clone, Copy, Debug, PartialEq, Eq, Structural)]
pub enum EditorError {
    /// A character, byte or line index lies beyond the text.
    OutOfBounds,
    /// A range starts after it ends.
    InvalidRange,
    /// Edits of two cursors cover common text.
    OverlappingEdits,
    /// A movement over the syntax tree was asked for while the buffer has none.
    SyntaxFrozen,
    /// The formatter reported an error.
    FormatterFailed,
    /// A stored diff did not apply to the current text.
    PatchApplyFailed,
    /// A pattern given for a search or a filter is no regular expression.
    FilterRegexInvalid,
}

impl EditorError {
    /// The name of the error, for messages.
    pub fn message(&self) -> (s: &'static str)
        ensures
            s@ == (match *self {
                EditorError::OutOfBounds => "OutOfBounds"@,
                EditorError::InvalidRange => "InvalidRange"@,
                EditorError::OverlappingEdits => "OverlappingEdits"@,
                EditorError::SyntaxFrozen => "SyntaxFrozen"@,
                EditorError::FormatterFailed => "FormatterFailed"@,
                EditorError::PatchApplyFailed => "PatchApplyFailed"@,
                EditorError::FilterRegexInvalid => "FilterRegexInvalid"@,
            }),
    {
        match self {
            EditorError::OutOfBounds => "OutOfBounds",
            EditorError::InvalidRange => "InvalidRange",
            EditorError::OverlappingEdits => "OverlappingEdits",
            EditorError::SyntaxFrozen => "SyntaxFrozen",
            EditorError::FormatterFailed => "FormatterFailed",
            EditorError::PatchApplyFailed => "PatchApplyFailed",
            EditorError::FilterRegexInvalid => "FilterRegexInvalid",
        }
    }
}

} // verus!
