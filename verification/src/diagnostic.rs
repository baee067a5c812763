use vstd::prelude::*;
use crate::char_index::Position;

verus! {

/// How grave a diagnostic is.
#[derive(Clone, Copy, Debug, PartialEq, Eq, Structural)]
pub enum DiagnosticSeverity {
    Error,
    Warning,
    Information,
    Hint,
}

/// A range between two positions.
#[derive(Clone, Copy, Debug, PartialEq, Eq, Structural)]
pub struct PositionRange {
    pub start: Position,
    pub end: Position,
}

/// A remark of a language server on a range of the text, told by line and column.
#[derive(Clone, Debug, PartialEq, Eq)]
pub struct Diagnostic {
    pub range: PositionRange,
    pub message: String,
    pub severity: Option<DiagnosticSeverity>,
}

/// What a `Diagnostic` holds, as mathematical values.
pub struct DiagnosticView {
    pub range: PositionRange,
    pub message: Seq<char>,
    pub severity: Option<DiagnosticSeverity>,
}

impl View for Diagnostic {
    type V = DiagnosticView;

    open spec fn view(&self) -> DiagnosticView {
        DiagnosticView { range: self.range, message: self.message@, severity: self.severity }
    }
}

/// The views of the diagnostics of a list.
pub open spec fn diagnostics_view(diagnostics: Seq<Diagnostic>) -> Seq<DiagnosticView> {
    Seq::new(diagnostics.len(), |i: int| diagnostics[i]@)
}

impl Diagnostic {
    /// A diagnostic without severity.
    pub fn new(range: PositionRange, message: String) -> (d: Diagnostic)
        ensures
            d@ == (DiagnosticView { range, message: message@, severity: None }),
    {
        Diagnostic { range, message, severity: None }
    }

    /// A copy of the diagnostic.
    pub fn duplicate(&self) -> (d: Diagnostic)
        ensures
            d@ == self@,
    {
        Diagnostic { range: self.range, message: self.message.clone(), severity: self.severity }
    }

    /// The message, for display.
    pub fn message(&self) -> (s: String)
        ensures
            s@ == self@.message,
    {
        self.message.clone()
    }
}

} // verus!
