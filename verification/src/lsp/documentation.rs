use vstd::prelude::*;

verus! {

/// What a language server tells about a symbol, as text.
#[derive(Clone, Debug, PartialEq, Eq)]
pub struct Documentation {
    pub content: String,
}

impl Documentation {
    /// The documentation that holds `content`.
    pub fn new(content: String) -> (d: Documentation)
        ensures
            d.content == content,
    {
        Documentation { content }
    }

    /// The text of the documentation.
    pub fn content(&self) -> (s: &str)
        ensures
            s@ == self.content@,
    {
        self.content.as_str()
    }
}

} // verus!
