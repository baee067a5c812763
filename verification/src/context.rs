use vstd::prelude::*;
use crate::app::GlobalMode;

verus! {

/// What the editors of one program share: the text on the clipboard, and the global mode.
#[derive(Clone, Debug, PartialEq, Eq)]
pub struct Context {
    pub clipboard_content: Option<String>,
    pub mode: Option<GlobalMode>,
}

impl Context {
    /// A context with an empty clipboard and no global mode.
    pub fn default() -> (c: Context)
        ensures
            c.clipboard_content.is_none(),
            c.mode.is_none(),
    {
        Context { clipboard_content: None, mode: None }
    }

    /// The text on the clipboard.
    pub fn get_clipboard_content(&self) -> (r: Option<String>)
        ensures
            match r {
                Some(s) => self.clipboard_content.is_some() && s@ == self.clipboard_content.unwrap()@,
                None => self.clipboard_content.is_none(),
            },
    {
        match &self.clipboard_content {
            Some(s) => Some(s.clone()),
            None => None,
        }
    }

    /// Puts a text on the clipboard.
    pub fn set_clipboard_content(&mut self, content: String)
        ensures
            final(self).clipboard_content == Some(content),
            final(self).mode == old(self).mode,
    {
        self.clipboard_content = Some(content);
    }

    /// The global mode in force.
    pub fn mode(&self) -> (m: Option<GlobalMode>)
        ensures
            m == self.mode,
    {
        self.mode
    }

    /// Enters or leaves a global mode.
    pub fn set_mode(&mut self, mode: Option<GlobalMode>)
        ensures
            final(self).mode == mode,
            final(self).clipboard_content == old(self).clipboard_content,
    {
        self.mode = mode;
    }
}

} // verus!
