use vstd::prelude::*;
use crate::components::actions::insert_actions;
use crate::components::dispatching::HandleEventResult;
use crate::components::editing::{as_it_is, groups_for, transaction_effect};
use crate::components::editor::{Direction, Editor, EditorView};
use crate::components::keys::{handled, key_effect};
use crate::context::Context;
use crate::error::EditorError;
use crate::key_event_parser::KeyEvent;
use crate::selection::SelectionView;

verus! {

/// What the mouse did, as far as an editor cares.
#[derive(Clone, Copy, Debug, PartialEq, Eq, Structural)]
pub enum MouseEvent {
    ScrollUp,
    ScrollDown,
    Other,
}

/// What the terminal tells an editor.
#[derive(Clone, Debug, PartialEq, Eq)]
pub enum Event {
    /// A key was pressed.
    Key(KeyEvent),
    /// A text was pasted.
    Paste(String),
    /// The mouse did something.
    Mouse(MouseEvent),
    /// Anything else.
    Other,
}

/// The number of lines that one turn of the mouse wheel scrolls.
pub const SCROLL_HEIGHT: u16 = 1;

/// An editor with its view moved by `height` lines towards the start or the end of the text,
/// as far as the number of the first line can go.
pub open spec fn scrolled_by(v: EditorView, direction: Direction, height: u16) -> EditorView {
    EditorView {
        scroll_offset: match direction {
            Direction::Start => if v.scroll_offset >= height {
                (v.scroll_offset - height) as u16
            } else {
                0
            },
            Direction::End => if v.scroll_offset + height <= u16::MAX {
                (v.scroll_offset + height) as u16
            } else {
                u16::MAX
            },
        },
        ..v
    }
}

/// The editor after the mouse did something: the wheel moves the view by one line.
pub open spec fn after_mouse(v: EditorView, event: MouseEvent) -> EditorView {
    match event {
        MouseEvent::ScrollUp => scrolled_by(v, Direction::Start, SCROLL_HEIGHT),
        MouseEvent::ScrollDown => scrolled_by(v, Direction::End, SCROLL_HEIGHT),
        MouseEvent::Other => v,
    }
}

/// Whether an event was dealt with and nothing is asked of the surroundings.
pub open spec fn quietly_handled(r: Result<HandleEventResult, EditorError>) -> bool {
    match r {
        Ok(HandleEventResult::Handled(d)) => d@.len() == 0,
        _ => false,
    }
}

/// What an event does to an editor: a key, what keys do; a pasted text is typed at every
/// cursor; the mouse moves the view; anything else does nothing.
pub open spec fn event_effect(
    before: EditorView,
    after: EditorView,
    context: &Context,
    event: Event,
    r: Result<HandleEventResult, EditorError>,
) -> bool {
    match event {
        Event::Key(key) => key_effect(before, after, context, key, r),
        Event::Paste(text) => handled(r).is_some() && transaction_effect(
            before,
            after,
            groups_for(before, |s: SelectionView| insert_actions(s, text@)),
            handled(r).unwrap(),
            as_it_is(),
        ),
        Event::Mouse(mouse) => after == after_mouse(before, mouse) && quietly_handled(r),
        Event::Other => after == before && quietly_handled(r),
    }
}

impl Editor {
    /// Moves the view by `height` lines towards the start or the end of the text. The
    /// selections stay.
    pub fn apply_scroll(&mut self, direction: Direction, height: u16)
        ensures
            final(self)@ == scrolled_by(old(self)@, direction, height),
            final(self).buffer == old(self).buffer,
    {
        self.scroll_offset = match direction {
            Direction::Start => if self.scroll_offset >= height {
                self.scroll_offset - height
            } else {
                0
            },
            Direction::End => if self.scroll_offset <= u16::MAX - height {
                self.scroll_offset + height
            } else {
                u16::MAX
            },
        };
    }

    /// Deals with the mouse: the wheel moves the view by one line.
    pub fn handle_mouse_event(&mut self, event: MouseEvent)
        ensures
            final(self)@ == after_mouse(old(self)@, event),
            final(self).buffer == old(self).buffer,
    {
        match event {
            MouseEvent::ScrollUp => self.apply_scroll(Direction::Start, SCROLL_HEIGHT),
            MouseEvent::ScrollDown => self.apply_scroll(Direction::End, SCROLL_HEIGHT),
            MouseEvent::Other => {},
        }
    }

    /// Deals with what the terminal tells.
    pub fn handle_event(&mut self, context: &Context, event: Event) -> (r: Result<
        HandleEventResult,
        EditorError,
    >)
        requires
            old(self).wf(),
        ensures
            final(self).wf(),
            event_effect(old(self)@, final(self)@, context, event, r),
    {
        match event {
            Event::Key(key) => self.handle_key_event(context, key),
            Event::Paste(text) => match self.insert(text.as_str()) {
                Ok(d) => Ok(HandleEventResult::Handled(d)),
                Err(e) => Err(e),
            },
            Event::Mouse(mouse) => {
                self.handle_mouse_event(mouse);
                Ok(HandleEventResult::Handled(Vec::new()))
            },
            Event::Other => Ok(HandleEventResult::Handled(Vec::new())),
        }
    }
}

} // verus!
