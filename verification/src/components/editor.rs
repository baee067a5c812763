use vstd::prelude::*;
use crate::app::Dimension;
use crate::buffer::{Buffer, BufferView, position_of_char};
use crate::char_index::{CharIndex, CharIndexRange, Position};
use crate::diagnostic::PositionRange;
use crate::selection::{SelectionModeView, SelectionSet, SelectionSetView, SelectionView};
use crate::text::{lemma_line_of_char, newlines_before};
use crate::rectangle::Rectangle;
use crate::selection::{Filter, InsideKind, Selection, SelectionMode};

verus! {

/// What the keys do.
#[derive(Clone, Copy, Debug, PartialEq, Eq, Structural)]
pub enum Mode {
    Normal,
    Insert,
    MultiCursor,
    FindOneChar,
    Exchange,
    UndoTree,
    Replace,
}

/// Which end of a selection the cursor sits on.
#[derive(Clone, Copy, Debug, PartialEq, Eq, Structural)]
pub enum Direction {
    Start,
    End,
}

impl Direction {
    /// The other end.
    pub open spec fn spec_reverse(self) -> Direction {
        match self {
            Direction::Start => Direction::End,
            Direction::End => Direction::Start,
        }
    }

    /// The other end.
    pub fn reverse(&self) -> (r: Direction)
        ensures
            r == self.spec_reverse(),
    {
        match self {
            Direction::Start => Direction::End,
            Direction::End => Direction::Start,
        }
    }

    /// The start.
    pub fn default() -> (r: Direction)
        ensures
            r == Direction::Start,
    {
        Direction::Start
    }
}

/// Reversing twice gives the direction again.
pub proof fn lemma_reverse_involution(d: Direction)
    ensures
        d.spec_reverse().spec_reverse() == d,
{
}

/// Where a selection goes, told in terms of the elements of the selection mode.
#[derive(Clone, Copy, Debug, PartialEq, Eq, Structural)]
pub enum Movement {
    Next,
    Previous,
    Last,
    Current,
    Up,
    Down,
    First,
    /// The element at this place among all, counted from zero.
    Index(usize),
    Jump(CharIndexRange),
    ToParentLine,
    Parent,
    FirstChild,
}

/// Where the line of the cursor stands in the window.
#[derive(Clone, Copy, Debug, PartialEq, Eq, Structural, PartialOrd, Ord)]
pub enum ViewAlignment {
    Top,
    Center,
    Bottom,
}

/// A label put on a selection that the user can jump to by typing it.
#[derive(Clone, Debug, PartialEq, Eq)]
pub struct Jump {
    pub character: char,
    pub selection: Selection,
}

/// The operations of an editor, as its surroundings ask for them.
#[derive(Clone, Debug, PartialEq, Eq)]
pub enum DispatchEditor {
    Surround(String, String),
    SetScrollOffset(u16),
    ShowJumps,
    ScrollPageDown,
    ScrollPageUp,
    AlignViewTop,
    AlignViewCenter,
    AlignViewBottom,
    SetSelectionMode(SelectionMode),
    Exchange(Movement),
    FindOneChar,
    MoveSelection(Movement),
    SwitchViewAlignment,
    Copy,
    Cut,
    ReplaceSelectionWithCopiedText,
    ReplaceWithClipboard,
    SelectAll,
    SetContent(String),
    SetRectangle(Rectangle),
    ToggleHighlightMode,
    Change,
    EnterUndoTreeMode,
    EnterInsertMode(Direction),
    SelectLine(Movement),
    Backspace,
    Kill,
    Insert(String),
    MoveToLineStart,
    MoveToLineEnd,
    MatchLiteral(String),
    OpenNewLine,
    ToggleBookmark,
    EnterInsideMode(InsideKind),
    EnterNormalMode,
    EnterExchangeMode,
    EnterReplaceMode,
    EnterMultiCursorMode,
    FilterPush(Filter),
    FilterClear,
    CursorAddToAllSelections,
    CursorKeepPrimaryOnly,
    Raise,
    Undo,
    Redo,
    KillLine(Direction),
    Reset,
    DeleteWordBackward,
    ReplaceCurrentSelectionWith(String),
    ReplacePreviousWord(String),
    ApplyPositionalEdit(PositionalEdit),
    SelectLineAt(usize),
    SelectKids,
    Save,
    SetLanguage(tree_sitter::Language),
    ReplaceCut,
    Paste(Direction),
    ChangeCursorDirection,
}

/// An edit as a language server tells it: a range between two positions, and the text to put
/// there.
#[derive(Clone, Debug, PartialEq, Eq)]
pub struct PositionalEdit {
    pub range: PositionRange,
    pub new_text: String,
}

impl Jump {
    /// A copy of the label and its selection.
    pub fn duplicate(&self) -> (j: Jump)
        ensures
            j@ == self@,
    {
        Jump::new(self.character, self.selection.duplicate())
    }

    /// A label on a selection.
    pub fn new(character: char, selection: Selection) -> (j: Jump)
        ensures
            j.character == character,
            j.selection == selection,
    {
        Jump { character, selection }
    }
}

/// What a `Jump` holds, as mathematical values.
pub struct JumpView {
    pub character: char,
    pub selection: SelectionView,
}

impl View for Jump {
    type V = JumpView;

    open spec fn view(&self) -> JumpView {
        JumpView { character: self.character, selection: self.selection@ }
    }
}

/// The views of the jumps of a list.
pub open spec fn jumps_view(jumps: Seq<Jump>) -> Seq<JumpView> {
    Seq::new(jumps.len(), |i: int| jumps[i]@)
}

/// The number of rows that the title of a window takes.
pub const WINDOW_TITLE_HEIGHT: u16 = 1;

/// A view on a buffer: the cursors, the mode of the keys, and the part of the text that shows.
pub struct Editor {
    pub mode: Mode,
    pub selection_set: SelectionSet,
    pub jumps: Option<Vec<Jump>>,
    pub cursor_direction: Direction,
    /// The number of lines above the first line that shows.
    pub scroll_offset: u16,
    pub rectangle: Rectangle,
    pub buffer: Buffer,
    pub title: Option<String>,
    pub id: usize,
    pub current_view_alignment: Option<ViewAlignment>,
}

/// What an `Editor` holds, as mathematical values.
pub struct EditorView {
    pub mode: Mode,
    pub selection_set: SelectionSetView,
    pub jumps: Option<Seq<JumpView>>,
    pub cursor_direction: Direction,
    pub scroll_offset: u16,
    pub rectangle: Rectangle,
    pub buffer: BufferView,
    pub title: Option<Seq<char>>,
    pub id: usize,
    pub current_view_alignment: Option<ViewAlignment>,
}

impl View for Editor {
    type V = EditorView;

    open spec fn view(&self) -> EditorView {
        EditorView {
            mode: self.mode,
            selection_set: self.selection_set@,
            jumps: match self.jumps {
                Some(j) => Some(jumps_view(j@)),
                None => None,
            },
            cursor_direction: self.cursor_direction,
            scroll_offset: self.scroll_offset,
            rectangle: self.rectangle,
            buffer: self.buffer@,
            title: match self.title {
                Some(t) => Some(t@),
                None => None,
            },
            id: self.id,
            current_view_alignment: self.current_view_alignment,
        }
    }
}

/// The row of the cursor: the line of the character under the cursor of the primary selection,
/// the largest row where the line lies beyond it, the first row for a cursor beyond the text.
pub open spec fn cursor_row(v: EditorView) -> u16 {
    let c = v.selection_set.primary.cursor(v.cursor_direction).0;
    if c <= v.buffer.text.len() {
        if newlines_before(v.buffer.text, c as int) <= u16::MAX {
            newlines_before(v.buffer.text, c as int) as u16
        } else {
            u16::MAX
        }
    } else {
        0
    }
}

/// `a` less `b`, stopping at zero.
pub open spec fn minus(a: u16, b: u16) -> u16 {
    if a >= b {
        (a - b) as u16
    } else {
        0
    }
}

/// The scroll offset that puts the row of the cursor in the middle of the window.
pub open spec fn centered(row: u16, height: u16) -> u16 {
    minus(row, (height / 2 + height % 2) as u16)
}

/// Whether the row of the cursor lies outside the rows that show.
pub open spec fn out_of_view(row: u16, scroll_offset: u16, height: u16) -> bool {
    minus(row, scroll_offset) > minus(minus(height, WINDOW_TITLE_HEIGHT), 1) || row < scroll_offset
}

/// An editor after its view has followed the cursor: where the row of the cursor lies outside
/// the rows that show, it is put in the middle, and the alignment chosen by the user is
/// forgotten.
pub open spec fn scrolled(v: EditorView) -> EditorView {
    if out_of_view(cursor_row(v), v.scroll_offset, v.rectangle.height) {
        EditorView {
            scroll_offset: centered(cursor_row(v), v.rectangle.height),
            current_view_alignment: None,
            ..v
        }
    } else {
        v
    }
}

/// A set of selections with `f` done to each.
pub open spec fn each(set: SelectionSetView, f: spec_fn(SelectionView) -> SelectionView) -> SelectionSetView {
    SelectionSetView {
        primary: f(set.primary),
        secondary: Seq::new(set.secondary.len(), |i: int| f(set.secondary[i])),
        ..set
    }
}

/// A selection without its anchor.
pub open spec fn unanchored(s: SelectionView) -> SelectionView {
    SelectionView { initial_range: None, ..s }
}

/// A selection after highlight mode is toggled.
pub open spec fn toggled_anchor(s: SelectionView) -> SelectionView {
    s.toggled()
}

/// The editor with the next alignment of the view: top, then centre, then bottom, then top
/// again.
pub open spec fn realigned(v: EditorView) -> EditorView {
    match v.current_view_alignment {
        Some(ViewAlignment::Top) => EditorView {
            scroll_offset: centered(cursor_row(v), v.rectangle.height),
            current_view_alignment: Some(ViewAlignment::Center),
            ..v
        },
        Some(ViewAlignment::Center) => EditorView {
            scroll_offset: minus(cursor_row(v), minus(minus(v.rectangle.height, 1), WINDOW_TITLE_HEIGHT)),
            current_view_alignment: Some(ViewAlignment::Bottom),
            ..v
        },
        _ => EditorView {
            scroll_offset: cursor_row(v),
            current_view_alignment: Some(ViewAlignment::Top),
            ..v
        },
    }
}

/// An editor as entering insert mode leaves it: every selection is the empty one at the start
/// or the end of what it covered and no longer extends, the mode is insert, and the cursor is
/// at the start.
pub open spec fn inserting(v: EditorView, direction: Direction) -> EditorView {
    EditorView {
        mode: Mode::Insert,
        cursor_direction: Direction::Start,
        selection_set: SelectionSetView {
            primary: collapsed(v.selection_set.primary, direction),
            secondary: Seq::new(
                v.selection_set.secondary.len(),
                |i: int| collapsed(v.selection_set.secondary[i], direction),
            ),
            ..v.selection_set
        },
        ..v
    }
}

/// A selection made empty at the start or the end of what it covers, no longer extending.
pub open spec fn collapsed(s: SelectionView, direction: Direction) -> SelectionView {
    let r = s.extended_range();
    let at = match direction {
        Direction::Start => r.start,
        Direction::End => r.end,
    };
    SelectionView { range: CharIndexRange { start: at, end: at }, initial_range: None, ..s }
}

/// `a - b`, or zero where `b` is the greater.
fn minus_exec(a: u16, b: u16) -> (r: u16)
    ensures
        r == minus(a, b),
{
    if a >= b {
        a - b
    } else {
        0
    }
}

impl Editor {
    /// The buffer is well formed.
    pub open spec fn wf(&self) -> bool {
        self.buffer.wf()
    }

    /// An editor on a new buffer that holds `text`, with one empty selection at the start.
    pub fn from_text(language: tree_sitter::Language, text: &str) -> (e: Editor)
        ensures
            e.wf(),
            e@.buffer.text == text@,
            e@.mode == Mode::Normal,
            e@.selection_set == SelectionSetView::initial(),
            e@.jumps.is_none(),
            e@.cursor_direction == Direction::Start,
            e@.scroll_offset == 0,
            e@.title.is_none(),
            e@.current_view_alignment.is_none(),
            e@.buffer.undo.len() == 0,
            e@.buffer.redo.len() == 0,
    {
        Editor::from_buffer_with_mode(Buffer::new(language, text), SelectionMode::Custom)
    }

    /// An editor on a buffer, with one empty selection at the start, moving by trimmed lines.
    pub fn from_buffer(buffer: Buffer) -> (e: Editor)
        requires
            buffer.wf(),
        ensures
            e.wf(),
            e@.buffer == buffer@,
            e@.mode == Mode::Normal,
            e@.selection_set == (SelectionSetView {
                mode: SelectionModeView::LineTrimmed,
                ..SelectionSetView::initial()
            }),
            e@.jumps.is_none(),
            e@.cursor_direction == Direction::Start,
            e@.scroll_offset == 0,
    {
        Editor::from_buffer_with_mode(buffer, SelectionMode::LineTrimmed)
    }

    /// An editor on `buffer` in normal mode, with one empty selection at the start in the selection
    /// mode `mode`.
    fn from_buffer_with_mode(buffer: Buffer, mode: SelectionMode) -> (e: Editor)
        ensures
            e.buffer == buffer,
            e@.mode == Mode::Normal,
            e@.selection_set == (SelectionSetView { mode: mode@, ..SelectionSetView::initial() }),
            e@.jumps.is_none(),
            e@.cursor_direction == Direction::Start,
            e@.scroll_offset == 0,
            e@.title.is_none(),
            e@.current_view_alignment.is_none(),
    {
        let base: SelectionSet = SelectionSet::default();
        Editor {
            mode: Mode::Normal,
            selection_set: SelectionSet {
                primary: base.primary,
                secondary: base.secondary,
                mode,
                filters: base.filters,
            },
            jumps: None,
            cursor_direction: Direction::Start,
            scroll_offset: 0,
            rectangle: Rectangle { origin: Position { line: 0, column: 0 }, width: 0, height: 0 },
            buffer,
            title: None,
            id: 0,
            current_view_alignment: None,
        }
    }

    /// A copy of the editor, without jumps and without a chosen alignment of the view.
    pub fn duplicate(&self) -> (e: Editor)
        ensures
            e@ == (EditorView { jumps: None, current_view_alignment: None, ..self@ }),
            e.wf() == self.wf(),
    {
        Editor {
            mode: self.mode,
            selection_set: self.selection_set.duplicate(),
            jumps: None,
            cursor_direction: self.cursor_direction,
            scroll_offset: self.scroll_offset,
            rectangle: self.rectangle,
            buffer: self.buffer.duplicate(),
            title: match &self.title {
                Some(t) => Some(t.clone()),
                None => None,
            },
            id: self.id,
            current_view_alignment: None,
        }
    }

    /// The whole text.
    pub fn text(&self) -> (s: String)
        ensures
            s@ == self@.buffer.text,
    {
        self.buffer.content()
    }

    /// The buffer that the editor shows.
    pub fn buffer(&self) -> (b: &Buffer)
        ensures
            *b == self.buffer,
    {
        &self.buffer
    }

    /// The size of the window.
    pub fn dimension(&self) -> (d: Dimension)
        ensures
            d == (Dimension { height: self.rectangle.height, width: self.rectangle.width }),
    {
        self.rectangle.dimension()
    }

    /// The path of the file that the buffer shows.
    pub fn path(&self) -> (p: Option<String>)
        ensures
            match p {
                Some(s) => self@.buffer.path == Some(s@),
                None => self@.buffer.path.is_none(),
            },
    {
        self.buffer.path()
    }

    /// The character under the cursor of the primary selection.
    pub fn get_cursor_char_index(&self) -> (c: CharIndex)
        ensures
            c == self@.selection_set.primary.cursor(self@.cursor_direction),
    {
        self.selection_set.primary.to_char_index(&self.cursor_direction)
    }

    /// The row of the cursor.
    pub fn cursor_row(&self) -> (row: u16)
        ensures
            row == cursor_row(self@),
    {
        match self.buffer.char_to_line(self.get_cursor_char_index()) {
            Ok(line) => if line <= 0xFFFF {
                line as u16
            } else {
                u16::MAX
            },
            Err(_) => 0,
        }
    }

    /// Lets the view follow the cursor.
    pub fn recalculate_scroll_offset(&mut self)
        ensures
            final(self)@ == scrolled(old(self)@),
            final(self).buffer == old(self).buffer,
    {
        let row: u16 = self.cursor_row();
        let height: u16 = minus_exec(self.rectangle.height, WINDOW_TITLE_HEIGHT);
        if minus_exec(row, self.scroll_offset) > minus_exec(height, 1) || row < self.scroll_offset {
            self.align_cursor_to_center();
            self.current_view_alignment = None;
        }
    }

    /// Puts the row of the cursor last in the window.
    pub fn align_cursor_to_bottom(&mut self)
        ensures
            final(self)@ == (EditorView {
                scroll_offset: minus(
                    cursor_row(old(self)@),
                    minus(minus(old(self).rectangle.height, 1), WINDOW_TITLE_HEIGHT),
                ),
                ..old(self)@
            }),
            final(self).buffer == old(self).buffer,
    {
        self.scroll_offset = minus_exec(
            self.cursor_row(),
            minus_exec(minus_exec(self.rectangle.height, 1), WINDOW_TITLE_HEIGHT),
        );
    }

    /// Puts the row of the cursor first in the window.
    pub fn align_cursor_to_top(&mut self)
        ensures
            final(self)@ == (EditorView { scroll_offset: cursor_row(old(self)@), ..old(self)@ }),
            final(self).buffer == old(self).buffer,
    {
        self.scroll_offset = self.cursor_row();
    }

    /// Puts the row of the cursor in the middle of the window.
    pub fn align_cursor_to_center(&mut self)
        ensures
            final(self)@ == (EditorView {
                scroll_offset: centered(cursor_row(old(self)@), old(self).rectangle.height),
                ..old(self)@
            }),
            final(self).buffer == old(self).buffer,
    {
        let half: u16 = self.rectangle.height / 2 + self.rectangle.height % 2;
        self.scroll_offset = minus_exec(self.cursor_row(), half);
    }

    /// The alignment that the user chose last, unless the view has moved since.
    pub fn current_view_alignment(&self) -> (a: Option<ViewAlignment>)
        ensures
            a == self.current_view_alignment,
    {
        self.current_view_alignment
    }

    /// Goes on to the next alignment: top, then centre, then bottom, then top again.
    pub fn switch_view_alignment(&mut self)
        ensures
            final(self)@ == realigned(old(self)@),
            final(self).buffer == old(self).buffer,
    {
        match self.current_view_alignment {
            Some(ViewAlignment::Top) => {
                self.align_cursor_to_center();
                self.current_view_alignment = Some(ViewAlignment::Center);
            },
            Some(ViewAlignment::Center) => {
                self.align_cursor_to_bottom();
                self.current_view_alignment = Some(ViewAlignment::Bottom);
            },
            _ => {
                self.align_cursor_to_top();
                self.current_view_alignment = Some(ViewAlignment::Top);
            },
        }
    }

    /// Says how many lines lie above the first line that shows.
    pub fn set_scroll_offset(&mut self, scroll_offset: u16)
        ensures
            final(self)@ == (EditorView { scroll_offset, ..old(self)@ }),
            final(self).buffer == old(self).buffer,
    {
        self.scroll_offset = scroll_offset;
    }

    /// Says where the window stands; the view follows the cursor.
    pub fn set_rectangle(&mut self, rectangle: Rectangle)
        ensures
            final(self)@ == scrolled(EditorView { rectangle, ..old(self)@ }),
            final(self).buffer == old(self).buffer,
    {
        self.rectangle = rectangle;
        self.recalculate_scroll_offset();
    }

    /// Gives the window a title.
    pub fn set_title(&mut self, title: String)
        ensures
            final(self)@ == (EditorView { title: Some(title@), ..old(self)@ }),
            final(self).buffer == old(self).buffer,
    {
        self.title = Some(title);
    }

    /// Turns the cursor to the other end of the selections; the view follows.
    pub fn change_cursor_direction(&mut self)
        ensures
            final(self)@ == scrolled(
                EditorView {
                    cursor_direction: old(self).cursor_direction.spec_reverse(),
                    ..old(self)@
                },
            ),
            final(self).buffer == old(self).buffer,
    {
        self.cursor_direction = self.cursor_direction.reverse();
        self.recalculate_scroll_offset();
    }

    /// Stops extending the selections.
    pub fn reset(&mut self)
        ensures
            final(self).buffer == old(self).buffer,
            final(self)@ == (EditorView {
                selection_set: each(old(self)@.selection_set, |s: SelectionView| unanchored(s)),
                ..old(self)@
            }),
    {
        self.selection_set.escape_highlight_mode();
        proof {
            let before = old(self)@.selection_set;
            let wanted = each(before, |s: SelectionView| unanchored(s));
            assert(self@.selection_set.all()[0] == wanted.primary);
            assert forall|i: int| 0 <= i < wanted.secondary.len() implies self@.selection_set.secondary[i]
                == wanted.secondary[i] by {
                assert(self@.selection_set.all()[i + 1] == self@.selection_set.secondary[i]);
                assert(before.all()[i + 1] == before.secondary[i]);
            }
            assert(self@.selection_set.all().len() == before.all().len());
            assert(self@.selection_set.secondary =~= wanted.secondary);
        }
    }

    /// Starts or stops extending the selections; the view follows the cursor.
    pub fn toggle_highlight_mode(&mut self)
        ensures
            final(self).buffer == old(self).buffer,
            final(self)@ == scrolled(
                EditorView {
                    selection_set: each(old(self)@.selection_set, |s: SelectionView| toggled_anchor(s)),
                    ..old(self)@
                },
            ),
    {
        self.selection_set.toggle_highlight_mode();
        proof {
            let before = old(self)@.selection_set;
            let wanted = each(before, |s: SelectionView| toggled_anchor(s));
            assert(self@.selection_set.all()[0] == wanted.primary);
            assert forall|i: int| 0 <= i < wanted.secondary.len() implies self@.selection_set.secondary[i]
                == wanted.secondary[i] by {
                assert(self@.selection_set.all()[i + 1] == self@.selection_set.secondary[i]);
                assert(before.all()[i + 1] == before.secondary[i]);
            }
            assert(self@.selection_set.all().len() == before.all().len());
            assert(self@.selection_set.secondary =~= wanted.secondary);
        }
        self.recalculate_scroll_offset();
    }

    /// Drops every selection but the primary, and goes to normal mode.
    pub fn cursor_keep_primary_only(&mut self)
        requires
            old(self).wf(),
        ensures
            final(self).wf(),
            final(self)@ == normal(
                EditorView {
                    selection_set: SelectionSetView {
                        secondary: Seq::empty(),
                        ..old(self)@.selection_set
                    },
                    ..old(self)@
                },
            ),
    {
        self.selection_set.only();
        self.enter_normal_mode();
    }

    /// Goes to insert mode: every selection becomes the empty one at the start or the end of
    /// what it covered.
    pub fn enter_insert_mode(&mut self, direction: Direction)
        ensures
            final(self)@ == inserting(old(self)@, direction),
            final(self).buffer == old(self).buffer,
    {
        self.selection_set.primary = collapse(&self.selection_set.primary, &direction);
        let mut i: usize = 0;
        let ghost before = self.selection_set.secondary@;
        while i < self.selection_set.secondary.len()
            invariant
                i <= self.selection_set.secondary.len(),
                self.selection_set.secondary@.len() == before.len(),
                before == old(self).selection_set.secondary@,
                self.selection_set.primary@ == collapsed(old(self).selection_set.primary@, direction),
                self.selection_set.mode == old(self).selection_set.mode,
                self.selection_set.filters == old(self).selection_set.filters,
                self.mode == old(self).mode,
                self.jumps == old(self).jumps,
                self.cursor_direction == old(self).cursor_direction,
                self.scroll_offset == old(self).scroll_offset,
                self.rectangle == old(self).rectangle,
                self.buffer == old(self).buffer,
                self.title == old(self).title,
                self.id == old(self).id,
                self.current_view_alignment == old(self).current_view_alignment,
                forall|k: int| i <= k < before.len() ==> self.selection_set.secondary@[k] == before[k],
                forall|k: int|
                    0 <= k < i ==> self.selection_set.secondary@[k]@ == collapsed(
                        before[k]@,
                        direction,
                    ),
            decreases self.selection_set.secondary.len() - i,
        {
            let s: Selection = collapse(&self.selection_set.secondary[i], &direction);
            self.selection_set.secondary.set(i, s);
            i += 1;
        }
        self.mode = Mode::Insert;
        self.cursor_direction = Direction::Start;
        assert(self@.selection_set.secondary =~= inserting(old(self)@, direction).selection_set.secondary);
    }

    /// Goes to normal mode. Coming from insert mode, every cursor becomes the selection of one
    /// character: the one before the cursor, or the one at it where the cursor stands at the
    /// start of a line.
    pub fn enter_normal_mode(&mut self)
        requires
            old(self).wf(),
        ensures
            final(self).wf(),
            final(self)@ == normal(old(self)@),
            final(self).buffer == old(self).buffer,
    {
        if self.mode == Mode::Insert {
            self.selection_set.primary = widen(&self.buffer, &self.selection_set.primary);
            let mut i: usize = 0;
            let ghost before = self.selection_set.secondary@;
            while i < self.selection_set.secondary.len()
                invariant
                    i <= self.selection_set.secondary.len(),
                    self.selection_set.secondary@.len() == before.len(),
                    before == old(self).selection_set.secondary@,
                    self.selection_set.primary@ == widened(
                        old(self).buffer@.text,
                        old(self).selection_set.primary@,
                    ),
                    self.selection_set.mode == old(self).selection_set.mode,
                    self.selection_set.filters == old(self).selection_set.filters,
                    self.mode == old(self).mode,
                    self.jumps == old(self).jumps,
                    self.cursor_direction == old(self).cursor_direction,
                    self.scroll_offset == old(self).scroll_offset,
                    self.rectangle == old(self).rectangle,
                    self.buffer == old(self).buffer,
                    self.title == old(self).title,
                    self.id == old(self).id,
                    self.current_view_alignment == old(self).current_view_alignment,
                    forall|k: int|
                        i <= k < before.len() ==> self.selection_set.secondary@[k] == before[k],
                    forall|k: int|
                        0 <= k < i ==> self.selection_set.secondary@[k]@ == widened(
                            old(self).buffer@.text,
                            before[k]@,
                        ),
                decreases self.selection_set.secondary.len() - i,
            {
                let s: Selection = widen(&self.buffer, &self.selection_set.secondary[i]);
                self.selection_set.secondary.set(i, s);
                i += 1;
            }
            assert(self@.selection_set.secondary =~= normal(old(self)@).selection_set.secondary);
        }
        self.mode = Mode::Normal;
    }
}

/// A cursor of insert mode as the selection of one character: the one before the cursor, or
/// the one at it where the cursor stands at the start of a line. A cursor beyond the text
/// stays as it is.
pub open spec fn widened(text: Seq<char>, s: SelectionView) -> SelectionView {
    let at = s.extended_range().start.0;
    if at > text.len() {
        SelectionView { range: s.extended_range(), ..s }
    } else {
        let start = if position_of_char(text, at as int).column > 0 {
            (at - 1) as usize
        } else {
            at
        };
        SelectionView {
            range: CharIndexRange {
                start: CharIndex(start),
                end: CharIndex(if start < usize::MAX { (start + 1) as usize } else { start }),
            },
            ..s
        }
    }
}

/// An editor as entering normal mode leaves it.
pub open spec fn normal(v: EditorView) -> EditorView {
    if v.mode == Mode::Insert {
        EditorView {
            mode: Mode::Normal,
            selection_set: SelectionSetView {
                primary: widened(v.buffer.text, v.selection_set.primary),
                secondary: Seq::new(
                    v.selection_set.secondary.len(),
                    |i: int| widened(v.buffer.text, v.selection_set.secondary[i]),
                ),
                ..v.selection_set
            },
            ..v
        }
    } else {
        EditorView { mode: Mode::Normal, ..v }
    }
}

/// A selection made empty at its start or its end, without its anchor.
fn collapse(selection: &Selection, direction: &Direction) -> (r: Selection)
    ensures
        r@ == collapsed(selection@, *direction),
{
    let range: CharIndexRange = selection.extended_range();
    let at: CharIndex = match direction {
        Direction::Start => range.start,
        Direction::End => range.end,
    };
    selection.duplicate().set_range(CharIndexRange { start: at, end: at }).set_initial_range(None)
}

/// An empty selection widened to the character before it, or the one at it at the start of a line.
fn widen(buffer: &Buffer, selection: &Selection) -> (r: Selection)
    ensures
        r@ == widened(buffer@.text, selection@),
{
    let range: CharIndexRange = selection.extended_range();
    let len: usize = buffer.len_chars();
    match buffer.char_to_position(range.start) {
        Ok(position) => {
            let start: usize = if position.column > 0 && range.start.0 > 0 {
                range.start.0 - 1
            } else {
                range.start.0
            };
            proof {
                if position.column > 0 {
                    lemma_column_positive(buffer@.text, range.start.0 as int);
                }
            }
            let end: usize = if start < usize::MAX {
                start + 1
            } else {
                start
            };
            selection.duplicate().set_range(
                CharIndexRange { start: CharIndex(start), end: CharIndex(end) },
            )
        },
        Err(_) => selection.duplicate().set_range(range),
    }
}

/// A character in a column after the first is not the first character of the text.
pub proof fn lemma_column_positive(text: Seq<char>, c: int)
    requires
        0 <= c <= text.len() <= usize::MAX,
        position_of_char(text, c).column > 0,
    ensures
        c > 0,
{
    lemma_line_of_char(text, c);
}

} // verus!
