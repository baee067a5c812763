use vstd::prelude::*;
use vstd::string::{StrSliceExecFns, StringExecFns};
use crate::buffer::{Buffer, char_of_position, line_range_of_char};
use crate::components::editor::PositionalEdit;
use crate::diagnostic::PositionRange;
use crate::selection_mode::line_trimmed::{leading_blank, lemma_leading_blank};
use crate::char_index::{CharIndex, CharIndexRange};
use crate::components::editor::Direction;
use crate::edit::{Action, ActionGroup, ActionView, Edit, EditView};
use crate::selection::{Selection, SelectionView};
use crate::text::{char_is_whitespace, is_whitespace, line_count, str_chars};

verus! {

/// Whether a range starts no later than it ends and lies within the text.
pub open spec fn within(r: CharIndexRange, text: Seq<char>) -> bool {
    r.start.0 <= r.end.0 <= text.len()
}

/// The empty range at `i`.
pub open spec fn empty_at(i: usize) -> CharIndexRange {
    CharIndexRange { start: CharIndex(i), end: CharIndex(i) }
}

/// The range that starts at `start` and covers `len` characters.
pub open spec fn span(start: usize, len: nat) -> CharIndexRange {
    CharIndexRange { start: CharIndex(start), end: CharIndex((start + len) as usize) }
}

/// The edit that puts `new` in the place of `range`.
pub open spec fn edit(range: CharIndexRange, new: Seq<char>) -> ActionView {
    ActionView::Edit(EditView { range, new })
}

/// The group of one action.
pub fn single(a: Action) -> (g: ActionGroup)
    ensures
        g@ == seq![a@],
{
    let mut actions: Vec<Action> = Vec::new();
    actions.push(a);
    let g = ActionGroup { actions };
    assert(g@ =~= seq![a@]);
    g
}

/// The group of two actions.
pub fn pair(a: Action, b: Action) -> (g: ActionGroup)
    ensures
        g@ == seq![a@, b@],
{
    let mut actions: Vec<Action> = Vec::new();
    actions.push(a);
    actions.push(b);
    let g = ActionGroup { actions };
    assert(g@ =~= seq![a@, b@]);
    g
}

/// The empty range at `i`.
fn range_at(i: usize) -> (r: CharIndexRange)
    ensures
        r == empty_at(i),
{
    CharIndexRange { start: CharIndex(i), end: CharIndex(i) }
}

/// Cutting a selection: its text goes, and the cursor stands where it was, holding the text as
/// copied. `None` where the selection does not lie within the text.
pub open spec fn cut_actions(text: Seq<char>, s: SelectionView) -> Option<Seq<ActionView>> {
    let r = s.extended_range();
    if within(r, text) {
        Some(
            seq![
                edit(r, Seq::empty()),
                ActionView::Select(
                    SelectionView {
                        range: empty_at(r.start.0),
                        initial_range: None,
                        copied_text: Some(text.subrange(r.start.0 as int, r.end.0 as int)),
                        info: None,
                    },
                ),
            ],
        )
    } else {
        None
    }
}

/// The group of actions that cuts a selection; `None` where the selection does not lie within the
/// text.
pub fn cut_group(buffer: &Buffer, selection: &Selection) -> (r: Option<ActionGroup>)
    ensures
        match cut_actions(buffer@.text, selection@) {
            Some(a) => r.is_some() && r.unwrap()@ == a,
            None => r.is_none(),
        },
{
    let range: CharIndexRange = selection.extended_range();
    match buffer.slice(&range) {
        Ok(text) => Some(
            pair(
                Action::Edit(Edit { range, new: String::new() }),
                Action::Select(Selection::new(range_at(range.start.0)).set_copied_text(Some(text))),
            ),
        ),
        Err(_) => None,
    }
}

/// Changing a selection: its text goes, and the cursor stands where it was, no longer
/// extending.
pub open spec fn change_actions(s: SelectionView) -> Seq<ActionView> {
    let r = s.extended_range();
    seq![
        edit(r, Seq::empty()),
        ActionView::Select(SelectionView { range: empty_at(r.start.0), initial_range: None, ..s }),
    ]
}

/// The group of actions that changes a selection.
pub fn change_group(selection: &Selection) -> (g: ActionGroup)
    ensures
        g@ == change_actions(selection@),
{
    let range: CharIndexRange = selection.extended_range();
    pair(
        Action::Edit(Edit { range, new: String::new() }),
        Action::Select(
            selection.duplicate().set_range(range_at(range.start.0)).set_initial_range(None),
        ),
    )
}

/// Typing `new` at a cursor: the text goes in at the end of the selection, and the cursor
/// stands behind it, no longer extending. `None` where that place is beyond the largest index.
pub open spec fn insert_actions(s: SelectionView, new: Seq<char>) -> Option<Seq<ActionView>> {
    let at = s.extended_range().end.0;
    if at + new.len() <= usize::MAX {
        Some(
            seq![
                edit(empty_at(at), new),
                ActionView::Select(
                    SelectionView {
                        range: empty_at((at + new.len()) as usize),
                        initial_range: None,
                        ..s
                    },
                ),
            ],
        )
    } else {
        None
    }
}

/// The group of actions that types `new` at a cursor; `None` where that place is beyond the largest
/// index.
pub fn insert_group(selection: &Selection, new: &str) -> (r: Option<ActionGroup>)
    ensures
        match insert_actions(selection@, new@) {
            Some(a) => r.is_some() && r.unwrap()@ == a,
            None => r.is_none(),
        },
{
    let at: usize = selection.extended_range().end.0;
    match at.checked_add(new.unicode_len()) {
        Some(target) => Some(
            pair(
                Action::Edit(Edit { range: range_at(at), new: String::from_str(new) }),
                Action::Select(
                    selection.duplicate().set_range(range_at(target)).set_initial_range(None),
                ),
            ),
        ),
        None => None,
    }
}

/// Deleting the character before a cursor.
pub open spec fn backspace_actions(s: SelectionView) -> Seq<ActionView> {
    let end = s.extended_range().start;
    let start = if end.0 > 0 {
        (end.0 - 1) as usize
    } else {
        0
    };
    seq![
        edit(CharIndexRange { start: CharIndex(start), end }, Seq::empty()),
        ActionView::Select(SelectionView { range: empty_at(start), ..s }),
    ]
}

/// The group of actions that deletes the character before a cursor.
pub fn backspace_group(selection: &Selection) -> (g: ActionGroup)
    ensures
        g@ == backspace_actions(selection@),
{
    let end: CharIndex = selection.extended_range().start;
    let start: usize = if end.0 > 0 {
        end.0 - 1
    } else {
        0
    };
    pair(
        Action::Edit(Edit { range: CharIndexRange { start: CharIndex(start), end }, new: String::new() }),
        Action::Select(selection.duplicate().set_range(range_at(start))),
    )
}

/// Putting a selection between `open` and `close`: the selection then covers both and what
/// was selected. `None` where the selection does not lie within the text.
pub open spec fn enclose_actions(text: Seq<char>, s: SelectionView, open: Seq<char>, close: Seq<char>) -> Option<
    Seq<ActionView>,
> {
    let r = s.extended_range();
    let new = open + text.subrange(r.start.0 as int, r.end.0 as int) + close;
    if within(r, text) && r.start.0 + new.len() <= usize::MAX {
        Some(
            seq![
                edit(r, new),
                ActionView::Select(SelectionView { range: span(r.start.0, new.len()), ..s }),
            ],
        )
    } else {
        None
    }
}

/// The group of actions that puts a selection between `open` and `close`; `None` where the
/// selection does not lie within the text.
pub fn enclose_group(buffer: &Buffer, selection: &Selection, open: &str, close: &str) -> (r: Option<
    ActionGroup,
>)
    ensures
        match enclose_actions(buffer@.text, selection@, open@, close@) {
            Some(a) => r.is_some() && r.unwrap()@ == a,
            None => r.is_none(),
        },
{
    let range: CharIndexRange = selection.extended_range();
    match buffer.slice(&range) {
        Ok(old) => {
            let mut new: String = String::from_str(open);
            new.append(old.as_str());
            new.append(close);
            match range.start.0.checked_add(new.as_str().unicode_len()) {
                Some(end) => Some(
                    pair(
                        Action::Edit(Edit { range, new }),
                        Action::Select(
                            selection.duplicate().set_range(
                                CharIndexRange { start: range.start, end: CharIndex(end) },
                            ),
                        ),
                    ),
                ),
                None => None,
            }
        },
        Err(_) => None,
    }
}

/// Putting `new` in the place of a selection: the cursor stands behind it and holds it as
/// copied. `None` where that place is beyond the largest index.
pub open spec fn replace_with_actions(s: SelectionView, new: Seq<char>) -> Option<Seq<ActionView>> {
    let r = s.extended_range();
    if r.start.0 + new.len() <= usize::MAX {
        Some(
            seq![
                edit(r, new),
                ActionView::Select(
                    SelectionView {
                        range: empty_at((r.start.0 + new.len()) as usize),
                        initial_range: None,
                        copied_text: Some(new),
                        info: None,
                    },
                ),
            ],
        )
    } else {
        None
    }
}

/// The group of actions that puts `new` in the place of a selection; `None` where that place is
/// beyond the largest index.
pub fn replace_with_group(selection: &Selection, new: &str) -> (r: Option<ActionGroup>)
    ensures
        match replace_with_actions(selection@, new@) {
            Some(a) => r.is_some() && r.unwrap()@ == a,
            None => r.is_none(),
        },
{
    let range: CharIndexRange = selection.extended_range();
    match range.start.0.checked_add(new.unicode_len()) {
        Some(target) => Some(
            pair(
                Action::Edit(Edit { range, new: String::from_str(new) }),
                Action::Select(
                    Selection::new(range_at(target)).set_copied_text(Some(String::from_str(new))),
                ),
            ),
        ),
        None => None,
    }
}

/// Exchanging a selection with `replacement`: the replacement is selected, and the selection
/// holds as copied what it replaced. `None` where the selection does not lie within the text.
pub open spec fn replace_cut_actions(text: Seq<char>, s: SelectionView, replacement: Seq<char>) -> Option<
    Seq<ActionView>,
> {
    let r = s.extended_range();
    if within(r, text) && r.start.0 + replacement.len() <= usize::MAX {
        Some(
            seq![
                edit(r, replacement),
                ActionView::Select(
                    SelectionView {
                        range: span(r.start.0, replacement.len()),
                        initial_range: None,
                        copied_text: Some(text.subrange(r.start.0 as int, r.end.0 as int)),
                        info: None,
                    },
                ),
            ],
        )
    } else {
        None
    }
}

/// The group of actions that exchanges a selection with `replacement`; `None` where the selection
/// does not lie within the text.
pub fn replace_cut_group(buffer: &Buffer, selection: &Selection, replacement: &str) -> (r: Option<
    ActionGroup,
>)
    ensures
        match replace_cut_actions(buffer@.text, selection@, replacement@) {
            Some(a) => r.is_some() && r.unwrap()@ == a,
            None => r.is_none(),
        },
{
    let range: CharIndexRange = selection.extended_range();
    match buffer.slice(&range) {
        Ok(old) => match range.start.0.checked_add(replacement.unicode_len()) {
            Some(end) => Some(
                pair(
                    Action::Edit(Edit { range, new: String::from_str(replacement) }),
                    Action::Select(
                        Selection::new(
                            CharIndexRange { start: range.start, end: CharIndex(end) },
                        ).set_copied_text(Some(old)),
                    ),
                ),
            ),
            None => None,
        },
        Err(_) => None,
    }
}

/// Pasting `pasted` at the start or the end of a selection, with `separator` between it and
/// the selection: the pasted text is selected. `None` where its end is beyond the largest
/// index.
pub open spec fn paste_actions(
    s: SelectionView,
    direction: Direction,
    pasted: Seq<char>,
    separator: Seq<char>,
) -> Option<Seq<ActionView>> {
    let r = s.extended_range();
    let at = match direction {
        Direction::Start => r.start.0,
        Direction::End => r.end.0,
    };
    if at + separator.len() + pasted.len() <= usize::MAX {
        Some(
            match direction {
                Direction::Start => seq![
                    edit(empty_at(at), pasted + separator),
                    ActionView::Select(SelectionView::of_range(span(at, pasted.len()))),
                ],
                Direction::End => seq![
                    edit(empty_at(at), separator + pasted),
                    ActionView::Select(
                        SelectionView::of_range(span((at + separator.len()) as usize, pasted.len())),
                    ),
                ],
            },
        )
    } else {
        None
    }
}

/// The group of actions that pastes `pasted` beside a selection; `None` where its end is beyond the
/// largest index.
pub fn paste_group(selection: &Selection, direction: &Direction, pasted: &str, separator: &str) -> (r:
    Option<ActionGroup>)
    ensures
        match paste_actions(selection@, *direction, pasted@, separator@) {
            Some(a) => r.is_some() && r.unwrap()@ == a,
            None => r.is_none(),
        },
{
    let range: CharIndexRange = selection.extended_range();
    let at: usize = match direction {
        Direction::Start => range.start.0,
        Direction::End => range.end.0,
    };
    let gap: usize = separator.unicode_len();
    let len: usize = pasted.unicode_len();
    let start: usize = match direction {
        Direction::Start => at,
        Direction::End => match at.checked_add(gap) {
            Some(v) => v,
            None => {
                return None;
            },
        },
    };
    let end: usize = match start.checked_add(len) {
        Some(v) => v,
        None => {
            return None;
        },
    };
    if let Direction::Start = direction {
        if end.checked_add(gap).is_none() {
            return None;
        }
    }
    let new: String = match direction {
        Direction::Start => String::from_str(pasted).concat(separator),
        Direction::End => String::from_str(separator).concat(pasted),
    };
    Some(
        pair(
            Action::Edit(Edit { range: range_at(at), new }),
            Action::Select(
                Selection::new(CharIndexRange { start: CharIndex(start), end: CharIndex(end) }),
            ),
        ),
    )
}

/// Pasting into a text without characters puts the pasted text at its start.
pub proof fn lemma_paste_into_empty(
    text: Seq<char>,
    s: SelectionView,
    direction: Direction,
    pasted: Seq<char>,
    separator: Seq<char>,
)
    requires
        text.len() == 0,
        s.extended_range().end.0 <= text.len(),
        s.extended_range().start.0 <= text.len(),
        paste_actions(s, direction, pasted, separator).is_some(),
    ensures
        paste_actions(s, direction, pasted, separator).unwrap()[0] is Edit,
        paste_actions(s, direction, pasted, separator).unwrap()[0]->Edit_0.range == empty_at(0),
{
}

/// Whether every character of a text is white space.
pub open spec fn is_blank(s: Seq<char>) -> bool {
    forall|i: int| 0 <= i < s.len() ==> is_whitespace(#[trigger] s[i])
}

/// Whether every character of a text is white space.
pub fn is_blank_text(s: &str) -> (b: bool)
    ensures
        b == is_blank(s@),
{
    let chars: Vec<char> = str_chars(s);
    let mut i: usize = 0;
    while i < chars.len()
        invariant
            i <= chars.len(),
            chars@ == s@,
            forall|k: int| 0 <= k < i ==> is_whitespace(#[trigger] chars@[k]),
        decreases chars.len() - i,
    {
        if !char_is_whitespace(chars[i]) {
            return false;
        }
        i += 1;
    }
    true
}

/// The character right after `start`, as a range; the empty range there at the largest index.
pub open spec fn next_char(start: usize) -> CharIndexRange {
    CharIndexRange {
        start: CharIndex(start),
        end: CharIndex(if start < usize::MAX { (start + 1) as usize } else { start }),
    }
}

/// Whether `other` is an element of its own that lies after `current`.
pub open spec fn lies_after(current: CharIndexRange, other: CharIndexRange, text: Seq<char>) -> bool {
    other != current && current.end.0 <= other.start.0 && within(other, text)
}

/// Whether `other` is an element of its own that lies before `current`.
pub open spec fn lies_before(current: CharIndexRange, other: CharIndexRange) -> bool {
    other != current && other.start.0 <= other.end.0 <= current.start.0
}

/// Killing a selection, given the elements `next` and `previous` that the mode has after and
/// before it (the selection itself where there is none). In a contiguous mode, where the gap
/// up to the next element is blank, or the mode goes by the siblings of the syntax tree, the
/// selection goes with the gap, and the next element is selected. At the last element the
/// selection goes, in a contiguous mode with such a gap behind the element before it, and that
/// element is selected. Else the selection goes, and the character that follows is selected.
/// `None` where the selection does not lie within the text.
pub open spec fn kill_actions(
    text: Seq<char>,
    s: SelectionView,
    next: CharIndexRange,
    previous: CharIndexRange,
    contiguous: bool,
    by_siblings: bool,
) -> Option<Seq<ActionView>> {
    let c = s.extended_range();
    if !within(c, text) {
        None
    } else {
        let (delete, select) = if lies_after(c, next, text) {
            if contiguous && (by_siblings || is_blank(
                text.subrange(c.end.0 as int, next.start.0 as int),
            )) {
                (
                    CharIndexRange { start: c.start, end: next.start },
                    next.spec_shift_left((next.start.0 - c.start.0) as usize),
                )
            } else {
                (c, next_char(c.start.0))
            }
        } else if lies_before(c, previous) {
            if contiguous && (by_siblings || is_blank(
                text.subrange(previous.end.0 as int, c.start.0 as int),
            )) {
                (CharIndexRange { start: previous.end, end: c.end }, previous)
            } else {
                (c, previous)
            }
        } else {
            (c, next_char(c.start.0))
        };
        Some(
            seq![
                edit(delete, Seq::empty()),
                ActionView::Select(SelectionView { range: select, initial_range: None, ..s }),
            ],
        )
    }
}

/// Killing the last element of a mode that is not contiguous deletes that element and nothing
/// else, and selects the element before it, where there is one.
pub proof fn lemma_kill_last(
    text: Seq<char>,
    s: SelectionView,
    next: CharIndexRange,
    previous: CharIndexRange,
    by_siblings: bool,
)
    requires
        within(s.extended_range(), text),
        !lies_after(s.extended_range(), next, text),
    ensures
        kill_actions(text, s, next, previous, false, by_siblings).unwrap()[0] == edit(
            s.extended_range(),
            Seq::empty(),
        ),
        lies_before(s.extended_range(), previous) ==> kill_actions(
            text,
            s,
            next,
            previous,
            false,
            by_siblings,
        ).unwrap()[1] == ActionView::Select(
            SelectionView { range: previous, initial_range: None, ..s },
        ),
{
}

/// Killing in a mode that is not contiguous deletes the selection and nothing else.
pub proof fn lemma_kill_apart(
    text: Seq<char>,
    s: SelectionView,
    next: CharIndexRange,
    previous: CharIndexRange,
    by_siblings: bool,
)
    requires
        within(s.extended_range(), text),
    ensures
        kill_actions(text, s, next, previous, false, by_siblings).unwrap()[0] == edit(
            s.extended_range(),
            Seq::empty(),
        ),
{
}

/// The group of actions that kills a selection, given its neighbours in the mode; `None` where the
/// selection does not lie within the text.
pub fn kill_group(
    buffer: &Buffer,
    selection: &Selection,
    next: CharIndexRange,
    previous: CharIndexRange,
    contiguous: bool,
    by_siblings: bool,
) -> (r: Option<ActionGroup>)
    ensures
        match kill_actions(buffer@.text, selection@, next, previous, contiguous, by_siblings) {
            Some(a) => r.is_some() && r.unwrap()@ == a,
            None => r.is_none(),
        },
{
    let c: CharIndexRange = selection.extended_range();
    let len: usize = buffer.len_chars();
    if c.start.0 > c.end.0 || c.end.0 > len {
        return None;
    }
    let after: CharIndexRange = CharIndexRange {
        start: c.start,
        end: CharIndex(if c.start.0 < usize::MAX { c.start.0 + 1 } else { c.start.0 }),
    };
    let has_next: bool = (next.start.0 != c.start.0 || next.end.0 != c.end.0) && c.end.0
        <= next.start.0 && next.start.0 <= next.end.0 && next.end.0 <= len;
    let has_previous: bool = (previous.start.0 != c.start.0 || previous.end.0 != c.end.0)
        && previous.start.0 <= previous.end.0 && previous.end.0 <= c.start.0;
    let (delete, select) = if has_next {
        let gap: CharIndexRange = CharIndexRange { start: c.end, end: next.start };
        let blank: bool = match buffer.slice(&gap) {
            Ok(text) => is_blank_text(text.as_str()),
            Err(_) => false,
        };
        if contiguous && (by_siblings || blank) {
            (
                CharIndexRange { start: c.start, end: next.start },
                next.shift_left(next.start.0 - c.start.0),
            )
        } else {
            (c, after)
        }
    } else if has_previous {
        let gap: CharIndexRange = CharIndexRange { start: previous.end, end: c.start };
        let blank: bool = match buffer.slice(&gap) {
            Ok(text) => is_blank_text(text.as_str()),
            Err(_) => false,
        };
        if contiguous && (by_siblings || blank) {
            (CharIndexRange { start: previous.end, end: c.end }, previous)
        } else {
            (c, previous)
        }
    } else {
        (c, after)
    };
    Some(
        pair(
            Action::Edit(Edit { range: delete, new: String::new() }),
            Action::Select(selection.duplicate().set_range(select).set_initial_range(None)),
        ),
    )
}

/// Whether a text to be pasted looks like an element of its own: it is not empty, and neither
/// starts nor ends with white space.
pub open spec fn looks_like_element(pasted: Seq<char>) -> bool {
    pasted.len() > 0 && !is_whitespace(pasted[0]) && !is_whitespace(pasted.last())
}

/// What is put between a pasted text and the selection it is pasted beside: in a contiguous
/// mode, for a text that looks like an element, the gap between the selection and its
/// neighbour on the side of the paste, or on the other side where it has none there; else
/// nothing.
pub open spec fn smart_separator(
    text: Seq<char>,
    current: CharIndexRange,
    next: CharIndexRange,
    previous: CharIndexRange,
    direction: Direction,
    contiguous: bool,
    pasted: Seq<char>,
) -> Seq<char> {
    if !contiguous || !looks_like_element(pasted) || !within(current, text) {
        Seq::empty()
    } else {
        let after = text.subrange(current.end.0 as int, next.start.0 as int);
        let before = text.subrange(previous.end.0 as int, current.start.0 as int);
        let has_after = lies_after(current, next, text);
        let has_before = lies_before(current, previous);
        match direction {
            Direction::End => if has_after {
                after
            } else if has_before {
                before
            } else {
                Seq::empty()
            },
            Direction::Start => if has_before {
                before
            } else if has_after {
                after
            } else {
                Seq::empty()
            },
        }
    }
}

/// What is put between a pasted text and the selection it is pasted beside.
pub fn get_smart_separator(
    buffer: &Buffer,
    current: CharIndexRange,
    next: CharIndexRange,
    previous: CharIndexRange,
    direction: &Direction,
    contiguous: bool,
    pasted: &str,
) -> (r: String)
    ensures
        r@ == smart_separator(
            buffer@.text,
            current,
            next,
            previous,
            *direction,
            contiguous,
            pasted@,
        ),
{
    let len: usize = buffer.len_chars();
    let chars: Vec<char> = str_chars(pasted);
    let element: bool = chars.len() > 0 && !char_is_whitespace(chars[0]) && !char_is_whitespace(
        chars[chars.len() - 1],
    );
    if !contiguous || !element || current.start.0 > current.end.0 || current.end.0 > len {
        return String::new();
    }
    let has_after: bool = (next.start.0 != current.start.0 || next.end.0 != current.end.0)
        && current.end.0 <= next.start.0 && next.start.0 <= next.end.0 && next.end.0 <= len;
    let has_before: bool = (previous.start.0 != current.start.0 || previous.end.0
        != current.end.0) && previous.start.0 <= previous.end.0 && previous.end.0
        <= current.start.0;
    let after: CharIndexRange = CharIndexRange { start: current.end, end: next.start };
    let before: CharIndexRange = CharIndexRange { start: previous.end, end: current.start };
    let chosen: Option<CharIndexRange> = match direction {
        Direction::End => if has_after {
            Some(after)
        } else if has_before {
            Some(before)
        } else {
            None
        },
        Direction::Start => if has_before {
            Some(before)
        } else if has_after {
            Some(after)
        } else {
            None
        },
    };
    match chosen {
        Some(range) => match buffer.slice(&range) {
            Ok(s) => s,
            Err(_) => String::new(),
        },
        None => String::new(),
    }
}

/// Exchanging the texts of two selections, in two groups: the text of `other` in the place of
/// `current`; the text of `current` in the place of `other`, where the cursor then stands.
/// `None` where one of them does not lie within the text.
pub open spec fn exchange_actions(text: Seq<char>, current: SelectionView, other: SelectionView) -> Option<
    (Seq<ActionView>, Seq<ActionView>),
> {
    let c = current.extended_range();
    let o = other.extended_range();
    if within(c, text) && within(o, text) && o.start.0 + c.spec_len() <= usize::MAX {
        Some(
            (
                seq![edit(c, text.subrange(o.start.0 as int, o.end.0 as int))],
                seq![
                    edit(o, text.subrange(c.start.0 as int, c.end.0 as int)),
                    ActionView::Select(
                        SelectionView { range: span(o.start.0, c.spec_len()), ..current },
                    ),
                ],
            ),
        )
    } else {
        None
    }
}

/// The two groups of actions that exchange the texts of two selections; `None` where one of them
/// does not lie within the text.
pub fn exchange_groups(buffer: &Buffer, current: &Selection, other: &Selection) -> (r: Option<
    (ActionGroup, ActionGroup),
>)
    ensures
        match exchange_actions(buffer@.text, current@, other@) {
            Some(a) => r.is_some() && r.unwrap().0@ == a.0 && r.unwrap().1@ == a.1,
            None => r.is_none(),
        },
{
    let c: CharIndexRange = current.extended_range();
    let o: CharIndexRange = other.extended_range();
    let mine: String = match buffer.slice(&c) {
        Ok(s) => s,
        Err(_) => {
            return None;
        },
    };
    let theirs: String = match buffer.slice(&o) {
        Ok(s) => s,
        Err(_) => {
            return None;
        },
    };
    let end: usize = match o.start.0.checked_add(c.len()) {
        Some(e) => e,
        None => {
            return None;
        },
    };
    Some(
        (
            single(Action::Edit(Edit { range: c, new: theirs })),
            pair(
                Action::Edit(Edit { range: o, new: mine }),
                Action::Select(
                    current.duplicate().set_range(
                        CharIndexRange { start: o.start, end: CharIndex(end) },
                    ),
                ),
            ),
        ),
    )
}

/// Raising a selection over `other`: the text of the selection in the place of all that the
/// two cover, and selected there. `None` where the selection does not lie within the text.
pub open spec fn raise_actions(text: Seq<char>, current: SelectionView, other: SelectionView) -> Option<
    Seq<ActionView>,
> {
    let c = current.extended_range();
    let all = c.spec_hull(other.extended_range());
    if within(c, text) && all.start.0 + c.spec_len() <= usize::MAX {
        Some(
            seq![
                edit(all, text.subrange(c.start.0 as int, c.end.0 as int)),
                ActionView::Select(
                    SelectionView { range: span(all.start.0, c.spec_len()), ..current },
                ),
            ],
        )
    } else {
        None
    }
}

/// The group of actions that raises a selection over `other`; `None` where the selection does not
/// lie within the text.
pub fn raise_group(buffer: &Buffer, current: &Selection, other: &Selection) -> (r: Option<ActionGroup>)
    ensures
        match raise_actions(buffer@.text, current@, other@) {
            Some(a) => r.is_some() && r.unwrap()@ == a,
            None => r.is_none(),
        },
{
    let c: CharIndexRange = current.extended_range();
    let all: CharIndexRange = c.hull(&other.extended_range());
    let mine: String = match buffer.slice(&c) {
        Ok(s) => s,
        Err(_) => {
            return None;
        },
    };
    match all.start.0.checked_add(c.len()) {
        Some(end) => Some(
            pair(
                Action::Edit(Edit { range: all, new: mine }),
                Action::Select(
                    current.duplicate().set_range(
                        CharIndexRange { start: all.start, end: CharIndex(end) },
                    ),
                ),
            ),
        ),
        None => None,
    }
}

/// An edit that a language server asks for: its text in the place of the range between its two
/// positions; for the first edit of a list, with the cursor behind the new text. `None` where
/// a position lies beyond the last line.
pub open spec fn positional_actions(
    text: Seq<char>,
    range: PositionRange,
    new_text: Seq<char>,
    first: bool,
) -> Option<Seq<ActionView>> {
    if range.start.line <= line_count(text) && range.end.line <= line_count(text) && char_of_position(
        text,
        range.start,
    ) + new_text.len() <= usize::MAX {
        let r = CharIndexRange {
            start: CharIndex(char_of_position(text, range.start) as usize),
            end: CharIndex(char_of_position(text, range.end) as usize),
        };
        if first {
            Some(
                seq![
                    edit(r, new_text),
                    ActionView::Select(
                        SelectionView::of_range(empty_at((r.start.0 + new_text.len()) as usize)),
                    ),
                ],
            )
        } else {
            Some(seq![edit(r, new_text)])
        }
    } else {
        None
    }
}

/// The group of actions for an edit that a language server asks for; `None` where a position lies
/// beyond the last line.
pub fn positional_group(buffer: &Buffer, positional: &PositionalEdit, first: bool) -> (r: Option<
    ActionGroup,
>)
    ensures
        match positional_actions(buffer@.text, positional.range, positional.new_text@, first) {
            Some(a) => r.is_some() && r.unwrap()@ == a,
            None => r.is_none(),
        },
{
    let start: CharIndex = match buffer.position_to_char(positional.range.start) {
        Ok(c) => c,
        Err(_) => {
            return None;
        },
    };
    let end: CharIndex = match buffer.position_to_char(positional.range.end) {
        Ok(c) => c,
        Err(_) => {
            return None;
        },
    };
    let target: usize = match start.0.checked_add(positional.new_text.as_str().unicode_len()) {
        Some(t) => t,
        None => {
            return None;
        },
    };
    let change: Action = Action::Edit(
        Edit { range: CharIndexRange { start, end }, new: positional.new_text.clone() },
    );
    if first {
        Some(pair(change, Action::Select(Selection::new(range_at(target)))))
    } else {
        Some(single(change))
    }
}

/// Whether the line of range `line` ends with a line feed.
pub open spec fn ends_with_newline(text: Seq<char>, line: CharIndexRange) -> bool {
    line.start.0 < line.end.0 <= text.len() && text[line.end.0 - 1] == '\n'
}

/// Opening a line below the line of the cursor, indented as that line is: the cursor stands at
/// the end of the new line. `None` where the cursor lies beyond the text.
pub open spec fn open_new_line_actions(text: Seq<char>, s: SelectionView, direction: Direction) -> Option<
    Seq<ActionView>,
> {
    let c = s.cursor(direction).0;
    if c > text.len() {
        None
    } else {
        let line = line_range_of_char(text, c as int);
        let feed = ends_with_newline(text, line);
        let content_end = if feed {
            line.end.0 - 1
        } else {
            line.end.0 as int
        };
        let w = leading_blank(text, line.start.0 as int, content_end);
        let indent = text.subrange(line.start.0 as int, line.start.0 + w);
        if line.end.0 + w + 1 > usize::MAX {
            None
        } else if feed {
            Some(
                seq![
                    edit(empty_at(line.end.0), indent + seq!['\n']),
                    ActionView::Select(
                        SelectionView { range: empty_at((line.end.0 + w) as usize), ..s },
                    ),
                ],
            )
        } else {
            Some(
                seq![
                    edit(empty_at(line.end.0), seq!['\n'] + indent),
                    ActionView::Select(
                        SelectionView { range: empty_at((line.end.0 + 1 + w) as usize), ..s },
                    ),
                ],
            )
        }
    }
}

/// The group of actions that opens a line below the line of the cursor; `None` where the cursor
/// lies beyond the text.
pub fn open_new_line_group(buffer: &Buffer, selection: &Selection, direction: &Direction) -> (r:
    Option<ActionGroup>)
    ensures
        match open_new_line_actions(buffer@.text, selection@, *direction) {
            Some(a) => r.is_some() && r.unwrap()@ == a,
            None => r.is_none(),
        },
{
    let c: CharIndex = selection.to_char_index(direction);
    let line: CharIndexRange = match buffer.get_line_range_by_char_index(c) {
        Ok(l) => l,
        Err(_) => {
            return None;
        },
    };
    let content: String = match buffer.slice(&line) {
        Ok(s) => s,
        Err(_) => {
            return None;
        },
    };
    let chars: Vec<char> = str_chars(content.as_str());
    let ghost text = buffer@.text;
    let feed: bool = chars.len() > 0 && chars[chars.len() - 1] == '\n';
    let content_len: usize = if feed {
        chars.len() - 1
    } else {
        chars.len()
    };
    let mut w: usize = 0;
    while w < content_len && char_is_whitespace(chars[w])
        invariant
            w <= content_len <= chars.len(),
            chars@ == text.subrange(line.start.0 as int, line.end.0 as int),
            line.start.0 <= line.end.0 <= text.len(),
            forall|k: int| line.start.0 <= k < line.start.0 + w ==> is_whitespace(text[k]),
        decreases content_len - w,
    {
        assert(chars@[w as int] == text[line.start.0 + w]);
        w += 1;
    }
    proof {
        if w < content_len {
            assert(chars@[w as int] == text[line.start.0 + w]);
        }
        if feed {
            assert(chars@[chars@.len() - 1] == text[line.end.0 - 1]);
        } else if chars@.len() > 0 {
            assert(chars@[chars@.len() - 1] == text[line.end.0 - 1]);
        }
        lemma_leading_blank(
            text,
            line.start.0 as int,
            line.start.0 + content_len,
            line.start.0 + w,
        );
    }
    let indent: String = match buffer.slice(
        &CharIndexRange { start: line.start, end: CharIndex(line.start.0 + w) },
    ) {
        Ok(s) => s,
        Err(_) => {
            return None;
        },
    };
    let base: usize = match line.end.0.checked_add(w) {
        Some(b) => b,
        None => {
            return None;
        },
    };
    if base == usize::MAX {
        return None;
    }
    if feed {
        proof {
            assert(indent@ + "\n"@ =~= indent@ + seq!['\n']) by {
                reveal_strlit("\n");
                assert("\n"@ =~= seq!['\n']);
            }
        }
        Some(
            pair(
                Action::Edit(Edit { range: range_at(line.end.0), new: indent.concat("\n") }),
                Action::Select(selection.duplicate().set_range(range_at(base))),
            ),
        )
    } else {
        proof {
            reveal_strlit("\n");
            assert("\n"@ =~= seq!['\n']);
        }
        Some(
            pair(
                Action::Edit(
                    Edit { range: range_at(line.end.0), new: String::from_str("\n").concat(indent.as_str()) },
                ),
                Action::Select(selection.duplicate().set_range(range_at(base + 1))),
            ),
        )
    }
}

/// Killing the line of the cursor up to the cursor, or from it. Towards the start: the text
/// between the start of the line and the cursor goes; at the start of a line, the line feed
/// before it. Towards the end: the text from the cursor to the end of the line goes, without the
/// line feed; the line feed alone where nothing else is left, and everything to the end of the
/// text on the last line. `None` where the cursor lies beyond the text.
pub open spec fn kill_line_actions(
    text: Seq<char>,
    s: SelectionView,
    cursor_direction: Direction,
    direction: Direction,
) -> Option<Seq<ActionView>> {
    let cursor = match cursor_direction {
        Direction::Start => s.range.start.0,
        Direction::End => s.range.end.0,
    };
    if cursor > text.len() {
        None
    } else {
        let line = line_range_of_char(text, cursor as int);
        let (delete, at) = match direction {
            Direction::Start => {
                let start = if cursor > line.start.0 {
                    line.start.0
                } else if line.start.0 > 0 {
                    (line.start.0 - 1) as usize
                } else {
                    0
                };
                (CharIndexRange { start: CharIndex(start), end: CharIndex(cursor) }, start)
            },
            Direction::End => {
                let end = if line.end.0 == text.len() || (line.end.0 == cursor + 1
                    && text[cursor as int] == '\n') || line.end.0 <= cursor {
                    line.end.0
                } else {
                    (line.end.0 - 1) as usize
                };
                (CharIndexRange { start: CharIndex(cursor), end: CharIndex(end) }, cursor)
            },
        };
        Some(seq![edit(delete, Seq::empty()), ActionView::Select(SelectionView { range: empty_at(at), ..s })])
    }
}

/// The group of actions that kills the line of the cursor up to the cursor, or from it; `None`
/// where the cursor lies beyond the text.
pub fn kill_line_group(
    buffer: &Buffer,
    selection: &Selection,
    cursor_direction: &Direction,
    direction: &Direction,
) -> (r: Option<ActionGroup>)
    ensures
        match kill_line_actions(buffer@.text, selection@, *cursor_direction, *direction) {
            Some(a) => r.is_some() && r.unwrap()@ == a,
            None => r.is_none(),
        },
{
    let cursor: usize = selection.get_anchor(cursor_direction).0;
    let line: CharIndexRange = match buffer.get_line_range_by_char_index(CharIndex(cursor)) {
        Ok(l) => l,
        Err(_) => {
            return None;
        },
    };
    let len: usize = buffer.len_chars();
    let (delete, at) = match direction {
        Direction::Start => {
            let start: usize = if cursor > line.start.0 {
                line.start.0
            } else if line.start.0 > 0 {
                line.start.0 - 1
            } else {
                0
            };
            (CharIndexRange { start: CharIndex(start), end: CharIndex(cursor) }, start)
        },
        Direction::End => {
            let only_feed: bool = cursor < usize::MAX && line.end.0 == cursor + 1 && match buffer.slice(
                &CharIndexRange { start: CharIndex(cursor), end: line.end },
            ) {
                Ok(s) => {
                    let chars: Vec<char> = str_chars(s.as_str());
                    chars.len() == 1 && chars[0] == '\n'
                },
                Err(_) => false,
            };
            let end: usize = if line.end.0 == len || only_feed || line.end.0 <= cursor {
                line.end.0
            } else {
                line.end.0 - 1
            };
            (CharIndexRange { start: CharIndex(cursor), end: CharIndex(end) }, cursor)
        },
    };
    Some(
        pair(
            Action::Edit(Edit { range: delete, new: String::new() }),
            Action::Select(selection.duplicate().set_range(range_at(at))),
        ),
    )
}

/// Deleting back to the start of a word, given the word found at or before the character that
/// precedes the cursor: the text from the start of the word up to the cursor goes (up to the
/// end of the word where that comes first, but one character at least), and the cursor stands
/// at the start of the word. Nothing happens for a cursor at the start of the text.
pub open spec fn delete_word_backward_actions(s: SelectionView, len_chars: usize, word: CharIndexRange) -> Seq<
    ActionView,
> {
    let c = s.extended_range();
    if c.start.0 == 0 && c.end.0 == 0 {
        Seq::empty()
    } else {
        let bounded = if c.start.0 <= len_chars {
            c.start.0
        } else {
            len_chars
        };
        let probe = if bounded > 0 {
            (bounded - 1) as usize
        } else {
            0
        };
        let upto = if word.end.0 <= c.start.0 {
            word.end.0
        } else {
            c.start.0
        };
        let end = if upto >= probe + 1 {
            upto
        } else {
            (probe + 1) as usize
        };
        seq![
            edit(CharIndexRange { start: word.start, end: CharIndex(end) }, Seq::empty()),
            ActionView::Select(SelectionView { range: empty_at(word.start.0), ..s }),
        ]
    }
}

/// The character before the cursor of a selection, from which the word to delete is looked
/// for.
pub open spec fn word_probe(s: SelectionView, len_chars: usize) -> usize {
    let c = s.extended_range();
    let bounded = if c.start.0 <= len_chars {
        c.start.0
    } else {
        len_chars
    };
    if bounded > 0 {
        (bounded - 1) as usize
    } else {
        0
    }
}

/// The group of actions that deletes back to the start of the word found before the cursor.
pub fn delete_word_backward_group(selection: &Selection, len_chars: usize, word: CharIndexRange) -> (g:
    ActionGroup)
    ensures
        g@ == delete_word_backward_actions(selection@, len_chars, word),
{
    let c: CharIndexRange = selection.extended_range();
    if c.start.0 == 0 && c.end.0 == 0 {
        let g = ActionGroup { actions: Vec::new() };
        assert(g@ =~= Seq::<ActionView>::empty());
        return g;
    }
    let bounded: usize = if c.start.0 <= len_chars {
        c.start.0
    } else {
        len_chars
    };
    let probe: usize = if bounded > 0 {
        bounded - 1
    } else {
        0
    };
    let upto: usize = if word.end.0 <= c.start.0 {
        word.end.0
    } else {
        c.start.0
    };
    let end: usize = if upto > probe {
        upto
    } else {
        probe + 1
    };
    pair(
        Action::Edit(
            Edit { range: CharIndexRange { start: word.start, end: CharIndex(end) }, new: String::new() },
        ),
        Action::Select(selection.duplicate().set_range(range_at(word.start.0))),
    )
}

} // verus!
