use vstd::prelude::*;
use crate::text::{char_utf8_width, str_chars, string_from_chars, utf8_width};

verus! {

/// A key of the keyboard.
#[derive(Clone, Copy, Debug, PartialEq, Eq, Structural, Hash)]
pub enum KeyCode {
    Enter,
    Esc,
    Backspace,
    Left,
    Right,
    Up,
    Down,
    Home,
    End,
    PageUp,
    PageDown,
    Tab,
    BackTab,
    Delete,
    Insert,
    Char(char),
}

/// The keys held down with another key.
#[derive(Clone, Copy, Debug, PartialEq, Eq, Structural, Hash)]
pub struct KeyModifiers {
    pub control: bool,
    pub alt: bool,
    pub shift: bool,
}

/// A key pressed, with the keys held down with it.
#[derive(Clone, Copy, Debug, PartialEq, Eq, Structural, Hash)]
pub struct KeyEvent {
    pub code: KeyCode,
    pub modifiers: KeyModifiers,
}

/// Why a text does not name a key.
#[derive(Clone, Debug, PartialEq, Eq)]
pub enum ParseError {
    UnknownKeyCode(String),
    UnknownModifier(String),
}

/// What a `ParseError` holds, as mathematical values.
pub enum ParseErrorView {
    UnknownKeyCode(Seq<char>),
    UnknownModifier(Seq<char>),
}

impl View for ParseError {
    type V = ParseErrorView;

    open spec fn view(&self) -> ParseErrorView {
        match self {
            ParseError::UnknownKeyCode(s) => ParseErrorView::UnknownKeyCode(s@),
            ParseError::UnknownModifier(s) => ParseErrorView::UnknownModifier(s@),
        }
    }
}

impl ParseError {
    /// The text that was not understood.
    pub fn unknown(&self) -> (s: String)
        ensures
            s@ == (match self@ {
                ParseErrorView::UnknownKeyCode(t) => t,
                ParseErrorView::UnknownModifier(t) => t,
            }),
    {
        match self {
            ParseError::UnknownKeyCode(s) => s.clone(),
            ParseError::UnknownModifier(s) => s.clone(),
        }
    }
}

impl KeyModifiers {
    /// No key held down.
    pub open spec fn none() -> KeyModifiers {
        KeyModifiers { control: false, alt: false, shift: false }
    }
}

impl KeyEvent {
    /// A key pressed with other keys held down.
    pub fn new(code: KeyCode, modifiers: KeyModifiers) -> (k: KeyEvent)
        ensures
            k == (KeyEvent { code, modifiers }),
    {
        KeyEvent { code, modifiers }
    }
}

/// The pieces of a text between the occurrences of a separator.
pub open spec fn split(s: Seq<char>, separator: char) -> Seq<Seq<char>>
    decreases s.len(),
{
    if s.len() == 0 {
        seq![Seq::empty()]
    } else {
        let rest = split(s.drop_last(), separator);
        if s.last() == separator {
            rest.push(Seq::empty())
        } else {
            rest.drop_last().push(rest.last().push(s.last()))
        }
    }
}

/// A text always has a piece.
pub proof fn lemma_split_nonempty(s: Seq<char>, separator: char)
    ensures
        split(s, separator).len() > 0,
    decreases s.len(),
{
    if s.len() > 0 {
        lemma_split_nonempty(s.drop_last(), separator);
    }
}

/// The views of the pieces of a list.
pub open spec fn pieces_view(pieces: Seq<Vec<char>>) -> Seq<Seq<char>> {
    Seq::new(pieces.len(), |i: int| pieces[i]@)
}

/// The pieces of a text between the occurrences of a separator.
pub fn split_chars(s: &Vec<char>, separator: char) -> (pieces: Vec<Vec<char>>)
    ensures
        pieces_view(pieces@) == split(s@, separator),
        pieces@.len() > 0,
{
    let mut pieces: Vec<Vec<char>> = Vec::new();
    let mut current: Vec<char> = Vec::new();
    let mut i: usize = 0;
    proof {
        assert(s@.take(0) =~= Seq::<char>::empty());
        assert(pieces_view(pieces@).push(current@) =~= seq![Seq::<char>::empty()]);
    }
    while i < s.len()
        invariant
            i <= s.len(),
            pieces_view(pieces@).push(current@) == split(s@.take(i as int), separator),
        decreases s.len() - i,
    {
        let c: char = s[i];
        let ghost before = pieces_view(pieces@);
        let ghost piece = current@;
        proof {
            assert(s@.take(i + 1).drop_last() =~= s@.take(i as int));
            assert(s@.take(i + 1).last() == c);
            assert(before.push(piece).drop_last() =~= before);
        }
        if c == separator {
            pieces.push(current);
            current = Vec::new();
            assert(pieces_view(pieces@) =~= before.push(piece));
            assert(current@ =~= Seq::<char>::empty());
        } else {
            current.push(c);
        }
        i += 1;
    }
    let ghost before = pieces_view(pieces@);
    let ghost piece = current@;
    pieces.push(current);
    proof {
        assert(s@.take(s@.len() as int) =~= s@);
        assert(pieces_view(pieces@) =~= before.push(piece));
    }
    pieces
}

/// Whether the characters are those of `name`.
pub fn is_name(chars: &Vec<char>, name: &str) -> (b: bool)
    ensures
        b == (chars@ == name@),
{
    let other: Vec<char> = str_chars(name);
    if chars.len() != other.len() {
        return false;
    }
    let mut i: usize = 0;
    while i < chars.len()
        invariant
            i <= chars.len(),
            chars.len() == other.len(),
            other@ == name@,
            forall|k: int| 0 <= k < i ==> chars@[k] == other@[k],
        decreases chars.len() - i,
    {
        if chars[i] != other[i] {
            return false;
        }
        i += 1;
    }
    assert(chars@ =~= other@);
    true
}

/// The keys held down that a text names.
pub open spec fn modifier_of(s: Seq<char>) -> Option<KeyModifiers> {
    if s == "ctrl"@ {
        Some(KeyModifiers { control: true, alt: false, shift: false })
    } else if s == "alt"@ {
        Some(KeyModifiers { control: false, alt: true, shift: false })
    } else if s == "shift"@ {
        Some(KeyModifiers { control: false, alt: false, shift: true })
    } else if s == "ctrl+alt"@ {
        Some(KeyModifiers { control: true, alt: true, shift: false })
    } else if s == "ctrl+shift"@ {
        Some(KeyModifiers { control: true, alt: false, shift: true })
    } else if s == "alt+shift"@ {
        Some(KeyModifiers { control: false, alt: true, shift: true })
    } else if s == "ctrl+alt+shift"@ {
        Some(KeyModifiers { control: true, alt: true, shift: true })
    } else {
        None
    }
}

/// The key that a text names: one of the named keys, or the one character of one byte that the
/// text consists of.
pub open spec fn key_code_of(s: Seq<char>) -> Option<KeyCode> {
    if s == "enter"@ {
        Some(KeyCode::Enter)
    } else if s == "esc"@ {
        Some(KeyCode::Esc)
    } else if s == "backspace"@ {
        Some(KeyCode::Backspace)
    } else if s == "left"@ {
        Some(KeyCode::Left)
    } else if s == "right"@ {
        Some(KeyCode::Right)
    } else if s == "up"@ {
        Some(KeyCode::Up)
    } else if s == "down"@ {
        Some(KeyCode::Down)
    } else if s == "home"@ {
        Some(KeyCode::Home)
    } else if s == "end"@ {
        Some(KeyCode::End)
    } else if s == "pageup"@ {
        Some(KeyCode::PageUp)
    } else if s == "pagedown"@ {
        Some(KeyCode::PageDown)
    } else if s == "tab"@ {
        Some(KeyCode::Tab)
    } else if s == "backtab"@ {
        Some(KeyCode::BackTab)
    } else if s == "delete"@ {
        Some(KeyCode::Delete)
    } else if s == "insert"@ {
        Some(KeyCode::Insert)
    } else if s == "space"@ {
        Some(KeyCode::Char(' '))
    } else if s.len() == 1 && utf8_width(s[0]) == 1 {
        Some(KeyCode::Char(s[0]))
    } else {
        None
    }
}

/// The key event that a text names: a key, or the keys held down and a key with a hyphen
/// between them.
pub open spec fn key_event_of(s: Seq<char>) -> Result<KeyEvent, ParseErrorView> {
    let parts = split(s, '-');
    if parts.len() == 2 {
        match key_code_of(parts[1]) {
            None => Err(ParseErrorView::UnknownKeyCode(parts[1])),
            Some(code) => match modifier_of(parts[0]) {
                None => Err(ParseErrorView::UnknownModifier(parts[0])),
                Some(modifiers) => Ok(KeyEvent { code, modifiers }),
            },
        }
    } else {
        match key_code_of(s) {
            None => Err(ParseErrorView::UnknownKeyCode(s)),
            Some(code) => Ok(KeyEvent { code, modifiers: KeyModifiers::none() }),
        }
    }
}

/// The key events that the first `n` pieces name, or the error of the first piece that names
/// none.
pub open spec fn key_events_upto(pieces: Seq<Seq<char>>, n: int) -> Result<
    Seq<KeyEvent>,
    ParseErrorView,
>
    decreases n,
{
    if n <= 0 {
        Ok(Seq::empty())
    } else {
        match key_events_upto(pieces, n - 1) {
            Err(e) => Err(e),
            Ok(events) => match key_event_of(pieces[n - 1]) {
                Ok(k) => Ok(events.push(k)),
                Err(e) => Err(e),
            },
        }
    }
}

/// The key events that a text names, one for each piece between spaces.
pub open spec fn key_events_of(s: Seq<char>) -> Result<Seq<KeyEvent>, ParseErrorView> {
    key_events_upto(split(s, ' '), split(s, ' ').len() as int)
}

/// The keys held down that a text names, the names joined by `+`; `None` where one of them is no
/// such key.
fn parse_modifier(s: &Vec<char>) -> (r: Option<KeyModifiers>)
    ensures
        r == modifier_of(s@),
{
    if is_name(s, "ctrl") {
        Some(KeyModifiers { control: true, alt: false, shift: false })
    } else if is_name(s, "alt") {
        Some(KeyModifiers { control: false, alt: true, shift: false })
    } else if is_name(s, "shift") {
        Some(KeyModifiers { control: false, alt: false, shift: true })
    } else if is_name(s, "ctrl+alt") {
        Some(KeyModifiers { control: true, alt: true, shift: false })
    } else if is_name(s, "ctrl+shift") {
        Some(KeyModifiers { control: true, alt: false, shift: true })
    } else if is_name(s, "alt+shift") {
        Some(KeyModifiers { control: false, alt: true, shift: true })
    } else if is_name(s, "ctrl+alt+shift") {
        Some(KeyModifiers { control: true, alt: true, shift: true })
    } else {
        None
    }
}

/// The key that a text names; `None` where it names none.
fn parse_key_code(s: &Vec<char>) -> (r: Option<KeyCode>)
    ensures
        r == key_code_of(s@),
{
    if is_name(s, "enter") {
        Some(KeyCode::Enter)
    } else if is_name(s, "esc") {
        Some(KeyCode::Esc)
    } else if is_name(s, "backspace") {
        Some(KeyCode::Backspace)
    } else if is_name(s, "left") {
        Some(KeyCode::Left)
    } else if is_name(s, "right") {
        Some(KeyCode::Right)
    } else if is_name(s, "up") {
        Some(KeyCode::Up)
    } else if is_name(s, "down") {
        Some(KeyCode::Down)
    } else if is_name(s, "home") {
        Some(KeyCode::Home)
    } else if is_name(s, "end") {
        Some(KeyCode::End)
    } else if is_name(s, "pageup") {
        Some(KeyCode::PageUp)
    } else if is_name(s, "pagedown") {
        Some(KeyCode::PageDown)
    } else if is_name(s, "tab") {
        Some(KeyCode::Tab)
    } else if is_name(s, "backtab") {
        Some(KeyCode::BackTab)
    } else if is_name(s, "delete") {
        Some(KeyCode::Delete)
    } else if is_name(s, "insert") {
        Some(KeyCode::Insert)
    } else if is_name(s, "space") {
        Some(KeyCode::Char(' '))
    } else if s.len() == 1 && char_utf8_width(s[0]) == 1 {
        Some(KeyCode::Char(s[0]))
    } else {
        None
    }
}

/// The key event that a text names.
fn parse_chars(s: &Vec<char>) -> (r: Result<KeyEvent, ParseError>)
    ensures
        match key_event_of(s@) {
            Ok(k) => r == Ok::<KeyEvent, ParseError>(k),
            Err(e) => r.is_err() && r.unwrap_err()@ == e,
        },
{
    let parts: Vec<Vec<char>> = split_chars(s, '-');
    if parts.len() == 2 {
        assert(pieces_view(parts@)[0] == parts@[0]@);
        assert(pieces_view(parts@)[1] == parts@[1]@);
        match parse_key_code(&parts[1]) {
            None => Err(ParseError::UnknownKeyCode(string_from_chars(&parts[1]))),
            Some(code) => match parse_modifier(&parts[0]) {
                None => Err(ParseError::UnknownModifier(string_from_chars(&parts[0]))),
                Some(modifiers) => Ok(KeyEvent { code, modifiers }),
            },
        }
    } else {
        match parse_key_code(s) {
            None => Err(ParseError::UnknownKeyCode(string_from_chars(s))),
            Some(code) => Ok(
                KeyEvent { code, modifiers: KeyModifiers { control: false, alt: false, shift: false } },
            ),
        }
    }
}

/// The key event that a text names.
pub fn parse_key_event(input: &str) -> (r: Result<KeyEvent, ParseError>)
    ensures
        match key_event_of(input@) {
            Ok(k) => r == Ok::<KeyEvent, ParseError>(k),
            Err(e) => r.is_err() && r.unwrap_err()@ == e,
        },
{
    parse_chars(&str_chars(input))
}

/// Once a piece names no key event, that error stays as more pieces follow.
proof fn lemma_key_events_err(pieces: Seq<Seq<char>>, i: int, j: int)
    requires
        0 <= i <= j,
        key_events_upto(pieces, i).is_err(),
    ensures
        key_events_upto(pieces, j) == key_events_upto(pieces, i),
    decreases j - i,
{
    if i < j {
        lemma_key_events_err(pieces, i, j - 1);
    }
}

/// The key events that a text names, one for each piece between spaces.
pub fn parse_key_events(input: &str) -> (r: Result<Vec<KeyEvent>, ParseError>)
    ensures
        match key_events_of(input@) {
            Ok(events) => r.is_ok() && r.unwrap()@ == events,
            Err(e) => r.is_err() && r.unwrap_err()@ == e,
        },
{
    let pieces: Vec<Vec<char>> = split_chars(&str_chars(input), ' ');
    let ghost views = pieces_view(pieces@);
    let mut events: Vec<KeyEvent> = Vec::new();
    let mut i: usize = 0;
    while i < pieces.len()
        invariant
            i <= pieces.len(),
            views == pieces_view(pieces@),
            views == split(input@, ' '),
            key_events_upto(views, i as int) == Ok::<Seq<KeyEvent>, ParseErrorView>(events@),
        decreases pieces.len() - i,
    {
        assert(views[i as int] == pieces@[i as int]@);
        match parse_chars(&pieces[i]) {
            Ok(k) => {
                events.push(k);
            },
            Err(e) => {
                proof {
                    assert(key_events_upto(views, i + 1).is_err());
                    lemma_key_events_err(views, i + 1, views.len() as int);
                }
                return Err(e);
            },
        }
        i += 1;
    }
    Ok(events)
}

} // verus!
