use vstd::prelude::*;
use vstd::string::StringExecFns;
use crate::app::Dispatch;
use crate::key_event_parser::{KeyEvent, key_event_of, parse_key_event};
use crate::text::{
    byte_len, byte_offset, char_is_whitespace, char_utf8_width, is_whitespace,
    lemma_byte_offset_monotonic, str_chars, string_from_chars, trailing_blank,
};

verus! {

/// A line without the carriage return at its end, if it has one.
pub open spec fn without_return(line: Seq<char>) -> Seq<char> {
    if line.len() > 0 && line.last() == '\r' {
        line.drop_last()
    } else {
        line
    }
}

/// The lines that the first `n` characters of a text end, each without its line feed and
/// without a carriage return before it, and the characters after the last line feed.
pub open spec fn split_upto(s: Seq<char>, n: int) -> (Seq<Seq<char>>, Seq<char>)
    decreases n,
{
    if n <= 0 {
        (Seq::empty(), Seq::empty())
    } else {
        let (done, open) = split_upto(s, n - 1);
        if s[n - 1] == '\n' {
            (done.push(without_return(open)), Seq::empty())
        } else {
            (done, open.push(s[n - 1]))
        }
    }
}

/// The lines of a text. A line feed ends a line, with the carriage return before it; what
/// follows the last line feed is a line if it is not empty.
pub open spec fn text_lines(s: Seq<char>) -> Seq<Seq<char>> {
    let (done, open) = split_upto(s, s.len() as int);
    if open.len() > 0 {
        done.push(open)
    } else {
        done
    }
}

/// The number of spaces at the start of a line, counted on from `k`.
pub open spec fn spaces_from(line: Seq<char>, k: int) -> int
    decreases line.len() - k,
{
    if 0 <= k < line.len() && line[k] == ' ' {
        spaces_from(line, k + 1)
    } else {
        k
    }
}

/// Whether a line holds nothing but white space.
pub open spec fn is_blank(line: Seq<char>) -> bool {
    forall|i: int| 0 <= i < line.len() ==> is_whitespace(#[trigger] line[i])
}

/// The least number of spaces at the start of a line among the first `n` lines that are not
/// blank; `None` where all of them are blank.
pub open spec fn least_indent(lines: Seq<Seq<char>>, n: int) -> Option<int>
    decreases n,
{
    if n <= 0 {
        None
    } else {
        let rest = least_indent(lines, n - 1);
        if is_blank(lines[n - 1]) {
            rest
        } else {
            let own = spaces_from(lines[n - 1], 0);
            match rest {
                Some(m) => if own < m {
                    Some(own)
                } else {
                    Some(m)
                },
                None => Some(own),
            }
        }
    }
}

/// The number of characters at the start of a line that lie within its first `m` bytes,
/// counted on from `k`.
pub open spec fn chars_within(line: Seq<char>, m: int, k: int) -> int
    decreases line.len() - k,
{
    if 0 <= k < line.len() && byte_offset(line, k + 1) <= m {
        chars_within(line, m, k + 1)
    } else {
        k
    }
}

/// A line without its first `m` bytes; the line itself where it is shorter.
pub open spec fn cut(line: Seq<char>, m: int) -> Seq<char> {
    if byte_len(line) >= m {
        line.skip(chars_within(line, m, 0))
    } else {
        line
    }
}

/// The first `n` lines, each without its first `m` bytes, with a line feed between one and the
/// next.
pub open spec fn joined(lines: Seq<Seq<char>>, m: int, n: int) -> Seq<char>
    decreases n,
{
    if n <= 0 {
        Seq::empty()
    } else if n == 1 {
        cut(lines[0], m)
    } else {
        joined(lines, m, n - 1) + seq!['\n'] + cut(lines[n - 1], m)
    }
}

/// A text without the indentation that all its lines share: the least number of spaces at the
/// start of a line that is not blank is taken from every line.
pub open spec fn dedented(s: Seq<char>) -> Seq<char> {
    let lines = text_lines(s);
    let m = match least_indent(lines, lines.len() as int) {
        Some(m) => m,
        None => 0,
    };
    joined(lines, m, lines.len() as int)
}

/// The views of the lines of a list.
pub open spec fn lines_view(lines: Seq<Vec<char>>) -> Seq<Seq<char>> {
    Seq::new(lines.len(), |i: int| lines[i]@)
}

/// The lines of a text.
pub fn lines_of(s: &Vec<char>) -> (lines: Vec<Vec<char>>)
    ensures
        lines_view(lines@) == text_lines(s@),
{
    let mut lines: Vec<Vec<char>> = Vec::new();
    let mut open: Vec<char> = Vec::new();
    let mut i: usize = 0;
    while i < s.len()
        invariant
            i <= s.len(),
            (lines_view(lines@), open@) == split_upto(s@, i as int),
        decreases s.len() - i,
    {
        let ghost done = lines_view(lines@);
        if s[i] == '\n' {
            let n: usize = open.len();
            if n > 0 && open[n - 1] == '\r' {
                open.pop();
            }
            assert(open@ =~= without_return(split_upto(s@, i as int).1));
            lines.push(open);
            assert(lines_view(lines@) =~= done.push(open@));
            open = Vec::new();
        } else {
            open.push(s[i]);
        }
        i += 1;
    }
    if open.len() > 0 {
        let ghost done = lines_view(lines@);
        lines.push(open);
        assert(lines_view(lines@) =~= done.push(open@));
    }
    lines
}

/// The number of spaces at the start of a line.
fn indent_of(line: &Vec<char>) -> (r: usize)
    ensures
        r == spaces_from(line@, 0),
        r <= line@.len(),
{
    let mut k: usize = 0;
    while k < line.len() && line[k] == ' '
        invariant
            k <= line.len(),
            spaces_from(line@, 0) == spaces_from(line@, k as int),
        decreases line.len() - k,
    {
        k += 1;
    }
    k
}

/// Whether a line holds nothing but white space.
fn blank(line: &Vec<char>) -> (b: bool)
    ensures
        b == is_blank(line@),
{
    let mut k: usize = 0;
    while k < line.len()
        invariant
            k <= line.len(),
            forall|i: int| 0 <= i < k ==> is_whitespace(#[trigger] line@[i]),
        decreases line.len() - k,
    {
        if !char_is_whitespace(line[k]) {
            return false;
        }
        k += 1;
    }
    true
}

/// Appends a line without its first `m` bytes.
fn push_cut(out: &mut Vec<char>, line: &Vec<char>, m: usize)
    ensures
        final(out)@ == old(out)@ + cut(line@, m as int),
{
    let mut k: usize = 0;
    let mut bytes: usize = 0;
    while k < line.len() && char_utf8_width(line[k]) <= m - bytes
        invariant
            k <= line.len(),
            bytes == byte_offset(line@, k as int),
            bytes <= m,
            chars_within(line@, m as int, 0) == chars_within(line@, m as int, k as int),
        decreases line.len() - k,
    {
        bytes += char_utf8_width(line[k]);
        k += 1;
    }
    proof {
        if k < line.len() {
            lemma_byte_offset_monotonic(line@, k + 1, line@.len() as int);
        }
    }
    let from: usize = if k == line.len() && bytes < m {
        0
    } else {
        k
    };
    let ghost before = out@;
    let mut i: usize = from;
    while i < line.len()
        invariant
            from <= i <= line.len(),
            out@ == before + line@.subrange(from as int, i as int),
        decreases line.len() - i,
    {
        out.push(line[i]);
        assert(out@ =~= before + line@.subrange(from as int, i + 1));
        i += 1;
    }
    assert(line@.subrange(from as int, line@.len() as int) =~= line@.skip(from as int));
    assert(line@.skip(0) =~= line@);
}

/// Takes from every line of a text the indentation that all its lines share. The lines come
/// back with a line feed between one and the next, and none after the last.
pub fn dedent(s: &str) -> (r: String)
    ensures
        r@ == dedented(s@),
{
    let chars: Vec<char> = str_chars(s);
    let lines: Vec<Vec<char>> = lines_of(&chars);
    let ghost views = lines_view(lines@);
    let mut least: Option<usize> = None;
    let mut i: usize = 0;
    while i < lines.len()
        invariant
            i <= lines.len(),
            views == lines_view(lines@),
            match least {
                Some(m) => least_indent(views, i as int) == Some(m as int),
                None => least_indent(views, i as int).is_none(),
            },
        decreases lines.len() - i,
    {
        assert(views[i as int] == lines@[i as int]@);
        if !blank(&lines[i]) {
            let own: usize = indent_of(&lines[i]);
            least = match least {
                Some(m) => if own < m {
                    Some(own)
                } else {
                    Some(m)
                },
                None => Some(own),
            };
        }
        i += 1;
    }
    let m: usize = match least {
        Some(m) => m,
        None => 0,
    };
    let mut out: Vec<char> = Vec::new();
    let mut j: usize = 0;
    while j < lines.len()
        invariant
            j <= lines.len(),
            views == lines_view(lines@),
            out@ == joined(views, m as int, j as int),
        decreases lines.len() - j,
    {
        assert(views[j as int] == lines@[j as int]@);
        if j > 0 {
            out.push('\n');
        }
        push_cut(&mut out, &lines[j], m);
        assert(out@ =~= joined(views, m as int, j + 1));
        j += 1;
    }
    string_from_chars(&out)
}

/// The number of columns that a text takes on a terminal.
pub uninterp spec fn display_width(s: Seq<char>) -> nat;

/// `unicode_width::UnicodeWidthStr::width`: the number of columns that a text takes on a
/// terminal, which depends on its characters alone.
#[verifier::external_body]
pub(crate) fn str_width(s: &str) -> (w: usize)
    ensures
        w == display_width(s@),
{
    unicode_width::UnicodeWidthStr::width(s)
}

/// A key with what it does, as the legend shows it.
#[derive(Clone, Debug, PartialEq, Eq)]
pub struct Keymap {
    pub key: String,
    pub description: String,
    pub event: KeyEvent,
    pub dispatch: Dispatch,
}

impl Keymap {
    /// The keymap for the key that `key` names.
    pub fn new(key: &str, description: String, dispatch: Dispatch) -> (k: Keymap)
        requires
            key_event_of(key@).is_ok(),
        ensures
            k.key@ == key@,
            k.description == description,
            k.dispatch == dispatch,
            Ok::<KeyEvent, crate::key_event_parser::ParseErrorView>(k.event) == key_event_of(key@),
    {
        let event: KeyEvent = parse_key_event(key).unwrap();
        Keymap { key: String::from_str(key), description, event, dispatch }
    }

    /// The keymap for a key event under the name `key`; for a name that names no key see
    /// `new`.
    pub fn named(key: &str, description: String, dispatch: Dispatch) -> (k: Option<Keymap>)
        ensures
            match key_event_of(key@) {
                Ok(event) => k.is_some() && k.unwrap().key@ == key@ && k.unwrap().description
                    == description && k.unwrap().dispatch == dispatch && k.unwrap().event == event,
                Err(_) => k.is_none(),
            },
    {
        match parse_key_event(key) {
            Ok(event) => Some(Keymap { key: String::from_str(key), description, event, dispatch }),
            Err(_) => None,
        }
    }

    /// What the key asks for.
    pub fn dispatch(&self) -> (d: &Dispatch)
        ensures
            *d == self.dispatch,
    {
        &self.dispatch
    }
}

/// The keymaps of one list, in the order in which they are shown.
#[derive(Clone, Debug, PartialEq, Eq)]
pub struct Keymaps(pub Vec<Keymap>);

/// The key and the description of each keymap.
pub open spec fn labels(keymaps: Seq<Keymap>) -> Seq<(Seq<char>, Seq<char>)> {
    Seq::new(keymaps.len(), |i: int| (keymaps[i].key@, keymaps[i].description@))
}

/// What stands between a key and its description.
pub open spec fn arrow() -> Seq<char> {
    " → "@
}

/// `n` spaces; none where `n` is not positive.
pub open spec fn spaces(n: int) -> Seq<char> {
    Seq::new(
        if n > 0 {
            n as nat
        } else {
            0
        },
        |i: int| ' ',
    )
}

/// A text with spaces before it up to `w` characters.
pub open spec fn pad_left(s: Seq<char>, w: int) -> Seq<char> {
    spaces(w - s.len()) + s
}

/// A text with spaces behind it up to `w` characters.
pub open spec fn pad_right(s: Seq<char>, w: int) -> Seq<char> {
    s + spaces(w - s.len())
}

/// A number as a machine number, the largest where it is too large.
pub open spec fn clip(n: int) -> usize {
    if n <= usize::MAX {
        n as usize
    } else {
        usize::MAX
    }
}

/// The greatest length in bytes among the first `n` keys, or descriptions where `second` is
/// set.
pub open spec fn widest(labels: Seq<(Seq<char>, Seq<char>)>, second: bool, n: int) -> usize
    decreases n,
{
    if n <= 0 {
        0
    } else {
        let rest = widest(labels, second, n - 1);
        let own = clip(
            byte_len(
                if second {
                    labels[n - 1].1
                } else {
                    labels[n - 1].0
                },
            ) as int,
        );
        if own > rest {
            own
        } else {
            rest
        }
    }
}

/// A keymap as one cell of the table: the key, with spaces before it up to the width of the
/// keys, the arrow, the description, and spaces up to the width of a column.
pub open spec fn cell(label: (Seq<char>, Seq<char>), key_width: usize, column_width: usize) -> Seq<
    char,
> {
    pad_right(pad_left(label.0, key_width as int) + arrow() + label.1, column_width as int)
}

/// The first `i` cells laid out in rows of `columns` cells, with a line feed between one row
/// and the next.
pub open spec fn table_upto(
    labels: Seq<(Seq<char>, Seq<char>)>,
    key_width: usize,
    column_width: usize,
    columns: usize,
    i: int,
) -> Seq<char>
    decreases i,
{
    if i <= 0 || columns == 0 {
        Seq::empty()
    } else {
        let rest = table_upto(labels, key_width, column_width, columns, i - 1);
        let broken = if i - 1 > 0 && (i - 1) % (columns as int) == 0 {
            rest.push('\n')
        } else {
            rest
        };
        broken + cell(labels[i - 1], key_width, column_width)
    }
}

/// A text without the white space at its end.
pub open spec fn trim_end(s: Seq<char>) -> Seq<char> {
    s.subrange(0, s.len() - trailing_blank(s))
}

/// The first `n` lines, each after `indent` spaces and without white space at its end, with
/// a line feed between one and the next.
pub open spec fn indented_upto(lines: Seq<Seq<char>>, indent: usize, n: int) -> Seq<char>
    decreases n,
{
    if n <= 0 {
        Seq::empty()
    } else {
        let rest = indented_upto(lines, indent, n - 1);
        let broken = if n - 1 > 0 {
            rest.push('\n')
        } else {
            rest
        };
        broken + spaces(indent as int) + trim_end(lines[n - 1])
    }
}

/// The width of a column of the table: the widest key, the arrow, the widest description, and
/// twice the width of the arrow between one column and the next.
pub open spec fn column_width(labels: Seq<(Seq<char>, Seq<char>)>) -> usize {
    let gap = display_width(arrow());
    clip(
        widest(labels, false, labels.len() as int) + gap + widest(labels, true, labels.len() as int)
            + 2 * gap,
    )
}

/// The number of columns that fit into `width` after `indent`: one at least.
pub open spec fn column_count(labels: Seq<(Seq<char>, Seq<char>)>, indent: usize, width: usize) -> usize {
    let room = if width >= indent {
        width - indent
    } else {
        0
    };
    let column = column_width(labels);
    if column == 0 || room / (column as int) < 1 {
        1
    } else {
        (room / (column as int)) as usize
    }
}

/// The legend of a list of keymaps for a window of `width` columns: a table of as many
/// columns as fit, the keys aligned to the right and the descriptions to the left, without
/// the indentation that all rows share and without white space at the end of a row, each
/// row after `indent` spaces.
pub open spec fn keymaps_text(labels: Seq<(Seq<char>, Seq<char>)>, indent: usize, width: usize) -> Seq<
    char,
> {
    let table = table_upto(
        labels,
        widest(labels, false, labels.len() as int),
        column_width(labels),
        column_count(labels, indent, width),
        labels.len() as int,
    );
    let lines = text_lines(dedented(table));
    indented_upto(lines, indent, lines.len() as int)
}

/// The length of a text in bytes, the largest number where it is too long.
fn clipped_byte_len(chars: &Vec<char>) -> (n: usize)
    ensures
        n == clip(byte_len(chars@) as int),
{
    let mut n: usize = 0;
    let mut i: usize = 0;
    while i < chars.len()
        invariant
            i <= chars.len(),
            n == clip(byte_offset(chars@, i as int) as int),
        decreases chars.len() - i,
    {
        let w: usize = char_utf8_width(chars[i]);
        n = if n <= usize::MAX - w {
            n + w
        } else {
            usize::MAX
        };
        i += 1;
    }
    n
}

/// Appends `n` spaces.
fn push_spaces(out: &mut Vec<char>, n: usize)
    ensures
        final(out)@ == old(out)@ + spaces(n as int),
{
    let ghost before = out@;
    let mut i: usize = 0;
    while i < n
        invariant
            i <= n,
            out@ == before + spaces(i as int),
        decreases n - i,
    {
        out.push(' ');
        assert(out@ =~= before + spaces(i + 1));
        i += 1;
    }
    assert(spaces(0) =~= Seq::<char>::empty());
}

/// Appends a text.
fn push_all(out: &mut Vec<char>, text: &Vec<char>)
    ensures
        final(out)@ == old(out)@ + text@,
{
    let ghost before = out@;
    let mut i: usize = 0;
    while i < text.len()
        invariant
            i <= text.len(),
            out@ == before + text@.take(i as int),
        decreases text.len() - i,
    {
        out.push(text[i]);
        assert(out@ =~= before + text@.take(i + 1));
        i += 1;
    }
    assert(text@.take(text@.len() as int) =~= text@);
}

/// Appends a keymap as one cell of the table.
fn push_cell(out: &mut Vec<char>, key: &Vec<char>, description: &Vec<char>, key_width: usize, column: usize)
    ensures
        final(out)@ == old(out)@ + cell((key@, description@), key_width, column),
{
    let ghost before = out@;
    let mut made: Vec<char> = Vec::new();
    if key.len() < key_width {
        push_spaces(&mut made, key_width - key.len());
    }
    assert(made@ =~= spaces(key_width - key@.len()));
    push_all(&mut made, key);
    push_all(&mut made, &str_chars(" → "));
    push_all(&mut made, description);
    assert(made@ =~= pad_left(key@, key_width as int) + arrow() + description@);
    let ghost inner = made@;
    if made.len() < column {
        let room: usize = column - made.len();
        push_spaces(&mut made, room);
    }
    assert(made@ =~= pad_right(inner, column as int));
    push_all(out, &made);
}

impl Keymaps {
    /// The list of these keymaps.
    pub fn new(keymaps: Vec<Keymap>) -> (r: Keymaps)
        ensures
            r.0 == keymaps,
    {
        Keymaps(keymaps)
    }

    /// The first keymap for a key event.
    pub fn get(&self, event: &KeyEvent) -> (r: Option<&Keymap>)
        ensures
            match r {
                Some(k) => exists|i: int|
                    0 <= i < self.0@.len() && self.0@[i] == *k && k.event == *event && forall|j: int|
                        0 <= j < i ==> (#[trigger] self.0@[j]).event != *event,
                None => forall|j: int| 0 <= j < self.0@.len() ==> (#[trigger] self.0@[j]).event != *event,
            },
    {
        let mut i: usize = 0;
        while i < self.0.len()
            invariant
                i <= self.0.len(),
                forall|j: int| 0 <= j < i ==> (#[trigger] self.0@[j]).event != *event,
            decreases self.0.len() - i,
        {
            if self.0[i].event == *event {
                return Some(&self.0[i]);
            }
            i += 1;
        }
        None
    }

    /// The legend of the keymaps for a window of `width` columns, each row after `indent`
    /// spaces.
    pub fn display(&self, indent: usize, width: usize) -> (r: String)
        ensures
            r@ == keymaps_text(labels(self.0@), indent, width),
    {
        let ghost all = labels(self.0@);
        let mut keys: Vec<Vec<char>> = Vec::new();
        let mut descriptions: Vec<Vec<char>> = Vec::new();
        let mut key_width: usize = 0;
        let mut description_width: usize = 0;
        let mut i: usize = 0;
        while i < self.0.len()
            invariant
                i <= self.0.len(),
                all == labels(self.0@),
                keys@.len() == i,
                descriptions@.len() == i,
                forall|k: int| 0 <= k < i ==> (#[trigger] keys@[k])@ == all[k].0,
                forall|k: int| 0 <= k < i ==> (#[trigger] descriptions@[k])@ == all[k].1,
                key_width == widest(all, false, i as int),
                description_width == widest(all, true, i as int),
            decreases self.0.len() - i,
        {
            let key: Vec<char> = str_chars(self.0[i].key.as_str());
            let description: Vec<char> = str_chars(self.0[i].description.as_str());
            let own: usize = clipped_byte_len(&key);
            if own > key_width {
                key_width = own;
            }
            let other: usize = clipped_byte_len(&description);
            if other > description_width {
                description_width = other;
            }
            keys.push(key);
            descriptions.push(description);
            i += 1;
        }
        let gap: usize = str_width(" → ");
        let column: usize = add_clipped(
            add_clipped(add_clipped(key_width, gap), description_width),
            add_clipped(gap, gap),
        );
        assert(column == column_width(all));
        let room: usize = if width >= indent {
            width - indent
        } else {
            0
        };
        let columns: usize = if column == 0 || room / column < 1 {
            1
        } else {
            room / column
        };
        let mut table: Vec<char> = Vec::new();
        let mut j: usize = 0;
        while j < keys.len()
            invariant
                j <= keys.len(),
                keys@.len() == all.len(),
                descriptions@.len() == all.len(),
                columns >= 1,
                forall|k: int| 0 <= k < keys@.len() ==> (#[trigger] keys@[k])@ == all[k].0,
                forall|k: int| 0 <= k < keys@.len() ==> (#[trigger] descriptions@[k])@ == all[k].1,
                table@ == table_upto(all, key_width, column, columns, j as int),
            decreases keys.len() - j,
        {
            if j > 0 && j % columns == 0 {
                table.push('\n');
            }
            push_cell(&mut table, &keys[j], &descriptions[j], key_width, column);
            j += 1;
        }
        let dedented_table: String = dedent(string_from_chars(&table).as_str());
        let lines: Vec<Vec<char>> = lines_of(&str_chars(dedented_table.as_str()));
        let ghost shown = lines_view(lines@);
        let mut out: Vec<char> = Vec::new();
        let mut n: usize = 0;
        while n < lines.len()
            invariant
                n <= lines.len(),
                shown == lines_view(lines@),
                out@ == indented_upto(shown, indent, n as int),
            decreases lines.len() - n,
        {
            assert(shown[n as int] == lines@[n as int]@);
            if n > 0 {
                out.push('\n');
            }
            push_spaces(&mut out, indent);
            push_trimmed_end(&mut out, &lines[n]);
            n += 1;
        }
        string_from_chars(&out)
    }
}

/// The sum of two numbers, the largest number where it is too large.
fn add_clipped(a: usize, b: usize) -> (r: usize)
    ensures
        r == clip(a + b),
{
    if a <= usize::MAX - b {
        a + b
    } else {
        usize::MAX
    }
}

/// Appends a line without the white space at its end.
fn push_trimmed_end(out: &mut Vec<char>, line: &Vec<char>)
    ensures
        final(out)@ == old(out)@ + trim_end(line@),
{
    let mut end: usize = line.len();
    assert(line@.take(end as int) =~= line@);
    while end > 0 && char_is_whitespace(line[end - 1])
        invariant
            end <= line.len(),
            trailing_blank(line@) == (line@.len() - end) + trailing_blank(line@.take(end as int)),
        decreases end,
    {
        proof {
            assert(line@.take(end as int).drop_last() =~= line@.take(end - 1));
            assert(line@.take(end as int).last() == line@[end - 1]);
        }
        end -= 1;
    }
    proof {
        if end > 0 {
            assert(line@.take(end as int).last() == line@[end - 1]);
        }
        assert(trailing_blank(line@.take(end as int)) == 0);
    }
    let ghost before = out@;
    let mut i: usize = 0;
    while i < end
        invariant
            i <= end <= line.len(),
            out@ == before + line@.subrange(0, i as int),
        decreases end - i,
    {
        out.push(line[i]);
        assert(out@ =~= before + line@.subrange(0, i + 1));
        i += 1;
    }
}

/// A list of keymaps under a title.
#[derive(Clone, Debug, PartialEq, Eq)]
pub struct KeymapLegendSection {
    pub title: String,
    pub keymaps: Keymaps,
}

/// What a legend shows: one list of keymaps, or several under their titles.
#[derive(Clone, Debug, PartialEq, Eq)]
pub enum KeymapLegendBody {
    SingleSection { keymaps: Keymaps },
    MultipleSections { sections: Vec<KeymapLegendSection> },
}

/// A legend: its title, what it shows, and the component that asked for it.
#[derive(Clone, Debug, PartialEq, Eq)]
pub struct KeymapLegendConfig {
    pub title: String,
    pub body: KeymapLegendBody,
    pub owner_id: usize,
}

/// The legend of a section: its title, a colon, and below them its keymaps, two spaces in.
pub open spec fn section_text(section: KeymapLegendSection, width: usize) -> Seq<char> {
    section.title@ + ":\n"@ + keymaps_text(labels(section.keymaps.0@), 2, width)
}

/// The legends of the first `n` sections, with an empty line between one and the next.
pub open spec fn sections_text(sections: Seq<KeymapLegendSection>, width: usize, n: int) -> Seq<
    char,
>
    decreases n,
{
    if n <= 0 {
        Seq::empty()
    } else {
        let rest = sections_text(sections, width, n - 1);
        let parted = if n - 1 > 0 {
            rest + "\n\n"@
        } else {
            rest
        };
        parted + section_text(sections[n - 1], width)
    }
}

/// The legend of a body for a window of `width` columns.
pub open spec fn body_text(body: KeymapLegendBody, width: usize) -> Seq<char> {
    match body {
        KeymapLegendBody::SingleSection { keymaps } => keymaps_text(labels(keymaps.0@), 0, width),
        KeymapLegendBody::MultipleSections { sections } => sections_text(
            sections@,
            width,
            sections@.len() as int,
        ),
    }
}

/// The keymaps of the first `n` sections, in order.
pub open spec fn section_keymaps(sections: Seq<KeymapLegendSection>, n: int) -> Seq<Keymap>
    decreases n,
{
    if n <= 0 {
        Seq::empty()
    } else {
        section_keymaps(sections, n - 1) + sections[n - 1].keymaps.0@
    }
}

/// All keymaps of a body, in the order in which they are shown.
pub open spec fn body_keymaps(body: KeymapLegendBody) -> Seq<Keymap> {
    match body {
        KeymapLegendBody::SingleSection { keymaps } => keymaps.0@,
        KeymapLegendBody::MultipleSections { sections } => section_keymaps(
            sections@,
            sections@.len() as int,
        ),
    }
}

/// The keymaps behind a list of references.
pub open spec fn referred(keymaps: Seq<&Keymap>) -> Seq<Keymap> {
    Seq::new(keymaps.len(), |i: int| *keymaps[i])
}

/// Appends references to the keymaps of a list.
fn push_keymaps<'a>(out: &mut Vec<&'a Keymap>, keymaps: &'a Keymaps)
    ensures
        referred(final(out)@) == referred(old(out)@) + keymaps.0@,
{
    let ghost before = out@;
    let mut i: usize = 0;
    while i < keymaps.0.len()
        invariant
            i <= keymaps.0.len(),
            out@.len() == before.len() + i,
            forall|k: int| 0 <= k < before.len() ==> out@[k] == before[k],
            forall|k: int| 0 <= k < i ==> *out@[before.len() + k] == keymaps.0@[k],
        decreases keymaps.0.len() - i,
    {
        out.push(&keymaps.0[i]);
        i += 1;
    }
    assert(referred(out@) =~= referred(before) + keymaps.0@);
}

impl KeymapLegendSection {
    /// The legend of the section for a window of `width` columns.
    pub fn display(&self, width: usize) -> (r: String)
        ensures
            r@ == section_text(*self, width),
    {
        let mut r: String = self.title.clone();
        r.append(":\n");
        r.append(self.keymaps.display(2, width).as_str());
        r
    }
}

impl KeymapLegendBody {
    /// The legend of the body for a window of `width` columns.
    pub fn display(&self, width: usize) -> (r: String)
        ensures
            r@ == body_text(*self, width),
    {
        match self {
            KeymapLegendBody::SingleSection { keymaps } => keymaps.display(0, width),
            KeymapLegendBody::MultipleSections { sections } => {
                let mut r: String = String::new();
                let mut i: usize = 0;
                while i < sections.len()
                    invariant
                        i <= sections.len(),
                        r@ == sections_text(sections@, width, i as int),
                    decreases sections.len() - i,
                {
                    if i > 0 {
                        r.append("\n\n");
                    }
                    r.append(sections[i].display(width).as_str());
                    i += 1;
                }
                r
            },
        }
    }

    /// All keymaps of the body, in the order in which they are shown.
    pub fn keymaps(&self) -> (r: Vec<&Keymap>)
        ensures
            referred(r@) == body_keymaps(*self),
    {
        let mut r: Vec<&Keymap> = Vec::new();
        assert(referred(r@) =~= Seq::<Keymap>::empty());
        match self {
            KeymapLegendBody::SingleSection { keymaps } => {
                push_keymaps(&mut r, keymaps);
            },
            KeymapLegendBody::MultipleSections { sections } => {
                let mut i: usize = 0;
                while i < sections.len()
                    invariant
                        i <= sections.len(),
                        referred(r@) == section_keymaps(sections@, i as int),
                    decreases sections.len() - i,
                {
                    push_keymaps(&mut r, &sections[i].keymaps);
                    i += 1;
                }
            },
        }
        r
    }
}

impl KeymapLegendConfig {
    /// The legend for a window of `width` columns.
    pub fn display(&self, width: usize) -> (r: String)
        ensures
            r@ == body_text(self.body, width),
    {
        self.body.display(width)
    }

    /// All keymaps of the legend, in the order in which they are shown.
    pub fn keymaps(&self) -> (r: Vec<&Keymap>)
        ensures
            referred(r@) == body_keymaps(self.body),
    {
        self.body.keymaps()
    }
}

} // verus!
