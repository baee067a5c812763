use vstd::prelude::*;
use crate::buffer::{Buffer, bytes_of_char_range, chars_of_bytes};
use crate::char_index::{ByteRange, CharIndex, CharIndexRange};
use crate::components::editor::{Editor, EditorView, Jump, JumpView, jumps_view};
use crate::error::EditorError;
use crate::selection::{Selection, SelectionView};
use crate::selection_mode::{candidates, get_candidates};
use crate::text::{byte_len, char_of_byte, newlines_before, str_chars};

verus! {

/// The letters and digits that label the places to jump to: the small letters, the capital
/// letters, the digits.
pub open spec fn jump_alphabet() -> Seq<char> {
    "abcdefghijklmnopqrstuvwxyzABCDEFGHIJKLMNOPQRSTUVWXYZ0123456789"@
}

/// The letters and digits that label the places to jump to.
pub fn jump_characters() -> (r: Vec<char>)
    ensures
        r@ == jump_alphabet(),
{
    str_chars("abcdefghijklmnopqrstuvwxyzABCDEFGHIJKLMNOPQRSTUVWXYZ0123456789")
}

/// A capital letter of the Latin alphabet as the small letter; any other character as it is.
pub open spec fn ascii_lower(c: char) -> char {
    if c == 'A' { 'a' } else if c == 'B' { 'b' } else if c == 'C' { 'c' } else if c == 'D' { 'd' }
    else if c == 'E' { 'e' } else if c == 'F' { 'f' } else if c == 'G' { 'g' } else if c == 'H' { 'h' }
    else if c == 'I' { 'i' } else if c == 'J' { 'j' } else if c == 'K' { 'k' } else if c == 'L' { 'l' }
    else if c == 'M' { 'm' } else if c == 'N' { 'n' } else if c == 'O' { 'o' } else if c == 'P' { 'p' }
    else if c == 'Q' { 'q' } else if c == 'R' { 'r' } else if c == 'S' { 's' } else if c == 'T' { 't' }
    else if c == 'U' { 'u' } else if c == 'V' { 'v' } else if c == 'W' { 'w' } else if c == 'X' { 'x' }
    else if c == 'Y' { 'y' } else if c == 'Z' { 'z' } else { c }
}

/// A capital letter of the Latin alphabet as the small letter; any other character as it is.
pub fn to_ascii_lower(c: char) -> (r: char)
    ensures
        r == ascii_lower(c),
{
    if c == 'A' { 'a' } else if c == 'B' { 'b' } else if c == 'C' { 'c' } else if c == 'D' { 'd' }
    else if c == 'E' { 'e' } else if c == 'F' { 'f' } else if c == 'G' { 'g' } else if c == 'H' { 'h' }
    else if c == 'I' { 'i' } else if c == 'J' { 'j' } else if c == 'K' { 'k' } else if c == 'L' { 'l' }
    else if c == 'M' { 'm' } else if c == 'N' { 'n' } else if c == 'O' { 'o' } else if c == 'P' { 'p' }
    else if c == 'Q' { 'q' } else if c == 'R' { 'r' } else if c == 'S' { 's' } else if c == 'T' { 't' }
    else if c == 'U' { 'u' } else if c == 'V' { 'v' } else if c == 'W' { 'w' } else if c == 'X' { 'x' }
    else if c == 'Y' { 'y' } else if c == 'Z' { 'z' } else { c }
}

/// Whether all characters of a list are the same.
pub open spec fn all_same(chars: Seq<char>) -> bool {
    forall|i: int| 0 <= i < chars.len() ==> #[trigger] chars[i] == chars[0]
}

/// The first labels: for each candidate its first character; the letters of the alphabet in
/// turn where that is the same character for all.
pub open spec fn first_labels(firsts: Seq<char>, alphabet: Seq<char>) -> Seq<char> {
    if firsts.len() > 0 && alphabet.len() > 0 && all_same(firsts) {
        Seq::new(firsts.len(), |i: int| alphabet[i % alphabet.len() as int])
    } else {
        firsts
    }
}

/// The first labels for candidates with these first characters.
pub fn label_candidates(firsts: &Vec<char>, alphabet: &Vec<char>) -> (labels: Vec<char>)
    ensures
        labels@ == first_labels(firsts@, alphabet@),
{
    let mut same: bool = true;
    let mut i: usize = 0;
    while i < firsts.len()
        invariant
            i <= firsts.len(),
            same == (forall|k: int| 0 <= k < i ==> #[trigger] firsts@[k] == firsts@[0]),
        decreases firsts.len() - i,
    {
        if firsts[i] != firsts[0] {
            same = false;
        }
        i += 1;
    }
    let mut labels: Vec<char> = Vec::new();
    if firsts.len() > 0 && alphabet.len() > 0 && same {
        let mut j: usize = 0;
        while j < firsts.len()
            invariant
                j <= firsts.len(),
                alphabet@.len() > 0,
                labels@.len() == j,
                forall|k: int| 0 <= k < j ==> labels@[k] == alphabet@[k % alphabet@.len() as int],
            decreases firsts.len() - j,
        {
            labels.push(alphabet[j % alphabet.len()]);
            j += 1;
        }
        assert(labels@ =~= first_labels(firsts@, alphabet@));
    } else {
        let mut j: usize = 0;
        while j < firsts.len()
            invariant
                j <= firsts.len(),
                labels@ == firsts@.take(j as int),
            decreases firsts.len() - j,
        {
            labels.push(firsts[j]);
            assert(firsts@.take(j + 1) =~= firsts@.take(j as int).push(firsts@[j as int]));
            j += 1;
        }
        assert(firsts@.take(firsts@.len() as int) =~= firsts@);
    }
    labels
}

/// The jumps among the first `n` that carry the label `key`.
pub open spec fn matching_upto(jumps: Seq<JumpView>, key: char, n: int) -> Seq<JumpView>
    decreases n,
{
    if n <= 0 {
        Seq::empty()
    } else if jumps[n - 1].character == key {
        matching_upto(jumps, key, n - 1).push(jumps[n - 1])
    } else {
        matching_upto(jumps, key, n - 1)
    }
}

/// The jump to a selection under a label.
pub open spec fn labelled(character: char, selection: SelectionView) -> JumpView {
    JumpView { character, selection }
}

/// Jumps with the letters of the alphabet in turn as their labels; none where the alphabet
/// has no letter.
pub open spec fn relabelled(jumps: Seq<JumpView>, alphabet: Seq<char>) -> Seq<JumpView> {
    if alphabet.len() == 0 {
        Seq::empty()
    } else {
        Seq::new(
            jumps.len(),
            |i: int| labelled(alphabet[i % alphabet.len() as int], jumps[i].selection),
        )
    }
}

/// What typing a label does to the jumps: with one jump under the label, that is the place to
/// go (its range is handed back); with several, they get fresh labels; else nothing is left.
pub open spec fn narrowed(jumps: Seq<JumpView>, key: char, alphabet: Seq<char>) -> (
    Option<Seq<JumpView>>,
    Option<CharIndexRange>,
) {
    let hits = matching_upto(jumps, key, jumps.len() as int);
    if hits.len() == 0 {
        (None, None)
    } else if hits.len() == 1 {
        (None, Some(hits[0].selection.extended_range()))
    } else {
        (Some(relabelled(hits, alphabet)), None)
    }
}

/// What typing a label does to the jumps.
pub fn narrow_jumps(jumps: &Vec<Jump>, key: char, alphabet: &Vec<char>) -> (r: (
    Option<Vec<Jump>>,
    Option<CharIndexRange>,
))
    ensures
        r.1 == narrowed(jumps_view(jumps@), key, alphabet@).1,
        match r.0 {
            Some(left) => narrowed(jumps_view(jumps@), key, alphabet@).0 == Some(jumps_view(left@)),
            None => narrowed(jumps_view(jumps@), key, alphabet@).0.is_none(),
        },
{
    let ghost views = jumps_view(jumps@);
    let mut hits: Vec<Jump> = Vec::new();
    let mut i: usize = 0;
    while i < jumps.len()
        invariant
            i <= jumps.len(),
            views == jumps_view(jumps@),
            jumps_view(hits@) == matching_upto(views, key, i as int),
        decreases jumps.len() - i,
    {
        if jumps[i].character == key {
            let ghost before = jumps_view(hits@);
            let copy = Jump::new(jumps[i].character, jumps[i].selection.duplicate());
            hits.push(copy);
            assert(jumps_view(hits@) =~= before.push(copy@));
        }
        i += 1;
    }
    if hits.len() == 0 {
        (None, None)
    } else if hits.len() == 1 {
        assert(jumps_view(hits@)[0] == hits@[0]@);
        (None, Some(hits[0].selection.extended_range()))
    } else {
        let mut left: Vec<Jump> = Vec::new();
        if alphabet.len() > 0 {
            let mut j: usize = 0;
            while j < hits.len()
                invariant
                    j <= hits.len(),
                    alphabet@.len() > 0,
                    left@.len() == j,
                    forall|k: int|
                        0 <= k < j ==> left@[k]@ == (JumpView {
                            character: alphabet@[k % alphabet@.len() as int],
                            ..hits@[k]@
                        }),
                decreases hits.len() - j,
            {
                left.push(Jump::new(alphabet[j % alphabet.len()], hits[j].selection.duplicate()));
                j += 1;
            }
        }
        proof {
            let wanted = relabelled(jumps_view(hits@), alphabet@);
            assert(jumps_view(left@).len() == wanted.len());
            assert forall|k: int| 0 <= k < wanted.len() implies jumps_view(left@)[k] == wanted[k] by {
                assert(jumps_view(hits@)[k] == hits@[k]@);
                assert(jumps_view(left@)[k] == left@[k]@);
            }
            assert(jumps_view(left@) =~= wanted);
        }
        (Some(left), None)
    }
}

/// The line on which byte `b` of the text lies.
pub open spec fn line_of_byte(text: Seq<char>, b: usize) -> int {
    newlines_before(text, char_of_byte(text, b as int)) as int
}

/// The candidates among the first `n` elements: those that start on a line from `first` up to
/// `last`, each with its first character, a capital letter taken as the small one, and its
/// range of characters.
pub open spec fn candidates_upto(
    text: Seq<char>,
    ranges: Seq<ByteRange>,
    first: usize,
    last: usize,
    n: int,
) -> Seq<(char, CharIndexRange)>
    decreases n,
{
    if n <= 0 {
        Seq::empty()
    } else {
        let rest = candidates_upto(text, ranges, first, last, n - 1);
        let r = ranges[n - 1];
        let chars = chars_of_bytes(text, r);
        if r.start <= byte_len(text) && r.end <= byte_len(text) && chars.start.0 < chars.end.0
            && first <= line_of_byte(text, r.start) < last {
            rest.push((ascii_lower(text[chars.start.0 as int]), chars))
        } else {
            rest
        }
    }
}

/// The jumps for candidates: each a copy of the selection `from` over the range of a
/// candidate, under its label.
pub open spec fn jumps_for(
    from: SelectionView,
    candidates: Seq<(char, CharIndexRange)>,
    labels: Seq<char>,
) -> Seq<JumpView> {
    Seq::new(
        candidates.len(),
        |i: int| labelled(labels[i], SelectionView { range: candidates[i].1, ..from }),
    )
}

/// The first characters of candidates.
pub open spec fn firsts_of(candidates: Seq<(char, CharIndexRange)>) -> Seq<char> {
    Seq::new(candidates.len(), |i: int| candidates[i].0)
}

/// The lines that show: from the scroll offset on, as many as the window is high, up to the
/// last line.
pub open spec fn line_range(v: EditorView) -> (usize, usize) {
    let end = v.scroll_offset + v.rectangle.height;
    (
        v.scroll_offset as usize,
        if end <= crate::text::line_count(v.buffer.text) {
            end as usize
        } else {
            crate::text::line_count(v.buffer.text) as usize
        },
    )
}

/// The jumps that an editor shows: one for each element of the mode that starts on a line that
/// shows, labelled as `first_labels` says. Refused where the primary selection does not lie
/// within the text or the search of the mode is no regular expression.
pub open spec fn shown_jumps(v: EditorView) -> Result<Seq<JumpView>, EditorError> {
    let range = v.selection_set.primary.range;
    if range.start.0 > v.buffer.text.len() || range.end.0 > v.buffer.text.len() {
        Err(EditorError::OutOfBounds)
    } else {
        match candidates(
            v.buffer,
            v.selection_set.mode,
            bytes_of_char_range(v.buffer.text, range),
            v.selection_set.filters,
        ) {
            Err(e) => Err(e),
            Ok(ranges) => {
                let candidates = candidates_upto(
                    v.buffer.text,
                    ranges,
                    line_range(v).0,
                    line_range(v).1,
                    ranges.len() as int,
                );
                Ok(
                    jumps_for(
                        v.selection_set.primary,
                        candidates,
                        first_labels(firsts_of(candidates), jump_alphabet()),
                    ),
                )
            },
        }
    }
}

impl Editor {
    /// The lines that show.
    pub fn line_range(&self) -> (r: (usize, usize))
        ensures
            r == line_range(self@),
    {
        let start: usize = self.scroll_offset as usize;
        let height: usize = self.rectangle.height as usize;
        let lines: usize = self.buffer.len_lines();
        let end: usize = if start + height <= lines {
            start + height
        } else {
            lines
        };
        (start, end)
    }

    /// Labels the elements of the mode that show, for the user to jump to one by typing its
    /// label.
    pub fn show_jumps(&mut self) -> (r: Result<(), EditorError>)
        requires
            old(self).wf(),
        ensures
            final(self).wf(),
            match shown_jumps(old(self)@) {
                Ok(jumps) => r.is_ok() && final(self)@ == (EditorView {
                    jumps: Some(jumps),
                    ..old(self)@
                }),
                Err(e) => r.is_err() && r.unwrap_err() == e && final(self)@ == old(self)@,
            },
    {
        let cursor: ByteRange = match self.buffer.char_index_range_to_byte_range(
            self.selection_set.primary.range,
        ) {
            Ok(c) => c,
            Err(e) => {
                return Err(e);
            },
        };
        let ranges: Vec<ByteRange> = match get_candidates(
            &self.buffer,
            &self.selection_set.mode,
            cursor,
            &self.selection_set.filters,
        ) {
            Ok(r) => r,
            Err(e) => {
                return Err(e);
            },
        };
        let (first, last) = self.line_range();
        let ghost text = self@.buffer.text;
        let mut firsts: Vec<char> = Vec::new();
        let mut places: Vec<CharIndexRange> = Vec::new();
        let mut i: usize = 0;
        while i < ranges.len()
            invariant
                i <= ranges.len(),
                *self == *old(self),
                self.wf(),
                text == self@.buffer.text,
                firsts@.len() == places@.len(),
                firsts@.len() == candidates_upto(text, ranges@, first, last, i as int).len(),
                forall|k: int|
                    0 <= k < firsts@.len() ==> (firsts@[k], places@[k]) == candidates_upto(
                        text,
                        ranges@,
                        first,
                        last,
                        i as int,
                    )[k],
            decreases ranges.len() - i,
        {
            match candidate(&self.buffer, ranges[i], first, last) {
                Some((c, place)) => {
                    firsts.push(c);
                    places.push(place);
                },
                None => {},
            }
            i += 1;
        }
        let ghost candidates = candidates_upto(text, ranges@, first, last, ranges@.len() as int);
        assert(firsts@ =~= firsts_of(candidates));
        let labels: Vec<char> = label_candidates(&firsts, &jump_characters());
        let mut jumps: Vec<Jump> = Vec::new();
        let mut j: usize = 0;
        while j < places.len()
            invariant
                j <= places.len(),
                *self == *old(self),
                labels@.len() == places@.len(),
                jumps@.len() == j,
                forall|k: int|
                    0 <= k < j ==> jumps@[k]@ == (JumpView {
                        character: labels@[k],
                        selection: SelectionView { range: places@[k], ..self@.selection_set.primary },
                    }),
            decreases places.len() - j,
        {
            jumps.push(
                Jump::new(labels[j], self.selection_set.primary.duplicate().set_range(places[j])),
            );
            j += 1;
        }
        proof {
            let wanted = jumps_for(self@.selection_set.primary, candidates, labels@);
            assert(jumps_view(jumps@).len() == wanted.len());
            assert forall|k: int| 0 <= k < wanted.len() implies jumps_view(jumps@)[k] == wanted[k] by {
                assert(jumps_view(jumps@)[k] == jumps@[k]@);
                assert((firsts@[k], places@[k]) == candidates[k]);
            }
            assert(jumps_view(jumps@) =~= wanted);
        }
        self.jumps = Some(jumps);
        Ok(())
    }

    /// The labels that show, with their selections; none while no jump is on offer.
    pub fn jumps(&self) -> (r: Vec<Jump>)
        ensures
            match self@.jumps {
                Some(jumps) => jumps_view(r@) == jumps,
                None => r@.len() == 0,
            },
    {
        let mut r: Vec<Jump> = Vec::new();
        if let Some(jumps) = &self.jumps {
            let mut i: usize = 0;
            while i < jumps.len()
                invariant
                    i <= jumps.len(),
                    r@.len() == i,
                    forall|k: int| 0 <= k < i ==> r@[k]@ == jumps@[k]@,
                decreases jumps.len() - i,
            {
                r.push(jumps[i].duplicate());
                i += 1;
            }
            assert(jumps_view(r@) =~= jumps_view(jumps@));
        } else {
            assert(r@.len() == 0);
        }
        r
    }

    /// The labels of the jumps that show.
    pub fn jump_chars(&self) -> (r: Vec<char>)
        ensures
            match self@.jumps {
                Some(jumps) => r@ == Seq::new(jumps.len(), |i: int| jumps[i].character),
                None => r@.len() == 0,
            },
    {
        let mut r: Vec<char> = Vec::new();
        if let Some(jumps) = &self.jumps {
            let mut i: usize = 0;
            while i < jumps.len()
                invariant
                    i <= jumps.len(),
                    r@.len() == i,
                    forall|k: int| 0 <= k < i ==> r@[k] == jumps@[k].character,
                decreases jumps.len() - i,
            {
                r.push(jumps[i].character);
                i += 1;
            }
            assert(r@ =~= Seq::new(jumps_view(jumps@).len(), |i: int| jumps_view(jumps@)[i].character));
        }
        r
    }
}

/// The first character, a capital letter taken as the small one, and the range of characters
/// of an element that starts on a line from `first` up to `last`; `None` for an element that
/// is empty or starts elsewhere.
pub fn candidate(buffer: &Buffer, range: ByteRange, first: usize, last: usize) -> (r: Option<
    (char, CharIndexRange),
>)
    requires
        buffer.wf(),
    ensures
        r == ({
            let text = buffer@.text;
            let chars = chars_of_bytes(text, range);
            if range.start <= byte_len(text) && range.end <= byte_len(text) && chars.start.0
                < chars.end.0 && first <= line_of_byte(text, range.start) < last {
                Some((ascii_lower(text[chars.start.0 as int]), chars))
            } else {
                None
            }
        }),
{
    let chars: CharIndexRange = match buffer.byte_range_to_char_index_range(range) {
        Ok(c) => c,
        Err(_) => {
            return None;
        },
    };
    if chars.start.0 >= chars.end.0 {
        return None;
    }
    let len: usize = buffer.len_chars();
    let line: usize = match buffer.char_to_line(chars.start) {
        Ok(l) => l,
        Err(_) => {
            return None;
        },
    };
    assert(line as int == line_of_byte(buffer@.text, range.start));
    if line < first || line >= last {
        return None;
    }
    let one: String = match buffer.slice(
        &CharIndexRange { start: chars.start, end: CharIndex(chars.start.0 + 1) },
    ) {
        Ok(s) => s,
        Err(_) => {
            return None;
        },
    };
    let text: Vec<char> = str_chars(one.as_str());
    assert(text@[0] == buffer@.text[chars.start.0 as int]);
    Some((to_ascii_lower(text[0]), chars))
}

} // verus!
