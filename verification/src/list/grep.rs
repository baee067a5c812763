use vstd::prelude::*;
use vstd::string::StringExecFns;
use crate::buffer::{Buffer, position_of_char};
use crate::diagnostic::PositionRange;
use crate::error::EditorError;
use crate::regex_search::{find_all, regex_matches};
use crate::text::{byte_len, byte_offset, char_of_byte, line_count, line_start};

verus! {

/// One line of a file that a search found.
#[derive(Clone, Debug, PartialEq, Eq)]
pub struct Match {
    pub path: String,
    pub line_number: u64,
}

/// How a pattern is read.
#[derive(Clone, Copy, Debug, PartialEq, Eq, Structural)]
pub struct GrepConfig {
    /// The pattern is plain text, not a regular expression.
    pub escaped: bool,
    pub case_sensitive: bool,
    pub match_whole_word: bool,
}

impl GrepConfig {
    /// Plain text, any case, anywhere in a word.
    pub fn default() -> (c: GrepConfig)
        ensures
            c == (GrepConfig { escaped: true, case_sensitive: false, match_whole_word: false }),
    {
        GrepConfig { escaped: true, case_sensitive: false, match_whole_word: false }
    }
}

/// A stretch of a file, between two positions.
#[derive(Clone, Debug, PartialEq, Eq)]
pub struct Location {
    pub path: String,
    pub range: PositionRange,
}

/// What a `Location` holds, as mathematical values.
pub struct LocationView {
    pub path: Seq<char>,
    pub range: PositionRange,
}

impl View for Location {
    type V = LocationView;

    open spec fn view(&self) -> LocationView {
        LocationView { path: self.path@, range: self.range }
    }
}

/// The views of a list of locations.
pub open spec fn locations_view(locations: Seq<Location>) -> Seq<LocationView> {
    Seq::new(locations.len(), |i: int| locations[i]@)
}

/// The positions between which a match in a line lies, where the line starts at byte
/// `start_byte` of the text; `None` where the match does not lie within the text.
pub open spec fn match_position(text: Seq<char>, start_byte: usize, found: (usize, usize)) -> Option<
    PositionRange,
> {
    if found.0 + start_byte <= byte_len(text) && found.1 + start_byte <= byte_len(text) {
        Some(
            PositionRange {
                start: position_of_char(text, char_of_byte(text, found.0 + start_byte)),
                end: position_of_char(text, char_of_byte(text, found.1 + start_byte)),
            },
        )
    } else {
        None
    }
}

/// The locations in the file `path` of the first `n` matches in a line, in order, without
/// those that do not lie within the text.
pub open spec fn located(
    text: Seq<char>,
    path: Seq<char>,
    start_byte: usize,
    matches: Seq<(usize, usize)>,
    n: int,
) -> Seq<LocationView>
    decreases n,
{
    if n <= 0 {
        Seq::empty()
    } else {
        let rest = located(text, path, start_byte, matches, n - 1);
        match match_position(text, start_byte, matches[n - 1]) {
            Some(range) => rest.push(LocationView { path, range }),
            None => rest,
        }
    }
}

/// The byte at which a line that a search counts as `line_number`, from one, starts.
pub open spec fn line_byte(text: Seq<char>, line_number: usize) -> nat {
    let line = if line_number == 0 {
        0
    } else {
        line_number - 1
    };
    byte_offset(text, line_start(text, line))
}

/// The locations of matches found in line `line_number` of the buffer, counted from one, each
/// match given by the bytes of the line at which it starts and ends. Refused where the buffer
/// has no such line.
pub fn locations_of(
    buffer: &Buffer,
    path: &str,
    line_number: usize,
    matches: &Vec<(usize, usize)>,
) -> (r: Result<Vec<Location>, EditorError>)
    requires
        buffer.wf(),
    ensures
        match r {
            Ok(v) => line_number <= line_count(buffer@.text) + 1 && locations_view(v@) == located(
                buffer@.text,
                path@,
                line_byte(buffer@.text, line_number) as usize,
                matches@,
                matches@.len() as int,
            ),
            Err(e) => line_number > line_count(buffer@.text) + 1 && e == EditorError::OutOfBounds,
        },
{
    proof {
        buffer.lemma_wf();
    }
    let line: usize = if line_number == 0 {
        0
    } else {
        line_number - 1
    };
    let start_byte: usize = match buffer.line_to_byte(line) {
        Ok(b) => b,
        Err(e) => {
            return Err(e);
        },
    };
    let mut v: Vec<Location> = Vec::new();
    let mut i: usize = 0;
    while i < matches.len()
        invariant
            i <= matches.len(),
            byte_len(buffer@.text) <= usize::MAX,
            locations_view(v@) == located(buffer@.text, path@, start_byte, matches@, i as int),
        decreases matches.len() - i,
    {
        let found: (usize, usize) = matches[i];
        let ghost before = locations_view(v@);
        match (found.0.checked_add(start_byte), found.1.checked_add(start_byte)) {
            (Some(from), Some(to)) => {
                match (buffer.byte_to_position(from), buffer.byte_to_position(to)) {
                    (Ok(start), Ok(end)) => {
                        let location = Location {
                            path: String::from_str(path),
                            range: PositionRange { start, end },
                        };
                        v.push(location);
                        assert(locations_view(v@) =~= before.push(location@));
                    },
                    _ => {},
                }
            },
            _ => {},
        }
        i += 1;
    }
    Ok(v)
}

/// The locations of the matches of `pattern` within `line`, which is line `line_number` of the
/// buffer, counted from one. Refused where the pattern is no regular expression, or the
/// buffer has no such line.
pub fn to_location(buffer: &Buffer, path: &str, line_number: usize, line: &str, pattern: &str) -> (r:
    Result<Vec<Location>, EditorError>)
    requires
        buffer.wf(),
    ensures
        match regex_matches(pattern@, line@) {
            None => r == Err::<Vec<Location>, EditorError>(EditorError::FilterRegexInvalid),
            Some(matches) => match r {
                Ok(v) => line_number <= line_count(buffer@.text) + 1 && locations_view(v@)
                    == located(
                    buffer@.text,
                    path@,
                    line_byte(buffer@.text, line_number) as usize,
                    matches,
                    matches.len() as int,
                ),
                Err(e) => line_number > line_count(buffer@.text) + 1 && e
                    == EditorError::OutOfBounds,
            },
        },
{
    match find_all(pattern, line) {
        None => Err(EditorError::FilterRegexInvalid),
        Some(matches) => locations_of(buffer, path, line_number, &matches),
    }
}

} // verus!
