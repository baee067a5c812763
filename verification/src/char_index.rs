use vstd::prelude::*;

verus! {

/// An index into the text's sequence of Unicode scalar values.
#[derive(Clone, Copy, Debug, PartialEq, Eq, Structural, Hash, Default)]
pub struct CharIndex(pub usize);

/// A line and a column, the column counted in characters from the line's start.
#[derive(Clone, Copy, Debug, PartialEq, Eq, Structural, Hash, Default)]
pub struct Position {
    pub line: usize,
    pub column: usize,
}

/// A half-open range of character indices.
#[derive(Clone, Copy, Debug, PartialEq, Eq, Structural, Hash, Default)]
pub struct CharIndexRange {
    pub start: CharIndex,
    pub end: CharIndex,
}

/// A half-open range of byte offsets into the text's UTF-8 encoding.
#[derive(Clone, Copy, Debug, PartialEq, Eq, Structural, Hash, Default)]
pub struct ByteRange {
    pub start: usize,
    pub end: usize,
}

impl Position {
    /// The position at `column` of `line`.
    pub fn new(line: usize, column: usize) -> (p: Position)
        ensures
            p.line == line,
            p.column == column,
    {
        Position { line, column }
    }

    /// Whether `self` comes strictly before `other`, lines first, then columns.
    pub open spec fn spec_lt(self, other: Position) -> bool {
        self.line < other.line || (self.line == other.line && self.column < other.column)
    }

    /// Whether `self` comes strictly before `other` in reading order.
    pub fn precedes(&self, other: &Position) -> (b: bool)
        ensures
            b == self.spec_lt(*other),
    {
        self.line < other.line || (self.line == other.line && self.column < other.column)
    }
}

impl CharIndexRange {
    /// The start does not lie after the end.
    pub open spec fn wf(self) -> bool {
        self.start.0 <= self.end.0
    }

    /// The number of characters covered; zero where the end lies before the start.
    pub open spec fn spec_len(self) -> nat {
        if self.start.0 <= self.end.0 {
            (self.end.0 - self.start.0) as nat
        } else {
            0
        }
    }

    /// The range from `start` to `end`.
    pub fn new(start: usize, end: usize) -> (r: CharIndexRange)
        ensures
            r.start.0 == start,
            r.end.0 == end,
    {
        CharIndexRange { start: CharIndex(start), end: CharIndex(end) }
    }

    /// The number of characters covered; zero where the end lies before the start.
    pub fn len(&self) -> (n: usize)
        ensures
            n == self.spec_len(),
    {
        if self.start.0 <= self.end.0 {
            self.end.0 - self.start.0
        } else {
            0
        }
    }

    /// Two ranges overlap when they share at least one character.
    pub open spec fn spec_intersects(self, other: CharIndexRange) -> bool {
        self.start.0 < other.end.0 && other.start.0 < self.end.0
    }

    /// Whether each of the two ranges starts before the other ends.
    pub fn intersects(&self, other: &CharIndexRange) -> (b: bool)
        ensures
            b == self.spec_intersects(*other),
    {
        self.start.0 < other.end.0 && other.start.0 < self.end.0
    }

    /// The smallest range that covers both.
    pub open spec fn spec_hull(self, other: CharIndexRange) -> CharIndexRange {
        CharIndexRange {
            start: CharIndex(if self.start.0 <= other.start.0 { self.start.0 } else { other.start.0 }),
            end: CharIndex(if self.end.0 >= other.end.0 { self.end.0 } else { other.end.0 }),
        }
    }

    /// The smallest range that covers both.
    pub fn hull(&self, other: &CharIndexRange) -> (r: CharIndexRange)
        ensures
            r == self.spec_hull(*other),
    {
        CharIndexRange {
            start: CharIndex(if self.start.0 <= other.start.0 { self.start.0 } else { other.start.0 }),
            end: CharIndex(if self.end.0 >= other.end.0 { self.end.0 } else { other.end.0 }),
        }
    }

    /// Both ends moved left by `n`, stopping at zero.
    pub open spec fn spec_shift_left(self, n: usize) -> CharIndexRange {
        CharIndexRange {
            start: CharIndex(if self.start.0 >= n { (self.start.0 - n) as usize } else { 0 }),
            end: CharIndex(if self.end.0 >= n { (self.end.0 - n) as usize } else { 0 }),
        }
    }

    /// The range moved `n` characters towards the start of the text, as far as it goes.
    pub fn shift_left(&self, n: usize) -> (r: CharIndexRange)
        ensures
            r == self.spec_shift_left(n),
    {
        CharIndexRange {
            start: CharIndex(if self.start.0 >= n { self.start.0 - n } else { 0 }),
            end: CharIndex(if self.end.0 >= n { self.end.0 - n } else { 0 }),
        }
    }

    /// Both ends moved right by `n`, stopping at the largest index.
    pub open spec fn spec_shift_right(self, n: usize) -> CharIndexRange {
        CharIndexRange {
            start: CharIndex(if self.start.0 + n <= usize::MAX { (self.start.0 + n) as usize } else { usize::MAX }),
            end: CharIndex(if self.end.0 + n <= usize::MAX { (self.end.0 + n) as usize } else { usize::MAX }),
        }
    }

    /// The range moved `n` characters towards the end of the text, as far as indices go.
    pub fn shift_right(&self, n: usize) -> (r: CharIndexRange)
        ensures
            r == self.spec_shift_right(n),
    {
        CharIndexRange {
            start: CharIndex(if self.start.0 <= usize::MAX - n { self.start.0 + n } else { usize::MAX }),
            end: CharIndex(if self.end.0 <= usize::MAX - n { self.end.0 + n } else { usize::MAX }),
        }
    }
}

impl ByteRange {
    /// The bytes from `start` up to `end`.
    pub fn new(start: usize, end: usize) -> (r: ByteRange)
        ensures
            r.start == start,
            r.end == end,
    {
        ByteRange { start, end }
    }
}

} // verus!
