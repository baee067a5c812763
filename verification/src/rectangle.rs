use vstd::prelude::*;
use crate::app::Dimension;
use crate::char_index::Position;

verus! {

/// A part of the screen: where its upper left corner stands, and its size.
#[derive(Clone, Copy, Debug, PartialEq, Eq, Structural, Default)]
pub struct Rectangle {
    pub origin: Position,
    pub width: u16,
    pub height: u16,
}

impl Rectangle {
    /// The size of the rectangle.
    pub fn dimension(&self) -> (d: Dimension)
        ensures
            d == (Dimension { height: self.height, width: self.width }),
    {
        Dimension { height: self.height, width: self.width }
    }
}

} // verus!
