//! Places in a text, as the protocol counts them: lines and columns from
//! zero, columns in characters.

use vstd::prelude::*;

verus! {

/// A zero-based place in a text.
#[derive(Clone, Copy, Debug, PartialEq, Eq, Structural)]
pub struct Position {
    pub line: u32,
    pub character: u32,
}

/// The half-open stretch of text from `start` up to `end`.
#[derive(Clone, Copy, Debug, PartialEq, Eq, Structural)]
pub struct Range {
    pub start: Position,
    pub end: Position,
}

} // verus!
