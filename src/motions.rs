//! Motions described by direction and reach.
use vstd::prelude::*;

verus! {

/// How far a horizontal motion reaches.
#[derive(Debug, Clone, Copy, PartialEq, Eq, Structural)]
pub enum HorizontalModifiers {
    Line,
    Word,
}

/// How far a vertical motion reaches.
#[derive(Debug, Clone, Copy, PartialEq, Eq, Structural)]
pub enum VerticalModifiers {
    Exact(i32),
    QuickScroll,
}

/// A cursor motion in one of four directions.
#[derive(Debug, Clone, Copy, PartialEq, Eq, Structural)]
pub enum Motions {
    MoveDown(VerticalModifiers),
    MoveUp(VerticalModifiers),
    MoveLeft(HorizontalModifiers),
    MoveRight(HorizontalModifiers),
}

} // verus!
