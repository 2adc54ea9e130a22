use vstd::prelude::*;

verus! {

/// An axis-aligned pixel rectangle: top-left corner position and size.
///
/// Used both for a glyph's sub-region inside the rasterized atlas strip and
/// for the destination of a draw command on screen.
#[derive(Clone, Copy, Debug, PartialEq, Eq, Structural)]
pub struct Rect {
    pub x: i32,
    pub y: i32,
    pub w: i32,
    pub h: i32,
}

} // verus!
