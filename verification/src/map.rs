use vstd::prelude::*;

use crate::color::Color;

verus! {

/// Glyph drawn for a wall cell on the map's outer ring.
pub const WALL_GLYPH: char = '#';

/// Glyph drawn for an interior floor cell.
pub const FLOOR_GLYPH: char = '.';

/// One static grid cell of the map: its grid coordinates, the glyph drawn
/// for it, and its tint.
#[derive(Clone, Copy, Debug, PartialEq, Eq, Structural)]
pub struct Tile {
    pub x: i32,
    pub y: i32,
    pub glyph: char,
    pub color: Color,
}

/// The map's tiles all share the same neutral tint: opaque black.
pub open spec fn tile_tint() -> Color {
    Color { r: 0, g: 0, b: 0, a: 255 }
}

/// A cell is a wall exactly when it lies on the grid's outer ring.
pub open spec fn on_border(x: int, y: int, width: int, height: int) -> bool {
    x == 0 || x == width - 1 || y == 0 || y == height - 1
}

/// The tile that the generator places at grid cell `(x, y)` of a
/// `width` by `height` map: a wall on the outer ring, a floor inside,
/// always with the neutral tint.
pub open spec fn map_tile(x: int, y: int, width: int, height: int) -> Tile {
    Tile {
        x: x as i32,
        y: y as i32,
        glyph: if on_border(x, y, width, height) {
            WALL_GLYPH
        } else {
            FLOOR_GLYPH
        },
        color: tile_tint(),
    }
}

/// Lays out the static rectangular map: one tile per grid cell, produced
/// column-major (outer loop over `x`, inner loop over `y`), each cell a wall
/// exactly when it lies on the outer ring and a floor otherwise.
///
/// Sizes below 2 would leave no room for a well-formed border, so they are
/// excluded up front.
pub fn generate_map(width: usize, height: usize) -> (map: Vec<Tile>)
    requires
        2 <= width <= i32::MAX,
        2 <= height <= i32::MAX,
    ensures
        map@.len() == width * height,
        forall|i: int|
            0 <= i < map@.len() ==> map@[i] == map_tile(
                i / height as int,
                i % height as int,
                width as int,
                height as int,
            ),
        forall|x: int, y: int|
            0 <= x < width && 0 <= y < height ==> map@[x * height + y] == #[trigger] map_tile(
                x,
                y,
                width as int,
                height as int,
            ),
{
    let mut map: Vec<Tile> = Vec::new();
    for x in 0..width
        invariant
            2 <= width <= i32::MAX,
            2 <= height <= i32::MAX,
            map@.len() == x * height,
            forall|i: int|
                0 <= i < map@.len() ==> map@[i] == map_tile(
                    i / height as int,
                    i % height as int,
                    width as int,
                    height as int,
                ),
    {
        for y in 0..height
            invariant
                2 <= width <= i32::MAX,
                2 <= height <= i32::MAX,
                x < width,
                map@.len() == x * height + y,
                forall|i: int|
                    0 <= i < map@.len() ==> map@[i] == map_tile(
                        i / height as int,
                        i % height as int,
                        width as int,
                        height as int,
                    ),
        {
            let glyph = if x == 0 || x == width - 1 || y == 0 || y == height - 1 {
                WALL_GLYPH
            } else {
                FLOOR_GLYPH
            };
            let tile = Tile { x: x as i32, y: y as i32, glyph, color: Color::black() };
            proof {
                vstd::arithmetic::div_mod::lemma_fundamental_div_mod_converse(
                    x * height + y,
                    height as int,
                    x as int,
                    y as int,
                );
                assert(tile == map_tile(x as int, y as int, width as int, height as int));
            }
            map.push(tile);
        }
        proof {
            assert(x * height + height == (x + 1) * height) by (nonlinear_arith);
        }
    }
    proof {
        assert forall|x: int, y: int| 0 <= x < width && 0 <= y < height implies map@[x * height
            + y] == #[trigger] map_tile(x, y, width as int, height as int) by {
            vstd::arithmetic::div_mod::lemma_fundamental_div_mod_converse(
                x * height + y,
                height as int,
                x,
                y,
            );
            assert(0 <= x * height + y < width * height) by (nonlinear_arith)
                requires
                    0 <= x < width,
                    0 <= y < height,
            ;
        }
    }
    map
}

} // verus!
