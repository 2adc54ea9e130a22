use vstd::prelude::*;

use crate::atlas::GlyphAtlas;
use crate::compositor::DrawCmd;
use crate::compositor::compose;
use crate::compositor::compose_spec;
use crate::compositor::fits;
use crate::entities::Entity;
use crate::entities::EntityCatalog;
use crate::entities::catalog_entities;
use crate::geom::Rect;
use crate::map::Tile;
use crate::map::generate_map;
use crate::map::map_tile;

verus! {

/// Grid cells across the fixed map.
pub const MAP_WIDTH: usize = 20;

/// Grid cells down the fixed map.
pub const MAP_HEIGHT: usize = 15;

/// Pixels per grid cell, horizontally and vertically; also the size of one
/// atlas cell.
pub const CELL_SIZE: i32 = 24;

/// Fixed screen-space translation applied to the whole grid.
pub const GRID_OFFSET_X: i32 = 50;

/// Fixed screen-space translation applied to the whole grid.
pub const GRID_OFFSET_Y: i32 = 150;

/// The title's fixed vertical center on screen.
pub const TITLE_CENTER_Y: i32 = 40;

/// Fixed left edge of the caption lines.
pub const CAPTION_X: i32 = 2;

/// How far above the screen's bottom edge the first caption line sits.
pub const FIRST_CAPTION_RISE: i32 = 60;

/// How far above the screen's bottom edge the second caption line sits.
pub const SECOND_CAPTION_RISE: i32 = 30;

/// The characters rasterized into the atlas strip, in strip order.
pub open spec fn atlas_source() -> Seq<char> {
    seq!['#', '@', 'g', '.']
}

/// The atlas sub-region of the glyph at strip index `i`.
pub open spec fn atlas_region(i: int) -> Rect {
    Rect { x: (i * CELL_SIZE) as i32, y: 0, w: CELL_SIZE, h: CELL_SIZE }
}

/// The characters rasterized into the atlas strip, as a list.
pub fn atlas_glyphs() -> (glyphs: Vec<char>)
    ensures
        glyphs@ == atlas_source(),
{
    let mut glyphs: Vec<char> = Vec::new();
    glyphs.push('#');
    glyphs.push('@');
    glyphs.push('g');
    glyphs.push('.');
    proof {
        assert(glyphs@ =~= atlas_source());
    }
    glyphs
}

/// Top-left corner that puts an image of size `(w, h)` with its center at
/// the screen's horizontal middle and at the title's fixed height: where
/// the title is drawn each frame.
pub fn title_position(screen_w: i32, w: i32, h: i32) -> (pos: (i32, i32))
    requires
        0 <= screen_w,
        0 <= w,
        0 <= h,
    ensures
        pos.0 == screen_w / 2 - w / 2,
        pos.1 == TITLE_CENTER_Y - h / 2,
{
    (screen_w / 2 - w / 2, TITLE_CENTER_Y - h / 2)
}

/// Top-left corner of a caption line anchored near the bottom-left: a fixed
/// left margin, `rise` pixels above the screen's bottom edge.
pub fn caption_position(screen_h: i32, rise: i32) -> (pos: (i32, i32))
    requires
        i32::MIN <= screen_h - rise <= i32::MAX,
    ensures
        pos.0 == CAPTION_X,
        pos.1 == screen_h - rise,
{
    (CAPTION_X, screen_h - rise)
}

/// The state the render loop owns: the atlas, the static map, the entity
/// list, and the protagonist's index within it. Built once at startup,
/// borrowed read-only by every frame.
pub struct GameState {
    pub atlas: GlyphAtlas,
    pub tiles: Vec<Tile>,
    pub entities: Vec<Entity>,
    pub player_id: usize,
}

impl GameState {
    /// Every tile and entity lands inside `i32` range when placed at the
    /// fixed grid offset, and the atlas holds no duplicate glyph.
    pub open spec fn wf(&self) -> bool {
        &&& self.atlas.wf()
        &&& forall|i: int|
            0 <= i < self.tiles@.len() ==> fits(
                (#[trigger] self.tiles@[i]).x as int,
                GRID_OFFSET_X as int,
                CELL_SIZE as int,
            ) && fits(self.tiles@[i].y as int, GRID_OFFSET_Y as int, CELL_SIZE as int)
        &&& forall|i: int|
            0 <= i < self.entities@.len() ==> fits(
                (#[trigger] self.entities@[i]).x as int,
                GRID_OFFSET_X as int,
                CELL_SIZE as int,
            ) && fits(self.entities@[i].y as int, GRID_OFFSET_Y as int, CELL_SIZE as int)
    }

    /// Builds the fixed startup state: the atlas layout sliced from the
    /// four-glyph strip, the bordered map, and the fixed cast with the
    /// protagonist's index recorded.
    pub fn new() -> (game: GameState)
        ensures
            game.wf(),
            forall|c: char| game.atlas@.dom().contains(c) <==> atlas_source().contains(c),
            game.atlas@.dom().len() == atlas_source().len(),
            forall|i: int|
                0 <= i < atlas_source().len() ==> game.atlas@[#[trigger] atlas_source()[i]]
                    == atlas_region(i),
            game.tiles@.len() == MAP_WIDTH * MAP_HEIGHT,
            forall|i: int|
                0 <= i < game.tiles@.len() ==> game.tiles@[i] == map_tile(
                    i / MAP_HEIGHT as int,
                    i % MAP_HEIGHT as int,
                    MAP_WIDTH as int,
                    MAP_HEIGHT as int,
                ),
            game.entities@ == catalog_entities(),
            game.player_id == game.entities@.len() - 1,
    {
        let glyphs = atlas_glyphs();
        proof {
            assert(atlas_source().len() == 4);
            assert(atlas_source()[0] == '#' && atlas_source()[1] == '@' && atlas_source()[2] == 'g'
                && atlas_source()[3] == '.');
        }
        let atlas = GlyphAtlas::build(&glyphs, CELL_SIZE, CELL_SIZE);
        let tiles = generate_map(MAP_WIDTH, MAP_HEIGHT);
        let catalog = EntityCatalog::generate();
        let game = GameState {
            atlas,
            tiles,
            entities: catalog.entities,
            player_id: catalog.player_id,
        };
        proof {
            assert forall|i: int| 0 <= i < game.tiles@.len() implies fits(
                (#[trigger] game.tiles@[i]).x as int,
                GRID_OFFSET_X as int,
                CELL_SIZE as int,
            ) && fits(game.tiles@[i].y as int, GRID_OFFSET_Y as int, CELL_SIZE as int) by {
                let x = i / MAP_HEIGHT as int;
                let y = i % MAP_HEIGHT as int;
                assert(0 <= y < MAP_HEIGHT) by {
                    vstd::arithmetic::div_mod::lemma_mod_bound(i, MAP_HEIGHT as int);
                }
                assert(0 <= x < MAP_WIDTH) by {
                    vstd::arithmetic::div_mod::lemma_div_pos_is_pos(i, MAP_HEIGHT as int);
                    assert(x < MAP_WIDTH) by (nonlinear_arith)
                        requires
                            x == i / 15,
                            0 <= i < 300,
                    ;
                }
                assert(0 <= x * CELL_SIZE <= 19 * 24) by (nonlinear_arith)
                    requires
                        0 <= x < 20,
                ;
                assert(0 <= y * CELL_SIZE <= 14 * 24) by (nonlinear_arith)
                    requires
                        0 <= y < 15,
                ;
            }
            assert(game.entities@.len() == 3);
            assert forall|i: int| 0 <= i < game.entities@.len() implies fits(
                (#[trigger] game.entities@[i]).x as int,
                GRID_OFFSET_X as int,
                CELL_SIZE as int,
            ) && fits(game.entities@[i].y as int, GRID_OFFSET_Y as int, CELL_SIZE as int) by {
                assert(0 <= game.entities@[i].x <= 9);
                assert(0 <= game.entities@[i].y <= 6);
                assert(0 <= game.entities@[i].x * CELL_SIZE <= 9 * 24) by (nonlinear_arith)
                    requires
                        0 <= game.entities@[i].x <= 9,
                ;
                assert(0 <= game.entities@[i].y * CELL_SIZE <= 6 * 24) by (nonlinear_arith)
                    requires
                        0 <= game.entities@[i].y <= 6,
                ;
            }
        }
        game
    }

    /// One frame's grid pass: the draw commands for every tile, then every
    /// entity, at the fixed grid offset and cell size.
    pub fn draw_commands(&self) -> (cmds: Vec<DrawCmd>)
        requires
            self.wf(),
        ensures
            cmds@ == compose_spec(
                self.atlas@,
                self.tiles@,
                self.entities@,
                GRID_OFFSET_X as int,
                GRID_OFFSET_Y as int,
                CELL_SIZE as int,
            ),
    {
        compose(&self.atlas, &self.tiles, &self.entities, GRID_OFFSET_X, GRID_OFFSET_Y, CELL_SIZE)
    }
}

} // verus!
