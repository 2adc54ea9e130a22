use vstd::prelude::*;

use crate::atlas::GlyphAtlas;
use crate::color::Color;
use crate::entities::Entity;
use crate::geom::Rect;
use crate::map::Tile;

verus! {

/// One blended draw of the compositing pass: copy the atlas sub-region
/// `src`, tinted with `color`, to the screen with its top-left corner at
/// `(x, y)`. The destination size is the sub-region's size.
#[derive(Clone, Copy, Debug, PartialEq, Eq, Structural)]
pub struct DrawCmd {
    pub x: i32,
    pub y: i32,
    pub src: Rect,
    pub color: Color,
}

/// What the compositing pass reads of a tile or an entity: grid position,
/// glyph, tint.
pub ghost struct Sprite {
    pub x: int,
    pub y: int,
    pub glyph: char,
    pub color: Color,
}

pub open spec fn sprite_of_tile(t: Tile) -> Sprite {
    Sprite { x: t.x as int, y: t.y as int, glyph: t.glyph, color: t.color }
}

pub open spec fn sprite_of_entity(e: Entity) -> Sprite {
    Sprite { x: e.x as int, y: e.y as int, glyph: e.glyph, color: e.color }
}

pub open spec fn tile_sprites(tiles: Seq<Tile>) -> Seq<Sprite> {
    tiles.map_values(|t: Tile| sprite_of_tile(t))
}

pub open spec fn entity_sprites(entities: Seq<Entity>) -> Seq<Sprite> {
    entities.map_values(|e: Entity| sprite_of_entity(e))
}

/// Screen placement of a sprite: the fixed grid offset plus the sprite's
/// grid position scaled by the per-cell pixel size stays inside `i32`.
pub open spec fn fits(v: int, off: int, cell: int) -> bool {
    i32::MIN <= v * cell && v * cell <= i32::MAX && i32::MIN <= off + v * cell && off + v * cell
        <= i32::MAX
}

/// The draw of one sprite whose glyph resolved to `region`: destination
/// top-left at `offset + grid position * cell size`, blended with the
/// sprite's tint.
pub open spec fn sprite_cmd(s: Sprite, region: Rect, off_x: int, off_y: int, cell: int) -> DrawCmd {
    DrawCmd {
        x: (off_x + s.x * cell) as i32,
        y: (off_y + s.y * cell) as i32,
        src: region,
        color: s.color,
    }
}

/// The draws for a sequence of sprites, in sequence order: one per sprite
/// whose glyph the atlas holds; a sprite whose glyph is absent contributes
/// nothing.
pub open spec fn sprite_cmds(
    sprites: Seq<Sprite>,
    atlas: Map<char, Rect>,
    off_x: int,
    off_y: int,
    cell: int,
) -> Seq<DrawCmd>
    decreases sprites.len(),
{
    if sprites.len() == 0 {
        Seq::empty()
    } else {
        let rest = sprite_cmds(sprites.drop_last(), atlas, off_x, off_y, cell);
        let s = sprites.last();
        if atlas.dom().contains(s.glyph) {
            rest.push(sprite_cmd(s, atlas[s.glyph], off_x, off_y, cell))
        } else {
            rest
        }
    }
}

/// The whole pass: the tiles' draws in map order, then the entities' draws
/// in list order, so that entities layer on top of tiles.
pub open spec fn compose_spec(
    atlas: Map<char, Rect>,
    tiles: Seq<Tile>,
    entities: Seq<Entity>,
    off_x: int,
    off_y: int,
    cell: int,
) -> Seq<DrawCmd> {
    sprite_cmds(tile_sprites(tiles), atlas, off_x, off_y, cell) + sprite_cmds(
        entity_sprites(entities),
        atlas,
        off_x,
        off_y,
        cell,
    )
}

/// Resolves every tile and entity against the atlas and lays out the
/// frame's draws: tiles first in sequence order, then entities, each placed
/// at `offset + grid position * cell`, tinted with its stored color. A
/// glyph the atlas does not hold is skipped silently.
pub fn compose(
    atlas: &GlyphAtlas,
    tiles: &Vec<Tile>,
    entities: &Vec<Entity>,
    off_x: i32,
    off_y: i32,
    cell: i32,
) -> (cmds: Vec<DrawCmd>)
    requires
        atlas.wf(),
        forall|i: int|
            0 <= i < tiles@.len() ==> fits((#[trigger] tiles@[i]).x as int, off_x as int, cell as int)
                && fits(tiles@[i].y as int, off_y as int, cell as int),
        forall|i: int|
            0 <= i < entities@.len() ==> fits(
                (#[trigger] entities@[i]).x as int,
                off_x as int,
                cell as int,
            ) && fits(entities@[i].y as int, off_y as int, cell as int),
    ensures
        cmds@ == compose_spec(
            atlas@,
            tiles@,
            entities@,
            off_x as int,
            off_y as int,
            cell as int,
        ),
{
    let ghost goff_x = off_x as int;
    let ghost goff_y = off_y as int;
    let ghost gcell = cell as int;
    let mut cmds: Vec<DrawCmd> = Vec::new();
    let mut i: usize = 0;
    while i < tiles.len()
        invariant
            atlas.wf(),
            i <= tiles@.len(),
            goff_x == off_x as int,
            goff_y == off_y as int,
            gcell == cell as int,
            forall|k: int|
                0 <= k < tiles@.len() ==> fits((#[trigger] tiles@[k]).x as int, goff_x, gcell)
                    && fits(tiles@[k].y as int, goff_y, gcell),
            cmds@ == sprite_cmds(tile_sprites(tiles@.take(i as int)), atlas@, goff_x, goff_y, gcell),
        decreases tiles@.len() - i,
    {
        let t = tiles[i];
        let ghost prev = cmds@;
        match atlas.lookup(t.glyph) {
            Some(region) => {
                let cmd = DrawCmd {
                    x: off_x + t.x * cell,
                    y: off_y + t.y * cell,
                    src: region,
                    color: t.color,
                };
                cmds.push(cmd);
                proof {
                    assert(cmd == sprite_cmd(sprite_of_tile(tiles@[i as int]), region, goff_x,
                        goff_y, gcell));
                }
            },
            None => {},
        }
        proof {
            let ts_next = tile_sprites(tiles@.take(i as int + 1));
            assert(ts_next.drop_last() =~= tile_sprites(tiles@.take(i as int)));
            assert(ts_next.last() == sprite_of_tile(tiles@[i as int]));
            assert(cmds@ == sprite_cmds(ts_next, atlas@, goff_x, goff_y, gcell));
        }
        i = i + 1;
    }
    proof {
        assert(tiles@.take(tiles@.len() as int) =~= tiles@);
    }
    let ghost tile_part = sprite_cmds(tile_sprites(tiles@), atlas@, goff_x, goff_y, gcell);
    let mut j: usize = 0;
    while j < entities.len()
        invariant
            atlas.wf(),
            j <= entities@.len(),
            goff_x == off_x as int,
            goff_y == off_y as int,
            gcell == cell as int,
            tile_part == sprite_cmds(tile_sprites(tiles@), atlas@, goff_x, goff_y, gcell),
            forall|k: int|
                0 <= k < entities@.len() ==> fits((#[trigger] entities@[k]).x as int, goff_x, gcell)
                    && fits(entities@[k].y as int, goff_y, gcell),
            cmds@ == tile_part + sprite_cmds(
                entity_sprites(entities@.take(j as int)),
                atlas@,
                goff_x,
                goff_y,
                gcell,
            ),
        decreases entities@.len() - j,
    {
        let e = entities[j];
        match atlas.lookup(e.glyph) {
            Some(region) => {
                let cmd = DrawCmd {
                    x: off_x + e.x * cell,
                    y: off_y + e.y * cell,
                    src: region,
                    color: e.color,
                };
                cmds.push(cmd);
                proof {
                    assert(cmd == sprite_cmd(sprite_of_entity(entities@[j as int]), region, goff_x,
                        goff_y, gcell));
                }
            },
            None => {},
        }
        proof {
            let es_next = entity_sprites(entities@.take(j as int + 1));
            assert(es_next.drop_last() =~= entity_sprites(entities@.take(j as int)));
            assert(es_next.last() == sprite_of_entity(entities@[j as int]));
            if atlas@.dom().contains(es_next.last().glyph) {
                assert(cmds@ =~= tile_part + sprite_cmds(es_next, atlas@, goff_x, goff_y, gcell));
            } else {
                assert(cmds@ == tile_part + sprite_cmds(es_next, atlas@, goff_x, goff_y, gcell));
            }
        }
        j = j + 1;
    }
    proof {
        assert(entities@.take(entities@.len() as int) =~= entities@);
    }
    cmds
}

/// Law: a sprite whose glyph the atlas does not hold is tolerated, not an
/// error — it contributes no draw at all, so the pass draws exactly what it
/// would draw with that sprite left out.
pub proof fn lemma_missing_glyph_skipped(
    sprites: Seq<Sprite>,
    i: int,
    atlas: Map<char, Rect>,
    off_x: int,
    off_y: int,
    cell: int,
)
    requires
        0 <= i < sprites.len(),
        !atlas.dom().contains(sprites[i].glyph),
    ensures
        sprite_cmds(sprites, atlas, off_x, off_y, cell) == sprite_cmds(
            sprites.remove(i),
            atlas,
            off_x,
            off_y,
            cell,
        ),
    decreases sprites.len(),
{
    if i == sprites.len() - 1 {
        assert(sprites.remove(i) =~= sprites.drop_last());
    } else {
        let prefix = sprites.drop_last();
        lemma_missing_glyph_skipped(prefix, i, atlas, off_x, off_y, cell);
        assert(sprites.remove(i).drop_last() =~= prefix.remove(i));
        assert(sprites.remove(i).last() == sprites.last());
    }
}

/// Law: the compositing pass is deterministic, so drawing the same map,
/// entities and atlas twice in a row yields the very same draw commands
/// both times — nothing about the pass mutates its inputs between frames.
pub proof fn lemma_compose_deterministic(
    first: Seq<DrawCmd>,
    second: Seq<DrawCmd>,
    atlas: Map<char, Rect>,
    tiles: Seq<Tile>,
    entities: Seq<Entity>,
    off_x: int,
    off_y: int,
    cell: int,
)
    requires
        first == compose_spec(atlas, tiles, entities, off_x, off_y, cell),
        second == compose_spec(atlas, tiles, entities, off_x, off_y, cell),
    ensures
        first == second,
{
}

} // verus!
