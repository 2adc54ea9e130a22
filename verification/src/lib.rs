mod atlas;
mod color;
mod compositor;
mod entities;
mod game;
mod geom;
mod map;

pub use atlas::GlyphAtlas;
pub use color::Color;
pub use compositor::DrawCmd;
pub use compositor::Sprite;
pub use compositor::compose;
pub use compositor::compose_spec;
pub use compositor::entity_sprites;
pub use compositor::fits;
pub use compositor::lemma_compose_deterministic;
pub use compositor::lemma_missing_glyph_skipped;
pub use compositor::sprite_cmd;
pub use compositor::sprite_cmds;
pub use compositor::sprite_of_entity;
pub use compositor::sprite_of_tile;
pub use compositor::tile_sprites;
pub use entities::ADVERSARY_GLYPH;
pub use entities::Entity;
pub use entities::EntityCatalog;
pub use entities::PROTAGONIST_GLYPH;
pub use entities::adversary_entities;
pub use entities::catalog_entities;
pub use entities::generate_entities;
pub use entities::lemma_protagonist_unique;
pub use entities::protagonist_entity;
pub use game::CAPTION_X;
pub use game::CELL_SIZE;
pub use game::FIRST_CAPTION_RISE;
pub use game::GRID_OFFSET_X;
pub use game::GRID_OFFSET_Y;
pub use game::GameState;
pub use game::MAP_HEIGHT;
pub use game::MAP_WIDTH;
pub use game::SECOND_CAPTION_RISE;
pub use game::TITLE_CENTER_Y;
pub use game::atlas_glyphs;
pub use game::atlas_region;
pub use game::atlas_source;
pub use game::caption_position;
pub use game::title_position;
pub use geom::Rect;
pub use map::FLOOR_GLYPH;
pub use map::Tile;
pub use map::WALL_GLYPH;
pub use map::generate_map;
pub use map::map_tile;
pub use map::on_border;
pub use map::tile_tint;
