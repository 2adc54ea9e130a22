use roguelike_core::Color;
use roguelike_core::DrawCmd;
use roguelike_core::Entity;
use roguelike_core::GameState;
use roguelike_core::GlyphAtlas;
use roguelike_core::Rect;
use roguelike_core::Tile;
use roguelike_core::compose;
use roguelike_core::generate_map;

fn black() -> Color {
    Color { r: 0, g: 0, b: 0, a: 255 }
}

fn red() -> Color {
    Color { r: 255, g: 0, b: 0, a: 255 }
}

fn blue() -> Color {
    Color { r: 0, g: 0, b: 255, a: 255 }
}

#[test]
fn compose_places_sprites_at_offset_plus_scaled_position() {
    let atlas = GlyphAtlas::build(&vec!['#', '@'], 24, 24);
    let tiles = vec![Tile { x: 2, y: 3, glyph: '#', color: black() }];
    let entities = vec![Entity { x: 1, y: 1, glyph: '@', color: blue() }];
    let cmds = compose(&atlas, &tiles, &entities, 50, 150, 24);
    assert_eq!(cmds.len(), 2);
    assert_eq!(
        cmds[0],
        DrawCmd {
            x: 50 + 2 * 24,
            y: 150 + 3 * 24,
            src: Rect { x: 0, y: 0, w: 24, h: 24 },
            color: black(),
        }
    );
    assert_eq!(
        cmds[1],
        DrawCmd {
            x: 50 + 24,
            y: 150 + 24,
            src: Rect { x: 24, y: 0, w: 24, h: 24 },
            color: blue(),
        }
    );
}

#[test]
fn compose_draws_tiles_before_entities() {
    let atlas = GlyphAtlas::build(&vec!['#', '@'], 24, 24);
    let tiles = vec![
        Tile { x: 0, y: 0, glyph: '#', color: black() },
        Tile { x: 1, y: 0, glyph: '#', color: black() },
    ];
    let entities = vec![Entity { x: 0, y: 0, glyph: '@', color: blue() }];
    let cmds = compose(&atlas, &tiles, &entities, 0, 0, 24);
    assert_eq!(cmds.len(), 3);
    // The entity's draw comes last, layering it on top of the tiles.
    assert_eq!(cmds[2].color, blue());
    assert_eq!(cmds[0].color, black());
    assert_eq!(cmds[1].color, black());
}

#[test]
fn compose_twice_gives_identical_output() {
    let game = GameState::new();
    let first = game.draw_commands();
    let second = game.draw_commands();
    assert_eq!(first, second);
}

#[test]
fn missing_glyph_is_skipped_without_error() {
    // An atlas missing 'g': the two adversaries draw nothing; everything
    // else still draws.
    let atlas = GlyphAtlas::build(&vec!['#', '@', '.'], 24, 24);
    let game = GameState::new();
    let cmds = compose(&atlas, &game.tiles, &game.entities, 50, 150, 24);
    // All 300 tiles use '#' or '.', which the atlas still holds; of the 3
    // entities only the protagonist's '@' resolves.
    assert_eq!(cmds.len(), 301);
    let player = cmds[cmds.len() - 1];
    assert_eq!(player.color, blue());
    for cmd in &cmds {
        assert_ne!(cmd.color, red());
    }
}

#[test]
fn end_to_end_protagonist_lands_at_fixed_pixel() {
    let game = GameState::new();
    assert_eq!(game.tiles.len(), 20 * 15);
    assert_eq!(game.entities.len(), 3);
    assert_eq!(game.player_id, 2);
    let cmds = game.draw_commands();
    // Every tile glyph and entity glyph resolves: 300 + 3 draws.
    assert_eq!(cmds.len(), 303);
    let player = cmds[cmds.len() - 1];
    assert_eq!((player.x, player.y), (50 + 5 * 24, 150 + 3 * 24));
    assert_eq!((player.x, player.y), (170, 222));
    // '@' sits at strip index 1, so its sub-image starts 24 pixels in.
    assert_eq!(player.src, Rect { x: 24, y: 0, w: 24, h: 24 });
    assert_eq!(player.color, blue());
}

#[test]
fn empty_atlas_draws_nothing() {
    let atlas = GlyphAtlas::build(&Vec::new(), 24, 24);
    let tiles = generate_map(4, 4);
    let entities = vec![Entity { x: 1, y: 1, glyph: '@', color: blue() }];
    let cmds = compose(&atlas, &tiles, &entities, 0, 0, 24);
    assert_eq!(cmds.len(), 0);
}
