use roguelike_core::Color;
use roguelike_core::Entity;
use roguelike_core::EntityCatalog;
use roguelike_core::generate_entities;

fn red() -> Color {
    Color { r: 255, g: 0, b: 0, a: 255 }
}

fn blue() -> Color {
    Color { r: 0, g: 0, b: 255, a: 255 }
}

#[test]
fn adversaries_are_fixed() {
    let entities = generate_entities();
    assert_eq!(entities.len(), 2);
    assert_eq!(entities[0], Entity { x: 9, y: 6, glyph: 'g', color: red() });
    assert_eq!(entities[1], Entity { x: 2, y: 4, glyph: 'g', color: red() });
}

#[test]
fn catalog_appends_protagonist_last() {
    let catalog = EntityCatalog::generate();
    assert_eq!(catalog.entities.len(), 3);
    assert_eq!(catalog.entities[0], Entity { x: 9, y: 6, glyph: 'g', color: red() });
    assert_eq!(catalog.entities[1], Entity { x: 2, y: 4, glyph: 'g', color: red() });
    assert_eq!(catalog.entities[2], Entity { x: 5, y: 3, glyph: '@', color: blue() });
    assert_eq!(catalog.player_id, catalog.entities.len() - 1);
    assert_eq!(catalog.entities[catalog.player_id].glyph, '@');
}

#[test]
fn catalog_is_deterministic() {
    let first = EntityCatalog::generate();
    let second = EntityCatalog::generate();
    assert_eq!(first.entities, second.entities);
    assert_eq!(first.player_id, second.player_id);
}

#[test]
fn protagonist_differs_from_adversaries() {
    let catalog = EntityCatalog::generate();
    let player = catalog.entities[catalog.player_id];
    for (i, entity) in catalog.entities.iter().enumerate() {
        if i != catalog.player_id {
            assert_ne!(entity.glyph, player.glyph);
            assert_ne!(entity.color, player.color);
        }
    }
}
