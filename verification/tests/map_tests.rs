use roguelike_core::Color;
use roguelike_core::Tile;
use roguelike_core::generate_map;

fn black() -> Color {
    Color { r: 0, g: 0, b: 0, a: 255 }
}

#[test]
fn map_has_width_times_height_tiles() {
    let map = generate_map(20, 15);
    assert_eq!(map.len(), 300);
    let small = generate_map(2, 2);
    assert_eq!(small.len(), 4);
    let tall = generate_map(3, 7);
    assert_eq!(tall.len(), 21);
}

#[test]
fn map_wall_iff_outer_ring() {
    let width: usize = 20;
    let height: usize = 15;
    let map = generate_map(width, height);
    for x in 0..width {
        for y in 0..height {
            let tile = map[x * height + y];
            assert_eq!(tile.x, x as i32);
            assert_eq!(tile.y, y as i32);
            let on_ring = x == 0 || x == width - 1 || y == 0 || y == height - 1;
            if on_ring {
                assert_eq!(tile.glyph, '#');
            } else {
                assert_eq!(tile.glyph, '.');
            }
            assert_eq!(tile.color, black());
        }
    }
}

#[test]
fn map_is_column_major() {
    let map = generate_map(4, 3);
    // The first column (x = 0) comes first, cell by cell down the column.
    assert_eq!((map[0].x, map[0].y), (0, 0));
    assert_eq!((map[1].x, map[1].y), (0, 1));
    assert_eq!((map[2].x, map[2].y), (0, 2));
    assert_eq!((map[3].x, map[3].y), (1, 0));
}

#[test]
fn smallest_map_is_all_walls() {
    let map = generate_map(2, 2);
    for tile in &map {
        assert_eq!(tile.glyph, '#');
    }
}

#[test]
fn interior_exists_from_three_by_three() {
    let map = generate_map(3, 3);
    let mut floors = 0;
    for tile in &map {
        if tile.glyph == '.' {
            floors += 1;
            assert_eq!((tile.x, tile.y), (1, 1));
        }
    }
    assert_eq!(floors, 1);
}

#[test]
fn tiles_compare_by_fields() {
    let a = Tile { x: 1, y: 2, glyph: '#', color: black() };
    let b = Tile { x: 1, y: 2, glyph: '#', color: black() };
    let c = Tile { x: 1, y: 2, glyph: '.', color: black() };
    assert_eq!(a, b);
    assert_ne!(a, c);
}
