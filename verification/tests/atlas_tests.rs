use roguelike_core::GlyphAtlas;
use roguelike_core::Rect;

#[test]
fn atlas_has_one_key_per_source_char() {
    let source = vec!['#', '@', 'g', '.'];
    let atlas = GlyphAtlas::build(&source, 24, 24);
    assert_eq!(atlas.len(), 4);
    for glyph in ['#', '@', 'g', '.'] {
        assert!(atlas.lookup(glyph).is_some());
    }
    assert!(atlas.lookup('z').is_none());
    assert!(atlas.lookup(' ').is_none());
}

#[test]
fn atlas_slices_strip_at_cell_offsets() {
    let source = vec!['#', '@', 'g', '.'];
    let atlas = GlyphAtlas::build(&source, 24, 24);
    for (i, glyph) in source.iter().enumerate() {
        let region = atlas.lookup(*glyph).unwrap();
        assert_eq!(region, Rect { x: i as i32 * 24, y: 0, w: 24, h: 24 });
        assert_eq!((region.w, region.h), (24, 24));
    }
}

#[test]
fn atlas_respects_cell_size() {
    let source = vec!['a', 'b'];
    let atlas = GlyphAtlas::build(&source, 10, 16);
    assert_eq!(atlas.lookup('a').unwrap(), Rect { x: 0, y: 0, w: 10, h: 16 });
    assert_eq!(atlas.lookup('b').unwrap(), Rect { x: 10, y: 0, w: 10, h: 16 });
}

#[test]
fn empty_source_gives_empty_atlas() {
    let source: Vec<char> = Vec::new();
    let atlas = GlyphAtlas::build(&source, 24, 24);
    assert_eq!(atlas.len(), 0);
    assert!(atlas.lookup('#').is_none());
}
