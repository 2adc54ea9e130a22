use vstd::prelude::*;

use crate::geom::Rect;

verus! {

/// One atlas slot: a glyph and the sub-region of the rasterized strip that
/// depicts it.
#[derive(Clone, Copy, Debug, PartialEq, Eq, Structural)]
pub struct AtlasEntry {
    pub glyph: char,
    pub rect: Rect,
}

/// No two entries share a glyph.
pub open spec fn distinct_glyphs(entries: Seq<AtlasEntry>) -> bool {
    forall|i: int, j: int|
        0 <= i < j < entries.len() ==> entries[i].glyph != entries[j].glyph
}

/// The mapping that a sequence of entries denotes: each glyph bound to its
/// sub-region, later entries overriding earlier ones.
pub open spec fn entries_map(entries: Seq<AtlasEntry>) -> Map<char, Rect>
    decreases entries.len(),
{
    if entries.len() == 0 {
        Map::empty()
    } else {
        entries_map(entries.drop_last()).insert(entries.last().glyph, entries.last().rect)
    }
}

/// With distinct glyphs, the denoted mapping binds exactly the entries'
/// glyphs, each to that entry's sub-region, and has one key per entry.
pub proof fn lemma_entries_map(entries: Seq<AtlasEntry>)
    requires
        distinct_glyphs(entries),
    ensures
        forall|c: char|
            entries_map(entries).dom().contains(c) <==> exists|i: int|
                0 <= i < entries.len() && #[trigger] entries[i].glyph == c,
        forall|i: int|
            0 <= i < entries.len() ==> entries_map(entries)[#[trigger] entries[i].glyph]
                == entries[i].rect,
        entries_map(entries).dom().finite(),
        entries_map(entries).dom().len() == entries.len(),
    decreases entries.len(),
{
    if entries.len() > 0 {
        let prefix = entries.drop_last();
        let last = entries.last();
        assert(distinct_glyphs(prefix));
        lemma_entries_map(prefix);
        assert forall|i: int| 0 <= i < prefix.len() implies (#[trigger] prefix[i].glyph)
            != last.glyph by {
            assert(prefix[i] == entries[i]);
            assert(entries[i].glyph != entries[entries.len() - 1].glyph);
        }
        assert(!entries_map(prefix).dom().contains(last.glyph)) by {
            if entries_map(prefix).dom().contains(last.glyph) {
                let i = choose|i: int|
                    0 <= i < prefix.len() && #[trigger] prefix[i].glyph == last.glyph;
                assert(false);
            }
        }
        assert forall|c: char| entries_map(entries).dom().contains(c) implies exists|i: int|
            0 <= i < entries.len() && #[trigger] entries[i].glyph == c by {
            if c == last.glyph {
                assert(entries[entries.len() - 1].glyph == c);
            } else {
                assert(entries_map(prefix).dom().contains(c));
                let i = choose|i: int|
                    0 <= i < prefix.len() && #[trigger] prefix[i].glyph == c;
                assert(entries[i].glyph == c);
            }
        }
        assert forall|c: char|
            (exists|i: int| 0 <= i < entries.len() && #[trigger] entries[i].glyph == c)
            implies entries_map(entries).dom().contains(c) by {
            let i = choose|i: int| 0 <= i < entries.len() && #[trigger] entries[i].glyph == c;
            if i < entries.len() - 1 {
                assert(prefix[i].glyph == c);
                assert(entries_map(prefix).dom().contains(c));
            }
        }
        assert forall|i: int| 0 <= i < entries.len() implies entries_map(entries)[(
        #[trigger] entries[i].glyph)] == entries[i].rect by {
            if i < entries.len() - 1 {
                assert(prefix[i] == entries[i]);
                assert(entries_map(prefix)[prefix[i].glyph] == prefix[i].rect);
                assert(prefix[i].glyph != last.glyph);
            }
        }
        assert(entries_map(entries).dom() =~= entries_map(prefix).dom().insert(last.glyph));
        assert(entries_map(entries).dom().len() == entries_map(prefix).dom().len() + 1);
    }
}

/// The atlas: a mapping from glyph character to the rectangular sub-region
/// of the shared source strip that depicts it. Keys are unique; insertion
/// order carries no meaning.
pub struct GlyphAtlas {
    entries: Vec<AtlasEntry>,
}

impl View for GlyphAtlas {
    type V = Map<char, Rect>;

    closed spec fn view(&self) -> Map<char, Rect> {
        entries_map(self.entries@)
    }
}

/// Appends one slot, leaving the earlier ones in place.
fn push_entry(entries: &mut Vec<AtlasEntry>, entry: AtlasEntry)
    ensures
        final(entries)@.len() == old(entries)@.len() + 1,
        final(entries)@[old(entries)@.len() as int] == entry,
        forall|i: int|
            0 <= i < old(entries)@.len() ==> final(entries)@[i] == old(entries)@[i],
{
    entries.push(entry);
}

impl GlyphAtlas {
    /// Well-formed: no glyph occurs twice among the slots.
    pub closed spec fn wf(&self) -> bool {
        distinct_glyphs(self.entries@)
    }

    /// Slices the rasterized strip for `source` into one atlas slot per
    /// character: the character at index `i` is bound to the cell-sized
    /// rectangle at horizontal offset `i * cell_w` along the strip's top
    /// edge.
    ///
    /// `source` must hold no duplicate characters; each one becomes exactly
    /// one key of the result.
    pub fn build(source: &Vec<char>, cell_w: i32, cell_h: i32) -> (atlas: GlyphAtlas)
        requires
            0 < cell_w,
            0 < cell_h,
            source@.len() * cell_w <= i32::MAX,
            forall|i: int, j: int|
                0 <= i < j < source@.len() ==> source@[i] != source@[j],
        ensures
            atlas.wf(),
            forall|c: char| atlas@.dom().contains(c) <==> source@.contains(c),
            atlas@.dom().finite(),
            atlas@.dom().len() == source@.len(),
            forall|i: int|
                0 <= i < source@.len() ==> atlas@[#[trigger] source@[i]] == (Rect {
                    x: (i * cell_w) as i32,
                    y: 0,
                    w: cell_w,
                    h: cell_h,
                }),
    {
        let mut entries: Vec<AtlasEntry> = Vec::new();
        let mut index: usize = 0;
        while index < source.len()
            invariant
                0 < cell_w,
                0 < cell_h,
                source@.len() * cell_w <= i32::MAX,
                forall|i: int, j: int|
                    0 <= i < j < source@.len() ==> source@[i] != source@[j],
                index <= source@.len(),
                entries@.len() == index,
                forall|i: int|
                    0 <= i < index ==> (#[trigger] entries@[i]) == (AtlasEntry {
                        glyph: source@[i],
                        rect: Rect { x: (i * cell_w) as i32, y: 0, w: cell_w, h: cell_h },
                    }),
            decreases source@.len() - index,
        {
            proof {
                assert(index * cell_w + cell_w <= source@.len() * cell_w) by (nonlinear_arith)
                    requires
                        0 < cell_w,
                        index < source@.len(),
                ;
                assert(0 <= index * cell_w) by (nonlinear_arith)
                    requires
                        0 < cell_w,
                        0 <= index,
                ;
                assert(index <= index * cell_w) by (nonlinear_arith)
                    requires
                        0 < cell_w,
                        0 <= index,
                ;
            }
            let x = (index as i32) * cell_w;
            let glyph = source[index];
            push_entry(&mut entries, AtlasEntry {
                glyph,
                rect: Rect { x, y: 0, w: cell_w, h: cell_h },
            });
            index = index + 1;
        }
        let atlas = GlyphAtlas { entries };
        proof {
            assert(distinct_glyphs(atlas.entries@));
            lemma_entries_map(atlas.entries@);
            assert forall|c: char| atlas@.dom().contains(c) implies source@.contains(c) by {
                let i = choose|i: int|
                    0 <= i < atlas.entries@.len() && #[trigger] atlas.entries@[i].glyph == c;
                assert(source@[i] == c);
            }
            assert forall|c: char| source@.contains(c) implies atlas@.dom().contains(c) by {
                let i = choose|i: int| 0 <= i < source@.len() && source@[i] == c;
                assert(atlas.entries@[i].glyph == c);
            }
            assert forall|i: int| 0 <= i < source@.len() implies atlas@[#[trigger] source@[i]]
                == (Rect { x: (i * cell_w) as i32, y: 0, w: cell_w, h: cell_h }) by {
                assert(atlas.entries@[i].glyph == source@[i]);
                assert(entries_map(atlas.entries@)[atlas.entries@[i].glyph]
                    == atlas.entries@[i].rect);
            }
        }
        atlas
    }

    /// The number of glyphs the atlas holds.
    pub fn len(&self) -> (n: usize)
        requires
            self.wf(),
        ensures
            n == self@.dom().len(),
    {
        proof {
            lemma_entries_map(self.entries@);
        }
        self.entries.len()
    }

    /// Resolves a glyph: its sub-region if the atlas holds the glyph,
    /// `None` otherwise.
    pub fn lookup(&self, glyph: char) -> (r: Option<Rect>)
        requires
            self.wf(),
        ensures
            r == (if self@.dom().contains(glyph) {
                Some(self@[glyph])
            } else {
                None::<Rect>
            }),
    {
        let mut index: usize = 0;
        while index < self.entries.len()
            invariant
                self.wf(),
                index <= self.entries@.len(),
                forall|i: int| 0 <= i < index ==> (#[trigger] self.entries@[i].glyph) != glyph,
            decreases self.entries@.len() - index,
        {
            let entry = self.entries[index];
            if entry.glyph == glyph {
                proof {
                    lemma_entries_map(self.entries@);
                }
                return Some(entry.rect);
            }
            index = index + 1;
        }
        proof {
            lemma_entries_map(self.entries@);
        }
        None
    }
}

} // verus!
