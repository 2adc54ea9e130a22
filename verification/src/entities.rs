use vstd::prelude::*;

use crate::color::Color;

verus! {

/// Glyph shared by the hostile adversaries.
pub const ADVERSARY_GLYPH: char = 'g';

/// Glyph of the protagonist.
pub const PROTAGONIST_GLYPH: char = '@';

/// A grid-positioned actor: its grid coordinates, the glyph drawn for it,
/// and its tint.
#[derive(Clone, Copy, Debug, PartialEq, Eq, Structural)]
pub struct Entity {
    pub x: i32,
    pub y: i32,
    pub glyph: char,
    pub color: Color,
}

/// The two fixed adversaries: red-tinted hostiles at (9, 6) and (2, 4).
pub open spec fn adversary_entities() -> Seq<Entity> {
    seq![
        Entity { x: 9, y: 6, glyph: ADVERSARY_GLYPH, color: Color { r: 255, g: 0, b: 0, a: 255 } },
        Entity { x: 2, y: 4, glyph: ADVERSARY_GLYPH, color: Color { r: 255, g: 0, b: 0, a: 255 } },
    ]
}

/// The protagonist: a blue-tinted actor at (5, 3).
pub open spec fn protagonist_entity() -> Entity {
    Entity { x: 5, y: 3, glyph: PROTAGONIST_GLYPH, color: Color { r: 0, g: 0, b: 255, a: 255 } }
}

/// The full fixed cast, in draw order: the adversaries first, the
/// protagonist appended last.
pub open spec fn catalog_entities() -> Seq<Entity> {
    adversary_entities().push(protagonist_entity())
}

/// Produces the fixed adversary list: the same two red hostiles every call.
pub fn generate_entities() -> (entities: Vec<Entity>)
    ensures
        entities@ == adversary_entities(),
{
    let mut entities: Vec<Entity> = Vec::new();
    entities.push(Entity { x: 9, y: 6, glyph: ADVERSARY_GLYPH, color: Color::red() });
    entities.push(Entity { x: 2, y: 4, glyph: ADVERSARY_GLYPH, color: Color::red() });
    proof {
        assert(entities@ =~= adversary_entities());
    }
    entities
}

/// Law: the cast holds exactly one protagonist — it comes last, and every
/// other member differs from it in both glyph and tint.
pub proof fn lemma_protagonist_unique()
    ensures
        catalog_entities().last() == protagonist_entity(),
        forall|i: int|
            0 <= i < catalog_entities().len() - 1 ==> (#[trigger] catalog_entities()[i]).glyph
                != protagonist_entity().glyph && catalog_entities()[i].color
                != protagonist_entity().color,
{
    assert forall|i: int| 0 <= i < catalog_entities().len() - 1 implies (
    #[trigger] catalog_entities()[i]).glyph != protagonist_entity().glyph
        && catalog_entities()[i].color != protagonist_entity().color by {
        assert(catalog_entities()[i] == adversary_entities()[i]);
    }
}

/// The fixed cast of actors together with the index of the protagonist
/// within it.
pub struct EntityCatalog {
    pub entities: Vec<Entity>,
    pub player_id: usize,
}

impl EntityCatalog {
    /// Produces the fixed cast: the two adversaries followed by one appended
    /// protagonist, whose position in the sequence is recorded as
    /// `player_id` (always the last index).
    pub fn generate() -> (catalog: EntityCatalog)
        ensures
            catalog.entities@ == catalog_entities(),
            catalog.player_id == catalog.entities@.len() - 1,
            catalog.entities@[catalog.player_id as int] == protagonist_entity(),
    {
        let mut entities = generate_entities();
        let player_id = entities.len();
        entities.push(Entity { x: 5, y: 3, glyph: PROTAGONIST_GLYPH, color: Color::blue() });
        proof {
            assert(entities@ =~= catalog_entities());
        }
        EntityCatalog { entities, player_id }
    }
}

} // verus!
