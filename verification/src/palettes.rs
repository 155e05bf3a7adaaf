use vstd::prelude::*;
use crate::keyed_map::KeyedMap;
use crate::map_data::{weighted_list_matches, MapGenMonsters};
use crate::mapgen_import::{furniture_property, monsters_property, same_keys_and, terrain_property};
use crate::properties::{FurnitureProperty, MapProperties, MonstersProperty, TerrainProperty};
use crate::types::{CDDAIdentifier, Comment, Distribution, MapGenValue, MeabyVec, MeabyWeighted, ParameterIdentifier};

verus! {

/// The kinds of game data entries that the editor knows by name.
#[derive(Debug, Clone, Copy, PartialEq, Eq, Structural)]
pub enum KnownCataVariant {
    OvermapSpecialId,
    Palette,
    RegionSettings,
    Mapgen,
    ConnectGroup,
    MonsterGroup,
    Other,
}

/// The scope over which a mapgen parameter keeps its value.
#[derive(Debug, Clone, Copy, PartialEq, Eq, Structural)]
pub enum ParameterScope {
    OvermapSpecial,
    Nest,
    Omt,
}

/// A mapgen parameter: its kind and the distribution of its default value.
pub struct Parameter {
    pub ty: KnownCataVariant,
    pub comment: Comment,
    pub scope: Option<ParameterScope>,
    pub default: Distribution,
}


/// A palette as the game data writes it: the mappings it gives characters,
/// its parameters and the palettes it draws on.
pub struct CDDAPaletteIntermediate {
    pub id: CDDAIdentifier,
    pub source: Option<String>,
    pub comment: Comment,
    pub parameters: KeyedMap<ParameterIdentifier, Parameter>,
    pub palettes: Vec<MapGenValue>,
    pub terrain: KeyedMap<char, MapGenValue>,
    pub furniture: KeyedMap<char, MapGenValue>,
    pub monster: KeyedMap<char, MeabyVec<MeabyWeighted<MapGenMonsters>>>,
}

/// A palette: mappings from characters by kind, parameters, and the
/// palettes it draws on.
pub struct CDDAPalette {
    pub id: CDDAIdentifier,
    pub source: Option<String>,
    pub properties: MapProperties,
    pub comment: Comment,
    pub parameters: KeyedMap<ParameterIdentifier, Parameter>,
    pub palettes: Vec<MapGenValue>,
}

/// The palette `r` is made of the written palette `p` (see `into_palette`).
pub open spec fn palette_made_of(r: CDDAPalette, p: CDDAPaletteIntermediate) -> bool {
    &&& r.id == p.id
    &&& r.source == p.source
    &&& r.comment == p.comment
    &&& r.parameters == p.parameters
    &&& r.palettes == p.palettes
    &&& same_keys_and(p.terrain, r.properties.terrain, |a: MapGenValue, b: TerrainProperty| b.mapgen_value == a)
    &&& same_keys_and(p.furniture, r.properties.furniture, |a: MapGenValue, b: FurnitureProperty| b.mapgen_value == a)
    &&& same_keys_and(
        p.monster,
        r.properties.monsters,
        |a: MeabyVec<MeabyWeighted<MapGenMonsters>>, b: MonstersProperty| weighted_list_matches(b.monster@, a.values()),
    )
    &&& r.properties.monster.map().dom().is_empty()
    &&& r.properties.nested.map().dom().is_empty()
    &&& r.properties.field.map().dom().is_empty()
    &&& r.properties.item_groups.map().dom().is_empty()
    &&& r.properties.computer.map().dom().is_empty()
    &&& r.properties.toilet.map().dom().is_empty()
    &&& r.properties.sign.map().dom().is_empty()
    &&& r.properties.gaspump.map().dom().is_empty()
    &&& r.properties.trap.map().dom().is_empty()
    &&& r.properties.vehicle.map().dom().is_empty()
    &&& r.properties.corpse.map().dom().is_empty()
}

impl CDDAPaletteIntermediate {
    /// The palette: terrain and furniture mappings keep their values,
    /// monster mappings become weighted lists of monsters (an unweighted
    /// entry weighs one); the palette gives no other kind of mapping.
    pub fn into_palette(self) -> (r: CDDAPalette)
        ensures
            palette_made_of(r, self),
    {
        let CDDAPaletteIntermediate { id, source, comment, parameters, palettes, terrain, furniture, monster } = self;
        let mut properties = MapProperties::new();
        properties.terrain = terrain.map_values(terrain_property);
        properties.furniture = furniture.map_values(furniture_property);
        properties.monsters = monster.map_values(monsters_property);
        CDDAPalette { id, source, properties, comment, parameters, palettes }
    }
}

} // verus!
