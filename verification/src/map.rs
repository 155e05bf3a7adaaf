use vstd::prelude::*;
use std::sync::Arc;
use crate::keyed_map::KeyedMap;
use crate::palettes::Parameter;
use crate::place::MapPlaces;
use crate::mapgen_import::{grid_cells, is_plain_id, spec_grid_cells};
use crate::properties::{MapProperties, TerrainProperty};
use crate::types::{CDDAIdentifier, DistributionInner, MapGenValue, ParameterIdentifier};

verus! {

/// The width and height of a map in cells.
pub const DEFAULT_MAP_WIDTH: u32 = 24;
pub const DEFAULT_MAP_HEIGHT: u32 = 24;

/// A cell of a map: the character that the mappings translate.
#[derive(Debug, Clone, Copy, PartialEq, Eq, Structural)]
pub struct Cell {
    pub character: char,
}

/// Whether a placed tile is whole, broken or open.
#[derive(Debug, Clone, Copy, PartialEq, Eq, Structural)]
pub enum TileState {
    Normal,
    Broken,
    Open,
}

/// A flag of a mapgen entry.
#[derive(Debug, Clone, Copy, PartialEq, Eq, Structural)]
pub enum MapDataFlag {
    EraseAllBeforePlacingTerrain,
    AllowTerrainUnderOtherData,
    Other,
}

/// The rotation of a map.
#[derive(Debug, Clone, Copy, PartialEq, Eq, Structural)]
pub enum MapDataRotation {
    Deg0,
    Deg90,
    Deg180,
    Deg270,
}

/// What the maps of one mapgen entry share: the fill terrain, the
/// predecessor, the parameters, the palettes, the flags and the mappings.
pub struct MapGenCommon {
    pub fill: Option<DistributionInner>,
    pub predecessor: Option<CDDAIdentifier>,
    pub parameters: KeyedMap<ParameterIdentifier, Parameter>,
    pub palettes: Vec<MapGenValue>,
    pub flags: Vec<MapDataFlag>,
    pub properties: MapProperties,
}

/// A map of the editor: its cells, its size and rotation, what it places,
/// and what it shares with the other maps of its mapgen entry.
pub struct MapGen {
    pub id: CDDAIdentifier,
    pub cells: KeyedMap<(u32, u32), Cell>,
    pub map_size: (u32, u32),
    pub rotation: MapDataRotation,
    pub place: MapPlaces,
    pub common: Arc<MapGenCommon>,
}

/// The maps of a mapgen entry by their position in the grid of maps.
pub struct MapDataCollection {
    pub maps: KeyedMap<(u32, u32), MapGen>,
}

/// A position of a map of `size` turned by `rotation`: a quarter turn takes
/// `(x, y)` to `(h - 1 - y, x)`, a half turn to `(w - 1 - x, h - 1 - y)`,
/// three quarters to `(y, w - 1 - x)`.
pub open spec fn spec_transform(rotation: MapDataRotation, size: (u32, u32), p: (u32, u32)) -> (int, int) {
    let (w, h) = (size.0 as int, size.1 as int);
    match rotation {
        MapDataRotation::Deg0 => (p.0 as int, p.1 as int),
        MapDataRotation::Deg90 => (h - 1 - p.1, p.0 as int),
        MapDataRotation::Deg180 => (w - 1 - p.0, h - 1 - p.1),
        MapDataRotation::Deg270 => (p.1 as int, w - 1 - p.0),
    }
}

/// Whether turning the position stays within unsigned numbers: the
/// coordinates that are mirrored must lie inside the map.
pub open spec fn transform_defined(rotation: MapDataRotation, size: (u32, u32), p: (u32, u32)) -> bool {
    match rotation {
        MapDataRotation::Deg0 => true,
        MapDataRotation::Deg90 => p.1 < size.1,
        MapDataRotation::Deg180 => p.0 < size.0 && p.1 < size.1,
        MapDataRotation::Deg270 => p.0 < size.0,
    }
}

impl MapGen {
    /// The position turned by the map's rotation (see `spec_transform`),
    /// as nested maps, vehicles and other placed tiles are turned.
    pub fn transform_coordinates(&self, position: (u32, u32)) -> (r: (u32, u32))
        requires
            transform_defined(self.rotation, self.map_size, position),
        ensures
            (r.0 as int, r.1 as int) == spec_transform(self.rotation, self.map_size, position),
    {
        let (map_width, map_height) = self.map_size;
        match self.rotation {
            MapDataRotation::Deg0 => position,
            MapDataRotation::Deg90 => (map_height - 1 - position.1, position.0),
            MapDataRotation::Deg180 => (map_width - 1 - position.0, map_height - 1 - position.1),
            MapDataRotation::Deg270 => (position.1, map_width - 1 - position.0),
        }
    }
}

/// A half turn done twice gives the position back.
pub proof fn law_half_turn_twice(size: (u32, u32), p: (u32, u32))
    requires
        p.0 < size.0,
        p.1 < size.1,
    ensures
        ({
            let q = spec_transform(MapDataRotation::Deg180, size, p);
            spec_transform(MapDataRotation::Deg180, size, (q.0 as u32, q.1 as u32)) == (p.0 as int, p.1 as int)
        }),
{
}

/// On a square map, a quarter turn followed by a three-quarter turn gives
/// the position back.
pub proof fn law_quarter_turns_cancel(size: (u32, u32), p: (u32, u32))
    requires
        size.0 == size.1,
        p.0 < size.0,
        p.1 < size.1,
    ensures
        ({
            let q = spec_transform(MapDataRotation::Deg90, size, p);
            spec_transform(MapDataRotation::Deg270, size, (q.0 as u32, q.1 as u32)) == (p.0 as int, p.1 as int)
        }),
{
}

/// On a square map, every turn keeps a position of the map inside the map.
pub proof fn law_turn_stays_inside(rotation: MapDataRotation, size: (u32, u32), p: (u32, u32))
    requires
        size.0 == size.1,
        p.0 < size.0,
        p.1 < size.1,
    ensures
        ({
            let q = spec_transform(rotation, size, p);
            0 <= q.0 < size.0 && 0 <= q.1 < size.1
        }),
{
}

/// A new map of 24 by 24 empty cells, the character `g` mapped to grass
/// terrain, and nothing else; its fill terrain aside.
pub open spec fn is_default_map(r: MapGen) -> bool {
    &&& r.id@ == "map_data_default"@
    &&& r.cells.map() == spec_grid_cells(None, 24, 24)
    &&& r.map_size == (24u32, 24u32)
    &&& r.rotation == MapDataRotation::Deg0
    &&& r.common.predecessor is None
    &&& r.common.parameters.map().dom().is_empty()
    &&& r.common.palettes@.len() == 0
    &&& r.common.flags@.len() == 0
    &&& r.common.properties.terrain.map().dom() == Set::empty().insert('g')
    &&& is_plain_id(r.common.properties.terrain.map()['g'].mapgen_value, "t_grass"@)
    &&& r.common.properties.furniture.map().dom().is_empty()
    &&& r.common.properties.monsters.map().dom().is_empty()
    &&& r.common.properties.nested.map().dom().is_empty()
    &&& r.common.properties.field.map().dom().is_empty()
    &&& r.common.properties.item_groups.map().dom().is_empty()
    &&& r.common.properties.computer.map().dom().is_empty()
    &&& r.common.properties.toilet.map().dom().is_empty()
    &&& r.common.properties.sign.map().dom().is_empty()
    &&& r.common.properties.gaspump.map().dom().is_empty()
    &&& r.common.properties.trap.map().dom().is_empty()
    &&& r.common.properties.vehicle.map().dom().is_empty()
    &&& r.common.properties.corpse.map().dom().is_empty()
    &&& r.common.properties.monster.map().dom().is_empty()
    &&& r.place.furniture@.len() == 0 && r.place.terrain@.len() == 0 && r.place.nested@.len() == 0
}

impl MapGen {
    /// A new map (see `is_default_map`) filled with the terrain `fill`.
    pub fn default_filled(fill: CDDAIdentifier) -> (r: MapGen)
        ensures
            is_default_map(r),
            r.common.fill == Some(DistributionInner::Normal(fill)),
    {
        let cells = grid_cells(&None, 24, 24);
        let mut properties = MapProperties::new();
        properties.terrain.insert(
            'g',
            TerrainProperty { mapgen_value: MapGenValue::String(CDDAIdentifier::from_str("t_grass")) },
        );
        assert(properties.terrain.map().dom() =~= Set::empty().insert('g'));
        let common = MapGenCommon {
            fill: Some(DistributionInner::Normal(fill)),
            predecessor: None,
            parameters: KeyedMap::new(),
            palettes: Vec::new(),
            flags: Vec::new(),
            properties,
        };
        MapGen {
            id: CDDAIdentifier::from_str("map_data_default"),
            cells,
            map_size: (24, 24),
            rotation: MapDataRotation::Deg0,
            place: MapPlaces::new(),
            common: Arc::new(common),
        }
    }

    /// A new map (see `is_default_map`) filled with grass.
    pub fn default() -> (r: MapGen)
        ensures
            is_default_map(r),
            r.common.fill matches Some(DistributionInner::Normal(g)) && g@ == "t_grass"@,
    {
        MapGen::default_filled(CDDAIdentifier::from_str("t_grass"))
    }
}

/// The placements of two maps are the same, kind by kind.
pub open spec fn same_places(a: MapPlaces, b: MapPlaces) -> bool {
    a.furniture@ == b.furniture@ && a.toilets@ == b.toilets@ && a.terrain@ == b.terrain@
        && a.computers@ == b.computers@ && a.signs@ == b.signs@ && a.traps@ == b.traps@
        && a.gaspumps@ == b.gaspumps@ && a.monsters@ == b.monsters@ && a.monster@ == b.monster@
        && a.nested@ == b.nested@ && a.fields@ == b.fields@ && a.items@ == b.items@
        && a.vehicles@ == b.vehicles@ && a.corpses@ == b.corpses@
}

/// Two maps hold the same id, cells, size, rotation, placements and shared
/// data.
pub open spec fn same_map(a: MapGen, b: MapGen) -> bool {
    &&& a.id == b.id
    &&& a.cells.map() == b.cells.map()
    &&& a.map_size == b.map_size
    &&& a.rotation == b.rotation
    &&& same_places(a.place, b.place)
    &&& a.common == b.common
}

impl MapGen {
    /// A copy of the map.
    pub fn duplicate(&self) -> (r: MapGen)
        ensures
            same_map(r, *self),
    {
        MapGen {
            id: self.id.clone(),
            cells: self.cells.copied(),
            map_size: self.map_size,
            rotation: self.rotation,
            place: self.place.duplicate(),
            common: self.common.clone(),
        }
    }
}

} // verus!
