use vstd::prelude::*;
use indexmap::IndexMap;
use comfy_bounded_ints::types::Bound_u32;
use crate::cdda_json::TileLayer;
use crate::keyed_map::{KeyedMap, MapKey};
use crate::map::{MapDataRotation, MapGen, TileState};
use crate::mapped_id::{MappedCDDAId, TilesheetCDDAId};
use crate::om_terrain::NeighborDirection;
use crate::sprite_picker::AdjacentTiles;
use crate::tileset::Rotation;
use crate::types::{
    CDDAIdentifier, ParameterIdentifier, MAX_MAPGEN_HEIGHT, MAX_MAPGEN_WIDTH, MIN_MAPGEN_HEIGHT, MIN_MAPGEN_WIDTH,
};

verus! {

/// `comfy_bounded_ints::types::Bound_u32::<MIN, MAX>::new` followed by
/// `get`: the value clamped into `MIN..=MAX` (the crate's `new` raises a
/// value below `MIN` to `MIN` and lowers one above `MAX` to `MAX`).
#[verifier::external_body]
fn bounded_u32<const MIN: u32, const MAX: u32>(value: u32) -> (r: u32)
    requires
        MIN <= MAX,
    ensures
        r == if value < MIN {
            MIN
        } else if value > MAX {
            MAX
        } else {
            value
        },
{
    Bound_u32::<MIN, MAX>::new(value).get()
}

/// The position of a cell in a map.
#[derive(Debug, Clone, Copy)]
pub struct MapgenCellCoordinates(pub (u32, u32));

impl MapKey for MapgenCellCoordinates {
    type Key = (u32, u32);

    open spec fn key(&self) -> (u32, u32) {
        self.0
    }

    fn same_key(&self, other: &Self) -> (r: bool) {
        self.0.0 == other.0.0 && self.0.1 == other.0.1
    }
}

pub open spec fn clamp_cell(v: u32) -> u32 {
    if v > 24 {
        24
    } else {
        v
    }
}

impl MapgenCellCoordinates {
    /// The cell position of a vector, each coordinate clamped into `0..=24`.
    pub fn from(value: (u32, u32)) -> (r: MapgenCellCoordinates)
        ensures
            r.0 == (clamp_cell(value.0), clamp_cell(value.1)),
    {
        let x = bounded_u32::<MIN_MAPGEN_WIDTH, MAX_MAPGEN_WIDTH>(value.0);
        let y = bounded_u32::<MIN_MAPGEN_HEIGHT, MAX_MAPGEN_HEIGHT>(value.1);
        MapgenCellCoordinates((x, y))
    }

    /// The sum of two positions, coordinate by coordinate (not clamped).
    pub fn add(self, rhs: MapgenCellCoordinates) -> (r: MapgenCellCoordinates)
        requires
            self.0.0 + rhs.0.0 <= u32::MAX,
            self.0.1 + rhs.0.1 <= u32::MAX,
        ensures
            r.0 == ((self.0.0 + rhs.0.0) as u32, (self.0.1 + rhs.0.1) as u32),
    {
        MapgenCellCoordinates((self.0.0 + rhs.0.0, self.0.1 + rhs.0.1))
    }

    pub fn uvec(self) -> (r: (u32, u32))
        ensures
            r == self.0,
    {
        self.0
    }
}

/// What a cell of an instantiated map holds on each layer.
pub struct InstantiatedTile {
    pub terrain: Option<MappedCDDAId>,
    pub furniture: Option<MappedCDDAId>,
    pub monster: Option<MappedCDDAId>,
    pub field: Option<MappedCDDAId>,
}

/// `base` with each layer that `over` has taken from `over`.
pub open spec fn spec_override_none(base: InstantiatedTile, over: InstantiatedTile) -> InstantiatedTile {
    InstantiatedTile {
        terrain: if over.terrain is Some {
            over.terrain
        } else {
            base.terrain
        },
        furniture: if over.furniture is Some {
            over.furniture
        } else {
            base.furniture
        },
        monster: if over.monster is Some {
            over.monster
        } else {
            base.monster
        },
        field: if over.field is Some {
            over.field
        } else {
            base.field
        },
    }
}

pub open spec fn empty_tile() -> InstantiatedTile {
    InstantiatedTile { terrain: None, furniture: None, monster: None, field: None }
}

impl InstantiatedTile {
    /// A tile with nothing on any layer.
    pub fn default() -> (r: InstantiatedTile)
        ensures
            r == empty_tile(),
    {
        InstantiatedTile { terrain: None, furniture: None, monster: None, field: None }
    }

    /// Takes each layer that `other` has; keeps the others.
    pub fn override_none(&mut self, other: InstantiatedTile)
        ensures
            *final(self) == spec_override_none(*old(self), other),
    {
        if other.terrain.is_some() {
            self.terrain = other.terrain;
        }
        if other.furniture.is_some() {
            self.furniture = other.furniture;
        }
        if other.monster.is_some() {
            self.monster = other.monster;
        }
        if other.field.is_some() {
            self.field = other.field;
        }
    }
}

/// Overriding with a tile and then with a tile that has no layers gives
/// the same tile: an empty tile overrides nothing.
pub proof fn law_override_with_empty(t: InstantiatedTile)
    ensures
        spec_override_none(t, empty_tile()) == t,
{
}

/// Overriding twice with the same tile is overriding once.
pub proof fn law_override_idempotent(t: InstantiatedTile, o: InstantiatedTile)
    ensures
        spec_override_none(spec_override_none(t, o), o) == spec_override_none(t, o),
{
}

/// What an instantiated map holds of its parameters: whether they are
/// calculated yet.
pub trait CalculatedParametersMarker {}

/// The marker of an instantiated map whose parameters are not calculated.
pub struct ParametersNotCalculated;

impl CalculatedParametersMarker for ParametersNotCalculated {}

/// The calculated parameters of an instantiated map.
pub struct ParametersCalculated(pub IndexMap<ParameterIdentifier, CDDAIdentifier>);

impl CalculatedParametersMarker for ParametersCalculated {}

/// A map with its tiles placed.
pub struct InstantiatedMapgen<Params: CalculatedParametersMarker> {
    pub calculated_parameters: Params,
    pub instantiated_tiles: KeyedMap<MapgenCellCoordinates, InstantiatedTile>,
}

impl InstantiatedMapgen<ParametersNotCalculated> {
    /// A map without parameters or tiles.
    pub fn new() -> (r: InstantiatedMapgen<ParametersNotCalculated>)
        ensures
            r.instantiated_tiles.map().dom().is_empty(),
    {
        InstantiatedMapgen { calculated_parameters: ParametersNotCalculated, instantiated_tiles: KeyedMap::new() }
    }

    /// The map with the given calculated parameters and the same tiles.
    pub fn calculate_parameters(self, params: IndexMap<ParameterIdentifier, CDDAIdentifier>) -> (r:
        InstantiatedMapgen<ParametersCalculated>)
        ensures
            r.calculated_parameters.0 == params,
            r.instantiated_tiles == self.instantiated_tiles,
    {
        InstantiatedMapgen {
            calculated_parameters: ParametersCalculated(params),
            instantiated_tiles: self.instantiated_tiles,
        }
    }
}

/// The tile at `pos` of `tiles`, or an empty tile.
pub open spec fn tile_or_empty(tiles: Map<(u32, u32), InstantiatedTile>, pos: (u32, u32)) -> InstantiatedTile {
    if tiles.contains_key(pos) {
        tiles[pos]
    } else {
        empty_tile()
    }
}

/// The tiles after placing nested tiles `nested` with their corner at `pos`:
/// a nested tile overrides the layers it has of the tile it lands on, or is
/// placed where there was none.
pub open spec fn spec_place_nested(
    tiles: Map<(u32, u32), InstantiatedTile>,
    pos: (u32, u32),
    nested: Map<(u32, u32), InstantiatedTile>,
) -> Map<(u32, u32), InstantiatedTile> {
    Map::new(
        |p: (u32, u32)|
            tiles.contains_key(p) || (p.0 >= pos.0 && p.1 >= pos.1 && nested.contains_key(
                ((p.0 - pos.0) as u32, (p.1 - pos.1) as u32),
            )),
        |p: (u32, u32)|
            if p.0 >= pos.0 && p.1 >= pos.1 && nested.contains_key(((p.0 - pos.0) as u32, (p.1 - pos.1) as u32)) {
                if tiles.contains_key(p) {
                    spec_override_none(tiles[p], nested[((p.0 - pos.0) as u32, (p.1 - pos.1) as u32)])
                } else {
                    nested[((p.0 - pos.0) as u32, (p.1 - pos.1) as u32)]
                }
            } else {
                tiles[p]
            },
    )
}

/// The tile with the layer set to `id`.
pub open spec fn with_layer(t: InstantiatedTile, layer: TileLayer, id: MappedCDDAId) -> InstantiatedTile {
    match layer {
        TileLayer::Terrain => InstantiatedTile { terrain: Some(id), furniture: t.furniture, monster: t.monster, field: t.field },
        TileLayer::Furniture => InstantiatedTile { terrain: t.terrain, furniture: Some(id), monster: t.monster, field: t.field },
        TileLayer::Monster => InstantiatedTile { terrain: t.terrain, furniture: t.furniture, monster: Some(id), field: t.field },
        TileLayer::Field => InstantiatedTile { terrain: t.terrain, furniture: t.furniture, monster: t.monster, field: Some(id) },
    }
}

impl InstantiatedMapgen<ParametersCalculated> {
    fn set_layer(&mut self, position: MapgenCellCoordinates, layer: TileLayer, id: MappedCDDAId)
        ensures
            final(self).calculated_parameters == old(self).calculated_parameters,
            final(self).instantiated_tiles.map() == old(self).instantiated_tiles.map().insert(
                position.0,
                with_layer(tile_or_empty(old(self).instantiated_tiles.map(), position.0), layer, id),
            ),
    {
        let mut tile = match self.instantiated_tiles.remove(&position) {
            Some(t) => t,
            None => InstantiatedTile::default(),
        };
        match layer {
            TileLayer::Terrain => tile.terrain = Some(id),
            TileLayer::Furniture => tile.furniture = Some(id),
            TileLayer::Monster => tile.monster = Some(id),
            TileLayer::Field => tile.field = Some(id),
        }
        self.instantiated_tiles.insert(position, tile);
        assert(self.instantiated_tiles.map() =~= old(self).instantiated_tiles.map().insert(
            position.0,
            with_layer(tile_or_empty(old(self).instantiated_tiles.map(), position.0), layer, id),
        ));
    }

    /// Places the terrain at the position, keeping the tile's other layers.
    pub fn place_terrain(&mut self, position: MapgenCellCoordinates, terrain: MappedCDDAId)
        ensures
            final(self).calculated_parameters == old(self).calculated_parameters,
            final(self).instantiated_tiles.map() == old(self).instantiated_tiles.map().insert(
                position.0,
                with_layer(tile_or_empty(old(self).instantiated_tiles.map(), position.0), TileLayer::Terrain, terrain),
            ),
    {
        self.set_layer(position, TileLayer::Terrain, terrain)
    }

    /// Places the furniture at the position, keeping the tile's other layers.
    pub fn place_furniture(&mut self, position: MapgenCellCoordinates, furniture: MappedCDDAId)
        ensures
            final(self).calculated_parameters == old(self).calculated_parameters,
            final(self).instantiated_tiles.map() == old(self).instantiated_tiles.map().insert(
                position.0,
                with_layer(tile_or_empty(old(self).instantiated_tiles.map(), position.0), TileLayer::Furniture, furniture),
            ),
    {
        self.set_layer(position, TileLayer::Furniture, furniture)
    }

    /// Places the monster at the position, keeping the tile's other layers.
    pub fn place_monster(&mut self, position: MapgenCellCoordinates, monster: MappedCDDAId)
        ensures
            final(self).calculated_parameters == old(self).calculated_parameters,
            final(self).instantiated_tiles.map() == old(self).instantiated_tiles.map().insert(
                position.0,
                with_layer(tile_or_empty(old(self).instantiated_tiles.map(), position.0), TileLayer::Monster, monster),
            ),
    {
        self.set_layer(position, TileLayer::Monster, monster)
    }

    /// Places the field at the position, keeping the tile's other layers.
    pub fn place_field(&mut self, position: MapgenCellCoordinates, field: MappedCDDAId)
        ensures
            final(self).calculated_parameters == old(self).calculated_parameters,
            final(self).instantiated_tiles.map() == old(self).instantiated_tiles.map().insert(
                position.0,
                with_layer(tile_or_empty(old(self).instantiated_tiles.map(), position.0), TileLayer::Field, field),
            ),
    {
        self.set_layer(position, TileLayer::Field, field)
    }

    /// Places the tiles of a nested map with its corner at `position` (see
    /// `spec_place_nested`).
    pub fn place_nested(&mut self, position: MapgenCellCoordinates, instantiated_mapgen: InstantiatedMapgen<
        ParametersCalculated,
    >)
        requires
            forall|p: (u32, u32)|
                #[trigger] instantiated_mapgen.instantiated_tiles.map().contains_key(p) ==> position.0.0 + p.0
                    <= u32::MAX && position.0.1 + p.1 <= u32::MAX,
        ensures
            final(self).calculated_parameters == old(self).calculated_parameters,
            final(self).instantiated_tiles.map() == spec_place_nested(
                old(self).instantiated_tiles.map(),
                position.0,
                instantiated_mapgen.instantiated_tiles.map(),
            ),
    {
        let ghost nested = instantiated_mapgen.instantiated_tiles.map();
        let ghost start = self.instantiated_tiles.map();
        let entries = instantiated_mapgen.instantiated_tiles.into_entries();
        let ghost es = entries@;
        let n = entries.len();
        let mut rev = crate::types::reverse_vec(entries);
        let mut i: usize = 0;
        while i < n
            invariant
                n == es.len(),
                i <= n,
                rev@.len() == n - i,
                forall|j: int| 0 <= j < n - i ==> #[trigger] rev@[j] == es[n - 1 - j],
                forall|a: int, b: int|
                    0 <= a < n && 0 <= b < n && a != b ==> #[trigger] es[a].0.key() != #[trigger] es[b].0.key(),
                forall|a: int| 0 <= a < n ==> nested.contains_key(#[trigger] es[a].0.key()) && nested[es[a].0.key()] == es[a].1,
                forall|k: (u32, u32)| #[trigger] nested.contains_key(k) ==> exists|a: int| 0 <= a < n && #[trigger] es[a].0.key() == k,
                forall|p: (u32, u32)|
                    #[trigger] nested.contains_key(p) ==> position.0.0 + p.0 <= u32::MAX && position.0.1 + p.1 <= u32::MAX,
                self.calculated_parameters == old(self).calculated_parameters,
                self.instantiated_tiles.map() == spec_place_nested(
                    start,
                    position.0,
                    Map::new(
                        |k: (u32, u32)| exists|a: int| 0 <= a < i && #[trigger] es[a].0.key() == k,
                        |k: (u32, u32)| nested[k],
                    ),
                ),
            decreases n - i,
        {
            let (local, tile) = rev.pop().unwrap();
            assert(es[i as int] == (local, tile));
            assert(es[i as int].0.key() == local.0);
            assert(nested.contains_key(local.0));
            let global = position.add(local);
            let ghost before = self.instantiated_tiles.map();
            let new_tile = match self.instantiated_tiles.remove(&global) {
                Some(mut t) => {
                    t.override_none(tile);
                    t
                },
                None => tile,
            };
            self.instantiated_tiles.insert(global, new_tile);
            i = i + 1;
            proof {
                let done = Map::new(
                    |k: (u32, u32)| exists|a: int| 0 <= a < i && #[trigger] es[a].0.key() == k,
                    |k: (u32, u32)| nested[k],
                );
                let done_before = Map::new(
                    |k: (u32, u32)| exists|a: int| 0 <= a < i - 1 && #[trigger] es[a].0.key() == k,
                    |k: (u32, u32)| nested[k],
                );
                assert forall|k: (u32, u32)| done.contains_key(k) <==> (done_before.contains_key(k) || k == local.0) by {
                    if done.contains_key(k) {
                        let a = choose|a: int| 0 <= a < i && #[trigger] es[a].0.key() == k;
                        if a < i - 1 {
                            assert(done_before.contains_key(k));
                        }
                    }
                    if done_before.contains_key(k) {
                        let a = choose|a: int| 0 <= a < i - 1 && #[trigger] es[a].0.key() == k;
                        assert(0 <= a < i && es[a].0.key() == k);
                    }
                    if k == local.0 {
                        assert(es[i - 1].0.key() == k);
                    }
                }
                assert(!done_before.contains_key(local.0)) by {
                    if done_before.contains_key(local.0) {
                        let a = choose|a: int| 0 <= a < i - 1 && #[trigger] es[a].0.key() == local.0;
                        assert(es[a].0.key() != es[i - 1].0.key());
                    }
                }
                assert(self.instantiated_tiles.map() =~= spec_place_nested(start, position.0, done));
            }
        }
        proof {
            let done = Map::new(
                |k: (u32, u32)| exists|a: int| 0 <= a < n && #[trigger] es[a].0.key() == k,
                |k: (u32, u32)| nested[k],
            );
            assert(done =~= nested);
        }
    }
}

/// The neighbours that a map of an overmap is drawn with.
pub struct InstancedOvermapConfig {
    pub simulated_neighbors: KeyedMap<NeighborDirection, Vec<CDDAIdentifier>>,
}

pub open spec fn all_neighbor_directions() -> Set<NeighborDirection> {
    Set::empty().insert(NeighborDirection::Above).insert(NeighborDirection::Below).insert(NeighborDirection::East).insert(
        NeighborDirection::West,
    ).insert(NeighborDirection::North).insert(NeighborDirection::South).insert(NeighborDirection::NorthEast).insert(
        NeighborDirection::NorthWest,
    ).insert(NeighborDirection::SouthEast).insert(NeighborDirection::SouthWest)
}

impl InstancedOvermapConfig {
    /// No simulated neighbour in any of the ten directions.
    pub fn default() -> (r: InstancedOvermapConfig)
        ensures
            r.simulated_neighbors.map().dom() == all_neighbor_directions(),
            forall|d: NeighborDirection| #[trigger] r.simulated_neighbors.map().contains_key(d) ==> r.simulated_neighbors.map()[d]@.len() == 0,
    {
        let mut simulated_neighbors: KeyedMap<NeighborDirection, Vec<CDDAIdentifier>> = KeyedMap::new();
        simulated_neighbors.insert(NeighborDirection::Above, Vec::new());
        simulated_neighbors.insert(NeighborDirection::Below, Vec::new());
        simulated_neighbors.insert(NeighborDirection::East, Vec::new());
        simulated_neighbors.insert(NeighborDirection::West, Vec::new());
        simulated_neighbors.insert(NeighborDirection::North, Vec::new());
        simulated_neighbors.insert(NeighborDirection::South, Vec::new());
        simulated_neighbors.insert(NeighborDirection::NorthEast, Vec::new());
        simulated_neighbors.insert(NeighborDirection::NorthWest, Vec::new());
        simulated_neighbors.insert(NeighborDirection::SouthEast, Vec::new());
        simulated_neighbors.insert(NeighborDirection::SouthWest, Vec::new());
        assert(simulated_neighbors.map().dom() =~= all_neighbor_directions());
        InstancedOvermapConfig { simulated_neighbors }
    }
}

/// The maps of an overmap, by their position in the overmap.
pub struct InstantiatedOvermap {
    pub config: InstancedOvermapConfig,
    pub instantiated_mapgens: KeyedMap<(u32, u32), InstantiatedMapgen<ParametersCalculated>>,
}

/// The identifier on a layer of a tile, if the layer has one.
pub open spec fn layer_id(t: InstantiatedTile, layer: TileLayer) -> Option<Seq<char>> {
    let m = match layer {
        TileLayer::Terrain => t.terrain,
        TileLayer::Furniture => t.furniture,
        TileLayer::Monster => t.monster,
        TileLayer::Field => t.field,
    };
    match m {
        Some(v) => Some(v.tilesheet_id.id@),
        None => None,
    }
}

impl InstantiatedOvermap {
    /// The overmap position of a cell of the overmap.
    pub fn to_overmap_coordinates(&self, position: (u32, u32)) -> (r: (u32, u32))
        ensures
            r == ((position.0 / 24) as u32, (position.1 / 24) as u32),
    {
        (position.0 / MAX_MAPGEN_WIDTH, position.1 / MAX_MAPGEN_HEIGHT)
    }

    /// The identifier on the layer of the cell at `coords` of the overmap,
    /// if its map and its tile exist and the layer holds one.
    pub open spec fn spec_id_at(self, coords: (u32, u32), layer: TileLayer) -> Option<Seq<char>> {
        let om = ((coords.0 / 24) as u32, (coords.1 / 24) as u32);
        let local = ((coords.0 % 24) as u32, (coords.1 % 24) as u32);
        if self.instantiated_mapgens.map().contains_key(om) && self.instantiated_mapgens.map()[om].instantiated_tiles.map().contains_key(local) {
            layer_id(self.instantiated_mapgens.map()[om].instantiated_tiles.map()[local], layer)
        } else {
            None
        }
    }

    pub fn get_id_from_mapped_sprites(&self, coords: (u32, u32), layer: &TileLayer) -> (r: Option<CDDAIdentifier>)
        ensures
            match self.spec_id_at(coords, *layer) {
                Some(i) => r matches Some(x) && x@ == i,
                None => r is None,
            },
    {
        let overmap_coordinates = self.to_overmap_coordinates(coords);
        let mapgen = match self.instantiated_mapgens.get(&overmap_coordinates) {
            None => return None,
            Some(m) => m,
        };
        let local = MapgenCellCoordinates::from((coords.0 % MAX_MAPGEN_WIDTH, coords.1 % MAX_MAPGEN_HEIGHT));
        let tile = match mapgen.instantiated_tiles.get(&local) {
            None => return None,
            Some(t) => t,
        };
        let m = match layer {
            TileLayer::Terrain => &tile.terrain,
            TileLayer::Furniture => &tile.furniture,
            TileLayer::Monster => &tile.monster,
            TileLayer::Field => &tile.field,
        };
        match m {
            Some(v) => Some(v.tilesheet_id.id.clone()),
            None => None,
        }
    }

    /// The tiles above (`y + 1`), right of (`x + 1`), below and left of a
    /// cell on a layer; a cell on the lower or left edge has none there.
    pub fn get_adjacent_tile_identifiers(&self, coords: (u32, u32), layer: &TileLayer) -> (r: AdjacentTiles)
        requires
            coords.0 < u32::MAX,
            coords.1 < u32::MAX,
        ensures
            adjacent_matches(r.top, self.spec_id_at((coords.0, (coords.1 + 1) as u32), *layer)),
            adjacent_matches(r.right, self.spec_id_at(((coords.0 + 1) as u32, coords.1), *layer)),
            adjacent_matches(
                r.bottom,
                if coords.1 == 0 {
                    None
                } else {
                    self.spec_id_at((coords.0, (coords.1 - 1) as u32), *layer)
                },
            ),
            adjacent_matches(
                r.left,
                if coords.0 == 0 {
                    None
                } else {
                    self.spec_id_at(((coords.0 - 1) as u32, coords.1), *layer)
                },
            ),
    {
        let top = as_mapped(self.get_id_from_mapped_sprites((coords.0, coords.1 + 1), layer));
        let right = as_mapped(self.get_id_from_mapped_sprites((coords.0 + 1, coords.1), layer));
        let bottom = if coords.1 == 0 {
            None
        } else {
            as_mapped(self.get_id_from_mapped_sprites((coords.0, coords.1 - 1), layer))
        };
        let left = if coords.0 == 0 {
            None
        } else {
            as_mapped(self.get_id_from_mapped_sprites((coords.0 - 1, coords.1), layer))
        };
        AdjacentTiles { top, right, bottom, left }
    }
}

/// A neighbour standing for the identifier: a plain tile of it facing north.
pub open spec fn adjacent_matches(t: Option<MappedCDDAId>, id: Option<Seq<char>>) -> bool {
    match (t, id) {
        (None, None) => true,
        (Some(m), Some(i)) => m.tilesheet_id.id@ == i && m.tilesheet_id.prefix is None
            && m.tilesheet_id.postfix is None && m.rotation == Rotation::Deg0 && !m.is_broken && !m.is_open,
        _ => false,
    }
}

fn as_mapped(id: Option<CDDAIdentifier>) -> (r: Option<MappedCDDAId>)
    ensures
        adjacent_matches(r, match id {
            Some(i) => Some(i@),
            None => None,
        }),
{
    match id {
        Some(i) => Some(MappedCDDAId::simple(TilesheetCDDAId::simple(i))),
        None => None,
    }
}

/// A tile to draw: what, on which layer, where, turned how, in what state.
pub struct SetTile {
    pub id: TilesheetCDDAId,
    pub layer: TileLayer,
    pub coordinates: (i32, i32),
    pub rotation: Rotation,
    pub state: TileState,
}

impl SetTile {
    pub fn terrain(id: TilesheetCDDAId, coordinates: (i32, i32), rotation: Rotation, state: TileState) -> (r: SetTile)
        ensures
            r == (SetTile { id, layer: TileLayer::Terrain, coordinates, rotation, state }),
    {
        SetTile { id, layer: TileLayer::Terrain, rotation, coordinates, state }
    }

    pub fn furniture(id: TilesheetCDDAId, coordinates: (i32, i32), rotation: Rotation, state: TileState) -> (r: SetTile)
        ensures
            r == (SetTile { id, layer: TileLayer::Furniture, coordinates, rotation, state }),
    {
        SetTile { id, layer: TileLayer::Furniture, rotation, coordinates, state }
    }

    pub fn field(id: TilesheetCDDAId, coordinates: (i32, i32), rotation: Rotation, state: TileState) -> (r: SetTile)
        ensures
            r == (SetTile { id, layer: TileLayer::Field, coordinates, rotation, state }),
    {
        SetTile { id, layer: TileLayer::Field, rotation, coordinates, state }
    }

    pub fn monster(id: TilesheetCDDAId, coordinates: (i32, i32), rotation: Rotation, state: TileState) -> (r: SetTile)
        ensures
            r == (SetTile { id, layer: TileLayer::Monster, coordinates, rotation, state }),
    {
        SetTile { id, layer: TileLayer::Monster, rotation, coordinates, state }
    }
}

} // verus!
