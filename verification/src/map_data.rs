use vstd::prelude::*;
use crate::item::CDDAItemGroupInPlace;
use crate::keyed_map::KeyedMap;
use crate::number_or_range::NumberOrRange;
use crate::om_terrain::{NeighborDirection, OmTerrainMatch, ReferenceOrInPlace};
use crate::types::{CDDAIdentifier, CDDAString, DistributionInner, MapGenValue, MeabyVec, MeabyWeighted, Weighted};

verus! {

/// A monster or a monster group to place.
pub enum MapGenMonsterType {
    Monster { monster: MapGenValue },
    MonsterGroup { group: MapGenValue },
}

pub struct MapGenMonsters {
    pub id: MapGenMonsterType,
    pub chance: Option<NumberOrRange<u32>>,
    pub pack_size: Option<NumberOrRange<u32>>,
}

pub struct MapGenItem {
    pub item: ReferenceOrInPlace<CDDAItemGroupInPlace>,
    pub chance: Option<NumberOrRange<u32>>,
    pub repeat: Option<NumberOrRange<u32>>,
    pub faction: Option<CDDAIdentifier>,
}

pub struct MapGenField {
    pub field: CDDAIdentifier,
    pub intensity: Option<NumberOrRange<i32>>,
    pub age: Option<NumberOrRange<i32>>,
}

pub struct MapGenComputerAction {
    pub name: String,
    pub action: String,
}

pub struct MapGenComputerFailure {
    pub action: String,
}

/// The security of a computer that gives none.
pub const DEFAULT_SECURITY: i32 = 1;

pub struct MapGenComputer {
    pub name: String,
    pub security: i32,
    pub options: Vec<MapGenComputerAction>,
    pub failures: Vec<MapGenComputerFailure>,
}

pub struct MapGenSign {
    pub signage: Option<String>,
    pub snippet: Option<String>,
}

#[derive(Debug, Clone, Copy, PartialEq, Eq, Structural)]
pub enum MapGenGaspumpFuelType {
    Gasoline,
    Diesel,
    Jp8,
    Avgas,
}

pub struct MapGenGaspump {
    pub fuel: Option<MapGenGaspumpFuelType>,
    pub amount: Option<NumberOrRange<i32>>,
}

/// A trap: a reference object or a plain mapgen value.
pub enum MapGenTrap {
    TrapRef { trap: MapGenValue },
    MapGenValue(MapGenValue),
}

pub struct MapGenCorpse {
    pub group: CDDAIdentifier,
    pub age: Option<i32>,
}

pub struct MapGenMonster {
    pub monster: CDDAIdentifier,
    pub name: CDDAString,
    pub chance: Option<NumberOrRange<u32>>,
}

/// The state of a placed vehicle.
#[derive(Debug, Clone, Copy, PartialEq, Eq, Structural)]
pub enum VehicleStatus {
    LightDamage,
    Undamaged,
    HeavilyDamaged,
    Perfect,
}

impl VehicleStatus {
    /// The status that the game data writes as a number: -1 light damage,
    /// 0 undamaged, 1 heavily damaged, 2 perfect; any other number is light
    /// damage.
    pub fn from_i32(value: i32) -> (r: VehicleStatus)
        ensures
            r == if value == 0 {
                VehicleStatus::Undamaged
            } else if value == 1 {
                VehicleStatus::HeavilyDamaged
            } else if value == 2 {
                VehicleStatus::Perfect
            } else {
                VehicleStatus::LightDamage
            },
    {
        match value {
            -1 => VehicleStatus::LightDamage,
            0 => VehicleStatus::Undamaged,
            1 => VehicleStatus::HeavilyDamaged,
            2 => VehicleStatus::Perfect,
            _ => VehicleStatus::LightDamage,
        }
    }

    /// The number the game data writes for the status.
    pub fn to_i32(&self) -> (r: i32)
        ensures
            VehicleStatus::from_i32_spec(r) == *self,
    {
        match self {
            VehicleStatus::LightDamage => -1,
            VehicleStatus::Undamaged => 0,
            VehicleStatus::HeavilyDamaged => 1,
            VehicleStatus::Perfect => 2,
        }
    }

    pub open spec fn from_i32_spec(value: i32) -> VehicleStatus {
        if value == 0 {
            VehicleStatus::Undamaged
        } else if value == 1 {
            VehicleStatus::HeavilyDamaged
        } else if value == 2 {
            VehicleStatus::Perfect
        } else {
            VehicleStatus::LightDamage
        }
    }
}

pub struct MapGenVehicle {
    pub vehicle: CDDAIdentifier,
    pub status: VehicleStatus,
    pub rotation: MeabyVec<i32>,
}

/// The weight of a mapgen entry: a number, or a global value with a default.
pub enum Weight {
    InPlace(i32),
    GlobalVal { global_val: CDDAIdentifier, default: i32 },
}

pub struct IdCollection {
    pub update_mapgen_id: Option<CDDAIdentifier>,
    pub om_terrain: Option<crate::om_terrain::OmTerrain>,
    pub nested_mapgen_id: Option<CDDAIdentifier>,
}

/// Nested mapgen chunks as the game data writes them: the chunks to place,
/// or the chunks to place where the neighbour condition fails.
pub enum MapGenNestedIntermediate {
    Chunks {
        chunks: MeabyVec<MeabyWeighted<MapGenValue>>,
        neighbors: Option<KeyedMap<NeighborDirection, MeabyVec<OmTerrainMatch>>>,
    },
    ElseChunks {
        else_chunks: MeabyVec<MeabyWeighted<MapGenValue>>,
        neighbors: Option<KeyedMap<NeighborDirection, MeabyVec<OmTerrainMatch>>>,
    },
}

/// Nested mapgen chunks with a neighbour condition.
pub struct MapGenNested {
    pub neighbors: Option<KeyedMap<NeighborDirection, Vec<OmTerrainMatch>>>,
    pub joins: Option<KeyedMap<NeighborDirection, Vec<OmTerrainMatch>>>,
    pub chunks: Vec<Weighted<MapGenValue>>,
    pub invert_condition: bool,
}

/// The weighted values of a list whose values may carry weights, in order;
/// an unweighted value weighs one.
pub open spec fn weighted_list_matches<T>(r: Seq<Weighted<T>>, m: Seq<MeabyWeighted<T>>) -> bool {
    &&& r.len() == m.len()
    &&& forall|i: int|
        0 <= i < m.len() ==> #[trigger] r[i].data == m[i].spec_data() && r[i].weight == m[i].spec_weight()
}

fn meaby_to_weighted<T>(w: MeabyWeighted<T>) -> (o: Weighted<T>)
    ensures
        o.data == w.spec_data(),
        o.weight == w.spec_weight(),
{
    w.to_weighted()
}

pub fn to_weighted_list<T>(m: MeabyVec<MeabyWeighted<T>>) -> (r: Vec<Weighted<T>>)
    ensures
        weighted_list_matches(r@, m.values()),
{
    m.map(meaby_to_weighted)
}

fn matches_into_vec(v: MeabyVec<OmTerrainMatch>) -> (o: Vec<OmTerrainMatch>)
    ensures
        o@ == v.values(),
{
    v.into_vec()
}

/// The neighbour condition with each list of patterns as a vector.
pub open spec fn neighbors_match(
    r: Option<KeyedMap<NeighborDirection, Vec<OmTerrainMatch>>>,
    n: Option<KeyedMap<NeighborDirection, MeabyVec<OmTerrainMatch>>>,
) -> bool {
    match (r, n) {
        (None, None) => true,
        (Some(a), Some(b)) => a.map().dom() == b.map().dom() && forall|k: NeighborDirection|
            #[trigger] b.map().contains_key(k) ==> a.map()[k]@ == b.map()[k].values(),
        _ => false,
    }
}

fn convert_neighbors(n: Option<KeyedMap<NeighborDirection, MeabyVec<OmTerrainMatch>>>) -> (r: Option<
    KeyedMap<NeighborDirection, Vec<OmTerrainMatch>>,
>)
    ensures
        neighbors_match(r, n),
{
    match n {
        None => None,
        Some(m) => {
            let r = m.map_values(matches_into_vec);
            Some(r)
        },
    }
}

/// The nested chunks made of their written form.
pub open spec fn nested_converted(r: MapGenNested, i: MapGenNestedIntermediate) -> bool {
    &&& r.joins is None
    &&& match i {
        MapGenNestedIntermediate::Chunks { chunks, neighbors } => weighted_list_matches(r.chunks@, chunks.values())
            && neighbors_match(r.neighbors, neighbors) && !r.invert_condition,
        MapGenNestedIntermediate::ElseChunks { else_chunks, neighbors } => weighted_list_matches(
            r.chunks@,
            else_chunks.values(),
        ) && neighbors_match(r.neighbors, neighbors) && r.invert_condition,
    }
}

impl MapGenNestedIntermediate {
    /// The chunks with their weights, the neighbour condition, and whether
    /// the chunks are for where the condition fails.
    pub fn into_nested(self) -> (r: MapGenNested)
        ensures
            nested_converted(r, self),
    {
        let (chunks, neighbors, is_else) = match self {
            MapGenNestedIntermediate::Chunks { chunks, neighbors } => (to_weighted_list(chunks), neighbors, false),
            MapGenNestedIntermediate::ElseChunks { else_chunks, neighbors } => (
                to_weighted_list(else_chunks),
                neighbors,
                true,
            ),
        };
        MapGenNested {
            neighbors: convert_neighbors(neighbors),
            joins: None,
            chunks,
            invert_condition: is_else,
        }
    }
}

/// A `set` entry of a mapgen object as written: a line, a point or a
/// square of something to set or remove.
pub struct SetIntermediate {
    pub line: Option<CDDAIdentifier>,
    pub point: Option<CDDAIdentifier>,
    pub square: Option<CDDAIdentifier>,
    pub id: Option<CDDAIdentifier>,
    pub x: Option<NumberOrRange<u32>>,
    pub y: Option<NumberOrRange<u32>>,
    pub z: Option<i32>,
    pub x2: Option<NumberOrRange<u32>>,
    pub y2: Option<NumberOrRange<u32>>,
    pub amount: Option<NumberOrRange<u32>>,
    pub chance: Option<u32>,
    pub repeat: Option<(u32, u32)>,
}

} // verus!
