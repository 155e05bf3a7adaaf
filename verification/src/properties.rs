use vstd::prelude::*;
use crate::keyed_map::KeyedMap;
use crate::map_data::{
    MapGenComputer, MapGenCorpse, MapGenField, MapGenGaspump, MapGenItem, MapGenMonsters, MapGenNested,
    MapGenSign, MapGenVehicle,
};
use crate::types::{MapGenValue, Weighted};

verus! {

/// The kinds of mappings of a map: what a character of the map places.
#[derive(Debug, Clone, Copy, PartialEq, Eq, Structural)]
pub enum MappingKind {
    Terrain,
    Furniture,
    Trap,
    ItemGroups,
    Computer,
    Sign,
    Toilet,
    Gaspump,
    Monsters,
    Monster,
    Field,
    Nested,
    Vehicle,
    Corpse,
}

pub struct TerrainProperty {
    pub mapgen_value: MapGenValue,
}

pub struct FurnitureProperty {
    pub mapgen_value: MapGenValue,
}

pub struct MonstersProperty {
    pub monster: Vec<Weighted<MapGenMonsters>>,
}

pub struct SignsProperty {
    pub signs: Vec<Weighted<MapGenSign>>,
}

pub struct GaspumpsProperty {
    pub gaspumps: Vec<Weighted<MapGenGaspump>>,
}

pub struct NestedProperty {
    pub nested: Vec<Weighted<MapGenNested>>,
}

pub struct FieldsProperty {
    pub field: Vec<Weighted<MapGenField>>,
}

pub struct ComputersProperty {
    pub computer: Vec<Weighted<MapGenComputer>>,
}

pub struct ToiletsProperty;

pub struct TrapsProperty {
    pub trap: Vec<Weighted<MapGenValue>>,
}

pub struct VehiclesProperty {
    pub vehicles: Vec<Weighted<MapGenVehicle>>,
}

pub struct CorpsesProperty {
    pub corpses: Vec<Weighted<MapGenCorpse>>,
}

pub struct ItemsProperty {
    pub items: Vec<Weighted<MapGenItem>>,
}

/// The mappings of a map from characters to what they place, by kind.
pub struct MapProperties {
    pub terrain: KeyedMap<char, TerrainProperty>,
    pub furniture: KeyedMap<char, FurnitureProperty>,
    pub monsters: KeyedMap<char, MonstersProperty>,
    pub nested: KeyedMap<char, NestedProperty>,
    pub field: KeyedMap<char, FieldsProperty>,
    pub item_groups: KeyedMap<char, ItemsProperty>,
    pub computer: KeyedMap<char, FurnitureProperty>,
    pub toilet: KeyedMap<char, FurnitureProperty>,
    pub sign: KeyedMap<char, SignsProperty>,
    pub gaspump: KeyedMap<char, GaspumpsProperty>,
    pub trap: KeyedMap<char, TrapsProperty>,
    pub vehicle: KeyedMap<char, VehiclesProperty>,
    pub corpse: KeyedMap<char, CorpsesProperty>,
    pub monster: KeyedMap<char, MonstersProperty>,
}

impl MapProperties {
    /// No mappings.
    pub fn new() -> (r: MapProperties)
        ensures
            r.terrain.map().dom().is_empty(),
            r.furniture.map().dom().is_empty(),
            r.monsters.map().dom().is_empty(),
            r.nested.map().dom().is_empty(),
            r.field.map().dom().is_empty(),
            r.item_groups.map().dom().is_empty(),
            r.computer.map().dom().is_empty(),
            r.toilet.map().dom().is_empty(),
            r.sign.map().dom().is_empty(),
            r.gaspump.map().dom().is_empty(),
            r.trap.map().dom().is_empty(),
            r.vehicle.map().dom().is_empty(),
            r.corpse.map().dom().is_empty(),
            r.monster.map().dom().is_empty(),
    {
        MapProperties {
            terrain: KeyedMap::new(),
            furniture: KeyedMap::new(),
            monsters: KeyedMap::new(),
            nested: KeyedMap::new(),
            field: KeyedMap::new(),
            item_groups: KeyedMap::new(),
            computer: KeyedMap::new(),
            toilet: KeyedMap::new(),
            sign: KeyedMap::new(),
            gaspump: KeyedMap::new(),
            trap: KeyedMap::new(),
            vehicle: KeyedMap::new(),
            corpse: KeyedMap::new(),
            monster: KeyedMap::new(),
        }
    }
}

} // verus!
