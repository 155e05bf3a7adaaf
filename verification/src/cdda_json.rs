use vstd::prelude::*;
use crate::keyed_map::KeyedMap;
use crate::entries::CDDAMonsterGroup;
use crate::game_data::{CDDAOvermapLocation, CDDAOvermapTerrain, CDDARegionSettings};
use crate::overmap_vehicle_data::{CDDAOvermapSpecial, CDDAVehicle};
use crate::item::CDDAItemGroup;
use crate::map::MapGen;
use crate::palettes::CDDAPalette;
use crate::types::{CDDAIdentifier, CDDAString, MeabyVec, NULL_FURNITURE, NULL_TERRAIN};

verus! {

/// The layer of a map tile that an entry is drawn on.
#[derive(Debug, Clone, Copy, PartialEq, Eq, Structural)]
pub enum TileLayer {
    Terrain,
    Furniture,
    Monster,
    Field,
}

/// A terrain entry of the game data, as far as the editor reads it.
pub struct CDDATerrain {
    pub id: CDDAIdentifier,
    pub name: Option<CDDAString>,
    pub description: Option<CDDAString>,
    pub symbol: Option<char>,
    pub looks_like: Option<CDDAIdentifier>,
    pub color: Option<MeabyVec<String>>,
    pub connect_groups: Option<MeabyVec<CDDAIdentifier>>,
    pub connects_to: Option<MeabyVec<CDDAIdentifier>>,
    pub flags: Vec<String>,
}

/// A furniture entry of the game data, as far as the editor reads it.
pub struct CDDAFurniture {
    pub id: CDDAIdentifier,
    pub name: Option<CDDAString>,
    pub description: Option<CDDAString>,
    pub symbol: Option<char>,
    pub looks_like: Option<CDDAIdentifier>,
    pub color: Option<MeabyVec<String>>,
    pub connect_groups: Option<MeabyVec<CDDAIdentifier>>,
    pub connects_to: Option<MeabyVec<CDDAIdentifier>>,
    pub flags: Vec<String>,
}

/// A vehicle part entry of the game data, as far as the editor reads it.
pub struct CDDAVehiclePart {
    pub id: CDDAIdentifier,
    pub looks_like: Option<CDDAIdentifier>,
    pub name: Option<CDDAString>,
    pub flags: Vec<String>,
    pub location: Option<String>,
}

/// The loaded game data, keyed by identifier.
pub struct DeserializedCDDAJsonData {
    pub palettes: KeyedMap<CDDAIdentifier, CDDAPalette>,
    pub map_data: KeyedMap<CDDAIdentifier, MapGen>,
    pub region_settings: KeyedMap<CDDAIdentifier, CDDARegionSettings>,
    pub terrain: KeyedMap<CDDAIdentifier, CDDATerrain>,
    pub furniture: KeyedMap<CDDAIdentifier, CDDAFurniture>,
    pub overmap_terrains: KeyedMap<CDDAIdentifier, CDDAOvermapTerrain>,
    pub vehicle_parts: KeyedMap<CDDAIdentifier, CDDAVehiclePart>,
    pub monster_groups: KeyedMap<CDDAIdentifier, CDDAMonsterGroup>,
    pub overmap_locations: KeyedMap<CDDAIdentifier, CDDAOvermapLocation>,
    pub overmap_specials: KeyedMap<CDDAIdentifier, CDDAOvermapSpecial>,
    pub vehicles: KeyedMap<CDDAIdentifier, CDDAVehicle>,
    pub item_groups: KeyedMap<CDDAIdentifier, CDDAItemGroup>,
}

impl DeserializedCDDAJsonData {
    /// No game data.
    pub fn new() -> (r: DeserializedCDDAJsonData)
        ensures
            r.palettes.map().is_empty(),
            r.map_data.map().is_empty(),
            r.region_settings.map().is_empty(),
            r.terrain.map().is_empty(),
            r.furniture.map().is_empty(),
            r.overmap_terrains.map().is_empty(),
            r.vehicle_parts.map().is_empty(),
            r.monster_groups.map().is_empty(),
            r.overmap_locations.map().is_empty(),
            r.overmap_specials.map().is_empty(),
            r.vehicles.map().is_empty(),
            r.item_groups.map().is_empty(),
    {
        DeserializedCDDAJsonData {
            palettes: KeyedMap::new(),
            map_data: KeyedMap::new(),
            region_settings: KeyedMap::new(),
            terrain: KeyedMap::new(),
            furniture: KeyedMap::new(),
            overmap_terrains: KeyedMap::new(),
            vehicle_parts: KeyedMap::new(),
            monster_groups: KeyedMap::new(),
            overmap_locations: KeyedMap::new(),
            overmap_specials: KeyedMap::new(),
            vehicles: KeyedMap::new(),
            item_groups: KeyedMap::new(),
        }
    }
}

pub enum GetConnectGroupsError {
    NoTerrain(CDDAIdentifier),
    NoFurniture(CDDAIdentifier),
    NoConnectGroups(CDDAIdentifier),
}

pub enum GetFlagsError {
    NoTerrain(CDDAIdentifier),
    NoFurniture(CDDAIdentifier),
    NoFlags(CDDAIdentifier),
}

pub enum GetConnectsToError {
    NoTerrain(CDDAIdentifier),
    NoFurniture(CDDAIdentifier),
    NoConnectsTo(CDDAIdentifier),
}

/// The texts of a sequence of identifiers, as a set.
pub open spec fn ids_set(s: Seq<CDDAIdentifier>) -> Set<Seq<char>> {
    Set::new(|x: Seq<char>| exists|i: int| 0 <= i < s.len() && #[trigger] s[i]@ == x)
}

/// The texts of a sequence of strings, as a set.
pub open spec fn texts_set(s: Seq<String>) -> Set<Seq<char>> {
    Set::new(|x: Seq<char>| exists|i: int| 0 <= i < s.len() && #[trigger] s[i]@ == x)
}

/// The identifiers of an optional list, as a set (empty when absent).
pub open spec fn opt_ids_set(v: Option<MeabyVec<CDDAIdentifier>>) -> Set<Seq<char>> {
    match v {
        Some(m) => ids_set(m.values()),
        None => Set::empty(),
    }
}

impl DeserializedCDDAJsonData {
    /// The connect groups of an entry, empty where it has none or is unknown.
    pub open spec fn spec_connect_groups(&self, id: Seq<char>, layer: TileLayer) -> Set<Seq<char>> {
        match layer {
            TileLayer::Terrain => if id != NULL_TERRAIN@ && self.terrain.map().contains_key(id) {
                opt_ids_set(self.terrain.map()[id].connect_groups)
            } else {
                Set::empty()
            },
            TileLayer::Furniture => if id != NULL_FURNITURE@ && self.furniture.map().contains_key(id) {
                opt_ids_set(self.furniture.map()[id].connect_groups)
            } else {
                Set::empty()
            },
            _ => Set::empty(),
        }
    }

    /// The flags of an entry, empty where it has none or is unknown.
    pub open spec fn spec_flags(&self, id: Seq<char>, layer: TileLayer) -> Set<Seq<char>> {
        match layer {
            TileLayer::Terrain => if id != NULL_TERRAIN@ && self.terrain.map().contains_key(id) {
                texts_set(self.terrain.map()[id].flags@)
            } else {
                Set::empty()
            },
            TileLayer::Furniture => if id != NULL_FURNITURE@ && self.furniture.map().contains_key(id) {
                texts_set(self.furniture.map()[id].flags@)
            } else {
                Set::empty()
            },
            _ => Set::empty(),
        }
    }

    /// The groups that an entry connects to, empty where it has none or is unknown.
    pub open spec fn spec_connects_to(&self, id: Seq<char>, layer: TileLayer) -> Set<Seq<char>> {
        match layer {
            TileLayer::Terrain => if self.terrain.map().contains_key(id) {
                opt_ids_set(self.terrain.map()[id].connects_to)
            } else {
                Set::empty()
            },
            TileLayer::Furniture => if self.furniture.map().contains_key(id) {
                opt_ids_set(self.furniture.map()[id].connects_to)
            } else {
                Set::empty()
            },
            _ => Set::empty(),
        }
    }

    /// The connect groups of a terrain or furniture entry. The null terrain
    /// and the null furniture have none; an unknown entry, or another layer,
    /// is an error.
    pub fn get_connect_groups(&self, id: CDDAIdentifier, layer: &TileLayer) -> (r: Result<
        Vec<CDDAIdentifier>,
        GetConnectGroupsError,
    >)
        ensures
            match *layer {
                TileLayer::Terrain => if id@ == NULL_TERRAIN@ || self.terrain.map().contains_key(id@) {
                    r matches Ok(v) && ids_set(v@) == self.spec_connect_groups(id@, *layer)
                } else {
                    r matches Err(GetConnectGroupsError::NoTerrain(i)) && i@ == id@
                },
                TileLayer::Furniture => if id@ == NULL_FURNITURE@ || self.furniture.map().contains_key(
                    id@,
                ) {
                    r matches Ok(v) && ids_set(v@) == self.spec_connect_groups(id@, *layer)
                } else {
                    r matches Err(GetConnectGroupsError::NoFurniture(i)) && i@ == id@
                },
                _ => r matches Err(GetConnectGroupsError::NoConnectGroups(i)) && i@ == id@,
            },
    {
        match layer {
            TileLayer::Terrain => {
                if id.eq_id(&CDDAIdentifier::from_str(NULL_TERRAIN)) {
                    let v: Vec<CDDAIdentifier> = Vec::new();
                    assert(ids_set(v@) =~= Set::empty());
                    return Ok(v);
                }
                match self.terrain.get(&id) {
                    None => Err(GetConnectGroupsError::NoTerrain(id)),
                    Some(t) => Ok(opt_ids_to_vec(&t.connect_groups)),
                }
            },
            TileLayer::Furniture => {
                if id.eq_id(&CDDAIdentifier::from_str(NULL_FURNITURE)) {
                    let v: Vec<CDDAIdentifier> = Vec::new();
                    assert(ids_set(v@) =~= Set::empty());
                    return Ok(v);
                }
                match self.furniture.get(&id) {
                    None => Err(GetConnectGroupsError::NoFurniture(id)),
                    Some(t) => Ok(opt_ids_to_vec(&t.connect_groups)),
                }
            },
            _ => Err(GetConnectGroupsError::NoConnectGroups(id)),
        }
    }

    /// The flags of a terrain or furniture entry. The null terrain and the
    /// null furniture have none; an unknown entry, or another layer, is an
    /// error.
    pub fn get_flags(&self, id: CDDAIdentifier, layer: &TileLayer) -> (r: Result<Vec<String>, GetFlagsError>)
        ensures
            match *layer {
                TileLayer::Terrain => if id@ == NULL_TERRAIN@ {
                    r matches Ok(v) && v@.len() == 0
                } else if self.terrain.map().contains_key(id@) {
                    r matches Ok(v) && texts_set(v@) == self.spec_flags(id@, *layer) && v@.len()
                        == self.terrain.map()[id@].flags@.len()
                } else {
                    r matches Err(GetFlagsError::NoTerrain(i)) && i@ == id@
                },
                TileLayer::Furniture => if id@ == NULL_FURNITURE@ {
                    r matches Ok(v) && v@.len() == 0
                } else if self.furniture.map().contains_key(id@) {
                    r matches Ok(v) && texts_set(v@) == self.spec_flags(id@, *layer) && v@.len()
                        == self.furniture.map()[id@].flags@.len()
                } else {
                    r matches Err(GetFlagsError::NoFurniture(i)) && i@ == id@
                },
                _ => r matches Err(GetFlagsError::NoFlags(i)) && i@ == id@,
            },
    {
        match layer {
            TileLayer::Terrain => {
                if id.eq_id(&CDDAIdentifier::from_str(NULL_TERRAIN)) {
                    return Ok(Vec::new());
                }
                match self.terrain.get(&id) {
                    None => Err(GetFlagsError::NoTerrain(id)),
                    Some(t) => Ok(clone_strings(&t.flags)),
                }
            },
            TileLayer::Furniture => {
                if id.eq_id(&CDDAIdentifier::from_str(NULL_FURNITURE)) {
                    return Ok(Vec::new());
                }
                match self.furniture.get(&id) {
                    None => Err(GetFlagsError::NoFurniture(id)),
                    Some(t) => Ok(clone_strings(&t.flags)),
                }
            },
            _ => Err(GetFlagsError::NoFlags(id)),
        }
    }

    /// The groups that a terrain or furniture entry connects to; an unknown
    /// entry, or another layer, is an error.
    pub fn get_connects_to(&self, id: CDDAIdentifier, layer: &TileLayer) -> (r: Result<
        Vec<CDDAIdentifier>,
        GetConnectsToError,
    >)
        ensures
            match *layer {
                TileLayer::Terrain => if self.terrain.map().contains_key(id@) {
                    r matches Ok(v) && ids_set(v@) == self.spec_connects_to(id@, *layer)
                } else {
                    r matches Err(GetConnectsToError::NoTerrain(i)) && i@ == id@
                },
                TileLayer::Furniture => if self.furniture.map().contains_key(id@) {
                    r matches Ok(v) && ids_set(v@) == self.spec_connects_to(id@, *layer)
                } else {
                    r matches Err(GetConnectsToError::NoFurniture(i)) && i@ == id@
                },
                _ => r matches Err(GetConnectsToError::NoConnectsTo(i)) && i@ == id@,
            },
    {
        match layer {
            TileLayer::Terrain => match self.terrain.get(&id) {
                None => Err(GetConnectsToError::NoTerrain(id)),
                Some(t) => Ok(opt_ids_to_vec(&t.connects_to)),
            },
            TileLayer::Furniture => match self.furniture.get(&id) {
                None => Err(GetConnectsToError::NoFurniture(id)),
                Some(t) => Ok(opt_ids_to_vec(&t.connects_to)),
            },
            _ => Err(GetConnectsToError::NoConnectsTo(id)),
        }
    }
}

/// A copy of a list of strings, element by element.
pub fn clone_strings(v: &Vec<String>) -> (r: Vec<String>)
    ensures
        r@.len() == v@.len(),
        forall|i: int| 0 <= i < v@.len() ==> #[trigger] r@[i]@ == v@[i]@,
        texts_set(r@) == texts_set(v@),
{
    let mut out: Vec<String> = Vec::new();
    let mut i: usize = 0;
    while i < v.len()
        invariant
            i <= v@.len(),
            out@.len() == i,
            forall|j: int| 0 <= j < i ==> #[trigger] out@[j]@ == v@[j]@,
        decreases v@.len() - i,
    {
        out.push(v[i].clone());
        i = i + 1;
    }
    assert forall|x: Seq<char>| texts_set(out@).contains(x) <==> texts_set(v@).contains(x) by {
        if texts_set(out@).contains(x) {
            let j = choose|j: int| 0 <= j < out@.len() && #[trigger] out@[j]@ == x;
            assert(v@[j]@ == x);
        }
        if texts_set(v@).contains(x) {
            let j = choose|j: int| 0 <= j < v@.len() && #[trigger] v@[j]@ == x;
            assert(out@[j]@ == x);
        }
    }
    assert(texts_set(out@) =~= texts_set(v@));
    out
}

/// The identifiers of an optional list as a vector (empty when absent).
pub fn opt_ids_to_vec(v: &Option<MeabyVec<CDDAIdentifier>>) -> (r: Vec<CDDAIdentifier>)
    ensures
        ids_set(r@) == opt_ids_set(*v),
{
    match v {
        None => {
            let out: Vec<CDDAIdentifier> = Vec::new();
            assert(ids_set(out@) =~= Set::empty());
            out
        },
        Some(m) => {
            let n = m.len();
            let mut out: Vec<CDDAIdentifier> = Vec::new();
            let mut i: usize = 0;
            while i < n
                invariant
                    n == m.values().len(),
                    i <= n,
                    out@.len() == i,
                    forall|j: int| 0 <= j < i ==> #[trigger] out@[j]@ == m.values()[j]@,
                decreases n - i,
            {
                out.push(m.get(i).clone());
                i = i + 1;
            }
            assert forall|x: Seq<char>| ids_set(out@).contains(x) <==> ids_set(m.values()).contains(x) by {
                if ids_set(out@).contains(x) {
                    let j = choose|j: int| 0 <= j < out@.len() && #[trigger] out@[j]@ == x;
                    assert(m.values()[j]@ == x);
                }
                if ids_set(m.values()).contains(x) {
                    let j = choose|j: int| 0 <= j < m.values().len() && #[trigger] m.values()[j]@ == x;
                    assert(out@[j]@ == x);
                }
            }
            assert(ids_set(out@) =~= ids_set(m.values()));
            out
        },
    }
}

} // verus!
