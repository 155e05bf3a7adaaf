use vstd::prelude::*;
use crate::entries::{
    CDDAFurnitureIntermediate, CDDAMonsterGroupIntermediate, CDDAOvermapTerrainIntermediate,
    CDDATerrainIntermediate, CDDAVehiclePartDataIntermediate, CDDAOvermapLocationIntermediate,
    CDDAOvermapSpecialIntermediate, CDDAVehicleIntermediate,
};
use crate::game_data::CDDAOvermapLocation;
use crate::overmap_vehicle_data::{placements_view, special_ty_view, CDDAOvermapSpecial, CDDAVehicle};
use crate::game_data::{CDDARegionSettings, ConnectGroup};
use crate::cdda_json::{CDDAFurniture, CDDATerrain, CDDAVehiclePart};
use crate::mapped_id::opt_text;
use crate::entries::{CDDAMonsterGroup, opt_mapgens_agree};
use crate::game_data::CDDAOvermapTerrain;
use crate::import::{
    all_copies_end, all_single, id_texts, opt_ids_agree, opt_texts_agree, resolved, resolved_entries, spec_copy, texts,
    ImportCDDAObject,
};
use crate::item::{spec_group_entry, spec_item_entry, CDDAItemGroup, CDDAItemGroupIntermediate, EntryGroupShortcut, EntryItemShortcut};
use crate::keyed_map::{KeyedMap, MapKey};
use crate::cdda_json::DeserializedCDDAJsonData;
use crate::map::{is_default_map, same_map, MapGen, MapGenCommon};
use crate::place::MapPlaces;
use crate::types::DistributionInner;
use crate::mapgen_import::{
    entry_grid, entry_map_at, entry_readable, maps_made, CDDAMapDataIntermediate, IntoMapDataCollectionError,
};
use crate::om_terrain::OmTerrain;
use crate::palettes::{palette_made_of, CDDAPalette, CDDAPaletteIntermediate};
use crate::types::{reverse_vec, CDDAIdentifier};

verus! {

/// An entry of a json file of the game data, by its `type`.
pub enum CDDAJsonEntry {
    Mapgen(CDDAMapDataIntermediate),
    RegionSettings(CDDARegionSettings),
    Palette(CDDAPaletteIntermediate),
    Terrain(CDDATerrainIntermediate),
    Furniture(CDDAFurnitureIntermediate),
    ConnectGroup(ConnectGroup),
    ItemGroup(CDDAItemGroupIntermediate),
    MonsterGroup(CDDAMonsterGroupIntermediate),
    OvermapTerrain(CDDAOvermapTerrainIntermediate),
    VehiclePart(CDDAVehiclePartDataIntermediate),
    Vehicle(CDDAVehicleIntermediate),
    OvermapSpecial(CDDAOvermapSpecialIntermediate),
    OvermapLocation(CDDAOvermapLocationIntermediate),
    /// An entry of a kind that the editor does not use.
    Unused,
}

/// Where the game data's json files are read from: every `.json` file
/// below `json_path`.
pub struct CDDADataLoader {
    pub json_path: String,
}

/// The entries read from the json files, before copies are resolved.
pub struct IntermediateCDDAJsonData {
    pub intermediate_map_data: Vec<CDDAMapDataIntermediate>,
    pub intermediate_region_settings: KeyedMap<CDDAIdentifier, CDDARegionSettings>,
    pub intermediate_palettes: KeyedMap<CDDAIdentifier, CDDAPaletteIntermediate>,
    pub intermediate_terrains: KeyedMap<CDDAIdentifier, CDDATerrainIntermediate>,
    pub intermediate_furnitures: KeyedMap<CDDAIdentifier, CDDAFurnitureIntermediate>,
    pub intermediate_overmap_terrains: KeyedMap<CDDAIdentifier, CDDAOvermapTerrainIntermediate>,
    pub intermediate_monster_groups: KeyedMap<CDDAIdentifier, CDDAMonsterGroupIntermediate>,
    pub intermediate_vehicle_parts: KeyedMap<CDDAIdentifier, CDDAVehiclePartDataIntermediate>,
    pub intermediate_item_groups: KeyedMap<CDDAIdentifier, CDDAItemGroupIntermediate>,
    pub intermediate_vehicles: KeyedMap<CDDAIdentifier, CDDAVehicleIntermediate>,
    pub intermediate_overmap_specials: KeyedMap<CDDAIdentifier, CDDAOvermapSpecialIntermediate>,
    pub intermediate_overmap_locations: KeyedMap<CDDAIdentifier, CDDAOvermapLocationIntermediate>,
}

impl IntermediateCDDAJsonData {
    /// No entries.
    pub fn new() -> (r: IntermediateCDDAJsonData)
        ensures
            r.intermediate_map_data@.len() == 0,
            r.intermediate_region_settings.map().is_empty(),
            r.intermediate_palettes.map().is_empty(),
            r.intermediate_terrains.map().is_empty(),
            r.intermediate_furnitures.map().is_empty(),
            r.intermediate_overmap_terrains.map().is_empty(),
            r.intermediate_monster_groups.map().is_empty(),
            r.intermediate_vehicle_parts.map().is_empty(),
            r.intermediate_item_groups.map().is_empty(),
            r.intermediate_vehicles.map().is_empty(),
            r.intermediate_overmap_specials.map().is_empty(),
            r.intermediate_overmap_locations.map().is_empty(),
    {
        IntermediateCDDAJsonData {
            intermediate_map_data: Vec::new(),
            intermediate_region_settings: KeyedMap::new(),
            intermediate_palettes: KeyedMap::new(),
            intermediate_terrains: KeyedMap::new(),
            intermediate_furnitures: KeyedMap::new(),
            intermediate_overmap_terrains: KeyedMap::new(),
            intermediate_monster_groups: KeyedMap::new(),
            intermediate_vehicle_parts: KeyedMap::new(),
            intermediate_item_groups: KeyedMap::new(),
            intermediate_vehicles: KeyedMap::new(),
            intermediate_overmap_specials: KeyedMap::new(),
            intermediate_overmap_locations: KeyedMap::new(),
        }
    }
}

pub open spec fn terrain_of(e: CDDAJsonEntry) -> Option<CDDATerrainIntermediate> {
    match e {
        CDDAJsonEntry::Terrain(t) => Some(t),
        _ => None,
    }
}

pub open spec fn furniture_of(e: CDDAJsonEntry) -> Option<CDDAFurnitureIntermediate> {
    match e {
        CDDAJsonEntry::Furniture(t) => Some(t),
        _ => None,
    }
}

pub open spec fn monster_group_of(e: CDDAJsonEntry) -> Option<CDDAMonsterGroupIntermediate> {
    match e {
        CDDAJsonEntry::MonsterGroup(t) => Some(t),
        _ => None,
    }
}

pub open spec fn overmap_terrain_of(e: CDDAJsonEntry) -> Option<CDDAOvermapTerrainIntermediate> {
    match e {
        CDDAJsonEntry::OvermapTerrain(t) => Some(t),
        _ => None,
    }
}

pub open spec fn overmap_location_of(e: CDDAJsonEntry) -> Option<CDDAOvermapLocationIntermediate> {
    match e {
        CDDAJsonEntry::OvermapLocation(t) => Some(t),
        _ => None,
    }
}

pub open spec fn overmap_special_of(e: CDDAJsonEntry) -> Option<CDDAOvermapSpecialIntermediate> {
    match e {
        CDDAJsonEntry::OvermapSpecial(t) => Some(t),
        _ => None,
    }
}

pub open spec fn vehicle_of(e: CDDAJsonEntry) -> Option<CDDAVehicleIntermediate> {
    match e {
        CDDAJsonEntry::Vehicle(t) => Some(t),
        _ => None,
    }
}

pub open spec fn vehicle_part_of(e: CDDAJsonEntry) -> Option<CDDAVehiclePartDataIntermediate> {
    match e {
        CDDAJsonEntry::VehiclePart(t) => Some(t),
        _ => None,
    }
}

/// The last entry of one kind (picked by `pick`) that is written for `k`.
pub open spec fn last_for<T: ImportCDDAObject>(
    es: Seq<CDDAJsonEntry>,
    pick: spec_fn(CDDAJsonEntry) -> Option<T>,
    k: Seq<char>,
) -> Option<T>
    decreases es.len(),
{
    if es.len() == 0 {
        None
    } else {
        match pick(es.last()) {
            Some(t) => if t.spec_ids().contains(k) {
                Some(t)
            } else {
                last_for(es.drop_last(), pick, k)
            },
            None => last_for(es.drop_last(), pick, k),
        }
    }
}

/// Whether `stored` is the entry `t` written for the single id `k`, read
/// from the file at `path`.
pub open spec fn stored_for<T: ImportCDDAObject>(stored: T, t: T, k: Seq<char>, path: String) -> bool {
    &&& exists|id: CDDAIdentifier| id@ == k && T::agrees(stored, #[trigger] T::spec_with_id(t, id))
    &&& stored.spec_flags() == t.spec_flags()
    &&& stored.spec_source() == Some(path@)
}

/// Whether the entries of one kind took the map of intermediates from
/// `before` to `after`: each id of an entry holds that entry, written for
/// that id alone; a later entry for an id replaces an earlier one.
pub open spec fn split_into<T: ImportCDDAObject>(
    before: Map<Seq<char>, T>,
    after: Map<Seq<char>, T>,
    es: Seq<CDDAJsonEntry>,
    pick: spec_fn(CDDAJsonEntry) -> Option<T>,
    path: String,
) -> bool {
    &&& forall|k: Seq<char>| #[trigger]
        after.contains_key(k) <==> (before.contains_key(k) || last_for(es, pick, k) is Some)
    &&& forall|k: Seq<char>| #[trigger]
        after.contains_key(k) ==> match last_for(es, pick, k) {
            Some(t) => stored_for(after[k], t, k, path),
            None => after[k] == before[k],
        }
}

/// Whether inserting the entry `t` for each of its ids took `before` to `after`.
pub open spec fn inserted_for_ids<T: ImportCDDAObject>(
    before: Map<Seq<char>, T>,
    after: Map<Seq<char>, T>,
    t: T,
    path: String,
) -> bool {
    &&& forall|k: Seq<char>| #[trigger]
        after.contains_key(k) <==> (before.contains_key(k) || t.spec_ids().contains(k))
    &&& forall|k: Seq<char>| #[trigger]
        after.contains_key(k) ==> if t.spec_ids().contains(k) {
            stored_for(after[k], t, k, path)
        } else {
            after[k] == before[k]
        }
}

/// Stores the entry under each of its ids, written for that id alone and
/// with `path` as the file it was read from.
fn insert_for_ids<T: ImportCDDAObject>(map: &mut KeyedMap<CDDAIdentifier, T>, entry: T, path: &String)
    ensures
        inserted_for_ids(old(map).map(), final(map).map(), entry, *path),
{
    let ghost before = map.map();
    let ids = entry.ids();
    let n = ids.len();
    let ghost idt = entry.spec_ids();
    let mut j: usize = 0;
    while j < n
        invariant
            n == ids.values().len(),
            idt == id_texts(ids.values()),
            idt == entry.spec_ids(),
            j <= n,
            forall|k: Seq<char>| #[trigger]
                map.map().contains_key(k) <==> (before.contains_key(k) || idt.take(j as int).contains(k)),
            forall|k: Seq<char>| #[trigger]
                map.map().contains_key(k) ==> if idt.take(j as int).contains(k) {
                    stored_for(map.map()[k], entry, k, *path)
                } else {
                    map.map()[k] == before[k]
                },
        decreases n - j,
    {
        let ident = ids.get(j);
        let mut c = entry.with_id(ident);
        let ghost c0 = c;
        c.set_source(path);
        proof {
            T::lemma_agrees(c, c0, T::spec_with_id(entry, *ident));
        }
        let key = ident.clone();
        map.insert(key, c);
        proof {
            let next = idt.take(j + 1);
            assert(next =~= idt.take(j as int).push(ident@));
            assert forall|k: Seq<char>| #[trigger] map.map().contains_key(k) implies if next.contains(k) {
                stored_for(map.map()[k], entry, k, *path)
            } else {
                map.map()[k] == before[k]
            } by {
                if k == ident@ {
                    assert(next[j as int] == k);
                    assert(T::agrees(map.map()[k], T::spec_with_id(entry, *ident)));
                    assert(map.map()[k].spec_source() == Some(path@));
                } else {
                    if next.contains(k) {
                        let w = choose|w: int| 0 <= w < next.len() && next[w] == k;
                        assert(idt.take(j as int)[w] == k);
                    }
                    if idt.take(j as int).contains(k) {
                        let w = choose|w: int| 0 <= w < j && idt.take(j as int)[w] == k;
                        assert(next[w] == k);
                    }
                }
            }
            assert forall|k: Seq<char>| #[trigger]
                map.map().contains_key(k) <==> (before.contains_key(k) || next.contains(k)) by {
                if k == ident@ {
                    assert(next[j as int] == k);
                } else {
                    if next.contains(k) {
                        let w = choose|w: int| 0 <= w < next.len() && next[w] == k;
                        assert(idt.take(j as int)[w] == k);
                    }
                    if idt.take(j as int).contains(k) {
                        let w = choose|w: int| 0 <= w < j && idt.take(j as int)[w] == k;
                        assert(next[w] == k);
                    }
                }
            }
        }
        j = j + 1;
    }
    proof {
        assert(idt.take(n as int) =~= idt);
    }
}

/// One more entry keeps `split_into`.
proof fn lemma_split_step<T: ImportCDDAObject>(
    before: Map<Seq<char>, T>,
    cur: Map<Seq<char>, T>,
    next: Map<Seq<char>, T>,
    es: Seq<CDDAJsonEntry>,
    i: int,
    pick: spec_fn(CDDAJsonEntry) -> Option<T>,
    path: String,
)
    requires
        0 <= i < es.len(),
        split_into(before, cur, es.take(i), pick, path),
        match pick(es[i]) {
            Some(t) => inserted_for_ids(cur, next, t, path),
            None => next == cur,
        },
    ensures
        split_into(before, next, es.take(i + 1), pick, path),
{
    let s = es.take(i + 1);
    assert(s.drop_last() =~= es.take(i));
    assert(s.last() == es[i]);
    assert forall|k: Seq<char>| #[trigger] next.contains_key(k) <==> (before.contains_key(k) || last_for(
        s,
        pick,
        k,
    ) is Some) by {}
    assert forall|k: Seq<char>| #[trigger] next.contains_key(k) implies match last_for(s, pick, k) {
        Some(t) => stored_for(next[k], t, k, path),
        None => next[k] == before[k],
    } by {}
}

/// The last palette among the entries with the id `k`.
pub open spec fn last_palette(es: Seq<CDDAJsonEntry>, k: Seq<char>) -> Option<CDDAPaletteIntermediate>
    decreases es.len(),
{
    if es.len() == 0 {
        None
    } else {
        match es.last() {
            CDDAJsonEntry::Palette(p) => if p.id@ == k {
                Some(p)
            } else {
                last_palette(es.drop_last(), k)
            },
            _ => last_palette(es.drop_last(), k),
        }
    }
}

/// The last region settings among the entries with the id `k`.
pub open spec fn last_region_settings(es: Seq<CDDAJsonEntry>, k: Seq<char>) -> Option<CDDARegionSettings>
    decreases es.len(),
{
    if es.len() == 0 {
        None
    } else {
        match es.last() {
            CDDAJsonEntry::RegionSettings(r) => if r.id@ == k {
                Some(r)
            } else {
                last_region_settings(es.drop_last(), k)
            },
            _ => last_region_settings(es.drop_last(), k),
        }
    }
}

/// The last item group among the entries with the id `k`.
pub open spec fn last_item_group(es: Seq<CDDAJsonEntry>, k: Seq<char>) -> Option<CDDAItemGroupIntermediate>
    decreases es.len(),
{
    if es.len() == 0 {
        None
    } else {
        match es.last() {
            CDDAJsonEntry::ItemGroup(g) => if g.id@ == k {
                Some(g)
            } else {
                last_item_group(es.drop_last(), k)
            },
            _ => last_item_group(es.drop_last(), k),
        }
    }
}

/// The item group `g` is the entry `e` with its entries in full form.
pub open spec fn item_group_made_of(g: CDDAItemGroup, e: CDDAItemGroupIntermediate) -> bool {
    &&& g.id == e.id
    &&& g.common.subtype == e.subtype
    &&& g.common.entries@ == e.items@.map_values(|x: EntryItemShortcut| spec_item_entry(x)) + e.groups@.map_values(
        |x: EntryGroupShortcut| spec_group_entry(x),
    ) + e.entries@
}

/// The mapgen entries among the entries, in order.
pub open spec fn mapgen_entries(es: Seq<CDDAJsonEntry>) -> Seq<CDDAMapDataIntermediate>
    decreases es.len(),
{
    if es.len() == 0 {
        Seq::empty()
    } else {
        match es.last() {
            CDDAJsonEntry::Mapgen(m) => mapgen_entries(es.drop_last()).push(m),
            _ => mapgen_entries(es.drop_last()),
        }
    }
}

/// The palette as it is stored: with the file it was read from.
pub open spec fn with_source(p: CDDAPaletteIntermediate, path: String) -> CDDAPaletteIntermediate {
    CDDAPaletteIntermediate { source: Some(path), ..p }
}

/// How the entries of one file took the intermediate data from `d0` to `d`.
pub open spec fn entries_added(
    d0: IntermediateCDDAJsonData,
    d: IntermediateCDDAJsonData,
    path: String,
    es: Seq<CDDAJsonEntry>,
) -> bool {
    &&& d.intermediate_map_data@ == d0.intermediate_map_data@ + mapgen_entries(es)
    &&& forall|k: Seq<char>| #[trigger]
        d.intermediate_region_settings.map().contains_key(k) <==> (d0.intermediate_region_settings.map().contains_key(
            k,
        ) || last_region_settings(es, k) is Some)
    &&& forall|k: Seq<char>| #[trigger]
        d.intermediate_region_settings.map().contains_key(k) ==> d.intermediate_region_settings.map()[k]
            == match last_region_settings(es, k) {
            Some(r) => CDDARegionSettings { source: Some(path), ..r },
            None => d0.intermediate_region_settings.map()[k],
        }
    &&& forall|k: Seq<char>| #[trigger]
        d.intermediate_palettes.map().contains_key(k) <==> (d0.intermediate_palettes.map().contains_key(k)
            || last_palette(es, k) is Some)
    &&& forall|k: Seq<char>| #[trigger]
        d.intermediate_palettes.map().contains_key(k) ==> d.intermediate_palettes.map()[k] == match last_palette(
            es,
            k,
        ) {
            Some(p) => with_source(p, path),
            None => d0.intermediate_palettes.map()[k],
        }
    &&& split_into(d0.intermediate_terrains.map(), d.intermediate_terrains.map(), es, |e: CDDAJsonEntry| terrain_of(e), path)
    &&& split_into(
        d0.intermediate_furnitures.map(),
        d.intermediate_furnitures.map(),
        es,
        |e: CDDAJsonEntry| furniture_of(e),
        path,
    )
    &&& split_into(
        d0.intermediate_monster_groups.map(),
        d.intermediate_monster_groups.map(),
        es,
        |e: CDDAJsonEntry| monster_group_of(e),
        path,
    )
    &&& split_into(
        d0.intermediate_overmap_terrains.map(),
        d.intermediate_overmap_terrains.map(),
        es,
        |e: CDDAJsonEntry| overmap_terrain_of(e),
        path,
    )
    &&& split_into(
        d0.intermediate_vehicle_parts.map(),
        d.intermediate_vehicle_parts.map(),
        es,
        |e: CDDAJsonEntry| vehicle_part_of(e),
        path,
    )
    &&& forall|k: Seq<char>| #[trigger]
        d.intermediate_item_groups.map().contains_key(k) <==> (d0.intermediate_item_groups.map().contains_key(k)
            || last_item_group(es, k) is Some)
    &&& forall|k: Seq<char>| #[trigger]
        d.intermediate_item_groups.map().contains_key(k) ==> d.intermediate_item_groups.map()[k] == match last_item_group(
            es,
            k,
        ) {
            Some(g) => g,
            None => d0.intermediate_item_groups.map()[k],
        }
    &&& split_into(
        d0.intermediate_vehicles.map(),
        d.intermediate_vehicles.map(),
        es,
        |e: CDDAJsonEntry| vehicle_of(e),
        path,
    )
    &&& split_into(
        d0.intermediate_overmap_specials.map(),
        d.intermediate_overmap_specials.map(),
        es,
        |e: CDDAJsonEntry| overmap_special_of(e),
        path,
    )
    &&& split_into(
        d0.intermediate_overmap_locations.map(),
        d.intermediate_overmap_locations.map(),
        es,
        |e: CDDAJsonEntry| overmap_location_of(e),
        path,
    )
}

/// Adds the entries read from the file at `path`: mapgen entries in order;
/// region settings and palettes by id, with `path` as their source; item
/// groups by id; terrain, furniture, monster groups, overmap locations,
/// terrains and specials, vehicles and vehicle parts under each of their
/// ids, written for that id alone, with `path` as their source. A later
/// entry for an id replaces an earlier one; entries of other kinds are not
/// used.
pub fn set_intermediate_data_from_json_entries(
    intermediate_data: &mut IntermediateCDDAJsonData,
    path: &String,
    deserialized_entries: Vec<CDDAJsonEntry>,
)
    ensures
        entries_added(*old(intermediate_data), *final(intermediate_data), *path, deserialized_entries@),
{
    let ghost es = deserialized_entries@;
    let ghost d0 = *intermediate_data;
    let n = deserialized_entries.len();
    let mut pending = reverse_vec(deserialized_entries);
    let mut i: usize = 0;
    proof {
        assert(es.take(0) =~= Seq::<CDDAJsonEntry>::empty());
        assert(d0.intermediate_map_data@ + mapgen_entries(es.take(0)) =~= d0.intermediate_map_data@);
    }
    while i < n
        invariant
            n == es.len(),
            i <= n,
            pending@.len() == n - i,
            forall|j: int| 0 <= j < n - i ==> #[trigger] pending@[j] == es[n - 1 - j],
            entries_added(d0, *intermediate_data, *path, es.take(i as int)),
        decreases n - i,
    {
        let e = pending.pop().unwrap();
        proof {
            assert(e == es[i as int]);
        }
        let ghost cur = *intermediate_data;
        let ghost s = es.take(i + 1);
        proof {
            assert(s.drop_last() =~= es.take(i as int));
            assert(s.last() == es[i as int]);
        }
        match e {
            CDDAJsonEntry::Mapgen(m) => {
                intermediate_data.intermediate_map_data.push(m);
                proof {
                    assert(intermediate_data.intermediate_map_data@ =~= d0.intermediate_map_data@ + mapgen_entries(s));
                }
            },
            CDDAJsonEntry::RegionSettings(rs) => {
                let mut rs = rs;
                rs.source = Some(path.clone());
                let id = rs.id.clone();
                intermediate_data.intermediate_region_settings.insert(id, rs);
            },
            CDDAJsonEntry::Palette(p) => {
                let mut p = p;
                p.source = Some(path.clone());
                let id = p.id.clone();
                intermediate_data.intermediate_palettes.insert(id, p);
            },
            CDDAJsonEntry::Terrain(t) => {
                insert_for_ids(&mut intermediate_data.intermediate_terrains, t, path);
            },
            CDDAJsonEntry::Furniture(f) => {
                insert_for_ids(&mut intermediate_data.intermediate_furnitures, f, path);
            },
            CDDAJsonEntry::MonsterGroup(g) => {
                insert_for_ids(&mut intermediate_data.intermediate_monster_groups, g, path);
            },
            CDDAJsonEntry::OvermapTerrain(o) => {
                insert_for_ids(&mut intermediate_data.intermediate_overmap_terrains, o, path);
            },
            CDDAJsonEntry::VehiclePart(v) => {
                insert_for_ids(&mut intermediate_data.intermediate_vehicle_parts, v, path);
            },
            CDDAJsonEntry::ItemGroup(g) => {
                let id = g.id.clone();
                intermediate_data.intermediate_item_groups.insert(id, g);
            },
            CDDAJsonEntry::Vehicle(v) => {
                insert_for_ids(&mut intermediate_data.intermediate_vehicles, v, path);
            },
            CDDAJsonEntry::OvermapSpecial(v) => {
                insert_for_ids(&mut intermediate_data.intermediate_overmap_specials, v, path);
            },
            CDDAJsonEntry::OvermapLocation(v) => {
                insert_for_ids(&mut intermediate_data.intermediate_overmap_locations, v, path);
            },
            _ => {},
        }
        proof {
            if !(es[i as int] is Mapgen) {
                assert(intermediate_data.intermediate_map_data@ =~= d0.intermediate_map_data@ + mapgen_entries(s));
            }
            lemma_split_step(
                d0.intermediate_terrains.map(),
                cur.intermediate_terrains.map(),
                intermediate_data.intermediate_terrains.map(),
                es,
                i as int,
                |e: CDDAJsonEntry| terrain_of(e),
                *path,
            );
            lemma_split_step(
                d0.intermediate_furnitures.map(),
                cur.intermediate_furnitures.map(),
                intermediate_data.intermediate_furnitures.map(),
                es,
                i as int,
                |e: CDDAJsonEntry| furniture_of(e),
                *path,
            );
            lemma_split_step(
                d0.intermediate_monster_groups.map(),
                cur.intermediate_monster_groups.map(),
                intermediate_data.intermediate_monster_groups.map(),
                es,
                i as int,
                |e: CDDAJsonEntry| monster_group_of(e),
                *path,
            );
            lemma_split_step(
                d0.intermediate_overmap_terrains.map(),
                cur.intermediate_overmap_terrains.map(),
                intermediate_data.intermediate_overmap_terrains.map(),
                es,
                i as int,
                |e: CDDAJsonEntry| overmap_terrain_of(e),
                *path,
            );
            lemma_split_step(
                d0.intermediate_vehicle_parts.map(),
                cur.intermediate_vehicle_parts.map(),
                intermediate_data.intermediate_vehicle_parts.map(),
                es,
                i as int,
                |e: CDDAJsonEntry| vehicle_part_of(e),
                *path,
            );
            lemma_split_step(
                d0.intermediate_vehicles.map(),
                cur.intermediate_vehicles.map(),
                intermediate_data.intermediate_vehicles.map(),
                es,
                i as int,
                |e: CDDAJsonEntry| vehicle_of(e),
                *path,
            );
            lemma_split_step(
                d0.intermediate_overmap_specials.map(),
                cur.intermediate_overmap_specials.map(),
                intermediate_data.intermediate_overmap_specials.map(),
                es,
                i as int,
                |e: CDDAJsonEntry| overmap_special_of(e),
                *path,
            );
            lemma_split_step(
                d0.intermediate_overmap_locations.map(),
                cur.intermediate_overmap_locations.map(),
                intermediate_data.intermediate_overmap_locations.map(),
                es,
                i as int,
                |e: CDDAJsonEntry| overmap_location_of(e),
                *path,
            );
        }
        i = i + 1;
    }
    proof {
        assert(es.take(n as int) =~= es);
    }
}


/// The terrain `t` is made of the resolved entry `e` with the flags `f`.
pub open spec fn terrain_made_of(t: CDDATerrain, e: CDDATerrainIntermediate, f: Seq<Seq<char>>) -> bool {
    &&& seq![t.id@] == e.spec_ids()
    &&& texts(t.flags@) == f
    &&& t.name == e.name && t.description == e.description && t.symbol == e.symbol && t.looks_like == e.looks_like
    &&& opt_texts_agree(t.color, e.color)
    &&& opt_ids_agree(t.connect_groups, e.connect_groups)
    &&& opt_ids_agree(t.connects_to, e.connects_to)
}

/// The terrain `t` is the entry stored under `k` with its copy resolved.
pub open spec fn terrain_resolved(all: Map<Seq<char>, CDDATerrainIntermediate>, k: Seq<char>, t: CDDATerrain) -> bool {
    forall|fuel: nat| #[trigger]
        spec_copy(all[k], all, fuel) is Some ==> {
            let (e, f) = spec_copy(all[k], all, fuel)->0;
            terrain_made_of(t, e, f)
        }
}

/// Stores every terrain of `all` with its copy resolved.
fn store_terrains(all: &KeyedMap<CDDAIdentifier, CDDATerrainIntermediate>, out: &mut KeyedMap<CDDAIdentifier, CDDATerrain>)
    requires
        all_single(all.map()),
        all_copies_end(all.map()),
    ensures
        forall|k: Seq<char>| #[trigger]
            final(out).map().contains_key(k) <==> (old(out).map().contains_key(k) || all.map().contains_key(k)),
        forall|k: Seq<char>| #[trigger]
            final(out).map().contains_key(k) ==> if all.map().contains_key(k) {
                terrain_resolved(all.map(), k, final(out).map()[k])
            } else {
                final(out).map()[k] == old(out).map()[k]
            },
{
    let ghost before = out.map();
    let resolved_list = resolved_entries(all);
    let ghost rs = resolved_list@;
    let n = resolved_list.len();
    let mut pending = reverse_vec(resolved_list);
    let mut i: usize = 0;
    while i < n
        invariant
            n == rs.len(),
            i <= n,
            pending@.len() == n - i,
            forall|j: int| 0 <= j < n - i ==> #[trigger] pending@[j] == rs[n - 1 - j],
            forall|j: int| #![trigger rs[j]]
                0 <= j < rs.len() ==> all.map().contains_key(rs[j].0@) && resolved(all.map(), rs[j].0@, rs[j].1)
                    && rs[j].1.spec_ids().len() == 1,
            forall|k: Seq<char>| #[trigger]
                out.map().contains_key(k) <==> (before.contains_key(k) || exists|j: int|
                    0 <= j < i && #[trigger] rs[j].0@ == k),
            forall|k: Seq<char>| #[trigger]
                out.map().contains_key(k) ==> if exists|j: int| 0 <= j < i && #[trigger] rs[j].0@ == k {
                    terrain_resolved(all.map(), k, out.map()[k])
                } else {
                    out.map()[k] == before[k]
                },
        decreases n - i,
    {
        let (k, v) = pending.pop().unwrap();
        proof {
            assert((k, v) == rs[i as int]);
        }
        let ghost vv = v;
        let t = v.into_terrain();
        proof {
            assert forall|fuel: nat| #[trigger] spec_copy(all.map()[k@], all.map(), fuel) is Some implies {
                let (e, f) = spec_copy(all.map()[k@], all.map(), fuel)->0;
                terrain_made_of(t, e, f)
            } by {
                assert(seq![t.id@] =~= id_texts(vv.id.values()));
            }
        }
        out.insert(k, t);
        proof {
            assert forall|kk: Seq<char>| #[trigger] out.map().contains_key(kk) <==> (before.contains_key(kk) || exists|j: int|
                0 <= j < i + 1 && #[trigger] rs[j].0@ == kk) by {
                if kk == k@ {
                    assert(rs[i as int].0@ == kk);
                }
            }
            assert forall|kk: Seq<char>| #[trigger] out.map().contains_key(kk) implies if exists|j: int|
                0 <= j < i + 1 && #[trigger] rs[j].0@ == kk {
                terrain_resolved(all.map(), kk, out.map()[kk])
            } else {
                out.map()[kk] == before[kk]
            } by {
                if kk == k@ {
                    assert(rs[i as int].0@ == kk);
                } else if exists|j: int| 0 <= j < i + 1 && #[trigger] rs[j].0@ == kk {
                    let j = choose|j: int| 0 <= j < i + 1 && #[trigger] rs[j].0@ == kk;
                    assert(j < i);
                }
            }
        }
        i = i + 1;
    }
    proof {
        assert forall|k: Seq<char>| #[trigger] all.map().contains_key(k) implies exists|j: int|
            0 <= j < n && #[trigger] rs[j].0@ == k by {}
    }
}

/// The furniture `t` is made of the resolved entry `e` with the flags `f`.
pub open spec fn furniture_made_of(t: CDDAFurniture, e: CDDAFurnitureIntermediate, f: Seq<Seq<char>>) -> bool {
    &&& seq![t.id@] == e.spec_ids()
    &&& texts(t.flags@) == f
    &&& t.name == e.name && t.description == e.description && t.symbol == e.symbol && t.looks_like == e.looks_like
    &&& opt_texts_agree(t.color, e.color)
    &&& opt_ids_agree(t.connect_groups, e.connect_groups)
    &&& opt_ids_agree(t.connects_to, e.connects_to)
}

/// The furniture `t` is the entry stored under `k` with its copy resolved.
pub open spec fn furniture_resolved(all: Map<Seq<char>, CDDAFurnitureIntermediate>, k: Seq<char>, t: CDDAFurniture) -> bool {
    forall|fuel: nat| #[trigger]
        spec_copy(all[k], all, fuel) is Some ==> {
            let (e, f) = spec_copy(all[k], all, fuel)->0;
            furniture_made_of(t, e, f)
        }
}

/// Stores every furniture of `all` with its copy resolved.
fn store_furniture(all: &KeyedMap<CDDAIdentifier, CDDAFurnitureIntermediate>, out: &mut KeyedMap<CDDAIdentifier, CDDAFurniture>)
    requires
        all_single(all.map()),
        all_copies_end(all.map()),
    ensures
        forall|k: Seq<char>| #[trigger]
            final(out).map().contains_key(k) <==> (old(out).map().contains_key(k) || all.map().contains_key(k)),
        forall|k: Seq<char>| #[trigger]
            final(out).map().contains_key(k) ==> if all.map().contains_key(k) {
                furniture_resolved(all.map(), k, final(out).map()[k])
            } else {
                final(out).map()[k] == old(out).map()[k]
            },
{
    let ghost before = out.map();
    let resolved_list = resolved_entries(all);
    let ghost rs = resolved_list@;
    let n = resolved_list.len();
    let mut pending = reverse_vec(resolved_list);
    let mut i: usize = 0;
    while i < n
        invariant
            n == rs.len(),
            i <= n,
            pending@.len() == n - i,
            forall|j: int| 0 <= j < n - i ==> #[trigger] pending@[j] == rs[n - 1 - j],
            forall|j: int| #![trigger rs[j]]
                0 <= j < rs.len() ==> all.map().contains_key(rs[j].0@) && resolved(all.map(), rs[j].0@, rs[j].1)
                    && rs[j].1.spec_ids().len() == 1,
            forall|k: Seq<char>| #[trigger]
                out.map().contains_key(k) <==> (before.contains_key(k) || exists|j: int|
                    0 <= j < i && #[trigger] rs[j].0@ == k),
            forall|k: Seq<char>| #[trigger]
                out.map().contains_key(k) ==> if exists|j: int| 0 <= j < i && #[trigger] rs[j].0@ == k {
                    furniture_resolved(all.map(), k, out.map()[k])
                } else {
                    out.map()[k] == before[k]
                },
        decreases n - i,
    {
        let (k, v) = pending.pop().unwrap();
        proof {
            assert((k, v) == rs[i as int]);
        }
        let ghost vv = v;
        let t = v.into_furniture();
        proof {
            assert forall|fuel: nat| #[trigger] spec_copy(all.map()[k@], all.map(), fuel) is Some implies {
                let (e, f) = spec_copy(all.map()[k@], all.map(), fuel)->0;
                furniture_made_of(t, e, f)
            } by {
                assert(seq![t.id@] =~= id_texts(vv.id.values()));
            }
        }
        out.insert(k, t);
        proof {
            assert forall|kk: Seq<char>| #[trigger] out.map().contains_key(kk) <==> (before.contains_key(kk) || exists|j: int|
                0 <= j < i + 1 && #[trigger] rs[j].0@ == kk) by {
                if kk == k@ {
                    assert(rs[i as int].0@ == kk);
                }
            }
            assert forall|kk: Seq<char>| #[trigger] out.map().contains_key(kk) implies if exists|j: int|
                0 <= j < i + 1 && #[trigger] rs[j].0@ == kk {
                furniture_resolved(all.map(), kk, out.map()[kk])
            } else {
                out.map()[kk] == before[kk]
            } by {
                if kk == k@ {
                    assert(rs[i as int].0@ == kk);
                } else if exists|j: int| 0 <= j < i + 1 && #[trigger] rs[j].0@ == kk {
                    let j = choose|j: int| 0 <= j < i + 1 && #[trigger] rs[j].0@ == kk;
                    assert(j < i);
                }
            }
        }
        i = i + 1;
    }
    proof {
        assert forall|k: Seq<char>| #[trigger] all.map().contains_key(k) implies exists|j: int|
            0 <= j < n && #[trigger] rs[j].0@ == k by {}
    }
}

/// The monster group `t` is made of the resolved entry `e` with the flags `f`.
pub open spec fn monster_group_made_of(t: CDDAMonsterGroup, e: CDDAMonsterGroupIntermediate, f: Seq<Seq<char>>) -> bool {
    &&& seq![t.id@] == e.spec_ids()
    &&& texts(t.flags@) == f
    &&& t.monsters@ == e.monsters@
}

/// The monster group `t` is the entry stored under `k` with its copy resolved.
pub open spec fn monster_group_resolved(all: Map<Seq<char>, CDDAMonsterGroupIntermediate>, k: Seq<char>, t: CDDAMonsterGroup) -> bool {
    forall|fuel: nat| #[trigger]
        spec_copy(all[k], all, fuel) is Some ==> {
            let (e, f) = spec_copy(all[k], all, fuel)->0;
            monster_group_made_of(t, e, f)
        }
}

/// Stores every monster group of `all` with its copy resolved.
fn store_monster_groups(all: &KeyedMap<CDDAIdentifier, CDDAMonsterGroupIntermediate>, out: &mut KeyedMap<CDDAIdentifier, CDDAMonsterGroup>)
    requires
        all_single(all.map()),
        all_copies_end(all.map()),
    ensures
        forall|k: Seq<char>| #[trigger]
            final(out).map().contains_key(k) <==> (old(out).map().contains_key(k) || all.map().contains_key(k)),
        forall|k: Seq<char>| #[trigger]
            final(out).map().contains_key(k) ==> if all.map().contains_key(k) {
                monster_group_resolved(all.map(), k, final(out).map()[k])
            } else {
                final(out).map()[k] == old(out).map()[k]
            },
{
    let ghost before = out.map();
    let resolved_list = resolved_entries(all);
    let ghost rs = resolved_list@;
    let n = resolved_list.len();
    let mut pending = reverse_vec(resolved_list);
    let mut i: usize = 0;
    while i < n
        invariant
            n == rs.len(),
            i <= n,
            pending@.len() == n - i,
            forall|j: int| 0 <= j < n - i ==> #[trigger] pending@[j] == rs[n - 1 - j],
            forall|j: int| #![trigger rs[j]]
                0 <= j < rs.len() ==> all.map().contains_key(rs[j].0@) && resolved(all.map(), rs[j].0@, rs[j].1)
                    && rs[j].1.spec_ids().len() == 1,
            forall|k: Seq<char>| #[trigger]
                out.map().contains_key(k) <==> (before.contains_key(k) || exists|j: int|
                    0 <= j < i && #[trigger] rs[j].0@ == k),
            forall|k: Seq<char>| #[trigger]
                out.map().contains_key(k) ==> if exists|j: int| 0 <= j < i && #[trigger] rs[j].0@ == k {
                    monster_group_resolved(all.map(), k, out.map()[k])
                } else {
                    out.map()[k] == before[k]
                },
        decreases n - i,
    {
        let (k, v) = pending.pop().unwrap();
        proof {
            assert((k, v) == rs[i as int]);
        }
        let ghost vv = v;
        let t = v.into_monster_group();
        proof {
            assert forall|fuel: nat| #[trigger] spec_copy(all.map()[k@], all.map(), fuel) is Some implies {
                let (e, f) = spec_copy(all.map()[k@], all.map(), fuel)->0;
                monster_group_made_of(t, e, f)
            } by {
                assert(seq![t.id@] =~= id_texts(vv.id.values()));
            }
        }
        out.insert(k, t);
        proof {
            assert forall|kk: Seq<char>| #[trigger] out.map().contains_key(kk) <==> (before.contains_key(kk) || exists|j: int|
                0 <= j < i + 1 && #[trigger] rs[j].0@ == kk) by {
                if kk == k@ {
                    assert(rs[i as int].0@ == kk);
                }
            }
            assert forall|kk: Seq<char>| #[trigger] out.map().contains_key(kk) implies if exists|j: int|
                0 <= j < i + 1 && #[trigger] rs[j].0@ == kk {
                monster_group_resolved(all.map(), kk, out.map()[kk])
            } else {
                out.map()[kk] == before[kk]
            } by {
                if kk == k@ {
                    assert(rs[i as int].0@ == kk);
                } else if exists|j: int| 0 <= j < i + 1 && #[trigger] rs[j].0@ == kk {
                    let j = choose|j: int| 0 <= j < i + 1 && #[trigger] rs[j].0@ == kk;
                    assert(j < i);
                }
            }
        }
        i = i + 1;
    }
    proof {
        assert forall|k: Seq<char>| #[trigger] all.map().contains_key(k) implies exists|j: int|
            0 <= j < n && #[trigger] rs[j].0@ == k by {}
    }
}

/// The overmap terrain `t` is made of the resolved entry `e` with the flags `f`.
pub open spec fn overmap_terrain_made_of(t: CDDAOvermapTerrain, e: CDDAOvermapTerrainIntermediate, f: Seq<Seq<char>>) -> bool {
    &&& seq![t.id@] == e.spec_ids()
    &&& texts(t.flags@) == f
    &&& t.name == e.name && t.symbol == e.symbol
    &&& opt_mapgens_agree(t.mapgen, e.mapgen)
}

/// The overmap terrain `t` is the entry stored under `k` with its copy resolved.
pub open spec fn overmap_terrain_resolved(all: Map<Seq<char>, CDDAOvermapTerrainIntermediate>, k: Seq<char>, t: CDDAOvermapTerrain) -> bool {
    forall|fuel: nat| #[trigger]
        spec_copy(all[k], all, fuel) is Some ==> {
            let (e, f) = spec_copy(all[k], all, fuel)->0;
            overmap_terrain_made_of(t, e, f)
        }
}

/// Stores every overmap terrain of `all` with its copy resolved.
fn store_overmap_terrains(all: &KeyedMap<CDDAIdentifier, CDDAOvermapTerrainIntermediate>, out: &mut KeyedMap<CDDAIdentifier, CDDAOvermapTerrain>)
    requires
        all_single(all.map()),
        all_copies_end(all.map()),
    ensures
        forall|k: Seq<char>| #[trigger]
            final(out).map().contains_key(k) <==> (old(out).map().contains_key(k) || all.map().contains_key(k)),
        forall|k: Seq<char>| #[trigger]
            final(out).map().contains_key(k) ==> if all.map().contains_key(k) {
                overmap_terrain_resolved(all.map(), k, final(out).map()[k])
            } else {
                final(out).map()[k] == old(out).map()[k]
            },
{
    let ghost before = out.map();
    let resolved_list = resolved_entries(all);
    let ghost rs = resolved_list@;
    let n = resolved_list.len();
    let mut pending = reverse_vec(resolved_list);
    let mut i: usize = 0;
    while i < n
        invariant
            n == rs.len(),
            i <= n,
            pending@.len() == n - i,
            forall|j: int| 0 <= j < n - i ==> #[trigger] pending@[j] == rs[n - 1 - j],
            forall|j: int| #![trigger rs[j]]
                0 <= j < rs.len() ==> all.map().contains_key(rs[j].0@) && resolved(all.map(), rs[j].0@, rs[j].1)
                    && rs[j].1.spec_ids().len() == 1,
            forall|k: Seq<char>| #[trigger]
                out.map().contains_key(k) <==> (before.contains_key(k) || exists|j: int|
                    0 <= j < i && #[trigger] rs[j].0@ == k),
            forall|k: Seq<char>| #[trigger]
                out.map().contains_key(k) ==> if exists|j: int| 0 <= j < i && #[trigger] rs[j].0@ == k {
                    overmap_terrain_resolved(all.map(), k, out.map()[k])
                } else {
                    out.map()[k] == before[k]
                },
        decreases n - i,
    {
        let (k, v) = pending.pop().unwrap();
        proof {
            assert((k, v) == rs[i as int]);
        }
        let ghost vv = v;
        let t = v.into_overmap_terrain();
        proof {
            assert forall|fuel: nat| #[trigger] spec_copy(all.map()[k@], all.map(), fuel) is Some implies {
                let (e, f) = spec_copy(all.map()[k@], all.map(), fuel)->0;
                overmap_terrain_made_of(t, e, f)
            } by {
                assert(seq![t.id@] =~= id_texts(vv.id.values()));
            }
        }
        out.insert(k, t);
        proof {
            assert forall|kk: Seq<char>| #[trigger] out.map().contains_key(kk) <==> (before.contains_key(kk) || exists|j: int|
                0 <= j < i + 1 && #[trigger] rs[j].0@ == kk) by {
                if kk == k@ {
                    assert(rs[i as int].0@ == kk);
                }
            }
            assert forall|kk: Seq<char>| #[trigger] out.map().contains_key(kk) implies if exists|j: int|
                0 <= j < i + 1 && #[trigger] rs[j].0@ == kk {
                overmap_terrain_resolved(all.map(), kk, out.map()[kk])
            } else {
                out.map()[kk] == before[kk]
            } by {
                if kk == k@ {
                    assert(rs[i as int].0@ == kk);
                } else if exists|j: int| 0 <= j < i + 1 && #[trigger] rs[j].0@ == kk {
                    let j = choose|j: int| 0 <= j < i + 1 && #[trigger] rs[j].0@ == kk;
                    assert(j < i);
                }
            }
        }
        i = i + 1;
    }
    proof {
        assert forall|k: Seq<char>| #[trigger] all.map().contains_key(k) implies exists|j: int|
            0 <= j < n && #[trigger] rs[j].0@ == k by {}
    }
}


/// The vehicle part `t` is made of the resolved entry `e` with the flags `f`.
pub open spec fn vehicle_part_made_of(t: CDDAVehiclePart, e: CDDAVehiclePartDataIntermediate, f: Seq<Seq<char>>) -> bool {
    &&& seq![t.id@] == e.spec_ids()
    &&& texts(t.flags@) == f
    &&& t.looks_like == e.looks_like && t.name == e.name
    &&& opt_text(t.location) == opt_text(e.location)
}

/// The vehicle part `t` is the entry stored under `k` with its copy resolved.
pub open spec fn vehicle_part_resolved(all: Map<Seq<char>, CDDAVehiclePartDataIntermediate>, k: Seq<char>, t: CDDAVehiclePart) -> bool {
    forall|fuel: nat| #[trigger]
        spec_copy(all[k], all, fuel) is Some ==> {
            let (e, f) = spec_copy(all[k], all, fuel)->0;
            vehicle_part_made_of(t, e, f)
        }
}

/// Stores every vehicle part of `all` with its copy resolved.
fn store_vehicle_parts(all: &KeyedMap<CDDAIdentifier, CDDAVehiclePartDataIntermediate>, out: &mut KeyedMap<CDDAIdentifier, CDDAVehiclePart>)
    requires
        all_single(all.map()),
        all_copies_end(all.map()),
    ensures
        forall|k: Seq<char>| #[trigger]
            final(out).map().contains_key(k) <==> (old(out).map().contains_key(k) || all.map().contains_key(k)),
        forall|k: Seq<char>| #[trigger]
            final(out).map().contains_key(k) ==> if all.map().contains_key(k) {
                vehicle_part_resolved(all.map(), k, final(out).map()[k])
            } else {
                final(out).map()[k] == old(out).map()[k]
            },
{
    let ghost before = out.map();
    let resolved_list = resolved_entries(all);
    let ghost rs = resolved_list@;
    let n = resolved_list.len();
    let mut pending = reverse_vec(resolved_list);
    let mut i: usize = 0;
    while i < n
        invariant
            n == rs.len(),
            i <= n,
            pending@.len() == n - i,
            forall|j: int| 0 <= j < n - i ==> #[trigger] pending@[j] == rs[n - 1 - j],
            forall|j: int| #![trigger rs[j]]
                0 <= j < rs.len() ==> all.map().contains_key(rs[j].0@) && resolved(all.map(), rs[j].0@, rs[j].1)
                    && rs[j].1.spec_ids().len() == 1,
            forall|k: Seq<char>| #[trigger]
                out.map().contains_key(k) <==> (before.contains_key(k) || exists|j: int|
                    0 <= j < i && #[trigger] rs[j].0@ == k),
            forall|k: Seq<char>| #[trigger]
                out.map().contains_key(k) ==> if exists|j: int| 0 <= j < i && #[trigger] rs[j].0@ == k {
                    vehicle_part_resolved(all.map(), k, out.map()[k])
                } else {
                    out.map()[k] == before[k]
                },
        decreases n - i,
    {
        let (k, v) = pending.pop().unwrap();
        proof {
            assert((k, v) == rs[i as int]);
        }
        let ghost vv = v;
        let t = v.into_vehicle_part();
        proof {
            assert forall|fuel: nat| #[trigger] spec_copy(all.map()[k@], all.map(), fuel) is Some implies {
                let (e, f) = spec_copy(all.map()[k@], all.map(), fuel)->0;
                vehicle_part_made_of(t, e, f)
            } by {
                assert(seq![t.id@] =~= id_texts(vv.id.values()));
            }
        }
        out.insert(k, t);
        proof {
            assert forall|kk: Seq<char>| #[trigger] out.map().contains_key(kk) <==> (before.contains_key(kk) || exists|j: int|
                0 <= j < i + 1 && #[trigger] rs[j].0@ == kk) by {
                if kk == k@ {
                    assert(rs[i as int].0@ == kk);
                }
            }
            assert forall|kk: Seq<char>| #[trigger] out.map().contains_key(kk) implies if exists|j: int|
                0 <= j < i + 1 && #[trigger] rs[j].0@ == kk {
                vehicle_part_resolved(all.map(), kk, out.map()[kk])
            } else {
                out.map()[kk] == before[kk]
            } by {
                if kk == k@ {
                    assert(rs[i as int].0@ == kk);
                } else if exists|j: int| 0 <= j < i + 1 && #[trigger] rs[j].0@ == kk {
                    let j = choose|j: int| 0 <= j < i + 1 && #[trigger] rs[j].0@ == kk;
                    assert(j < i);
                }
            }
        }
        i = i + 1;
    }
    proof {
        assert forall|k: Seq<char>| #[trigger] all.map().contains_key(k) implies exists|j: int|
            0 <= j < n && #[trigger] rs[j].0@ == k by {}
    }
}


/// The overmap location `t` is made of the resolved entry `e` with the flags `f`.
pub open spec fn overmap_location_made_of(t: CDDAOvermapLocation, e: CDDAOvermapLocationIntermediate, f: Seq<Seq<char>>) -> bool {
    &&& seq![t.id@] == e.spec_ids()
    &&& texts(t.flags@) == f
    &&& id_texts(t.terrains@) == id_texts(e.terrains@)
}

/// The overmap location `t` is the entry stored under `k` with its copy resolved.
pub open spec fn overmap_location_resolved(all: Map<Seq<char>, CDDAOvermapLocationIntermediate>, k: Seq<char>, t: CDDAOvermapLocation) -> bool {
    forall|fuel: nat| #[trigger]
        spec_copy(all[k], all, fuel) is Some ==> {
            let (e, f) = spec_copy(all[k], all, fuel)->0;
            overmap_location_made_of(t, e, f)
        }
}

/// Stores every overmap location of `all` with its copy resolved.
fn store_overmap_locations(all: &KeyedMap<CDDAIdentifier, CDDAOvermapLocationIntermediate>, out: &mut KeyedMap<CDDAIdentifier, CDDAOvermapLocation>)
    requires
        all_single(all.map()),
        all_copies_end(all.map()),
    ensures
        forall|k: Seq<char>| #[trigger]
            final(out).map().contains_key(k) <==> (old(out).map().contains_key(k) || all.map().contains_key(k)),
        forall|k: Seq<char>| #[trigger]
            final(out).map().contains_key(k) ==> if all.map().contains_key(k) {
                overmap_location_resolved(all.map(), k, final(out).map()[k])
            } else {
                final(out).map()[k] == old(out).map()[k]
            },
{
    let ghost before = out.map();
    let resolved_list = resolved_entries(all);
    let ghost rs = resolved_list@;
    let n = resolved_list.len();
    let mut pending = reverse_vec(resolved_list);
    let mut i: usize = 0;
    while i < n
        invariant
            n == rs.len(),
            i <= n,
            pending@.len() == n - i,
            forall|j: int| 0 <= j < n - i ==> #[trigger] pending@[j] == rs[n - 1 - j],
            forall|j: int| #![trigger rs[j]]
                0 <= j < rs.len() ==> all.map().contains_key(rs[j].0@) && resolved(all.map(), rs[j].0@, rs[j].1)
                    && rs[j].1.spec_ids().len() == 1,
            forall|k: Seq<char>| #[trigger]
                out.map().contains_key(k) <==> (before.contains_key(k) || exists|j: int|
                    0 <= j < i && #[trigger] rs[j].0@ == k),
            forall|k: Seq<char>| #[trigger]
                out.map().contains_key(k) ==> if exists|j: int| 0 <= j < i && #[trigger] rs[j].0@ == k {
                    overmap_location_resolved(all.map(), k, out.map()[k])
                } else {
                    out.map()[k] == before[k]
                },
        decreases n - i,
    {
        let (k, v) = pending.pop().unwrap();
        proof {
            assert((k, v) == rs[i as int]);
        }
        let ghost vv = v;
        let t = v.into_overmap_location();
        proof {
            assert forall|fuel: nat| #[trigger] spec_copy(all.map()[k@], all.map(), fuel) is Some implies {
                let (e, f) = spec_copy(all.map()[k@], all.map(), fuel)->0;
                overmap_location_made_of(t, e, f)
            } by {
                assert(seq![t.id@] =~= id_texts(vv.id.values()));
            }
        }
        out.insert(k, t);
        proof {
            assert forall|kk: Seq<char>| #[trigger] out.map().contains_key(kk) <==> (before.contains_key(kk) || exists|j: int|
                0 <= j < i + 1 && #[trigger] rs[j].0@ == kk) by {
                if kk == k@ {
                    assert(rs[i as int].0@ == kk);
                }
            }
            assert forall|kk: Seq<char>| #[trigger] out.map().contains_key(kk) implies if exists|j: int|
                0 <= j < i + 1 && #[trigger] rs[j].0@ == kk {
                overmap_location_resolved(all.map(), kk, out.map()[kk])
            } else {
                out.map()[kk] == before[kk]
            } by {
                if kk == k@ {
                    assert(rs[i as int].0@ == kk);
                } else if exists|j: int| 0 <= j < i + 1 && #[trigger] rs[j].0@ == kk {
                    let j = choose|j: int| 0 <= j < i + 1 && #[trigger] rs[j].0@ == kk;
                    assert(j < i);
                }
            }
        }
        i = i + 1;
    }
    proof {
        assert forall|k: Seq<char>| #[trigger] all.map().contains_key(k) implies exists|j: int|
            0 <= j < n && #[trigger] rs[j].0@ == k by {}
    }
}


/// The overmap special `t` is made of the resolved entry `e` with the flags `f`.
pub open spec fn overmap_special_made_of(t: CDDAOvermapSpecial, e: CDDAOvermapSpecialIntermediate, f: Seq<Seq<char>>) -> bool {
    &&& seq![t.id@] == e.spec_ids()
    &&& texts(t.flags@) == f
    &&& special_ty_view(t.ty) == special_ty_view(e.ty)
}

/// The overmap special `t` is the entry stored under `k` with its copy resolved.
pub open spec fn overmap_special_resolved(all: Map<Seq<char>, CDDAOvermapSpecialIntermediate>, k: Seq<char>, t: CDDAOvermapSpecial) -> bool {
    forall|fuel: nat| #[trigger]
        spec_copy(all[k], all, fuel) is Some ==> {
            let (e, f) = spec_copy(all[k], all, fuel)->0;
            overmap_special_made_of(t, e, f)
        }
}

/// Stores every overmap special of `all` with its copy resolved.
fn store_overmap_specials(all: &KeyedMap<CDDAIdentifier, CDDAOvermapSpecialIntermediate>, out: &mut KeyedMap<CDDAIdentifier, CDDAOvermapSpecial>)
    requires
        all_single(all.map()),
        all_copies_end(all.map()),
    ensures
        forall|k: Seq<char>| #[trigger]
            final(out).map().contains_key(k) <==> (old(out).map().contains_key(k) || all.map().contains_key(k)),
        forall|k: Seq<char>| #[trigger]
            final(out).map().contains_key(k) ==> if all.map().contains_key(k) {
                overmap_special_resolved(all.map(), k, final(out).map()[k])
            } else {
                final(out).map()[k] == old(out).map()[k]
            },
{
    let ghost before = out.map();
    let resolved_list = resolved_entries(all);
    let ghost rs = resolved_list@;
    let n = resolved_list.len();
    let mut pending = reverse_vec(resolved_list);
    let mut i: usize = 0;
    while i < n
        invariant
            n == rs.len(),
            i <= n,
            pending@.len() == n - i,
            forall|j: int| 0 <= j < n - i ==> #[trigger] pending@[j] == rs[n - 1 - j],
            forall|j: int| #![trigger rs[j]]
                0 <= j < rs.len() ==> all.map().contains_key(rs[j].0@) && resolved(all.map(), rs[j].0@, rs[j].1)
                    && rs[j].1.spec_ids().len() == 1,
            forall|k: Seq<char>| #[trigger]
                out.map().contains_key(k) <==> (before.contains_key(k) || exists|j: int|
                    0 <= j < i && #[trigger] rs[j].0@ == k),
            forall|k: Seq<char>| #[trigger]
                out.map().contains_key(k) ==> if exists|j: int| 0 <= j < i && #[trigger] rs[j].0@ == k {
                    overmap_special_resolved(all.map(), k, out.map()[k])
                } else {
                    out.map()[k] == before[k]
                },
        decreases n - i,
    {
        let (k, v) = pending.pop().unwrap();
        proof {
            assert((k, v) == rs[i as int]);
        }
        let ghost vv = v;
        let t = v.into_overmap_special();
        proof {
            assert forall|fuel: nat| #[trigger] spec_copy(all.map()[k@], all.map(), fuel) is Some implies {
                let (e, f) = spec_copy(all.map()[k@], all.map(), fuel)->0;
                overmap_special_made_of(t, e, f)
            } by {
                assert(seq![t.id@] =~= id_texts(vv.id.values()));
            }
        }
        out.insert(k, t);
        proof {
            assert forall|kk: Seq<char>| #[trigger] out.map().contains_key(kk) <==> (before.contains_key(kk) || exists|j: int|
                0 <= j < i + 1 && #[trigger] rs[j].0@ == kk) by {
                if kk == k@ {
                    assert(rs[i as int].0@ == kk);
                }
            }
            assert forall|kk: Seq<char>| #[trigger] out.map().contains_key(kk) implies if exists|j: int|
                0 <= j < i + 1 && #[trigger] rs[j].0@ == kk {
                overmap_special_resolved(all.map(), kk, out.map()[kk])
            } else {
                out.map()[kk] == before[kk]
            } by {
                if kk == k@ {
                    assert(rs[i as int].0@ == kk);
                } else if exists|j: int| 0 <= j < i + 1 && #[trigger] rs[j].0@ == kk {
                    let j = choose|j: int| 0 <= j < i + 1 && #[trigger] rs[j].0@ == kk;
                    assert(j < i);
                }
            }
        }
        i = i + 1;
    }
    proof {
        assert forall|k: Seq<char>| #[trigger] all.map().contains_key(k) implies exists|j: int|
            0 <= j < n && #[trigger] rs[j].0@ == k by {}
    }
}


/// The vehicle `t` is made of the resolved entry `e` with the flags `f`.
pub open spec fn vehicle_made_of(t: CDDAVehicle, e: CDDAVehicleIntermediate, f: Seq<Seq<char>>) -> bool {
    &&& seq![t.id@] == e.spec_ids()
    &&& texts(t.flags@) == f
    &&& t.name == e.name
    &&& placements_view(t.parts@) == placements_view(e.parts@)
}

/// The vehicle `t` is the entry stored under `k` with its copy resolved.
pub open spec fn vehicle_resolved(all: Map<Seq<char>, CDDAVehicleIntermediate>, k: Seq<char>, t: CDDAVehicle) -> bool {
    forall|fuel: nat| #[trigger]
        spec_copy(all[k], all, fuel) is Some ==> {
            let (e, f) = spec_copy(all[k], all, fuel)->0;
            vehicle_made_of(t, e, f)
        }
}

/// Stores every vehicle of `all` with its copy resolved.
fn store_vehicles(all: &KeyedMap<CDDAIdentifier, CDDAVehicleIntermediate>, out: &mut KeyedMap<CDDAIdentifier, CDDAVehicle>)
    requires
        all_single(all.map()),
        all_copies_end(all.map()),
    ensures
        forall|k: Seq<char>| #[trigger]
            final(out).map().contains_key(k) <==> (old(out).map().contains_key(k) || all.map().contains_key(k)),
        forall|k: Seq<char>| #[trigger]
            final(out).map().contains_key(k) ==> if all.map().contains_key(k) {
                vehicle_resolved(all.map(), k, final(out).map()[k])
            } else {
                final(out).map()[k] == old(out).map()[k]
            },
{
    let ghost before = out.map();
    let resolved_list = resolved_entries(all);
    let ghost rs = resolved_list@;
    let n = resolved_list.len();
    let mut pending = reverse_vec(resolved_list);
    let mut i: usize = 0;
    while i < n
        invariant
            n == rs.len(),
            i <= n,
            pending@.len() == n - i,
            forall|j: int| 0 <= j < n - i ==> #[trigger] pending@[j] == rs[n - 1 - j],
            forall|j: int| #![trigger rs[j]]
                0 <= j < rs.len() ==> all.map().contains_key(rs[j].0@) && resolved(all.map(), rs[j].0@, rs[j].1)
                    && rs[j].1.spec_ids().len() == 1,
            forall|k: Seq<char>| #[trigger]
                out.map().contains_key(k) <==> (before.contains_key(k) || exists|j: int|
                    0 <= j < i && #[trigger] rs[j].0@ == k),
            forall|k: Seq<char>| #[trigger]
                out.map().contains_key(k) ==> if exists|j: int| 0 <= j < i && #[trigger] rs[j].0@ == k {
                    vehicle_resolved(all.map(), k, out.map()[k])
                } else {
                    out.map()[k] == before[k]
                },
        decreases n - i,
    {
        let (k, v) = pending.pop().unwrap();
        proof {
            assert((k, v) == rs[i as int]);
        }
        let ghost vv = v;
        let t = v.into_vehicle();
        proof {
            assert forall|fuel: nat| #[trigger] spec_copy(all.map()[k@], all.map(), fuel) is Some implies {
                let (e, f) = spec_copy(all.map()[k@], all.map(), fuel)->0;
                vehicle_made_of(t, e, f)
            } by {
                assert(seq![t.id@] =~= id_texts(vv.id.values()));
            }
        }
        out.insert(k, t);
        proof {
            assert forall|kk: Seq<char>| #[trigger] out.map().contains_key(kk) <==> (before.contains_key(kk) || exists|j: int|
                0 <= j < i + 1 && #[trigger] rs[j].0@ == kk) by {
                if kk == k@ {
                    assert(rs[i as int].0@ == kk);
                }
            }
            assert forall|kk: Seq<char>| #[trigger] out.map().contains_key(kk) implies if exists|j: int|
                0 <= j < i + 1 && #[trigger] rs[j].0@ == kk {
                vehicle_resolved(all.map(), kk, out.map()[kk])
            } else {
                out.map()[kk] == before[kk]
            } by {
                if kk == k@ {
                    assert(rs[i as int].0@ == kk);
                } else if exists|j: int| 0 <= j < i + 1 && #[trigger] rs[j].0@ == kk {
                    let j = choose|j: int| 0 <= j < i + 1 && #[trigger] rs[j].0@ == kk;
                    assert(j < i);
                }
            }
        }
        i = i + 1;
    }
    proof {
        assert forall|k: Seq<char>| #[trigger] all.map().contains_key(k) implies exists|j: int|
            0 <= j < n && #[trigger] rs[j].0@ == k by {}
    }
}


/// The names of a grid of overmap terrains: the name at each position of
/// the grid (rows by the length of the first row).
pub open spec fn nested_names(n: Seq<Vec<String>>) -> Set<Seq<char>> {
    Set::new(
        |s: Seq<char>|
            exists|y: int, x: int| 0 <= y < n.len() && 0 <= x < n[0]@.len() && #[trigger] n[y]@[x]@ == s,
    )
}

/// The names that a mapgen entry is stored under: its overmap terrain (one,
/// each of a list, or each of a grid), else its nested mapgen id, else its
/// update mapgen id; none when it has none of these.
pub open spec fn entry_names(e: CDDAMapDataIntermediate) -> Set<Seq<char>> {
    match e.om_terrain {
        Some(OmTerrain::Single(id)) => set![id@],
        Some(OmTerrain::Duplicate(ids)) => Set::new(|s: Seq<char>| exists|i: int| 0 <= i < ids@.len() && #[trigger] ids@[i]@ == s),
        Some(OmTerrain::Nested(n)) => nested_names(n@),
        None => match e.nested_mapgen_id {
            Some(x) => set![x@],
            None => match e.update_mapgen_id {
                Some(x) => set![x@],
                None => Set::empty(),
            },
        },
    }
}

/// The names that the mapgen entries are stored under.
pub open spec fn all_names(es: Seq<CDDAMapDataIntermediate>) -> Set<Seq<char>>
    decreases es.len(),
{
    if es.len() == 0 {
        Set::empty()
    } else {
        all_names(es.drop_last()).union(entry_names(es.last()))
    }
}

/// Whether entry `e` names position `p` of its grid `k`: a grid of overmap
/// terrains names each position; otherwise each of the entry's names
/// stands for its one map at `(0, 0)`.
pub open spec fn entry_name_at(e: CDDAMapDataIntermediate, p: (u32, u32), k: Seq<char>) -> bool {
    match e.om_terrain {
        Some(OmTerrain::Nested(n)) => p.1 < n@.len() && p.0 < n@[p.1 as int]@.len() && n@[p.1 as int]@[p.0 as int]@ == k,
        _ => p == (0u32, 0u32) && entry_names(e).contains(k),
    }
}

/// Whether `m` is a map that entry `e` makes at a position it names `k`.
pub open spec fn map_of_entry_named(m: MapGen, e: CDDAMapDataIntermediate, k: Seq<char>) -> bool {
    exists|p: (u32, u32), shared: MapPlaces, common: MapGenCommon|
        #[trigger] entry_map_at(m, e, p, shared, common) && entry_name_at(e, p, k)
}

/// The last of the mapgen entries that names `k`, if one does.
pub open spec fn last_naming(es: Seq<CDDAMapDataIntermediate>, k: Seq<char>) -> Option<CDDAMapDataIntermediate>
    decreases es.len(),
{
    if es.len() == 0 {
        None
    } else if entry_names(es.last()).contains(k) {
        Some(es.last())
    } else {
        last_naming(es.drop_last(), k)
    }
}

/// Whether storing the maps of entry `e` took `before` to `after`: a name
/// of the entry holds a map the entry makes at a position of that name,
/// any other name keeps its map.
pub open spec fn maps_stored(before: Map<Seq<char>, MapGen>, after: Map<Seq<char>, MapGen>, e: CDDAMapDataIntermediate) -> bool {
    forall|k: Seq<char>| #[trigger]
        after.contains_key(k) ==> if entry_names(e).contains(k) {
            map_of_entry_named(after[k], e, k)
        } else {
            after[k] == before[k]
        }
}

proof fn lemma_same_map_at(a: MapGen, b: MapGen, e: CDDAMapDataIntermediate, p: (u32, u32), shared: MapPlaces, common: MapGenCommon)
    requires
        same_map(a, b),
        entry_map_at(b, e, p, shared, common),
    ensures
        entry_map_at(a, e, p, shared, common),
{
}

/// Every row of a grid of overmap terrains is at least as long as the first.
pub open spec fn nested_rows_cover(e: CDDAMapDataIntermediate) -> bool {
    match e.om_terrain {
        Some(OmTerrain::Nested(n)) => forall|y: int| 0 <= y < n@.len() ==> #[trigger] n@[y]@.len() >= n@[0]@.len(),
        _ => true,
    }
}

/// Under which names the maps of an entry are stored.
enum NamePlan {
    One(String),
    Many(Vec<String>),
    Grid(Vec<Vec<String>>),
    Nothing,
}

fn name_plan(e: &CDDAMapDataIntermediate) -> (r: NamePlan)
    ensures
        match r {
            NamePlan::One(s) => entry_names(*e) == set![s@] && !(e.om_terrain matches Some(OmTerrain::Nested(_))),
            NamePlan::Many(v) => e.om_terrain matches Some(OmTerrain::Duplicate(ids)) && v@ == ids@,
            NamePlan::Grid(n) => e.om_terrain matches Some(OmTerrain::Nested(m)) && n@.len() == m@.len() && forall|y: int|
                0 <= y < n@.len() ==> #[trigger] n@[y]@ == m@[y]@,
            NamePlan::Nothing => entry_names(*e) == Set::<Seq<char>>::empty() && e.om_terrain is None,
        },
{
    match &e.om_terrain {
        Some(OmTerrain::Single(id)) => NamePlan::One(id.clone()),
        Some(OmTerrain::Duplicate(ids)) => NamePlan::Many(crate::import::clone_flag_list(ids)),
        Some(OmTerrain::Nested(n)) => {
            let mut out: Vec<Vec<String>> = Vec::new();
            let mut y: usize = 0;
            while y < n.len()
                invariant
                    y <= n@.len(),
                    out@.len() == y,
                    forall|j: int| 0 <= j < y ==> #[trigger] out@[j]@ == n@[j]@,
                decreases n@.len() - y,
            {
                out.push(crate::import::clone_flag_list(&n[y]));
                y = y + 1;
            }
            NamePlan::Grid(out)
        },
        None => match &e.nested_mapgen_id {
            Some(x) => NamePlan::One(x.0.clone()),
            None => match &e.update_mapgen_id {
                Some(x) => NamePlan::One(x.0.clone()),
                None => NamePlan::Nothing,
            },
        },
    }
}

/// Converts one mapgen entry and stores its maps under its names.
#[verifier::spinoff_prover]
#[verifier::rlimit(40)]
fn store_mapgen(mapgen: CDDAMapDataIntermediate, out: &mut KeyedMap<CDDAIdentifier, MapGen>) -> (r: Result<
    (),
    IntoMapDataCollectionError,
>)
    requires
        entry_readable(mapgen),
        nested_rows_cover(mapgen),
    ensures
        r is Err <==> entry_grid(mapgen) is None,
        r is Err ==> final(out).map() == old(out).map(),
        r is Ok ==> final(out).map().dom() == old(out).map().dom().union(entry_names(mapgen)),
        r is Ok ==> maps_stored(old(out).map(), final(out).map(), mapgen),
{
    let ghost before = out.map();
    let ghost e = mapgen;
    let plan = name_plan(&mapgen);
    match plan {
        NamePlan::Nothing => {
            proof {
                assert(before.dom().union(entry_names(e)) =~= before.dom());
            }
            Ok(())
        },
        NamePlan::One(name) => {
            let mut c = match mapgen.try_into() {
                Ok(c) => c,
                Err(err) => {
                    return Err(err);
                },
            };
            let ghost w: (MapPlaces, MapGenCommon) = choose|s: MapPlaces, cc: MapGenCommon| maps_made(c, e, s, cc);
            let ghost cm = c.maps.map();
            let ghost nm = name@;
            proof {
                assert(c.maps.map().contains_key((0u32, 0u32)));
                assert(entry_map_at(cm[(0u32, 0u32)], e, (0u32, 0u32), w.0, w.1));
            }
            match c.maps.remove(&(0u32, 0u32)) {
                Some(m) => {
                    out.insert(CDDAIdentifier(name), m);
                    proof {
                        assert(out.map().dom() =~= before.dom().union(entry_names(e)));
                        assert(entry_names(e).contains(nm));
                        assert(entry_map_at(m, e, (0u32, 0u32), w.0, w.1) && entry_name_at(e, (0u32, 0u32), nm));
                        assert(map_of_entry_named(m, e, nm));
                        assert forall|k: Seq<char>| #[trigger] out.map().contains_key(k) implies (if entry_names(e).contains(k) {
                            map_of_entry_named(out.map()[k], e, k)
                        } else {
                            out.map()[k] == before[k]
                        }) by {
                            if k == nm {
                            } else {
                                assert(!entry_names(e).contains(k));
                            }
                        }
                    }
                    Ok(())
                },
                None => {
                    proof {
                        assert(false);
                    }
                    Ok(())
                },
            }
        },
        NamePlan::Many(ids) => {
            let c = match mapgen.try_into() {
                Ok(c) => c,
                Err(err) => {
                    return Err(err);
                },
            };
            let ghost w: (MapPlaces, MapGenCommon) = choose|s: MapPlaces, cc: MapGenCommon| maps_made(c, e, s, cc);
            let ghost written = e.om_terrain->Some_0->Duplicate_0;
            proof {
                assert(c.maps.map().contains_key((0u32, 0u32)));
                assert(entry_map_at(c.maps.map()[(0u32, 0u32)], e, (0u32, 0u32), w.0, w.1));
            }
            match c.maps.get(&(0u32, 0u32)) {
                Some(m) => {
                    let mut j: usize = 0;
                    while j < ids.len()
                        invariant
                            j <= ids@.len(),
                            e.om_terrain matches Some(OmTerrain::Duplicate(x)) && x@ == ids@,
                            written@ == ids@,
                            entry_map_at(*m, e, (0u32, 0u32), w.0, w.1),
                            out.map().dom() == before.dom().union(
                                Set::new(|s: Seq<char>| exists|i: int| 0 <= i < j && #[trigger] ids@[i]@ == s),
                            ),
                            forall|k: Seq<char>| #[trigger]
                                out.map().contains_key(k) ==> if exists|i: int| 0 <= i < j && #[trigger] ids@[i]@ == k {
                                    map_of_entry_named(out.map()[k], e, k)
                                } else {
                                    out.map()[k] == before[k]
                                },
                        decreases ids@.len() - j,
                    {
                        let ghost nm = ids@[j as int]@;
                        let copy = m.duplicate();
                        proof {
                            lemma_same_map_at(copy, *m, e, (0u32, 0u32), w.0, w.1);
                            assert(written@[j as int]@ == nm);
                            assert(entry_names(e).contains(nm));
                            assert(entry_map_at(copy, e, (0u32, 0u32), w.0, w.1) && entry_name_at(e, (0u32, 0u32), nm));
                        }
                        let ghost prev = out.map();
                        out.insert(CDDAIdentifier(ids[j].clone()), copy);
                        proof {
                            assert(out.map().dom() =~= before.dom().union(
                                Set::new(|s: Seq<char>| exists|i: int| 0 <= i < j + 1 && #[trigger] ids@[i]@ == s),
                            ));
                            assert forall|k: Seq<char>| #[trigger] out.map().contains_key(k) implies (if exists|i: int|
                                0 <= i < j + 1 && #[trigger] ids@[i]@ == k {
                                map_of_entry_named(out.map()[k], e, k)
                            } else {
                                out.map()[k] == before[k]
                            }) by {
                                if k == nm {
                                    assert(ids@[j as int]@ == k);
                                } else {
                                    assert(prev.contains_key(k));
                                    if exists|i: int| 0 <= i < j + 1 && #[trigger] ids@[i]@ == k {
                                        let i = choose|i: int| 0 <= i < j + 1 && #[trigger] ids@[i]@ == k;
                                        assert(i < j);
                                    }
                                }
                            }
                        }
                        j = j + 1;
                    }
                    proof {
                        assert(out.map().dom() =~= before.dom().union(entry_names(e)));
                        assert forall|k: Seq<char>| #[trigger] out.map().contains_key(k) implies (if entry_names(e).contains(k) {
                            map_of_entry_named(out.map()[k], e, k)
                        } else {
                            out.map()[k] == before[k]
                        }) by {
                            if entry_names(e).contains(k) {
                                let i = choose|i: int| 0 <= i < written@.len() && #[trigger] written@[i]@ == k;
                                assert(ids@[i]@ == k);
                            } else {
                                if exists|i: int| 0 <= i < ids@.len() && #[trigger] ids@[i]@ == k {
                                    let i = choose|i: int| 0 <= i < ids@.len() && #[trigger] ids@[i]@ == k;
                                    assert(written@[i]@ == k);
                                }
                            }
                        }
                    }
                    Ok(())
                },
                None => {
                    proof {
                        assert(false);
                    }
                    Ok(())
                },
            }
        },
        NamePlan::Grid(n) => {
            let c = match mapgen.try_into() {
                Ok(c) => c,
                Err(err) => {
                    return Err(err);
                },
            };
            let ghost cm = c.maps.map();
            let ghost grid = entry_grid(e)->0;
            let ghost w: (MapPlaces, MapGenCommon) = choose|s: MapPlaces, cc: MapGenCommon| maps_made(c, e, s, cc);
            let maps = c.maps.into_entries();
            let ghost ms = maps@;
            proof {
                assert forall|i: int| 0 <= i < ms.len() implies #[trigger] cm.contains_key(ms[i].0) by {
                    assert(cm.contains_key(ms[i].0.key()));
                }
                assert forall|i: int| 0 <= i < ms.len() implies #[trigger] entry_map_at(ms[i].1, e, ms[i].0, w.0, w.1) by {
                    assert(cm.contains_key(ms[i].0.key()));
                    assert(cm[ms[i].0] == ms[i].1);
                }
            }
            let count = maps.len();
            let mut pending = reverse_vec(maps);
            let mut j: usize = 0;
            while j < count
                invariant
                    count == ms.len(),
                    j <= count,
                    pending@.len() == count - j,
                    forall|i: int| 0 <= i < count - j ==> #[trigger] pending@[i] == ms[count - 1 - i],
                    forall|i: int| 0 <= i < ms.len() ==> #[trigger] cm.contains_key(ms[i].0),
                    cm.dom() == Set::new(|p: (u32, u32)| p.0 < grid.0 && p.1 < grid.1),
                    e.om_terrain matches Some(OmTerrain::Nested(m)) && grid == (m@[0]@.len() as int, m@.len() as int)
                        && m@.len() > 0 && n@.len() == m@.len() && (forall|y: int| 0 <= y < n@.len() ==> #[trigger] n@[y]@ == m@[y]@)
                        && (forall|y: int| 0 <= y < m@.len() ==> #[trigger] m@[y]@.len() >= m@[0]@.len()),
                    out.map().dom() == before.dom().union(
                        Set::new(|s: Seq<char>| exists|i: int| 0 <= i < j && #[trigger] n@[ms[i].0.1 as int]@[ms[i].0.0 as int]@ == s),
                    ),
                    forall|i: int| 0 <= i < ms.len() ==> #[trigger] entry_map_at(ms[i].1, e, ms[i].0, w.0, w.1),
                    forall|k: Seq<char>| #[trigger]
                        out.map().contains_key(k) ==> if exists|i: int|
                            0 <= i < j && #[trigger] n@[ms[i].0.1 as int]@[ms[i].0.0 as int]@ == k {
                            map_of_entry_named(out.map()[k], e, k)
                        } else {
                            out.map()[k] == before[k]
                        },
                decreases count - j,
            {
                let (pos, m) = pending.pop().unwrap();
                proof {
                    assert((pos, m) == ms[j as int]);
                    assert(cm.contains_key(pos));
                }
                let name = n[pos.1 as usize][pos.0 as usize].clone();
                let ghost nm = name@;
                proof {
                    let mm = e.om_terrain->Some_0->Nested_0;
                    assert(n@[pos.1 as int]@ == mm@[pos.1 as int]@);
                    assert(mm@[pos.1 as int]@.len() >= mm@[0]@.len());
                    assert(entry_name_at(e, pos, nm));
                    assert(entry_map_at(ms[j as int].1, e, ms[j as int].0, w.0, w.1));
                    assert(entry_map_at(m, e, pos, w.0, w.1) && entry_name_at(e, pos, nm));
                    assert(map_of_entry_named(m, e, nm));
                }
                let ghost prev = out.map();
                let ghost jj = j as int;
                out.insert(CDDAIdentifier(name), m);
                proof {
                    assert(out.map().dom() =~= before.dom().union(
                        Set::new(|s: Seq<char>| exists|i: int| 0 <= i < j + 1 && #[trigger] n@[ms[i].0.1 as int]@[ms[i].0.0 as int]@ == s),
                    ));
                    assert(n@[ms[jj].0.1 as int]@[ms[jj].0.0 as int]@ == nm);
                    assert forall|k: Seq<char>| #[trigger] out.map().contains_key(k) implies (if exists|i: int|
                        0 <= i < jj + 1 && #[trigger] n@[ms[i].0.1 as int]@[ms[i].0.0 as int]@ == k {
                        map_of_entry_named(out.map()[k], e, k)
                    } else {
                        out.map()[k] == before[k]
                    }) by {
                        if k == nm {
                        } else {
                            assert(prev.contains_key(k));
                            if exists|i: int| 0 <= i < jj + 1 && #[trigger] n@[ms[i].0.1 as int]@[ms[i].0.0 as int]@ == k {
                                let i = choose|i: int| 0 <= i < jj + 1 && #[trigger] n@[ms[i].0.1 as int]@[ms[i].0.0 as int]@ == k;
                                assert(i < jj);
                            }
                        }
                    }
                }
                j = j + 1;
            }
            proof {
                let m = e.om_terrain->Some_0->Nested_0;
                assert forall|s: Seq<char>| #[trigger] nested_names(m@).contains(s) implies exists|i: int|
                    0 <= i < count && #[trigger] n@[ms[i].0.1 as int]@[ms[i].0.0 as int]@ == s by {
                    let (y, x) = choose|y: int, x: int| 0 <= y < m@.len() && 0 <= x < m@[0]@.len() && #[trigger] m@[y]@[x]@ == s;
                    let p = (x as u32, y as u32);
                    assert(cm.contains_key(p));
                    let i = choose|i: int| 0 <= i < ms.len() && #[trigger] ms[i].0 == p;
                    assert(n@[ms[i].0.1 as int]@[ms[i].0.0 as int]@ == s);
                }
                assert forall|s: Seq<char>| (exists|i: int|
                    0 <= i < count && #[trigger] n@[ms[i].0.1 as int]@[ms[i].0.0 as int]@ == s) implies #[trigger] nested_names(m@).contains(s) by {
                    let i = choose|i: int| 0 <= i < count && #[trigger] n@[ms[i].0.1 as int]@[ms[i].0.0 as int]@ == s;
                    assert(cm.contains_key(ms[i].0));
                    let y = ms[i].0.1 as int;
                    let x = ms[i].0.0 as int;
                    assert(m@[y]@[x]@ == s);
                }
                assert(out.map().dom() =~= before.dom().union(entry_names(e)));
                assert forall|k: Seq<char>| #[trigger] out.map().contains_key(k) implies (if entry_names(e).contains(k) {
                    map_of_entry_named(out.map()[k], e, k)
                } else {
                    out.map()[k] == before[k]
                }) by {
                    if entry_names(e).contains(k) {
                        assert(nested_names(m@).contains(k));
                    } else {
                        assert(!nested_names(m@).contains(k));
                    }
                }
            }
            Ok(())
        },
    }
}


/// Stores every palette of `all`, converted.
fn store_palettes(all: KeyedMap<CDDAIdentifier, CDDAPaletteIntermediate>, out: &mut KeyedMap<CDDAIdentifier, CDDAPalette>)
    ensures
        forall|k: Seq<char>| #[trigger]
            final(out).map().contains_key(k) <==> (old(out).map().contains_key(k) || all.map().contains_key(k)),
        forall|k: Seq<char>| #[trigger]
            final(out).map().contains_key(k) ==> if all.map().contains_key(k) {
                palette_made_of(final(out).map()[k], all.map()[k])
            } else {
                final(out).map()[k] == old(out).map()[k]
            },
{
    let ghost before = out.map();
    let ghost am = all.map();
    let list = all.into_entries();
    let ghost es = list@;
    let n = list.len();
    let mut pending = reverse_vec(list);
    let mut i: usize = 0;
    while i < n
        invariant
            n == es.len(),
            i <= n,
            pending@.len() == n - i,
            forall|j: int| 0 <= j < n - i ==> #[trigger] pending@[j] == es[n - 1 - j],
            forall|j: int| 0 <= j < es.len() ==> am.contains_key(#[trigger] es[j].0.key()) && am[es[j].0.key()] == es[j].1,
            forall|k: Seq<char>| #[trigger] am.contains_key(k) ==> exists|j: int| 0 <= j < es.len() && #[trigger] es[j].0.key() == k,
            forall|k: Seq<char>| #[trigger]
                out.map().contains_key(k) <==> (before.contains_key(k) || exists|j: int| 0 <= j < i && #[trigger] es[j].0.key() == k),
            forall|k: Seq<char>| #[trigger]
                out.map().contains_key(k) ==> if exists|j: int| 0 <= j < i && #[trigger] es[j].0.key() == k {
                    palette_made_of(out.map()[k], am[k])
                } else {
                    out.map()[k] == before[k]
                },
        decreases n - i,
    {
        let (k, p) = pending.pop().unwrap();
        proof {
            assert((k, p) == es[i as int]);
        }
        let converted = p.into_palette();
        out.insert(k, converted);
        proof {
            assert forall|kk: Seq<char>| #[trigger] out.map().contains_key(kk) <==> (before.contains_key(kk) || exists|j: int|
                0 <= j < i + 1 && #[trigger] es[j].0.key() == kk) by {
                if kk == k@ {
                    assert(es[i as int].0.key() == kk);
                }
            }
            assert forall|kk: Seq<char>| #[trigger] out.map().contains_key(kk) implies if exists|j: int|
                0 <= j < i + 1 && #[trigger] es[j].0.key() == kk {
                palette_made_of(out.map()[kk], am[kk])
            } else {
                out.map()[kk] == before[kk]
            } by {
                if kk == k@ {
                    assert(es[i as int].0.key() == kk);
                } else if exists|j: int| 0 <= j < i + 1 && #[trigger] es[j].0.key() == kk {
                    let j = choose|j: int| 0 <= j < i + 1 && #[trigger] es[j].0.key() == kk;
                    assert(j < i);
                }
            }
        }
        i = i + 1;
    }
}

/// Stores every item group of `all`, its entries in full form.
fn store_item_groups(all: KeyedMap<CDDAIdentifier, CDDAItemGroupIntermediate>, out: &mut KeyedMap<CDDAIdentifier, CDDAItemGroup>)
    ensures
        forall|k: Seq<char>| #[trigger]
            final(out).map().contains_key(k) <==> (old(out).map().contains_key(k) || all.map().contains_key(k)),
        forall|k: Seq<char>| #[trigger]
            final(out).map().contains_key(k) ==> if all.map().contains_key(k) {
                item_group_made_of(final(out).map()[k], all.map()[k])
            } else {
                final(out).map()[k] == old(out).map()[k]
            },
{
    let ghost before = out.map();
    let ghost am = all.map();
    let list = all.into_entries();
    let ghost es = list@;
    let n = list.len();
    let mut pending = reverse_vec(list);
    let mut i: usize = 0;
    while i < n
        invariant
            n == es.len(),
            i <= n,
            pending@.len() == n - i,
            forall|j: int| 0 <= j < n - i ==> #[trigger] pending@[j] == es[n - 1 - j],
            forall|j: int| 0 <= j < es.len() ==> am.contains_key(#[trigger] es[j].0.key()) && am[es[j].0.key()] == es[j].1,
            forall|k: Seq<char>| #[trigger] am.contains_key(k) ==> exists|j: int| 0 <= j < es.len() && #[trigger] es[j].0.key() == k,
            forall|k: Seq<char>| #[trigger]
                out.map().contains_key(k) <==> (before.contains_key(k) || exists|j: int| 0 <= j < i && #[trigger] es[j].0.key() == k),
            forall|k: Seq<char>| #[trigger]
                out.map().contains_key(k) ==> if exists|j: int| 0 <= j < i && #[trigger] es[j].0.key() == k {
                    item_group_made_of(out.map()[k], am[k])
                } else {
                    out.map()[k] == before[k]
                },
        decreases n - i,
    {
        let (k, p) = pending.pop().unwrap();
        proof {
            assert((k, p) == es[i as int]);
        }
        let converted = p.into_group();
        out.insert(k, converted);
        proof {
            assert forall|kk: Seq<char>| #[trigger] out.map().contains_key(kk) <==> (before.contains_key(kk) || exists|j: int|
                0 <= j < i + 1 && #[trigger] es[j].0.key() == kk) by {
                if kk == k@ {
                    assert(es[i as int].0.key() == kk);
                }
            }
            assert forall|kk: Seq<char>| #[trigger] out.map().contains_key(kk) implies if exists|j: int|
                0 <= j < i + 1 && #[trigger] es[j].0.key() == kk {
                item_group_made_of(out.map()[kk], am[kk])
            } else {
                out.map()[kk] == before[kk]
            } by {
                if kk == k@ {
                    assert(es[i as int].0.key() == kk);
                } else if exists|j: int| 0 <= j < i + 1 && #[trigger] es[j].0.key() == kk {
                    let j = choose|j: int| 0 <= j < i + 1 && #[trigger] es[j].0.key() == kk;
                    assert(j < i);
                }
            }
        }
        i = i + 1;
    }
}

/// Stores every region setting of `all`.
fn store_region_settings(
    all: KeyedMap<CDDAIdentifier, CDDARegionSettings>,
    out: &mut KeyedMap<CDDAIdentifier, CDDARegionSettings>,
)
    ensures
        final(out).map() == old(out).map().union_prefer_right(all.map()),
{
    let ghost before = out.map();
    let ghost am = all.map();
    let list = all.into_entries();
    let ghost es = list@;
    let n = list.len();
    let mut pending = reverse_vec(list);
    let mut i: usize = 0;
    while i < n
        invariant
            n == es.len(),
            i <= n,
            pending@.len() == n - i,
            forall|j: int| 0 <= j < n - i ==> #[trigger] pending@[j] == es[n - 1 - j],
            forall|j: int| 0 <= j < es.len() ==> am.contains_key(#[trigger] es[j].0.key()) && am[es[j].0.key()] == es[j].1,
            forall|k: Seq<char>| #[trigger] am.contains_key(k) ==> exists|j: int| 0 <= j < es.len() && #[trigger] es[j].0.key() == k,
            forall|k: Seq<char>| #[trigger]
                out.map().contains_key(k) <==> (before.contains_key(k) || exists|j: int| 0 <= j < i && #[trigger] es[j].0.key() == k),
            forall|k: Seq<char>| #[trigger]
                out.map().contains_key(k) ==> out.map()[k] == if exists|j: int| 0 <= j < i && #[trigger] es[j].0.key() == k {
                    am[k]
                } else {
                    before[k]
                },
        decreases n - i,
    {
        let (k, v) = pending.pop().unwrap();
        proof {
            assert((k, v) == es[i as int]);
        }
        out.insert(k, v);
        proof {
            assert forall|kk: Seq<char>| #[trigger] out.map().contains_key(kk) <==> (before.contains_key(kk) || exists|j: int|
                0 <= j < i + 1 && #[trigger] es[j].0.key() == kk) by {
                if kk == k@ {
                    assert(es[i as int].0.key() == kk);
                }
            }
            assert forall|kk: Seq<char>| #[trigger] out.map().contains_key(kk) implies out.map()[kk] == if exists|j: int|
                0 <= j < i + 1 && #[trigger] es[j].0.key() == kk {
                am[kk]
            } else {
                before[kk]
            } by {
                if kk == k@ {
                    assert(es[i as int].0.key() == kk);
                } else if exists|j: int| 0 <= j < i + 1 && #[trigger] es[j].0.key() == kk {
                    let j = choose|j: int| 0 <= j < i + 1 && #[trigger] es[j].0.key() == kk;
                    assert(j < i);
                }
            }
        }
        i = i + 1;
    }
    proof {
        assert(out.map() =~= before.union_prefer_right(am));
    }
}

/// The first mapgen entry whose grid of maps is empty, if any.
pub open spec fn some_grid_empty(es: Seq<CDDAMapDataIntermediate>) -> bool {
    exists|i: int| 0 <= i < es.len() && #[trigger] entry_grid(es[i]) is None
}

/// How moving the read entries in took the game data from `d0` to `d`
/// (see `replace_data_in_cdda_data`).
pub open spec fn data_replaced(d0: DeserializedCDDAJsonData, d: DeserializedCDDAJsonData, inter: IntermediateCDDAJsonData) -> bool {
    &&& d.map_data.map().dom() == d0.map_data.map().dom().union(all_names(inter.intermediate_map_data@))
    &&& forall|k: Seq<char>| #[trigger]
        d.map_data.map().contains_key(k) ==> match last_naming(inter.intermediate_map_data@, k) {
            Some(e) => map_of_entry_named(d.map_data.map()[k], e, k),
            None => d.map_data.map()[k] == d0.map_data.map()[k],
        }
    &&& d.region_settings.map() == d0.region_settings.map().union_prefer_right(
        inter.intermediate_region_settings.map(),
    )
    &&& forall|k: Seq<char>| #[trigger]
        d.palettes.map().contains_key(k) <==> (d0.palettes.map().contains_key(k)
            || inter.intermediate_palettes.map().contains_key(k))
    &&& forall|k: Seq<char>| #[trigger]
        d.palettes.map().contains_key(k) ==> if inter.intermediate_palettes.map().contains_key(k) {
            palette_made_of(d.palettes.map()[k], inter.intermediate_palettes.map()[k])
        } else {
            d.palettes.map()[k] == d0.palettes.map()[k]
        }
    &&& forall|k: Seq<char>| #[trigger]
        d.terrain.map().contains_key(k) <==> (d0.terrain.map().contains_key(k)
            || inter.intermediate_terrains.map().contains_key(k))
    &&& forall|k: Seq<char>| #[trigger]
        d.terrain.map().contains_key(k) ==> if inter.intermediate_terrains.map().contains_key(k) {
            terrain_resolved(inter.intermediate_terrains.map(), k, d.terrain.map()[k])
        } else {
            d.terrain.map()[k] == d0.terrain.map()[k]
        }
    &&& forall|k: Seq<char>| #[trigger]
        d.furniture.map().contains_key(k) <==> (d0.furniture.map().contains_key(k)
            || inter.intermediate_furnitures.map().contains_key(k))
    &&& forall|k: Seq<char>| #[trigger]
        d.furniture.map().contains_key(k) ==> if inter.intermediate_furnitures.map().contains_key(k) {
            furniture_resolved(inter.intermediate_furnitures.map(), k, d.furniture.map()[k])
        } else {
            d.furniture.map()[k] == d0.furniture.map()[k]
        }
    &&& forall|k: Seq<char>| #[trigger]
        d.monster_groups.map().contains_key(k) <==> (d0.monster_groups.map().contains_key(k)
            || inter.intermediate_monster_groups.map().contains_key(k))
    &&& forall|k: Seq<char>| #[trigger]
        d.monster_groups.map().contains_key(k) ==> if inter.intermediate_monster_groups.map().contains_key(k) {
            monster_group_resolved(inter.intermediate_monster_groups.map(), k, d.monster_groups.map()[k])
        } else {
            d.monster_groups.map()[k] == d0.monster_groups.map()[k]
        }
    &&& forall|k: Seq<char>| #[trigger]
        d.overmap_terrains.map().contains_key(k) <==> (d0.overmap_terrains.map().contains_key(k)
            || inter.intermediate_overmap_terrains.map().contains_key(k))
    &&& forall|k: Seq<char>| #[trigger]
        d.overmap_terrains.map().contains_key(k) ==> if inter.intermediate_overmap_terrains.map().contains_key(k) {
            overmap_terrain_resolved(inter.intermediate_overmap_terrains.map(), k, d.overmap_terrains.map()[k])
        } else {
            d.overmap_terrains.map()[k] == d0.overmap_terrains.map()[k]
        }
    &&& forall|k: Seq<char>| #[trigger]
        d.vehicle_parts.map().contains_key(k) <==> (d0.vehicle_parts.map().contains_key(k)
            || inter.intermediate_vehicle_parts.map().contains_key(k))
    &&& forall|k: Seq<char>| #[trigger]
        d.vehicle_parts.map().contains_key(k) ==> if inter.intermediate_vehicle_parts.map().contains_key(k) {
            vehicle_part_resolved(inter.intermediate_vehicle_parts.map(), k, d.vehicle_parts.map()[k])
        } else {
            d.vehicle_parts.map()[k] == d0.vehicle_parts.map()[k]
        }
    &&& forall|k: Seq<char>| #[trigger]
        d.item_groups.map().contains_key(k) <==> (d0.item_groups.map().contains_key(k)
            || inter.intermediate_item_groups.map().contains_key(k))
    &&& forall|k: Seq<char>| #[trigger]
        d.item_groups.map().contains_key(k) ==> if inter.intermediate_item_groups.map().contains_key(k) {
            item_group_made_of(d.item_groups.map()[k], inter.intermediate_item_groups.map()[k])
        } else {
            d.item_groups.map()[k] == d0.item_groups.map()[k]
        }
    &&& forall|k: Seq<char>| #[trigger]
        d.vehicles.map().contains_key(k) <==> (d0.vehicles.map().contains_key(k)
            || inter.intermediate_vehicles.map().contains_key(k))
    &&& forall|k: Seq<char>| #[trigger]
        d.vehicles.map().contains_key(k) ==> if inter.intermediate_vehicles.map().contains_key(k) {
            vehicle_resolved(inter.intermediate_vehicles.map(), k, d.vehicles.map()[k])
        } else {
            d.vehicles.map()[k] == d0.vehicles.map()[k]
        }
    &&& forall|k: Seq<char>| #[trigger]
        d.overmap_specials.map().contains_key(k) <==> (d0.overmap_specials.map().contains_key(k)
            || inter.intermediate_overmap_specials.map().contains_key(k))
    &&& forall|k: Seq<char>| #[trigger]
        d.overmap_specials.map().contains_key(k) ==> if inter.intermediate_overmap_specials.map().contains_key(k) {
            overmap_special_resolved(inter.intermediate_overmap_specials.map(), k, d.overmap_specials.map()[k])
        } else {
            d.overmap_specials.map()[k] == d0.overmap_specials.map()[k]
        }
    &&& forall|k: Seq<char>| #[trigger]
        d.overmap_locations.map().contains_key(k) <==> (d0.overmap_locations.map().contains_key(k)
            || inter.intermediate_overmap_locations.map().contains_key(k))
    &&& forall|k: Seq<char>| #[trigger]
        d.overmap_locations.map().contains_key(k) ==> if inter.intermediate_overmap_locations.map().contains_key(k) {
            overmap_location_resolved(inter.intermediate_overmap_locations.map(), k, d.overmap_locations.map()[k])
        } else {
            d.overmap_locations.map()[k] == d0.overmap_locations.map()[k]
        }
}

/// Moves the read entries into the game data: mapgen entries become maps
/// stored under their names; region settings as they are; palettes and
/// item groups converted; terrain, furniture, monster groups, overmap
/// locations, terrains and specials, vehicles and vehicle parts with their
/// copies resolved. The first mapgen entry with an empty grid of maps
/// is an error, and nothing after it is stored.
pub fn replace_data_in_cdda_data(
    cdda_data: &mut DeserializedCDDAJsonData,
    intermediate_data: IntermediateCDDAJsonData,
) -> (r: Result<(), IntoMapDataCollectionError>)
    requires
        forall|i: int| 0 <= i < intermediate_data.intermediate_map_data@.len() ==> entry_readable(
            #[trigger] intermediate_data.intermediate_map_data@[i],
        ) && nested_rows_cover(intermediate_data.intermediate_map_data@[i]),
        all_single(intermediate_data.intermediate_terrains.map()),
        all_copies_end(intermediate_data.intermediate_terrains.map()),
        all_single(intermediate_data.intermediate_furnitures.map()),
        all_copies_end(intermediate_data.intermediate_furnitures.map()),
        all_single(intermediate_data.intermediate_monster_groups.map()),
        all_copies_end(intermediate_data.intermediate_monster_groups.map()),
        all_single(intermediate_data.intermediate_overmap_terrains.map()),
        all_copies_end(intermediate_data.intermediate_overmap_terrains.map()),
        all_single(intermediate_data.intermediate_vehicle_parts.map()),
        all_copies_end(intermediate_data.intermediate_vehicle_parts.map()),
        all_single(intermediate_data.intermediate_vehicles.map()),
        all_copies_end(intermediate_data.intermediate_vehicles.map()),
        all_single(intermediate_data.intermediate_overmap_specials.map()),
        all_copies_end(intermediate_data.intermediate_overmap_specials.map()),
        all_single(intermediate_data.intermediate_overmap_locations.map()),
        all_copies_end(intermediate_data.intermediate_overmap_locations.map()),
    ensures
        r is Err <==> some_grid_empty(intermediate_data.intermediate_map_data@),
        r is Ok ==> data_replaced(*old(cdda_data), *final(cdda_data), intermediate_data),
{
    let IntermediateCDDAJsonData {
        intermediate_map_data,
        intermediate_region_settings,
        intermediate_palettes,
        intermediate_terrains,
        intermediate_furnitures,
        intermediate_overmap_terrains,
        intermediate_monster_groups,
        intermediate_vehicle_parts,
        intermediate_item_groups,
        intermediate_vehicles,
        intermediate_overmap_specials,
        intermediate_overmap_locations,
    } = intermediate_data;
    let ghost es = intermediate_map_data@;
    let ghost before = cdda_data.map_data.map();
    let n = intermediate_map_data.len();
    let mut pending = reverse_vec(intermediate_map_data);
    let mut i: usize = 0;
    proof {
        assert(es.take(0) =~= Seq::<CDDAMapDataIntermediate>::empty());
        assert(before.dom().union(all_names(es.take(0))) =~= before.dom());
    }
    while i < n
        invariant
            n == es.len(),
            es == intermediate_data.intermediate_map_data@,
            cdda_data.region_settings == old(cdda_data).region_settings,
            cdda_data.palettes == old(cdda_data).palettes,
            cdda_data.terrain == old(cdda_data).terrain,
            cdda_data.furniture == old(cdda_data).furniture,
            cdda_data.overmap_terrains == old(cdda_data).overmap_terrains,
            cdda_data.monster_groups == old(cdda_data).monster_groups,
            cdda_data.vehicle_parts == old(cdda_data).vehicle_parts,
            cdda_data.item_groups == old(cdda_data).item_groups,
            cdda_data.vehicles == old(cdda_data).vehicles,
            cdda_data.overmap_specials == old(cdda_data).overmap_specials,
            cdda_data.overmap_locations == old(cdda_data).overmap_locations,
            i <= n,
            pending@.len() == n - i,
            forall|j: int| 0 <= j < n - i ==> #[trigger] pending@[j] == es[n - 1 - j],
            forall|j: int| 0 <= j < es.len() ==> entry_readable(#[trigger] es[j]) && nested_rows_cover(es[j]),
            forall|j: int| 0 <= j < i ==> entry_grid(#[trigger] es[j]) is Some,
            cdda_data.map_data.map().dom() == before.dom().union(all_names(es.take(i as int))),
            forall|k: Seq<char>| #[trigger]
                cdda_data.map_data.map().contains_key(k) ==> match last_naming(es.take(i as int), k) {
                    Some(e) => map_of_entry_named(cdda_data.map_data.map()[k], e, k),
                    None => cdda_data.map_data.map()[k] == before[k],
                },
        decreases n - i,
    {
        let mapgen = pending.pop().unwrap();
        proof {
            assert(mapgen == es[i as int]);
        }
        let ghost prev = cdda_data.map_data.map();
        let res = store_mapgen(mapgen, &mut cdda_data.map_data);
        match res {
            Ok(()) => {},
            Err(err) => {
                proof {
                    assert(entry_grid(es[i as int]) is None);
                }
                return Err(err);
            },
        }
        proof {
            let s = es.take(i + 1);
            assert(s.drop_last() =~= es.take(i as int));
            assert(s.last() == es[i as int]);
            assert(cdda_data.map_data.map().dom() =~= before.dom().union(all_names(s)));
            let now = cdda_data.map_data.map();
            assert forall|k: Seq<char>| #[trigger] now.contains_key(k) implies match last_naming(s, k) {
                Some(e) => map_of_entry_named(now[k], e, k),
                None => now[k] == before[k],
            } by {
                if !entry_names(es[i as int]).contains(k) {
                    assert(prev.contains_key(k));
                    assert(last_naming(s, k) == last_naming(es.take(i as int), k));
                }
            }
        }
        i = i + 1;
    }
    proof {
        assert(es.take(n as int) =~= es);
    }
    store_region_settings(intermediate_region_settings, &mut cdda_data.region_settings);
    store_palettes(intermediate_palettes, &mut cdda_data.palettes);
    store_terrains(&intermediate_terrains, &mut cdda_data.terrain);
    store_furniture(&intermediate_furnitures, &mut cdda_data.furniture);
    store_monster_groups(&intermediate_monster_groups, &mut cdda_data.monster_groups);
    store_overmap_terrains(&intermediate_overmap_terrains, &mut cdda_data.overmap_terrains);
    store_vehicle_parts(&intermediate_vehicle_parts, &mut cdda_data.vehicle_parts);
    store_item_groups(intermediate_item_groups, &mut cdda_data.item_groups);
    store_vehicles(&intermediate_vehicles, &mut cdda_data.vehicles);
    store_overmap_specials(&intermediate_overmap_specials, &mut cdda_data.overmap_specials);
    store_overmap_locations(&intermediate_overmap_locations, &mut cdda_data.overmap_locations);
    proof {
        assert(!some_grid_empty(es));
        assert(cdda_data.map_data.map().dom() == before.dom().union(all_names(es)));
        assert(data_replaced(*old(cdda_data), *cdda_data, intermediate_data));
    }
    Ok(())
}


proof fn lemma_split_single<T: ImportCDDAObject>(
    before: Map<Seq<char>, T>,
    after: Map<Seq<char>, T>,
    es: Seq<CDDAJsonEntry>,
    pick: spec_fn(CDDAJsonEntry) -> Option<T>,
    path: String,
)
    requires
        all_single(before),
        split_into(before, after, es, pick, path),
    ensures
        all_single(after),
{
    assert forall|k: Seq<char>| #[trigger] after.contains_key(k) implies after[k].spec_ids().len() == 1 by {
        match last_for(es, pick, k) {
            Some(t) => {
                let id = choose|id: CDDAIdentifier| id@ == k && T::agrees(after[k], #[trigger] T::spec_with_id(t, id));
                T::lemma_ids(after[k], T::spec_with_id(t, id), t, id);
                T::lemma_ids(t, t, t, id);
                assert(seq![id@].len() == 1);
            },
            None => {
                assert(before.contains_key(k));
            },
        }
    }
}

/// Every terrain, furniture, monster group, overmap terrain and vehicle part
/// that reading files stores is written for one id alone, as converting them needs.
pub proof fn law_read_entries_single(
    d0: IntermediateCDDAJsonData,
    d: IntermediateCDDAJsonData,
    path: String,
    es: Seq<CDDAJsonEntry>,
)
    requires
        all_single(d0.intermediate_terrains.map()),
        all_single(d0.intermediate_furnitures.map()),
        all_single(d0.intermediate_monster_groups.map()),
        all_single(d0.intermediate_overmap_terrains.map()),
        all_single(d0.intermediate_vehicle_parts.map()),
        all_single(d0.intermediate_vehicles.map()),
        all_single(d0.intermediate_overmap_specials.map()),
        all_single(d0.intermediate_overmap_locations.map()),
        entries_added(d0, d, path, es),
    ensures
        all_single(d.intermediate_terrains.map()),
        all_single(d.intermediate_furnitures.map()),
        all_single(d.intermediate_monster_groups.map()),
        all_single(d.intermediate_overmap_terrains.map()),
        all_single(d.intermediate_vehicle_parts.map()),
        all_single(d.intermediate_vehicles.map()),
        all_single(d.intermediate_overmap_specials.map()),
        all_single(d.intermediate_overmap_locations.map()),
{
    lemma_split_single(d0.intermediate_terrains.map(), d.intermediate_terrains.map(), es, |e: CDDAJsonEntry| terrain_of(e), path);
    lemma_split_single(
        d0.intermediate_furnitures.map(),
        d.intermediate_furnitures.map(),
        es,
        |e: CDDAJsonEntry| furniture_of(e),
        path,
    );
    lemma_split_single(
        d0.intermediate_monster_groups.map(),
        d.intermediate_monster_groups.map(),
        es,
        |e: CDDAJsonEntry| monster_group_of(e),
        path,
    );
    lemma_split_single(
        d0.intermediate_overmap_terrains.map(),
        d.intermediate_overmap_terrains.map(),
        es,
        |e: CDDAJsonEntry| overmap_terrain_of(e),
        path,
    );
    lemma_split_single(
        d0.intermediate_vehicle_parts.map(),
        d.intermediate_vehicle_parts.map(),
        es,
        |e: CDDAJsonEntry| vehicle_part_of(e),
        path,
    );
    lemma_split_single(
        d0.intermediate_vehicles.map(),
        d.intermediate_vehicles.map(),
        es,
        |e: CDDAJsonEntry| vehicle_of(e),
        path,
    );
    lemma_split_single(
        d0.intermediate_overmap_specials.map(),
        d.intermediate_overmap_specials.map(),
        es,
        |e: CDDAJsonEntry| overmap_special_of(e),
        path,
    );
    lemma_split_single(
        d0.intermediate_overmap_locations.map(),
        d.intermediate_overmap_locations.map(),
        es,
        |e: CDDAJsonEntry| overmap_location_of(e),
        path,
    );
}

/// The maps that the game builds in code rather than from json, by name,
/// with the terrain each is filled with.
pub open spec fn hardcoded_fill(k: Seq<char>) -> Option<Seq<char>> {
    if k == "forest"@ {
        Some("t_region_groundcover"@)
    } else if k == "river_curved_not"@ || k == "river_straight"@ || k == "river_curved"@ || k == "lake_shore"@ || k == "ocean_shore"@ || k == "ravine_edge"@ {
        Some("t_water"@)
    } else if k == "subway_straight"@ || k == "subway_curved"@ || k == "subway_end"@ || k == "subway_tee"@ || k == "subway_four_way"@ {
        Some("t_road"@)
    } else {
        None
    }
}

/// Stores a new map filled with `fill` under `name`.
fn add_filled(map: &mut KeyedMap<CDDAIdentifier, MapGen>, name: &str, fill: &str)
    ensures
        final(map).map().dom() == old(map).map().dom().insert(name@),
        forall|k: Seq<char>| k != name@ && #[trigger] old(map).map().contains_key(k) ==> final(map).map()[k] == old(map).map()[k],
        is_default_map(final(map).map()[name@]),
        final(map).map()[name@].common.fill matches Some(DistributionInner::Normal(f)) && f@ == fill@,
{
    map.insert(CDDAIdentifier::from_str(name), MapGen::default_filled(CDDAIdentifier::from_str(fill)));
}

impl DeserializedCDDAJsonData {
    /// Adds the maps that the game builds in code (see `hardcoded_fill`),
    /// each a new map filled with its terrain.
    pub fn add_hardcoded_map_data(&mut self)
        ensures
            forall|k: Seq<char>| #[trigger]
                final(self).map_data.map().contains_key(k) <==> (old(self).map_data.map().contains_key(k)
                    || hardcoded_fill(k) is Some),
            forall|k: Seq<char>| #[trigger]
                final(self).map_data.map().contains_key(k) ==> match hardcoded_fill(k) {
                    Some(t) => is_default_map(final(self).map_data.map()[k]) && (final(self).map_data.map()[k].common.fill matches Some(
                        DistributionInner::Normal(f),
                    ) && f@ == t),
                    None => final(self).map_data.map()[k] == old(self).map_data.map()[k],
                },
            final(self).palettes == old(self).palettes,
            final(self).region_settings == old(self).region_settings,
            final(self).terrain == old(self).terrain,
            final(self).furniture == old(self).furniture,
            final(self).overmap_terrains == old(self).overmap_terrains,
            final(self).vehicle_parts == old(self).vehicle_parts,
            final(self).monster_groups == old(self).monster_groups,
            final(self).overmap_locations == old(self).overmap_locations,
            final(self).overmap_specials == old(self).overmap_specials,
            final(self).vehicles == old(self).vehicles,
            final(self).item_groups == old(self).item_groups,
    {
        proof {
            reveal_strlit("forest");
            reveal_strlit("lake_shore");
            reveal_strlit("ocean_shore");
            reveal_strlit("ravine_edge");
            reveal_strlit("river_curved");
            reveal_strlit("river_curved_not");
            reveal_strlit("river_straight");
            reveal_strlit("subway_curved");
            reveal_strlit("subway_end");
            reveal_strlit("subway_four_way");
            reveal_strlit("subway_straight");
            reveal_strlit("subway_tee");
            reveal_strlit("t_region_groundcover");
            reveal_strlit("t_road");
            reveal_strlit("t_water");
        }
        let ghost m0 = self.map_data.map();
        add_filled(&mut self.map_data, "forest", "t_region_groundcover");
        let ghost m1 = self.map_data.map();
        proof {
            assert(m1.contains_key("forest"@));
        }
        add_filled(&mut self.map_data, "river_curved_not", "t_water");
        let ghost m2 = self.map_data.map();
        proof {
            assert(m2.contains_key("river_curved_not"@));
            assert("forest"@.len() != "river_curved_not"@.len()) by { reveal_strlit("forest"); reveal_strlit("river_curved_not"); }
            assert(m1.contains_key("forest"@));
            assert(m2["forest"@] == m1["forest"@]);
        }
        add_filled(&mut self.map_data, "river_straight", "t_water");
        let ghost m3 = self.map_data.map();
        proof {
            assert(m3.contains_key("river_straight"@));
            assert("forest"@.len() != "river_straight"@.len()) by { reveal_strlit("forest"); reveal_strlit("river_straight"); }
            assert(m2.contains_key("forest"@));
            assert(m3["forest"@] == m2["forest"@]);
            assert("river_curved_not"@.len() != "river_straight"@.len()) by { reveal_strlit("river_curved_not"); reveal_strlit("river_straight"); }
            assert(m2.contains_key("river_curved_not"@));
            assert(m3["river_curved_not"@] == m2["river_curved_not"@]);
        }
        add_filled(&mut self.map_data, "river_curved", "t_water");
        let ghost m4 = self.map_data.map();
        proof {
            assert(m4.contains_key("river_curved"@));
            assert("forest"@.len() != "river_curved"@.len()) by { reveal_strlit("forest"); reveal_strlit("river_curved"); }
            assert(m3.contains_key("forest"@));
            assert(m4["forest"@] == m3["forest"@]);
            assert("river_curved_not"@.len() != "river_curved"@.len()) by { reveal_strlit("river_curved_not"); reveal_strlit("river_curved"); }
            assert(m3.contains_key("river_curved_not"@));
            assert(m4["river_curved_not"@] == m3["river_curved_not"@]);
            assert("river_straight"@.len() != "river_curved"@.len()) by { reveal_strlit("river_straight"); reveal_strlit("river_curved"); }
            assert(m3.contains_key("river_straight"@));
            assert(m4["river_straight"@] == m3["river_straight"@]);
        }
        add_filled(&mut self.map_data, "subway_straight", "t_road");
        let ghost m5 = self.map_data.map();
        proof {
            assert(m5.contains_key("subway_straight"@));
            assert("forest"@.len() != "subway_straight"@.len()) by { reveal_strlit("forest"); reveal_strlit("subway_straight"); }
            assert(m4.contains_key("forest"@));
            assert(m5["forest"@] == m4["forest"@]);
            assert("river_curved_not"@.len() != "subway_straight"@.len()) by { reveal_strlit("river_curved_not"); reveal_strlit("subway_straight"); }
            assert(m4.contains_key("river_curved_not"@));
            assert(m5["river_curved_not"@] == m4["river_curved_not"@]);
            assert("river_straight"@.len() != "subway_straight"@.len()) by { reveal_strlit("river_straight"); reveal_strlit("subway_straight"); }
            assert(m4.contains_key("river_straight"@));
            assert(m5["river_straight"@] == m4["river_straight"@]);
            assert("river_curved"@.len() != "subway_straight"@.len()) by { reveal_strlit("river_curved"); reveal_strlit("subway_straight"); }
            assert(m4.contains_key("river_curved"@));
            assert(m5["river_curved"@] == m4["river_curved"@]);
        }
        add_filled(&mut self.map_data, "subway_curved", "t_road");
        let ghost m6 = self.map_data.map();
        proof {
            assert(m6.contains_key("subway_curved"@));
            assert("forest"@.len() != "subway_curved"@.len()) by { reveal_strlit("forest"); reveal_strlit("subway_curved"); }
            assert(m5.contains_key("forest"@));
            assert(m6["forest"@] == m5["forest"@]);
            assert("river_curved_not"@.len() != "subway_curved"@.len()) by { reveal_strlit("river_curved_not"); reveal_strlit("subway_curved"); }
            assert(m5.contains_key("river_curved_not"@));
            assert(m6["river_curved_not"@] == m5["river_curved_not"@]);
            assert("river_straight"@.len() != "subway_curved"@.len()) by { reveal_strlit("river_straight"); reveal_strlit("subway_curved"); }
            assert(m5.contains_key("river_straight"@));
            assert(m6["river_straight"@] == m5["river_straight"@]);
            assert("river_curved"@.len() != "subway_curved"@.len()) by { reveal_strlit("river_curved"); reveal_strlit("subway_curved"); }
            assert(m5.contains_key("river_curved"@));
            assert(m6["river_curved"@] == m5["river_curved"@]);
            assert("subway_straight"@.len() != "subway_curved"@.len()) by { reveal_strlit("subway_straight"); reveal_strlit("subway_curved"); }
            assert(m5.contains_key("subway_straight"@));
            assert(m6["subway_straight"@] == m5["subway_straight"@]);
        }
        add_filled(&mut self.map_data, "subway_end", "t_road");
        let ghost m7 = self.map_data.map();
        proof {
            assert(m7.contains_key("subway_end"@));
            assert("forest"@.len() != "subway_end"@.len()) by { reveal_strlit("forest"); reveal_strlit("subway_end"); }
            assert(m6.contains_key("forest"@));
            assert(m7["forest"@] == m6["forest"@]);
            assert("river_curved_not"@.len() != "subway_end"@.len()) by { reveal_strlit("river_curved_not"); reveal_strlit("subway_end"); }
            assert(m6.contains_key("river_curved_not"@));
            assert(m7["river_curved_not"@] == m6["river_curved_not"@]);
            assert("river_straight"@.len() != "subway_end"@.len()) by { reveal_strlit("river_straight"); reveal_strlit("subway_end"); }
            assert(m6.contains_key("river_straight"@));
            assert(m7["river_straight"@] == m6["river_straight"@]);
            assert("river_curved"@.len() != "subway_end"@.len()) by { reveal_strlit("river_curved"); reveal_strlit("subway_end"); }
            assert(m6.contains_key("river_curved"@));
            assert(m7["river_curved"@] == m6["river_curved"@]);
            assert("subway_straight"@.len() != "subway_end"@.len()) by { reveal_strlit("subway_straight"); reveal_strlit("subway_end"); }
            assert(m6.contains_key("subway_straight"@));
            assert(m7["subway_straight"@] == m6["subway_straight"@]);
            assert("subway_curved"@.len() != "subway_end"@.len()) by { reveal_strlit("subway_curved"); reveal_strlit("subway_end"); }
            assert(m6.contains_key("subway_curved"@));
            assert(m7["subway_curved"@] == m6["subway_curved"@]);
        }
        add_filled(&mut self.map_data, "subway_tee", "t_road");
        let ghost m8 = self.map_data.map();
        proof {
            assert(m8.contains_key("subway_tee"@));
            assert("forest"@.len() != "subway_tee"@.len()) by { reveal_strlit("forest"); reveal_strlit("subway_tee"); }
            assert(m7.contains_key("forest"@));
            assert(m8["forest"@] == m7["forest"@]);
            assert("river_curved_not"@.len() != "subway_tee"@.len()) by { reveal_strlit("river_curved_not"); reveal_strlit("subway_tee"); }
            assert(m7.contains_key("river_curved_not"@));
            assert(m8["river_curved_not"@] == m7["river_curved_not"@]);
            assert("river_straight"@.len() != "subway_tee"@.len()) by { reveal_strlit("river_straight"); reveal_strlit("subway_tee"); }
            assert(m7.contains_key("river_straight"@));
            assert(m8["river_straight"@] == m7["river_straight"@]);
            assert("river_curved"@.len() != "subway_tee"@.len()) by { reveal_strlit("river_curved"); reveal_strlit("subway_tee"); }
            assert(m7.contains_key("river_curved"@));
            assert(m8["river_curved"@] == m7["river_curved"@]);
            assert("subway_straight"@.len() != "subway_tee"@.len()) by { reveal_strlit("subway_straight"); reveal_strlit("subway_tee"); }
            assert(m7.contains_key("subway_straight"@));
            assert(m8["subway_straight"@] == m7["subway_straight"@]);
            assert("subway_curved"@.len() != "subway_tee"@.len()) by { reveal_strlit("subway_curved"); reveal_strlit("subway_tee"); }
            assert(m7.contains_key("subway_curved"@));
            assert(m8["subway_curved"@] == m7["subway_curved"@]);
            assert("subway_end"@[7] != "subway_tee"@[7]) by { reveal_strlit("subway_end"); reveal_strlit("subway_tee"); }
            assert(m7.contains_key("subway_end"@));
            assert(m8["subway_end"@] == m7["subway_end"@]);
        }
        add_filled(&mut self.map_data, "subway_four_way", "t_road");
        let ghost m9 = self.map_data.map();
        proof {
            assert(m9.contains_key("subway_four_way"@));
            assert("forest"@.len() != "subway_four_way"@.len()) by { reveal_strlit("forest"); reveal_strlit("subway_four_way"); }
            assert(m8.contains_key("forest"@));
            assert(m9["forest"@] == m8["forest"@]);
            assert("river_curved_not"@.len() != "subway_four_way"@.len()) by { reveal_strlit("river_curved_not"); reveal_strlit("subway_four_way"); }
            assert(m8.contains_key("river_curved_not"@));
            assert(m9["river_curved_not"@] == m8["river_curved_not"@]);
            assert("river_straight"@.len() != "subway_four_way"@.len()) by { reveal_strlit("river_straight"); reveal_strlit("subway_four_way"); }
            assert(m8.contains_key("river_straight"@));
            assert(m9["river_straight"@] == m8["river_straight"@]);
            assert("river_curved"@.len() != "subway_four_way"@.len()) by { reveal_strlit("river_curved"); reveal_strlit("subway_four_way"); }
            assert(m8.contains_key("river_curved"@));
            assert(m9["river_curved"@] == m8["river_curved"@]);
            assert("subway_straight"@[7] != "subway_four_way"@[7]) by { reveal_strlit("subway_straight"); reveal_strlit("subway_four_way"); }
            assert(m8.contains_key("subway_straight"@));
            assert(m9["subway_straight"@] == m8["subway_straight"@]);
            assert("subway_curved"@.len() != "subway_four_way"@.len()) by { reveal_strlit("subway_curved"); reveal_strlit("subway_four_way"); }
            assert(m8.contains_key("subway_curved"@));
            assert(m9["subway_curved"@] == m8["subway_curved"@]);
            assert("subway_end"@.len() != "subway_four_way"@.len()) by { reveal_strlit("subway_end"); reveal_strlit("subway_four_way"); }
            assert(m8.contains_key("subway_end"@));
            assert(m9["subway_end"@] == m8["subway_end"@]);
            assert("subway_tee"@.len() != "subway_four_way"@.len()) by { reveal_strlit("subway_tee"); reveal_strlit("subway_four_way"); }
            assert(m8.contains_key("subway_tee"@));
            assert(m9["subway_tee"@] == m8["subway_tee"@]);
        }
        add_filled(&mut self.map_data, "lake_shore", "t_water");
        let ghost m10 = self.map_data.map();
        proof {
            assert(m10.contains_key("lake_shore"@));
            assert("forest"@.len() != "lake_shore"@.len()) by { reveal_strlit("forest"); reveal_strlit("lake_shore"); }
            assert(m9.contains_key("forest"@));
            assert(m10["forest"@] == m9["forest"@]);
            assert("river_curved_not"@.len() != "lake_shore"@.len()) by { reveal_strlit("river_curved_not"); reveal_strlit("lake_shore"); }
            assert(m9.contains_key("river_curved_not"@));
            assert(m10["river_curved_not"@] == m9["river_curved_not"@]);
            assert("river_straight"@.len() != "lake_shore"@.len()) by { reveal_strlit("river_straight"); reveal_strlit("lake_shore"); }
            assert(m9.contains_key("river_straight"@));
            assert(m10["river_straight"@] == m9["river_straight"@]);
            assert("river_curved"@.len() != "lake_shore"@.len()) by { reveal_strlit("river_curved"); reveal_strlit("lake_shore"); }
            assert(m9.contains_key("river_curved"@));
            assert(m10["river_curved"@] == m9["river_curved"@]);
            assert("subway_straight"@.len() != "lake_shore"@.len()) by { reveal_strlit("subway_straight"); reveal_strlit("lake_shore"); }
            assert(m9.contains_key("subway_straight"@));
            assert(m10["subway_straight"@] == m9["subway_straight"@]);
            assert("subway_curved"@.len() != "lake_shore"@.len()) by { reveal_strlit("subway_curved"); reveal_strlit("lake_shore"); }
            assert(m9.contains_key("subway_curved"@));
            assert(m10["subway_curved"@] == m9["subway_curved"@]);
            assert("subway_end"@[0] != "lake_shore"@[0]) by { reveal_strlit("subway_end"); reveal_strlit("lake_shore"); }
            assert(m9.contains_key("subway_end"@));
            assert(m10["subway_end"@] == m9["subway_end"@]);
            assert("subway_tee"@[0] != "lake_shore"@[0]) by { reveal_strlit("subway_tee"); reveal_strlit("lake_shore"); }
            assert(m9.contains_key("subway_tee"@));
            assert(m10["subway_tee"@] == m9["subway_tee"@]);
            assert("subway_four_way"@.len() != "lake_shore"@.len()) by { reveal_strlit("subway_four_way"); reveal_strlit("lake_shore"); }
            assert(m9.contains_key("subway_four_way"@));
            assert(m10["subway_four_way"@] == m9["subway_four_way"@]);
        }
        add_filled(&mut self.map_data, "ocean_shore", "t_water");
        let ghost m11 = self.map_data.map();
        proof {
            assert(m11.contains_key("ocean_shore"@));
            assert("forest"@.len() != "ocean_shore"@.len()) by { reveal_strlit("forest"); reveal_strlit("ocean_shore"); }
            assert(m10.contains_key("forest"@));
            assert(m11["forest"@] == m10["forest"@]);
            assert("river_curved_not"@.len() != "ocean_shore"@.len()) by { reveal_strlit("river_curved_not"); reveal_strlit("ocean_shore"); }
            assert(m10.contains_key("river_curved_not"@));
            assert(m11["river_curved_not"@] == m10["river_curved_not"@]);
            assert("river_straight"@.len() != "ocean_shore"@.len()) by { reveal_strlit("river_straight"); reveal_strlit("ocean_shore"); }
            assert(m10.contains_key("river_straight"@));
            assert(m11["river_straight"@] == m10["river_straight"@]);
            assert("river_curved"@.len() != "ocean_shore"@.len()) by { reveal_strlit("river_curved"); reveal_strlit("ocean_shore"); }
            assert(m10.contains_key("river_curved"@));
            assert(m11["river_curved"@] == m10["river_curved"@]);
            assert("subway_straight"@.len() != "ocean_shore"@.len()) by { reveal_strlit("subway_straight"); reveal_strlit("ocean_shore"); }
            assert(m10.contains_key("subway_straight"@));
            assert(m11["subway_straight"@] == m10["subway_straight"@]);
            assert("subway_curved"@.len() != "ocean_shore"@.len()) by { reveal_strlit("subway_curved"); reveal_strlit("ocean_shore"); }
            assert(m10.contains_key("subway_curved"@));
            assert(m11["subway_curved"@] == m10["subway_curved"@]);
            assert("subway_end"@.len() != "ocean_shore"@.len()) by { reveal_strlit("subway_end"); reveal_strlit("ocean_shore"); }
            assert(m10.contains_key("subway_end"@));
            assert(m11["subway_end"@] == m10["subway_end"@]);
            assert("subway_tee"@.len() != "ocean_shore"@.len()) by { reveal_strlit("subway_tee"); reveal_strlit("ocean_shore"); }
            assert(m10.contains_key("subway_tee"@));
            assert(m11["subway_tee"@] == m10["subway_tee"@]);
            assert("subway_four_way"@.len() != "ocean_shore"@.len()) by { reveal_strlit("subway_four_way"); reveal_strlit("ocean_shore"); }
            assert(m10.contains_key("subway_four_way"@));
            assert(m11["subway_four_way"@] == m10["subway_four_way"@]);
            assert("lake_shore"@.len() != "ocean_shore"@.len()) by { reveal_strlit("lake_shore"); reveal_strlit("ocean_shore"); }
            assert(m10.contains_key("lake_shore"@));
            assert(m11["lake_shore"@] == m10["lake_shore"@]);
        }
        add_filled(&mut self.map_data, "ravine_edge", "t_water");
        let ghost m12 = self.map_data.map();
        proof {
            assert(m12.contains_key("ravine_edge"@));
            assert("forest"@.len() != "ravine_edge"@.len()) by { reveal_strlit("forest"); reveal_strlit("ravine_edge"); }
            assert(m11.contains_key("forest"@));
            assert(m12["forest"@] == m11["forest"@]);
            assert("river_curved_not"@.len() != "ravine_edge"@.len()) by { reveal_strlit("river_curved_not"); reveal_strlit("ravine_edge"); }
            assert(m11.contains_key("river_curved_not"@));
            assert(m12["river_curved_not"@] == m11["river_curved_not"@]);
            assert("river_straight"@.len() != "ravine_edge"@.len()) by { reveal_strlit("river_straight"); reveal_strlit("ravine_edge"); }
            assert(m11.contains_key("river_straight"@));
            assert(m12["river_straight"@] == m11["river_straight"@]);
            assert("river_curved"@.len() != "ravine_edge"@.len()) by { reveal_strlit("river_curved"); reveal_strlit("ravine_edge"); }
            assert(m11.contains_key("river_curved"@));
            assert(m12["river_curved"@] == m11["river_curved"@]);
            assert("subway_straight"@.len() != "ravine_edge"@.len()) by { reveal_strlit("subway_straight"); reveal_strlit("ravine_edge"); }
            assert(m11.contains_key("subway_straight"@));
            assert(m12["subway_straight"@] == m11["subway_straight"@]);
            assert("subway_curved"@.len() != "ravine_edge"@.len()) by { reveal_strlit("subway_curved"); reveal_strlit("ravine_edge"); }
            assert(m11.contains_key("subway_curved"@));
            assert(m12["subway_curved"@] == m11["subway_curved"@]);
            assert("subway_end"@.len() != "ravine_edge"@.len()) by { reveal_strlit("subway_end"); reveal_strlit("ravine_edge"); }
            assert(m11.contains_key("subway_end"@));
            assert(m12["subway_end"@] == m11["subway_end"@]);
            assert("subway_tee"@.len() != "ravine_edge"@.len()) by { reveal_strlit("subway_tee"); reveal_strlit("ravine_edge"); }
            assert(m11.contains_key("subway_tee"@));
            assert(m12["subway_tee"@] == m11["subway_tee"@]);
            assert("subway_four_way"@.len() != "ravine_edge"@.len()) by { reveal_strlit("subway_four_way"); reveal_strlit("ravine_edge"); }
            assert(m11.contains_key("subway_four_way"@));
            assert(m12["subway_four_way"@] == m11["subway_four_way"@]);
            assert("lake_shore"@.len() != "ravine_edge"@.len()) by { reveal_strlit("lake_shore"); reveal_strlit("ravine_edge"); }
            assert(m11.contains_key("lake_shore"@));
            assert(m12["lake_shore"@] == m11["lake_shore"@]);
            assert("ocean_shore"@[0] != "ravine_edge"@[0]) by { reveal_strlit("ocean_shore"); reveal_strlit("ravine_edge"); }
            assert(m11.contains_key("ocean_shore"@));
            assert(m12["ocean_shore"@] == m11["ocean_shore"@]);
        }
        proof {
            assert forall|k: Seq<char>| #[trigger] self.map_data.map().contains_key(k) && hardcoded_fill(k) is None implies self.map_data.map()[k] == m0[k] by {
                assert(m12[k] == m11[k]);
                assert(m11[k] == m10[k]);
                assert(m10[k] == m9[k]);
                assert(m9[k] == m8[k]);
                assert(m8[k] == m7[k]);
                assert(m7[k] == m6[k]);
                assert(m6[k] == m5[k]);
                assert(m5[k] == m4[k]);
                assert(m4[k] == m3[k]);
                assert(m3[k] == m2[k]);
                assert(m2[k] == m1[k]);
                assert(m1[k] == m0[k]);
            }
        }
    }
}

} // verus!
