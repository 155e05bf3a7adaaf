use cdda_map_editor::cdda_json::DeserializedCDDAJsonData;
use cdda_map_editor::entries::{
    CDDAMonsterGroup, CDDATerrainIntermediate, CDDAVehiclePartDataIntermediate, GetRandomMonsterError, MonsterGroupMonster,
    MonsterGroupMonsterKind,
};
use cdda_map_editor::import::calculate_copy;
use cdda_map_editor::keyed_map::KeyedMap;
use cdda_map_editor::loader::{
    replace_data_in_cdda_data, set_intermediate_data_from_json_entries, CDDAJsonEntry,
    IntermediateCDDAJsonData,
};
use cdda_map_editor::number_or_range::NumberOrRange;
use cdda_map_editor::parameters::new_calculated_parameters;
use cdda_map_editor::types::{CDDADeleteOp, CDDAExtendOp, CDDAIdentifier, DistributionInner, MeabyVec};

fn id(s: &str) -> CDDAIdentifier {
    CDDAIdentifier(s.to_string())
}

fn strings(v: &[&str]) -> Vec<String> {
    v.iter().map(|s| s.to_string()).collect()
}

fn terrain(ids: &[&str], flags: &[&str], symbol: Option<char>) -> CDDATerrainIntermediate {
    CDDATerrainIntermediate {
        id: MeabyVec::Vec(ids.iter().map(|s| id(s)).collect()),
        flags: strings(flags),
        copy_from: None,
        extend: None,
        delete: None,
        name: None,
        description: None,
        symbol,
        looks_like: None,
        color: None,
        connect_groups: None,
        connects_to: None,
        source: None,
    }
}

fn copying(name: &str, from: &str, extend: &[&str], delete: &[&str]) -> CDDATerrainIntermediate {
    let mut t = terrain(&[name], &[], None);
    t.copy_from = Some(id(from));
    t.extend = Some(CDDAExtendOp { flags: Some(strings(extend)) });
    t.delete = Some(CDDADeleteOp { flags: Some(strings(delete)) });
    t
}

#[test]
fn entries_are_stored_per_id_and_later_ones_win() {
    let mut data = IntermediateCDDAJsonData::new();
    let entries = vec![
        CDDAJsonEntry::Terrain(terrain(&["t_a", "t_b"], &[], Some('a'))),
        CDDAJsonEntry::Unused,
        CDDAJsonEntry::Terrain(terrain(&["t_b"], &[], Some('b'))),
    ];
    set_intermediate_data_from_json_entries(&mut data, &"data/json/terrain.json".to_string(), entries);
    assert_eq!(data.intermediate_terrains.len(), 2);
    let a = data.intermediate_terrains.get(&id("t_a")).unwrap();
    assert_eq!(a.symbol, Some('a'));
    match &a.id {
        MeabyVec::Single(only) => assert_eq!(only, &id("t_a")),
        MeabyVec::Vec(v) => assert_eq!(v, &vec![id("t_a")]),
    }
    assert_eq!(data.intermediate_terrains.get(&id("t_b")).unwrap().symbol, Some('b'));
    assert_eq!(data.intermediate_map_data.len(), 0);
}

#[test]
fn copies_extend_and_delete_flags() {
    let mut all = KeyedMap::new();
    all.insert(id("t_base"), terrain(&["t_base"], &["A", "B"], Some('#')));
    all.insert(id("t_mid"), copying("t_mid", "t_base", &["C"], &[]));
    let child = copying("t_child", "t_mid", &["D"], &["A"]);
    all.insert(id("t_child"), copying("t_child", "t_mid", &["D"], &["A"]));
    let r = calculate_copy(&child, &all);
    assert_eq!(r.flags, strings(&["B", "C", "D"]));
    assert_eq!(r.symbol, Some('#'));
}

#[test]
fn copy_of_missing_entry_keeps_entry() {
    let all: KeyedMap<CDDAIdentifier, CDDATerrainIntermediate> = KeyedMap::new();
    let child = copying("t_child", "t_gone", &["D"], &[]);
    let r = calculate_copy(&child, &all);
    assert_eq!(r.flags, Vec::<String>::new());
    assert_eq!(r.copy_from, Some(id("t_gone")));
}

#[test]
fn replace_data_resolves_copies() {
    let mut inter = IntermediateCDDAJsonData::new();
    set_intermediate_data_from_json_entries(
        &mut inter,
        &"terrain.json".to_string(),
        vec![
            CDDAJsonEntry::Terrain(terrain(&["t_base"], &["A", "B"], Some('#'))),
            CDDAJsonEntry::Terrain(copying("t_child", "t_base", &["C"], &["B"])),
        ],
    );
    let mut data = DeserializedCDDAJsonData::new();
    assert!(replace_data_in_cdda_data(&mut data, inter).is_ok());
    let child = data.terrain.get(&id("t_child")).unwrap();
    assert_eq!(child.flags, strings(&["A", "C"]));
    assert_eq!(child.symbol, Some('#'));
    assert_eq!(data.terrain.get(&id("t_base")).unwrap().flags, strings(&["A", "B"]));
}

fn vehicle_part(name: &str, from: Option<&str>, looks_like: Option<&str>, location: Option<&str>) -> CDDAVehiclePartDataIntermediate {
    CDDAVehiclePartDataIntermediate {
        id: MeabyVec::Single(id(name)),
        flags: Vec::new(),
        copy_from: from.map(id),
        extend: None,
        delete: None,
        looks_like: looks_like.map(id),
        name: None,
        location: location.map(|l| l.to_string()),
        source: None,
    }
}

#[test]
fn vehicle_parts_are_read_and_copied() {
    let mut inter = IntermediateCDDAJsonData::new();
    let mut base = vehicle_part("frame", None, Some("frame_wood"), Some("structure"));
    base.flags = strings(&["MOUNTABLE"]);
    let mut seat = vehicle_part("seat", Some("frame"), None, Some("center"));
    seat.extend = Some(CDDAExtendOp { flags: Some(strings(&["SEAT"])) });
    set_intermediate_data_from_json_entries(
        &mut inter,
        &"vehicleparts.json".to_string(),
        vec![CDDAJsonEntry::VehiclePart(base), CDDAJsonEntry::VehiclePart(seat)],
    );
    assert_eq!(inter.intermediate_vehicle_parts.len(), 2);
    let mut data = DeserializedCDDAJsonData::new();
    assert!(replace_data_in_cdda_data(&mut data, inter).is_ok());
    let seat = data.vehicle_parts.get(&id("seat")).unwrap();
    assert_eq!(seat.flags, strings(&["MOUNTABLE", "SEAT"]));
    assert_eq!(seat.looks_like, Some(id("frame_wood")));
    assert_eq!(seat.location, Some("center".to_string()));
    assert_eq!(data.vehicle_parts.get(&id("frame")).unwrap().location, Some("structure".to_string()));
}

#[test]
fn hardcoded_maps_are_filled() {
    let mut data = DeserializedCDDAJsonData::new();
    data.add_hardcoded_map_data();
    let fill_of = |name: &str| match &data.map_data.get(&id(name)).unwrap().common.fill {
        Some(DistributionInner::Normal(f)) => f.0.clone(),
        _ => String::new(),
    };
    assert_eq!(fill_of("forest"), "t_region_groundcover");
    assert_eq!(fill_of("lake_shore"), "t_water");
    assert_eq!(fill_of("subway_four_way"), "t_road");
    assert_eq!(data.map_data.len(), 12);
    assert!(data.map_data.get(&id("house")).is_none());
}

fn member(kind: MonsterGroupMonsterKind, weight: i32) -> MonsterGroupMonster {
    MonsterGroupMonster { id: kind, weight, cost_multiplier: 1, pack_size: NumberOrRange::Number(1) }
}

#[test]
fn random_monster_follows_groups() {
    let mut groups = KeyedMap::new();
    groups.insert(
        id("GROUP_ZOMBIE"),
        CDDAMonsterGroup {
            id: id("GROUP_ZOMBIE"),
            monsters: vec![member(MonsterGroupMonsterKind::Monster { monster: id("mon_zombie") }, 10)],
            flags: vec![],
        },
    );
    let outer = CDDAMonsterGroup {
        id: id("GROUP_TOWN"),
        monsters: vec![member(MonsterGroupMonsterKind::Group { group: id("GROUP_ZOMBIE") }, 5)],
        flags: vec![],
    };
    let params = new_calculated_parameters();
    match outer.get_random_monster(&groups, &params) {
        Ok(m) => assert_eq!(m, id("mon_zombie")),
        Err(_) => panic!("the only member leads to a zombie"),
    }
    let missing = CDDAMonsterGroup {
        id: id("GROUP_X"),
        monsters: vec![member(MonsterGroupMonsterKind::Group { group: id("GROUP_NONE") }, 5)],
        flags: vec![],
    };
    assert!(matches!(missing.get_random_monster(&groups, &params), Err(GetRandomMonsterError::MissingMonstergroup(n)) if n == "GROUP_NONE"));
    let empty = CDDAMonsterGroup { id: id("GROUP_E"), monsters: vec![], flags: vec![] };
    assert!(matches!(empty.get_random_monster(&groups, &params), Err(GetRandomMonsterError::WeightedIndexError(_))));
}

use cdda_map_editor::keyed_map::KeyedMap as Keyed;
use cdda_map_editor::map::Cell;
use cdda_map_editor::mapgen_import::{
    CDDAMapDataIntermediate, CDDAMapDataObjectCommonIntermediate, CDDAMapDataObjectIntermediate,
    CharacterMappings, PlaceLists,
};
use cdda_map_editor::om_terrain::OmTerrain;

fn no_mappings() -> CharacterMappings {
    CharacterMappings {
        terrain: Keyed::new(),
        furniture: Keyed::new(),
        items: Keyed::new(),
        monsters: Keyed::new(),
        monster: Keyed::new(),
        nested: Keyed::new(),
        toilets: Keyed::new(),
        fields: Keyed::new(),
        computers: Keyed::new(),
        signs: Keyed::new(),
        gaspumps: Keyed::new(),
        traps: Keyed::new(),
        vehicles: Keyed::new(),
        corpses: Keyed::new(),
    }
}

fn no_places() -> PlaceLists {
    PlaceLists {
        place_furniture: vec![],
        place_toilets: vec![],
        place_terrain: vec![],
        place_computers: vec![],
        place_signs: vec![],
        place_traps: vec![],
        place_gaspumps: vec![],
        place_monsters: vec![],
        place_monster: vec![],
        place_nested: vec![],
        place_fields: vec![],
        place_items: vec![],
        place_vehicles: vec![],
        place_corpses: vec![],
    }
}

fn mapgen(om_terrain: OmTerrain, rows: Vec<&str>, size: (u32, u32)) -> CDDAMapDataIntermediate {
    CDDAMapDataIntermediate {
        update_mapgen_id: None,
        om_terrain: Some(om_terrain),
        nested_mapgen_id: None,
        weight: None,
        object: CDDAMapDataObjectIntermediate {
            fill_ter: Some(DistributionInner::Normal(id("t_floor"))),
            rows: Some(rows.into_iter().map(|r| r.to_string()).collect()),
            mapgen_size: Some(size),
            common: CDDAMapDataObjectCommonIntermediate {
                palettes: vec![],
                parameters: Keyed::new(),
                set: vec![],
                flags: vec![],
                predecessor_mapgen: None,
                mappings: no_mappings(),
                places: no_places(),
            },
        },
    }
}

fn grid_rows() -> Vec<&'static str> {
    let mut rows = vec!["1.......................L......................."];
    for _ in 1..24 {
        rows.push("................................................");
    }
    rows
}

fn cell_at(data: &DeserializedCDDAJsonData, name: &str, p: (u32, u32)) -> Option<char> {
    data.map_data.get(&id(name)).and_then(|m| m.cells.get(&p).map(|c: &Cell| c.character))
}

#[test]
fn replace_data_stores_maps_under_their_names() {
    let mut inter = IntermediateCDDAJsonData::new();
    set_intermediate_data_from_json_entries(
        &mut inter,
        &"mapgen.json".to_string(),
        vec![
            CDDAJsonEntry::Mapgen(mapgen(OmTerrain::Single("house".to_string()), vec!["ab", "cd"], (2, 2))),
            CDDAJsonEntry::Mapgen(mapgen(
                OmTerrain::Duplicate(vec!["shed".to_string(), "barn".to_string()]),
                vec!["x"],
                (2, 1),
            )),
            CDDAJsonEntry::Mapgen(mapgen(
                OmTerrain::Nested(vec![vec!["left".to_string(), "right".to_string()]]),
                grid_rows(),
                (24, 24),
            )),
        ],
    );
    let mut data = DeserializedCDDAJsonData::new();
    assert!(replace_data_in_cdda_data(&mut data, inter).is_ok());
    assert_eq!(data.map_data.len(), 5);
    assert_eq!(cell_at(&data, "house", (1, 1)), Some('d'));
    assert_eq!(cell_at(&data, "house", (0, 1)), Some('c'));
    assert_eq!(data.map_data.get(&id("house")).unwrap().map_size, (2, 2));
    assert_eq!(cell_at(&data, "shed", (0, 0)), Some('x'));
    assert_eq!(cell_at(&data, "barn", (1, 0)), Some(' '));
    assert_eq!(cell_at(&data, "left", (0, 0)), Some('1'));
    assert_eq!(cell_at(&data, "right", (0, 0)), Some('L'));
}

#[test]
fn empty_grid_of_maps_is_an_error() {
    let mut inter = IntermediateCDDAJsonData::new();
    set_intermediate_data_from_json_entries(
        &mut inter,
        &"mapgen.json".to_string(),
        vec![CDDAJsonEntry::Mapgen(mapgen(OmTerrain::Nested(vec![]), vec![], (24, 24)))],
    );
    let mut data = DeserializedCDDAJsonData::new();
    assert!(replace_data_in_cdda_data(&mut data, inter).is_err());
}
