use cdda_map_editor::cdda_json::DeserializedCDDAJsonData;
use cdda_map_editor::entries::{
    CDDAOvermapLocationIntermediate, CDDAOvermapSpecialIntermediate, CDDATerrainIntermediate, CDDAVehicleIntermediate,
};
use cdda_map_editor::import::copies_end;
use cdda_map_editor::keyed_map::KeyedMap;
use cdda_map_editor::item::{CDDAItemGroupIntermediate, ItemGroupSubtype};
use cdda_map_editor::loader::{replace_data_in_cdda_data, set_intermediate_data_from_json_entries, CDDAJsonEntry, IntermediateCDDAJsonData};
use cdda_map_editor::overmap_vehicle_data::{OvermapSpecialOvermap, OvermapSpecialSubType, VehiclePartPlacement};
use cdda_map_editor::program_data::{MapSize, MapSizeError, ZLevels};
use cdda_map_editor::types::{CDDAExtendOp, CDDAIdentifier, MeabyVec};
use cdda_map_editor::vehicles::VehiclePart;

fn id(s: &str) -> CDDAIdentifier {
    CDDAIdentifier(s.to_string())
}

fn strings(v: &[&str]) -> Vec<String> {
    v.iter().map(|s| s.to_string()).collect()
}

#[test]
fn z_levels_start_must_not_be_above_end() {
    assert_eq!(ZLevels::new((-1, 1)).ok().map(|z| z.value()), Some((-1, 1)));
    assert_eq!(ZLevels::new((0, 0)).ok().map(|z| z.value()), Some((0, 0)));
    assert!(ZLevels::new((1, -1)).is_err());
}

fn size_error(r: Result<MapSize, MapSizeError>) -> Option<u32> {
    match r {
        Ok(_) => None,
        Err(MapSizeError::InvalidMultiple(s)) => Some(s),
    }
}

#[test]
fn map_sizes_over_24_are_multiples_of_24() {
    assert_eq!(MapSize::new(48, 72).ok().map(|s| s.value()), Some((48, 72)));
    assert_eq!(size_error(MapSize::new(30, 48)), Some(30));
    assert_eq!(size_error(MapSize::new(48, 30)), Some(30));
    assert_eq!(size_error(MapSize::new(10, 100)), Some(100));
    assert_eq!(MapSize::new(10, 20).ok().map(|s| s.value()), Some((10, 20)));
}

fn terrain(name: &str) -> CDDATerrainIntermediate {
    CDDATerrainIntermediate {
        id: MeabyVec::Vec(vec![id(name), id("t_other")]),
        flags: Vec::new(),
        copy_from: None,
        extend: None,
        delete: None,
        name: None,
        description: None,
        symbol: None,
        looks_like: None,
        color: None,
        connect_groups: None,
        connects_to: None,
        source: None,
    }
}

#[test]
fn entries_remember_their_file() {
    let mut inter = IntermediateCDDAJsonData::new();
    set_intermediate_data_from_json_entries(
        &mut inter,
        &"data/json/terrain.json".to_string(),
        vec![CDDAJsonEntry::Terrain(terrain("t_floor"))],
    );
    for name in ["t_floor", "t_other"] {
        let t = inter.intermediate_terrains.get(&id(name)).unwrap();
        assert_eq!(t.source, Some("data/json/terrain.json".to_string()));
    }
}

fn location(name: &str, from: Option<&str>, terrains: &[&str]) -> CDDAOvermapLocationIntermediate {
    CDDAOvermapLocationIntermediate {
        id: MeabyVec::Single(id(name)),
        flags: Vec::new(),
        copy_from: from.map(id),
        extend: None,
        delete: None,
        terrains: terrains.iter().map(|t| id(t)).collect(),
        source: None,
    }
}

#[test]
fn overmap_specials_locations_vehicles_and_item_groups_are_stored() {
    let mut inter = IntermediateCDDAJsonData::new();
    let mut copy = location("land_copy", Some("land"), &[]);
    copy.extend = Some(CDDAExtendOp { flags: Some(strings(&["WILD"])) });
    let special = CDDAOvermapSpecialIntermediate {
        id: MeabyVec::Single(id("house_special")),
        flags: Vec::new(),
        copy_from: None,
        extend: None,
        delete: None,
        ty: OvermapSpecialSubType::Fixed {
            overmaps: vec![OvermapSpecialOvermap { point: (0, 1, 0), overmap: Some(id("house_north")) }],
        },
        source: None,
    };
    let vehicle = CDDAVehicleIntermediate {
        id: MeabyVec::Single(id("car")),
        flags: Vec::new(),
        copy_from: None,
        extend: None,
        delete: None,
        name: None,
        parts: vec![VehiclePartPlacement { x: 0, y: 1, parts: vec![VehiclePart::Inline(id("frame"))] }],
        source: None,
    };
    let group = CDDAItemGroupIntermediate {
        id: id("trash"),
        subtype: ItemGroupSubtype::Collection,
        items: Vec::new(),
        groups: Vec::new(),
        entries: Vec::new(),
    };
    set_intermediate_data_from_json_entries(
        &mut inter,
        &"overmap.json".to_string(),
        vec![
            CDDAJsonEntry::OvermapLocation(location("land", None, &["field", "forest"])),
            CDDAJsonEntry::OvermapLocation(copy),
            CDDAJsonEntry::OvermapSpecial(special),
            CDDAJsonEntry::Vehicle(vehicle),
            CDDAJsonEntry::ItemGroup(group),
        ],
    );
    let mut data = DeserializedCDDAJsonData::new();
    assert!(replace_data_in_cdda_data(&mut data, inter).is_ok());
    let copied = data.overmap_locations.get(&id("land_copy")).unwrap();
    // a required field is taken from the copying entry, which has none
    assert_eq!(copied.terrains, Vec::<CDDAIdentifier>::new());
    assert_eq!(data.overmap_locations.get(&id("land")).unwrap().terrains, vec![id("field"), id("forest")]);
    assert_eq!(copied.flags, strings(&["WILD"]));
    match &data.overmap_specials.get(&id("house_special")).unwrap().ty {
        OvermapSpecialSubType::Fixed { overmaps } => {
            assert_eq!(overmaps.len(), 1);
            assert_eq!(overmaps[0].point, (0, 1, 0));
            assert_eq!(overmaps[0].overmap, Some(id("house_north")));
        },
        OvermapSpecialSubType::Mutable { .. } => panic!("a fixed special stays fixed"),
    }
    let car = data.vehicles.get(&id("car")).unwrap();
    assert_eq!(car.parts.len(), 1);
    assert!(matches!(&car.parts[0].parts[0], VehiclePart::Inline(p) if *p == id("frame")));
    assert_eq!(data.item_groups.get(&id("trash")).unwrap().id, id("trash"));
}

#[test]
fn copy_chains_that_loop_do_not_end() {
    let mut all = KeyedMap::new();
    all.insert(id("a"), location("a", Some("b"), &[]));
    all.insert(id("b"), location("b", Some("c"), &[]));
    all.insert(id("c"), location("c", None, &[]));
    assert!(copies_end(&all));
    all.insert(id("c"), location("c", Some("a"), &[]));
    assert!(!copies_end(&all));
}

#[test]
fn created_project_is_opened_and_remembered() {
    let mut data = cdda_map_editor::program_data::ProgramData {
        recent_projects: KeyedMap::new(),
        openable_projects: KeyedMap::new(),
        opened_project: None,
        available_tilesets: None,
    };
    data.create_and_open_project("town".to_string(), "/maps/town".to_string());
    assert_eq!(data.opened_project, Some("town".to_string()));
    assert_eq!(data.openable_projects.get(&"town".to_string()), Some(&"/maps/town".to_string()));
    assert_eq!(data.recent_projects.get(&"town".to_string()), Some(&"/maps/town".to_string()));
    data.create_and_open_project("town".to_string(), "/maps/town2".to_string());
    assert_eq!(data.openable_projects.len(), 1);
    assert_eq!(data.recent_projects.get(&"town".to_string()), Some(&"/maps/town2".to_string()));
}
