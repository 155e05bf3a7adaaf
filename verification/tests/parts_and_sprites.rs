use cdda_map_editor::apply::pick_weighted;
use cdda_map_editor::cdda_json::{CDDATerrain, CDDAVehiclePart, DeserializedCDDAJsonData, TileLayer};
use cdda_map_editor::keyed_map::KeyedMap;
use cdda_map_editor::legacy_tilesheet::LegacyTilesheet;
use cdda_map_editor::mapped_id::{MappedCDDAId, TilesheetCDDAId};
use cdda_map_editor::sprite_picker::{add_connections_from_flags, ids_connect};
use cdda_map_editor::tileset::{FgBgIds, SingleSprite, Sprite};
use cdda_map_editor::types::{CDDAIdentifier, MeabyVec, Weighted};
use cdda_map_editor::vehicles::{
    part_and_variant_from_ident, select_vehicle_parts, variant_of_name, Location, VehiclePartVariant,
};

fn id(s: &str) -> CDDAIdentifier {
    CDDAIdentifier(s.to_string())
}

#[test]
fn part_and_variant_split_at_hash() {
    let (part, variant) = part_and_variant_from_ident(id("frame#cross"));
    assert_eq!(part, id("frame"));
    assert_eq!(variant, Some(VehiclePartVariant::Cross));
    let (part, variant) = part_and_variant_from_ident(id("vp_frame#vertical2"));
    assert_eq!(part, id("vp_frame"));
    assert_eq!(variant, Some(VehiclePartVariant::Vertical2));
    let (part, variant) = part_and_variant_from_ident(id("vp_frame#\"cross\""));
    assert_eq!(part, id("vp_frame#\"cross\""));
    assert_eq!(variant, None);
    let (part, variant) = part_and_variant_from_ident(id("vp_seat"));
    assert_eq!(part, id("vp_seat"));
    assert_eq!(variant, None);
    let (part, variant) = part_and_variant_from_ident(id("vp_frame#sideways"));
    assert_eq!(part, id("vp_frame#sideways"));
    assert_eq!(variant, None);
}

#[test]
fn variant_names() {
    assert_eq!(variant_of_name("bike_read"), Some(VehiclePartVariant::BikeRead));
    assert_eq!(variant_of_name("vertical2"), Some(VehiclePartVariant::Vertical2));
    assert_eq!(variant_of_name("Cross"), None);
}

#[test]
fn locations_and_priorities() {
    assert_eq!(Location::from_str("on_roof"), Some(Location::OnRoof));
    assert_eq!(Location::from_str("Axle"), Some(Location::Axle));
    assert_eq!(Location::from_str("attic"), None);
    assert_eq!(Location::OnRoof.priority(), 4);
    assert_eq!(Location::Structure.priority(), 1);
    assert_eq!(Location::Armor.priority(), 0);
}

fn part(name: &str, location: Option<&str>) -> CDDAVehiclePart {
    CDDAVehiclePart { id: id(name), looks_like: None, name: None, flags: vec![], location: location.map(|l| l.to_string()) }
}

#[test]
fn drawn_part_is_the_one_of_highest_priority() {
    let mut known = KeyedMap::new();
    known.insert(id("vp_frame"), part("vp_frame", Some("structure")));
    known.insert(id("vp_roof"), part("vp_roof", Some("on_roof")));
    known.insert(id("vp_seat"), part("vp_seat", None));
    let parts = vec![((0, 0), id("vp_frame")), ((0, 0), id("vp_roof")), ((0, 0), id("vp_seat")), ((1, 0), id("vp_seat"))];
    let selected = select_vehicle_parts(&parts, &known);
    assert_eq!(selected.len(), 2);
    let (top, _, prio) = selected.get(&(0, 0)).unwrap();
    assert_eq!(top, &id("vp_roof"));
    assert_eq!(*prio, 4);
    assert_eq!(selected.get(&(1, 0)).unwrap().0, id("vp_seat"));
}

#[test]
fn keyed_map_keeps_insertion_order() {
    let mut m = KeyedMap::new();
    m.insert(id("b"), 1);
    m.insert(id("a"), 2);
    m.insert(id("b"), 3);
    assert_eq!(m.len(), 2);
    assert_eq!(m.key_at(0), &id("b"));
    assert_eq!(*m.value_at(0), 3);
    assert_eq!(m.remove(&id("b")), Some(3));
    assert_eq!(m.get(&id("b")), None);
    assert_eq!(m.get(&id("a")), Some(&2));
}

#[test]
fn weighted_pick_only_chooses_positive_weights() {
    let list = vec![Weighted::new("never", 0), Weighted::new("always", 4)];
    for _ in 0..10 {
        assert_eq!(pick_weighted(&list).ok(), Some(1));
    }
    let none: Vec<Weighted<&str>> = vec![Weighted::new("x", 0)];
    assert!(pick_weighted(&none).is_err());
}

fn terrain(name: &str, looks_like: Option<&str>, flags: &[&str], groups: &[&str], connects: &[&str]) -> CDDATerrain {
    let ids = |v: &[&str]| if v.is_empty() { None } else { Some(MeabyVec::Vec(v.iter().map(|s| id(s)).collect())) };
    CDDATerrain {
        id: id(name),
        name: None,
        description: None,
        symbol: None,
        looks_like: looks_like.map(id),
        color: None,
        connect_groups: ids(groups),
        connects_to: ids(connects),
        flags: flags.iter().map(|s| s.to_string()).collect(),
    }
}

fn single() -> Sprite {
    Sprite::Single(SingleSprite { ids: FgBgIds::new(None, None), rotates: false, animated: true })
}

#[test]
fn sprite_found_through_postfix_and_looks_like() {
    let mut id_map = KeyedMap::new();
    id_map.insert(id("t_chair"), single());
    id_map.insert(id("vp_seat_cover"), single());
    let sheet = LegacyTilesheet { id_map, fallback_map: KeyedMap::new() };
    let mut data = DeserializedCDDAJsonData::new();
    data.terrain.insert(id("t_throne"), terrain("t_throne", Some("t_big_chair"), &[], &[], &[]));
    data.terrain.insert(id("t_big_chair"), terrain("t_big_chair", Some("t_chair"), &[], &[], &[]));
    let tile = |name: &str, postfix: Option<&str>| {
        let mut t = TilesheetCDDAId::simple(id(name));
        t.postfix = postfix.map(|p| p.to_string());
        MappedCDDAId::simple(t)
    };
    assert!(sheet.get_sprite(&tile("t_throne", None), &data).is_some());
    assert!(sheet.get_sprite(&tile("vp_seat", Some("cover_left")), &data).is_some());
    assert!(sheet.get_sprite(&tile("t_unknown", None), &data).is_none());
    assert!(sheet.get_looks_like_sprite(&id("t_big_chair"), &data).unwrap().is_animated());
}

#[test]
fn connections_from_flags_and_groups() {
    let mut connections = vec![];
    add_connections_from_flags(&vec!["WALL".to_string()], &mut connections);
    assert!(connections.contains(&id("WALL")));
    let mut data = DeserializedCDDAJsonData::new();
    data.terrain.insert(id("t_fence"), terrain("t_fence", None, &[], &["FENCE"], &["FENCE"]));
    data.terrain.insert(id("t_gate"), terrain("t_gate", None, &[], &["FENCE"], &[]));
    data.terrain.insert(id("t_grass"), terrain("t_grass", None, &[], &[], &[]));
    assert!(ids_connect(&id("t_fence"), Some(&id("t_gate")), TileLayer::Terrain, &data));
    assert!(!ids_connect(&id("t_fence"), Some(&id("t_grass")), TileLayer::Terrain, &data));
    assert!(ids_connect(&id("t_grass"), Some(&id("t_grass")), TileLayer::Terrain, &data));
    assert!(!ids_connect(&id("t_fence"), None, TileLayer::Terrain, &data));
}

use cdda_map_editor::apply::ApplyPropertyError;
use cdda_map_editor::map_data::{MapGenVehicle, VehicleStatus};
use cdda_map_editor::map_instance::InstantiatedMapgen;
use cdda_map_editor::overmap_vehicle_data::{CDDAVehicle, VehiclePartPlacement};
use cdda_map_editor::parameters::new_calculated_parameters;
use cdda_map_editor::properties::VehiclesProperty;
use cdda_map_editor::tileset::Rotation;
use cdda_map_editor::vehicles::{VehiclePart, VehiclePartSpriteVariant};

fn vehicle_part(name: &str, location: Option<&str>) -> CDDAVehiclePart {
    CDDAVehiclePart {
        id: id(name),
        looks_like: None,
        name: None,
        flags: vec![],
        location: location.map(|l| l.to_string()),
    }
}

fn cart_data() -> DeserializedCDDAJsonData {
    let mut data = DeserializedCDDAJsonData::new();
    data.vehicle_parts.insert(id("frame"), vehicle_part("frame", Some("structure")));
    data.vehicle_parts.insert(id("seat"), vehicle_part("seat", Some("center")));
    data.vehicles.insert(
        id("cart"),
        CDDAVehicle {
            id: id("cart"),
            name: None,
            parts: vec![
                VehiclePartPlacement {
                    x: 0,
                    y: 0,
                    parts: vec![VehiclePart::Inline(id("frame#cross")), VehiclePart::Object { part: id("seat") }],
                },
                VehiclePartPlacement { x: 1, y: 0, parts: vec![VehiclePart::Inline(id("frame#vertical"))] },
            ],
            flags: vec![],
        },
    );
    data
}

fn cart(status: VehicleStatus, vehicle: &str) -> VehiclesProperty {
    VehiclesProperty {
        vehicles: vec![Weighted {
            data: MapGenVehicle { vehicle: id(vehicle), status, rotation: MeabyVec::Vec(vec![90]) },
            weight: 1,
        }],
    }
}

#[test]
fn vehicle_parts_are_placed_as_furniture() {
    let data = cart_data();
    let mut instance = InstantiatedMapgen::new().calculate_parameters(new_calculated_parameters());
    let placed = cart(VehicleStatus::Perfect, "cart").apply_to_instantiation(
        &mut instance,
        cdda_map_editor::map_instance::MapgenCellCoordinates((5, 5)),
        &data,
        |angle: i32, p: (i32, i32)| if angle == 90 { (-p.1, p.0) } else { p },
        |_angle: i32| Rotation::Deg90,
    );
    assert!(placed.is_ok());
    assert_eq!(instance.instantiated_tiles.len(), 2);
    for i in 0..instance.instantiated_tiles.len() {
        let pos = instance.instantiated_tiles.key_at(i).0;
        let tile = instance.instantiated_tiles.value_at(i);
        let furniture = tile.furniture.as_ref().unwrap();
        assert_eq!(furniture.tilesheet_id.prefix, Some("vp".to_string()));
        assert_eq!(furniture.rotation, Rotation::Deg90);
        assert!(!furniture.is_broken);
        if pos == (5, 5) {
            assert_eq!(furniture.tilesheet_id.id, id("seat"));
            assert_eq!(furniture.tilesheet_id.postfix, None);
        } else {
            assert_eq!(pos, (5, 6));
            assert_eq!(furniture.tilesheet_id.id, id("frame"));
            assert_eq!(furniture.tilesheet_id.postfix, Some("vertical".to_string()));
        }
    }
}

#[test]
fn vehicle_that_is_not_known_is_refused() {
    let data = cart_data();
    let mut instance = InstantiatedMapgen::new().calculate_parameters(new_calculated_parameters());
    let placed = cart(VehicleStatus::LightDamage, "bicycle").apply_to_instantiation(
        &mut instance,
        cdda_map_editor::map_instance::MapgenCellCoordinates((0, 0)),
        &data,
        |_angle: i32, p: (i32, i32)| p,
        |_angle: i32| Rotation::Deg0,
    );
    assert!(matches!(placed, Err(ApplyPropertyError::MissingVehicle(v)) if v == "bicycle"));
    assert_eq!(instance.instantiated_tiles.len(), 0);
}

#[test]
fn sprite_variant_keeps_its_name() {
    assert_eq!(VehiclePartSpriteVariant::new("cross".to_string()).variant, "cross");
}
