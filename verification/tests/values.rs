use indexmap::IndexMap;

use cdda_map_editor::identifier::GetIdentifierError;
use cdda_map_editor::keyed_map::KeyedMap;
use cdda_map_editor::number_or_range::NumberOrRange;
use cdda_map_editor::om_terrain::{OmTerrainMatch, OmTerrainMatchType};
use cdda_map_editor::palettes::{CDDAPalette, KnownCataVariant, Parameter};
use cdda_map_editor::parameters::new_calculated_parameters;
use cdda_map_editor::properties::MapProperties;
use cdda_map_editor::types::{
    CDDADistributionInner, CDDAIdentifier, Distribution, MapGenValue, MeabyVec, MeabyWeighted,
    ParameterIdentifier, Switch, Weighted,
};

fn id(s: &str) -> CDDAIdentifier {
    CDDAIdentifier(s.to_string())
}

fn pid(s: &str) -> ParameterIdentifier {
    ParameterIdentifier(s.to_string())
}

fn params(pairs: &[(&str, &str)]) -> IndexMap<ParameterIdentifier, CDDAIdentifier> {
    pairs.iter().map(|(k, v)| (pid(k), id(v))).collect()
}

#[test]
fn mapgen_value_plain_and_parameter() {
    let p = params(&[("roof", "t_roof_metal")]);
    assert_eq!(MapGenValue::String(id("t_floor")).get_identifier(&p).ok(), Some(id("t_floor")));
    let with_value = MapGenValue::Param { param: pid("roof"), fallback: Some(id("t_roof")) };
    assert_eq!(with_value.get_identifier(&p).ok(), Some(id("t_roof_metal")));
    let fallback = MapGenValue::Param { param: pid("wall"), fallback: Some(id("t_wall")) };
    assert_eq!(fallback.get_identifier(&p).ok(), Some(id("t_wall")));
    let missing = MapGenValue::Param { param: pid("wall"), fallback: None };
    assert!(matches!(missing.get_identifier(&p), Err(GetIdentifierError::MissingFallback(n)) if n == "wall"));
}

#[test]
fn mapgen_value_switch() {
    let mut cases = KeyedMap::new();
    cases.insert(id("t_roof_metal"), id("t_wall_metal"));
    let switch = MapGenValue::Switch { switch: Switch { param: pid("roof"), fallback: id("t_roof_metal") }, cases };
    assert_eq!(switch.get_identifier(&params(&[])).ok(), Some(id("t_wall_metal")));
    match switch.get_identifier(&params(&[("roof", "t_roof_wood")])) {
        Err(GetIdentifierError::MissingSwitchCaseValue(value, param)) => {
            assert_eq!(value, "t_roof_wood");
            assert_eq!(param, "roof");
        },
        _ => panic!("a value without a case is an error"),
    }
}

#[test]
fn mapgen_value_distribution_takes_positive_weight() {
    let d = MapGenValue::Distribution(MeabyVec::Vec(vec![
        MeabyWeighted::Weighted(Weighted::new(CDDADistributionInner::String(id("t_never")), 0)),
        MeabyWeighted::Weighted(Weighted::new(CDDADistributionInner::String(id("t_dirt")), 3)),
    ]));
    for _ in 0..10 {
        assert_eq!(d.get_identifier(&new_calculated_parameters()).ok(), Some(id("t_dirt")));
    }
    let none = MapGenValue::Distribution(MeabyVec::Vec(vec![]));
    assert!(none.get_identifier(&new_calculated_parameters()).is_err());
}

fn palette(name: &str, params: Vec<(&str, &str)>, includes: Vec<&str>) -> CDDAPalette {
    let mut parameters = KeyedMap::new();
    for (p, v) in params {
        parameters.insert(
            pid(p),
            Parameter {
                ty: KnownCataVariant::Other,
                comment: None,
                scope: None,
                default: Distribution {
                    distribution: MeabyVec::Single(MeabyWeighted::NotWeighted(id(v))),
                },
            },
        );
    }
    CDDAPalette {
        id: id(name),
        source: None,
        properties: MapProperties::new(),
        comment: None,
        parameters,
        palettes: includes.into_iter().map(|i| MapGenValue::String(id(i))).collect(),
    }
}

#[test]
fn palette_parameters_include_named_palettes() {
    let mut all = KeyedMap::new();
    all.insert(id("child"), palette("child", vec![("floor", "t_floor_wood")], vec![]));
    let top = palette("top", vec![("roof", "t_roof")], vec!["child"]);
    let calculated = top.calculate_parameters(&all).ok().unwrap();
    assert_eq!(calculated.get(&pid("roof")), Some(&id("t_roof")));
    assert_eq!(calculated.get(&pid("floor")), Some(&id("t_floor_wood")));
    assert_eq!(calculated.len(), 2);
    let missing = palette("top", vec![], vec!["nowhere"]);
    assert!(missing.calculate_parameters(&all).is_err());
}

fn pattern(p: &str, kind: OmTerrainMatchType) -> OmTerrainMatch {
    OmTerrainMatch::of(id(p), Some(kind))
}

#[test]
fn overmap_terrain_patterns() {
    assert!(pattern("house", OmTerrainMatchType::Exact).matches_identifier(&id("house")));
    assert!(!pattern("house", OmTerrainMatchType::Exact).matches_identifier(&id("house_1")));
    assert!(pattern("road", OmTerrainMatchType::Type).matches_identifier(&id("road_ns")));
    assert!(pattern("road_ew", OmTerrainMatchType::Subtype).matches_identifier(&id("road_ew_sidewalk")));
    assert!(!pattern("road_ew", OmTerrainMatchType::Subtype).matches_identifier(&id("road_ns")));
    assert!(pattern("forest", OmTerrainMatchType::Prefix).matches_identifier(&id("forest_thick")));
    assert!(!pattern("forest", OmTerrainMatchType::Prefix).matches_identifier(&id("forestry")));
    assert!(OmTerrainMatch::of(id("water"), None).matches_identifier(&id("lake_water_cube")));
    assert_eq!(OmTerrainMatch::of(id("water"), None).om_terrain_match_type, OmTerrainMatchType::Contains);
}

#[test]
fn number_or_range_lists() {
    assert!(matches!(NumberOrRange::<i32>::from_list(vec![4]), Some(NumberOrRange::Number(4))));
    assert!(matches!(NumberOrRange::<u32>::from_list(vec![1, 5]), Some(NumberOrRange::Range((1, 5)))));
    assert!(NumberOrRange::<i32>::from_list(vec![]).is_none());
    assert!(NumberOrRange::<u32>::from_list(vec![1, 2, 3]).is_none());
    for _ in 0..20 {
        let v = NumberOrRange::<u32>::Range((10, 12)).rand_number();
        assert!(v == 10 || v == 11);
    }
}

use cdda_map_editor::calculate::CalculateRandomParameters;
use cdda_map_editor::cdda_json::DeserializedCDDAJsonData;
use cdda_map_editor::game_data::{CDDARegionSettings, RegionTerrainAndFurniture};
use cdda_map_editor::instantiate::GetMappedCDDAIdsError;
use cdda_map_editor::map::MapGen;

#[test]
fn instantiated_map_is_filled_with_its_terrain() {
    let map = MapGen::default_filled(id("t_grass"));
    let mut data = DeserializedCDDAJsonData::new();
    assert!(matches!(
        map.instantiate(CalculateRandomParameters, &data),
        Err(GetMappedCDDAIdsError::MissingRegionSettings)
    ));
    data.region_settings.insert(
        id("default"),
        CDDARegionSettings {
            id: id("default"),
            default_oter: vec![],
            default_groundcover: vec![],
            region_terrain_and_furniture: RegionTerrainAndFurniture { terrain: KeyedMap::new(), furniture: KeyedMap::new() },
            source: None,
        },
    );
    let instance = match map.instantiate(CalculateRandomParameters, &data) {
        Ok(i) => i,
        Err(_) => panic!("a filled map with region settings instantiates"),
    };
    assert_eq!(instance.instantiated_tiles.len(), 24 * 24);
    for i in 0..instance.instantiated_tiles.len() {
        let tile = instance.instantiated_tiles.value_at(i);
        assert_eq!(tile.terrain.as_ref().map(|t| t.tilesheet_id.id.clone()), Some(id("t_grass")));
        assert!(tile.furniture.is_none());
    }
}

#[test]
fn meaby_vec_apply_changes_every_value_and_keeps_the_shape() {
    let mut many: MeabyVec<u32> = MeabyVec::Vec(vec![1, 2, 3]);
    many.apply(|x: &mut u32| *x = *x * 10);
    assert!(matches!(&many, MeabyVec::Vec(_)));
    assert_eq!(many.into_vec(), vec![10, 20, 30]);

    let mut one: MeabyVec<u32> = MeabyVec::Single(7);
    one.apply(|x: &mut u32| *x = *x + 1);
    assert!(matches!(one, MeabyVec::Single(8)));

    let mut none: MeabyVec<u32> = MeabyVec::Vec(vec![]);
    none.apply(|x: &mut u32| *x = 0);
    assert!(matches!(&none, MeabyVec::Vec(v) if v.is_empty()));
}

use cdda_map_editor::map::{Cell, MapGenCommon};
use cdda_map_editor::map_data::MapGenField;
use cdda_map_editor::properties::{FieldsProperty, FurnitureProperty};
use cdda_map_editor::types::DistributionInner;
use std::sync::Arc;

fn default_region_data() -> DeserializedCDDAJsonData {
    let mut data = DeserializedCDDAJsonData::new();
    data.region_settings.insert(
        id("default"),
        CDDARegionSettings {
            id: id("default"),
            default_oter: vec![],
            default_groundcover: vec![],
            region_terrain_and_furniture: RegionTerrainAndFurniture { terrain: KeyedMap::new(), furniture: KeyedMap::new() },
            source: None,
        },
    );
    data
}

#[test]
fn furniture_and_field_mappings_land_on_their_cell() {
    let mut map = MapGen::default_filled(id("t_grass"));
    let mut properties = MapProperties::new();
    properties.furniture.insert('f', FurnitureProperty { mapgen_value: MapGenValue::String(id("f_chair")) });
    properties.field.insert(
        'f',
        FieldsProperty {
            field: vec![Weighted { data: MapGenField { field: id("fd_fire"), intensity: None, age: None }, weight: 1 }],
        },
    );
    properties.furniture.insert('n', FurnitureProperty { mapgen_value: MapGenValue::String(id("f_null")) });
    map.common = Arc::new(MapGenCommon {
        fill: Some(DistributionInner::Normal(id("t_grass"))),
        predecessor: None,
        parameters: KeyedMap::new(),
        palettes: vec![],
        flags: vec![],
        properties,
    });
    map.cells.insert((3, 4), Cell { character: 'f' });
    map.cells.insert((5, 6), Cell { character: 'n' });
    let data = default_region_data();
    let instance = match map.instantiate(CalculateRandomParameters, &data) {
        Ok(i) => i,
        Err(_) => panic!("the map instantiates"),
    };
    let mut seen = 0;
    for i in 0..instance.instantiated_tiles.len() {
        let pos = *instance.instantiated_tiles.key_at(i);
        let tile = instance.instantiated_tiles.value_at(i);
        if pos.0 == (3, 4) {
            seen += 1;
            assert_eq!(tile.furniture.as_ref().map(|t| t.tilesheet_id.id.clone()), Some(id("f_chair")));
            assert_eq!(tile.field.as_ref().map(|t| t.tilesheet_id.id.clone()), Some(id("fd_fire")));
            assert_eq!(tile.terrain.as_ref().map(|t| t.tilesheet_id.id.clone()), Some(id("t_grass")));
        } else {
            assert!(tile.furniture.is_none());
            assert!(tile.field.is_none());
        }
    }
    assert_eq!(seen, 1);
}
